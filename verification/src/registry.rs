//! The per-host credential-store registry used by the proxy: each upstream
//! host gets exactly one cookie store, created lazily on first access and
//! kept for the process lifetime.

use vstd::prelude::*;

use std::sync::Arc;

verus! {

#[verifier::external_type_specification]
#[verifier::external_body]
pub struct ExCookieJar(reqwest::cookie::Jar);

/// A shared handle to one host's cookie store.  Handles obtained for the
/// same host all share one underlying jar.
pub struct CookieStore {
    pub jar: Arc<reqwest::cookie::Jar>,
}

/// The identity of the underlying jar a handle points at.  Two handles
/// carry the same token exactly when they share one jar.
pub uninterp spec fn store_id(s: CookieStore) -> int;

/// The host-to-store map a registry holds, each store named by its token.
pub uninterp spec fn registry_view(r: CredentialRegistry) -> Map<Seq<char>, int>;

#[verifier::external_type_specification]
#[verifier::external_body]
#[verifier::reject_recursive_types(K)]
#[verifier::reject_recursive_types(V)]
#[verifier::reject_recursive_types(S)]
pub struct ExDashMap<K, V, S>(dashmap::DashMap<K, V, S>);

/// The registry: a concurrent host-to-store map.  Its one operation is
/// `get_or_create`; nothing is ever evicted.
pub struct CredentialRegistry {
    jars: dashmap::DashMap<String, Arc<reqwest::cookie::Jar>>,
}

impl CredentialRegistry {
    /// Relies on `dashmap::DashMap::new`: the new map holds nothing.
    #[verifier::external_body]
    pub fn new() -> (r: CredentialRegistry)
        ensures
            forall|h: Seq<char>| !registry_view(r).contains_key(h),
    {
        CredentialRegistry { jars: dashmap::DashMap::new() }
    }

    /// Relies on dashmap's entry API — `DashMap::entry` followed by
    /// `Entry::or_insert_with` returns the value already present for the
    /// key or atomically inserts the freshly made one, so concurrent first
    /// accesses to one host still end with a single store — and on
    /// `Arc::clone` handing out a handle to that same jar.  A fresh jar is
    /// a new allocation, shared with no earlier store.
    #[verifier::external_body]
    pub fn get_or_create(&mut self, host: &str) -> (r: CookieStore)
        ensures
            registry_view(*old(self)).contains_key(host@) ==> {
                &&& registry_view(*final(self)) == registry_view(*old(self))
                &&& store_id(r) == registry_view(*old(self))[host@]
            },
            !registry_view(*old(self)).contains_key(host@) ==> {
                &&& registry_view(*final(self)) == registry_view(*old(self)).insert(
                    host@,
                    store_id(r),
                )
                &&& forall|h: Seq<char>|
                    registry_view(*old(self)).contains_key(h) ==> store_id(r) != registry_view(
                        *old(self),
                    )[h]
            },
    {
        CookieStore {
            jar: self.jars.entry(host.to_string()).or_insert_with(
                || Arc::new(reqwest::cookie::Jar::default()),
            ).clone(),
        }
    }
}

/// No two hosts share a store.
pub open spec fn one_store_per_host(m: Map<Seq<char>, int>) -> bool {
    forall|h1: Seq<char>, h2: Seq<char>|
        m.contains_key(h1) && m.contains_key(h2) && h1 != h2 ==> m[h1] != m[h2]
}

/// Law: a registry starts with no shared stores.
pub proof fn lemma_empty_one_store_per_host()
    ensures
        one_store_per_host(Map::<Seq<char>, int>::empty()),
{
}

/// Law: inserting a fresh store for a new host, as `get_or_create`'s
/// contract promises on a miss, keeps every host's store its own; and a
/// hit leaves the map as it was.  So along any sequence of calls no two
/// hosts ever share a store, while two calls for one host always return
/// the store under that host's key.
pub proof fn lemma_insert_fresh_keeps_one_store_per_host(
    m: Map<Seq<char>, int>,
    host: Seq<char>,
    id: int,
)
    requires
        one_store_per_host(m),
        !m.contains_key(host),
        forall|h: Seq<char>| m.contains_key(h) ==> id != m[h],
    ensures
        one_store_per_host(m.insert(host, id)),
        m.insert(host, id)[host] == id,
{
}

} // verus!
