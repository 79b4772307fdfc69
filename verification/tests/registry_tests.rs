use anubis_solver::CredentialRegistry;
use reqwest::cookie::CookieStore as JarReadBack;

fn set_cookie(store: &anubis_solver::CookieStore, url: &reqwest::Url, cookie: &str) {
    store.jar.add_cookie_str(cookie, url);
}

fn read_cookies(store: &anubis_solver::CookieStore, url: &reqwest::Url) -> Option<String> {
    store.jar.cookies(url).map(|h| h.to_str().unwrap().to_string())
}

#[test]
fn same_host_returns_the_same_store() {
    let mut reg = CredentialRegistry::new();
    let a = reg.get_or_create("example.com");
    let b = reg.get_or_create("example.com");
    let url = reqwest::Url::parse("https://example.com/").unwrap();
    set_cookie(&a, &url, "session=abc123; Path=/");
    let seen = read_cookies(&b, &url).expect("cookie set via the sibling handle");
    assert!(seen.contains("session=abc123"));
}

#[test]
fn distinct_hosts_never_share_a_store() {
    let mut reg = CredentialRegistry::new();
    let a = reg.get_or_create("example.com");
    let b = reg.get_or_create("example.org");
    let url = reqwest::Url::parse("https://example.com/").unwrap();
    set_cookie(&a, &url, "session=abc123; Path=/");
    assert!(read_cookies(&a, &url).is_some());
    assert!(read_cookies(&b, &url).is_none());
}

#[test]
fn stores_persist_across_many_accesses() {
    let mut reg = CredentialRegistry::new();
    let url = reqwest::Url::parse("https://host-0/").unwrap();
    let first = reg.get_or_create("host-0");
    set_cookie(&first, &url, "k=v; Path=/");
    for _ in 0..10 {
        let again = reg.get_or_create("host-0");
        assert!(read_cookies(&again, &url).expect("store persists").contains("k=v"));
    }
    for i in 1..5 {
        let other = reg.get_or_create(&format!("host-{}", i));
        assert!(read_cookies(&other, &url).is_none());
    }
}
