//! Named digests and encodings supplied by outside crates.

use vstd::prelude::*;

verus! {

/// The SHA-256 digest of a byte sequence.  The digest is a pure function of
/// the input alone; its value is never stated here, only used by name.
pub uninterp spec fn sha256_of(data: Seq<u8>) -> Seq<u8>;

/// Relies on `sha2::Sha256::digest`: the SHA-256 digest depends on the input
/// bytes alone and is always 32 bytes long.  The digest replaces the output
/// buffer's contents, so one buffer can serve a whole search without
/// allocating per attempt.
#[verifier::external_body]
pub fn sha256_into(data: &Vec<u8>, out: &mut Vec<u8>)
    ensures
        final(out)@ == sha256_of(data@),
        final(out)@.len() == 32,
{
    out.clear();
    out.extend_from_slice(&<sha2::Sha256 as sha2::Digest>::digest(data.as_slice()));
}

/// Computes a SHA-256 digest into a fresh vector.
pub fn sha256(data: &Vec<u8>) -> (r: Vec<u8>)
    ensures
        r@ == sha256_of(data@),
        r@.len() == 32,
{
    let mut out: Vec<u8> = Vec::new();
    sha256_into(data, &mut out);
    out
}

/// The sixteen lowercase hexadecimal digit characters.
pub open spec fn hex_digit(n: int) -> char {
    seq!['0', '1', '2', '3', '4', '5', '6', '7', '8', '9', 'a', 'b', 'c', 'd', 'e', 'f'][n]
}

/// Lowercase hexadecimal rendering of a byte sequence: two digits per byte,
/// high nibble first.
pub open spec fn hex_chars(data: Seq<u8>) -> Seq<char>
    decreases data.len(),
{
    if data.len() == 0 {
        Seq::empty()
    } else {
        seq![hex_digit(data[0] as int / 16), hex_digit(data[0] as int % 16)] + hex_chars(
            data.drop_first(),
        )
    }
}

/// Relies on `hex::encode`: renders each byte as two lowercase hexadecimal
/// digits, high nibble first, in input order.
#[verifier::external_body]
pub fn hex_encode(data: &Vec<u8>) -> (r: String)
    ensures
        r@ == hex_chars(data@),
{
    hex::encode(data.as_slice())
}

/// Relies on `String::from_utf8`: succeeds exactly on valid UTF-8 input and
/// then returns the string whose UTF-8 bytes are the input, unchanged.
#[verifier::external_body]
pub fn bytes_to_string(data: Vec<u8>) -> (r: Option<String>)
    ensures
        r is Some <==> vstd::utf8::valid_utf8(data@),
        r is Some ==> vstd::utf8::encode_utf8(r->Some_0@) == data@,
{
    match String::from_utf8(data) {
        Ok(s) => Some(s),
        Err(_) => None,
    }
}

} // verus!
