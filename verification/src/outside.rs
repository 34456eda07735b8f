//! The library's border with outside crates: each function here makes one
//! call whose contract Verus believes, and nothing else.

use sha2::Digest;
use subtle::ConstantTimeEq;
use vstd::prelude::*;

verus! {

/// The SHA-256 digest of a byte sequence; a fixed function of its input,
/// computed by the `sha2` crate.
pub uninterp spec fn sha256_of(bytes: Seq<u8>) -> Seq<u8>;

/// Relies on `sha2::Sha256::digest`: the SHA-256 digest of the input, which
/// is 32 bytes long and depends on the input bytes alone.
#[verifier::external_body]
pub fn sha256(bytes: &[u8]) -> (r: Vec<u8>)
    ensures
        r@ == sha256_of(bytes@),
        r@.len() == 32,
{
    sha2::Sha256::digest(bytes).to_vec()
}

/// Relies on `subtle::ConstantTimeEq` for `[u8]`: the comparison touches
/// every byte regardless of where the inputs differ, and reports exactly
/// whether the two slices are equal.
#[verifier::external_body]
pub fn ct_bytes_eq(a: &[u8], b: &[u8]) -> (r: bool)
    ensures
        r == (a@ == b@),
{
    a.ct_eq(b).unwrap_u8() == 1
}

/// The RFC 3339 rendering, at millisecond precision in UTC with a `Z`
/// suffix, of a millisecond timestamp; a fixed function of the timestamp,
/// computed by the `chrono` crate.
pub uninterp spec fn rfc3339_of(ms: int) -> Seq<char>;

/// Relies on `chrono::DateTime::from_timestamp_millis` and
/// `to_rfc3339_opts(SecondsFormat::Millis, true)`: the conversion accepts
/// every timestamp in the required range, and the rendering is a nonempty
/// string determined by the timestamp alone.
#[verifier::external_body]
pub fn rfc3339_millis(ms: i64) -> (r: String)
    requires
        0 <= ms <= 260000000000000,
    ensures
        r@ == rfc3339_of(ms as int),
        r@.len() > 0,
{
    let dt = chrono::DateTime::from_timestamp_millis(ms).unwrap();
    dt.to_rfc3339_opts(chrono::SecondsFormat::Millis, true)
}

/// Relies on `chrono::Utc::now` and `timestamp_millis`: the wall clock as
/// milliseconds since the Unix epoch. Nothing is promised of the reading;
/// callers validate it before use.
#[verifier::external_body]
pub fn now_unix_ms() -> (r: i64) {
    chrono::Utc::now().timestamp_millis()
}

/// Relies on `uuid::Uuid::new_v4` and `as_u128`: a freshly drawn random
/// identifier. Nothing is promised of the value; the kernel guards against
/// collisions itself.
#[verifier::external_body]
pub fn fresh_uuid() -> (r: u128) {
    uuid::Uuid::new_v4().as_u128()
}

/// Relies on `rand::random`: a uniformly drawn machine word. Nothing is
/// promised of the value.
#[verifier::external_body]
pub fn random_u64() -> (r: u64) {
    rand::random::<u64>()
}

} // verus!
