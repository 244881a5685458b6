//! The primitives that the relay takes from outside: the keyed tag, the
//! digest, the clock and the random source.
//!
//! Nothing in this file is proved. Each function states what the rest of the
//! library relies on.

use hmac::{Hmac, Mac};
use sha3::{Digest, Sha3_256};
use vstd::prelude::*;

verus! {

/// The HMAC-SHA3-256 tag of `message` under `key`: what `Mac::finalize`
/// yields once a keyed instance has absorbed `message`.
pub uninterp spec fn hmac_sha3_256(key: Seq<u8>, message: Seq<u8>) -> Seq<u8>;

/// The SHA3-256 digest of `message`: what `Digest::finalize` yields once a
/// fresh hasher has absorbed `message`.
pub uninterp spec fn sha3_256(message: Seq<u8>) -> Seq<u8>;

/// Computes a tag with `Hmac::<Sha3_256>`: `new_from_slice`, one `update`,
/// `finalize`. HMAC accepts a key of any length, so the keyed instance is
/// always made; the result is a function of the key and the message alone.
#[verifier::external_body]
pub(crate) fn mac_tag(key: &[u8], message: &[u8]) -> (tag: Vec<u8>)
    ensures
        tag@ == hmac_sha3_256(key@, message@),
{
    let mut mac = Hmac::<Sha3_256>::new_from_slice(key).expect("HMAC takes a key of any length");
    mac.update(message);
    mac.finalize().into_bytes().to_vec()
}

/// Checks a tag with `Mac::verify_slice`, which compares the computed tag
/// with `tag` in constant time and accepts exactly when the two have the
/// same length and the same bytes.
#[verifier::external_body]
pub(crate) fn mac_matches(key: &[u8], message: &[u8], tag: &[u8]) -> (ok: bool)
    ensures
        ok == (tag@ == hmac_sha3_256(key@, message@)),
{
    let mut mac = Hmac::<Sha3_256>::new_from_slice(key).expect("HMAC takes a key of any length");
    mac.update(message);
    mac.verify_slice(tag).is_ok()
}

/// Hashes with `Sha3_256`: `new`, one `update`, `finalize`. The result is a
/// function of the message alone.
#[verifier::external_body]
pub(crate) fn digest(message: &[u8]) -> (out: Vec<u8>)
    ensures
        out@ == sha3_256(message@),
{
    let mut hasher = Sha3_256::new();
    hasher.update(message);
    hasher.finalize().to_vec()
}

/// The timestamps that chrono can give. It computes one from a day number
/// held in 32 bits, counted from the day before 1 January of year 1, and from
/// the seconds of the day, held in 32 bits without a sign: the day number
/// less 719 163, that of 1 January 1970, times 86 400, plus the seconds.
pub open spec fn timestamp_in_range(seconds: i64) -> bool {
    (i32::MIN - 719_163) * 86_400 <= seconds <= (i32::MAX - 719_163) * 86_400 + u32::MAX
}

/// Reads the clock with `chrono::Utc::now` and returns its `timestamp`, the
/// seconds since the Unix epoch. Of the value only the range is claimed
/// that the types in `timestamp` leave it. chrono panics where the system
/// clock is set before the epoch.
#[verifier::external_body]
pub(crate) fn unix_time() -> (seconds: i64)
    ensures
        timestamp_in_range(seconds),
{
    chrono::Utc::now().timestamp()
}

/// Draws twelve bytes with `rand::random`. Nothing is claimed of them.
#[verifier::external_body]
pub(crate) fn random_nonce() -> (bytes: [u8; 12]) {
    rand::random()
}

/// Draws thirty-two bytes with `rand::random`. Nothing is claimed of them.
#[verifier::external_body]
pub(crate) fn random_block() -> (bytes: [u8; 32]) {
    rand::random()
}

} // verus!
