//! The keyed hash that one-time codes are derived from.

use hmac::{Hmac, Mac};
use sha1::Sha1;
use vstd::prelude::*;

verus! {

/// The HMAC-SHA-1 tag of `message` under `key`, as computed by the `hmac` and `sha1` crates.
pub uninterp spec fn hmac_sha1_of(key: Seq<u8>, message: Seq<u8>) -> Seq<u8>;

/// Relies on `hmac::Hmac<sha1::Sha1>`: `new_from_slice` accepts a key of any length (a key
/// longer than the block is hashed, a shorter one zero-padded; it never returns an error),
/// and `finalize().into_bytes()` gives the 20-byte tag, which depends on key and message only.
#[verifier::external_body]
pub fn gen_hmac_sha1(key: &[u8], input: &[u8]) -> (r: [u8; 20])
    ensures
        r@ == hmac_sha1_of(key@, input@),
{
    let mut mac = <Hmac<Sha1> as Mac>::new_from_slice(key).expect("HMAC takes keys of any length");
    mac.update(input);
    mac.finalize().into_bytes().into()
}

} // verus!
