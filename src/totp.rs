//! Time-based one-time codes (RFC 6238) on top of HOTP.

use crate::hotp::{hotp, hotp_code, digits_error, digits_in_range, is_digit_char};
use byteorder::{BigEndian, WriteBytesExt};
use vstd::prelude::*;

verus! {

/// Seconds that one counter value lasts.
pub const TIME_STEP: u64 = 30;

/// Digits of a code shown to the user.
pub const TOTP_DIGITS: u8 = 6;

/// The eight bytes of `n`, most significant first.
pub open spec fn be_bytes_u64(n: u64) -> Seq<u8> {
    seq![
        ((n >> 56) & 0xff) as u8,
        ((n >> 48) & 0xff) as u8,
        ((n >> 40) & 0xff) as u8,
        ((n >> 32) & 0xff) as u8,
        ((n >> 24) & 0xff) as u8,
        ((n >> 16) & 0xff) as u8,
        ((n >> 8) & 0xff) as u8,
        (n & 0xff) as u8,
    ]
}

/// The TOTP code at `time` seconds after the epoch: the HOTP code for the number of whole
/// time steps since the epoch, as an 8-byte big-endian counter.
pub open spec fn totp_code(secret: Seq<u8>, time: u64, digits: nat) -> Seq<char> {
    hotp_code(secret, be_bytes_u64(time / TIME_STEP), digits)
}

/// `code` is the six-digit TOTP code of `secret` at some time.
pub open spec fn is_code_at_some_time(secret: Seq<u8>, code: Seq<char>) -> bool {
    exists|time: u64| code == #[trigger] totp_code(secret, time, 6)
}

/// The message of the error for a clock that reads a time before the epoch.
pub open spec fn clock_error() -> Seq<char> {
    "SystemTime before UNIX EPOCH!"@
}

/// Relies on byteorder's `WriteBytesExt::write_u64::<BigEndian>`: it appends the eight bytes
/// of `n`, most significant first; writing into a `Vec<u8>` does not fail.
#[verifier::external_body]
fn u64_be_bytes(n: u64) -> (r: Vec<u8>)
    ensures
        r@ == be_bytes_u64(n),
{
    let mut out = Vec::new();
    out.write_u64::<BigEndian>(n).expect("writing into a Vec<u8> does not fail");
    out
}

/// Relies on `SystemTime::elapsed` on `UNIX_EPOCH`: the time from the epoch to now, here in
/// whole seconds, or `None` where the clock reads a time before the epoch. Nothing is known of
/// the value.
#[verifier::external_body]
fn seconds_since_epoch() -> (r: Option<u64>) {
    match std::time::UNIX_EPOCH.elapsed() {
        Ok(elapsed) => Some(elapsed.as_secs()),
        Err(_) => None,
    }
}

/// The seconds since the Unix epoch, or an error where the clock reads an earlier time.
pub fn current_time() -> (r: Result<u64, String>)
    ensures
        r matches Err(msg) ==> msg@ == clock_error(),
{
    match seconds_since_epoch() {
        Some(seconds) => Ok(seconds),
        None => Err(String::from_str("SystemTime before UNIX EPOCH!")),
    }
}

/// The TOTP code of `digits` digits at `time` seconds after the epoch.
pub fn gen_totp(secret: &[u8], time: u64, digits: u8) -> (r: Result<String, String>)
    ensures
        match r {
            Ok(code) => {
                &&& digits_in_range(digits as nat)
                &&& code@ == totp_code(secret@, time, digits as nat)
                &&& code@.len() == digits
                &&& forall|i: int| 0 <= i < code@.len() ==> is_digit_char(#[trigger] code@[i])
            },
            Err(msg) => !digits_in_range(digits as nat) && msg@ == digits_error(digits as nat),
        },
{
    let t: u64 = time / TIME_STEP;
    let counter = u64_be_bytes(t);
    hotp(secret, counter.as_slice(), digits)
}

/// The six-digit TOTP code of `secret` now, or the clock's error.
pub fn totp(secret: &[u8]) -> (r: Result<String, String>)
    ensures
        match r {
            Ok(code) => {
                &&& is_code_at_some_time(secret@, code@)
                &&& code@.len() == 6
                &&& forall|i: int| 0 <= i < 6 ==> is_digit_char(#[trigger] code@[i])
            },
            Err(msg) => msg@ == clock_error(),
        },
{
    match current_time() {
        Ok(now) => {
            let r = gen_totp(secret, now, TOTP_DIGITS);
            proof {
                if r is Ok {
                    assert(r->Ok_0@ == totp_code(secret@, now, 6));
                }
            }
            r
        },
        Err(err) => Err(err),
    }
}

} // verus!
