//! Counter-based one-time codes: dynamic truncation and decimal rendering.

use crate::hmac_sha1::{gen_hmac_sha1, hmac_sha1_of};
use vstd::prelude::*;
use vstd::utf8::{encode_utf8, is_ascii_chars};

verus! {

broadcast use vstd::utf8::group_utf8_lib;

/// Ten to the power `n`.
pub open spec fn pow10(n: nat) -> nat
    decreases n,
{
    if n == 0 {
        1
    } else {
        10 * pow10((n - 1) as nat)
    }
}

/// The decimal digit character for a value below ten.
pub open spec fn digit_char(d: nat) -> char {
    ((48 + d) as u8) as char
}

/// A character among `0` to `9`.
pub open spec fn is_digit_char(c: char) -> bool {
    '0' <= c <= '9'
}

/// The decimal rendering of `n`, without sign or leading zeros.
pub open spec fn decimal(n: nat) -> Seq<char>
    decreases n,
{
    if n < 10 {
        seq![digit_char(n)]
    } else {
        decimal(n / 10).push(digit_char(n % 10))
    }
}

/// `n` characters `0`.
pub open spec fn zeros(n: nat) -> Seq<char> {
    Seq::new(n, |i: int| '0')
}

/// `s` with characters `0` put in front until its UTF-8 encoding is `length` bytes long;
/// `s` itself where it already is that long or longer.
pub open spec fn zero_padded(s: Seq<char>, length: nat) -> Seq<char> {
    let bytes = encode_utf8(s).len();
    if bytes < length {
        zeros((length - bytes) as nat) + s
    } else {
        s
    }
}

/// The lowest digit count that a code may have.
pub const MIN_DIGITS: u8 = 1;

/// The highest digit count that a code may have.
pub const MAX_DIGITS: u8 = 31;

/// The message of the error for a digit count out of range.
pub open spec fn digits_error(digits: nat) -> Seq<char> {
    "The digits is out of range (1~31): "@ + decimal(digits)
}

/// Dynamic truncation of a 20-byte tag: the low nibble of the last byte is an offset, and
/// the four bytes from there, read big-endian with the top bit of the first one cleared,
/// make a 31-bit number.
pub open spec fn dynamic_truncation(tag: Seq<u8>) -> nat {
    let offset = (tag[tag.len() - 1] & 0x0f) as int;
    ((tag[offset] & 0x7f) as nat) * 0x1000000 + (tag[offset + 1] as nat) * 0x10000 + (
    tag[offset + 2] as nat) * 0x100 + (tag[offset + 3] as nat)
}

/// The code of `digits` digits for a 31-bit number: its remainder modulo ten to the
/// `digits`, in decimal, zero-padded to `digits` characters.
pub open spec fn decimal_code(sbits: nat, digits: nat) -> Seq<char> {
    zero_padded(decimal(sbits % pow10(digits)), digits)
}

/// The HOTP code for a secret and a counter message.
pub open spec fn hotp_code(secret: Seq<u8>, counter: Seq<u8>, digits: nat) -> Seq<char> {
    decimal_code(dynamic_truncation(hmac_sha1_of(secret, counter)), digits)
}

/// Whether a digit count is allowed.
pub open spec fn digits_in_range(digits: nat) -> bool {
    MIN_DIGITS <= digits <= MAX_DIGITS
}

proof fn lemma_pow10_monotone(a: nat, b: nat)
    requires
        a <= b,
    ensures
        1 <= pow10(a) <= pow10(b),
    decreases b,
{
    if b > a {
        lemma_pow10_monotone(a, (b - 1) as nat);
    } else if a > 0 {
        lemma_pow10_monotone((a - 1) as nat, (a - 1) as nat);
    }
}

proof fn lemma_digit_char(d: nat)
    requires
        d < 10,
    ensures
        is_digit_char(digit_char(d)),
        '\0' <= digit_char(d) <= '\u{7f}',
{
    assert(((48 + d) as u8) as char as u32 == 48 + d);
}

/// Every character of a decimal rendering is a digit, and so ASCII.
proof fn lemma_decimal_chars(n: nat)
    ensures
        forall|i: int| 0 <= i < decimal(n).len() ==> is_digit_char(#[trigger] decimal(n)[i]),
        is_ascii_chars(decimal(n)),
        decimal(n).len() >= 1,
    decreases n,
{
    if n < 10 {
        lemma_digit_char(n);
    } else {
        lemma_decimal_chars(n / 10);
        lemma_digit_char(n % 10);
        assert forall|i: int| 0 <= i < decimal(n).len() implies is_digit_char(
            #[trigger] decimal(n)[i],
        ) by {
            if i < decimal(n / 10).len() {
                assert(decimal(n)[i] == decimal(n / 10)[i]);
            }
        }
    }
}

/// A number below ten to the `d` has at most `d` decimal digits.
proof fn lemma_decimal_len(n: nat, d: nat)
    requires
        d >= 1,
        n < pow10(d),
    ensures
        decimal(n).len() <= d,
    decreases n,
{
    if n >= 10 {
        let e = (d - 1) as nat;
        if e == 0 {
            assert(pow10(d) == 10) by {
                reveal_with_fuel(pow10, 2);
            }
        } else {
            assert(pow10(d) == 10 * pow10(e));
            assert(n / 10 < pow10(e)) by (nonlinear_arith)
                requires
                    n < 10 * pow10(e),
            ;
            lemma_decimal_len(n / 10, e);
        }
    }
}

/// A decimal code is exactly `digits` digit characters.
pub proof fn lemma_decimal_code_shape(sbits: nat, digits: nat)
    requires
        digits >= 1,
    ensures
        decimal_code(sbits, digits).len() == digits,
        forall|i: int|
            0 <= i < digits ==> is_digit_char(#[trigger] decimal_code(sbits, digits)[i]),
{
    let p = pow10(digits);
    lemma_pow10_monotone(0, digits);
    let c = sbits % p;
    lemma_decimal_chars(c);
    lemma_decimal_len(c, digits);
    let s = decimal(c);
    assert(encode_utf8(s).len() == s.len());
    let r = decimal_code(sbits, digits);
    if s.len() < digits {
        assert(r == zeros((digits - s.len()) as nat) + s);
        assert forall|i: int| 0 <= i < digits implies is_digit_char(#[trigger] r[i]) by {
            if i >= digits - s.len() {
                assert(r[i] == s[i - (digits - s.len())]);
            }
        }
    }
}

/// Relies on `String::push`: appends one character.
#[verifier::external_body]
fn push_char(s: &mut String, c: char)
    ensures
        final(s)@ == old(s)@.push(c),
{
    s.push(c);
}

/// Renders `n` in decimal.
pub fn decimal_string(n: u64) -> (r: String)
    ensures
        r@ == decimal(n as nat),
    decreases n,
{
    let mut s = if n < 10 {
        String::new()
    } else {
        decimal_string(n / 10)
    };
    let d: u8 = (n % 10) as u8;
    push_char(&mut s, (48u8 + d) as char);
    s
}

/// Puts `0` in front of `string` until it is `length` bytes long.
pub fn zero_padding(string: String, length: usize) -> (r: String)
    ensures
        r@ == zero_padded(string@, length as nat),
{
    let text: &str = string.as_str();
    let bytes: usize = text.as_bytes().len();
    assert(bytes == encode_utf8(string@).len());
    if bytes >= length {
        return string;
    }
    let count: usize = length - bytes;
    let mut value = String::new();
    let mut i: usize = 0;
    while i < count
        invariant
            i <= count,
            value@ == zeros(i as nat),
        decreases count - i,
    {
        push_char(&mut value, '0');
        i = i + 1;
        assert(value@ =~= zeros(i as nat));
    }
    value.append(string.as_str());
    assert(value@ =~= zero_padded(string@, length as nat));
    value
}

/// Dynamic truncation of an HMAC-SHA-1 tag into a 31-bit number.
pub fn truncate(hmac: [u8; 20]) -> (r: u32)
    ensures
        r == dynamic_truncation(hmac@),
        r < 0x8000_0000,
{
    let last: u8 = hmac[19];
    let offset: usize = (last & 0x0f) as usize;
    assert(offset <= 15) by (bit_vector)
        requires
            offset == (last & 0x0f) as usize,
    ;
    let first: u8 = hmac[offset];
    let b0: u32 = first as u32;
    let b1: u32 = hmac[offset + 1] as u32;
    let b2: u32 = hmac[offset + 2] as u32;
    let b3: u32 = hmac[offset + 3] as u32;
    let result: u32 = ((b0 & 0x7f) << 24) | (b1 << 16) | (b2 << 8) | b3;
    assert(result == (b0 & 0x7f) * 0x1000000 + b1 * 0x10000 + b2 * 0x100 + b3
        && result < 0x8000_0000) by (bit_vector)
        requires
            b0 < 256,
            b1 < 256,
            b2 < 256,
            b3 < 256,
            result == ((b0 & 0x7f) << 24) | (b1 << 16) | (b2 << 8) | b3,
    ;
    assert((b0 & 0x7f) == (first & 0x7f) as u32) by (bit_vector)
        requires
            b0 == first as u32,
    ;
    result
}

/// Renders a 31-bit number as a code of `digits` digits.
pub fn bit_to_decimal_code(sbits: u32, digits: u8) -> (r: Result<String, String>)
    ensures
        match r {
            Ok(code) => digits_in_range(digits as nat) && code@ == decimal_code(
                sbits as nat,
                digits as nat,
            ),
            Err(msg) => !digits_in_range(digits as nat) && msg@ == digits_error(digits as nat),
        },
{
    if digits < MIN_DIGITS || digits > MAX_DIGITS {
        let mut msg = String::from_str("The digits is out of range (1~31): ");
        msg.append(decimal_string(digits as u64).as_str());
        return Err(msg);
    }
    // Ten to the `i`, up to `digits` or until it exceeds every `u32`.
    let mut modulus: u64 = 1;
    let mut i: u8 = 0;
    while i < digits && modulus <= 0xffff_ffff
        invariant
            i <= digits,
            modulus == pow10(i as nat),
        decreases digits - i,
    {
        modulus = modulus * 10;
        i = i + 1;
    }
    proof {
        lemma_pow10_monotone(i as nat, digits as nat);
    }
    let code: u64 = sbits as u64 % modulus;
    assert(code == sbits as nat % pow10(digits as nat)) by {
        if i < digits {
            vstd::arithmetic::div_mod::lemma_small_mod(sbits as nat, pow10(digits as nat));
            vstd::arithmetic::div_mod::lemma_small_mod(sbits as nat, modulus as nat);
        }
    }
    Ok(zero_padding(decimal_string(code), digits as usize))
}

/// The HOTP code (RFC 4226) of `digits` digits for `secret` and the counter message `counter`.
pub fn hotp(secret: &[u8], counter: &[u8], digits: u8) -> (r: Result<String, String>)
    ensures
        match r {
            Ok(code) => {
                &&& digits_in_range(digits as nat)
                &&& code@ == hotp_code(secret@, counter@, digits as nat)
                &&& code@.len() == digits
                &&& forall|i: int| 0 <= i < code@.len() ==> is_digit_char(#[trigger] code@[i])
            },
            Err(msg) => !digits_in_range(digits as nat) && msg@ == digits_error(digits as nat),
        },
{
    let hmac = gen_hmac_sha1(secret, counter);
    let sbits = truncate(hmac);
    let r = bit_to_decimal_code(sbits, digits);
    proof {
        if r is Ok {
            lemma_decimal_code_shape(sbits as nat, digits as nat);
        }
    }
    r
}

} // verus!
