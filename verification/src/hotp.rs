//! HMAC-based one-time passwords (RFC 4226).

use hmac::{Hmac, Mac};
use sha1::Sha1;
use vstd::arithmetic::power::pow;
use vstd::prelude::*;

verus! {

/// Number of bytes in an HMAC-SHA1 tag.
pub const TAG_LEN: usize = 20;

/// The HMAC-SHA1 tag of `message` under `key`.
pub uninterp spec fn hmac_sha1_tag(key: Seq<u8>, message: Seq<u8>) -> Seq<u8>;

/// Computes HMAC-SHA1 with the `hmac` and `sha1` crates: `Hmac::<Sha1>::new_from_slice`,
/// `update` and `finalize`.
///
/// Trusted: the tag is taken to be `hmac_sha1_tag(key, message)`, a function of the two
/// byte strings alone, and to be 20 bytes long (the output size of `Sha1`). HMAC accepts
/// keys of any length, so `new_from_slice` never fails.
#[verifier::external_body]
fn hmac_sha1(key: &[u8], message: &[u8]) -> (tag: Vec<u8>)
    ensures
        tag@ == hmac_sha1_tag(key@, message@),
        tag@.len() == TAG_LEN,
{
    let mut mac = <Hmac<Sha1> as Mac>::new_from_slice(key).expect("HMAC accepts keys of any length");
    mac.update(message);
    mac.finalize().into_bytes().to_vec()
}

/// The eight big-endian bytes of a counter.
pub open spec fn counter_bytes(counter: u64) -> Seq<u8> {
    seq![
        (counter >> 56u64) as u8,
        (counter >> 48u64) as u8,
        (counter >> 40u64) as u8,
        (counter >> 32u64) as u8,
        (counter >> 24u64) as u8,
        (counter >> 16u64) as u8,
        (counter >> 8u64) as u8,
        counter as u8,
    ]
}

/// Dynamic truncation: the low four bits of the last tag byte select an offset, and the
/// four bytes from there, read big-endian with the top bit cleared, form a 31-bit number.
pub open spec fn truncation_offset(tag: Seq<u8>) -> int {
    (tag[19] % 16) as int
}

pub open spec fn truncated_value(tag: Seq<u8>) -> int {
    let o = truncation_offset(tag);
    (tag[o] % 128) * 0x100_0000 + tag[o + 1] * 0x1_0000 + tag[o + 2] * 0x100 + tag[o + 3]
}

/// The code of `digits` decimal digits that a tag yields.
pub open spec fn code_of_tag(tag: Seq<u8>, digits: nat) -> int {
    truncated_value(tag) % pow(10, digits)
}

/// The HOTP value of a secret at a counter.
pub open spec fn hotp_code(secret: Seq<u8>, counter: u64, digits: nat) -> int {
    code_of_tag(hmac_sha1_tag(secret, counter_bytes(counter)), digits)
}

/// The largest number of digits whose power of ten fits in a `u32`.
pub const MAX_DIGITS: u32 = 9;

/// `10` raised to `digits`.
pub fn pow10(digits: u32) -> (p: u32)
    requires
        digits <= MAX_DIGITS,
    ensures
        p == pow(10, digits as nat),
{
    let mut p: u32 = 1;
    let mut i: u32 = 0;
    proof {
        reveal_with_fuel(pow, 1);
    }
    while i < digits
        invariant
            i <= digits <= MAX_DIGITS,
            p == pow(10, i as nat),
        decreases digits - i,
    {
        proof {
            vstd::arithmetic::power::lemma_pow_increases(10, i as nat, 8);
            assert(pow(10, 8) == 100_000_000) by {
                reveal_with_fuel(pow, 9);
            }
            vstd::arithmetic::power::lemma_pow_adds(10, i as nat, 1);
            vstd::arithmetic::power::lemma_pow1(10);
        }
        p = p * 10;
        i = i + 1;
    }
    p
}

/// The code of `digits` decimal digits that an HMAC-SHA1 tag yields (RFC 4226, section 5.3).
pub fn truncate_code(tag: &[u8], digits: u32) -> (code: u32)
    requires
        tag@.len() == TAG_LEN,
        digits <= MAX_DIGITS,
    ensures
        code == code_of_tag(tag@, digits as nat),
        code < pow(10, digits as nat),
        code < 0x8000_0000,
{
    let last = tag[19];
    let offset = (last & 0x0f) as usize;
    assert(last & 0x0f == last % 16) by (bit_vector);
    let b0 = tag[offset];
    let b1 = tag[offset + 1];
    let b2 = tag[offset + 2];
    let b3 = tag[offset + 3];
    let word: u32 = ((b0 as u32) << 24u32) | ((b1 as u32) << 16u32) | ((b2 as u32) << 8u32) | (b3 as u32);
    let value = word & 0x7fff_ffff;
    assert(value == (b0 % 128) * 0x100_0000 + b1 * 0x1_0000 + b2 * 0x100 + b3) by (bit_vector)
        requires
            word == ((b0 as u32) << 24u32) | ((b1 as u32) << 16u32) | ((b2 as u32) << 8u32) | (b3 as u32),
            value == word & 0x7fff_ffff,
    ;
    let modulus = pow10(digits);
    proof {
        vstd::arithmetic::power::lemma_pow_positive(10, digits as nat);
    }
    let code = value % modulus;
    assert(value <= 0x7fff_ffff) by (bit_vector)
        requires
            value == word & 0x7fff_ffff,
    ;
    assert(code <= value) by (nonlinear_arith)
        requires
            code == value % modulus,
            modulus > 0,
    ;
    code
}

/// The HOTP value of `secret` at `counter`, with `digits` decimal digits.
pub fn hotp(secret: &[u8], counter: u64, digits: u32) -> (code: u32)
    requires
        digits <= MAX_DIGITS,
    ensures
        code == hotp_code(secret@, counter, digits as nat),
        code == code_of_tag(hmac_sha1_tag(secret@, counter_bytes(counter)), digits as nat),
        code < pow(10, digits as nat),
{
    let counter_be = counter_to_bytes(counter);
    let tag = hmac_sha1(secret, counter_be.as_slice());
    truncate_code(tag.as_slice(), digits)
}

/// The big-endian bytes of a counter, as HOTP feeds them to HMAC.
pub fn counter_to_bytes(counter: u64) -> (bytes: Vec<u8>)
    ensures
        bytes@ == counter_bytes(counter),
{
    let v: Vec<u8> = vec![
        (counter >> 56u64) as u8,
        (counter >> 48u64) as u8,
        (counter >> 40u64) as u8,
        (counter >> 32u64) as u8,
        (counter >> 24u64) as u8,
        (counter >> 16u64) as u8,
        (counter >> 8u64) as u8,
        counter as u8,
    ];
    assert(v@ =~= counter_bytes(counter));
    v
}

/// An HOTP code is the dynamic truncation, modulo `10^digits`, of the HMAC-SHA1 tag keyed
/// with the whole secret, whatever its length, over the eight big-endian bytes of the
/// counter.
pub proof fn lemma_hotp_is_truncated_hmac_of_whole_secret(secret: Seq<u8>, counter: u64, digits: nat)
    ensures
        ({
            let tag = hmac_sha1_tag(
                secret,
                seq![
                    (counter >> 56u64) as u8,
                    (counter >> 48u64) as u8,
                    (counter >> 40u64) as u8,
                    (counter >> 32u64) as u8,
                    (counter >> 24u64) as u8,
                    (counter >> 16u64) as u8,
                    (counter >> 8u64) as u8,
                    counter as u8,
                ],
            );
            let o = (tag[19] % 16) as int;
            hotp_code(secret, counter, digits) == ((tag[o] % 128) * 0x100_0000 + tag[o + 1]
                * 0x1_0000 + tag[o + 2] * 0x100 + tag[o + 3]) % pow(10, digits)
        }),
{
}

/// The counter bytes are the counter written in base 256, most significant byte first.
pub proof fn lemma_counter_bytes_big_endian(counter: u64)
    ensures
        counter_bytes(counter).len() == 8,
        counter == counter_bytes(counter)[0] * 0x100_0000_0000_0000 + counter_bytes(counter)[1]
            * 0x1_0000_0000_0000 + counter_bytes(counter)[2] * 0x100_0000_0000
            + counter_bytes(counter)[3] * 0x1_0000_0000 + counter_bytes(counter)[4] * 0x100_0000
            + counter_bytes(counter)[5] * 0x1_0000 + counter_bytes(counter)[6] * 0x100
            + counter_bytes(counter)[7],
{
    let b = counter_bytes(counter);
    let b0 = (counter >> 56u64) as u8;
    let b1 = (counter >> 48u64) as u8;
    let b2 = (counter >> 40u64) as u8;
    let b3 = (counter >> 32u64) as u8;
    let b4 = (counter >> 24u64) as u8;
    let b5 = (counter >> 16u64) as u8;
    let b6 = (counter >> 8u64) as u8;
    let b7 = counter as u8;
    assert(counter == b0 * 0x100_0000_0000_0000 + b1 * 0x1_0000_0000_0000 + b2 * 0x100_0000_0000
        + b3 * 0x1_0000_0000 + b4 * 0x100_0000 + b5 * 0x1_0000 + b6 * 0x100 + b7) by (bit_vector)
        requires
            b0 == (counter >> 56u64) as u8,
            b1 == (counter >> 48u64) as u8,
            b2 == (counter >> 40u64) as u8,
            b3 == (counter >> 32u64) as u8,
            b4 == (counter >> 24u64) as u8,
            b5 == (counter >> 16u64) as u8,
            b6 == (counter >> 8u64) as u8,
            b7 == counter as u8,
    ;
    assert(b[0] == b0 && b[1] == b1 && b[2] == b2 && b[3] == b3);
    assert(b[4] == b4 && b[5] == b5 && b[6] == b6 && b[7] == b7);
}

} // verus!
