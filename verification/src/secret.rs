//! Shared secrets: random generation and the Base32 text form (RFC 4648, no padding)
//! in which authenticator apps take them.

use vstd::arithmetic::power2::pow2;
use vstd::prelude::*;
use vstd::string::StringExecFns;

verus! {

/// Number of random bytes in a generated secret: 160 bits, the length RFC 4226
/// recommends for HMAC-SHA1 secrets.
pub const SECRET_LEN: usize = 20;

/// One byte from `rand::random`, the thread-local generator. Nothing is promised of its
/// value.
#[verifier::external_body]
fn random_byte() -> u8 {
    rand::random::<u8>()
}

/// A fresh random secret of `SECRET_LEN` bytes.
pub fn generate_secret() -> (secret: Vec<u8>)
    ensures
        secret@.len() == SECRET_LEN,
{
    let mut secret: Vec<u8> = Vec::new();
    let mut i: usize = 0;
    while i < SECRET_LEN
        invariant
            i <= SECRET_LEN,
            secret@.len() == i,
        decreases SECRET_LEN - i,
    {
        secret.push(random_byte());
        i = i + 1;
    }
    secret
}

/// Bit `j` of a byte string, most significant bit of each byte first; 0 past the end.
pub open spec fn data_bit(data: Seq<u8>, j: int) -> int {
    if 0 <= j < 8 * data.len() {
        (data[j / 8] as int / pow2((7 - j % 8) as nat) as int) % 2
    } else {
        0
    }
}

/// The value of the `k`-th group of five bits.
pub open spec fn five_bit_group(data: Seq<u8>, k: int) -> int {
    16 * data_bit(data, 5 * k) + 8 * data_bit(data, 5 * k + 1) + 4 * data_bit(data, 5 * k + 2)
        + 2 * data_bit(data, 5 * k + 3) + data_bit(data, 5 * k + 4)
}

/// The letter of the RFC 4648 Base32 alphabet `A`..`Z`, `2`..`7` for a value below 32.
pub open spec fn base32_letter(v: int) -> char {
    if v < 26 {
        (65 + v) as char
    } else {
        (24 + v) as char
    }
}

/// The Base32 text (RFC 4648 alphabet, no padding) of a byte string: one letter for each
/// group of five bits, the last group filled up with zero bits, `ceil(8n / 5)` letters.
pub open spec fn base32_text(data: Seq<u8>) -> Seq<char> {
    Seq::new(((8 * data.len() + 4) / 5) as nat, |k: int| base32_letter(five_bit_group(data, k)))
}

/// A character that Base32 decoding takes: a letter in either case, `2`..`7`, or `=`.
pub open spec fn is_base32_char(c: char) -> bool {
    ||| 65 <= c as u32 <= 90
    ||| 97 <= c as u32 <= 122
    ||| 50 <= c as u32 <= 55
    ||| c == '='
}

/// What Base32 decoding (RFC 4648 alphabet, no padding) gives for a text: `None` where the
/// text is not Base32.
pub uninterp spec fn base32_bytes(text: Seq<char>) -> Option<Seq<u8>>;

/// `base32::encode` with `Alphabet::RFC4648 { padding: false }`.
///
/// Trusted: the text is `base32_text(data)`: the source reads the bytes in chunks of five
/// (zero-filled), writes one alphabet letter per five bits, and drops the letters that lie
/// wholly past the data.
#[verifier::external_body]
fn base32_encode(data: &[u8]) -> (text: String)
    ensures
        text@ == base32_text(data@),
{
    base32::encode(base32::Alphabet::RFC4648 { padding: false }, data)
}

/// `base32::decode` with `Alphabet::RFC4648 { padding: false }`.
///
/// Trusted: the result is `base32_bytes(text)`, a function of the text alone; a text with
/// a character outside `A`..`Z`, `a`..`z`, `2`..`7` and `=` is refused (the ASCII check,
/// then the inverse alphabet table on the upper-cased byte); and decoding the text that
/// `encode` made of some bytes gives those bytes back (the crate's own round-trip test
/// for this alphabet without padding).
#[verifier::external_body]
fn base32_decode(text: &str) -> (bytes: Option<Vec<u8>>)
    ensures
        bytes is Some <==> base32_bytes(text@) is Some,
        bytes matches Some(v) ==> base32_bytes(text@) == Some(v@),
        bytes is Some ==> forall|i: int| 0 <= i < text@.len() ==> is_base32_char(#[trigger] text@[i]),
        bytes is None ==> forall|data: Seq<u8>| text@ != #[trigger] base32_text(data),
        bytes matches Some(v) ==> forall|data: Seq<u8>|
            text@ == #[trigger] base32_text(data) ==> v@ == data,
{
    base32::decode(base32::Alphabet::RFC4648 { padding: false }, text)
}

/// The Base32 form of a secret, as shown to the user.
pub fn encode_secret_base32(secret: &[u8]) -> (text: String)
    ensures
        text@ == base32_text(secret@),
{
    base32_encode(secret)
}

/// The message of a refused Base32 secret.
pub open spec fn invalid_base32_message() -> Seq<char> {
    "Неверный формат Base32"@
}

/// Reads a secret back from its Base32 form. Every text that `encode_secret_base32` made
/// gives back the secret it was made from.
pub fn decode_secret_base32(encoded: &str) -> (secret: Result<Vec<u8>, String>)
    ensures
        match secret {
            Ok(v) => base32_bytes(encoded@) == Some(v@),
            Err(m) => base32_bytes(encoded@) is None && m@ == invalid_base32_message(),
        },
        secret is Ok ==> forall|i: int|
            0 <= i < encoded@.len() ==> is_base32_char(#[trigger] encoded@[i]),
        forall|data: Seq<u8>|
            encoded@ == #[trigger] base32_text(data) ==> (secret matches Ok(v) && v@ == data),
{
    match base32_decode(encoded) {
        Some(bytes) => Ok(bytes),
        None => Err(String::from_str("Неверный формат Base32")),
    }
}

} // verus!
