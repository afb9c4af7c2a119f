//! The `otpauth://` key URI that authenticator apps read from a QR code.

use vstd::prelude::*;
use vstd::string::StringExecFns;
use vstd::utf8::encode_utf8;

verus! {

/// Bytes that percent-encoding leaves as they are: ASCII letters and digits, `-`, `.`,
/// `_` and `~`.
pub open spec fn is_unreserved(b: u8) -> bool {
    ||| 48 <= b <= 57
    ||| 65 <= b <= 90
    ||| 97 <= b <= 122
    ||| b == 45
    ||| b == 46
    ||| b == 95
    ||| b == 126
}

/// The upper-case hexadecimal digit of a value below 16.
pub open spec fn hex_digit(d: u8) -> char {
    if d < 10 {
        (48 + d) as char
    } else {
        (55 + d) as char
    }
}

/// One byte, percent-encoded.
pub open spec fn percent_encode_byte(b: u8) -> Seq<char> {
    if is_unreserved(b) {
        seq![b as char]
    } else {
        seq!['%', hex_digit(b / 16), hex_digit(b % 16)]
    }
}

/// A byte string, percent-encoded byte by byte.
pub open spec fn percent_encode(bytes: Seq<u8>) -> Seq<char>
    decreases bytes.len(),
{
    if bytes.len() == 0 {
        Seq::empty()
    } else {
        percent_encode_byte(bytes[0]) + percent_encode(bytes.drop_first())
    }
}

/// The percent-encoding of a text's UTF-8 bytes.
pub open spec fn url_encoded(text: Seq<char>) -> Seq<char> {
    percent_encode(encode_utf8(text))
}

/// A character that percent-encoding keeps: an ASCII letter or digit, `-`, `.`, `_` or `~`.
pub open spec fn is_unreserved_char(c: char) -> bool {
    '\0' <= c <= '\u{7f}' && is_unreserved(c as u8)
}

proof fn lemma_percent_encode_unreserved(bytes: Seq<u8>)
    requires
        forall|i: int| 0 <= i < bytes.len() ==> is_unreserved(#[trigger] bytes[i]),
    ensures
        percent_encode(bytes) =~= Seq::new(bytes.len(), |i: int| bytes[i] as char),
    decreases bytes.len(),
{
    if bytes.len() > 0 {
        let rest = bytes.drop_first();
        assert forall|i: int| 0 <= i < rest.len() implies is_unreserved(#[trigger] rest[i]) by {
            assert(rest[i] == bytes[i + 1]);
        }
        lemma_percent_encode_unreserved(rest);
    }
}

/// A text made only of characters that percent-encoding keeps comes out unchanged.
pub proof fn lemma_unreserved_text_unchanged(text: Seq<char>)
    requires
        forall|i: int| 0 <= i < text.len() ==> is_unreserved_char(#[trigger] text[i]),
    ensures
        url_encoded(text) == text,
{
    assert(vstd::utf8::is_ascii_chars(text)) by {
        assert forall|i: int| 0 <= i < text.len() implies '\0' <= #[trigger] text[i] <= '\u{7f}' by {
            assert(is_unreserved_char(text[i]));
        }
    }
    vstd::utf8::is_ascii_chars_encode_utf8(text);
    let bytes = encode_utf8(text);
    assert forall|i: int| 0 <= i < bytes.len() implies is_unreserved(#[trigger] bytes[i]) by {
        assert(text[i] as u8 == bytes[i]);
        assert(is_unreserved_char(text[i]));
    }
    lemma_percent_encode_unreserved(bytes);
    assert forall|i: int| 0 <= i < text.len() implies #[trigger] url_encoded(text)[i] == text[i] by {
        assert(text[i] as u8 == bytes[i]);
        assert(is_unreserved_char(text[i]));
    }
    assert(url_encoded(text) =~= text);
}

/// An upper-case hexadecimal digit.
pub open spec fn is_upper_hex_digit(c: char) -> bool {
    ||| 48 <= c as u32 <= 57
    ||| 65 <= c as u32 <= 70
}

/// A character that can appear in a percent-encoded text: one that is kept as it is, the
/// escape sign `%`, or a hexadecimal digit of an escape.
pub open spec fn is_url_safe_char(c: char) -> bool {
    is_unreserved_char(c) || c == '%' || is_upper_hex_digit(c)
}

proof fn lemma_hex_digit(d: u8)
    requires
        d < 16,
    ensures
        is_upper_hex_digit(hex_digit(d)),
{
}

proof fn lemma_percent_encode_byte_safe(b: u8)
    ensures
        forall|i: int|
            0 <= i < percent_encode_byte(b).len() ==> is_url_safe_char(
                #[trigger] percent_encode_byte(b)[i],
            ),
        !is_unreserved(b) ==> percent_encode_byte(b) == seq!['%', hex_digit(b / 16), hex_digit(b % 16)],
{
    if is_unreserved(b) {
        assert(percent_encode_byte(b)[0] == b as char);
        assert(b as char <= '\u{7f}');
        assert('\0' <= b as char);
    } else {
        lemma_hex_digit(b / 16);
        lemma_hex_digit(b % 16);
    }
}

/// Every character of a percent-encoded byte string is kept (an ASCII letter or digit,
/// `-`, `.`, `_`, `~`), an escape sign `%`, or an upper-case hexadecimal digit: no space,
/// `&`, `?`, `#` or other reserved character survives.
pub proof fn lemma_percent_encoded_is_url_safe(bytes: Seq<u8>)
    ensures
        forall|i: int|
            0 <= i < percent_encode(bytes).len() ==> is_url_safe_char(#[trigger] percent_encode(bytes)[i]),
    decreases bytes.len(),
{
    if bytes.len() > 0 {
        lemma_percent_encode_byte_safe(bytes[0]);
        lemma_percent_encoded_is_url_safe(bytes.drop_first());
        let head = percent_encode_byte(bytes[0]);
        let tail = percent_encode(bytes.drop_first());
        assert(percent_encode(bytes) == head + tail);
        assert forall|i: int| 0 <= i < percent_encode(bytes).len() implies is_url_safe_char(
            #[trigger] percent_encode(bytes)[i],
        ) by {
            if i < head.len() {
                assert(percent_encode(bytes)[i] == head[i]);
            } else {
                assert(percent_encode(bytes)[i] == tail[i - head.len()]);
            }
        }
    }
}

/// A byte that percent-encoding does not keep turns into exactly three characters: `%` and
/// the two upper-case hexadecimal digits of the byte.
pub proof fn lemma_reserved_byte_escaped(b: u8, rest: Seq<u8>)
    requires
        !is_unreserved(b),
    ensures
        percent_encode(seq![b] + rest) == seq!['%', hex_digit(b / 16), hex_digit(b % 16)]
            + percent_encode(rest),
{
    lemma_percent_encode_byte_safe(b);
    assert((seq![b] + rest).drop_first() =~= rest);
}

/// Both the label and the issuer of a key URI come out made only of kept characters and
/// escapes, whatever they held.
pub proof fn lemma_url_encoded_is_url_safe(text: Seq<char>)
    ensures
        forall|i: int|
            0 <= i < url_encoded(text).len() ==> is_url_safe_char(#[trigger] url_encoded(text)[i]),
{
    lemma_percent_encoded_is_url_safe(encode_utf8(text));
}

/// `urlencoding::encode`.
///
/// Trusted: as its documentation and source say, every byte of the UTF-8 encoding is
/// kept where it is an ASCII letter or digit or one of `-`, `.`, `_`, `~`, and otherwise
/// written as `%` and two upper-case hexadecimal digits.
#[verifier::external_body]
fn url_encode(text: &str) -> (encoded: String)
    ensures
        encoded@ == url_encoded(text@),
{
    urlencoding::encode(text).into_owned()
}

/// The key URI `otpauth://totp/LABEL?secret=SECRET&issuer=ISSUER`, with the label and the
/// issuer percent-encoded.
pub open spec fn totp_uri(secret_base32: Seq<char>, label: Seq<char>, issuer: Seq<char>) -> Seq<char> {
    "otpauth://totp/"@ + url_encoded(label) + "?secret="@ + secret_base32 + "&issuer="@
        + url_encoded(issuer)
}

/// Builds the key URI of a secret for an account label and an issuer.
pub fn generate_totp_uri(secret_base32: &str, label: &str, issuer: &str) -> (uri: String)
    ensures
        uri@ == totp_uri(secret_base32@, label@, issuer@),
        uri@ == "otpauth://totp/"@ + url_encoded(label@) + "?secret="@ + secret_base32@
            + "&issuer="@ + url_encoded(issuer@),
{
    let encoded_label = url_encode(label);
    let encoded_issuer = url_encode(issuer);
    let mut uri = String::from_str("otpauth://totp/");
    uri.append(encoded_label.as_str());
    uri.append("?secret=");
    uri.append(secret_base32);
    uri.append("&issuer=");
    uri.append(encoded_issuer.as_str());
    uri
}

} // verus!
