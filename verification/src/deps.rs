//! Calls into the crates this library depends on, each behind a contract.
use vstd::prelude::*;
use sha2::Digest;
use base64::Engine;

verus! {

/// The lowercase hexadecimal SHA-256 digest of `data`.
pub uninterp spec fn sha256_hex_of(data: Seq<u8>) -> Seq<char>;

/// SHA-256 of `data`, as `sha2::Sha256::digest` computes it, printed as 64 lowercase
/// hexadecimal digits. The contract names the digest and states its printed shape,
/// which the `LowerHex` formatting of a 32-byte array fixes.
#[verifier::external_body]
pub(crate) fn sha256_hex(data: &[u8]) -> (r: String)
    ensures
        r@ == sha256_hex_of(data@),
        crate::text::is_lower_hex_text(r@, 64),
{
    format!("{:x}", sha2::Sha256::digest(data))
}


/// A byte that a path segment keeps as it is: an ASCII letter or digit, `-`, `_`,
/// `.` or `~`.
pub open spec fn keeps_byte(b: u8) -> bool {
    (48 <= b <= 57) || (65 <= b <= 90) || (97 <= b <= 122) || b == 45 || b == 95 || b == 46
        || b == 126
}

/// The uppercase hexadecimal digit of `n`, below 16.
pub open spec fn hex_upper(n: u8) -> char {
    if n < 10 {
        (48 + n) as char
    } else {
        (55 + n) as char
    }
}

/// `bytes` with every byte that a path segment does not keep written as `%` and
/// two uppercase hexadecimal digits.
pub open spec fn percent_encoded(bytes: Seq<u8>) -> Seq<char>
    decreases bytes.len(),
{
    if bytes.len() == 0 {
        Seq::empty()
    } else {
        let b = bytes[0];
        (if keeps_byte(b) {
            seq![b as char]
        } else {
            seq!['%', hex_upper(b / 16), hex_upper(b % 16)]
        }) + percent_encoded(bytes.skip(1))
    }
}

/// `percent_encoding::percent_encode_byte`: the byte `b` written as `%` and two
/// uppercase hexadecimal digits, as that crate's table and its test show.
#[verifier::external_body]
pub(crate) fn percent_encode_byte(b: u8) -> (r: &'static str)
    ensures
        r@ == seq!['%', hex_upper(b / 16), hex_upper(b % 16)],
{
    percent_encoding::percent_encode_byte(b)
}

/// A uniformly random `u64` from `rand::random`. Nothing is promised of its value.
#[verifier::external_body]
pub(crate) fn random_u64() -> (r: u64) {
    rand::random::<u64>()
}

/// A fresh random identity: `rand::random::<u128>()` printed as 32 lowercase
/// hexadecimal digits. Only that shape is promised.
#[verifier::external_body]
pub(crate) fn random_identity() -> (r: String)
    ensures
        crate::text::is_lower_hex_text(r@, 32),
{
    format!("{:032x}", rand::random::<u128>())
}

/// The text with which `std::str::Utf8Error` describes why `bytes` are not UTF-8.
pub uninterp spec fn utf8_error_text_of(bytes: Seq<u8>) -> Seq<char>;

/// `std::str::from_utf8` on bytes that are not UTF-8, its error displayed: the
/// decoder's own account of where the input stopped being UTF-8. The contract
/// names that text.
#[verifier::external_body]
pub(crate) fn utf8_error_text(bytes: &[u8]) -> (r: String)
    requires
        !vstd::utf8::valid_utf8(bytes@),
    ensures
        r@ == utf8_error_text_of(bytes@),
{
    match std::str::from_utf8(bytes) {
        Ok(_) => String::new(),
        Err(e) => e.to_string(),
    }
}

/// The character of the 6-bit value `n` in the standard base64 alphabet.
pub open spec fn base64_digit(n: int) -> char {
    if n < 26 {
        (65 + n) as char
    } else if n < 52 {
        (97 + n - 26) as char
    } else if n < 62 {
        (48 + n - 52) as char
    } else if n == 62 {
        '+'
    } else {
        '/'
    }
}

/// The standard base64 text, with padding, of `bytes`: each group of three bytes
/// becomes four characters, and a final group of one or two bytes is padded with `=`.
#[verifier::opaque]
pub open spec fn base64_of(bytes: Seq<u8>) -> Seq<char>
    decreases bytes.len(),
{
    if bytes.len() == 0 {
        Seq::empty()
    } else if bytes.len() == 1 {
        seq![base64_digit((bytes[0] / 4) as int), base64_digit((bytes[0] % 4) * 16), '=', '=']
    } else if bytes.len() == 2 {
        seq![
            base64_digit((bytes[0] / 4) as int),
            base64_digit((bytes[0] % 4) * 16 + bytes[1] / 16),
            base64_digit((bytes[1] % 16) * 4),
            '=',
        ]
    } else {
        seq![
            base64_digit((bytes[0] / 4) as int),
            base64_digit((bytes[0] % 4) * 16 + bytes[1] / 16),
            base64_digit((bytes[1] % 16) * 4 + bytes[2] / 64),
            base64_digit((bytes[2] % 64) as int),
        ] + base64_of(bytes.skip(3))
    }
}

/// `base64::engine::general_purpose::STANDARD.encode`: `bytes` in the standard
/// base64 alphabet with padding, as [`base64_of`] states it.
#[verifier::external_body]
pub(crate) fn base64_encode(bytes: &[u8]) -> (r: String)
    ensures
        r@ == base64_of(bytes@),
{
    base64::engine::general_purpose::STANDARD.encode(bytes)
}

/// `String::from_utf8`: the text `bytes` encode, when they are valid UTF-8.
#[verifier::external_body]
pub(crate) fn utf8_string(bytes: Vec<u8>) -> (r: Option<String>)
    ensures
        r is Some <==> vstd::utf8::valid_utf8(bytes@),
        r matches Some(s) ==> s@ == vstd::utf8::decode_utf8(bytes@),
{
    String::from_utf8(bytes).ok()
}

/// The lowercase hexadecimal digit of `n`, below 16.
pub open spec fn hex_lower(n: int) -> char {
    if n < 10 {
        (48 + n) as char
    } else {
        (87 + n) as char
    }
}

/// How `serde_json` writes one character inside a string: a quote and a
/// backslash behind a backslash; backspace, tab, newline, form feed and carriage
/// return as `\b`, `\t`, `\n`, `\f`, `\r`; any other character below U+0020 as
/// `\u00` and two lowercase hexadecimal digits; every other character as itself.
pub open spec fn json_escaped(c: char) -> Seq<char> {
    if c == '"' {
        seq!['\\', '"']
    } else if c == '\\' {
        seq!['\\', '\\']
    } else if c == '\u{8}' {
        seq!['\\', 'b']
    } else if c == '\t' {
        seq!['\\', 't']
    } else if c == '\n' {
        seq!['\\', 'n']
    } else if c == '\u{c}' {
        seq!['\\', 'f']
    } else if c == '\r' {
        seq!['\\', 'r']
    } else if (c as int) < 32 {
        seq!['\\', 'u', '0', '0', hex_lower((c as int) / 16), hex_lower((c as int) % 16)]
    } else {
        seq![c]
    }
}

/// The characters of `s`, each as [`json_escaped`] writes it.
pub open spec fn json_escaped_text(s: Seq<char>) -> Seq<char>
    decreases s.len(),
{
    if s.len() == 0 {
        Seq::empty()
    } else {
        json_escaped(s[0]) + json_escaped_text(s.skip(1))
    }
}

/// The JSON text `serde_json::to_string` writes for the string `s`: `s` escaped,
/// between double quotes.
#[verifier::opaque]
pub open spec fn json_string_of(s: Seq<char>) -> Seq<char> {
    seq!['"'] + json_escaped_text(s) + seq!['"']
}

/// `serde_json::to_string` of a string: `s` as a quoted, escaped JSON string
/// literal, as [`json_string_of`] states it; serialising a `&str` cannot fail.
#[verifier::external_body]
pub(crate) fn json_string(s: &str) -> (r: String)
    ensures
        r@ == json_string_of(s@),
{
    serde_json::to_string(s).unwrap_or_default()
}


/// The text `String::from_utf8_lossy` makes of `bytes`.
pub uninterp spec fn lossy_text_of(bytes: Seq<u8>) -> Seq<char>;

/// `String::from_utf8_lossy`: the text of `bytes` with each invalid sequence
/// replaced by U+FFFD. The contract names that text and states, as the function's
/// documentation does, that valid UTF-8 is decoded unchanged.
#[verifier::external_body]
pub(crate) fn lossy_text(bytes: &[u8]) -> (r: String)
    ensures
        r@ == lossy_text_of(bytes@),
        vstd::utf8::valid_utf8(bytes@) ==> r@ == vstd::utf8::decode_utf8(bytes@),
{
    String::from_utf8_lossy(bytes).into_owned()
}

} // verus!
