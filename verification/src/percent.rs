//! Percent-decoding of the URLs that the player-control program prints.
//!
//! An escape is a percent sign followed by two hexadecimal digits and stands
//! for one byte. A text is decoded by replacing each escape in its UTF-8
//! encoding by that byte and reading the result as UTF-8 again. A percent
//! sign that begins no escape, and a result that is no UTF-8, are errors.

use vstd::prelude::*;
use vstd::string::StringSliceAdditionalSpecFns;
use vstd::utf8::decode_utf8;
use vstd::utf8::encode_utf8;
use vstd::utf8::encode_utf8_decode_utf8;
use vstd::utf8::encode_utf8_valid_utf8;
use vstd::utf8::is_ascii_chars_encode_utf8;
use vstd::utf8::valid_utf8;

verus! {

/// The error of `String::from_utf8`, as `urlencoding::decode` hands it on.
#[verifier::external_type_specification]
#[verifier::external_body]
pub struct ExFromUtf8Error(std::string::FromUtf8Error);

/// The byte of the percent sign.
pub open spec fn percent_sign() -> u8 {
    0x25
}

/// Whether `b` is a hexadecimal digit, in either case.
pub open spec fn is_hex_digit(b: u8) -> bool {
    (0x30 <= b <= 0x39) || (0x41 <= b <= 0x46) || (0x61 <= b <= 0x66)
}

/// The value of a hexadecimal digit.
pub open spec fn hex_value(b: u8) -> int {
    if 0x30 <= b <= 0x39 {
        b - 0x30
    } else if 0x41 <= b <= 0x46 {
        b - 0x41 + 10
    } else {
        b - 0x61 + 10
    }
}

/// Whether every percent sign in `b` is followed by two hexadecimal digits.
pub open spec fn escapes_well_formed(b: Seq<u8>) -> bool {
    forall|i: int|
        0 <= i < b.len() && #[trigger] b[i] == percent_sign() ==> i + 2 < b.len() && is_hex_digit(
            b[i + 1],
        ) && is_hex_digit(b[i + 2])
}

/// The bytes that `b` stands for, where its escapes are well formed: each
/// escape gives the byte that its two digits write, every other byte gives
/// itself.
pub open spec fn unescaped(b: Seq<u8>) -> Seq<u8>
    decreases b.len(),
{
    if b.len() == 0 {
        Seq::empty()
    } else if b[0] == percent_sign() && b.len() >= 3 {
        seq![(hex_value(b[1]) * 16 + hex_value(b[2])) as u8] + unescaped(b.skip(3))
    } else {
        seq![b[0]] + unescaped(b.drop_first())
    }
}

/// The text that `s` stands for, or nothing where an escape of `s` is
/// malformed or the bytes it stands for are no UTF-8.
pub open spec fn percent_decoded(s: Seq<char>) -> Option<Seq<char>> {
    let b = encode_utf8(s);
    if escapes_well_formed(b) && valid_utf8(unescaped(b)) {
        Some(decode_utf8(unescaped(b)))
    } else {
        None
    }
}

/// The bytes that stand for themselves in an encoded text: the ASCII letters
/// and digits, `-`, `.`, `_` and `~`.
pub open spec fn is_unreserved(b: u8) -> bool {
    (0x30 <= b <= 0x39) || (0x41 <= b <= 0x5A) || (0x61 <= b <= 0x7A) || b == 0x2D || b == 0x2E
        || b == 0x5F || b == 0x7E
}

/// The upper-case hexadecimal digit for a value below sixteen.
pub open spec fn hex_digit(n: u8) -> u8 {
    if n < 10 {
        (0x30 + n) as u8
    } else {
        (0x41 + n - 10) as u8
    }
}

/// The percent-encoding of a byte sequence: every byte that is not
/// unreserved becomes an escape.
pub open spec fn escaped(b: Seq<u8>) -> Seq<u8>
    decreases b.len(),
{
    if b.len() == 0 {
        Seq::empty()
    } else if is_unreserved(b[0]) {
        seq![b[0]] + escaped(b.drop_first())
    } else {
        seq![percent_sign(), hex_digit(b[0] / 16), hex_digit(b[0] % 16)] + escaped(b.drop_first())
    }
}

/// The percent-encoding of a text: the encoding of its UTF-8 bytes, read as
/// ASCII characters.
pub open spec fn percent_encoded(s: Seq<char>) -> Seq<char> {
    let e = escaped(encode_utf8(s));
    Seq::new(e.len(), |i: int| e[i] as char)
}

/// Texts with well-formed escapes stay so when one is put behind the other.
proof fn lemma_well_formed_concat(a: Seq<u8>, b: Seq<u8>)
    requires
        escapes_well_formed(a),
        escapes_well_formed(b),
    ensures
        escapes_well_formed(a + b),
{
    let c = a + b;
    assert forall|i: int| 0 <= i < c.len() && #[trigger] c[i] == percent_sign() implies i + 2
        < c.len() && is_hex_digit(c[i + 1]) && is_hex_digit(c[i + 2]) by {
        if i < a.len() {
            assert(a[i] == percent_sign());
        } else {
            assert(b[i - a.len()] == percent_sign());
        }
    }
}

/// An encoding has well-formed escapes only, is made of ASCII bytes and
/// stands for the bytes that were encoded.
proof fn lemma_escaped(b: Seq<u8>)
    ensures
        escapes_well_formed(escaped(b)),
        unescaped(escaped(b)) == b,
        forall|i: int| 0 <= i < escaped(b).len() ==> #[trigger] escaped(b)[i] < 0x80,
    decreases b.len(),
{
    if b.len() > 0 {
        let rest = escaped(b.drop_first());
        lemma_escaped(b.drop_first());
        if is_unreserved(b[0]) {
            let head = seq![b[0]];
            lemma_well_formed_concat(head, rest);
            assert((head + rest).drop_first() =~= rest);
        } else {
            let head = seq![percent_sign(), hex_digit(b[0] / 16), hex_digit(b[0] % 16)];
            lemma_well_formed_concat(head, rest);
            assert((head + rest).skip(3) =~= rest);
        }
    }
}

/// Decoding undoes encoding: the percent-encoding of any text has
/// well-formed escapes only, and decodes to that text.
pub proof fn lemma_decode_inverts_encode(s: Seq<char>)
    ensures
        percent_decoded(percent_encoded(s)) == Some(s),
{
    let encoded = percent_encoded(s);
    lemma_escaped(encode_utf8(s));
    is_ascii_chars_encode_utf8(encoded);
    assert(encode_utf8(encoded) =~= escaped(encode_utf8(s)));
    encode_utf8_valid_utf8(s);
    encode_utf8_decode_utf8(s);
}

/// `urlencoding::decode`, for a text whose escapes are well formed: it
/// replaces each escape in the UTF-8 bytes of `s` by the byte it stands
/// for and succeeds exactly if the result is UTF-8, which it then returns as
/// a string. On other inputs the function is lenient in ways that this
/// contract leaves out.
#[verifier::external_body]
fn decode_escapes(s: &str) -> (r: Result<String, std::string::FromUtf8Error>)
    requires
        escapes_well_formed(s.spec_bytes()),
    ensures
        r is Ok <==> valid_utf8(unescaped(s.spec_bytes())),
        r matches Ok(t) ==> t@ == decode_utf8(unescaped(s.spec_bytes())),
{
    match urlencoding::decode(s) {
        Ok(t) => Ok(t.into_owned()),
        Err(e) => Err(e),
    }
}

/// Whether `b` is a hexadecimal digit.
fn hex_digit_byte(b: u8) -> (r: bool)
    ensures
        r == is_hex_digit(b),
{
    (0x30 <= b && b <= 0x39) || (0x41 <= b && b <= 0x46) || (0x61 <= b && b <= 0x66)
}

/// Whether every percent sign in `b` begins an escape.
pub fn well_formed(b: &[u8]) -> (r: bool)
    ensures
        r == escapes_well_formed(b@),
{
    let mut i: usize = 0;
    while i < b.len()
        invariant
            i <= b.len(),
            forall|j: int|
                0 <= j < i && #[trigger] b@[j] == percent_sign() ==> j + 2 < b@.len()
                    && is_hex_digit(b@[j + 1]) && is_hex_digit(b@[j + 2]),
        decreases b.len() - i,
    {
        if b[i] == 0x25 {
            if b.len() - i < 3 || !hex_digit_byte(b[i + 1]) || !hex_digit_byte(b[i + 2]) {
                return false;
            }
        }
        i += 1;
    }
    true
}

/// Decodes a percent-encoded text.
pub fn percent_decode(s: &str) -> (r: Option<String>)
    ensures
        match r {
            Some(t) => percent_decoded(s@) == Some(t@),
            None => percent_decoded(s@) is None,
        },
{
    if !well_formed(s.as_bytes()) {
        return None;
    }
    match decode_escapes(s) {
        Ok(t) => Some(t),
        Err(_) => None,
    }
}

} // verus!
