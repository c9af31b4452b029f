//! `file://` URIs and their percent escapes.

use vstd::prelude::*;
use vstd::string::*;
use vstd::utf8::*;
use crate::codec::{decode_lossy, lossy_text};
use crate::text::{chars_of, has_prefix, text_of};

verus! {

/// The byte `%`.
pub const PERCENT: u8 = 0x25;

/// The value of a hexadecimal digit, upper or lower case.
pub open spec fn hex_value(byte: u8) -> Option<u8> {
    if 0x30 <= byte <= 0x39 {
        Some((byte - 0x30) as u8)
    } else if 0x41 <= byte <= 0x46 {
        Some((byte - 0x41 + 10) as u8)
    } else if 0x61 <= byte <= 0x66 {
        Some((byte - 0x61 + 10) as u8)
    } else {
        None
    }
}

/// The byte that the two bytes after a `%` write: two hexadecimal digits, or a
/// plus sign and one.
pub open spec fn escaped_byte(first: u8, second: u8) -> Option<u8> {
    match (hex_value(first), hex_value(second)) {
        (Some(high), Some(low)) => Some((high * 16 + low) as u8),
        (None, Some(low)) if first == 0x2b => Some(low),
        _ => None,
    }
}

/// Whether some bytes start with an escape.
pub open spec fn starts_with_escape(bytes: Seq<u8>) -> bool {
    bytes.len() > 2 && bytes[0] == PERCENT && escaped_byte(bytes[1], bytes[2]) is Some
}

/// Some bytes with every escape turned into the byte that it writes. A `%`
/// that starts no escape stands for itself.
pub open spec fn unescaped(bytes: Seq<u8>) -> Seq<u8>
    decreases bytes.len(),
{
    if bytes.len() == 0 {
        Seq::empty()
    } else if starts_with_escape(bytes) {
        seq![escaped_byte(bytes[1], bytes[2])->0] + unescaped(bytes.skip(3))
    } else {
        seq![bytes[0]] + unescaped(bytes.skip(1))
    }
}

/// The executable form of [`hex_value`].
fn hex_digit(byte: u8) -> (value: Option<u8>)
    ensures
        value == hex_value(byte),
        value matches Some(value) ==> value < 16,
{
    if 0x30 <= byte && byte <= 0x39 {
        Some(byte - 0x30)
    } else if 0x41 <= byte && byte <= 0x46 {
        Some(byte - 0x41 + 10)
    } else if 0x61 <= byte && byte <= 0x66 {
        Some(byte - 0x61 + 10)
    } else {
        None
    }
}

/// The executable form of [`escaped_byte`].
fn read_escape(first: u8, second: u8) -> (byte: Option<u8>)
    ensures
        byte == escaped_byte(first, second),
{
    match (hex_digit(first), hex_digit(second)) {
        (Some(high), Some(low)) => Some(high * 16 + low),
        (None, Some(low)) => if first == 0x2b {
            Some(low)
        } else {
            None
        },
        _ => None,
    }
}

/// Turns every escape in `bytes` into the byte that it writes.
pub fn unescape(bytes: &[u8]) -> (decoded: Vec<u8>)
    ensures
        decoded@ == unescaped(bytes@),
{
    let len: usize = bytes.len();
    let mut decoded: Vec<u8> = Vec::new();
    let mut index: usize = 0;
    assert(bytes@.skip(0) == bytes@);
    while index < len
        invariant
            len == bytes@.len(),
            index <= len,
            decoded@ + unescaped(bytes@.skip(index as int)) == unescaped(bytes@),
        decreases len - index,
    {
        let ghost rest = bytes@.skip(index as int);
        let ghost before = decoded@;
        assert(rest[0] == bytes@[index as int]);
        assert(rest.skip(1) == bytes@.skip(index + 1));
        if bytes[index] == PERCENT && len - index > 2 {
            assert(rest[1] == bytes@[index + 1] && rest[2] == bytes@[index + 2]);
            if let Some(byte) = read_escape(bytes[index + 1], bytes[index + 2]) {
                assert(rest.skip(3) == bytes@.skip(index + 3));
                decoded.push(byte);
                index += 3;
                assert(decoded@ + unescaped(bytes@.skip(index as int)) =~= before + unescaped(
                    rest,
                ));
                continue;
            }
        }
        decoded.push(bytes[index]);
        index += 1;
        assert(decoded@ + unescaped(bytes@.skip(index as int)) =~= before + unescaped(rest));
    }
    assert(bytes@.skip(index as int) == Seq::<u8>::empty());
    assert(decoded@ + unescaped(bytes@.skip(index as int)) =~= decoded@);
    decoded
}

/// Turns every percent escape of `value` into the byte that it writes, and
/// reads the bytes as UTF-8, with replacement characters for what is not.
pub fn percent_decode(value: &str) -> (text: String)
    ensures
        text@ == lossy_text(unescaped(encode_utf8(value@))),
        valid_utf8(unescaped(encode_utf8(value@))) ==> text@ == decode_utf8(
            unescaped(encode_utf8(value@)),
        ),
{
    let decoded = unescape(value.as_bytes());
    decode_lossy(&decoded)
}

/// A URI that does not name a local file.
#[derive(Clone, Debug, PartialEq, Eq)]
pub struct UnsupportedUri {
    pub uri: String,
}

/// The part of a `file://` URI that gives the path, escapes and all.
pub open spec fn escaped_path(uri: Seq<char>) -> Option<Seq<char>> {
    if "file://"@.is_prefix_of(uri) {
        Some(uri.skip("file://"@.len() as int))
    } else {
        None
    }
}

/// Returns the path that a `file://` URI names.
pub fn file_uri_to_path(uri: &str) -> (path: Result<String, UnsupportedUri>)
    ensures
        match escaped_path(uri@) {
            Some(rest) => path matches Ok(path) && path@ == lossy_text(
                unescaped(encode_utf8(rest)),
            ) && (valid_utf8(unescaped(encode_utf8(rest))) ==> path@ == decode_utf8(
                unescaped(encode_utf8(rest)),
            )),
            None => path matches Err(error) && error.uri@ == uri@,
        },
{
    let chars = chars_of(uri);
    if !has_prefix(&chars, "file://") {
        return Err(UnsupportedUri { uri: uri.to_owned() });
    }
    proof {
        reveal_strlit("file://");
    }
    let rest = text_of(&chars, 7, chars.len());
    assert(rest@ == uri@.skip(7));
    Ok(percent_decode(rest.as_str()))
}

/// Whether `escaped` writes the bytes `plain`: each byte stands for itself,
/// unless it is `%`, or is written as `%` and two hexadecimal digits.
pub open spec fn writes(escaped: Seq<u8>, plain: Seq<u8>) -> bool
    decreases plain.len(),
{
    if plain.len() == 0 {
        escaped.len() == 0
    } else {
        ||| {
            &&& escaped.len() > 0
            &&& escaped[0] == plain[0]
            &&& escaped[0] != PERCENT
            &&& writes(escaped.skip(1), plain.skip(1))
        }
        ||| {
            &&& escaped.len() > 2
            &&& escaped[0] == PERCENT
            &&& hex_value(escaped[1]) matches Some(high)
            &&& hex_value(escaped[2]) matches Some(low)
            &&& plain[0] == high * 16 + low
            &&& writes(escaped.skip(3), plain.skip(1))
        }
    }
}

/// Decoding gives back the bytes that an escaped text writes, whichever of
/// them are escaped.
pub proof fn law_unescape_undoes_escaping(escaped: Seq<u8>, plain: Seq<u8>)
    requires
        writes(escaped, plain),
    ensures
        unescaped(escaped) == plain,
    decreases plain.len(),
{
    if plain.len() > 0 {
        if escaped[0] == plain[0] && escaped[0] != PERCENT && writes(
            escaped.skip(1),
            plain.skip(1),
        ) {
            law_unescape_undoes_escaping(escaped.skip(1), plain.skip(1));
        } else {
            law_unescape_undoes_escaping(escaped.skip(3), plain.skip(1));
        }
        assert(unescaped(escaped) =~= seq![plain[0]] + plain.skip(1));
        assert(seq![plain[0]] + plain.skip(1) =~= plain);
    }
}

/// A path whose bytes a URI writes, escaped or not, is the path that the URI
/// decodes to.
pub proof fn law_escaped_path_decodes_to_path(escaped: Seq<char>, path: Seq<char>)
    requires
        writes(encode_utf8(escaped), encode_utf8(path)),
    ensures
        valid_utf8(unescaped(encode_utf8(escaped))),
        decode_utf8(unescaped(encode_utf8(escaped))) == path,
{
    law_unescape_undoes_escaping(encode_utf8(escaped), encode_utf8(path));
    encode_utf8_valid_utf8(path);
    encode_utf8_decode_utf8(path);
}

/// Bytes without `%` write themselves.
proof fn lemma_plain_writes_itself(bytes: Seq<u8>)
    requires
        forall|i: int| 0 <= i < bytes.len() ==> #[trigger] bytes[i] != PERCENT,
    ensures
        writes(bytes, bytes),
    decreases bytes.len(),
{
    if bytes.len() > 0 {
        lemma_plain_writes_itself(bytes.skip(1));
    }
}

/// The bytes of a character hold a `%` only if it is one.
proof fn lemma_scalar_has_no_percent(ch: char)
    requires
        ch != '%',
    ensures
        forall|i: int|
            0 <= i < encode_scalar(ch as u32).len() ==> #[trigger] encode_scalar(ch as u32)[i]
                != PERCENT,
{
    let scalar = ch as u32;
    assert(scalar <= 0x7f && scalar != 0x25 ==> (scalar & 0x7f) as u8 != 0x25u8) by (bit_vector);
    assert(0xc0u8 | ((scalar >> 6) & 0x1f) as u8 != 0x25u8) by (bit_vector);
    assert(0xe0u8 | ((scalar >> 12) & 0x0f) as u8 != 0x25u8) by (bit_vector);
    assert(0xf0u8 | ((scalar >> 18) & 0x7) as u8 != 0x25u8) by (bit_vector);
    assert(0x80u8 | (scalar & 0x3f) as u8 != 0x25u8) by (bit_vector);
    assert(0x80u8 | ((scalar >> 6) & 0x3f) as u8 != 0x25u8) by (bit_vector);
    assert(0x80u8 | ((scalar >> 12) & 0x3f) as u8 != 0x25u8) by (bit_vector);
}

/// The bytes of a text hold a `%` only if the text does.
proof fn lemma_text_has_no_percent(text: Seq<char>)
    requires
        !text.contains('%'),
    ensures
        forall|i: int| 0 <= i < encode_utf8(text).len() ==> #[trigger] encode_utf8(text)[i] != PERCENT,
    decreases text.len(),
{
    if text.len() > 0 {
        let rest = text.drop_first();
        assert(text.contains(text[0]));
        assert forall|ch: char| rest.contains(ch) implies text.contains(ch) by {
            let i = choose|i: int| 0 <= i < rest.len() && rest[i] == ch;
            assert(text[i + 1] == ch);
        }
        lemma_text_has_no_percent(rest);
        lemma_scalar_has_no_percent(text[0]);
        let first = encode_scalar(text[0] as u32);
        assert forall|i: int| 0 <= i < encode_utf8(text).len() implies #[trigger] encode_utf8(
            text,
        )[i] != PERCENT by {
            if i < first.len() {
                assert(encode_utf8(text)[i] == first[i]);
            } else {
                assert(encode_utf8(text)[i] == encode_utf8(rest)[i - first.len()]);
            }
        }
    }
}

/// A path without `%` decodes to itself.
pub proof fn law_plain_path_is_kept(path: Seq<char>)
    requires
        !path.contains('%'),
    ensures
        valid_utf8(unescaped(encode_utf8(path))),
        decode_utf8(unescaped(encode_utf8(path))) == path,
{
    lemma_text_has_no_percent(path);
    lemma_plain_writes_itself(encode_utf8(path));
    law_escaped_path_decodes_to_path(path, path);
}

/// The hexadecimal digits and their values.
pub proof fn law_hexadecimal_digits(byte: u8)
    ensures
        hex_value(byte) == if 0x30 <= byte <= 0x39 {
            Some((byte - 0x30) as u8)
        } else if 0x41 <= byte <= 0x46 {
            Some((byte - 0x37) as u8)
        } else if 0x61 <= byte <= 0x66 {
            Some((byte - 0x57) as u8)
        } else {
            None
        },
{
}

/// How escapes are read from the front: a byte other than `%` stands for
/// itself; `%` with two hexadecimal digits, or with a plus sign and one, is the
/// byte that they write; any other `%` stands for itself.
pub proof fn law_escapes_are_read_in_order(first: u8, second: u8, third: u8, rest: Seq<u8>)
    ensures
        unescaped(Seq::empty()) == Seq::<u8>::empty(),
        first != 0x25 ==> unescaped(seq![first] + rest) == seq![first] + unescaped(rest),
        rest.len() < 2 ==> unescaped(seq![first] + rest) == seq![first] + unescaped(rest),
        unescaped(seq![0x25u8, second, third] + rest) == if hex_value(second) is Some && hex_value(
            third,
        ) is Some {
            seq![(hex_value(second)->0 * 16 + hex_value(third)->0) as u8] + unescaped(rest)
        } else if second == 0x2b && hex_value(third) is Some {
            seq![hex_value(third)->0] + unescaped(rest)
        } else {
            seq![0x25u8] + unescaped(seq![second, third] + rest)
        },
{
    let one = seq![first] + rest;
    assert(one.skip(1) =~= rest);
    let three = seq![0x25u8, second, third] + rest;
    assert(three.skip(3) =~= rest);
    assert(three.skip(1) =~= seq![second, third] + rest);
}

/// The path of a URI is what follows `file://`, and no other URI has one.
pub proof fn law_path_of_a_uri(rest: Seq<char>, uri: Seq<char>)
    ensures
        escaped_path("file://"@ + rest) == Some(rest),
        escaped_path(uri) matches Some(path) ==> uri == "file://"@ + path,
        (forall|rest: Seq<char>| uri != #[trigger] ("file://"@ + rest)) ==> escaped_path(uri) is None,
{
    let scheme = "file://"@;
    assert(scheme.is_prefix_of(scheme + rest));
    assert((scheme + rest).skip(scheme.len() as int) =~= rest);
    if let Some(path) = escaped_path(uri) {
        assert(uri =~= scheme + path);
    }
}

} // verus!
