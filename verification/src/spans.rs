//! Spans of a string, counted in bytes and in characters.
//!
//! A search reports where a match lies in bytes. Everything that a reader
//! sees, the marker line and the rewritten path, counts in characters. This
//! module turns the one into the other and replaces a span of characters.

use vstd::prelude::*;
use vstd::string::*;
use vstd::utf8::*;

verus! {

/// How many characters of `text` lie before the byte offset `byte`, where
/// `byte` falls on a character boundary.
pub open spec fn chars_before(text: Seq<char>, byte: int) -> nat {
    decode_utf8(encode_utf8(text).subrange(0, byte)).len()
}

/// Whether `[start, end)` is a span of bytes of `text` that begins and ends
/// on a character boundary.
pub open spec fn is_byte_span(text: Seq<char>, start: int, end: int) -> bool {
    &&& start <= end
    &&& is_char_boundary(encode_utf8(text), start)
    &&& is_char_boundary(encode_utf8(text), end)
}

/// `text` with the characters of `[start, end)` replaced by `replacement`.
pub open spec fn spliced(text: Seq<char>, start: int, end: int, replacement: Seq<char>) -> Seq<
    char,
> {
    text.subrange(0, start) + replacement + text.subrange(end, text.len() as int)
}

/// Replacing a span leaves every character outside it as it was: those
/// before the span stay in place, the replacement follows them, and those
/// after the span follow the replacement.
pub proof fn lemma_spliced_keeps_the_rest(
    text: Seq<char>,
    start: int,
    end: int,
    replacement: Seq<char>,
)
    requires
        0 <= start <= end <= text.len(),
    ensures
        spliced(text, start, end, replacement).len() == text.len() - (end - start)
            + replacement.len(),
        spliced(text, start, end, replacement).subrange(0, start) == text.subrange(0, start),
        spliced(text, start, end, replacement).subrange(start, start + replacement.len())
            == replacement,
        spliced(text, start, end, replacement).subrange(
            start + replacement.len(),
            spliced(text, start, end, replacement).len() as int,
        ) == text.subrange(end, text.len() as int),
{
    let made = spliced(text, start, end, replacement);
    assert(made.subrange(0, start) =~= text.subrange(0, start));
    assert(made.subrange(start, start + replacement.len()) =~= replacement);
    assert(made.subrange(start + replacement.len(), made.len() as int) =~= text.subrange(
        end,
        text.len() as int,
    ));
}

/// A character boundary of a string is one of each part that reaches it.
proof fn lemma_boundary_in_prefix(bytes: Seq<u8>, inner: int, outer: int)
    requires
        valid_utf8(bytes),
        inner <= outer,
        is_char_boundary(bytes, inner),
        is_char_boundary(bytes, outer),
    ensures
        valid_utf8(bytes.subrange(0, outer)),
        is_char_boundary(bytes.subrange(0, outer), inner),
{
    valid_utf8_split(bytes, outer);
    let part = bytes.subrange(0, outer);
    if inner == outer {
        is_char_boundary_start_end_of_seq(part);
    } else if inner > 0 {
        is_char_boundary_iff_not_is_continuation_byte(bytes, inner);
        is_char_boundary_iff_not_is_continuation_byte(part, inner);
    }
}

/// The characters before a boundary are those that the bytes before it
/// decode to, and splitting at the boundary splits the characters there.
proof fn lemma_split_at_boundary(text: Seq<char>, byte: int)
    requires
        is_char_boundary(encode_utf8(text), byte),
    ensures
        0 <= byte <= encode_utf8(text).len(),
        chars_before(text, byte) <= text.len(),
        decode_utf8(encode_utf8(text).subrange(0, byte)) == text.subrange(
            0,
            chars_before(text, byte) as int,
        ),
        decode_utf8(encode_utf8(text).subrange(byte, encode_utf8(text).len() as int))
            == text.subrange(chars_before(text, byte) as int, text.len() as int),
{
    let bytes = encode_utf8(text);
    encode_utf8_valid_utf8(text);
    encode_utf8_decode_utf8(text);
    decode_utf8_split(bytes, byte);
}

/// Of two boundaries, the later one has at least as many characters before
/// it.
pub proof fn lemma_chars_before_ordered(text: Seq<char>, start: int, end: int)
    requires
        is_byte_span(text, start, end),
    ensures
        chars_before(text, start) <= chars_before(text, end) <= text.len(),
{
    let bytes = encode_utf8(text);
    encode_utf8_valid_utf8(text);
    lemma_split_at_boundary(text, end);
    lemma_boundary_in_prefix(bytes, start, end);
    let part = bytes.subrange(0, end);
    decode_utf8_split(part, start);
    assert(part.subrange(0, start) =~= bytes.subrange(0, start));
}

/// In a text of ASCII characters alone, every offset up to the length is a
/// character boundary, and bytes and characters count alike.
pub proof fn lemma_ascii_bytes_are_chars(text: Seq<char>, byte: int)
    requires
        is_ascii_chars(text),
        0 <= byte <= text.len(),
    ensures
        is_char_boundary(encode_utf8(text), byte),
        chars_before(text, byte) == byte,
{
    let bytes = encode_utf8(text);
    let head = text.subrange(0, byte);
    encode_utf8_valid_utf8(text);
    is_ascii_chars_encode_utf8(text);
    is_ascii_chars_encode_utf8(head);
    assert(bytes.subrange(0, byte) =~= encode_utf8(head));
    encode_utf8_decode_utf8(head);
    if byte == bytes.len() {
        is_char_boundary_start_end_of_seq(bytes);
    } else if byte > 0 {
        is_char_boundary_iff_not_is_continuation_byte(bytes, byte);
    }
}

/// Turns a span of bytes of `text` into the span of characters that it
/// covers. There is none unless the span is ordered and both ends fall on
/// character boundaries.
pub fn char_span(text: &str, byte_start: usize, byte_end: usize) -> (span: Option<(usize, usize)>)
    ensures
        span is Some <==> is_byte_span(text@, byte_start as int, byte_end as int),
        span matches Some((start, end)) ==> {
            &&& start == chars_before(text@, byte_start as int)
            &&& end == chars_before(text@, byte_end as int)
            &&& start <= end <= text@.len()
        },
{
    if byte_start > byte_end || !text.is_char_boundary(byte_start) || !text.is_char_boundary(
        byte_end,
    ) {
        return None;
    }
    let (head, _) = text.split_at(byte_start);
    let (upto, _) = text.split_at(byte_end);
    proof {
        encode_utf8_decode_utf8(head@);
        encode_utf8_decode_utf8(upto@);
        lemma_chars_before_ordered(text@, byte_start as int, byte_end as int);
    }
    Some((head.unicode_len(), upto.unicode_len()))
}

/// Replaces the characters of `[start, end)` in `text` by `replacement`.
/// There is no result unless the span is ordered and lies inside `text`.
pub fn replace_span(text: &str, start: usize, end: usize, replacement: &str) -> (replaced: Option<
    String,
>)
    ensures
        replaced is Some <==> start <= end <= text@.len(),
        replaced matches Some(result) ==> result@ == spliced(
            text@,
            start as int,
            end as int,
            replacement@,
        ),
{
    let len = text.unicode_len();
    if start > end || end > len {
        return None;
    }
    let mut result = String::from_str(text.substring_char(0, start));
    result.append(replacement);
    result.append(text.substring_char(end, len));
    Some(result)
}

} // verus!
