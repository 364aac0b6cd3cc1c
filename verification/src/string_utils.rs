//! A marker line that shows where a span lies in a string.

use vstd::prelude::*;
use vstd::string::*;

verus! {

/// The character that the marker line holds at position `i` for the span
/// `[start, end)`: a corner at each end of the span, a bar between the two
/// corners and a blank outside.
pub open spec fn marker_at(i: int, start: int, end: int) -> char {
    if i == start {
        '└'
    } else if i == end - 1 {
        '┘'
    } else if start < i < end - 1 {
        '─'
    } else {
        ' '
    }
}

/// The marker line of `len` characters for the span `[start, end)`.
pub open spec fn marker_line(len: nat, start: int, end: int) -> Seq<char> {
    Seq::new(len, |i: int| marker_at(i, start, end))
}

/// Whether `[start, end)` is a non-empty span inside a string of `len`
/// characters.
pub open spec fn span_fits(len: nat, start: int, end: int) -> bool {
    0 <= start < end <= len
}

/// Draws the marker line for the span `[start_pos, end_pos)` of `value`,
/// counted in characters: as long as `value`, blank but for the span.
/// There is no line for an empty span or one that leaves the string.
pub fn range_position_string(value: &String, start_pos: usize, end_pos: usize) -> (line: Option<
    String,
>)
    ensures
        line is Some <==> span_fits(value@.len(), start_pos as int, end_pos as int),
        line matches Some(text) ==> text@ == marker_line(
            value@.len(),
            start_pos as int,
            end_pos as int,
        ),
{
    let len: usize = value.as_str().unicode_len();
    if start_pos > len || end_pos > len || start_pos >= end_pos {
        return None;
    }
    let mut text = String::new();
    let mut i: usize = 0;
    while i < len
        invariant
            i <= len,
            start_pos < end_pos <= len,
            text@ == marker_line(i as nat, start_pos as int, end_pos as int),
        decreases len - i,
    {
        proof {
            reveal_strlit("└");
            reveal_strlit("┘");
            reveal_strlit("─");
            reveal_strlit(" ");
        }
        if i == start_pos {
            text.append("└");
        } else if i == end_pos - 1 {
            text.append("┘");
        } else if i > start_pos && i < end_pos - 1 {
            text.append("─");
        } else {
            text.append(" ");
        }
        i = i + 1;
    }
    Some(text)
}

} // verus!
