//! The two calls that leave this crate: a regular-expression search and the
//! rendering of an instant. Their contracts are taken on trust; everything
//! else in the crate is proved from them.

use vstd::prelude::*;
use vstd::string::*;
use vstd::utf8::*;

verus! {

/// The byte span of the first match of the regular expression `pattern` in
/// `text`. There is none where nothing in `text` matches, and none where
/// `pattern` is no regular expression that the engine accepts.
pub uninterp spec fn first_match(pattern: Seq<char>, text: Seq<char>) -> Option<(usize, usize)>;

/// The instant `seconds` after the start of 1970 in UTC, written out as the
/// strftime layout `layout` asks. There is none for an instant outside the
/// calendar's range, and none for a layout with an unknown directive.
pub uninterp spec fn utc_rendering(seconds: i64, layout: Seq<char>) -> Option<Seq<char>>;

/// Compiles `pattern` with `regex::Regex::new` and searches `text` with
/// `Regex::find`.
///
/// Taken on trust: the outcome depends on the two strings alone, and the span
/// of a match, as `Match::start` and `Match::end` give it, is ordered and
/// falls on character boundaries of `text`.
#[verifier::external_body]
pub(crate) fn search(pattern: &str, text: &str) -> (found: Option<(usize, usize)>)
    ensures
        found == first_match(pattern@, text@),
        found matches Some((start, end)) ==> {
            &&& start <= end
            &&& is_char_boundary(text.spec_bytes(), start as int)
            &&& is_char_boundary(text.spec_bytes(), end as int)
        },
{
    match regex::Regex::new(pattern) {
        Ok(compiled) => compiled.find(text).map(|m| (m.start(), m.end())),
        Err(_) => None,
    }
}

/// Builds the instant with `chrono::DateTime::from_timestamp` and writes it
/// with `DateTime::format` and `DelayedFormat::write_to`.
///
/// Taken on trust: the outcome depends on the instant and the layout alone.
#[verifier::external_body]
pub(crate) fn render(seconds: i64, layout: &str) -> (text: Option<String>)
    ensures
        match text {
            Some(written) => utc_rendering(seconds, layout@) == Some(written@),
            None => utc_rendering(seconds, layout@) is None,
        },
{
    let instant = chrono::DateTime::from_timestamp(seconds, 0)?;
    let mut written = String::new();
    match instant.format(layout).write_to(&mut written) {
        Ok(()) => Some(written),
        Err(_) => None,
    }
}

} // verus!
