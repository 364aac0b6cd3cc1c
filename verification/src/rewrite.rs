//! Finding the timestamp in a path and putting a fresh one in its place.
//!
//! A path is tried against an ordered list of patterns. The first pattern
//! that occurs anywhere in the path wins; its leftmost occurrence is the
//! span that is replaced, by the given instant written in that pattern's own
//! layout. The rest of the path stays as it is.

use crate::outside::{first_match, render, search, utc_rendering};
use crate::spans::{char_span, chars_before, is_byte_span, replace_span, spliced};
use vstd::prelude::*;
use vstd::string::*;

verus! {

/// One way in which a path may spell a timestamp.
#[derive(Clone, Debug, PartialEq, Eq)]
pub struct TimestampPattern {
    /// The name under which a match is reported.
    pub name: String,
    /// The regular expression that recognises the timestamp.
    pub matcher: String,
    /// The strftime layout that writes an instant in the same shape.
    pub layout: String,
}

/// The four patterns that are tried by default, in the order of trial.
///
/// None of them knows the calendar: a day 31 passes in any month.
#[derive(Clone, Copy, Debug, PartialEq, Eq, Structural)]
pub enum StandardPattern {
    /// Fourteen digits: a year from 1900 to 2099, a month from 01 to 12, a
    /// day from 01 to 31, an hour from 00 to 23, a minute and a second from
    /// 00 to 59.
    DateTime,
    /// Eight digits: a day from 00 to 31, a month from 00 to 12, a year from
    /// 1900 to 2099.
    DayMonthYear,
    /// Eight digits: a month from 00 to 12, a day from 00 to 31, a year from
    /// 1900 to 2099.
    MonthDayYear,
    /// Eight digits: a year from 1900 to 2099, a month from 00 to 12, a day
    /// from 00 to 31.
    YearMonthDay,
}

/// What a rewrite found and made.
#[derive(Clone, Debug, PartialEq, Eq)]
pub struct RewriteResult {
    /// The name of the pattern that matched.
    pub pattern: String,
    /// The character at which the match begins.
    pub start: usize,
    /// The character before which the match ends.
    pub end: usize,
    /// The path with the match replaced.
    pub rewritten: String,
}

/// A [`RewriteResult`] as plain values.
pub struct RewriteView {
    pub pattern: Seq<char>,
    pub start: int,
    pub end: int,
    pub rewritten: Seq<char>,
}

impl View for RewriteResult {
    type V = RewriteView;

    open spec fn view(&self) -> RewriteView {
        RewriteView {
            pattern: self.pattern@,
            start: self.start as int,
            end: self.end as int,
            rewritten: self.rewritten@,
        }
    }
}

impl StandardPattern {
    /// The name under which a match of this pattern is reported.
    pub open spec fn name_text(self) -> Seq<char> {
        match self {
            StandardPattern::DateTime => "yyyymmddhhmmss"@,
            StandardPattern::DayMonthYear => "ddmmyyyy"@,
            StandardPattern::MonthDayYear => "mmddyyyy"@,
            StandardPattern::YearMonthDay => "yyyymmdd"@,
        }
    }

    /// The regular expression of this pattern.
    pub open spec fn matcher_text(self) -> Seq<char> {
        match self {
            StandardPattern::DateTime => r"(19|20)\d{2}(0[1-9]|1[0-2])(0[1-9]|[12]\d|3[01])([01]\d|2[0-3])[0-5]\d[0-5]\d"@,
            StandardPattern::DayMonthYear => r"([0-2]\d|3[01])(0\d|1[0-2])(19|20)\d{2}"@,
            StandardPattern::MonthDayYear => r"(0\d|1[0-2])([0-2]\d|3[01])(19|20)\d{2}"@,
            StandardPattern::YearMonthDay => r"(19|20)\d{2}(0\d|1[0-2])([0-2]\d|3[01])"@,
        }
    }

    /// The strftime layout of this pattern.
    pub open spec fn layout_text(self) -> Seq<char> {
        match self {
            StandardPattern::DateTime => "%Y%m%d%H%M%S"@,
            StandardPattern::DayMonthYear => "%d%m%Y"@,
            StandardPattern::MonthDayYear => "%m%d%Y"@,
            StandardPattern::YearMonthDay => "%Y%m%d"@,
        }
    }

    /// The name under which a match of this pattern is reported.
    pub fn name(self) -> (text: &'static str)
        ensures
            text@ == self.name_text(),
    {
        match self {
            StandardPattern::DateTime => "yyyymmddhhmmss",
            StandardPattern::DayMonthYear => "ddmmyyyy",
            StandardPattern::MonthDayYear => "mmddyyyy",
            StandardPattern::YearMonthDay => "yyyymmdd",
        }
    }

    /// The regular expression of this pattern.
    pub fn matcher(self) -> (text: &'static str)
        ensures
            text@ == self.matcher_text(),
    {
        match self {
            StandardPattern::DateTime => r"(19|20)\d{2}(0[1-9]|1[0-2])(0[1-9]|[12]\d|3[01])([01]\d|2[0-3])[0-5]\d[0-5]\d",
            StandardPattern::DayMonthYear => r"([0-2]\d|3[01])(0\d|1[0-2])(19|20)\d{2}",
            StandardPattern::MonthDayYear => r"(0\d|1[0-2])([0-2]\d|3[01])(19|20)\d{2}",
            StandardPattern::YearMonthDay => r"(19|20)\d{2}(0\d|1[0-2])([0-2]\d|3[01])",
        }
    }

    /// The strftime layout of this pattern.
    pub fn layout(self) -> (text: &'static str)
        ensures
            text@ == self.layout_text(),
    {
        match self {
            StandardPattern::DateTime => "%Y%m%d%H%M%S",
            StandardPattern::DayMonthYear => "%d%m%Y",
            StandardPattern::MonthDayYear => "%m%d%Y",
            StandardPattern::YearMonthDay => "%Y%m%d",
        }
    }

    /// This pattern, ready for trial.
    pub fn pattern(self) -> (pattern: TimestampPattern)
        ensures
            pattern.is_standard(self),
    {
        TimestampPattern {
            name: String::from_str(self.name()),
            matcher: String::from_str(self.matcher()),
            layout: String::from_str(self.layout()),
        }
    }
}

impl TimestampPattern {
    /// Whether this is the standard pattern `kind`.
    pub open spec fn is_standard(self, kind: StandardPattern) -> bool {
        &&& self.name@ == kind.name_text()
        &&& self.matcher@ == kind.matcher_text()
        &&& self.layout@ == kind.layout_text()
    }

    /// Whether this pattern occurs in `path`.
    pub open spec fn occurs_in(self, path: Seq<char>) -> bool {
        first_match(self.matcher@, path) is Some
    }
}

/// The standard patterns in their order of trial.
pub open spec fn standard_order() -> Seq<StandardPattern> {
    seq![
        StandardPattern::DateTime,
        StandardPattern::DayMonthYear,
        StandardPattern::MonthDayYear,
        StandardPattern::YearMonthDay,
    ]
}

/// The standard patterns, first to last in the order of trial.
pub fn standard_patterns() -> (patterns: Vec<TimestampPattern>)
    ensures
        patterns@.len() == standard_order().len(),
        forall|i: int|
            0 <= i < patterns@.len() ==> (#[trigger] patterns@[i]).is_standard(standard_order()[i]),
{
    let mut patterns: Vec<TimestampPattern> = Vec::new();
    patterns.push(StandardPattern::DateTime.pattern());
    patterns.push(StandardPattern::DayMonthYear.pattern());
    patterns.push(StandardPattern::MonthDayYear.pattern());
    patterns.push(StandardPattern::YearMonthDay.pattern());
    patterns
}

/// The first pattern at or after `from` that occurs in `path`, by its place
/// in `patterns`.
pub open spec fn winner_from(patterns: Seq<TimestampPattern>, path: Seq<char>, from: int)
    -> Option<int>
    decreases patterns.len() - from,
{
    if from < 0 || from >= patterns.len() {
        None
    } else if patterns[from].occurs_in(path) {
        Some(from)
    } else {
        winner_from(patterns, path, from + 1)
    }
}

/// The pattern that wins on `path`: the first in the order of `patterns`
/// that occurs in it.
pub open spec fn winner(patterns: Seq<TimestampPattern>, path: Seq<char>) -> Option<int> {
    winner_from(patterns, path, 0)
}

/// What replacing the byte span `[byte_start, byte_end)` of `path` by `fresh`
/// gives, under the name `name`.
pub open spec fn rewriting_at(
    path: Seq<char>,
    name: Seq<char>,
    byte_start: int,
    byte_end: int,
    fresh: Seq<char>,
) -> RewriteView {
    RewriteView {
        pattern: name,
        start: chars_before(path, byte_start) as int,
        end: chars_before(path, byte_end) as int,
        rewritten: spliced(
            path,
            chars_before(path, byte_start) as int,
            chars_before(path, byte_end) as int,
            fresh,
        ),
    }
}

/// What rewriting `path` at the instant `now` gives: the winning pattern's
/// first match, replaced by `now` in that pattern's layout. There is nothing
/// where no pattern occurs, nor where the winner's layout cannot write `now`.
pub open spec fn rewriting(path: Seq<char>, patterns: Seq<TimestampPattern>, now: i64) -> Option<
    RewriteView,
> {
    match winner(patterns, path) {
        None => None,
        Some(i) => match (
            first_match(patterns[i].matcher@, path),
            utc_rendering(now, patterns[i].layout@),
        ) {
            (Some((start, end)), Some(fresh)) => Some(
                rewriting_at(path, patterns[i].name@, start as int, end as int, fresh),
            ),
            _ => None,
        },
    }
}

/// The winner from `from` on is the first pattern from there that occurs in
/// the path; there is none exactly when none from there occurs.
pub proof fn lemma_winner_from_is_first(
    patterns: Seq<TimestampPattern>,
    path: Seq<char>,
    from: int,
)
    requires
        0 <= from <= patterns.len(),
    ensures
        match winner_from(patterns, path, from) {
            Some(i) => {
                &&& from <= i < patterns.len()
                &&& patterns[i].occurs_in(path)
                &&& forall|j: int| from <= j < i ==> !(#[trigger] patterns[j]).occurs_in(path)
            },
            None => forall|j: int|
                from <= j < patterns.len() ==> !(#[trigger] patterns[j]).occurs_in(path),
        },
    decreases patterns.len() - from,
{
    if from < patterns.len() && !patterns[from].occurs_in(path) {
        lemma_winner_from_is_first(patterns, path, from + 1);
    }
}

/// The first pattern that occurs in the path wins, whatever comes after it
/// in the order of trial: no later pattern has a say.
pub proof fn lemma_first_match_wins(patterns: Seq<TimestampPattern>, path: Seq<char>, i: int)
    requires
        0 <= i < patterns.len(),
        patterns[i].occurs_in(path),
        forall|j: int| 0 <= j < i ==> !(#[trigger] patterns[j]).occurs_in(path),
    ensures
        winner(patterns, path) == Some(i),
{
    lemma_winner_from_is_first(patterns, path, 0);
}

/// A path in which no pattern occurs is not rewritten, at whatever instant
/// and however often it is tried.
pub proof fn lemma_no_match_no_rewrite(path: Seq<char>, patterns: Seq<TimestampPattern>, now: i64)
    requires
        forall|i: int| 0 <= i < patterns.len() ==> !(#[trigger] patterns[i]).occurs_in(path),
    ensures
        rewriting(path, patterns, now) is None,
{
    lemma_winner_from_is_first(patterns, path, 0);
}

/// Tries `patterns` on `path` in order and stops at the first that occurs
/// in it. Gives that pattern's place in `patterns` and the byte span of its
/// first match.
pub fn find_pattern(path: &str, patterns: &Vec<TimestampPattern>) -> (found: Option<
    (usize, usize, usize),
>)
    ensures
        match found {
            Some((i, start, end)) => {
                &&& winner(patterns@, path@) == Some(i as int)
                &&& first_match(patterns@[i as int].matcher@, path@) == Some((start, end))
                &&& is_byte_span(path@, start as int, end as int)
            },
            None => winner(patterns@, path@) is None,
        },
{
    let mut i: usize = 0;
    while i < patterns.len()
        invariant
            i <= patterns@.len(),
            winner(patterns@, path@) == winner_from(patterns@, path@, i as int),
        decreases patterns@.len() - i,
    {
        match search(patterns[i].matcher.as_str(), path) {
            Some((start, end)) => {
                return Some((i, start, end));
            },
            None => {},
        }
        i = i + 1;
    }
    None
}

/// Replaces the byte span `[byte_start, byte_end)` of `path` by `fresh` and
/// reports the span in characters under the name `name`. There is no result
/// unless the span is ordered and both ends fall on character boundaries.
pub fn rewrite_at(path: &str, name: &str, byte_start: usize, byte_end: usize, fresh: &str) -> (result:
    Option<RewriteResult>)
    ensures
        result is Some <==> is_byte_span(path@, byte_start as int, byte_end as int),
        result matches Some(made) ==> made@ == rewriting_at(
            path@,
            name@,
            byte_start as int,
            byte_end as int,
            fresh@,
        ),
{
    match char_span(path, byte_start, byte_end) {
        None => None,
        Some((start, end)) => {
            match replace_span(path, start, end, fresh) {
                None => None,
                Some(rewritten) => Some(
                    RewriteResult { pattern: String::from_str(name), start, end, rewritten },
                ),
            }
        },
    }
}

/// Rewrites `path` at the instant `now`, given in seconds since the start
/// of 1970 in UTC: the first of `patterns` that occurs in `path` has its
/// first match replaced by `now` in its own layout. There is no result where
/// no pattern occurs, which is no failure.
pub fn rewrite(path: &str, patterns: &Vec<TimestampPattern>, now: i64) -> (result: Option<
    RewriteResult,
>)
    ensures
        match result {
            Some(made) => rewriting(path@, patterns@, now) == Some(made@),
            None => rewriting(path@, patterns@, now) is None,
        },
        (forall|i: int| 0 <= i < patterns@.len() ==> !(#[trigger] patterns@[i]).occurs_in(path@))
            ==> result is None,
{
    proof {
        lemma_winner_from_is_first(patterns@, path@, 0);
    }
    match find_pattern(path, patterns) {
        None => None,
        Some((i, byte_start, byte_end)) => {
            match render(now, patterns[i].layout.as_str()) {
                None => None,
                Some(fresh) => rewrite_at(
                    path,
                    patterns[i].name.as_str(),
                    byte_start,
                    byte_end,
                    fresh.as_str(),
                ),
            }
        },
    }
}

} // verus!
