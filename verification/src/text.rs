//! Exact comparisons of strings, stated over their characters.

use vstd::prelude::*;
use vstd::string::*;

verus! {

/// Whether `path` lies at or below `prefix`: `prefix` opens `path`, and ends
/// where a segment of `path` ends. Segments are divided by `/`; nothing is
/// expanded or normalised.
pub open spec fn starts_with_path(path: Seq<char>, prefix: Seq<char>) -> bool {
    &&& prefix.is_prefix_of(path)
    &&& (prefix.len() == 0 || prefix.len() == path.len() || prefix.last() == '/'
        || path[prefix.len() as int] == '/')
}

/// The characters of `text`, one by one.
pub fn chars_of(text: &str) -> (chars: Vec<char>)
    ensures
        chars@ == text@,
{
    let mut chars: Vec<char> = Vec::new();
    for c in it: text.chars()
        invariant
            chars@ == it.seq().take(it.index()),
    {
        chars.push(c);
    }
    chars
}

/// How many leading characters `left` and `right` share.
fn common_prefix_len(left: &Vec<char>, right: &Vec<char>) -> (shared: usize)
    ensures
        shared <= left@.len(),
        shared <= right@.len(),
        left@.take(shared as int) == right@.take(shared as int),
        shared < left@.len() && shared < right@.len() ==> left@[shared as int]
            != right@[shared as int],
{
    let mut shared: usize = 0;
    while shared < left.len() && shared < right.len() && left[shared] == right[shared]
        invariant
            shared <= left@.len(),
            shared <= right@.len(),
            left@.take(shared as int) =~= right@.take(shared as int),
        decreases left@.len() - shared,
    {
        shared = shared + 1;
    }
    shared
}

/// Whether `left` and `right` hold the same characters.
pub fn same_text(left: &str, right: &str) -> (same: bool)
    ensures
        same == (left@ == right@),
{
    let l = chars_of(left);
    let r = chars_of(right);
    let shared = common_prefix_len(&l, &r);
    proof {
        if shared == l@.len() && shared == r@.len() {
            assert(l@ =~= l@.take(shared as int));
            assert(r@ =~= r@.take(shared as int));
        }
    }
    shared == l.len() && shared == r.len()
}

/// Whether `path` lies at or below `prefix`, segment by segment.
pub fn has_path_prefix(path: &str, prefix: &str) -> (below: bool)
    ensures
        below == starts_with_path(path@, prefix@),
{
    let p = chars_of(path);
    let q = chars_of(prefix);
    let shared = common_prefix_len(&p, &q);
    if shared < q.len() {
        return false;
    }
    q.len() == 0 || q.len() == p.len() || q[q.len() - 1] == '/' || p[q.len()] == '/'
}

} // verus!
