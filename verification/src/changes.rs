//! Which files are new on the current branch.
//!
//! The repository itself is read elsewhere. What was read arrives here as a
//! [`RepositoryReading`], and the rules that turn it into a list of paths, or
//! into the reason why there is none, are stated and proved in this module.

use crate::text::{has_path_prefix, same_text, starts_with_path};
use vstd::prelude::*;

verus! {

/// Why no list of new files could be given.
#[derive(Clone, Copy, Debug, PartialEq, Eq, Structural)]
pub enum ResolveError {
    /// No repository holds the working directory.
    RepositoryNotFound,
    /// HEAD does not point to a branch.
    NotABranch,
    /// The branch at HEAD has no readable short name.
    UnresolvableBranchName,
    /// The branch at HEAD is the base branch itself.
    SelfComparison,
    /// No local branch bears the base branch's name.
    BranchNotFound,
    /// The tree of one of the two commits could not be read.
    CommitResolutionFailed,
    /// The two trees could not be compared.
    DiffComputationFailed,
}

/// One entry of a comparison of two trees.
#[derive(Clone, Debug, PartialEq, Eq)]
pub struct Delta {
    /// The content identity on the base side; all zero where there is none.
    pub old_id: Vec<u8>,
    /// The content identity on the side of HEAD; all zero where there is none.
    pub new_id: Vec<u8>,
    /// The path on the side of HEAD, relative to the repository's root.
    pub new_path: String,
}

/// Where HEAD was found to point.
#[derive(Clone, Debug, PartialEq, Eq)]
pub enum HeadState {
    /// At a commit, or at a reference that is no branch.
    Detached,
    /// At a branch whose short name could not be read.
    Unnamed,
    /// At the branch of this short name.
    Branch(String),
}

/// How far the comparison of the base tree with the tree at HEAD came.
#[derive(Clone, Debug, PartialEq, Eq)]
pub enum TreeComparison {
    /// The tree of the commit at HEAD could not be read.
    HeadTreeUnavailable,
    /// No local branch bears the base branch's name.
    BaseBranchMissing,
    /// The tree at the tip of the base branch could not be read.
    BaseTreeUnavailable,
    /// Both trees were read, and comparing them failed.
    DiffFailed,
    /// The entries of the comparison, in the order in which it gave them.
    Deltas(Vec<Delta>),
}

/// What one reading of the repository found.
#[derive(Clone, Debug, PartialEq, Eq)]
pub enum RepositoryReading {
    /// No repository holds the working directory.
    NotFound,
    /// A repository, its HEAD, and the comparison of the two trees.
    Found { head: HeadState, comparison: TreeComparison },
}

/// Whether `id` stands for a file that does not exist: every byte is zero.
pub open spec fn is_absent(id: Seq<u8>) -> bool {
    forall|i: int| 0 <= i < id.len() ==> id[i] == 0
}

/// Whether `delta` is a file that the base side lacks, that the side of HEAD
/// has, and that lies at or below `prefix`.
pub open spec fn is_new_under(delta: Delta, prefix: Seq<char>) -> bool {
    &&& is_absent(delta.old_id@)
    &&& !is_absent(delta.new_id@)
    &&& starts_with_path(delta.new_path@, prefix)
}

/// The characters of each string of `texts`.
pub open spec fn texts_of(texts: Seq<String>) -> Seq<Seq<char>> {
    texts.map_values(|text: String| text@)
}

/// The paths of the deltas that are new under `prefix`, in the order of
/// `deltas`.
pub open spec fn new_files(deltas: Seq<Delta>, prefix: Seq<char>) -> Seq<Seq<char>> {
    deltas.filter(|delta: Delta| is_new_under(delta, prefix)).map_values(
        |delta: Delta| delta.new_path@,
    )
}

/// The error that the state of HEAD calls for, if any: HEAD must be at a
/// named branch other than `base`.
pub open spec fn head_error(head: HeadState, base: Seq<char>) -> Option<ResolveError> {
    match head {
        HeadState::Detached => Some(ResolveError::NotABranch),
        HeadState::Unnamed => Some(ResolveError::UnresolvableBranchName),
        HeadState::Branch(name) => if name@ == base {
            Some(ResolveError::SelfComparison)
        } else {
            None
        },
    }
}

/// The outcome for a reading: the first failure in the order in which the
/// repository is read, else the new files under `prefix`.
pub open spec fn resolution(reading: RepositoryReading, base: Seq<char>, prefix: Seq<char>)
    -> Result<Seq<Seq<char>>, ResolveError> {
    match reading {
        RepositoryReading::NotFound => Err(ResolveError::RepositoryNotFound),
        RepositoryReading::Found { head, comparison } => match head_error(head, base) {
            Some(error) => Err(error),
            None => match comparison {
                TreeComparison::HeadTreeUnavailable => Err(ResolveError::CommitResolutionFailed),
                TreeComparison::BaseBranchMissing => Err(ResolveError::BranchNotFound),
                TreeComparison::BaseTreeUnavailable => Err(ResolveError::CommitResolutionFailed),
                TreeComparison::DiffFailed => Err(ResolveError::DiffComputationFailed),
                TreeComparison::Deltas(deltas) => Ok(new_files(deltas@, prefix)),
            },
        },
    }
}

/// The last delta adds its path to the new files of those before it, or
/// nothing: the selection keeps the order of the deltas.
pub proof fn lemma_new_files_last(deltas: Seq<Delta>, prefix: Seq<char>)
    requires
        deltas.len() > 0,
    ensures
        new_files(deltas, prefix) == if is_new_under(deltas.last(), prefix) {
            new_files(deltas.drop_last(), prefix).push(deltas.last().new_path@)
        } else {
            new_files(deltas.drop_last(), prefix)
        },
{
    let keep = |delta: Delta| is_new_under(delta, prefix);
    assert(deltas =~= deltas.drop_last().push(deltas.last()));
    deltas.drop_last().lemma_filter_push(deltas.last(), keep);
}

/// A path is among the new files exactly when it is the path of a delta
/// whose base side is absent, whose side of HEAD is present, and which lies
/// at or below the prefix.
pub proof fn lemma_new_files_are_the_new_deltas(
    deltas: Seq<Delta>,
    prefix: Seq<char>,
    path: Seq<char>,
)
    ensures
        new_files(deltas, prefix).contains(path) <==> exists|i: int|
            0 <= i < deltas.len() && #[trigger] is_new_under(deltas[i], prefix)
                && deltas[i].new_path@ == path,
    decreases deltas.len(),
{
    if deltas.len() > 0 {
        let before = deltas.drop_last();
        let earlier = new_files(before, prefix);
        let chosen = new_files(deltas, prefix);
        lemma_new_files_last(deltas, prefix);
        lemma_new_files_are_the_new_deltas(before, prefix, path);
        if chosen.contains(path) {
            let k = choose|k: int| 0 <= k < chosen.len() && chosen[k] == path;
            if k < earlier.len() {
                let i = choose|i: int|
                    0 <= i < before.len() && #[trigger] is_new_under(before[i], prefix)
                        && before[i].new_path@ == path;
                assert(is_new_under(deltas[i], prefix));
            } else {
                assert(is_new_under(deltas[deltas.len() - 1], prefix));
            }
        }
        if exists|i: int|
            0 <= i < deltas.len() && #[trigger] is_new_under(deltas[i], prefix)
                && deltas[i].new_path@ == path {
            let i = choose|i: int|
                0 <= i < deltas.len() && #[trigger] is_new_under(deltas[i], prefix)
                    && deltas[i].new_path@ == path;
            if i < before.len() {
                assert(is_new_under(before[i], prefix));
                let k = choose|k: int| 0 <= k < earlier.len() && earlier[k] == path;
                assert(chosen[k] == path);
            } else {
                assert(chosen[earlier.len() as int] == path);
            }
        }
    }
}

/// Whether every byte of `id` is zero.
pub fn id_is_zero(id: &Vec<u8>) -> (zero: bool)
    ensures
        zero == is_absent(id@),
{
    let mut i: usize = 0;
    while i < id.len()
        invariant
            i <= id@.len(),
            forall|j: int| 0 <= j < i ==> id@[j] == 0,
        decreases id@.len() - i,
    {
        if id[i] != 0 {
            return false;
        }
        i = i + 1;
    }
    true
}

impl Delta {
    /// Whether this delta is a new file at or below `prefix`.
    pub fn is_new_under(&self, prefix: &str) -> (new: bool)
        ensures
            new == is_new_under(*self, prefix@),
    {
        id_is_zero(&self.old_id) && !id_is_zero(&self.new_id) && has_path_prefix(
            self.new_path.as_str(),
            prefix,
        )
    }
}

/// Checks that HEAD is at a named branch other than `base_branch_name`.
pub fn check_head(head: &HeadState, base_branch_name: &str) -> (checked: Result<(), ResolveError>)
    ensures
        checked == match head_error(*head, base_branch_name@) {
            Some(error) => Err::<(), ResolveError>(error),
            None => Ok(()),
        },
        head matches HeadState::Branch(name) && name@ == base_branch_name@ ==> checked == Err::<
            (),
            ResolveError,
        >(ResolveError::SelfComparison),
{
    match head {
        HeadState::Detached => Err(ResolveError::NotABranch),
        HeadState::Unnamed => Err(ResolveError::UnresolvableBranchName),
        HeadState::Branch(name) => {
            if same_text(name.as_str(), base_branch_name) {
                Err(ResolveError::SelfComparison)
            } else {
                Ok(())
            }
        },
    }
}

/// Collects the paths of the deltas that are new under `path_prefix`, in the
/// order of `deltas`.
pub fn select_new_files(deltas: &Vec<Delta>, path_prefix: &str) -> (paths: Vec<String>)
    ensures
        texts_of(paths@) == new_files(deltas@, path_prefix@),
{
    let mut paths: Vec<String> = Vec::new();
    let mut i: usize = 0;
    while i < deltas.len()
        invariant
            i <= deltas@.len(),
            texts_of(paths@) == new_files(deltas@.take(i as int), path_prefix@),
        decreases deltas@.len() - i,
    {
        proof {
            assert(deltas@.take(i + 1).drop_last() =~= deltas@.take(i as int));
            lemma_new_files_last(deltas@.take(i + 1), path_prefix@);
        }
        if deltas[i].is_new_under(path_prefix) {
            paths.push(deltas[i].new_path.clone());
        }
        i = i + 1;
    }
    proof {
        assert(deltas@.take(deltas@.len() as int) =~= deltas@);
    }
    paths
}

/// Gives the files that are new on the branch at HEAD under `path_prefix`,
/// or the first failure that the reading ran into. That there are no such
/// files is no failure.
pub fn resolve(reading: &RepositoryReading, base_branch_name: &str, path_prefix: &str) -> (found:
    Result<Vec<String>, ResolveError>)
    ensures
        match found {
            Ok(paths) => resolution(*reading, base_branch_name@, path_prefix@) == Ok::<
                Seq<Seq<char>>,
                ResolveError,
            >(texts_of(paths@)),
            Err(error) => resolution(*reading, base_branch_name@, path_prefix@) == Err::<
                Seq<Seq<char>>,
                ResolveError,
            >(error),
        },
        reading matches RepositoryReading::Found { head: HeadState::Branch(name), .. }
            && name@ == base_branch_name@ ==> found == Err::<Vec<String>, ResolveError>(
            ResolveError::SelfComparison,
        ),
{
    match reading {
        RepositoryReading::NotFound => Err(ResolveError::RepositoryNotFound),
        RepositoryReading::Found { head, comparison } => {
            match check_head(head, base_branch_name) {
                Err(error) => Err(error),
                Ok(()) => match comparison {
                    TreeComparison::HeadTreeUnavailable => Err(
                        ResolveError::CommitResolutionFailed,
                    ),
                    TreeComparison::BaseBranchMissing => Err(ResolveError::BranchNotFound),
                    TreeComparison::BaseTreeUnavailable => Err(
                        ResolveError::CommitResolutionFailed,
                    ),
                    TreeComparison::DiffFailed => Err(ResolveError::DiffComputationFailed),
                    TreeComparison::Deltas(deltas) => Ok(select_new_files(deltas, path_prefix)),
                },
            }
        },
    }
}

} // verus!
