//! Finding the repository that a directory belongs to.
//!
//! A directory belongs to the repository kept in the `.git` directory of its
//! nearest ancestor that has one, itself included. Whether an address is a
//! directory is asked of a capability that the caller supplies.
use crate::path::StoragePath;
use crate::storage::answered;
use vstd::prelude::*;

verus! {

/// Why no repository was found.
#[derive(PartialEq, Eq, Debug, Clone, Copy, Structural)]
pub enum RootError {
    /// Neither the directory nor any of its ancestors holds a `.git`
    /// directory.
    NotFound,
}

impl RootError {
    /// A short description for the user.
    pub fn message(&self) -> (text: String)
        ensures
            text@ == "Failed to detect git directory"@,
    {
        "Failed to detect git directory".to_owned()
    }
}

/// The `.git` entry of the ancestor of `dir` that is `depth` components
/// deep; `depth == dir.len()` is `dir` itself, `depth == 0` the outermost
/// ancestor.
pub open spec fn git_dir_at(dir: Seq<Seq<char>>, depth: int) -> Seq<Seq<char>> {
    dir.take(depth).push(".git"@)
}

/// `is_dir` said no to the `.git` entry of every ancestor of `dir` that is
/// more than `depth` components deep.
pub open spec fn none_deeper<X: Fn(&StoragePath) -> bool>(
    dir: Seq<Seq<char>>,
    is_dir: X,
    depth: int,
) -> bool {
    forall|deeper: int|
        depth < deeper <= dir.len() ==> answered(is_dir, #[trigger] git_dir_at(dir, deeper), false)
}

/// Finds the repository directory of `dir`.
///
/// Asks `is_dir` for `<dir>/.git`, then for the `.git` of each ancestor in
/// turn, innermost first, and returns the first address for which the answer
/// is yes. Fails with `NotFound` when the answer is no all the way out.
pub fn find_git_root<X: Fn(&StoragePath) -> bool>(dir: &StoragePath, is_dir: X) -> (r: Result<
    StoragePath,
    RootError,
>)
    requires
        forall|path: &StoragePath| is_dir.requires((path,)),
    ensures
        match r {
            Ok(found) => exists|depth: int|
                0 <= depth <= dir@.len() && found@ == #[trigger] git_dir_at(dir@, depth)
                    && answered(is_dir, found@, true) && none_deeper(dir@, is_dir, depth),
            Err(e) => e == RootError::NotFound && none_deeper(dir@, is_dir, -1),
        },
{
    let mut git_root = dir.clone();
    proof {
        assert(dir@.take(dir@.len() as int) =~= dir@);
    }
    loop
        invariant
            forall|path: &StoragePath| is_dir.requires((path,)),
            git_root@.len() <= dir@.len(),
            git_root@ == dir@.take(git_root@.len() as int),
            none_deeper(dir@, is_dir, git_root@.len() as int),
        decreases git_root@.len(),
    {
        let ghost depth = git_root@.len() as int;
        let candidate = git_root.join(".git");
        let there = is_dir(&candidate);
        assert(answered(is_dir, git_dir_at(dir@, depth), there));
        if there {
            return Ok(candidate);
        }
        if !git_root.pop() {
            return Err(RootError::NotFound);
        }
        proof {
            assert(git_root@ =~= dir@.take(depth - 1));
        }
    }
}

} // verus!
