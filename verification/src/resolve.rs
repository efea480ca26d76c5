//! Resolving a base name to a hash.
//!
//! A base name is looked up in four places, in this order: the `HEAD`
//! pointer, the loose objects, the branches, the tags. The first two settle
//! the matter on a hit. The last two are both consulted, and a name found in
//! both is reported as ambiguous, with the tag's value.
//!
//! Storage is reached through two capabilities that the caller supplies: one
//! reads an address as text, one tells whether an address exists. Whatever
//! they fail on counts as absent.
use crate::path::StoragePath;
use crate::rev_spec::{
    candidate_path, parse_git_rev_spec, ref_path, rev_spec_of, GitRevSpecParsed, GitRevSpecType,
    RevSpecError,
};
use crate::storage::{answered, read_gave, text_of, text_read};
use vstd::prelude::*;

verus! {

/// The outcome of resolving a base name.
#[derive(PartialEq, Eq, Debug)]
pub enum GitRevSpecResolved {
    /// The name stands for this value, and for nothing else.
    Match(String),
    /// The name is both a branch and a tag; the value is the tag's.
    Ambiguous(String),
    /// The name is stored nowhere.
    NotFound,
}

/// The mathematical content of a [`GitRevSpecResolved`].
pub enum Resolution {
    Match(Seq<char>),
    Ambiguous(Seq<char>),
    NotFound,
}

impl View for GitRevSpecResolved {
    type V = Resolution;

    open spec fn view(&self) -> Resolution {
        match self {
            GitRevSpecResolved::Match(value) => Resolution::Match(value@),
            GitRevSpecResolved::Ambiguous(value) => Resolution::Ambiguous(value@),
            GitRevSpecResolved::NotFound => Resolution::NotFound,
        }
    }
}

/// What the lookups for one base name brought back.
pub struct Lookups {
    /// The text of `HEAD`, where the name is `HEAD` and the pointer was read.
    pub head: Option<Seq<char>>,
    /// Whether the name is a hash under which an object is stored.
    pub commit: bool,
    /// The text of the branch of that name, where there is one.
    pub branch: Option<Seq<char>>,
    /// The text of the tag of that name, where there is one.
    pub tag: Option<Seq<char>>,
}

/// The outcome that the lookups for `base` decide, by precedence: `HEAD`
/// before object, object before branch and tag; branch and tag together are
/// ambiguous and surface the tag.
pub open spec fn resolution(base: Seq<char>, found: Lookups) -> Resolution {
    if let Some(text) = found.head {
        Resolution::Match(text)
    } else if found.commit {
        Resolution::Match(base)
    } else {
        match (found.branch, found.tag) {
            (None, None) => Resolution::NotFound,
            (Some(text), None) => Resolution::Match(text),
            (None, Some(text)) => Resolution::Match(text),
            (Some(_), Some(text)) => Resolution::Ambiguous(text),
        }
    }
}

/// `found` is what the capabilities answered for `base` under `root`, each
/// asked for the address of its namespace and only as far as precedence
/// required:
///
/// * `HEAD` is read only for the name `HEAD`;
/// * the object is tested only for a 40-character name, and only when
///   `HEAD` gave nothing;
/// * branch and tag are both read, whenever neither of the former hit.
pub open spec fn lookups_made<
    E,
    R: Fn(&StoragePath) -> Result<String, E>,
    X: Fn(&StoragePath) -> bool,
>(base: Seq<char>, root: Seq<Seq<char>>, read: R, file_exists: X, found: Lookups) -> bool {
    let head_at = candidate_path(base, GitRevSpecType::Head, root);
    let object_at = candidate_path(base, GitRevSpecType::CommitSha, root);
    &&& match head_at {
        Ok(at) => read_gave(read, at, found.head),
        Err(_) => found.head is None,
    }
    &&& found.head is None ==> match object_at {
        Ok(at) => answered(file_exists, at, found.commit),
        Err(_) => !found.commit,
    }
    &&& found.head is None && !found.commit ==> {
        &&& read_gave(read, ref_path(root, "heads"@, base), found.branch)
        &&& read_gave(read, ref_path(root, "tags"@, base), found.tag)
    }
}

/// Decides the outcome from what the lookups brought back.
///
/// `head` is the text of `HEAD` if the name is `HEAD` and it was read,
/// `commit_exists` tells whether the name is the hash of a stored object,
/// `branch` and `tag` are the texts of the branch and the tag of that name.
pub fn resolve_lookups(
    value: String,
    head: Option<String>,
    commit_exists: bool,
    branch: Option<String>,
    tag: Option<String>,
) -> (r: GitRevSpecResolved)
    ensures
        r@ == resolution(
            value@,
            (Lookups {
                head: text_of(head),
                commit: commit_exists,
                branch: text_of(branch),
                tag: text_of(tag),
            }),
        ),
{
    if let Some(text) = head {
        return GitRevSpecResolved::Match(text);
    }
    if commit_exists {
        return GitRevSpecResolved::Match(value);
    }
    match (branch, tag) {
        (None, None) => GitRevSpecResolved::NotFound,
        (Some(text), None) => GitRevSpecResolved::Match(text),
        (None, Some(text)) => GitRevSpecResolved::Match(text),
        (Some(_), Some(text)) => GitRevSpecResolved::Ambiguous(text),
    }
}

/// Resolves the base name of a parsed revision expression.
///
/// The capabilities are asked in order of precedence and no further than
/// needed. A read that fails, for whatever reason, counts as a miss; no
/// error is passed on. The modifier plays no part.
///
/// The contract says that the outcome is the one [`resolution`] decides
/// from answers that the capabilities really gave, at the addresses that
/// [`candidate_path`] derives. Which answers they give is theirs to say.
pub fn resolve_git_rev_spec_parsed<
    E,
    R: Fn(&StoragePath) -> Result<String, E>,
    X: Fn(&StoragePath) -> bool,
>(
    git_rev_spec_parsed: GitRevSpecParsed,
    git_root: &StoragePath,
    read_as_string: R,
    file_exists: X,
) -> (r: GitRevSpecResolved)
    requires
        forall|path: &StoragePath| read_as_string.requires((path,)),
        forall|path: &StoragePath| file_exists.requires((path,)),
    ensures
        exists|found: Lookups| #[trigger]
            lookups_made(git_rev_spec_parsed@.base, git_root@, read_as_string, file_exists, found)
                && r@ == resolution(git_rev_spec_parsed@.base, found),
{
    let ghost base = git_rev_spec_parsed@.base;
    let mut head: Option<String> = None;
    if let Ok(path_buf_head) = git_rev_spec_parsed.to_path_buf(GitRevSpecType::Head, git_root) {
        let out = read_as_string(&path_buf_head);
        assert(read_gave(read_as_string, path_buf_head@, text_read(out)));
        if let Ok(head_content) = out {
            head = Some(head_content);
        }
    }
    let mut commit_exists = false;
    if head.is_none() {
        if let Ok(path_buf_commit) = git_rev_spec_parsed.to_path_buf(
            GitRevSpecType::CommitSha,
            git_root,
        ) {
            commit_exists = file_exists(&path_buf_commit);
            assert(answered(file_exists, path_buf_commit@, commit_exists));
        }
    }
    let mut branch: Option<String> = None;
    let mut tag: Option<String> = None;
    if head.is_none() && !commit_exists {
        if let Ok(path_buf_branch) = git_rev_spec_parsed.to_path_buf(
            GitRevSpecType::BranchName,
            git_root,
        ) {
            let out = read_as_string(&path_buf_branch);
            assert(read_gave(read_as_string, path_buf_branch@, text_read(out)));
            if let Ok(branch_content) = out {
                branch = Some(branch_content);
            }
        }
        if let Ok(path_buf_tag) = git_rev_spec_parsed.to_path_buf(
            GitRevSpecType::TagName,
            git_root,
        ) {
            let out = read_as_string(&path_buf_tag);
            assert(read_gave(read_as_string, path_buf_tag@, text_read(out)));
            if let Ok(tag_content) = out {
                tag = Some(tag_content);
            }
        }
    }
    let ghost found = Lookups {
        head: text_of(head),
        commit: commit_exists,
        branch: text_of(branch),
        tag: text_of(tag),
    };
    assert(lookups_made(base, git_root@, read_as_string, file_exists, found));
    resolve_lookups(git_rev_spec_parsed.value, head, commit_exists, branch, tag)
}

/// Resolves a revision expression: parses it, then resolves its base name.
///
/// Fails with `EmptyBase` exactly when the expression has no base name; in
/// that case nothing is looked up. Otherwise the outcome is that of
/// [`resolve_git_rev_spec_parsed`] for the parsed expression.
pub fn resolve_git_rev_spec<
    E,
    R: Fn(&StoragePath) -> Result<String, E>,
    X: Fn(&StoragePath) -> bool,
>(git_rev_spec: String, git_root: &StoragePath, read_as_string: R, file_exists: X) -> (r: Result<
    GitRevSpecResolved,
    RevSpecError,
>)
    requires
        forall|path: &StoragePath| read_as_string.requires((path,)),
        forall|path: &StoragePath| file_exists.requires((path,)),
    ensures
        match rev_spec_of(git_rev_spec@) {
            None => r is Err && r->Err_0 == RevSpecError::EmptyBase,
            Some(parsed) => r is Ok && exists|found: Lookups| #[trigger]
                lookups_made(parsed.base, git_root@, read_as_string, file_exists, found)
                    && r->Ok_0@ == resolution(parsed.base, found),
        },
{
    let parsed = parse_git_rev_spec(git_rev_spec.as_str())?;
    Ok(resolve_git_rev_spec_parsed(parsed, git_root, read_as_string, file_exists))
}

/// Reads the `HEAD` pointer of the work tree whose repository directory is
/// `.git` under `git_root`.
///
/// Returns what `read` answered for `<git_root>/.git/HEAD`, content or error,
/// as it came.
pub fn resolve_head<E, R: Fn(&StoragePath) -> Result<Vec<u8>, E>>(
    git_root: &StoragePath,
    read: R,
) -> (r: Result<Vec<u8>, E>)
    requires
        forall|path: &StoragePath| read.requires((path,)),
    ensures
        exists|path: StoragePath| #[trigger]
            read.ensures((&path,), r) && path@ == git_root@.push(".git"@).push("HEAD"@),
{
    let path = git_root.join(".git").join("HEAD");
    read(&path)
}

} // verus!
