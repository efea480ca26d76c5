//! Revision expressions: parsing them, and deriving where their base name
//! may be stored.
//!
//! A revision expression is a base name (a branch, a tag, `HEAD` or a hash)
//! followed by an optional modifier, which begins at the first `^`, `~` or
//! `@`. The modifier is handed on verbatim; it is not interpreted here.
use crate::path::StoragePath;
use crate::scan::{is_run_len, lemma_run_len, lemma_run_len_unique, run_len, same_bytes};
use vstd::prelude::*;
use vstd::std_specs::iter::IteratorSpec;
use vstd::utf8::encode_utf8_decode_utf8;

verus! {

/// Why a revision expression, or a name taken from one, was refused.
#[derive(PartialEq, Eq, Debug, Clone, Copy, Structural)]
pub enum RevSpecError {
    /// The expression begins with a modifier marker, or is empty: there is
    /// no base name to look up.
    EmptyBase,
    /// An address in the `HEAD` namespace was asked for a name other than
    /// `HEAD`.
    NotHead,
    /// An object address was asked for a name that is not 40 characters long.
    InvalidHashLength,
}

impl RevSpecError {
    /// A short description for the user.
    pub fn message(&self) -> (text: String)
        ensures
            text@ == match *self {
                RevSpecError::EmptyBase => "Empty revision base"@,
                RevSpecError::NotHead => "Not a HEAD"@,
                RevSpecError::InvalidHashLength => "Not a commitsha"@,
            },
    {
        match self {
            RevSpecError::EmptyBase => "Empty revision base".to_owned(),
            RevSpecError::NotHead => "Not a HEAD".to_owned(),
            RevSpecError::InvalidHashLength => "Not a commitsha".to_owned(),
        }
    }
}

/// The namespaces in which a base name may be stored.
#[derive(PartialEq, Eq, Debug, Clone, Copy, Structural)]
pub enum GitRevSpecType {
    Head,
    CommitSha,
    BranchName,
    TagName,
}

/// A revision expression cut into its base name and its modifier.
///
/// `"HEAD"` is `{ value: "HEAD", modifier: None }`, `"v0.1.0~3"` is
/// `{ value: "v0.1.0", modifier: Some("~3") }`.
#[derive(PartialEq, Eq, Debug)]
pub struct GitRevSpecParsed {
    pub value: String,
    pub modifier: Option<String>,
}

/// The mathematical content of a [`GitRevSpecParsed`].
pub struct RevSpec {
    pub base: Seq<char>,
    pub modifier: Option<Seq<char>>,
}

impl View for GitRevSpecParsed {
    type V = RevSpec;

    open spec fn view(&self) -> RevSpec {
        RevSpec {
            base: self.value@,
            modifier: match self.modifier {
                Some(text) => Some(text@),
                None => None,
            },
        }
    }
}

/// `c` begins a modifier.
pub open spec fn is_modifier_marker(c: char) -> bool {
    c == '^' || c == '~' || c == '@'
}

/// The condition "begins a modifier".
pub open spec fn marker() -> spec_fn(char) -> bool {
    |c: char| is_modifier_marker(c)
}

/// Number of characters of `text` that stand before its first modifier
/// marker: the length of the base name.
pub open spec fn base_len(text: Seq<char>) -> nat {
    run_len(text, marker())
}

/// What `text` parses to: the base name is everything before the first
/// marker and must not be empty; the modifier is everything from that marker
/// on, and is absent when there is no marker.
pub open spec fn rev_spec_of(text: Seq<char>) -> Option<RevSpec> {
    let n = base_len(text) as int;
    if n == 0 {
        None
    } else {
        Some(
            RevSpec {
                base: text.take(n),
                modifier: if n < text.len() {
                    Some(text.skip(n))
                } else {
                    None
                },
            },
        )
    }
}

impl RevSpec {
    /// What every parsed expression satisfies: the base name is not empty
    /// and holds no marker; the modifier, where there is one, is not empty
    /// and begins with a marker.
    pub open spec fn well_formed(self) -> bool {
        &&& self.base.len() > 0
        &&& forall|i: int| 0 <= i < self.base.len() ==> !is_modifier_marker(#[trigger] self.base[i])
        &&& match self.modifier {
            Some(modifier) => modifier.len() > 0 && is_modifier_marker(modifier[0]),
            None => true,
        }
    }

    /// The expression written out again: the base name, then the modifier.
    pub open spec fn text(self) -> Seq<char> {
        match self.modifier {
            Some(modifier) => self.base + modifier,
            None => self.base,
        }
    }
}

/// What parsing returns is well formed and, written out, is the expression
/// that was parsed.
pub proof fn lemma_rev_spec_parts(text: Seq<char>)
    requires
        rev_spec_of(text) is Some,
    ensures
        rev_spec_of(text)->0.well_formed(),
        rev_spec_of(text)->0.text() == text,
{
    lemma_run_len(text, marker());
    let parsed = rev_spec_of(text)->0;
    let n = base_len(text) as int;
    assert forall|i: int| 0 <= i < parsed.base.len() implies !is_modifier_marker(
        #[trigger] parsed.base[i],
    ) by {
        assert(!marker()(text[i]));
    }
    if n < text.len() {
        assert(marker()(text[n]));
        assert(text.take(n) + text.skip(n) =~= text);
    } else {
        assert(text.take(n) =~= text);
    }
}

/// A well-formed pair of base name and modifier, written out and parsed, is
/// that pair again.
pub proof fn lemma_rev_spec_written_then_parsed(parsed: RevSpec)
    requires
        parsed.well_formed(),
    ensures
        rev_spec_of(parsed.text()) == Some(parsed),
{
    let text = parsed.text();
    let n = parsed.base.len() as int;
    assert forall|j: int| 0 <= j < n implies !marker()(#[trigger] text[j]) by {
        assert(text[j] == parsed.base[j]);
    }
    if let Some(modifier) = parsed.modifier {
        assert(text[n] == modifier[0]);
        assert(marker()(text[n]));
    }
    lemma_run_len_unique(text, marker(), n);
    assert(text.take(n) =~= parsed.base);
    if let Some(modifier) = parsed.modifier {
        assert(text.skip(n) =~= modifier);
    }
}

/// An expression fails to parse exactly when it is empty or begins with a
/// marker.
pub proof fn lemma_empty_base(text: Seq<char>)
    ensures
        rev_spec_of(text) is None <==> text.len() == 0 || is_modifier_marker(text[0]),
{
    lemma_run_len(text, marker());
    if text.len() > 0 && !is_modifier_marker(text[0]) {
        assert(!marker()(text[0]));
    }
    if text.len() > 0 && is_modifier_marker(text[0]) {
        assert(marker()(text[0]));
    }
}

/// Whether `c` begins a modifier.
fn is_marker(c: char) -> (marker: bool)
    ensures
        marker == is_modifier_marker(c),
{
    c == '^' || c == '~' || c == '@'
}

/// Cuts `input` before its first `^`, `~` or `@`.
///
/// Returns `(rest, base)`: `base` is the longest prefix free of markers,
/// possibly empty, and `rest` is what remains, beginning with the first
/// marker or empty.
pub fn take_rev_spec(input: &str) -> (r: (&str, &str))
    ensures
        r.1@ == input@.take(base_len(input@) as int),
        r.0@ == input@.skip(base_len(input@) as int),
{
    let total = input.unicode_len();
    let mut chars = input.chars();
    let mut n: usize = 0;
    loop
        invariant_except_break
            chars.remaining() == input@.skip(n as int),
        invariant
            n <= total == input@.len(),
            forall|j: int| 0 <= j < n ==> !marker()(#[trigger] input@[j]),
        ensures
            is_run_len(input@, marker(), n as int),
        decreases total - n,
    {
        let ghost before = chars;
        match chars.next() {
            Some(c) => {
                assert(c == input@[n as int]);
                if is_marker(c) {
                    break ;
                }
                assert(before.remaining().drop_first() =~= input@.skip(n + 1));
                n += 1;
            },
            None => {
                break ;
            },
        }
    }
    proof {
        lemma_run_len_unique(input@, marker(), n as int);
    }
    (input.substring_char(n, total), input.substring_char(0, n))
}

/// Parses a revision expression.
///
/// Fails with `EmptyBase` exactly when no character stands before the first
/// marker. Otherwise the base name is everything before the first marker,
/// and the modifier everything after the base name, or `None` when nothing
/// is left.
pub fn parse_git_rev_spec(git_rev_spec: &str) -> (r: Result<GitRevSpecParsed, RevSpecError>)
    ensures
        match rev_spec_of(git_rev_spec@) {
            Some(parsed) => r is Ok && r->Ok_0@ == parsed,
            None => r is Err && r->Err_0 == RevSpecError::EmptyBase,
        },
        r is Ok ==> r->Ok_0@.well_formed(),
{
    let (modifier, value) = take_rev_spec(git_rev_spec);
    proof {
        lemma_run_len(git_rev_spec@, marker());
        if rev_spec_of(git_rev_spec@) is Some {
            lemma_rev_spec_parts(git_rev_spec@);
        }
    }
    if value.is_empty() {
        return Err(RevSpecError::EmptyBase);
    }
    Ok(
        GitRevSpecParsed {
            value: value.to_owned(),
            modifier: if !modifier.is_empty() {
                Some(modifier.to_owned())
            } else {
                None
            },
        },
    )
}

/// The condition "is a slash".
pub open spec fn slash() -> spec_fn(char) -> bool {
    |c: char| c == '/'
}

/// The segments that the slashes of `name` part, in order.
///
/// A name without a slash is one segment. Two slashes in a row, or a slash
/// at either end, part an empty segment off: nothing is dropped, so the
/// segments joined by slashes spell `name` again.
pub open spec fn path_segments(name: Seq<char>) -> Seq<Seq<char>>
    decreases name.len(),
{
    let n = run_len(name, slash()) as int;
    if n >= name.len() {
        seq![name]
    } else {
        seq![name.take(n)] + path_segments(name.skip(n + 1))
    }
}

/// `segments` written out with a slash between neighbours.
pub open spec fn slash_joined(segments: Seq<Seq<char>>) -> Seq<char>
    decreases segments.len(),
{
    if segments.len() == 0 {
        Seq::empty()
    } else if segments.len() == 1 {
        segments[0]
    } else {
        segments[0] + seq!['/'] + slash_joined(segments.drop_first())
    }
}

/// Cutting a name at its slashes loses nothing: no segment holds a slash,
/// and the segments joined by slashes are the name.
pub proof fn lemma_path_segments(name: Seq<char>)
    ensures
        path_segments(name).len() >= 1,
        forall|k: int, j: int|
            0 <= k < path_segments(name).len() && 0 <= j < path_segments(name)[k].len()
                ==> path_segments(name)[k][j] != '/',
        slash_joined(path_segments(name)) == name,
    decreases name.len(),
{
    lemma_run_len(name, slash());
    let n = run_len(name, slash()) as int;
    let segments = path_segments(name);
    if n >= name.len() {
        assert forall|k: int, j: int|
            0 <= k < segments.len() && 0 <= j < segments[k].len() implies segments[k][j]
            != '/' by {
            assert(!slash()(name[j]));
        }
    } else {
        let rest = path_segments(name.skip(n + 1));
        lemma_path_segments(name.skip(n + 1));
        assert forall|k: int, j: int|
            0 <= k < segments.len() && 0 <= j < segments[k].len() implies segments[k][j]
            != '/' by {
            if k == 0 {
                assert(!slash()(name[j]));
            } else {
                assert(segments[k] == rest[k - 1]);
            }
        }
        assert(segments.drop_first() =~= rest);
        assert(slash()(name[n]));
        assert(name.take(n) + seq!['/'] + name.skip(n + 1) =~= name);
    }
}

/// Appends the segments of `input` to `root_path_buf`, one component for
/// each: `feat/foo` adds `feat` and then `foo`.
pub fn git_rev_spec_value_into_path_buf(input: &str, root_path_buf: StoragePath) -> (path:
    StoragePath)
    ensures
        path@ == root_path_buf@ + path_segments(input@),
{
    let mut path = root_path_buf;
    let total = input.unicode_len();
    let mut chars = input.chars();
    let mut start: usize = 0;
    let mut at: usize = 0;
    proof {
        assert(input@.skip(0) =~= input@);
    }
    while at < total
        invariant
            start <= at <= total == input@.len(),
            chars.remaining() == input@.skip(at as int),
            forall|j: int| start <= j < at ==> !slash()(#[trigger] input@[j]),
            path@ + path_segments(input@.skip(start as int)) == root_path_buf@ + path_segments(
                input@,
            ),
        decreases total - at,
    {
        let ghost before = chars;
        let ghost tail = input@.skip(start as int);
        let c = chars.next();
        assert(c == Some(input@[at as int]));
        assert(before.remaining().drop_first() =~= input@.skip(at + 1));
        if c == Some('/') {
            let segment = input.substring_char(start, at);
            proof {
                assert forall|j: int| 0 <= j < at - start implies !slash()(#[trigger] tail[j]) by {
                    assert(tail[j] == input@[start + j]);
                }
                lemma_run_len_unique(tail, slash(), at - start);
                assert(tail.take(at - start) =~= segment@);
                assert(tail.skip(at - start + 1) =~= input@.skip(at + 1));
                assert(path@.push(segment@) + path_segments(input@.skip(at + 1)) =~= path@
                    + path_segments(tail));
            }
            path.push(segment);
            start = at + 1;
        }
        at += 1;
    }
    let segment = input.substring_char(start, total);
    proof {
        let tail = input@.skip(start as int);
        assert forall|j: int| 0 <= j < total - start implies !slash()(#[trigger] tail[j]) by {
            assert(tail[j] == input@[start + j]);
        }
        lemma_run_len_unique(tail, slash(), total - start);
        assert(tail =~= segment@);
        assert(path@.push(segment@) =~= path@ + path_segments(tail));
    }
    path.push(segment);
    path
}

/// Whether two strings hold the same characters.
fn same_text(a: &str, b: &str) -> (same: bool)
    ensures
        same == (a@ == b@),
{
    let same = same_bytes(a.as_bytes(), b.as_bytes());
    proof {
        encode_utf8_decode_utf8(a@);
        encode_utf8_decode_utf8(b@);
    }
    same
}

/// Where the loose object named `hash` is kept under `root`: in the bucket
/// named by the first two characters of `hash`, under the other 38.
pub open spec fn object_path(root: Seq<Seq<char>>, hash: Seq<char>) -> Seq<Seq<char>> {
    root.push("objects"@).push(hash.take(2)).push(hash.skip(2))
}

/// Where a reference called `name` is kept under `root`, in the namespace
/// `space` (`heads` or `tags`): one component for each segment of `name`.
pub open spec fn ref_path(root: Seq<Seq<char>>, space: Seq<char>, name: Seq<char>) -> Seq<
    Seq<char>,
> {
    root.push("refs"@).push(space) + path_segments(name)
}

/// Writing out two addresses in a row is writing out each, with a slash
/// between them.
pub proof fn lemma_slash_joined_concat(a: Seq<Seq<char>>, b: Seq<Seq<char>>)
    requires
        a.len() > 0,
        b.len() > 0,
    ensures
        slash_joined(a + b) == slash_joined(a) + seq!['/'] + slash_joined(b),
    decreases a.len(),
{
    let whole = a + b;
    assert(whole[0] == a[0]);
    if a.len() == 1 {
        assert(whole.drop_first() =~= b);
    } else {
        lemma_slash_joined_concat(a.drop_first(), b);
        assert(whole.drop_first() =~= a.drop_first() + b);
        assert(whole[0] + seq!['/'] + (slash_joined(a.drop_first()) + seq!['/'] + slash_joined(b))
            =~= (a[0] + seq!['/'] + slash_joined(a.drop_first())) + seq!['/'] + slash_joined(b));
    }
}

/// Written with slashes, the address of a reference is
/// `<root>/refs/<space>/<name>`: a name with slashes in it nests.
pub proof fn lemma_ref_path_written(root: Seq<Seq<char>>, space: Seq<char>, name: Seq<char>)
    requires
        root.len() > 0,
    ensures
        slash_joined(ref_path(root, space, name)) == slash_joined(root) + seq!['/'] + "refs"@
            + seq!['/'] + space + seq!['/'] + name,
{
    let above = seq!["refs"@, space];
    assert(slash_joined(above) =~= "refs"@ + seq!['/'] + space) by {
        assert(above.drop_first() =~= seq![space]);
        assert(slash_joined(above.drop_first()) == space);
    }
    lemma_path_segments(name);
    lemma_slash_joined_concat(above, path_segments(name));
    lemma_slash_joined_concat(root, above + path_segments(name));
    assert(ref_path(root, space, name) =~= root + (above + path_segments(name)));
    assert(slash_joined(root) + seq!['/'] + ("refs"@ + seq!['/'] + space + seq!['/'] + name)
        =~= slash_joined(root) + seq!['/'] + "refs"@ + seq!['/'] + space + seq!['/'] + name);
}

/// Written with slashes, the address of a loose object is
/// `<root>/objects/<first 2 characters>/<other characters>`.
pub proof fn lemma_object_path_written(root: Seq<Seq<char>>, hash: Seq<char>)
    requires
        root.len() > 0,
    ensures
        slash_joined(object_path(root, hash)) == slash_joined(root) + seq!['/'] + "objects"@
            + seq!['/'] + hash.take(2) + seq!['/'] + hash.skip(2),
{
    let below = seq!["objects"@, hash.take(2), hash.skip(2)];
    assert(slash_joined(below) =~= "objects"@ + seq!['/'] + hash.take(2) + seq!['/'] + hash.skip(2))
        by {
        let tail = below.drop_first();
        assert(tail =~= seq![hash.take(2), hash.skip(2)]);
        assert(tail.drop_first() =~= seq![hash.skip(2)]);
        assert(slash_joined(tail.drop_first()) == hash.skip(2));
        assert(slash_joined(tail) == hash.take(2) + seq!['/'] + hash.skip(2));
    }
    lemma_slash_joined_concat(root, below);
    assert(object_path(root, hash) =~= root + below);
    assert(slash_joined(root) + seq!['/'] + ("objects"@ + seq!['/'] + hash.take(2) + seq!['/']
        + hash.skip(2)) =~= slash_joined(root) + seq!['/'] + "objects"@ + seq!['/'] + hash.take(2)
        + seq!['/'] + hash.skip(2));
}

/// The address at which `base` would be kept in the namespace `kind`, or the
/// reason why `base` cannot be a name of that kind.
pub open spec fn candidate_path(
    base: Seq<char>,
    kind: GitRevSpecType,
    root: Seq<Seq<char>>,
) -> Result<Seq<Seq<char>>, RevSpecError> {
    match kind {
        GitRevSpecType::Head => if base == "HEAD"@ {
            Ok(root.push("HEAD"@))
        } else {
            Err(RevSpecError::NotHead)
        },
        GitRevSpecType::CommitSha => if base.len() == 40 {
            Ok(object_path(root, base))
        } else {
            Err(RevSpecError::InvalidHashLength)
        },
        GitRevSpecType::BranchName => Ok(ref_path(root, "heads"@, base)),
        GitRevSpecType::TagName => Ok(ref_path(root, "tags"@, base)),
    }
}

/// The address of the loose object named `hash`.
///
/// Fails with `InvalidHashLength`, before anything is read, exactly when
/// `hash` is not 40 characters long.
pub fn loose_object_path(git_root: &StoragePath, hash: &str) -> (r: Result<
    StoragePath,
    RevSpecError,
>)
    ensures
        match candidate_path(hash@, GitRevSpecType::CommitSha, git_root@) {
            Ok(path) => r is Ok && r->Ok_0@ == path,
            Err(e) => r is Err && r->Err_0 == e,
        },
{
    if hash.unicode_len() != 40 {
        return Err(RevSpecError::InvalidHashLength);
    }
    let mut path = git_root.join("objects");
    path.push(hash.substring_char(0, 2));
    path.push(hash.substring_char(2, 40));
    proof {
        assert(hash@.subrange(2, 40) =~= hash@.skip(2));
    }
    Ok(path)
}

impl GitRevSpecParsed {
    /// The address at which the base name would be kept in the namespace
    /// `git_rev_spec_type`, under `git_root`.
    ///
    /// * `Head`: `<root>/HEAD`; fails with `NotHead` unless the base name is
    ///   exactly `HEAD`.
    /// * `CommitSha`: `<root>/objects/<2 characters>/<38 characters>`; fails
    ///   with `InvalidHashLength` unless the base name has 40 characters.
    /// * `BranchName`: `<root>/refs/heads/` and one component for each
    ///   segment of the base name; never fails.
    /// * `TagName`: the same under `<root>/refs/tags/`.
    pub fn to_path_buf(&self, git_rev_spec_type: GitRevSpecType, git_root: &StoragePath) -> (r:
        Result<StoragePath, RevSpecError>)
        ensures
            match candidate_path(self@.base, git_rev_spec_type, git_root@) {
                Ok(path) => r is Ok && r->Ok_0@ == path,
                Err(e) => r is Err && r->Err_0 == e,
            },
    {
        match git_rev_spec_type {
            GitRevSpecType::Head => {
                if same_text(self.value.as_str(), "HEAD") {
                    Ok(git_root.join("HEAD"))
                } else {
                    Err(RevSpecError::NotHead)
                }
            },
            GitRevSpecType::CommitSha => loose_object_path(git_root, self.value.as_str()),
            GitRevSpecType::BranchName => {
                let target_path = git_root.join("refs").join("heads");
                Ok(git_rev_spec_value_into_path_buf(self.value.as_str(), target_path))
            },
            GitRevSpecType::TagName => {
                let target_path = git_root.join("refs").join("tags");
                Ok(git_rev_spec_value_into_path_buf(self.value.as_str(), target_path))
            },
        }
    }
}

} // verus!
