//! Locating the first element of a sequence that satisfies a condition.
//!
//! Both the record splitter (first space, first NUL) and the revision parser
//! (first modifier marker, first slash) cut their input at the first element
//! of some kind. This module states that notion once, over any element type.
use vstd::prelude::*;

verus! {

/// Length of the longest prefix of `s` none of whose elements satisfies `stop`.
///
/// Equivalently: the index of the first element that satisfies `stop`, or
/// `s.len()` when there is none.
pub open spec fn run_len<T>(s: Seq<T>, stop: spec_fn(T) -> bool) -> nat
    decreases s.len(),
{
    if s.len() == 0 || stop(s[0]) {
        0
    } else {
        1 + run_len(s.drop_first(), stop)
    }
}

/// `n` is where the first element of `s` satisfying `stop` stands (or `s.len()`).
pub open spec fn is_run_len<T>(s: Seq<T>, stop: spec_fn(T) -> bool, n: int) -> bool {
    &&& 0 <= n <= s.len()
    &&& forall|j: int| 0 <= j < n ==> !stop(#[trigger] s[j])
    &&& n < s.len() ==> stop(s[n])
}

/// `run_len` is the one value that `is_run_len` describes.
pub proof fn lemma_run_len<T>(s: Seq<T>, stop: spec_fn(T) -> bool)
    ensures
        is_run_len(s, stop, run_len(s, stop) as int),
    decreases s.len(),
{
    if s.len() == 0 || stop(s[0]) {
    } else {
        let t = s.drop_first();
        lemma_run_len(t, stop);
        let n = run_len(s, stop) as int;
        assert forall|j: int| 0 <= j < n implies !stop(#[trigger] s[j]) by {
            if j > 0 {
                assert(s[j] == t[j - 1]);
            }
        }
        if n < s.len() {
            assert(s[n] == t[n - 1]);
        }
    }
}

/// Any `n` that `is_run_len` accepts is `run_len`.
pub proof fn lemma_run_len_unique<T>(s: Seq<T>, stop: spec_fn(T) -> bool, n: int)
    requires
        is_run_len(s, stop, n),
    ensures
        n == run_len(s, stop),
{
    lemma_run_len(s, stop);
    let m = run_len(s, stop) as int;
    if n < m {
        assert(stop(s[n]));
    } else if m < n {
        assert(stop(s[m]));
    }
}

/// The condition "equals `code`".
pub open spec fn is_code(code: u8) -> spec_fn(u8) -> bool {
    |b: u8| b == code
}

/// Index of the first byte of `bytes` equal to `code`, or `bytes.len()` when
/// `code` does not occur.
pub open spec fn first_code(bytes: Seq<u8>, code: u8) -> nat {
    run_len(bytes, is_code(code))
}

/// Finds the first byte equal to `code`.
///
/// Returns its index, or `input.len()` when `code` does not occur.
pub fn find_code(input: &[u8], code: u8) -> (at: usize)
    ensures
        at == first_code(input@, code),
        at <= input@.len(),
{
    let mut at: usize = 0;
    while at < input.len() && input[at] != code
        invariant
            at <= input@.len(),
            forall|j: int| 0 <= j < at ==> !is_code(code)(#[trigger] input@[j]),
        decreases input@.len() - at,
    {
        at += 1;
    }
    proof {
        lemma_run_len_unique(input@, is_code(code), at as int);
    }
    at
}

/// Whether two byte strings are the same, byte for byte.
pub fn same_bytes(a: &[u8], b: &[u8]) -> (same: bool)
    ensures
        same == (a@ == b@),
{
    if a.len() != b.len() {
        return false;
    }
    let mut i: usize = 0;
    while i < a.len()
        invariant
            a@.len() == b@.len(),
            i <= a@.len(),
            forall|j: int| 0 <= j < i ==> a@[j] == b@[j],
        decreases a@.len() - i,
    {
        if a[i] != b[i] {
            return false;
        }
        i += 1;
    }
    proof {
        assert(a@ =~= b@);
    }
    true
}

} // verus!
