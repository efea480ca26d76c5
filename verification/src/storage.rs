//! What the storage capabilities answered.
//!
//! Storage is not reached from this crate. Whoever calls it supplies
//! functions that read an address or tell something about it, and the
//! contracts of the callers speak of what those functions answered. An
//! answer is tied to the address that was asked about, not to the value that
//! carried the address.
use crate::path::StoragePath;
use vstd::prelude::*;

verus! {

/// The characters of a text that may be absent.
pub open spec fn text_of(text: Option<String>) -> Option<Seq<char>> {
    match text {
        Some(text) => Some(text@),
        None => None,
    }
}

/// The text that a read brought back, if it brought any.
pub open spec fn text_read<E>(out: Result<String, E>) -> Option<Seq<char>> {
    match out {
        Ok(text) => Some(text@),
        Err(_) => None,
    }
}

/// `read`, asked for the address `at`, answered `text` (`None`: it failed).
pub open spec fn read_gave<E, R: Fn(&StoragePath) -> Result<String, E>>(
    read: R,
    at: Seq<Seq<char>>,
    text: Option<Seq<char>>,
) -> bool {
    exists|path: StoragePath, out: Result<String, E>| #[trigger]
        read.ensures((&path,), out) && path@ == at && text_read(out) == text
}

/// `probe`, asked about the address `at`, answered `answer`.
pub open spec fn answered<X: Fn(&StoragePath) -> bool>(
    probe: X,
    at: Seq<Seq<char>>,
    answer: bool,
) -> bool {
    exists|path: StoragePath| #[trigger] probe.ensures((&path,), answer) && path@ == at
}

} // verus!
