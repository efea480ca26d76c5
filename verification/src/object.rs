//! Reading a stored object as text.
//!
//! Commits and blobs of source files are text. This module inflates such an
//! object and parts what stands before the first NUL, the header line, from
//! the text that follows it. The header line is handed out as it stands;
//! [`crate::parser`] is where it is read.
use crate::inflate::zlib_inflated;
use crate::parser::{decompress_object, ObjectError};
use crate::scan::{is_run_len, lemma_run_len_unique, run_len};
use vstd::prelude::*;
use vstd::std_specs::iter::IteratorSpec;
use vstd::string::StringSliceAdditionalSpecFns;
use vstd::utf8::{decode_utf8, encode_utf8_decode_utf8, valid_utf8};

verus! {

/// `std::str::Utf8Error`, carried through as an opaque value.
#[verifier::external_type_specification]
#[verifier::external_body]
pub struct ExUtf8Error(std::str::Utf8Error);

/// Calls `std::str::from_utf8`.
///
/// Not proved: that the call succeeds exactly on well-formed UTF-8, and that
/// the string it returns is made of the very bytes it was given.
#[verifier::external_body]
fn utf8_text(bytes: &[u8]) -> (r: Result<&str, std::str::Utf8Error>)
    ensures
        r is Ok <==> valid_utf8(bytes@),
        r is Ok ==> r->Ok_0.spec_bytes() == bytes@,
{
    std::str::from_utf8(bytes)
}

/// The condition "is the NUL character".
pub open spec fn nul_char() -> spec_fn(char) -> bool {
    |c: char| c == '\0'
}

/// The header line and the body of an object's text: what stands before the
/// first NUL and what stands after it. `None` when the text holds no NUL.
pub open spec fn text_parts(text: Seq<char>) -> Option<(Seq<char>, Seq<char>)> {
    let n = run_len(text, nul_char()) as int;
    if n >= text.len() {
        None
    } else {
        Some((text.take(n), text.skip(n + 1)))
    }
}

/// What reading a stored object as text comes to, given what its bytes
/// inflate to.
pub open spec fn object_text(inflated: Option<Seq<u8>>) -> Result<
    (Seq<char>, Seq<char>),
    ObjectError,
> {
    match inflated {
        None => Err(ObjectError::CorruptStream),
        Some(content) => if !valid_utf8(content) {
            Err(ObjectError::CorruptStream)
        } else {
            match text_parts(decode_utf8(content)) {
                None => Err(ObjectError::MalformedHeader),
                Some(parts) => Ok(parts),
            }
        },
    }
}

/// Parts `text` at its first NUL.
///
/// Returns the header line and the body, or `None` when there is no NUL.
pub fn split_object_text(text: &str) -> (r: Option<(&str, &str)>)
    ensures
        match text_parts(text@) {
            Some((line, body)) => r matches Some((first, second)) && first@ == line && second@ == body,
            None => r is None,
        },
{
    let total = text.unicode_len();
    let mut chars = text.chars();
    let mut n: usize = 0;
    loop
        invariant_except_break
            chars.remaining() == text@.skip(n as int),
        invariant
            n <= total == text@.len(),
            forall|j: int| 0 <= j < n ==> !nul_char()(#[trigger] text@[j]),
        ensures
            is_run_len(text@, nul_char(), n as int),
        decreases total - n,
    {
        let ghost before = chars;
        match chars.next() {
            Some(c) => {
                assert(c == text@[n as int]);
                if c == '\0' {
                    break ;
                }
                assert(before.remaining().drop_first() =~= text@.skip(n + 1));
                n += 1;
            },
            None => {
                break ;
            },
        }
    }
    proof {
        lemma_run_len_unique(text@, nul_char(), n as int);
    }
    if n >= total {
        None
    } else {
        Some((text.substring_char(0, n), text.substring_char(n + 1, total)))
    }
}

/// Inflates a stored object and reads it as text.
///
/// Returns the header line and the body. Fails with `CorruptStream` when
/// the bytes are no valid stream or inflate to something that is not UTF-8,
/// and with `MalformedHeader` when the text holds no NUL.
pub fn parse_object_buf(buf: Vec<u8>) -> (r: Result<(String, String), ObjectError>)
    ensures
        match object_text(zlib_inflated(buf@)) {
            Ok((line, body)) => r matches Ok((first, second)) && first@ == line && second@ == body,
            Err(e) => r matches Err(error) && error == e,
        },
{
    let content = decompress_object(buf)?;
    let text = match utf8_text(content.as_slice()) {
        Ok(text) => text,
        Err(_) => {
            return Err(ObjectError::CorruptStream);
        },
    };
    proof {
        encode_utf8_decode_utf8(text@);
    }
    match split_object_text(text) {
        Some((object_type, object_string)) => Ok((object_type.to_owned(), object_string.to_owned())),
        None => Err(ObjectError::MalformedHeader),
    }
}

} // verus!
