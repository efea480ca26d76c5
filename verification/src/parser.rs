//! The object codec: from stored bytes to a typed header and a payload.
//!
//! A stored object is a zlib stream. Inflated, it reads
//! `<keyword> <length>\0<payload>`, where the keyword is `commit`, `tree` or
//! `blob` and the length is an ASCII decimal numeral. The length is what the
//! record declares; it is reported as found and never held against the
//! payload.
use crate::decimal::{decimal_value, is_decimal, parse_decimal_u32};
use crate::grammar::lemma_record_first_byte;
use crate::inflate::{zlib_inflated, zlib_read_to_end};
use crate::scan::{find_code, first_code, same_bytes};
use vstd::prelude::*;
use vstd::slice::{slice_subrange, slice_to_vec};

verus! {

/// Why an object could not be decoded.
#[derive(PartialEq, Eq, Debug, Clone, Copy, Structural)]
pub enum ObjectError {
    /// The stored bytes are not a valid compressed stream.
    CorruptStream,
    /// The inflated bytes do not start with `<keyword> <length>\0`.
    MalformedHeader,
}

impl ObjectError {
    /// A short description for the user.
    pub fn message(&self) -> (text: String)
        ensures
            text@ == match *self {
                ObjectError::CorruptStream => "corrupt object stream"@,
                ObjectError::MalformedHeader => "malformed object header"@,
            },
    {
        match self {
            ObjectError::CorruptStream => "corrupt object stream".to_owned(),
            ObjectError::MalformedHeader => "malformed object header".to_owned(),
        }
    }
}

/// The kind of an object together with the payload length its record declares.
#[derive(PartialEq, Eq, Debug, Clone, Copy, Structural)]
pub enum GitObjectHeader {
    Commit(usize),
    Tree(usize),
    Blob(usize),
}

/// A decoded object: its header, and the payload borrowed from the inflated
/// buffer it was read from.
#[derive(PartialEq, Eq, Debug, Clone, Copy)]
pub struct GitObject<'i> {
    pub header: GitObjectHeader,
    pub raw_data: &'i [u8],
}

/// A decoded object that owns its payload.
#[derive(PartialEq, Eq, Debug)]
pub struct DecodedObject {
    pub header: GitObjectHeader,
    pub payload: Vec<u8>,
}

/// The ASCII space that parts keyword and length.
pub const SPACE: u8 = 32;

/// The NUL byte that ends the header.
pub const NUL: u8 = 0;

/// The bytes of `commit`.
pub open spec fn commit_keyword() -> Seq<u8> {
    seq![99u8, 111u8, 109u8, 109u8, 105u8, 116u8]
}

/// The bytes of `tree`.
pub open spec fn tree_keyword() -> Seq<u8> {
    seq![116u8, 114u8, 101u8, 101u8]
}

/// The bytes of `blob`.
pub open spec fn blob_keyword() -> Seq<u8> {
    seq![98u8, 108u8, 111u8, 98u8]
}

impl GitObjectHeader {
    /// The keyword that announces this kind of object.
    pub open spec fn keyword(self) -> Seq<u8> {
        match self {
            GitObjectHeader::Commit(_) => commit_keyword(),
            GitObjectHeader::Tree(_) => tree_keyword(),
            GitObjectHeader::Blob(_) => blob_keyword(),
        }
    }

    /// The payload length that the record declares.
    pub open spec fn declared_length(self) -> nat {
        match self {
            GitObjectHeader::Commit(n) => n as nat,
            GitObjectHeader::Tree(n) => n as nat,
            GitObjectHeader::Blob(n) => n as nat,
        }
    }
}

/// The header that a keyword and a length numeral make, if they make one:
/// the keyword is one of the three, case and all, and the numeral is a run of
/// digits denoting at most `u32::MAX`.
pub open spec fn header_from_tokens(word: Seq<u8>, numeral: Seq<u8>) -> Option<GitObjectHeader> {
    if !is_decimal(numeral) || decimal_value(numeral) > u32::MAX {
        None
    } else if word == commit_keyword() {
        Some(GitObjectHeader::Commit(decimal_value(numeral) as usize))
    } else if word == tree_keyword() {
        Some(GitObjectHeader::Tree(decimal_value(numeral) as usize))
    } else if word == blob_keyword() {
        Some(GitObjectHeader::Blob(decimal_value(numeral) as usize))
    } else {
        None
    }
}

/// What `<keyword> <length>` reads as: the bytes before the first space are
/// the keyword, all bytes after it the numeral.
pub open spec fn header_of(bytes: Seq<u8>) -> Option<GitObjectHeader> {
    let sp = first_code(bytes, SPACE) as int;
    if sp >= bytes.len() {
        None
    } else {
        header_from_tokens(bytes.take(sp), bytes.skip(sp + 1))
    }
}

/// What an inflated record reads as: the bytes before the first NUL are the
/// header, all bytes after it the payload, whatever they hold.
pub open spec fn record_of(bytes: Seq<u8>) -> Option<(GitObjectHeader, Seq<u8>)> {
    let nul = first_code(bytes, NUL) as int;
    if nul >= bytes.len() {
        None
    } else {
        match header_of(bytes.take(nul)) {
            Some(header) => Some((header, bytes.skip(nul + 1))),
            None => None,
        }
    }
}

/// What two cuts at `code` leave of `bytes`: the part before the first
/// `code`, the part between it and the next one (or the end), and the tail
/// that starts at that next `code`. `None` when `code` does not occur.
pub open spec fn split_at_code_spec(bytes: Seq<u8>, code: u8) -> Option<
    (Seq<u8>, (Seq<u8>, Seq<u8>)),
> {
    let first = first_code(bytes, code) as int;
    if first >= bytes.len() {
        None
    } else {
        let rest = bytes.skip(first + 1);
        let second = first_code(rest, code) as int;
        Some((rest.skip(second), (bytes.take(first), rest.take(second))))
    }
}

/// Cuts `input` at the first `code` and what follows at the next one.
///
/// Returns `(tail, (part1, part2))`: `part1` is what stands before the first
/// `code`, `part2` what stands between it and the next `code` (or the end of
/// the input), and `tail` the rest, beginning with that next `code`; `tail`
/// is empty when `code` occurs once. Fails with `MalformedHeader` exactly
/// when `code` does not occur at all.
pub fn split_at_code<'i>(code: u8, input: &'i [u8]) -> (r: Result<
    (&'i [u8], (&'i [u8], &'i [u8])),
    ObjectError,
>)
    ensures
        match split_at_code_spec(input@, code) {
            Some((tail, (part1, part2))) => r matches Ok((rest, (first, second))) && rest@ == tail
                && first@ == part1 && second@ == part2,
            None => r matches Err(e) && e == ObjectError::MalformedHeader,
        },
{
    let first = find_code(input, code);
    if first >= input.len() {
        return Err(ObjectError::MalformedHeader);
    }
    let part1 = slice_subrange(input, 0, first);
    let rest = slice_subrange(input, first + 1, input.len());
    let second = find_code(rest, code);
    let part2 = slice_subrange(rest, 0, second);
    let tail = slice_subrange(rest, second, rest.len());
    Ok((tail, (part1, part2)))
}

impl GitObjectHeader {
    /// Reads a header from `<keyword> <length>`, the bytes that stand before
    /// the NUL of a record.
    ///
    /// Fails with `MalformedHeader` when there is no space, when the bytes
    /// before the first space are not exactly `commit`, `tree` or `blob`, or
    /// when what follows the space is not a run of digits denoting at most
    /// `u32::MAX`.
    pub fn from_vec(vec: &[u8]) -> (r: Result<Self, ObjectError>)
        ensures
            r == match header_of(vec@) {
                Some(header) => Ok::<GitObjectHeader, ObjectError>(header),
                None => Err::<GitObjectHeader, ObjectError>(ObjectError::MalformedHeader),
            },
    {
        let sp = find_code(vec, SPACE);
        if sp >= vec.len() {
            return Err(ObjectError::MalformedHeader);
        }
        let word = slice_subrange(vec, 0, sp);
        let numeral = slice_subrange(vec, sp + 1, vec.len());
        let length = match parse_decimal_u32(numeral) {
            Some(n) => n as usize,
            None => {
                return Err(ObjectError::MalformedHeader);
            },
        };
        if same_bytes(word, &[99, 111, 109, 109, 105, 116]) {
            Ok(GitObjectHeader::Commit(length))
        } else if same_bytes(word, &[116, 114, 101, 101]) {
            Ok(GitObjectHeader::Tree(length))
        } else if same_bytes(word, &[98, 108, 111, 98]) {
            Ok(GitObjectHeader::Blob(length))
        } else {
            Err(ObjectError::MalformedHeader)
        }
    }
}

impl<'i> GitObject<'i> {
    /// Reads an object from an inflated record.
    ///
    /// The header ends at the first NUL; everything after that NUL is the
    /// payload, untouched, further NULs and spaces included. Fails with
    /// `MalformedHeader` when there is no NUL or when the bytes before it are
    /// not a header.
    pub fn from_vec(vec: &'i [u8]) -> (r: Result<GitObject<'i>, ObjectError>)
        ensures
            match record_of(vec@) {
                Some((header, payload)) => r matches Ok(object) && object.header == header
                    && object.raw_data@ == payload,
                None => r matches Err(e) && e == ObjectError::MalformedHeader,
            },
    {
        let nul = find_code(vec, NUL);
        if nul >= vec.len() {
            return Err(ObjectError::MalformedHeader);
        }
        let header = GitObjectHeader::from_vec(slice_subrange(vec, 0, nul))?;
        Ok(GitObject { header, raw_data: slice_subrange(vec, nul + 1, vec.len()) })
    }
}

/// Inflates a stored object.
///
/// Returns what the zlib stream in `buf` holds, or `CorruptStream` when `buf`
/// is no valid stream. Bytes that already read as a record are never a valid
/// stream: inflating twice fails, it does not hand the record back.
pub fn decompress_object(buf: Vec<u8>) -> (r: Result<Vec<u8>, ObjectError>)
    ensures
        match zlib_inflated(buf@) {
            Some(content) => r matches Ok(inflated) && inflated@ == content,
            None => r matches Err(e) && e == ObjectError::CorruptStream,
        },
        record_of(buf@) is Some ==> (r matches Err(e) && e == ObjectError::CorruptStream),
{
    proof {
        if record_of(buf@) is Some {
            lemma_record_first_byte(buf@);
        }
    }
    match zlib_read_to_end(buf.as_slice()) {
        Ok(content) => Ok(content),
        Err(_) => Err(ObjectError::CorruptStream),
    }
}

/// What decoding a stored object comes to, given what its bytes inflate to.
pub open spec fn decoded(inflated: Option<Seq<u8>>) -> Result<
    (GitObjectHeader, Seq<u8>),
    ObjectError,
> {
    match inflated {
        None => Err(ObjectError::CorruptStream),
        Some(content) => match record_of(content) {
            None => Err(ObjectError::MalformedHeader),
            Some(parts) => Ok(parts),
        },
    }
}

/// Decodes a stored object: inflates it, reads the header and hands the rest
/// out as the payload.
///
/// Fails with `CorruptStream` when the bytes are no valid stream, and with
/// `MalformedHeader` when they inflate to something that does not start with
/// a header. Nothing is returned of an object that fails either way.
pub fn decode_object(compressed: Vec<u8>) -> (r: Result<DecodedObject, ObjectError>)
    ensures
        match decoded(zlib_inflated(compressed@)) {
            Ok((header, payload)) => r matches Ok(object) && object.header == header
                && object.payload@ == payload,
            Err(e) => r matches Err(error) && error == e,
        },
{
    let content = decompress_object(compressed)?;
    let object = GitObject::from_vec(content.as_slice())?;
    Ok(DecodedObject { header: object.header, payload: slice_to_vec(object.raw_data) })
}

} // verus!
