//! The record grammar, stated outright, and what the codec owes to it.
//!
//! [`record_of`] and [`header_of`] say how a record is read: cut at the first
//! NUL, then at the first space. This module says what a record *is*,
//! `<keyword><space><digits><NUL><payload>`, and proves that the two agree:
//! exactly the byte strings of that shape are read, each as what it spells,
//! and a payload may hold any bytes without disturbing the cuts.
use crate::decimal::{decimal_digits, decimal_value, is_decimal, lemma_decimal_digits_value};
use crate::parser::{header_from_tokens, header_of, record_of, GitObjectHeader, NUL, SPACE};
use crate::scan::{first_code, is_code, lemma_run_len, lemma_run_len_unique};
use vstd::prelude::*;

verus! {

/// The bytes `<word><space><numeral>`.
pub open spec fn header_bytes(word: Seq<u8>, numeral: Seq<u8>) -> Seq<u8> {
    word + seq![SPACE] + numeral
}

/// The bytes `<word><space><numeral><NUL><payload>`.
pub open spec fn record_bytes(word: Seq<u8>, numeral: Seq<u8>, payload: Seq<u8>) -> Seq<u8> {
    header_bytes(word, numeral) + seq![NUL] + payload
}

/// `numeral` is a way of writing the length that `header` declares.
pub open spec fn spells_length(numeral: Seq<u8>, header: GitObjectHeader) -> bool {
    &&& is_decimal(numeral)
    &&& decimal_value(numeral) == header.declared_length()
    &&& header.declared_length() <= u32::MAX
}

/// `bytes` is `<keyword><space><digits>` for the kind and length of `header`.
pub open spec fn is_header_for(bytes: Seq<u8>, header: GitObjectHeader) -> bool {
    exists|numeral: Seq<u8>| #[trigger]
        spells_length(numeral, header) && bytes == header_bytes(header.keyword(), numeral)
}

/// `bytes` is `<keyword><space><digits><NUL>` for the kind and length of
/// `header`, followed by `payload`.
pub open spec fn is_record_for(bytes: Seq<u8>, header: GitObjectHeader, payload: Seq<u8>) -> bool {
    exists|numeral: Seq<u8>| #[trigger]
        spells_length(numeral, header) && bytes == record_bytes(
            header.keyword(),
            numeral,
            payload,
        )
}

/// The record that stores `payload` under `header`, its length written
/// without leading zeros.
pub open spec fn encode_record(header: GitObjectHeader, payload: Seq<u8>) -> Seq<u8> {
    record_bytes(header.keyword(), decimal_digits(header.declared_length()), payload)
}

/// Neither a keyword nor a numeral holds a space or a NUL.
proof fn lemma_tokens_hold_no_delimiter(header: GitObjectHeader, numeral: Seq<u8>)
    requires
        is_decimal(numeral),
    ensures
        forall|i: int|
            0 <= i < header.keyword().len() ==> (#[trigger] header.keyword()[i]) != SPACE
                && header.keyword()[i] != NUL,
        forall|i: int| 0 <= i < numeral.len() ==> (#[trigger] numeral[i]) != SPACE && numeral[i] != NUL,
{
}

/// A header is read as `header` exactly when it is `<keyword><space><digits>`
/// spelling `header`.
pub proof fn lemma_header_grammar(bytes: Seq<u8>, header: GitObjectHeader)
    ensures
        header_of(bytes) == Some(header) <==> is_header_for(bytes, header),
{
    if is_header_for(bytes, header) {
        let numeral = choose|numeral: Seq<u8>| #[trigger]
            spells_length(numeral, header) && bytes == header_bytes(header.keyword(), numeral);
        lemma_header_bytes_read(header, numeral);
    }
    if header_of(bytes) == Some(header) {
        lemma_run_len(bytes, is_code(SPACE));
        let sp = first_code(bytes, SPACE) as int;
        let numeral = bytes.skip(sp + 1);
        assert(bytes.take(sp) == header.keyword());
        assert(bytes =~= header_bytes(header.keyword(), numeral));
        assert(spells_length(numeral, header));
    }
}

/// `<keyword><space><numeral>` is read as the header it spells.
proof fn lemma_header_bytes_read(header: GitObjectHeader, numeral: Seq<u8>)
    requires
        spells_length(numeral, header),
    ensures
        header_of(header_bytes(header.keyword(), numeral)) == Some(header),
{
    let word = header.keyword();
    let bytes = header_bytes(word, numeral);
    lemma_tokens_hold_no_delimiter(header, numeral);
    let sp = word.len() as int;
    assert(bytes[sp] == SPACE);
    assert forall|j: int| 0 <= j < sp implies !is_code(SPACE)(#[trigger] bytes[j]) by {
        assert(bytes[j] == word[j]);
    }
    lemma_run_len_unique(bytes, is_code(SPACE), sp);
    assert(bytes.take(sp) =~= word);
    assert(bytes.skip(sp + 1) =~= numeral);
    assert(header_from_tokens(word, numeral) == Some(header));
}

/// A record is read as `(header, payload)` exactly when it is
/// `<keyword><space><digits><NUL>` spelling `header`, followed by `payload`.
///
/// The payload is arbitrary: spaces and NULs in it change nothing.
pub proof fn lemma_record_grammar(bytes: Seq<u8>, header: GitObjectHeader, payload: Seq<u8>)
    ensures
        record_of(bytes) == Some((header, payload)) <==> is_record_for(bytes, header, payload),
{
    if is_record_for(bytes, header, payload) {
        let numeral = choose|numeral: Seq<u8>| #[trigger]
            spells_length(numeral, header) && bytes == record_bytes(
                header.keyword(),
                numeral,
                payload,
            );
        let head = header_bytes(header.keyword(), numeral);
        lemma_tokens_hold_no_delimiter(header, numeral);
        let nul = head.len() as int;
        assert(bytes[nul] == NUL);
        assert forall|j: int| 0 <= j < nul implies !is_code(NUL)(#[trigger] bytes[j]) by {
            assert(bytes[j] == head[j]);
            if j < header.keyword().len() {
                assert(head[j] == header.keyword()[j]);
            } else if j > header.keyword().len() {
                assert(head[j] == numeral[j - header.keyword().len() - 1]);
            }
        }
        lemma_run_len_unique(bytes, is_code(NUL), nul);
        assert(bytes.take(nul) =~= head);
        assert(bytes.skip(nul + 1) =~= payload);
        lemma_header_bytes_read(header, numeral);
    }
    if record_of(bytes) == Some((header, payload)) {
        lemma_run_len(bytes, is_code(NUL));
        let nul = first_code(bytes, NUL) as int;
        let head = bytes.take(nul);
        lemma_header_grammar(head, header);
        let numeral = choose|numeral: Seq<u8>| #[trigger]
            spells_length(numeral, header) && head == header_bytes(header.keyword(), numeral);
        assert(bytes =~= record_bytes(header.keyword(), numeral, payload));
    }
}

/// A record begins with the first letter of a keyword: `b`, `c` or `t`.
pub proof fn lemma_record_first_byte(bytes: Seq<u8>)
    requires
        record_of(bytes) is Some,
    ensures
        bytes.len() > 0,
        bytes[0] == 98 || bytes[0] == 99 || bytes[0] == 116,
{
    let (header, payload) = record_of(bytes).unwrap();
    lemma_record_grammar(bytes, header, payload);
    let numeral = choose|numeral: Seq<u8>| #[trigger]
        spells_length(numeral, header) && bytes == record_bytes(
            header.keyword(),
            numeral,
            payload,
        );
    assert(bytes[0] == header.keyword()[0]);
}

/// A byte string that is no record of any header and payload is refused, and
/// only such a string is.
pub proof fn lemma_malformed_iff_no_record(bytes: Seq<u8>)
    ensures
        record_of(bytes) is None <==> forall|header: GitObjectHeader, payload: Seq<u8>|
            !is_record_for(bytes, header, payload),
{
    assert forall|header: GitObjectHeader, payload: Seq<u8>|
        is_record_for(bytes, header, payload) == (record_of(bytes) == Some((header, payload))) by {
        lemma_record_grammar(bytes, header, payload);
    }
    if let Some((header, payload)) = record_of(bytes) {
        assert(is_record_for(bytes, header, payload));
    }
}

/// A header string that spells no header is refused, and only such a string
/// is.
pub proof fn lemma_malformed_iff_no_header(bytes: Seq<u8>)
    ensures
        header_of(bytes) is None <==> forall|header: GitObjectHeader| !is_header_for(bytes, header),
{
    assert forall|header: GitObjectHeader|
        is_header_for(bytes, header) == (header_of(bytes) == Some(header)) by {
        lemma_header_grammar(bytes, header);
    }
    if let Some(header) = header_of(bytes) {
        assert(is_header_for(bytes, header));
    }
}

/// Encoding a header and a payload and reading the record back returns both
/// unchanged, whatever bytes the payload holds.
pub proof fn lemma_encode_then_read(header: GitObjectHeader, payload: Seq<u8>)
    requires
        header.declared_length() <= u32::MAX,
    ensures
        record_of(encode_record(header, payload)) == Some((header, payload)),
{
    let numeral = decimal_digits(header.declared_length());
    lemma_decimal_digits_value(header.declared_length());
    assert(spells_length(numeral, header));
    lemma_record_grammar(encode_record(header, payload), header, payload);
}

} // verus!
