//! The one place where this crate leaves verified code: zlib decompression.
use flate2::read::ZlibDecoder;
use std::io::Read;
use vstd::prelude::*;

verus! {

/// `std::io::Error`, carried through as an opaque value.
#[verifier::external_type_specification]
#[verifier::external_body]
pub struct ExIoError(std::io::Error);

/// What `flate2::read::ZlibDecoder` yields when it is read to the end over
/// `stream`: the decompressed bytes, or `None` where the read fails.
///
/// Decompression is a function of the compressed bytes alone; this name
/// stands for that function without spelling the algorithm out.
pub uninterp spec fn zlib_inflated(stream: Seq<u8>) -> Option<Seq<u8>>;

/// Runs `flate2::read::ZlibDecoder::new(buf)` and `Read::read_to_end` on it.
///
/// Not proved, in two parts. The first gives the outcome its name: `Ok`
/// carries every byte the decoder produced before it reported the end of the
/// stream, `Err` is whatever error the read returned. The second is the one
/// fact about streams that this crate relies on: a zlib stream opens with a
/// byte whose low four bits name the compression method, and the decoder
/// turns down every method but 8, deflate, before it produces anything.
#[verifier::external_body]
pub(crate) fn zlib_read_to_end(buf: &[u8]) -> (r: Result<Vec<u8>, std::io::Error>)
    ensures
        match r {
            Ok(content) => zlib_inflated(buf@) == Some(content@),
            Err(_) => zlib_inflated(buf@) is None,
        },
        r is Ok ==> buf@.len() > 0 && buf@[0] % 16 == 8,
{
    let mut decoder = ZlibDecoder::new(buf);
    let mut content = Vec::new();
    decoder.read_to_end(&mut content)?;
    Ok(content)
}

} // verus!
