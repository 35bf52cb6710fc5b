//! The zlib streams of the body, made and read by flate2.
use std::io::Write;
use vstd::prelude::*;

verus! {

#[verifier::external_type_specification]
#[verifier::external_body]
pub struct ExIoError(std::io::Error);

/// The bytes that a zlib decoder gives for a whole input stream, or `None`
/// where the decoder rejects it.
pub uninterp spec fn zlib_inflated(stream: Seq<u8>) -> Option<Seq<u8>>;

/// Relies on `flate2::write::ZlibDecoder`: writing a zlib stream into it and
/// calling `finish` yields the decompressed bytes, or an error where the
/// stream is malformed. The outcome depends on the input bytes alone.
#[verifier::external_body]
pub(crate) fn inflate(stream: &[u8]) -> (r: Result<Vec<u8>, std::io::Error>)
    ensures
        match r {
            Ok(body) => zlib_inflated(stream@) == Some(body@),
            Err(_) => zlib_inflated(stream@) is None,
        },
{
    let mut decoder = flate2::write::ZlibDecoder::new(Vec::new());
    match decoder.write_all(stream) {
        Ok(()) => decoder.finish(),
        Err(e) => Err(e),
    }
}

/// Relies on `flate2::write::ZlibEncoder` at the default level, writing into
/// a `Vec<u8>`: the sink never fails and the compressor reports no error for
/// valid parameters, so `finish` succeeds and hands back a complete zlib
/// stream whose decompression gives back the bytes written.
#[verifier::external_body]
pub(crate) fn deflate(plain: &[u8]) -> (r: Result<Vec<u8>, std::io::Error>)
    ensures
        r is Ok,
        r matches Ok(stream) ==> zlib_inflated(stream@) == Some(plain@),
{
    let mut encoder = flate2::write::ZlibEncoder::new(Vec::new(), flate2::Compression::default());
    match encoder.write_all(plain) {
        Ok(()) => encoder.finish(),
        Err(e) => Err(e),
    }
}

} // verus!
