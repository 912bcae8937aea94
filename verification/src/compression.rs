//! Gzip compression of one chunk at a time.

use std::io::{Read, Write};
use vstd::prelude::*;

verus! {

/// The gzip stream that the encoder produces for `data` at the default level.
pub uninterp spec fn gzip(data: Seq<u8>) -> Seq<u8>;

/// What the decoder reads out of `stream`, or `None` where it reports the
/// stream as corrupt.
pub uninterp spec fn gunzip(stream: Seq<u8>) -> Option<Seq<u8>>;

/// `std::io::Error`, with which the encoder and the decoder fail.
#[verifier::external_type_specification]
#[verifier::external_body]
pub struct ExIoError(std::io::Error);

/// Runs `flate2::write::GzEncoder` over `data` into a fresh `Vec` (`new` at
/// `Compression::default()`, `write_all`, `finish`). The stream depends on
/// `data` alone, and the decoder reads `data` back out of it.
#[verifier::external_body]
pub(crate) fn compress(data: &[u8]) -> (r: Result<Vec<u8>, std::io::Error>)
    ensures
        r matches Ok(stream) ==> stream@ == gzip(data@) && gunzip(stream@) == Some(data@),
{
    let mut encoder = flate2::write::GzEncoder::new(Vec::new(), flate2::Compression::default());
    encoder.write_all(data)?;
    encoder.finish()
}

/// Runs `flate2::read::GzDecoder` over `stream` to its end (`new`,
/// `read_to_end`). The outcome depends on `stream` alone.
#[verifier::external_body]
pub(crate) fn decompress(stream: &[u8]) -> (r: Result<Vec<u8>, std::io::Error>)
    ensures
        match r {
            Ok(data) => gunzip(stream@) == Some(data@),
            Err(_) => gunzip(stream@) is None,
        },
{
    let mut decoder = flate2::read::GzDecoder::new(stream);
    let mut data = Vec::new();
    decoder.read_to_end(&mut data)?;
    Ok(data)
}

} // verus!
