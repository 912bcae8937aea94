//! The per-chunk transform: compress, then encrypt, with a hash of the bytes
//! before and after; and its reverse, which checks both hashes.

use vstd::prelude::*;
use vstd::slice::slice_to_vec;

use crate::cipher::{open, opened, seal, SEAL_OVERHEAD};
use crate::compression::{compress, decompress, gunzip, gzip};
use crate::config::{PartView, UploadPart};
use crate::encoding::{hex_string, lemma_hex_string_injective};
use crate::error::{ErrorKind, Failure, TransferError};
use crate::hashing::{sha256, sha256_hex};

verus! {

/// What the forward transform makes of one chunk.
#[derive(Clone, Debug, PartialEq, Eq)]
pub struct ProcessedChunk {
    /// The bytes to send.
    pub bytes: Vec<u8>,
    /// Length of the chunk.
    pub original_size: u64,
    /// Length of `bytes`.
    pub processed_size: u64,
    /// Hex SHA-256 of the chunk.
    pub original_sha256: String,
    /// Hex SHA-256 of `bytes`.
    pub processed_sha256: String,
}

/// A `ProcessedChunk` with its numbers unbounded and its texts as character sequences.
pub ghost struct ProcessedView {
    pub bytes: Seq<u8>,
    pub original_size: nat,
    pub processed_size: nat,
    pub original_sha256: Seq<char>,
    pub processed_sha256: Seq<char>,
}

impl ProcessedView {
    /// The part that records this chunk under `idx` and `etag`.
    pub open spec fn part(self, idx: nat, etag: Seq<char>) -> PartView {
        PartView {
            idx,
            etag,
            original_size: self.original_size,
            processed_size: self.processed_size,
            original_sha256: self.original_sha256,
            processed_sha256: self.processed_sha256,
        }
    }
}

impl View for ProcessedChunk {
    type V = ProcessedView;

    open spec fn view(&self) -> ProcessedView {
        ProcessedView {
            bytes: self.bytes@,
            original_size: self.original_size as nat,
            processed_size: self.processed_size as nat,
            original_sha256: self.original_sha256@,
            processed_sha256: self.processed_sha256@,
        }
    }
}

/// The chunk after the compression step.
pub open spec fn packed(chunk: Seq<u8>, compression: bool) -> Seq<u8> {
    if compression {
        gzip(chunk)
    } else {
        chunk
    }
}

/// The received bytes after the decryption step, or `None` where the tag fails.
pub open spec fn unsealed(received: Seq<u8>, encryption: bool, key: Seq<u8>) -> Option<Seq<u8>> {
    if encryption {
        opened(key, received)
    } else {
        Some(received)
    }
}

/// The decrypted bytes after the decompression step, or `None` where they are
/// not a valid stream.
pub open spec fn inflated(plain: Seq<u8>, compression: bool) -> Option<Seq<u8>> {
    if compression {
        gunzip(plain)
    } else {
        Some(plain)
    }
}

/// Whether `p` describes `payload` as the bytes sent for `chunk`.
pub open spec fn describes(p: ProcessedView, chunk: Seq<u8>, payload: Seq<u8>) -> bool {
    &&& p.bytes == payload
    &&& p.original_size == chunk.len()
    &&& p.processed_size == payload.len()
    &&& p.original_sha256 == hex_string(sha256(chunk))
    &&& p.processed_sha256 == hex_string(sha256(payload))
}

/// Whether `p` is a forward transform of `chunk`. Without encryption the
/// bytes are determined; with it they are some sealing of the packed chunk,
/// longer by the nonce and the tag.
pub open spec fn is_forward_of(
    p: ProcessedView,
    chunk: Seq<u8>,
    compression: bool,
    encryption: bool,
    key: Seq<u8>,
) -> bool {
    &&& describes(p, chunk, p.bytes)
    &&& inflated(packed(chunk, compression), compression) == Some(chunk)
    &&& if encryption {
        &&& p.bytes.len() == packed(chunk, compression).len() + SEAL_OVERHEAD
        &&& opened(key, p.bytes) == Some(packed(chunk, compression))
    } else {
        p.bytes == packed(chunk, compression)
    }
}

/// Whether `body` can be what the forward transform sent for `chunk` when
/// `part` was recorded for it.
pub open spec fn sent_as(
    part: PartView,
    body: Seq<u8>,
    chunk: Seq<u8>,
    compression: bool,
    encryption: bool,
    key: Seq<u8>,
) -> bool {
    is_forward_of(
        ProcessedView {
            bytes: body,
            original_size: part.original_size,
            processed_size: part.processed_size,
            original_sha256: part.original_sha256,
            processed_sha256: part.processed_sha256,
        },
        chunk,
        compression,
        encryption,
        key,
    )
}

/// What the reverse transform makes of `received` for the part `part`: the
/// chunk, or the first check that fails.
pub open spec fn reverse_outcome(
    received: Seq<u8>,
    part: PartView,
    compression: bool,
    encryption: bool,
    key: Seq<u8>,
) -> Result<Seq<u8>, Failure> {
    let actual = hex_string(sha256(received));
    if actual != part.processed_sha256 {
        Err(
            Failure::ProcessedHashMismatch {
                index: part.idx,
                expected: part.processed_sha256,
                actual,
            },
        )
    } else {
        match unsealed(received, encryption, key) {
            None => Err(Failure::AuthenticationFailed { index: part.idx }),
            Some(plain) => match inflated(plain, compression) {
                None => Err(Failure::DecompressionFailed { index: part.idx }),
                Some(chunk) => original_check(chunk, part),
            },
        }
    }
}

/// The last step of the reverse transform: the recovered chunk against the
/// recorded length and hash.
pub open spec fn original_check(chunk: Seq<u8>, part: PartView) -> Result<Seq<u8>, Failure> {
    if chunk.len() != part.original_size {
        Err(
            Failure::OriginalSizeMismatch {
                index: part.idx,
                expected_size: part.original_size,
                actual_size: chunk.len(),
            },
        )
    } else if hex_string(sha256(chunk)) != part.original_sha256 {
        Err(
            Failure::OriginalHashMismatch {
                index: part.idx,
                expected: part.original_sha256,
                actual: hex_string(sha256(chunk)),
            },
        )
    } else {
        Ok(chunk)
    }
}

/// The outcome of the compression step for chunk `index`.
pub fn compression_outcome(index: usize, step: Result<Vec<u8>, std::io::Error>) -> (r: Result<
    Vec<u8>,
    TransferError,
>)
    ensures
        match step {
            Ok(stream) => r == Ok::<Vec<u8>, TransferError>(stream),
            Err(_) => r matches Err(e) && e@ == (Failure::CompressionFailed { index: index as nat }),
        },
{
    match step {
        Ok(stream) => Ok(stream),
        Err(_) => Err(TransferError::CompressionFailed { index }),
    }
}

/// The outcome of the encryption step for chunk `index`.
pub fn encryption_outcome(
    index: usize,
    step: Result<Vec<u8>, orion::errors::UnknownCryptoError>,
) -> (r: Result<Vec<u8>, TransferError>)
    ensures
        match step {
            Ok(sealed) => r == Ok::<Vec<u8>, TransferError>(sealed),
            Err(_) => r matches Err(e) && e@ == (Failure::EncryptionFailed { index: index as nat }),
        },
{
    match step {
        Ok(sealed) => Ok(sealed),
        Err(_) => Err(TransferError::EncryptionFailed { index }),
    }
}

/// The outcome of the decryption step for chunk `index`.
pub fn decryption_outcome(
    index: usize,
    step: Result<Vec<u8>, orion::errors::UnknownCryptoError>,
) -> (r: Result<Vec<u8>, TransferError>)
    ensures
        match step {
            Ok(plain) => r == Ok::<Vec<u8>, TransferError>(plain),
            Err(_) => r matches Err(e) && e@ == (Failure::AuthenticationFailed {
                index: index as nat,
            }),
        },
{
    match step {
        Ok(plain) => Ok(plain),
        Err(_) => Err(TransferError::AuthenticationFailed { index }),
    }
}

/// The outcome of the decompression step for chunk `index`.
pub fn decompression_outcome(index: usize, step: Result<Vec<u8>, std::io::Error>) -> (r: Result<
    Vec<u8>,
    TransferError,
>)
    ensures
        match step {
            Ok(chunk) => r == Ok::<Vec<u8>, TransferError>(chunk),
            Err(_) => r matches Err(e) && e@ == (Failure::DecompressionFailed {
                index: index as nat,
            }),
        },
{
    match step {
        Ok(chunk) => Ok(chunk),
        Err(_) => Err(TransferError::DecompressionFailed { index }),
    }
}

/// Hashes `chunk` and `payload` and records both with their lengths.
pub fn describe(chunk: &[u8], payload: Vec<u8>) -> (p: ProcessedChunk)
    ensures
        describes(p@, chunk@, payload@),
{
    let original_sha256 = sha256_hex(chunk);
    let processed_sha256 = sha256_hex(payload.as_slice());
    ProcessedChunk {
        original_size: chunk.len() as u64,
        processed_size: payload.len() as u64,
        original_sha256,
        processed_sha256,
        bytes: payload,
    }
}

/// The forward transform of chunk `index`: hash, compress if asked, encrypt
/// if asked, hash again.
///
/// Without compression and encryption it always succeeds and sends the chunk
/// as it is. Encryption fails on a key that is not 32 bytes long, and on an
/// empty chunk that is not compressed first.
pub fn forward_transform(
    chunk: &[u8],
    index: usize,
    compression: bool,
    encryption: bool,
    key: &[u8],
) -> (r: Result<ProcessedChunk, TransferError>)
    ensures
        match r {
            Ok(p) => is_forward_of(p@, chunk@, compression, encryption, key@),
            Err(e) => (compression && e@ == (Failure::CompressionFailed { index: index as nat }))
                || (encryption && e@ == (Failure::EncryptionFailed { index: index as nat })),
        },
        !compression && !encryption ==> r is Ok,
        encryption && key@.len() != crate::cipher::KEY_LEN ==> r is Err,
        encryption && !compression && chunk@.len() == 0 ==> r is Err,
{
    let packed_bytes = if compression {
        compression_outcome(index, compress(chunk))?
    } else {
        slice_to_vec(chunk)
    };
    let payload = if encryption {
        encryption_outcome(index, seal(key, packed_bytes.as_slice()))?
    } else {
        packed_bytes
    };
    Ok(describe(chunk, payload))
}

/// The first check of the reverse transform: the hash of the received bytes
/// against the recorded processed hash.
pub fn check_processed(part: &UploadPart, actual: String) -> (r: Result<(), TransferError>)
    ensures
        match r {
            Ok(_) => actual@ == part@.processed_sha256,
            Err(e) => actual@ != part@.processed_sha256 && e@ == (Failure::ProcessedHashMismatch {
                index: part@.idx,
                expected: part@.processed_sha256,
                actual: actual@,
            }),
        },
{
    if actual == part.processed_sha256 {
        Ok(())
    } else {
        Err(
            TransferError::ProcessedHashMismatch {
                index: part.idx,
                expected: part.processed_sha256.clone(),
                actual,
            },
        )
    }
}

/// The last check of the reverse transform: the recovered chunk's length and
/// hash against those recorded.
pub fn check_original(part: &UploadPart, size: u64, actual: String) -> (r: Result<
    (),
    TransferError,
>)
    ensures
        match r {
            Ok(_) => size == part@.original_size && actual@ == part@.original_sha256,
            Err(e) => if size != part@.original_size {
                e@ == (Failure::OriginalSizeMismatch {
                    index: part@.idx,
                    expected_size: part@.original_size,
                    actual_size: size as nat,
                })
            } else {
                actual@ != part@.original_sha256 && e@ == (Failure::OriginalHashMismatch {
                    index: part@.idx,
                    expected: part@.original_sha256,
                    actual: actual@,
                })
            },
        },
{
    if size != part.original_size {
        Err(
            TransferError::OriginalSizeMismatch {
                index: part.idx,
                expected_size: part.original_size,
                actual_size: size,
            },
        )
    } else if actual == part.original_sha256 {
        Ok(())
    } else {
        Err(
            TransferError::OriginalHashMismatch {
                index: part.idx,
                expected: part.original_sha256.clone(),
                actual,
            },
        )
    }
}

/// The reverse transform of the bytes received for `part`: check their hash,
/// decrypt if the session was encrypted, decompress if it was compressed,
/// check the chunk's length and hash.
pub fn reverse_transform(
    received: &[u8],
    part: &UploadPart,
    compression: bool,
    encryption: bool,
    key: &[u8],
) -> (r: Result<Vec<u8>, TransferError>)
    ensures
        match r {
            Ok(chunk) => reverse_outcome(received@, part@, compression, encryption, key@) == Ok::<
                Seq<u8>,
                Failure,
            >(chunk@),
            Err(e) => reverse_outcome(received@, part@, compression, encryption, key@) == Err::<
                Seq<u8>,
                Failure,
            >(e@),
        },
{
    check_processed(part, sha256_hex(received))?;
    let plain = if encryption {
        decryption_outcome(part.idx, open(key, received))?
    } else {
        slice_to_vec(received)
    };
    let chunk = if compression {
        decompression_outcome(part.idx, decompress(plain.as_slice()))?
    } else {
        plain
    };
    check_original(part, chunk.len() as u64, sha256_hex(chunk.as_slice()))?;
    Ok(chunk)
}

/// Round trip: the reverse transform of what the forward transform made of a
/// chunk, checked against the part that records it, gives the chunk back, for
/// every chunk and either setting of compression and encryption.
pub proof fn lemma_round_trip(
    chunk: Seq<u8>,
    p: ProcessedView,
    idx: nat,
    etag: Seq<char>,
    compression: bool,
    encryption: bool,
    key: Seq<u8>,
)
    requires
        is_forward_of(p, chunk, compression, encryption, key),
    ensures
        reverse_outcome(p.bytes, p.part(idx, etag), compression, encryption, key) == Ok::<
            Seq<u8>,
            Failure,
        >(chunk),
{
}

/// Tamper detection: bytes whose digest differs from that of the bytes sent
/// are refused with a processed-hash mismatch that names the part's index.
pub proof fn lemma_tamper_detected(
    sent: Seq<u8>,
    received: Seq<u8>,
    part: PartView,
    compression: bool,
    encryption: bool,
    key: Seq<u8>,
)
    requires
        part.processed_sha256 == hex_string(sha256(sent)),
        sha256(received) != sha256(sent),
    ensures
        reverse_outcome(received, part, compression, encryption, key) == Err::<Seq<u8>, Failure>(
            Failure::ProcessedHashMismatch {
                index: part.idx,
                expected: part.processed_sha256,
                actual: hex_string(sha256(received)),
            },
        ),
{
    if hex_string(sha256(received)) == hex_string(sha256(sent)) {
        lemma_hex_string_injective(sha256(received), sha256(sent));
    }
}

/// No silent pass: the reverse transform yields a chunk only if the received
/// bytes and the chunk both match what the part records, and each of its
/// failures is an integrity failure that names the part's index.
pub proof fn lemma_reverse_is_checked(
    received: Seq<u8>,
    part: PartView,
    compression: bool,
    encryption: bool,
    key: Seq<u8>,
)
    ensures
        match reverse_outcome(received, part, compression, encryption, key) {
            Ok(chunk) => {
                &&& hex_string(sha256(received)) == part.processed_sha256
                &&& chunk.len() == part.original_size
                &&& hex_string(sha256(chunk)) == part.original_sha256
                &&& unsealed(received, encryption, key) matches Some(plain) && inflated(
                    plain,
                    compression,
                ) == Some(chunk)
            },
            Err(e) => e.kind() == ErrorKind::Integrity && e.chunk() == Some(part.idx),
        },
{
}

} // verus!
