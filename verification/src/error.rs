//! The failures that end a transfer.

use vstd::prelude::*;

verus! {

/// The broad kind of a failure.
#[derive(Clone, Copy, Debug, PartialEq, Eq, Structural)]
pub enum ErrorKind {
    /// The request cannot be carried out as configured.
    Configuration,
    /// The session is not in a state that allows the operation.
    Precondition,
    /// Data does not match what the session recorded for it.
    Integrity,
    /// The storage backend refused or failed an operation.
    Backend,
    /// A local read, write or stream operation failed.
    Io,
}

/// Why a transfer stopped. Chunk-scoped failures carry the 1-based index of
/// the chunk; mismatches carry the recorded and the observed value.
#[derive(Clone, Debug, PartialEq, Eq)]
pub enum TransferError {
    /// The chunk size is zero.
    ZeroChunkSize,
    /// The source needs more chunks than one session may hold.
    TooManyChunks { chunks: u64, limit: u64 },
    /// The chunk could not be sealed: the key is not usable or the cipher failed.
    EncryptionFailed { index: usize },
    /// The chunk could not be compressed.
    CompressionFailed { index: usize },
    /// The session record breaks one of its invariants.
    MalformedSession,
    /// A download was asked of a session that is not sealed.
    SessionNotSealed,
    /// An upload was asked of a session that is already sealed.
    SessionSealed,
    /// The recorded parts do not tile the source at the session's chunk size.
    ResumeMismatch { index: usize },
    /// The event does not answer the action that was last handed out.
    UnexpectedEvent,
    /// The stream ended before the chunk's recorded length was read.
    ShortRead { index: usize, expected_size: u64, actual_size: u64 },
    /// The received bytes do not hash to the recorded processed hash.
    ProcessedHashMismatch { index: usize, expected: String, actual: String },
    /// The authentication tag did not verify.
    AuthenticationFailed { index: usize },
    /// The decrypted bytes are not a valid compressed stream.
    DecompressionFailed { index: usize },
    /// The recovered chunk has another length than the one recorded.
    OriginalSizeMismatch { index: usize, expected_size: u64, actual_size: u64 },
    /// The recovered chunk does not hash to the recorded original hash.
    OriginalHashMismatch { index: usize, expected: String, actual: String },
    /// The reassembled object does not hash to the recorded whole-object hash.
    WholeObjectHashMismatch { expected: String, actual: String },
}

/// A `TransferError` with its texts as character sequences.
pub ghost enum Failure {
    ZeroChunkSize,
    TooManyChunks { chunks: nat, limit: nat },
    EncryptionFailed { index: nat },
    CompressionFailed { index: nat },
    MalformedSession,
    SessionNotSealed,
    SessionSealed,
    ResumeMismatch { index: nat },
    UnexpectedEvent,
    ShortRead { index: nat, expected_size: nat, actual_size: nat },
    ProcessedHashMismatch { index: nat, expected: Seq<char>, actual: Seq<char> },
    AuthenticationFailed { index: nat },
    DecompressionFailed { index: nat },
    OriginalSizeMismatch { index: nat, expected_size: nat, actual_size: nat },
    OriginalHashMismatch { index: nat, expected: Seq<char>, actual: Seq<char> },
    WholeObjectHashMismatch { expected: Seq<char>, actual: Seq<char> },
}

impl Failure {
    pub open spec fn kind(self) -> ErrorKind {
        match self {
            Failure::ZeroChunkSize => ErrorKind::Configuration,
            Failure::TooManyChunks { .. } => ErrorKind::Configuration,
            Failure::EncryptionFailed { .. } => ErrorKind::Configuration,
            Failure::CompressionFailed { .. } => ErrorKind::Io,
            Failure::MalformedSession => ErrorKind::Precondition,
            Failure::SessionNotSealed => ErrorKind::Precondition,
            Failure::SessionSealed => ErrorKind::Precondition,
            Failure::ResumeMismatch { .. } => ErrorKind::Precondition,
            Failure::UnexpectedEvent => ErrorKind::Precondition,
            Failure::ShortRead { .. } => ErrorKind::Integrity,
            Failure::ProcessedHashMismatch { .. } => ErrorKind::Integrity,
            Failure::AuthenticationFailed { .. } => ErrorKind::Integrity,
            Failure::DecompressionFailed { .. } => ErrorKind::Integrity,
            Failure::OriginalSizeMismatch { .. } => ErrorKind::Integrity,
            Failure::OriginalHashMismatch { .. } => ErrorKind::Integrity,
            Failure::WholeObjectHashMismatch { .. } => ErrorKind::Integrity,
        }
    }

    /// The index of the chunk that the failure is about, if it is about one.
    pub open spec fn chunk(self) -> Option<nat> {
        match self {
            Failure::EncryptionFailed { index } => Some(index),
            Failure::CompressionFailed { index } => Some(index),
            Failure::ResumeMismatch { index } => Some(index),
            Failure::ShortRead { index, .. } => Some(index),
            Failure::ProcessedHashMismatch { index, .. } => Some(index),
            Failure::AuthenticationFailed { index } => Some(index),
            Failure::DecompressionFailed { index } => Some(index),
            Failure::OriginalSizeMismatch { index, .. } => Some(index),
            Failure::OriginalHashMismatch { index, .. } => Some(index),
            _ => None,
        }
    }
}

impl View for TransferError {
    type V = Failure;

    open spec fn view(&self) -> Failure {
        match *self {
            TransferError::ZeroChunkSize => Failure::ZeroChunkSize,
            TransferError::TooManyChunks { chunks, limit } => Failure::TooManyChunks {
                chunks: chunks as nat,
                limit: limit as nat,
            },
            TransferError::EncryptionFailed { index } => Failure::EncryptionFailed {
                index: index as nat,
            },
            TransferError::CompressionFailed { index } => Failure::CompressionFailed {
                index: index as nat,
            },
            TransferError::MalformedSession => Failure::MalformedSession,
            TransferError::SessionNotSealed => Failure::SessionNotSealed,
            TransferError::SessionSealed => Failure::SessionSealed,
            TransferError::ResumeMismatch { index } => Failure::ResumeMismatch {
                index: index as nat,
            },
            TransferError::UnexpectedEvent => Failure::UnexpectedEvent,
            TransferError::ShortRead { index, expected_size, actual_size } => Failure::ShortRead {
                index: index as nat,
                expected_size: expected_size as nat,
                actual_size: actual_size as nat,
            },
            TransferError::ProcessedHashMismatch { index, expected, actual } => {
                Failure::ProcessedHashMismatch {
                    index: index as nat,
                    expected: expected@,
                    actual: actual@,
                }
            },
            TransferError::AuthenticationFailed { index } => Failure::AuthenticationFailed {
                index: index as nat,
            },
            TransferError::DecompressionFailed { index } => Failure::DecompressionFailed {
                index: index as nat,
            },
            TransferError::OriginalSizeMismatch { index, expected_size, actual_size } => {
                Failure::OriginalSizeMismatch {
                    index: index as nat,
                    expected_size: expected_size as nat,
                    actual_size: actual_size as nat,
                }
            },
            TransferError::OriginalHashMismatch { index, expected, actual } => {
                Failure::OriginalHashMismatch {
                    index: index as nat,
                    expected: expected@,
                    actual: actual@,
                }
            },
            TransferError::WholeObjectHashMismatch { expected, actual } => {
                Failure::WholeObjectHashMismatch { expected: expected@, actual: actual@ }
            },
        }
    }
}

impl TransferError {
    /// The kind of this failure.
    pub fn kind(&self) -> (k: ErrorKind)
        ensures
            k == self@.kind(),
    {
        match self {
            TransferError::ZeroChunkSize => ErrorKind::Configuration,
            TransferError::TooManyChunks { .. } => ErrorKind::Configuration,
            TransferError::EncryptionFailed { .. } => ErrorKind::Configuration,
            TransferError::CompressionFailed { .. } => ErrorKind::Io,
            TransferError::MalformedSession => ErrorKind::Precondition,
            TransferError::SessionNotSealed => ErrorKind::Precondition,
            TransferError::SessionSealed => ErrorKind::Precondition,
            TransferError::ResumeMismatch { .. } => ErrorKind::Precondition,
            TransferError::UnexpectedEvent => ErrorKind::Precondition,
            TransferError::ShortRead { .. } => ErrorKind::Integrity,
            TransferError::ProcessedHashMismatch { .. } => ErrorKind::Integrity,
            TransferError::AuthenticationFailed { .. } => ErrorKind::Integrity,
            TransferError::DecompressionFailed { .. } => ErrorKind::Integrity,
            TransferError::OriginalSizeMismatch { .. } => ErrorKind::Integrity,
            TransferError::OriginalHashMismatch { .. } => ErrorKind::Integrity,
            TransferError::WholeObjectHashMismatch { .. } => ErrorKind::Integrity,
        }
    }

    /// The 1-based index of the chunk that this failure is about, if any.
    pub fn chunk(&self) -> (r: Option<usize>)
        ensures
            match r {
                Some(index) => self@.chunk() == Some(index as nat),
                None => self@.chunk() is None,
            },
    {
        match self {
            TransferError::EncryptionFailed { index } => Some(*index),
            TransferError::CompressionFailed { index } => Some(*index),
            TransferError::ResumeMismatch { index } => Some(*index),
            TransferError::ShortRead { index, .. } => Some(*index),
            TransferError::ProcessedHashMismatch { index, .. } => Some(*index),
            TransferError::AuthenticationFailed { index } => Some(*index),
            TransferError::DecompressionFailed { index } => Some(*index),
            TransferError::OriginalSizeMismatch { index, .. } => Some(*index),
            TransferError::OriginalHashMismatch { index, .. } => Some(*index),
            _ => None,
        }
    }
}

} // verus!
