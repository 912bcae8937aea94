//! Resumable, integrity-verified transfer of large files to and from an
//! object store.
//!
//! A file is cut into chunks of a fixed size. Each chunk is compressed, then
//! encrypted, and sent as one part of a multi-part session; a record of the
//! session is kept on local storage and rewritten after every part, so that
//! an upload that was cut off goes on where it stopped. A download checks
//! every part against the record, before and after reversing the transform,
//! and the reassembled object against the hash of the whole source.
//!
//! The library decides; it does no input or output. [`upload::Uploader`] and
//! [`download::Downloader`] are state machines: the caller performs the
//! action it is handed (read a window of the file, send a part, persist the
//! record) and reports back what came of it.
//!
//! - [`config`]: the session record with its parts and invariants, and the
//!   named profiles.
//! - [`chunking`]: how a source is cut into chunks.
//! - [`transform`]: the transform of one chunk and its reverse.
//! - [`upload`], [`download`]: the two state machines and what holds of them.
//! - [`error`]: the failures.
//! - [`hashing`], [`encoding`], [`compression`], [`cipher`]: SHA-256, hex,
//!   gzip and XChaCha20-Poly1305, which are not verified here but called
//!   behind contracts that say what is relied on.
//! - [`setup`]: filling in a new profile.

pub mod chunking;
pub mod cipher;
pub mod compression;
pub mod config;
pub mod download;
pub mod encoding;
pub mod error;
pub mod hashing;
pub mod setup;
pub mod transform;
pub mod upload;
