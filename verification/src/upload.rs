//! The upload orchestrator as a state machine: it is handed what the outside
//! world did (an event) and answers with what to do next (an action). The
//! caller performs the action against the file, the backend or the session
//! store and reports back.

use vstd::prelude::*;
use vstd::string::StringExecFns;

use crate::chunking::{
    chunk_at, chunk_count, count_chunks, lemma_append_window, lemma_empty_source,
    lemma_prefix_window, lemma_whole_windows, lemma_window_len, window_len,
};
use crate::cipher::{KEY_LEN, SEAL_OVERHEAD};
use crate::config::{Backup, PartView, SessionView, UploadPart, MAX_CHUNKS};
use crate::encoding::hex_string;
use crate::error::{Failure, TransferError};
use crate::hashing::{sha256, RunningHash};
use crate::transform::{forward_transform, packed, sent_as};

verus! {

/// Where an upload stands: which answer it is waiting for.
#[derive(Clone, Copy, Debug, PartialEq, Eq, Structural)]
pub enum UploadPhase {
    /// The backend has been asked for a new session.
    AwaitingSession,
    /// The session is being persisted; the next window is read after that.
    SavingThenRead,
    /// A window of the source is being read.
    Reading,
    /// A part is being sent; its tag is awaited.
    AwaitingTag,
    /// The session is being persisted; finalization is asked after that.
    SavingThenComplete,
    /// The backend has been asked to finalize.
    Completing,
    /// The sealed session is being persisted.
    SavingThenFinish,
    /// Nothing is left to do.
    Done,
}

/// What the caller reports back.
#[derive(Clone, Debug, PartialEq, Eq)]
pub enum UploadEvent {
    /// The backend opened a session; `started` is the time as text.
    SessionCreated { upload_id: String, started: String },
    /// The session record is on durable storage.
    Persisted,
    /// The next window of the source: as many bytes as were asked for, fewer
    /// at the end of the source, none past it.
    ChunkRead { bytes: Vec<u8> },
    /// The backend accepted the part and issued `etag` for it.
    PartUploaded { etag: String },
    /// The backend confirmed finalization; `at` is the time as text.
    Completed { at: String },
}

/// An `UploadEvent` with its texts as character sequences.
pub ghost enum UploadEventView {
    SessionCreated { upload_id: Seq<char>, started: Seq<char> },
    Persisted,
    ChunkRead { bytes: Seq<u8> },
    PartUploaded { etag: Seq<char> },
    Completed { at: Seq<char> },
}

impl View for UploadEvent {
    type V = UploadEventView;

    open spec fn view(&self) -> UploadEventView {
        match *self {
            UploadEvent::SessionCreated { upload_id, started } => UploadEventView::SessionCreated {
                upload_id: upload_id@,
                started: started@,
            },
            UploadEvent::Persisted => UploadEventView::Persisted,
            UploadEvent::ChunkRead { bytes } => UploadEventView::ChunkRead { bytes: bytes@ },
            UploadEvent::PartUploaded { etag } => UploadEventView::PartUploaded { etag: etag@ },
            UploadEvent::Completed { at } => UploadEventView::Completed { at: at@ },
        }
    }
}

/// What the caller is to do next.
#[derive(Clone, Debug, PartialEq, Eq)]
pub enum UploadAction {
    /// Ask the backend for a new session for the object `key`.
    CreateSession { key: String },
    /// Write the session record to durable storage.
    Persist,
    /// Read the next `len` bytes of the source.
    ReadChunk { len: usize },
    /// Send `body` to the backend as part `index` of the session.
    UploadPart { index: usize, body: Vec<u8> },
    /// Ask the backend to finalize the session with these `(index, tag)`
    /// pairs, which are those of the recorded parts in ascending index order.
    Complete { parts: Vec<(usize, String)> },
    /// The upload is complete.
    Finished,
}

/// An `UploadAction` with its texts as character sequences.
pub ghost enum UploadActionView {
    CreateSession { key: Seq<char> },
    Persist,
    ReadChunk { len: nat },
    UploadPart { index: nat, body: Seq<u8> },
    Complete { parts: Seq<(nat, Seq<char>)> },
    Finished,
}

impl View for UploadAction {
    type V = UploadActionView;

    open spec fn view(&self) -> UploadActionView {
        match *self {
            UploadAction::CreateSession { key } => UploadActionView::CreateSession { key: key@ },
            UploadAction::Persist => UploadActionView::Persist,
            UploadAction::ReadChunk { len } => UploadActionView::ReadChunk { len: len as nat },
            UploadAction::UploadPart { index, body } => UploadActionView::UploadPart {
                index: index as nat,
                body: body@,
            },
            UploadAction::Complete { parts } => UploadActionView::Complete {
                parts: Seq::new(parts@.len(), |i: int| (parts@[i].0 as nat, parts@[i].1@)),
            },
            UploadAction::Finished => UploadActionView::Finished,
        }
    }
}

/// The outcome of a step with its texts as character sequences.
pub open spec fn outcome_view(r: Result<UploadAction, TransferError>) -> Result<
    UploadActionView,
    Failure,
> {
    match r {
        Ok(action) => Ok(action@),
        Err(e) => Err(e@),
    }
}

/// Whether `part` records chunk `i` (from 0) of `source`: its index, its
/// length and hash, the length of what was sent for it and, where nothing
/// random went into that, its hash too.
pub open spec fn records(
    part: PartView,
    i: nat,
    source: Seq<u8>,
    c: nat,
    compression: bool,
    encryption: bool,
) -> bool {
    let chunk = chunk_at(source, c, i);
    &&& part.idx == i + 1
    &&& part.original_size == chunk.len()
    &&& part.original_sha256 == hex_string(sha256(chunk))
    &&& part.processed_size == packed(chunk, compression).len() + if encryption {
        SEAL_OVERHEAD as nat
    } else {
        0
    }
    &&& !encryption ==> part.processed_sha256 == hex_string(sha256(packed(chunk, compression)))
}

/// Whether two parts agree in all that the source and the settings determine:
/// everything but the backend's tag and, under encryption, the hash of the
/// sealed bytes.
pub open spec fn same_record(a: PartView, b: PartView, encryption: bool) -> bool {
    &&& a.idx == b.idx
    &&& a.original_size == b.original_size
    &&& a.original_sha256 == b.original_sha256
    &&& a.processed_size == b.processed_size
    &&& !encryption ==> a.processed_sha256 == b.processed_sha256
}

/// The state of an upload.
pub ghost struct UploadModel {
    /// The session record as it stands.
    pub session: SessionView,
    /// The bytes of the source read so far.
    pub source: Seq<u8>,
    /// The encryption key.
    pub key: Seq<u8>,
    /// How many parts the session held when this run began.
    pub resumed: nat,
    /// Whether the end of the source has been seen.
    pub ended: bool,
    /// The part that is being sent, without its tag.
    pub pending: Option<PartView>,
    pub phase: UploadPhase,
}

impl UploadModel {
    /// The number of windows read so far.
    pub open spec fn windows(self) -> nat {
        chunk_count(self.source.len(), self.session.chunk_size)
    }

    /// Whether `part` records chunk `i` of what has been read.
    pub open spec fn recorded(self, part: PartView, i: nat) -> bool {
        records(
            part,
            i,
            self.source,
            self.session.chunk_size,
            self.session.compression_enabled,
            self.session.encryption_enabled,
        )
    }

    /// What holds of every state that an upload reaches.
    pub open spec fn inv(self) -> bool {
        let c = self.session.chunk_size;
        let w = self.windows();
        let n = self.session.parts.len();
        &&& self.session.wf()
        &&& self.resumed <= n
        &&& !self.ended ==> self.source.len() % c == 0
        &&& forall|i: nat|
            self.resumed <= i < n ==> self.recorded(#[trigger] self.session.parts[i as int], i)
        &&& forall|i: nat|
            i < n && i < w ==> (#[trigger] self.session.parts[i as int]).original_size == chunk_at(
                self.source,
                c,
                i,
            ).len()
        &&& forall|i: nat|
            i + 1 < n ==> (#[trigger] self.session.parts[i as int]).original_size == c
        &&& match self.phase {
            UploadPhase::AwaitingSession => {
                &&& n == 0
                &&& self.source.len() == 0
                &&& !self.ended
                &&& self.pending is None
                &&& !self.session.done
            },
            UploadPhase::SavingThenRead | UploadPhase::Reading => {
                &&& !self.ended
                &&& self.pending is None
                &&& !self.session.done
                &&& n == if self.resumed <= w {
                    w
                } else {
                    self.resumed
                }
            },
            UploadPhase::AwaitingTag => {
                &&& self.pending matches Some(part)
                &&& self.recorded(part, n)
                &&& n + 1 == w
                &&& self.resumed <= n
                &&& n < MAX_CHUNKS
                &&& !self.session.done
            },
            UploadPhase::SavingThenComplete | UploadPhase::Completing => {
                &&& self.ended
                &&& self.pending is None
                &&& !self.session.done
                &&& n == w
            },
            UploadPhase::SavingThenFinish | UploadPhase::Done => {
                &&& self.ended
                &&& self.pending is None
                &&& self.session.done
                &&& self.session.sha256 == hex_string(sha256(self.source))
                &&& n == w
            },
        }
    }

    /// The state in which a new upload starts.
    pub open spec fn fresh(
        file_name: Seq<char>,
        prefix: Seq<char>,
        chunk_size: nat,
        compression: bool,
        encryption: bool,
        key: Seq<u8>,
    ) -> UploadModel {
        UploadModel {
            session: SessionView {
                name: prefix + file_name,
                prefix,
                chunk_size,
                upload_id: Seq::empty(),
                parts: Seq::empty(),
                done: false,
                started: Seq::empty(),
                completed: Seq::empty(),
                sha256: Seq::empty(),
                compression_enabled: compression,
                encryption_enabled: encryption,
            },
            source: Seq::empty(),
            key,
            resumed: 0,
            ended: false,
            pending: None,
            phase: UploadPhase::AwaitingSession,
        }
    }

    /// The state in which an upload of a session found on storage starts.
    pub open spec fn resuming(session: SessionView, key: Seq<u8>) -> UploadModel {
        UploadModel {
            session,
            source: Seq::empty(),
            key,
            resumed: session.parts.len(),
            ended: false,
            pending: None,
            phase: UploadPhase::Reading,
        }
    }
}

/// Whether a part recorded for chunk `i` can be a chunk of a source of `size`
/// bytes at chunk size `c`.
pub open spec fn fits(part: PartView, i: nat, size: nat, c: nat) -> bool {
    window_len(size, c, i) > 0 && part.original_size == window_len(size, c, i)
}

/// The `(index, tag)` pairs of a run of parts, in order.
pub open spec fn tags_of(parts: Seq<PartView>) -> Seq<(nat, Seq<char>)> {
    Seq::new(parts.len(), |i: int| (parts[i].idx, parts[i].etag))
}

/// A step that is refused leaves the state as it was.
pub open spec fn refused(
    pre: UploadModel,
    post: UploadModel,
    outcome: Result<UploadActionView, Failure>,
    failure: Failure,
) -> bool {
    post == pre && outcome == Err::<UploadActionView, Failure>(failure)
}

/// A step that is taken.
pub open spec fn taken(
    post: UploadModel,
    outcome: Result<UploadActionView, Failure>,
    next: UploadModel,
    action: UploadActionView,
) -> bool {
    post == next && outcome == Ok::<UploadActionView, Failure>(action)
}

/// The backend opened a session: its identifier and the start time are
/// recorded, and the record is persisted before any chunk work.
pub open spec fn on_session_created(
    pre: UploadModel,
    upload_id: Seq<char>,
    started: Seq<char>,
    post: UploadModel,
    outcome: Result<UploadActionView, Failure>,
) -> bool {
    if pre.phase == UploadPhase::AwaitingSession {
        taken(
            post,
            outcome,
            UploadModel {
                session: SessionView { upload_id, started, ..pre.session },
                phase: UploadPhase::SavingThenRead,
                ..pre
            },
            UploadActionView::Persist,
        )
    } else {
        refused(pre, post, outcome, Failure::UnexpectedEvent)
    }
}

/// The record is on storage: go on with what it was persisted before.
pub open spec fn on_persisted(
    pre: UploadModel,
    post: UploadModel,
    outcome: Result<UploadActionView, Failure>,
) -> bool {
    match pre.phase {
        UploadPhase::SavingThenRead => taken(
            post,
            outcome,
            UploadModel { phase: UploadPhase::Reading, ..pre },
            UploadActionView::ReadChunk { len: pre.session.chunk_size },
        ),
        UploadPhase::SavingThenComplete => taken(
            post,
            outcome,
            UploadModel { phase: UploadPhase::Completing, ..pre },
            UploadActionView::Complete { parts: tags_of(pre.session.parts) },
        ),
        UploadPhase::SavingThenFinish => taken(
            post,
            outcome,
            UploadModel { phase: UploadPhase::Done, ..pre },
            UploadActionView::Finished,
        ),
        _ => refused(pre, post, outcome, Failure::UnexpectedEvent),
    }
}

/// A window of the source was read. Every window goes into the whole-object
/// hash. One whose part is already recorded is not sent again; a new one is
/// transformed and sent. A short or empty window ends the source.
pub open spec fn on_chunk_read(
    pre: UploadModel,
    bytes: Seq<u8>,
    post: UploadModel,
    outcome: Result<UploadActionView, Failure>,
) -> bool {
    let c = pre.session.chunk_size;
    let w = pre.windows();
    let n = pre.session.parts.len();
    let last = bytes.len() < c;
    let read = UploadModel { source: pre.source + bytes, ended: last, ..pre };
    if pre.phase != UploadPhase::Reading || bytes.len() > c {
        refused(pre, post, outcome, Failure::UnexpectedEvent)
    } else if bytes.len() == 0 {
        if w < n {
            refused(pre, post, outcome, Failure::ResumeMismatch { index: w + 1 })
        } else {
            taken(
                post,
                outcome,
                UploadModel { phase: UploadPhase::Completing, ..read },
                UploadActionView::Complete { parts: tags_of(pre.session.parts) },
            )
        }
    } else if w < n {
        if pre.session.parts[w as int].original_size != bytes.len() {
            refused(pre, post, outcome, Failure::ResumeMismatch { index: w + 1 })
        } else if last {
            taken(
                post,
                outcome,
                UploadModel { phase: UploadPhase::Completing, ..read },
                UploadActionView::Complete { parts: tags_of(pre.session.parts) },
            )
        } else {
            taken(post, outcome, read, UploadActionView::ReadChunk { len: c })
        }
    } else if n >= MAX_CHUNKS {
        refused(
            pre,
            post,
            outcome,
            Failure::TooManyChunks { chunks: n + 1, limit: MAX_CHUNKS as nat },
        )
    } else {
        on_new_chunk(pre, bytes, post, outcome)
    }
}

/// A window that no part records yet: it is transformed, and either that
/// fails, or the part is described and its bytes are handed out to be sent.
/// Under encryption the bytes are not determined by the window.
pub open spec fn on_new_chunk(
    pre: UploadModel,
    bytes: Seq<u8>,
    post: UploadModel,
    outcome: Result<UploadActionView, Failure>,
) -> bool {
    let index = pre.session.parts.len() + 1;
    let compression = pre.session.compression_enabled;
    let encryption = pre.session.encryption_enabled;
    match outcome {
        Err(failure) => {
            &&& post == pre
            &&& (compression && failure == Failure::CompressionFailed { index }) || (encryption
                && failure == Failure::EncryptionFailed { index })
        },
        Ok(UploadActionView::UploadPart { index: sent, body }) => {
            &&& sent == index
            &&& !(encryption && pre.key.len() != KEY_LEN)
            &&& post.pending matches Some(part)
            &&& part.idx == index
            &&& part.etag.len() == 0
            &&& sent_as(part, body, bytes, compression, encryption, pre.key)
            &&& post == UploadModel {
                source: pre.source + bytes,
                ended: bytes.len() < pre.session.chunk_size,
                pending: post.pending,
                phase: UploadPhase::AwaitingTag,
                ..pre
            }
        },
        Ok(_) => false,
    }
}

/// The backend accepted the part: it is appended to the session under the
/// tag, and the record is persisted before anything else is done.
pub open spec fn on_part_uploaded(
    pre: UploadModel,
    etag: Seq<char>,
    post: UploadModel,
    outcome: Result<UploadActionView, Failure>,
) -> bool {
    if pre.phase == UploadPhase::AwaitingTag && pre.pending is Some {
        taken(
            post,
            outcome,
            UploadModel {
                session: SessionView {
                    parts: pre.session.parts.push(PartView { etag, ..pre.pending.unwrap() }),
                    ..pre.session
                },
                pending: None,
                phase: if pre.ended {
                    UploadPhase::SavingThenComplete
                } else {
                    UploadPhase::SavingThenRead
                },
                ..pre
            },
            UploadActionView::Persist,
        )
    } else {
        refused(pre, post, outcome, Failure::UnexpectedEvent)
    }
}

/// The backend confirmed finalization: the session is sealed with the hash
/// of the whole source and the time, and the sealed record is persisted.
pub open spec fn on_completed(
    pre: UploadModel,
    at: Seq<char>,
    post: UploadModel,
    outcome: Result<UploadActionView, Failure>,
) -> bool {
    if pre.phase == UploadPhase::Completing {
        &&& sha256(pre.source).len() == 32
        &&& taken(
            post,
            outcome,
            UploadModel {
                session: SessionView {
                    done: true,
                    completed: at,
                    sha256: hex_string(sha256(pre.source)),
                    ..pre.session
                },
                phase: UploadPhase::SavingThenFinish,
                ..pre
            },
            UploadActionView::Persist,
        )
    } else {
        refused(pre, post, outcome, Failure::UnexpectedEvent)
    }
}

/// The transition relation of an upload: from the state `pre`, the event
/// leads to the state `post` with `outcome`.
pub open spec fn upload_step(
    pre: UploadModel,
    event: UploadEventView,
    post: UploadModel,
    outcome: Result<UploadActionView, Failure>,
) -> bool {
    match event {
        UploadEventView::SessionCreated { upload_id, started } => on_session_created(
            pre,
            upload_id,
            started,
            post,
            outcome,
        ),
        UploadEventView::Persisted => on_persisted(pre, post, outcome),
        UploadEventView::ChunkRead { bytes } => on_chunk_read(pre, bytes, post, outcome),
        UploadEventView::PartUploaded { etag } => on_part_uploaded(pre, etag, post, outcome),
        UploadEventView::Completed { at } => on_completed(pre, at, post, outcome),
    }
}

/// Every step keeps the invariant.
pub proof fn lemma_step_keeps_inv(
    pre: UploadModel,
    event: UploadEventView,
    post: UploadModel,
    outcome: Result<UploadActionView, Failure>,
)
    requires
        pre.inv(),
        upload_step(pre, event, post, outcome),
    ensures
        post.inv(),
{
    let c = pre.session.chunk_size;
    let w = pre.windows();
    let n = pre.session.parts.len();
    match event {
        UploadEventView::ChunkRead { bytes } => {
            if post != pre {
                if bytes.len() == 0 {
                    assert(pre.source + bytes =~= pre.source);
                } else {
                    lemma_append_window(pre.source, c, bytes);
                    assert forall|i: nat| i < post.session.parts.len() && i < post.windows() implies (
                    #[trigger] post.session.parts[i as int]).original_size == chunk_at(
                        post.source,
                        c,
                        i,
                    ).len() by {
                        if i < w {
                            assert(chunk_at(post.source, c, i) == chunk_at(pre.source, c, i));
                        }
                    }
                    assert forall|i: nat| post.resumed <= i < post.session.parts.len() implies post.recorded(
                        #[trigger] post.session.parts[i as int],
                        i,
                    ) by {
                        assert(pre.recorded(pre.session.parts[i as int], i));
                        assert(chunk_at(post.source, c, i) == chunk_at(pre.source, c, i));
                    }
                }
            }
        },
        UploadEventView::PartUploaded { etag } => {
            if post != pre {
                let part = PartView { etag, ..pre.pending.unwrap() };
                assert(post.session.parts == pre.session.parts.push(part));
                assert forall|i: int| 0 <= i < post.session.parts.len() implies (
                #[trigger] post.session.parts[i]).idx == i + 1 by {
                    if i < n {
                        assert(post.session.parts[i] == pre.session.parts[i]);
                    }
                }
                assert forall|i: nat| post.resumed <= i < post.session.parts.len() implies post.recorded(
                    #[trigger] post.session.parts[i as int],
                    i,
                ) by {
                    if i < n {
                        assert(post.session.parts[i as int] == pre.session.parts[i as int]);
                        assert(pre.recorded(pre.session.parts[i as int], i));
                    }
                }
                assert forall|i: nat| i < post.session.parts.len() && i < post.windows() implies (
                #[trigger] post.session.parts[i as int]).original_size == chunk_at(
                    post.source,
                    c,
                    i,
                ).len() by {
                    if i < n {
                        assert(post.session.parts[i as int] == pre.session.parts[i as int]);
                    }
                }
                assert forall|i: nat| i + 1 < post.session.parts.len() implies (
                #[trigger] post.session.parts[i as int]).original_size == c by {
                    assert(post.session.parts[i as int] == pre.session.parts[i as int]);
                    if i + 1 == n {
                        lemma_window_len(pre.source.len(), c, i);
                    }
                }
            }
        },
        UploadEventView::Completed { at } => {
            crate::encoding::lemma_hex_string_len(sha256(pre.source));
            if post != pre {
                assert(post.session.sha256.len() == 2 * sha256(pre.source).len());
            }
        },
        _ => {},
    }
}

/// Whether the part at `k` is the first that cannot be a chunk of a source of
/// `size` bytes at chunk size `c`.
pub open spec fn first_misfit(parts: Seq<PartView>, size: nat, c: nat, k: nat) -> bool {
    &&& k < parts.len()
    &&& !fits(parts[k as int], k, size, c)
    &&& forall|j: nat| j < k ==> fits(#[trigger] parts[j as int], j, size, c)
}

/// Whether the parts tile the front of a source of `size` bytes at chunk size `c`.
pub open spec fn tiles(parts: Seq<PartView>, size: nat, c: nat) -> bool {
    forall|j: nat| j < parts.len() ==> fits(#[trigger] parts[j as int], j, size, c)
}

/// Of parts that tile a source, all but the last are a full chunk long.
proof fn lemma_tiles_full(parts: Seq<PartView>, size: nat, c: nat)
    requires
        c > 0,
        tiles(parts, size, c),
    ensures
        forall|i: nat| i + 1 < parts.len() ==> (#[trigger] parts[i as int]).original_size == c,
{
    assert forall|i: nat| i + 1 < parts.len() implies (#[trigger] parts[i as int]).original_size
        == c by {
        assert(fits(parts[i as int], i, size, c));
        assert(fits(parts[(i + 1) as int], (i + 1) as nat, size, c));
        assert((i + 1) * c == i * c + c) by (nonlinear_arith);
    }
}

/// How an upload begins. Without a session on storage, a new one is asked of
/// the backend, unless the source needs more chunks than a session may hold.
/// With one, its chunk size and settings are used, whatever the caller asked
/// for, and the upload goes straight to reading, unless the record is
/// malformed or sealed, or the source has too many chunks at its chunk size,
/// or its parts do not tile the source.
pub open spec fn begin_spec(
    existing: Option<SessionView>,
    file_name: Seq<char>,
    prefix: Seq<char>,
    source_size: nat,
    chunk_size: nat,
    compression: bool,
    encryption: bool,
    key: Seq<u8>,
    outcome: Result<(UploadModel, UploadActionView), Failure>,
) -> bool {
    match existing {
        None => outcome == if chunk_size == 0 {
            Err::<(UploadModel, UploadActionView), Failure>(Failure::ZeroChunkSize)
        } else if chunk_count(source_size, chunk_size) > MAX_CHUNKS {
            Err(
                Failure::TooManyChunks {
                    chunks: chunk_count(source_size, chunk_size),
                    limit: MAX_CHUNKS as nat,
                },
            )
        } else {
            Ok(
                (
                    UploadModel::fresh(file_name, prefix, chunk_size, compression, encryption, key),
                    UploadActionView::CreateSession { key: prefix + file_name },
                ),
            )
        },
        Some(session) => if !session.wf() {
            outcome == Err::<(UploadModel, UploadActionView), Failure>(Failure::MalformedSession)
        } else if session.done {
            outcome == Err::<(UploadModel, UploadActionView), Failure>(Failure::SessionSealed)
        } else if chunk_count(source_size, session.chunk_size) > MAX_CHUNKS {
            outcome == Err::<(UploadModel, UploadActionView), Failure>(
                Failure::TooManyChunks {
                    chunks: chunk_count(source_size, session.chunk_size),
                    limit: MAX_CHUNKS as nat,
                },
            )
        } else if tiles(session.parts, source_size, session.chunk_size) {
            outcome == Ok::<(UploadModel, UploadActionView), Failure>(
                (
                    UploadModel::resuming(session, key),
                    UploadActionView::ReadChunk { len: session.chunk_size },
                ),
            )
        } else {
            outcome matches Err(Failure::ResumeMismatch { index }) && index >= 1 && first_misfit(
                session.parts,
                source_size,
                session.chunk_size,
                (index - 1) as nat,
            )
        },
    }
}

/// The first part of `session` that does not fit a source of `source_size`
/// bytes, as a 1-based index; `None` where the parts tile the source.
fn find_misfit(session: &Backup, source_size: u64) -> (r: Option<usize>)
    requires
        session@.wf(),
    ensures
        match r {
            None => tiles(session@.parts, source_size as nat, session@.chunk_size),
            Some(index) => index >= 1 && first_misfit(
                session@.parts,
                source_size as nat,
                session@.chunk_size,
                (index - 1) as nat,
            ),
        },
{
    let c = session.chunk_size as u128;
    let size = source_size as u128;
    let mut offset: u128 = 0;
    let mut i: usize = 0;
    while i < session.parts.len()
        invariant
            i <= session.parts.len(),
            session@.wf(),
            c == session@.chunk_size,
            size == source_size,
            offset == i * c,
            offset <= size + c,
            forall|j: nat|
                j < i ==> fits(
                    #[trigger] session@.parts[j as int],
                    j,
                    source_size as nat,
                    session@.chunk_size,
                ),
        decreases session.parts.len() - i,
    {
        if offset >= size {
            return Some(i + 1);
        }
        let rest = size - offset;
        let expected = if rest < c {
            rest
        } else {
            c
        };
        if session.parts[i].original_size as u128 != expected {
            assert(session@.parts[i as int].original_size != window_len(
                source_size as nat,
                session@.chunk_size,
                i as nat,
            ));
            return Some(i + 1);
        }
        assert((i + 1) * c == i * c + c) by (nonlinear_arith);
        offset = offset + c;
        i += 1;
    }
    None
}

/// An upload in progress.
#[derive(Debug)]
pub struct Uploader {
    session: Backup,
    hasher: RunningHash,
    key: Vec<u8>,
    resumed: usize,
    windows: usize,
    ended: bool,
    pending: Option<UploadPart>,
    phase: UploadPhase,
}

impl View for Uploader {
    type V = UploadModel;

    closed spec fn view(&self) -> UploadModel {
        UploadModel {
            session: self.session@,
            source: self.hasher@,
            key: self.key@,
            resumed: self.resumed as nat,
            ended: self.ended,
            pending: match self.pending {
                Some(part) => Some(part@),
                None => None,
            },
            phase: self.phase,
        }
    }
}

impl Uploader {
    /// What holds of every uploader that `begin` made and `step` moved.
    pub closed spec fn inv(&self) -> bool {
        self@.inv() && self.windows == self@.windows()
    }

    /// Begins the upload of a source of `source_size` bytes named `file_name`.
    /// `existing` is the session found on storage for it, if there is one.
    pub fn begin(
        file_name: &str,
        prefix: &str,
        source_size: u64,
        chunk_size: usize,
        compression: bool,
        encryption: bool,
        key: Vec<u8>,
        existing: Option<Backup>,
    ) -> (r: Result<(Uploader, UploadAction), TransferError>)
        ensures
            begin_spec(
                match existing {
                    Some(session) => Some(session@),
                    None => None,
                },
                file_name@,
                prefix@,
                source_size as nat,
                chunk_size as nat,
                compression,
                encryption,
                key@,
                match r {
                    Ok((uploader, action)) => Ok((uploader@, action@)),
                    Err(e) => Err(e@),
                },
            ),
            r matches Ok((uploader, _)) ==> uploader.inv(),
    {
        match existing {
            None => {
                count_chunks(source_size, chunk_size)?;
                let name = prefix.to_owned().concat(file_name);
                let target = name.clone();
                let uploader = Uploader {
                    session: Backup {
                        name,
                        prefix: prefix.to_owned(),
                        chunk_size,
                        upload_id: String::new(),
                        parts: Vec::new(),
                        done: false,
                        started: String::new(),
                        completed: String::new(),
                        sha256: String::new(),
                        compression_enabled: compression,
                        encryption_enabled: encryption,
                    },
                    hasher: RunningHash::new(),
                    key,
                    resumed: 0,
                    windows: 0,
                    ended: false,
                    pending: None,
                    phase: UploadPhase::AwaitingSession,
                };
                proof {
                    lemma_empty_source(chunk_size as nat);
                    assert(uploader@.session.parts =~= Seq::<PartView>::empty());
                    assert(uploader@ == UploadModel::fresh(
                        file_name@,
                        prefix@,
                        chunk_size as nat,
                        compression,
                        encryption,
                        key@,
                    ));
                }
                Ok((uploader, UploadAction::CreateSession { key: target }))
            },
            Some(session) => {
                if !session.is_well_formed() {
                    return Err(TransferError::MalformedSession);
                }
                if session.done {
                    return Err(TransferError::SessionSealed);
                }
                count_chunks(source_size, session.chunk_size)?;
                match find_misfit(&session, source_size) {
                    Some(index) => Err(TransferError::ResumeMismatch { index }),
                    None => {
                        let len = session.chunk_size;
                        let resumed = session.parts.len();
                        let uploader = Uploader {
                            session,
                            hasher: RunningHash::new(),
                            key,
                            resumed,
                            windows: 0,
                            ended: false,
                            pending: None,
                            phase: UploadPhase::Reading,
                        };
                        proof {
                            lemma_empty_source(len as nat);
                            lemma_tiles_full(
                                uploader@.session.parts,
                                source_size as nat,
                                len as nat,
                            );
                        }
                        Ok((uploader, UploadAction::ReadChunk { len }))
                    },
                }
            },
        }
    }

    /// The session record as it stands: what `Persist` is to write.
    pub fn session(&self) -> (session: &Backup)
        ensures
            session@ == self@.session,
    {
        &self.session
    }

    /// Which answer the upload is waiting for.
    pub fn phase(&self) -> (phase: UploadPhase)
        ensures
            phase == self@.phase,
    {
        self.phase
    }

    /// Gives up the uploader for its session record.
    pub fn into_session(self) -> (session: Backup)
        ensures
            session@ == self@.session,
    {
        self.session
    }

    /// Takes one event and says what to do next.
    ///
    /// A refusal leaves the upload as it was. The recorded session stays
    /// valid throughout, so that a run that ends early can be resumed.
    pub fn step(&mut self, event: UploadEvent) -> (r: Result<UploadAction, TransferError>)
        requires
            old(self).inv(),
        ensures
            final(self).inv(),
            upload_step(old(self)@, event@, final(self)@, outcome_view(r)),
    {
        let ghost shown = event@;
        let r = match event {
            UploadEvent::SessionCreated { upload_id, started } => self.session_created(
                upload_id,
                started,
            ),
            UploadEvent::Persisted => self.persisted(),
            UploadEvent::ChunkRead { bytes } => self.chunk_read(bytes),
            UploadEvent::PartUploaded { etag } => self.part_uploaded(etag),
            UploadEvent::Completed { at } => self.completed(at),
        };
        proof {
            lemma_step_keeps_inv(old(self)@, shown, self@, outcome_view(r));
        }
        r
    }

    /// The request to finalize the session as it stands.
    fn finalization(&self) -> (action: UploadAction)
        ensures
            action@ == (UploadActionView::Complete { parts: tags_of(self@.session.parts) }),
    {
        let parts = self.session.completed_parts();
        let action = UploadAction::Complete { parts };
        assert(action@->Complete_parts =~= tags_of(self@.session.parts));
        action
    }

    fn session_created(&mut self, upload_id: String, started: String) -> (r: Result<
        UploadAction,
        TransferError,
    >)
        requires
            old(self).inv(),
        ensures
            on_session_created(old(self)@, upload_id@, started@, final(self)@, outcome_view(r)),
            final(self).windows == final(self)@.windows(),
    {
        match self.phase {
            UploadPhase::AwaitingSession => {
                self.session.upload_id = upload_id;
                self.session.started = started;
                self.phase = UploadPhase::SavingThenRead;
                Ok(UploadAction::Persist)
            },
            _ => Err(TransferError::UnexpectedEvent),
        }
    }

    fn persisted(&mut self) -> (r: Result<UploadAction, TransferError>)
        requires
            old(self).inv(),
        ensures
            on_persisted(old(self)@, final(self)@, outcome_view(r)),
            final(self).windows == final(self)@.windows(),
    {
        match self.phase {
            UploadPhase::SavingThenRead => {
                self.phase = UploadPhase::Reading;
                Ok(UploadAction::ReadChunk { len: self.session.chunk_size })
            },
            UploadPhase::SavingThenComplete => {
                self.phase = UploadPhase::Completing;
                Ok(self.finalization())
            },
            UploadPhase::SavingThenFinish => {
                self.phase = UploadPhase::Done;
                Ok(UploadAction::Finished)
            },
            _ => Err(TransferError::UnexpectedEvent),
        }
    }

    fn chunk_read(&mut self, bytes: Vec<u8>) -> (r: Result<UploadAction, TransferError>)
        requires
            old(self).inv(),
        ensures
            on_chunk_read(old(self)@, bytes@, final(self)@, outcome_view(r)),
            final(self).windows == final(self)@.windows(),
    {
        let c = self.session.chunk_size;
        let w = self.windows;
        let n = self.session.parts.len();
        match self.phase {
            UploadPhase::Reading => {},
            _ => {
                return Err(TransferError::UnexpectedEvent);
            },
        }
        if bytes.len() > c {
            return Err(TransferError::UnexpectedEvent);
        }
        if bytes.len() == 0 {
            if w < n {
                return Err(TransferError::ResumeMismatch { index: w + 1 });
            }
            self.ended = true;
            self.phase = UploadPhase::Completing;
            assert(old(self)@.source + bytes@ =~= old(self)@.source);
            return Ok(self.finalization());
        }
        let last = bytes.len() < c;
        proof {
            lemma_append_window(old(self)@.source, c as nat, bytes@);
        }
        if w < n {
            if self.session.parts[w].original_size != bytes.len() as u64 {
                return Err(TransferError::ResumeMismatch { index: w + 1 });
            }
            self.hasher.update(bytes.as_slice());
            self.windows = w + 1;
            self.ended = last;
            if last {
                self.phase = UploadPhase::Completing;
                Ok(self.finalization())
            } else {
                Ok(UploadAction::ReadChunk { len: c })
            }
        } else {
            if n as u64 >= MAX_CHUNKS {
                return Err(
                    TransferError::TooManyChunks { chunks: n as u64 + 1, limit: MAX_CHUNKS },
                );
            }
            let index = n + 1;
            let p = forward_transform(
                bytes.as_slice(),
                index,
                self.session.compression_enabled,
                self.session.encryption_enabled,
                self.key.as_slice(),
            )?;
            self.hasher.update(bytes.as_slice());
            self.windows = w + 1;
            self.ended = last;
            self.pending = Some(
                UploadPart {
                    idx: index,
                    etag: String::new(),
                    original_size: p.original_size,
                    processed_size: p.processed_size,
                    original_sha256: p.original_sha256,
                    processed_sha256: p.processed_sha256,
                },
            );
            self.phase = UploadPhase::AwaitingTag;
            Ok(UploadAction::UploadPart { index, body: p.bytes })
        }
    }

    fn part_uploaded(&mut self, etag: String) -> (r: Result<UploadAction, TransferError>)
        requires
            old(self).inv(),
        ensures
            on_part_uploaded(old(self)@, etag@, final(self)@, outcome_view(r)),
            final(self).windows == final(self)@.windows(),
    {
        match self.phase {
            UploadPhase::AwaitingTag => {},
            _ => {
                return Err(TransferError::UnexpectedEvent);
            },
        }
        match self.pending.take() {
            Some(part) => {
                let recorded = UploadPart {
                    idx: part.idx,
                    etag,
                    original_size: part.original_size,
                    processed_size: part.processed_size,
                    original_sha256: part.original_sha256,
                    processed_sha256: part.processed_sha256,
                };
                self.session.parts.push(recorded);
                self.phase = if self.ended {
                    UploadPhase::SavingThenComplete
                } else {
                    UploadPhase::SavingThenRead
                };
                assert(self@.session.parts =~= old(self)@.session.parts.push(
                    PartView { etag: etag@, ..old(self)@.pending.unwrap() },
                ));
                Ok(UploadAction::Persist)
            },
            None => Err(TransferError::UnexpectedEvent),
        }
    }

    fn completed(&mut self, at: String) -> (r: Result<UploadAction, TransferError>)
        requires
            old(self).inv(),
        ensures
            on_completed(old(self)@, at@, final(self)@, outcome_view(r)),
            final(self).windows == final(self)@.windows(),
    {
        match self.phase {
            UploadPhase::Completing => {
                let digest = self.hasher.hex_digest();
                proof {
                    crate::encoding::lemma_hex_string_len(sha256(self.hasher@));
                }
                self.session.sha256 = digest;
                self.session.done = true;
                self.session.completed = at;
                self.phase = UploadPhase::SavingThenFinish;
                Ok(UploadAction::Persist)
            },
            _ => Err(TransferError::UnexpectedEvent),
        }
    }
}

/// What no step does to the session record. The chunk size, the settings and
/// the object key stay as they are; parts are only ever appended, never
/// changed or removed; a sealed record is not touched again; and whenever the
/// record changes, the next thing to do is to persist it. A step that is
/// refused changes nothing.
pub proof fn lemma_step_only_appends(
    pre: UploadModel,
    event: UploadEventView,
    post: UploadModel,
    outcome: Result<UploadActionView, Failure>,
)
    requires
        pre.inv(),
        upload_step(pre, event, post, outcome),
    ensures
        post.session.chunk_size == pre.session.chunk_size,
        post.session.compression_enabled == pre.session.compression_enabled,
        post.session.encryption_enabled == pre.session.encryption_enabled,
        post.session.name == pre.session.name,
        post.session.prefix == pre.session.prefix,
        post.resumed == pre.resumed,
        post.key == pre.key,
        pre.session.parts.is_prefix_of(post.session.parts),
        pre.source.is_prefix_of(post.source),
        pre.session.done ==> post.session == pre.session,
        post.session != pre.session ==> outcome == Ok::<UploadActionView, Failure>(
            UploadActionView::Persist,
        ),
        outcome is Err ==> post == pre,
{
}

/// Order invariant: in a sealed session the part indices are exactly
/// `1, 2, .., N` in order, where `N` is the number of chunks that the source
/// has at the session's chunk size, and the whole-object hash is that of the
/// source.
pub proof fn lemma_sealed_order(m: UploadModel)
    requires
        m.inv(),
        m.session.done,
    ensures
        m.session.parts.len() == chunk_count(m.source.len(), m.session.chunk_size),
        forall|i: int|
            0 <= i < m.session.parts.len() ==> (#[trigger] m.session.parts[i]).idx == i + 1,
        m.session.sha256 == hex_string(sha256(m.source)),
{
}

/// Resumption idempotence: an upload that was cut off and resumed seals a
/// session with the same parts and the same whole-object hash as an upload of
/// the same source, with the same chunk size and settings, that ran through.
///
/// `interrupted` is the first run where it stopped, `resumed` the second run
/// at its end, which began with the parts that the first had recorded and
/// read the same source again from the start, and `fresh` a run that was never
/// cut off. The parts agree in all that the source determines: not in the
/// tags, which the backend issues, nor, under encryption, in the hash of the
/// sealed bytes, which depend on a random nonce.
pub proof fn lemma_resumption_idempotent(
    interrupted: UploadModel,
    resumed: UploadModel,
    fresh: UploadModel,
)
    requires
        interrupted.inv(),
        interrupted.resumed == 0,
        interrupted.source.is_prefix_of(resumed.source),
        interrupted.ended ==> interrupted.source == resumed.source,
        resumed.inv(),
        resumed.phase == UploadPhase::Done,
        resumed.resumed == interrupted.session.parts.len(),
        resumed.session.parts.take(resumed.resumed as int) == interrupted.session.parts,
        resumed.session.chunk_size == interrupted.session.chunk_size,
        resumed.session.compression_enabled == interrupted.session.compression_enabled,
        resumed.session.encryption_enabled == interrupted.session.encryption_enabled,
        fresh.inv(),
        fresh.phase == UploadPhase::Done,
        fresh.resumed == 0,
        fresh.source == resumed.source,
        fresh.session.chunk_size == resumed.session.chunk_size,
        fresh.session.compression_enabled == resumed.session.compression_enabled,
        fresh.session.encryption_enabled == resumed.session.encryption_enabled,
    ensures
        resumed.session.sha256 == fresh.session.sha256,
        resumed.session.parts.len() == fresh.session.parts.len(),
        forall|i: int|
            0 <= i < resumed.session.parts.len() ==> same_record(
                #[trigger] resumed.session.parts[i],
                fresh.session.parts[i],
                resumed.session.encryption_enabled,
            ),
{
    let c = resumed.session.chunk_size;
    assert forall|i: int| 0 <= i < resumed.session.parts.len() implies same_record(
        #[trigger] resumed.session.parts[i],
        fresh.session.parts[i],
        resumed.session.encryption_enabled,
    ) by {
        assert(fresh.recorded(fresh.session.parts[i], i as nat));
        if i < resumed.resumed {
            let part = interrupted.session.parts[i];
            assert(resumed.session.parts.take(resumed.resumed as int)[i] == resumed.session.parts[i]);
            assert(interrupted.recorded(part, i as nat));
            if !interrupted.ended {
                lemma_whole_windows(interrupted.source.len(), c);
                assert((i + 1) * c <= interrupted.windows() * c) by (nonlinear_arith)
                    requires
                        i + 1 <= interrupted.windows(),
                        c > 0,
                ;
                lemma_prefix_window(interrupted.source, resumed.source, c, i as nat);
            }
        } else {
            assert(resumed.recorded(resumed.session.parts[i], i as nat));
        }
    }
}

} // verus!
