//! The download orchestrator as a state machine: for each part in index
//! order it asks for exactly the recorded number of bytes, reverses the
//! transform, hands the chunk out to be written, and at the end holds the
//! hash of all it handed out against the session's whole-object hash.

use vstd::prelude::*;

use crate::config::{total_original, Backup, PartView, SessionView};
use crate::encoding::hex_string;
use crate::error::{Failure, TransferError};
use crate::hashing::{sha256, RunningHash};
use crate::chunking::{chunk_at, chunk_count, covered, lemma_covered, lemma_window_len};
use crate::transform::{
    lemma_round_trip, lemma_tamper_detected, reverse_outcome, reverse_transform, sent_as,
    ProcessedView,
};

verus! {

/// Where a download stands: which answer it is waiting for.
#[derive(Clone, Copy, Debug, PartialEq, Eq, Structural)]
pub enum DownloadPhase {
    /// The bytes of the next part are being read from the stream.
    Reading,
    /// A chunk is being written to the destination.
    Writing,
    /// Nothing is left to do.
    Done,
}

/// What the caller reports back.
#[derive(Clone, Debug, PartialEq, Eq)]
pub enum DownloadEvent {
    /// What the stream gave for the last `ReadExact`: the bytes asked for, or
    /// fewer where the stream ended first.
    Received { bytes: Vec<u8> },
    /// The chunk is written.
    Written,
}

/// A `DownloadEvent` with its bytes as a sequence.
pub ghost enum DownloadEventView {
    Received { bytes: Seq<u8> },
    Written,
}

impl View for DownloadEvent {
    type V = DownloadEventView;

    open spec fn view(&self) -> DownloadEventView {
        match *self {
            DownloadEvent::Received { bytes } => DownloadEventView::Received { bytes: bytes@ },
            DownloadEvent::Written => DownloadEventView::Written,
        }
    }
}

/// What the caller is to do next.
#[derive(Clone, Debug, PartialEq, Eq)]
pub enum DownloadAction {
    /// Read exactly `len` bytes from the stream.
    ReadExact { len: u64 },
    /// Append `bytes` to the destination.
    Write { bytes: Vec<u8> },
    /// The download is complete and verified.
    Finished,
}

/// A `DownloadAction` with its bytes as a sequence.
pub ghost enum DownloadActionView {
    ReadExact { len: nat },
    Write { bytes: Seq<u8> },
    Finished,
}

impl View for DownloadAction {
    type V = DownloadActionView;

    open spec fn view(&self) -> DownloadActionView {
        match *self {
            DownloadAction::ReadExact { len } => DownloadActionView::ReadExact { len: len as nat },
            DownloadAction::Write { bytes } => DownloadActionView::Write { bytes: bytes@ },
            DownloadAction::Finished => DownloadActionView::Finished,
        }
    }
}

/// The state of a download.
pub ghost struct DownloadModel {
    /// The sealed session that is being downloaded.
    pub session: SessionView,
    /// The encryption key.
    pub key: Seq<u8>,
    /// How many parts have been received and verified.
    pub next: nat,
    /// The bytes handed out so far, in order.
    pub delivered: Seq<u8>,
    pub phase: DownloadPhase,
}

/// What comes after the last verified chunk was written: the next part's
/// bytes, or at the end the check of the whole object.
pub open spec fn after_write(pre: DownloadModel) -> (DownloadModel, Result<
    DownloadActionView,
    Failure,
>) {
    let actual = hex_string(sha256(pre.delivered));
    if pre.next < pre.session.parts.len() {
        (
            DownloadModel { phase: DownloadPhase::Reading, ..pre },
            Ok(
                DownloadActionView::ReadExact {
                    len: pre.session.parts[pre.next as int].processed_size,
                },
            ),
        )
    } else if actual == pre.session.sha256 {
        (DownloadModel { phase: DownloadPhase::Done, ..pre }, Ok(DownloadActionView::Finished))
    } else {
        (pre, Err(Failure::WholeObjectHashMismatch { expected: pre.session.sha256, actual }))
    }
}

/// What becomes of the bytes received for the next part: a stream that ended
/// early is refused, then the reverse transform decides.
pub open spec fn after_receive(pre: DownloadModel, bytes: Seq<u8>) -> (DownloadModel, Result<
    DownloadActionView,
    Failure,
>) {
    let part = pre.session.parts[pre.next as int];
    if bytes.len() < part.processed_size {
        (
            pre,
            Err(
                Failure::ShortRead {
                    index: part.idx,
                    expected_size: part.processed_size,
                    actual_size: bytes.len(),
                },
            ),
        )
    } else if bytes.len() > part.processed_size {
        (pre, Err(Failure::UnexpectedEvent))
    } else {
        match reverse_outcome(
            bytes,
            part,
            pre.session.compression_enabled,
            pre.session.encryption_enabled,
            pre.key,
        ) {
            Err(failure) => (pre, Err(failure)),
            Ok(chunk) => (
                DownloadModel {
                    next: pre.next + 1,
                    delivered: pre.delivered + chunk,
                    phase: DownloadPhase::Writing,
                    ..pre
                },
                Ok(DownloadActionView::Write { bytes: chunk }),
            ),
        }
    }
}

/// The transition function of a download: the state and the outcome that
/// the event leads to. A refusal leaves the state as it was.
pub open spec fn download_step(pre: DownloadModel, event: DownloadEventView) -> (
    DownloadModel,
    Result<DownloadActionView, Failure>,
) {
    match event {
        DownloadEventView::Received { bytes } => if pre.phase == DownloadPhase::Reading {
            after_receive(pre, bytes)
        } else {
            (pre, Err(Failure::UnexpectedEvent))
        },
        DownloadEventView::Written => if pre.phase == DownloadPhase::Writing {
            after_write(pre)
        } else {
            (pre, Err(Failure::UnexpectedEvent))
        },
    }
}

/// How a download begins: a malformed or unsealed session is refused; then
/// the first part's bytes are asked for, or, where there is no part, the
/// whole-object hash is checked at once.
pub open spec fn download_begin(session: SessionView, key: Seq<u8>) -> Result<
    (DownloadModel, DownloadActionView),
    Failure,
> {
    let start = DownloadModel {
        session,
        key,
        next: 0,
        delivered: Seq::empty(),
        phase: DownloadPhase::Writing,
    };
    if !session.wf() {
        Err(Failure::MalformedSession)
    } else if !session.done {
        Err(Failure::SessionNotSealed)
    } else {
        match after_write(start).1 {
            Ok(action) => Ok((after_write(start).0, action)),
            Err(failure) => Err(failure),
        }
    }
}

impl DownloadModel {
    /// What holds of every state that a download reaches.
    pub open spec fn inv(self) -> bool {
        let n = self.session.parts.len();
        &&& self.session.wf()
        &&& self.session.done
        &&& self.next <= n
        &&& self.delivered.len() == total_original(self.session.parts.take(self.next as int))
        &&& match self.phase {
            DownloadPhase::Reading => self.next < n,
            DownloadPhase::Writing => self.next >= 1,
            DownloadPhase::Done => {
                &&& self.next == n
                &&& hex_string(sha256(self.delivered)) == self.session.sha256
            },
        }
    }
}

/// Every step keeps the invariant.
pub proof fn lemma_download_keeps_inv(pre: DownloadModel, event: DownloadEventView)
    requires
        pre.inv(),
    ensures
        download_step(pre, event).0.inv(),
{
    let post = download_step(pre, event).0;
    if post.next == pre.next + 1 {
        let upto = pre.session.parts.take(post.next as int);
        assert(upto.drop_last() =~= pre.session.parts.take(pre.next as int));
        assert(upto.last() == pre.session.parts[pre.next as int]);
    }
}

/// A finished download has handed out as many bytes as the parts record in
/// all, and they hash to the session's whole-object hash.
pub proof fn lemma_finished_is_verified(m: DownloadModel)
    requires
        m.inv(),
        m.phase == DownloadPhase::Done,
    ensures
        m.delivered.len() == m.session.total_original_size(),
        hex_string(sha256(m.delivered)) == m.session.sha256,
{
    assert(m.session.parts.take(m.next as int) =~= m.session.parts);
}

/// Tamper detection: where the bytes received for a part have another digest
/// than the bytes that were sent for it, the download stops with an integrity
/// failure that names the part's index, and nothing is handed out.
pub proof fn lemma_download_refuses_tampered(pre: DownloadModel, sent: Seq<u8>, received: Seq<u8>)
    requires
        pre.inv(),
        pre.phase == DownloadPhase::Reading,
        pre.session.parts[pre.next as int].processed_sha256 == hex_string(sha256(sent)),
        received.len() == pre.session.parts[pre.next as int].processed_size,
        sha256(received) != sha256(sent),
    ensures
        download_step(pre, DownloadEventView::Received { bytes: received }) == (
            pre,
            Err::<DownloadActionView, Failure>(
                Failure::ProcessedHashMismatch {
                    index: pre.next + 1,
                    expected: pre.session.parts[pre.next as int].processed_sha256,
                    actual: hex_string(sha256(received)),
                },
            ),
        ),
{
    let part = pre.session.parts[pre.next as int];
    lemma_tamper_detected(
        sent,
        received,
        part,
        pre.session.compression_enabled,
        pre.session.encryption_enabled,
        pre.key,
    );
}

/// What comes of a download from the state `m` on, to its end, where the
/// stream gives `bodies[i]` for part `i` (from 0) and every write succeeds: all
/// that was handed out, or the failure that stopped it.
pub open spec fn download_rest(m: DownloadModel, bodies: Seq<Seq<u8>>) -> Result<Seq<u8>, Failure>
    decreases m.session.parts.len() - m.next,
{
    if m.phase != DownloadPhase::Reading || m.next >= m.session.parts.len() || m.next
        >= bodies.len() {
        Err(Failure::UnexpectedEvent)
    } else {
        let (received, first) = download_step(
            m,
            DownloadEventView::Received { bytes: bodies[m.next as int] },
        );
        match first {
            Err(failure) => Err(failure),
            Ok(_) => {
                let (written, second) = download_step(received, DownloadEventView::Written);
                match second {
                    Err(failure) => Err(failure),
                    Ok(DownloadActionView::Finished) => Ok(written.delivered),
                    Ok(_) => download_rest(written, bodies),
                }
            },
        }
    }
}

/// What comes of the whole download of `session` from such a stream.
pub open spec fn download_all(session: SessionView, key: Seq<u8>, bodies: Seq<Seq<u8>>) -> Result<
    Seq<u8>,
    Failure,
> {
    match download_begin(session, key) {
        Err(failure) => Err(failure),
        Ok((m, DownloadActionView::Finished)) => Ok(m.delivered),
        Ok((m, _)) => download_rest(m, bodies),
    }
}

/// Whether `session` is the sealed record of `source` and `bodies` are the
/// bytes that were sent for its parts.
pub open spec fn uploaded_as(
    session: SessionView,
    key: Seq<u8>,
    source: Seq<u8>,
    bodies: Seq<Seq<u8>>,
) -> bool {
    &&& session.wf()
    &&& session.done
    &&& session.sha256 == hex_string(sha256(source))
    &&& session.parts.len() == chunk_count(source.len(), session.chunk_size)
    &&& bodies.len() == session.parts.len()
    &&& forall|i: nat|
        i < session.parts.len() ==> sent_as(
            #[trigger] session.parts[i as int],
            bodies[i as int],
            chunk_at(source, session.chunk_size, i),
            session.compression_enabled,
            session.encryption_enabled,
            key,
        )
}

proof fn lemma_rest_restores(m: DownloadModel, source: Seq<u8>, bodies: Seq<Seq<u8>>)
    requires
        uploaded_as(m.session, m.key, source, bodies),
        m.phase == DownloadPhase::Reading,
        m.next < m.session.parts.len(),
        m.delivered == source.take(
            covered(source.len(), m.session.chunk_size, m.next) as int,
        ),
    ensures
        download_rest(m, bodies) == Ok::<Seq<u8>, Failure>(source),
    decreases m.session.parts.len() - m.next,
{
    let c = m.session.chunk_size;
    let k = m.next;
    let part = m.session.parts[k as int];
    let chunk = chunk_at(source, c, k);
    lemma_covered(source.len(), c, k);
    lemma_window_len(source.len(), c, k);
    lemma_round_trip(
        chunk,
        ProcessedView {
            bytes: bodies[k as int],
            original_size: part.original_size,
            processed_size: part.processed_size,
            original_sha256: part.original_sha256,
            processed_sha256: part.processed_sha256,
        },
        part.idx,
        part.etag,
        m.session.compression_enabled,
        m.session.encryption_enabled,
        m.key,
    );
    let (received, first) = download_step(
        m,
        DownloadEventView::Received { bytes: bodies[k as int] },
    );
    assert(first == Ok::<DownloadActionView, Failure>(DownloadActionView::Write { bytes: chunk }));
    assert(received.delivered =~= source.take(covered(source.len(), c, k + 1) as int));
    let (written, second) = download_step(received, DownloadEventView::Written);
    if k + 1 < m.session.parts.len() {
        lemma_rest_restores(written, source, bodies);
    } else {
        lemma_covered(source.len(), c, (k + 1) as nat);
        assert(received.delivered =~= source);
    }
}

/// What was uploaded comes back: the download of a sealed session, fed the
/// bytes that were sent for its parts, hands out the source byte for byte and
/// finishes.
pub proof fn lemma_download_restores_source(
    session: SessionView,
    key: Seq<u8>,
    source: Seq<u8>,
    bodies: Seq<Seq<u8>>,
)
    requires
        uploaded_as(session, key, source, bodies),
    ensures
        download_all(session, key, bodies) == Ok::<Seq<u8>, Failure>(source),
{
    let c = session.chunk_size;
    lemma_covered(source.len(), c, 0);
    if session.parts.len() == 0 {
        assert(source =~= Seq::<u8>::empty());
    } else {
        let m = DownloadModel {
            session,
            key,
            next: 0,
            delivered: Seq::empty(),
            phase: DownloadPhase::Reading,
        };
        assert(m.delivered =~= source.take(covered(source.len(), c, 0) as int));
        lemma_rest_restores(m, source, bodies);
    }
}

/// A download in progress.
#[derive(Debug)]
pub struct Downloader {
    session: Backup,
    hasher: RunningHash,
    key: Vec<u8>,
    next: usize,
    delivered: u128,
    phase: DownloadPhase,
}

impl View for Downloader {
    type V = DownloadModel;

    closed spec fn view(&self) -> DownloadModel {
        DownloadModel {
            session: self.session@,
            key: self.key@,
            next: self.next as nat,
            delivered: self.hasher@,
            phase: self.phase,
        }
    }
}

/// The outcome of a step with its bytes as a sequence.
pub open spec fn download_outcome_view(r: Result<DownloadAction, TransferError>) -> Result<
    DownloadActionView,
    Failure,
> {
    match r {
        Ok(action) => Ok(action@),
        Err(e) => Err(e@),
    }
}

impl Downloader {
    /// What holds of every downloader that `begin` made and `step` moved.
    pub closed spec fn inv(&self) -> bool {
        &&& self@.inv()
        &&& self.delivered == self@.delivered.len()
    }

    /// Begins the download of `session`, which must be sealed.
    pub fn begin(session: Backup, key: Vec<u8>) -> (r: Result<
        (Downloader, DownloadAction),
        TransferError,
    >)
        ensures
            download_begin(session@, key@) == match r {
                Ok((downloader, action)) => Ok::<(DownloadModel, DownloadActionView), Failure>(
                    (downloader@, action@),
                ),
                Err(e) => Err(e@),
            },
            r matches Ok((downloader, _)) ==> downloader.inv(),
    {
        if !session.is_well_formed() {
            return Err(TransferError::MalformedSession);
        }
        if !session.done {
            return Err(TransferError::SessionNotSealed);
        }
        let mut downloader = Downloader {
            session,
            hasher: RunningHash::new(),
            key,
            next: 0,
            delivered: 0,
            phase: DownloadPhase::Writing,
        };
        proof {
            assert(downloader@.session.parts.take(0) =~= Seq::<PartView>::empty());
        }
        let action = downloader.written()?;
        Ok((downloader, action))
    }

    /// The session that is being downloaded.
    pub fn session(&self) -> (session: &Backup)
        ensures
            session@ == self@.session,
    {
        &self.session
    }

    /// Which answer the download is waiting for.
    pub fn phase(&self) -> (phase: DownloadPhase)
        ensures
            phase == self@.phase,
    {
        self.phase
    }

    /// How many bytes have been handed out so far.
    pub fn delivered(&self) -> (count: u128)
        requires
            self.inv(),
        ensures
            count == self@.delivered.len(),
            count == total_original(self@.session.parts.take(self@.next as int)),
    {
        self.delivered
    }

    /// Takes one event and says what to do next. A refusal leaves the
    /// download as it was, and it cannot be taken up again.
    pub fn step(&mut self, event: DownloadEvent) -> (r: Result<DownloadAction, TransferError>)
        requires
            old(self).inv(),
        ensures
            final(self).inv(),
            (final(self)@, download_outcome_view(r)) == download_step(old(self)@, event@),
    {
        proof {
            lemma_download_keeps_inv(self@, event@);
        }
        match event {
            DownloadEvent::Received { bytes } => match self.phase {
                DownloadPhase::Reading => self.received(bytes),
                _ => Err(TransferError::UnexpectedEvent),
            },
            DownloadEvent::Written => match self.phase {
                DownloadPhase::Writing => self.written(),
                _ => Err(TransferError::UnexpectedEvent),
            },
        }
    }

    fn received(&mut self, bytes: Vec<u8>) -> (r: Result<DownloadAction, TransferError>)
        requires
            old(self).inv(),
            old(self)@.phase == DownloadPhase::Reading,
        ensures
            (final(self)@, download_outcome_view(r)) == after_receive(old(self)@, bytes@),
            final(self).delivered == final(self)@.delivered.len(),
    {
        let part = &self.session.parts[self.next];
        let len = bytes.len() as u64;
        if len < part.processed_size {
            return Err(
                TransferError::ShortRead {
                    index: part.idx,
                    expected_size: part.processed_size,
                    actual_size: len,
                },
            );
        }
        if len > part.processed_size {
            return Err(TransferError::UnexpectedEvent);
        }
        let chunk = reverse_transform(
            bytes.as_slice(),
            part,
            self.session.compression_enabled,
            self.session.encryption_enabled,
            self.key.as_slice(),
        )?;
        proof {
            lemma_total_bound(self@.session.parts.take(self.next as int));
        }
        self.hasher.update(chunk.as_slice());
        self.delivered = self.delivered + chunk.len() as u128;
        self.next = self.next + 1;
        self.phase = DownloadPhase::Writing;
        Ok(DownloadAction::Write { bytes: chunk })
    }

    fn written(&mut self) -> (r: Result<DownloadAction, TransferError>)
        requires
            old(self)@.session.wf(),
            old(self)@.next <= old(self)@.session.parts.len(),
            old(self)@.phase == DownloadPhase::Writing,
        ensures
            (final(self)@, download_outcome_view(r)) == after_write(old(self)@),
            final(self).delivered == old(self).delivered,
            final(self)@.delivered == old(self)@.delivered,
    {
        if self.next < self.session.parts.len() {
            self.phase = DownloadPhase::Reading;
            let len = self.session.parts[self.next].processed_size;
            return Ok(DownloadAction::ReadExact { len });
        }
        let actual = self.hasher.hex_digest();
        if actual == self.session.sha256 {
            self.phase = DownloadPhase::Done;
            Ok(DownloadAction::Finished)
        } else {
            Err(
                TransferError::WholeObjectHashMismatch {
                    expected: self.session.sha256.clone(),
                    actual,
                },
            )
        }
    }
}

/// The original sizes of a run of parts add up to at most the largest size
/// for each part.
proof fn lemma_total_bound(parts: Seq<PartView>)
    requires
        forall|i: int| 0 <= i < parts.len() ==> (#[trigger] parts[i]).original_size <= u64::MAX,
    ensures
        total_original(parts) <= parts.len() * u64::MAX,
    decreases parts.len(),
{
    if parts.len() > 0 {
        lemma_total_bound(parts.drop_last());
        assert((parts.len() - 1) * u64::MAX + u64::MAX == parts.len() * u64::MAX)
            by (nonlinear_arith);
    }
}

} // verus!
