use sab::config::{Backup, UploadPart};
use sab::download::{DownloadAction, DownloadEvent, DownloadPhase, Downloader};
use sab::error::{ErrorKind, TransferError};
use sab::hashing::sha256_hex;
use sab::transform::forward_transform;

fn key() -> Vec<u8> {
    (1u8..=32).collect()
}

fn sample(len: usize) -> Vec<u8> {
    (0..len).map(|i| (i * 31 % 239) as u8).collect()
}

/// A sealed session over `source`, with the bytes sent for each part.
fn sealed(source: &[u8], chunk_size: usize, compression: bool, encryption: bool) -> (Backup, Vec<Vec<u8>>) {
    let mut parts = Vec::new();
    let mut bodies = Vec::new();
    for (i, chunk) in source.chunks(chunk_size).enumerate() {
        let p = forward_transform(chunk, i + 1, compression, encryption, &key()).unwrap();
        parts.push(UploadPart {
            idx: i + 1,
            etag: format!("e{}", i + 1),
            original_size: p.original_size,
            processed_size: p.processed_size,
            original_sha256: p.original_sha256,
            processed_sha256: p.processed_sha256,
        });
        bodies.push(p.bytes);
    }
    let session = Backup {
        name: "pre/obj".to_string(),
        prefix: "pre/".to_string(),
        chunk_size,
        upload_id: "u".to_string(),
        parts,
        done: true,
        started: "a".to_string(),
        completed: "b".to_string(),
        sha256: sha256_hex(source),
        compression_enabled: compression,
        encryption_enabled: encryption,
    };
    (session, bodies)
}

#[test]
fn download_asks_for_each_part_in_order() {
    let source = sample(250);
    let (session, bodies) = sealed(&source, 100, false, false);
    let (mut d, action) = Downloader::begin(session, key()).unwrap();
    assert_eq!(action, DownloadAction::ReadExact { len: 100 });
    assert_eq!(d.phase(), DownloadPhase::Reading);
    assert_eq!(d.delivered(), 0);

    let action = d.step(DownloadEvent::Received { bytes: bodies[0].clone() }).unwrap();
    assert_eq!(action, DownloadAction::Write { bytes: source[..100].to_vec() });
    assert_eq!(d.phase(), DownloadPhase::Writing);
    assert_eq!(d.delivered(), 100);
    assert_eq!(d.step(DownloadEvent::Written), Ok(DownloadAction::ReadExact { len: 100 }));

    let action = d.step(DownloadEvent::Received { bytes: bodies[1].clone() }).unwrap();
    assert_eq!(action, DownloadAction::Write { bytes: source[100..200].to_vec() });
    assert_eq!(d.step(DownloadEvent::Written), Ok(DownloadAction::ReadExact { len: 50 }));

    let action = d.step(DownloadEvent::Received { bytes: bodies[2].clone() }).unwrap();
    assert_eq!(action, DownloadAction::Write { bytes: source[200..].to_vec() });
    assert_eq!(d.delivered(), 250);
    assert_eq!(d.delivered(), d.session().total_original_size());
    assert_eq!(d.step(DownloadEvent::Written), Ok(DownloadAction::Finished));
    assert_eq!(d.phase(), DownloadPhase::Done);
}

#[test]
fn download_asks_for_the_processed_length() {
    let source = sample(5000);
    let (session, bodies) = sealed(&source, 2000, true, true);
    let wanted = bodies[0].len() as u64;
    assert_ne!(wanted, 2000);
    let (_, action) = Downloader::begin(session, key()).unwrap();
    assert_eq!(action, DownloadAction::ReadExact { len: wanted });
}

#[test]
fn download_refuses_an_unsealed_session() {
    let (mut session, _) = sealed(&sample(250), 100, false, false);
    session.done = false;
    session.sha256 = String::new();
    let e = Downloader::begin(session, key()).unwrap_err();
    assert_eq!(e, TransferError::SessionNotSealed);
    assert_eq!(e.kind(), ErrorKind::Precondition);
    assert_eq!(e.chunk(), None);
}

#[test]
fn download_refuses_a_malformed_session() {
    let (mut session, _) = sealed(&sample(250), 100, false, false);
    session.parts.swap(0, 1);
    assert_eq!(Downloader::begin(session, key()).unwrap_err(), TransferError::MalformedSession);

    let (mut session, _) = sealed(&sample(250), 100, false, false);
    session.sha256 = String::new();
    assert_eq!(Downloader::begin(session, key()).unwrap_err(), TransferError::MalformedSession);
}

#[test]
fn download_refuses_a_stream_that_ends_early() {
    let source = sample(250);
    let (session, bodies) = sealed(&source, 100, false, false);
    let (mut d, _) = Downloader::begin(session, key()).unwrap();
    d.step(DownloadEvent::Received { bytes: bodies[0].clone() }).unwrap();
    d.step(DownloadEvent::Written).unwrap();
    let e = d.step(DownloadEvent::Received { bytes: bodies[1][..99].to_vec() }).unwrap_err();
    assert_eq!(e, TransferError::ShortRead { index: 2, expected_size: 100, actual_size: 99 });
    assert_eq!(e.kind(), ErrorKind::Integrity);
    assert_eq!(e.chunk(), Some(2));
    assert_eq!(d.phase(), DownloadPhase::Reading);
    assert_eq!(d.delivered(), 100);
}

#[test]
fn download_refuses_more_bytes_than_asked_for() {
    let (session, _) = sealed(&sample(250), 100, false, false);
    let (mut d, _) = Downloader::begin(session, key()).unwrap();
    let e = d.step(DownloadEvent::Received { bytes: sample(101) }).unwrap_err();
    assert_eq!(e, TransferError::UnexpectedEvent);
}

#[test]
fn download_refuses_an_event_out_of_turn() {
    let source = sample(250);
    let (session, bodies) = sealed(&source, 100, false, false);
    let (mut d, _) = Downloader::begin(session, key()).unwrap();
    assert_eq!(d.step(DownloadEvent::Written), Err(TransferError::UnexpectedEvent));
    d.step(DownloadEvent::Received { bytes: bodies[0].clone() }).unwrap();
    assert_eq!(
        d.step(DownloadEvent::Received { bytes: bodies[1].clone() }),
        Err(TransferError::UnexpectedEvent)
    );
    assert_eq!(d.phase(), DownloadPhase::Writing);
    assert_eq!(d.delivered(), 100);
}

#[test]
fn download_names_the_chunk_that_was_tampered_with() {
    let source = sample(250);
    for (compression, encryption) in [(false, false), (true, false), (false, true), (true, true)] {
        let (session, bodies) = sealed(&source, 100, compression, encryption);
        let recorded = session.parts[1].processed_sha256.clone();
        let (mut d, _) = Downloader::begin(session, key()).unwrap();
        d.step(DownloadEvent::Received { bytes: bodies[0].clone() }).unwrap();
        d.step(DownloadEvent::Written).unwrap();
        let mut tampered = bodies[1].clone();
        let last = tampered.len() - 1;
        tampered[last] ^= 0x80;
        let e = d.step(DownloadEvent::Received { bytes: tampered.clone() }).unwrap_err();
        assert_eq!(
            e,
            TransferError::ProcessedHashMismatch {
                index: 2,
                expected: recorded,
                actual: sha256_hex(&tampered),
            }
        );
        assert_eq!(e.kind(), ErrorKind::Integrity);
        assert_eq!(d.delivered(), 100);
    }
}

#[test]
fn download_refuses_parts_in_another_order() {
    let source = sample(200);
    let (session, bodies) = sealed(&source, 100, false, false);
    let (mut d, _) = Downloader::begin(session, key()).unwrap();
    let e = d.step(DownloadEvent::Received { bytes: bodies[1].clone() }).unwrap_err();
    assert_eq!(e.kind(), ErrorKind::Integrity);
    assert_eq!(e.chunk(), Some(1));
}

#[test]
fn download_refuses_another_whole_object_hash() {
    let source = sample(150);
    let (mut session, bodies) = sealed(&source, 100, false, false);
    let other = sha256_hex(b"something else");
    session.sha256 = other.clone();
    let (mut d, _) = Downloader::begin(session, key()).unwrap();
    d.step(DownloadEvent::Received { bytes: bodies[0].clone() }).unwrap();
    d.step(DownloadEvent::Written).unwrap();
    d.step(DownloadEvent::Received { bytes: bodies[1].clone() }).unwrap();
    let e = d.step(DownloadEvent::Written).unwrap_err();
    assert_eq!(
        e,
        TransferError::WholeObjectHashMismatch { expected: other, actual: sha256_hex(&source) }
    );
    assert_eq!(e.kind(), ErrorKind::Integrity);
    assert_eq!(e.chunk(), None);
    assert_eq!(d.phase(), DownloadPhase::Writing);
}

#[test]
fn download_of_a_session_without_parts_checks_the_hash_at_once() {
    let (session, _) = sealed(b"", 100, false, false);
    let (d, action) = Downloader::begin(session, key()).unwrap();
    assert_eq!(action, DownloadAction::Finished);
    assert_eq!(d.phase(), DownloadPhase::Done);

    let (mut session, _) = sealed(b"", 100, false, false);
    session.sha256 = sha256_hex(b"x");
    let e = Downloader::begin(session, key()).unwrap_err();
    assert_eq!(
        e,
        TransferError::WholeObjectHashMismatch {
            expected: sha256_hex(b"x"),
            actual: sha256_hex(b""),
        }
    );
}

#[test]
fn download_with_the_wrong_key_fails_the_tag() {
    let source = sample(250);
    let (session, bodies) = sealed(&source, 100, true, true);
    let (mut d, _) = Downloader::begin(session, vec![0u8; 32]).unwrap();
    let e = d.step(DownloadEvent::Received { bytes: bodies[0].clone() }).unwrap_err();
    assert_eq!(e, TransferError::AuthenticationFailed { index: 1 });
}
