use sab::cipher::gen_key;
use sab::config::UploadPart;
use sab::encoding::parse_hex;
use sab::error::{ErrorKind, TransferError};
use sab::hashing::sha256_hex;
use sab::transform::{
    check_original, check_processed, compression_outcome, decompression_outcome,
    decryption_outcome, describe, encryption_outcome, forward_transform, reverse_transform,
    ProcessedChunk,
};

const ABC_SHA256: &str = "ba7816bf8f01cfea414140de5dae2223b00361a396177a9cb410ff61f20015ad";
const EMPTY_SHA256: &str = "e3b0c44298fc1c149afbf4c8996fb92427ae41e4649b934ca495991b7852b855";

fn key() -> Vec<u8> {
    (0u8..32).collect()
}

fn sample(len: usize) -> Vec<u8> {
    (0..len).map(|i| (i * 7 % 251) as u8).collect()
}

fn part_of(p: &ProcessedChunk, idx: usize) -> UploadPart {
    UploadPart {
        idx,
        etag: format!("tag-{}", idx),
        original_size: p.original_size,
        processed_size: p.processed_size,
        original_sha256: p.original_sha256.clone(),
        processed_sha256: p.processed_sha256.clone(),
    }
}

fn round_trip(data: &[u8], compression: bool, encryption: bool) {
    let p = forward_transform(data, 4, compression, encryption, &key()).unwrap();
    let part = part_of(&p, 4);
    let back = reverse_transform(&p.bytes, &part, compression, encryption, &key()).unwrap();
    assert_eq!(back, data);
}

#[test]
fn sha256_hex_of_abc() {
    assert_eq!(sha256_hex(b"abc"), ABC_SHA256);
}

#[test]
fn sha256_hex_of_nothing() {
    assert_eq!(sha256_hex(b""), EMPTY_SHA256);
}

#[test]
fn running_hash_of_nothing_is_the_empty_digest() {
    // Through the download of a sealed session without parts, which checks
    // the digest of nothing against the recorded whole-object hash.
    let session = sab::config::Backup {
        name: "p/empty".to_string(),
        prefix: "p/".to_string(),
        chunk_size: 10,
        upload_id: "u".to_string(),
        parts: vec![],
        done: true,
        started: "s".to_string(),
        completed: "c".to_string(),
        sha256: EMPTY_SHA256.to_string(),
        compression_enabled: false,
        encryption_enabled: false,
    };
    let (d, action) = sab::download::Downloader::begin(session, vec![]).unwrap();
    assert_eq!(action, sab::download::DownloadAction::Finished);
    assert_eq!(d.phase(), sab::download::DownloadPhase::Done);
}

#[test]
fn hex_digest_is_lower_case_and_64_long() {
    let s = sha256_hex(&sample(1000));
    assert_eq!(s.len(), 64);
    assert!(s.chars().all(|c| c.is_ascii_digit() || ('a'..='f').contains(&c)));
}

#[test]
fn forward_plain_sends_the_chunk_as_it_is() {
    let p = forward_transform(b"abc", 1, false, false, &[]).unwrap();
    assert_eq!(p.bytes, b"abc");
    assert_eq!(p.original_size, 3);
    assert_eq!(p.processed_size, 3);
    assert_eq!(p.original_sha256, ABC_SHA256);
    assert_eq!(p.processed_sha256, ABC_SHA256);
}

#[test]
fn forward_plain_takes_the_empty_chunk() {
    let p = forward_transform(b"", 1, false, false, &[]).unwrap();
    assert_eq!(p.bytes, b"");
    assert_eq!(p.original_size, 0);
    assert_eq!(p.original_sha256, EMPTY_SHA256);
}

#[test]
fn forward_compressed_is_a_gzip_stream() {
    let data = vec![7u8; 4096];
    let p = forward_transform(&data, 1, true, false, &[]).unwrap();
    assert_ne!(p.bytes, data);
    assert_eq!(&p.bytes[..3], &[0x1f, 0x8b, 8]);
    assert!(p.bytes.len() < data.len());
    assert_eq!(p.original_size, 4096);
    assert_eq!(p.processed_size, p.bytes.len() as u64);
    assert_eq!(p.original_sha256, sha256_hex(&data));
    assert_eq!(p.processed_sha256, sha256_hex(&p.bytes));
}

#[test]
fn forward_compressed_is_determined_by_the_chunk() {
    let data = sample(3000);
    let a = forward_transform(&data, 1, true, false, &[]).unwrap();
    let b = forward_transform(&data, 1, true, false, &[]).unwrap();
    assert_eq!(a, b);
}

#[test]
fn forward_encrypted_adds_nonce_and_tag() {
    let data = sample(500);
    let p = forward_transform(&data, 1, false, true, &key()).unwrap();
    assert_eq!(p.bytes.len(), 500 + 40);
    assert_eq!(p.processed_size, 540);
    assert_eq!(p.original_size, 500);
    assert_ne!(&p.bytes[24..524], &data[..]);
    assert_eq!(p.processed_sha256, sha256_hex(&p.bytes));
}

#[test]
fn forward_encrypted_differs_from_call_to_call() {
    let data = sample(64);
    let a = forward_transform(&data, 1, false, true, &key()).unwrap();
    let b = forward_transform(&data, 1, false, true, &key()).unwrap();
    assert_ne!(a.bytes, b.bytes);
    assert_eq!(a.original_sha256, b.original_sha256);
    assert_eq!(a.processed_size, b.processed_size);
}

#[test]
fn forward_compressed_then_encrypted_is_longer_by_forty() {
    let data = sample(2000);
    let packed = forward_transform(&data, 1, true, false, &[]).unwrap();
    let sealed = forward_transform(&data, 1, true, true, &key()).unwrap();
    assert_eq!(sealed.bytes.len(), packed.bytes.len() + 40);
}

#[test]
fn forward_refuses_a_short_key() {
    let e = forward_transform(b"abc", 3, false, true, &[1u8; 31]).unwrap_err();
    assert_eq!(e, TransferError::EncryptionFailed { index: 3 });
    assert_eq!(e.kind(), ErrorKind::Configuration);
    assert_eq!(e.chunk(), Some(3));
}

#[test]
fn forward_refuses_an_empty_key() {
    let e = forward_transform(b"abc", 2, true, true, &[]).unwrap_err();
    assert_eq!(e, TransferError::EncryptionFailed { index: 2 });
}

#[test]
fn forward_refuses_to_seal_nothing() {
    let e = forward_transform(b"", 1, false, true, &key()).unwrap_err();
    assert_eq!(e, TransferError::EncryptionFailed { index: 1 });
}

#[test]
fn forward_seals_the_compressed_empty_chunk() {
    round_trip(b"", true, true);
}

#[test]
fn round_trip_plain() {
    round_trip(&sample(1234), false, false);
    round_trip(b"", false, false);
}

#[test]
fn round_trip_compressed() {
    round_trip(&sample(1234), true, false);
    round_trip(b"", true, false);
    round_trip(&vec![0u8; 100_000], true, false);
}

#[test]
fn round_trip_encrypted() {
    round_trip(&sample(1234), false, true);
    round_trip(&[9u8], false, true);
}

#[test]
fn round_trip_compressed_and_encrypted() {
    round_trip(&sample(1234), true, true);
    round_trip(&vec![1u8; 70_000], true, true);
}

#[test]
fn round_trip_with_a_generated_key() {
    let key = parse_hex(&gen_key()).unwrap();
    let data = sample(300);
    let p = forward_transform(&data, 1, true, true, &key).unwrap();
    let back = reverse_transform(&p.bytes, &part_of(&p, 1), true, true, &key).unwrap();
    assert_eq!(back, data);
}

#[test]
fn every_flipped_byte_is_detected() {
    let data = sample(40);
    for (compression, encryption) in [(false, false), (true, false), (false, true), (true, true)] {
        let p = forward_transform(&data, 7, compression, encryption, &key()).unwrap();
        let part = part_of(&p, 7);
        for at in 0..p.bytes.len() {
            let mut tampered = p.bytes.clone();
            tampered[at] ^= 0x01;
            let e = reverse_transform(&tampered, &part, compression, encryption, &key())
                .unwrap_err();
            assert_eq!(
                e,
                TransferError::ProcessedHashMismatch {
                    index: 7,
                    expected: p.processed_sha256.clone(),
                    actual: sha256_hex(&tampered),
                }
            );
            assert_eq!(e.kind(), ErrorKind::Integrity);
            assert_eq!(e.chunk(), Some(7));
        }
    }
}

#[test]
fn reverse_refuses_a_failed_tag() {
    let data = sample(40);
    let p = forward_transform(&data, 2, false, true, &key()).unwrap();
    let mut tampered = p.bytes.clone();
    tampered[30] ^= 0xff;
    let mut part = part_of(&p, 2);
    part.processed_sha256 = sha256_hex(&tampered);
    let e = reverse_transform(&tampered, &part, false, true, &key()).unwrap_err();
    assert_eq!(e, TransferError::AuthenticationFailed { index: 2 });
    assert_eq!(e.kind(), ErrorKind::Integrity);
}

#[test]
fn reverse_refuses_the_wrong_key() {
    let data = sample(40);
    let p = forward_transform(&data, 2, false, true, &key()).unwrap();
    let e = reverse_transform(&p.bytes, &part_of(&p, 2), false, true, &[5u8; 32]).unwrap_err();
    assert_eq!(e, TransferError::AuthenticationFailed { index: 2 });
}

#[test]
fn reverse_refuses_what_is_no_gzip_stream() {
    let junk = b"this is not a gzip stream".to_vec();
    let part = UploadPart {
        idx: 5,
        etag: "t".to_string(),
        original_size: 3,
        processed_size: junk.len() as u64,
        original_sha256: ABC_SHA256.to_string(),
        processed_sha256: sha256_hex(&junk),
    };
    let e = reverse_transform(&junk, &part, true, false, &[]).unwrap_err();
    assert_eq!(e, TransferError::DecompressionFailed { index: 5 });
    assert_eq!(e.kind(), ErrorKind::Integrity);
}

#[test]
fn reverse_refuses_another_length() {
    let part = UploadPart {
        idx: 6,
        etag: "t".to_string(),
        original_size: 4,
        processed_size: 3,
        original_sha256: ABC_SHA256.to_string(),
        processed_sha256: ABC_SHA256.to_string(),
    };
    let e = reverse_transform(b"abc", &part, false, false, &[]).unwrap_err();
    assert_eq!(
        e,
        TransferError::OriginalSizeMismatch { index: 6, expected_size: 4, actual_size: 3 }
    );
}

#[test]
fn reverse_refuses_another_original_hash() {
    let part = UploadPart {
        idx: 6,
        etag: "t".to_string(),
        original_size: 3,
        processed_size: 3,
        original_sha256: EMPTY_SHA256.to_string(),
        processed_sha256: ABC_SHA256.to_string(),
    };
    let e = reverse_transform(b"abc", &part, false, false, &[]).unwrap_err();
    assert_eq!(
        e,
        TransferError::OriginalHashMismatch {
            index: 6,
            expected: EMPTY_SHA256.to_string(),
            actual: ABC_SHA256.to_string(),
        }
    );
}

#[test]
fn reverse_checks_the_processed_hash_first() {
    let part = UploadPart {
        idx: 9,
        etag: "t".to_string(),
        original_size: 77,
        processed_size: 3,
        original_sha256: "x".to_string(),
        processed_sha256: "y".to_string(),
    };
    let e = reverse_transform(b"abc", &part, true, true, &key()).unwrap_err();
    assert_eq!(
        e,
        TransferError::ProcessedHashMismatch {
            index: 9,
            expected: "y".to_string(),
            actual: ABC_SHA256.to_string(),
        }
    );
}

#[test]
fn describe_hashes_both() {
    let p = describe(b"", b"abc".to_vec());
    assert_eq!(p.bytes, b"abc");
    assert_eq!(p.original_size, 0);
    assert_eq!(p.processed_size, 3);
    assert_eq!(p.original_sha256, EMPTY_SHA256);
    assert_eq!(p.processed_sha256, ABC_SHA256);
}

#[test]
fn step_outcomes_map_failures() {
    let io = || std::io::Error::new(std::io::ErrorKind::Other, "x");
    assert_eq!(compression_outcome(3, Ok(vec![1, 2])), Ok(vec![1, 2]));
    let e = compression_outcome(3, Err(io())).unwrap_err();
    assert_eq!(e, TransferError::CompressionFailed { index: 3 });
    assert_eq!(e.kind(), ErrorKind::Io);
    assert_eq!(e.chunk(), Some(3));
    assert_eq!(
        decompression_outcome(4, Err(io())),
        Err(TransferError::DecompressionFailed { index: 4 })
    );
    assert_eq!(decompression_outcome(4, Ok(vec![])), Ok(vec![]));
    assert_eq!(
        encryption_outcome(5, Err(orion::errors::UnknownCryptoError)),
        Err(TransferError::EncryptionFailed { index: 5 })
    );
    assert_eq!(encryption_outcome(5, Ok(vec![9])), Ok(vec![9]));
    assert_eq!(
        decryption_outcome(6, Err(orion::errors::UnknownCryptoError)),
        Err(TransferError::AuthenticationFailed { index: 6 })
    );
    assert_eq!(decryption_outcome(6, Ok(vec![9])), Ok(vec![9]));
}

#[test]
fn checks_compare_with_the_part() {
    let part = UploadPart {
        idx: 2,
        etag: "t".to_string(),
        original_size: 10,
        processed_size: 12,
        original_sha256: "aa".to_string(),
        processed_sha256: "bb".to_string(),
    };
    assert_eq!(check_processed(&part, "bb".to_string()), Ok(()));
    assert_eq!(
        check_processed(&part, "bc".to_string()),
        Err(TransferError::ProcessedHashMismatch {
            index: 2,
            expected: "bb".to_string(),
            actual: "bc".to_string(),
        })
    );
    assert_eq!(check_original(&part, 10, "aa".to_string()), Ok(()));
    assert_eq!(
        check_original(&part, 11, "aa".to_string()),
        Err(TransferError::OriginalSizeMismatch { index: 2, expected_size: 10, actual_size: 11 })
    );
    assert_eq!(
        check_original(&part, 10, "ab".to_string()),
        Err(TransferError::OriginalHashMismatch {
            index: 2,
            expected: "aa".to_string(),
            actual: "ab".to_string(),
        })
    );
}

#[test]
fn parse_hex_reads_both_cases() {
    assert_eq!(parse_hex("00ff1aB2"), Some(vec![0x00, 0xff, 0x1a, 0xb2]));
    assert_eq!(parse_hex(""), Some(vec![]));
}

#[test]
fn parse_hex_refuses_odd_lengths_and_other_characters() {
    assert_eq!(parse_hex("abc"), None);
    assert_eq!(parse_hex("zz"), None);
    assert_eq!(parse_hex("0g"), None);
    assert_eq!(parse_hex("é"), None);
    assert_eq!(parse_hex(" 00"), None);
}

#[test]
fn generated_keys_are_32_bytes_in_lower_case_hex() {
    let a = gen_key();
    let b = gen_key();
    assert_eq!(a.len(), 64);
    assert_ne!(a, b);
    let bytes = parse_hex(&a).unwrap();
    assert_eq!(bytes.len(), 32);
    assert_eq!(hex::encode(&bytes), a);
}

#[test]
fn sha256_hex_agrees_with_the_digest_crate() {
    let data = sample(100);
    assert_eq!(sha256_hex(&data), hex::encode(<sha2::Sha256 as sha2::Digest>::digest(&data)));
}
