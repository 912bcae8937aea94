use sab::config::{Backup, Config, Profile, UploadPart, MAX_CHUNKS};
use sab::encoding::parse_hex;
use sab::setup::{answer_or, flag_or, populate_profile};

fn part(idx: usize, size: u64) -> UploadPart {
    UploadPart {
        idx,
        etag: format!("t{}", idx),
        original_size: size,
        processed_size: size + 40,
        original_sha256: "aa".to_string(),
        processed_sha256: "bb".to_string(),
    }
}

fn session(parts: Vec<UploadPart>) -> Backup {
    Backup {
        name: "n".to_string(),
        prefix: "p".to_string(),
        chunk_size: 100,
        upload_id: "u".to_string(),
        parts,
        done: false,
        started: "s".to_string(),
        completed: String::new(),
        sha256: String::new(),
        compression_enabled: false,
        encryption_enabled: true,
    }
}

fn named(bucket: &str) -> Profile {
    let mut p = Profile::default();
    p.bucket = bucket.to_string();
    p
}

#[test]
fn default_profile_is_empty() {
    let p = Profile::default();
    assert_eq!(p.access_key, "");
    assert_eq!(p.secret_key, "");
    assert_eq!(p.region, "");
    assert_eq!(p.bucket, "");
    assert_eq!(p.encryption_key, "");
    assert_eq!(p.prefix, "");
}

#[test]
fn default_config_has_no_profiles() {
    let c = Config::default();
    assert!(c.profile("default").is_none());
    assert!(c.entries().is_empty());
}

#[test]
fn set_profile_then_profile() {
    let mut c = Config::default();
    c.set_profile("default", named("b1"));
    c.set_profile("other", named("b2"));
    assert_eq!(c.profile("default"), Some(&named("b1")));
    assert_eq!(c.profile("other"), Some(&named("b2")));
    assert_eq!(c.profile("Default"), None);
    assert_eq!(c.profile(""), None);
}

#[test]
fn set_profile_replaces() {
    let mut c = Config::default();
    c.set_profile("a", named("old"));
    c.set_profile("b", named("keep"));
    c.set_profile("a", named("new"));
    assert_eq!(c.profile("a"), Some(&named("new")));
    assert_eq!(c.profile("b"), Some(&named("keep")));
    assert_eq!(c.entries().len(), 2);
}

#[test]
fn from_entries_lets_the_later_entry_count() {
    let c = Config::from_entries(vec![
        ("a".to_string(), named("first")),
        ("b".to_string(), named("other")),
        ("a".to_string(), named("second")),
    ]);
    assert_eq!(c.profile("a"), Some(&named("second")));
    assert_eq!(c.profile("b"), Some(&named("other")));
    assert_eq!(c.profile("c"), None);
    let mut c = c;
    c.set_profile("a", named("third"));
    assert_eq!(c.profile("a"), Some(&named("third")));
}

#[test]
fn backup_path_is_below_backups() {
    let c = Config::default();
    assert_eq!(c.backup("photos.tar"), "backups/photos.tar.yml");
    assert_eq!(c.backup(""), "backups/.yml");
}

#[test]
fn profiles_file_name() {
    assert_eq!(Config::profiles_file(), "profiles.yml");
}

#[test]
fn key_bytes_decodes_the_setting() {
    let mut p = Profile::default();
    assert_eq!(p.key_bytes(), Some(vec![]));
    p.encryption_key = "0aFF".to_string();
    assert_eq!(p.key_bytes(), Some(vec![0x0a, 0xff]));
    p.encryption_key = "0aF".to_string();
    assert_eq!(p.key_bytes(), None);
    p.encryption_key = "xy".to_string();
    assert_eq!(p.key_bytes(), None);
}

#[test]
fn well_formed_sessions() {
    assert!(session(vec![]).is_well_formed());
    assert!(session(vec![part(1, 100), part(2, 100), part(3, 5)]).is_well_formed());
    let mut sealed = session(vec![part(1, 10)]);
    sealed.done = true;
    sealed.sha256 = "ab".to_string();
    assert!(sealed.is_well_formed());
}

#[test]
fn malformed_sessions() {
    let mut s = session(vec![]);
    s.chunk_size = 0;
    assert!(!s.is_well_formed());
    assert!(!session(vec![part(2, 100)]).is_well_formed());
    assert!(!session(vec![part(0, 100)]).is_well_formed());
    assert!(!session(vec![part(1, 100), part(1, 100)]).is_well_formed());
    assert!(!session(vec![part(1, 100), part(3, 100)]).is_well_formed());
    assert!(!session(vec![part(2, 100), part(1, 100)]).is_well_formed());
    let mut s = session(vec![]);
    s.done = true;
    assert!(!s.is_well_formed());
    let mut s = session(vec![]);
    s.sha256 = "ab".to_string();
    assert!(!s.is_well_formed());
}

#[test]
fn a_session_holds_at_most_the_limit_of_parts() {
    let full: Vec<UploadPart> = (1..=MAX_CHUNKS as usize).map(|i| part(i, 1)).collect();
    assert!(session(full.clone()).is_well_formed());
    let mut over = full;
    over.push(part(10_001, 1));
    assert!(!session(over).is_well_formed());
}

#[test]
fn total_original_size_adds_up() {
    assert_eq!(session(vec![]).total_original_size(), 0);
    assert_eq!(session(vec![part(1, 100), part(2, 100), part(3, 50)]).total_original_size(), 250);
    let big = session(vec![part(1, u64::MAX), part(2, u64::MAX)]);
    assert_eq!(big.total_original_size(), 2 * (u64::MAX as u128));
}

#[test]
fn completed_parts_lists_index_and_tag() {
    assert!(session(vec![]).completed_parts().is_empty());
    assert_eq!(
        session(vec![part(1, 100), part(2, 50)]).completed_parts(),
        vec![(1, "t1".to_string()), (2, "t2".to_string())]
    );
}

#[test]
fn answer_or_falls_back_on_the_empty_answer() {
    assert_eq!(answer_or(String::new(), "us-east-1"), "us-east-1");
    assert_eq!(answer_or("eu-west-1".to_string(), "us-east-1"), "eu-west-1");
    assert_eq!(answer_or(" ".to_string(), "x"), " ");
}

#[test]
fn flag_or_reads_true_and_false() {
    assert_eq!(flag_or("", true), Some(true));
    assert_eq!(flag_or("", false), Some(false));
    assert_eq!(flag_or("true", false), Some(true));
    assert_eq!(flag_or("false", true), Some(false));
    assert_eq!(flag_or("yes", true), None);
    assert_eq!(flag_or("True", true), None);
}

#[test]
fn populate_profile_with_encryption() {
    let mut p = Profile::default();
    populate_profile(
        &mut p,
        "ak".to_string(),
        "sk".to_string(),
        String::new(),
        "bucket".to_string(),
        "pre/".to_string(),
        true,
    );
    assert_eq!(p.access_key, "ak");
    assert_eq!(p.secret_key, "sk");
    assert_eq!(p.region, "us-east-1");
    assert_eq!(p.bucket, "bucket");
    assert_eq!(p.prefix, "pre/");
    assert_eq!(p.encryption_key.len(), 64);
    assert_eq!(parse_hex(&p.encryption_key).unwrap().len(), 32);
    assert_eq!(p.key_bytes().unwrap().len(), 32);
}

#[test]
fn populate_profile_without_encryption_keeps_the_key() {
    let mut p = Profile::default();
    p.encryption_key = "00ff".to_string();
    populate_profile(
        &mut p,
        "ak".to_string(),
        "sk".to_string(),
        "eu-central-1".to_string(),
        "bucket".to_string(),
        String::new(),
        false,
    );
    assert_eq!(p.region, "eu-central-1");
    assert_eq!(p.prefix, "");
    assert_eq!(p.encryption_key, "00ff");
}
