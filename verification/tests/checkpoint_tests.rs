use sha2::{Digest, Sha256};
use s3_turbo_list::checkpoint::{
    checkpoint_path, merged_completed_indices, CheckpointIdentity, CheckpointJournal,
};

fn make_identity(
    delimiter: Option<&str>,
    max_keys: Option<i32>,
    profile: Option<&str>,
    addressing_style: Option<&str>,
    mode: Option<&str>,
) -> CheckpointIdentity {
    CheckpointIdentity::new(
        "test-bucket",
        Some("us-east-1"),
        "",
        delimiter,
        max_keys,
        profile,
        addressing_style,
        mode,
        None,
    )
}

fn make_journal(identity: CheckpointIdentity) -> CheckpointJournal {
    CheckpointJournal {
        bucket: "test-bucket".into(),
        prefix: "".into(),
        total_segments: 4,
        completed_indices: vec![0, 2],
        last_updated: String::new(),
        identity: Some(identity),
    }
}

fn make_identity_with_filter(filter: Option<&str>) -> CheckpointIdentity {
    CheckpointIdentity::new(
        "test-bucket",
        Some("us-east-1"),
        "",
        Some("/"),
        None,
        None,
        Some("path"),
        Some("list"),
        filter,
    )
}

#[test]
fn test_identity_exact_match_allows_resume() {
    let id = make_identity(Some("/"), Some(1000), Some("bos"), Some("path"), Some("list"));
    let current = id.clone();
    assert!(id.diff(&current).is_empty());
}

#[test]
fn test_identity_changed_filter_detected() {
    let stored = make_identity_with_filter(Some("SOURCE.size > 1000"));
    let current = make_identity_with_filter(Some("SOURCE.size > 2000"));
    assert!(stored.diff(&current).contains(&"filter".to_string()));
}

#[test]
fn test_identity_filter_added_or_dropped_detected() {
    let none = make_identity_with_filter(None);
    let some = make_identity_with_filter(Some("SOURCE.size > 1000"));
    assert!(none.diff(&some).contains(&"filter".to_string()));
    assert!(some.diff(&none).contains(&"filter".to_string()));
}

#[test]
fn test_identity_same_filter_allows_resume() {
    let stored = make_identity_with_filter(Some("SOURCE.size > 1000"));
    let current = make_identity_with_filter(Some("SOURCE.size > 1000"));
    assert!(stored.diff(&current).is_empty());
}

#[test]
fn test_load_and_verify_changed_filter_discards_checkpoint() {
    let journal = make_journal(make_identity_with_filter(Some("SOURCE.size > 1000")));
    let current = make_identity_with_filter(Some("SOURCE.size > 2000"));
    assert!(CheckpointJournal::load_and_verify(Some(journal), &current).is_none());
}

#[test]
fn test_identity_changed_delimiter_detected() {
    let stored = make_identity(Some("/"), None, None, None, None);
    let current = make_identity(Some("#"), None, None, None, None);
    let mismatches = stored.diff(&current);
    assert!(mismatches.contains(&"delimiter".to_string()));
}

#[test]
fn test_identity_changed_max_keys_detected() {
    let stored = make_identity(None, Some(100), None, None, None);
    let current = make_identity(None, Some(500), None, None, None);
    let mismatches = stored.diff(&current);
    assert!(mismatches.contains(&"max_keys".to_string()));
}

#[test]
fn test_identity_changed_profile_detected() {
    let stored = make_identity(None, None, Some("bos"), None, None);
    let current = make_identity(None, None, Some("minio"), None, None);
    let mismatches = stored.diff(&current);
    assert!(mismatches.contains(&"profile".to_string()));
}

#[test]
fn test_identity_changed_addressing_style_detected() {
    let stored = make_identity(None, None, None, Some("path"), None);
    let current = make_identity(None, None, None, Some("virtual"), None);
    let mismatches = stored.diff(&current);
    assert!(mismatches.contains(&"addressing_style".to_string()));
}

#[test]
fn test_identity_changed_mode_detected() {
    let stored = make_identity(None, None, None, None, Some("list"));
    let current = make_identity(None, None, None, None, Some("bidir"));
    let mismatches = stored.diff(&current);
    assert!(mismatches.contains(&"mode".to_string()));
}

#[test]
fn test_identity_legacy_detection() {
    let legacy = CheckpointIdentity::new("bucket", None, "", None, None, None, None, None, None);
    assert!(legacy.is_legacy());

    let modern = make_identity(Some("/"), None, None, None, None);
    assert!(!modern.is_legacy());
}

#[test]
fn test_identity_mismatch_many_fields() {
    let stored = make_identity(Some("/"), Some(100), Some("bos"), Some("path"), Some("list"));
    let current = make_identity(Some("#"), Some(500), Some("minio"), Some("virtual"), Some("bidir"));
    let mismatches = stored.diff(&current);
    assert_eq!(mismatches.len(), 5);
    assert!(mismatches.contains(&"delimiter".to_string()));
    assert!(mismatches.contains(&"max_keys".to_string()));
    assert!(mismatches.contains(&"profile".to_string()));
    assert!(mismatches.contains(&"addressing_style".to_string()));
    assert!(mismatches.contains(&"mode".to_string()));
}

#[test]
fn test_load_and_verify_identity_match_succeeds() {
    let id = make_identity(Some("/"), Some(1000), None, None, Some("list"));
    let journal = make_journal(id.clone());

    let loaded = CheckpointJournal::load_and_verify(Some(journal), &id);
    assert!(loaded.is_some());
    assert_eq!(loaded.unwrap().completed_indices, vec![0, 2]);
}

#[test]
fn test_load_and_verify_identity_mismatch_returns_none() {
    let stored_id = make_identity(Some("/"), None, None, None, None);
    let journal = make_journal(stored_id);

    let current_id = make_identity(Some("#"), None, None, None, None);
    let loaded = CheckpointJournal::load_and_verify(Some(journal), &current_id);
    assert!(loaded.is_none());
}

#[test]
fn test_load_and_verify_legacy_checkpoint_returns_none() {
    let journal = CheckpointJournal {
        bucket: "test-bucket".into(),
        prefix: "".into(),
        total_segments: 4,
        completed_indices: vec![0, 2],
        last_updated: "2026-01-01T00:00:00Z".into(),
        identity: None,
    };
    let current_id = make_identity(Some("/"), None, None, None, None);
    assert!(CheckpointJournal::load_and_verify(Some(journal), &current_id).is_none());
}

#[test]
fn test_load_and_verify_identity_none_returns_none() {
    let journal = CheckpointJournal {
        bucket: "test-bucket".into(),
        prefix: "".into(),
        total_segments: 4,
        completed_indices: vec![0, 2],
        last_updated: String::new(),
        identity: None,
    };

    let current_id = make_identity(Some("/"), None, None, None, None);
    let loaded = CheckpointJournal::load_and_verify(Some(journal), &current_id);
    assert!(loaded.is_none());
}

#[test]
fn load_and_verify_without_a_file_is_none() {
    let current_id = make_identity(Some("/"), None, None, None, None);
    assert!(CheckpointJournal::load_and_verify(None, &current_id).is_none());
}

#[test]
fn identity_with_legacy_marker_fields_is_not_resumable() {
    let legacy = CheckpointIdentity::new("test-bucket", None, "", None, None, None, None, None, None);
    let journal = make_journal(legacy.clone());
    assert!(CheckpointJournal::load_and_verify(Some(journal), &legacy).is_none());
}

#[test]
fn checkpoint_path_with_and_without_region() {
    assert_eq!(checkpoint_path("my/bucket", Some("us-east-1")), "us-east-1_my_bucket_checkpoint.toml");
    assert_eq!(checkpoint_path("bucket", None), "bucket_checkpoint.toml");
}

#[test]
fn boundary_digest_is_a_sha256_hex_and_checks_segments() {
    let boundaries = vec!["a".to_string(), "m".to_string()];
    let id = make_identity(Some("/"), None, None, None, Some("list")).with_boundaries(&boundaries);
    let digest = id.boundaries_digest.clone().unwrap();
    assert_eq!(digest.len(), 64);
    assert!(digest.chars().all(|c| c.is_ascii_hexdigit()));
    let mut journal = make_journal(id);
    journal.total_segments = 3;
    assert!(journal.verify_segments(&boundaries, 3));
    assert!(!journal.verify_segments(&boundaries, 4));
    let other = vec!["a".to_string(), "n".to_string()];
    assert!(!journal.verify_segments(&other, 3));
}

#[test]
fn boundary_digest_known_value() {
    let id = make_identity(None, None, None, None, None)
        .with_boundaries(&["a".to_string(), "bc".to_string()]);
    let expected = hex::encode(Sha256::digest(b"a\0bc\0"));
    assert_eq!(id.boundaries_digest.unwrap(), expected);
}

#[test]
fn merged_completed_indices_sorts_and_dedups() {
    let journal = make_journal(make_identity(Some("/"), None, None, None, None));
    let left = vec![3, 2, 7];
    let right = vec![7, 1];
    assert_eq!(merged_completed_indices(Some(&journal), &left, Some(&right)), vec![0, 1, 2, 3, 7]);
    assert_eq!(merged_completed_indices(None, &vec![5, 5, 4], None), vec![4, 5]);
    assert_eq!(merged_completed_indices(None, &vec![], None), Vec::<usize>::new());
}
