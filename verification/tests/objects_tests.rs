use s3_turbo_list::objects::suspicious_boundary_warnings;
use s3_turbo_list::objects::props_from_listing;
use s3_turbo_list::objects::{
    KeySpaceHints, MatchResult, ObjectKey, ObjectProps, OBJECT_PROPS_STATUS_ETAG_NOT_AVAIL,
    OBJECT_PROPS_STATUS_ETAG_NOT_MATCH, OBJECT_PROPS_STATUS_FILTER_OUT, OBJECT_PROPS_STATUS_OPEN,
    S3_TASK_CONTEXT_DIR_LEFT, S3_TASK_CONTEXT_DIR_LEFT_DIFF_MODE, S3_TASK_CONTEXT_DIR_LEFT_LIST_MODE,
    S3_TASK_CONTEXT_DIR_RIGHT, S3_TASK_CONTEXT_DIR_RIGHT_DIFF_MODE,
};

#[test]
fn test_object_key_top_level() {
    let key = ObjectKey::from("test.jpg");
    let (prefix, name) = key.decode();
    assert_eq!(prefix, "/");
    assert_eq!(key.prefix(), "/");
    assert_eq!(name, "test.jpg");
    let rebuilt = ObjectKey::encode(&prefix, &name);
    assert_eq!(rebuilt.as_str(), "test.jpg");
}

#[test]
fn test_object_key_nested() {
    let key = ObjectKey::from("a/b/c/test.jpg");
    let (prefix, name) = key.decode();
    assert_eq!(prefix, "a/b/c");
    assert_eq!(key.prefix(), "a/b/c");
    assert_eq!(name, "test.jpg");
    let rebuilt = ObjectKey::encode(&prefix, &name);
    assert_eq!(rebuilt.as_str(), "a/b/c/test.jpg");
}

#[test]
fn test_object_key_into_decoded_matches_decode() {
    for raw in ["test.jpg", "a/b/c/test.jpg", "dir/", "a//b", "/leading"] {
        let key = ObjectKey::from(raw);
        assert_eq!(key.decode(), ObjectKey::from(raw).into_decoded(), "{}", raw);
    }
}

#[test]
fn test_key_space_hints_empty() {
    let hints = KeySpaceHints::new_from(&[]);
    assert_eq!(hints.total_count(), 1);
}

#[test]
fn test_key_space_hints_with_boundaries() {
    let boundaries = vec!["b/".to_string(), "d/".to_string()];
    let mut hints = KeySpaceHints::new_from(&boundaries);
    assert_eq!(hints.total_count(), 3); // ""→b/, b/→d/, d/→""

    let p0 = hints.next().unwrap();
    assert_eq!(p0.start, "");
    assert_eq!(p0.end.as_deref(), Some("b/"));

    let p1 = hints.next().unwrap();
    assert_eq!(p1.start, "b/");
    assert_eq!(p1.end.as_deref(), Some("d/"));

    let p2 = hints.next().unwrap();
    assert_eq!(p2.start, "d/");
    assert_eq!(p2.end, None);

    assert!(hints.next().is_none());
}

#[test]
fn test_key_space_hints_uncompleted_preserves_original_segment_starts() {
    let boundaries = vec!["m/".to_string()];
    let mut hints = KeySpaceHints::new_uncompleted_from(&boundaries, &[0]);
    assert_eq!(hints.total_count(), 1);

    let remaining = hints.next().unwrap();
    assert_eq!(remaining.index, 1);
    assert_eq!(remaining.start, "m/");
    assert_eq!(remaining.end, None);
    assert!(hints.next().is_none());
}

#[test]
fn test_key_space_hints_start_after_clean() {
    // Verify that generated start_after values are the exact boundary
    // strings — no leading whitespace, no quotes, no trailing commas.
    let boundaries = vec![
        "alpha/".to_string(),
        "beta/file-05.txt".to_string(),
        "logs/file with spaces.log".to_string(),
        "logs/file+plus.log".to_string(),
        "中文/Unicode".to_string(),
    ];
    let mut hints = KeySpaceHints::new_from(&boundaries);

    // Segment 0: "" → "alpha/"
    let p0 = hints.next().unwrap();
    assert_eq!(p0.start, "");
    assert_eq!(p0.end.as_deref(), Some("alpha/"));

    // Segment 1: "alpha/" → "beta/file-05.txt"
    let p1 = hints.next().unwrap();
    assert_eq!(p1.start, "alpha/");
    assert_eq!(p1.end.as_deref(), Some("beta/file-05.txt"));

    // Segment 2: "beta/file-05.txt" → "logs/file with spaces.log"
    let p2 = hints.next().unwrap();
    assert_eq!(p2.start, "beta/file-05.txt");
    assert_eq!(p2.end.as_deref(), Some("logs/file with spaces.log"));

    // Segment 3: "logs/file with spaces.log" → "logs/file+plus.log"
    let p3 = hints.next().unwrap();
    assert_eq!(p3.start, "logs/file with spaces.log");
    assert_eq!(p3.end.as_deref(), Some("logs/file+plus.log"));

    // Segment 4: "logs/file+plus.log" → "中文/Unicode"
    let p4 = hints.next().unwrap();
    assert_eq!(p4.start, "logs/file+plus.log");
    assert_eq!(p4.end.as_deref(), Some("中文/Unicode"));

    // Segment 5: "中文/Unicode" → (none)
    let p5 = hints.next().unwrap();
    assert_eq!(p5.start, "中文/Unicode");
    assert_eq!(p5.end, None);

    assert!(hints.next().is_none());
}

#[test]
fn test_key_space_hints_with_special_chars_preserved() {
    // Verify spaces, +, /, %, Chinese/Unicode are preserved.
    let boundaries = vec![
        "a b/key.log".to_string(),
        "a+b/key.log".to_string(),
        "a%b/key.log".to_string(),
        "中文/key.log".to_string(),
    ];
    let mut hints = KeySpaceHints::new_from(&boundaries);

    let p = hints.next().unwrap();
    assert_eq!(p.start, "");
    assert_eq!(p.end.as_deref(), Some("a b/key.log"));

    let p = hints.next().unwrap();
    assert_eq!(p.start, "a b/key.log");
    assert_eq!(p.end.as_deref(), Some("a+b/key.log"));

    let p = hints.next().unwrap();
    assert_eq!(p.start, "a+b/key.log");
    assert_eq!(p.end.as_deref(), Some("a%b/key.log"));

    let p = hints.next().unwrap();
    assert_eq!(p.start, "a%b/key.log");
    assert_eq!(p.end.as_deref(), Some("中文/key.log"));
}

#[test]
fn test_object_props_match_both_sides() {
    let mut left = ObjectProps::default();
    left.set_dir(S3_TASK_CONTEXT_DIR_LEFT_DIFF_MODE);
    left.size = 100;
    left.etag_md5 = [0xabu8; 16];

    let mut right = ObjectProps::default();
    right.set_dir(S3_TASK_CONTEXT_DIR_RIGHT_DIFF_MODE);
    right.size = 100;
    right.etag_md5 = [0xabu8; 16];

    let result = left.match_other(&right, None);
    assert_eq!(result, MatchResult::Equal);
}

#[test]
fn test_object_props_final_status_open_without_direction_is_ignored() {
    let mut props = ObjectProps::default();
    props.status = OBJECT_PROPS_STATUS_OPEN;
    assert_eq!(props.final_status_check(None), MatchResult::Ignore);
}

#[test]
fn test_object_props_list_output_includes_open_list_object() {
    let props = ObjectProps::new_open(S3_TASK_CONTEXT_DIR_LEFT_LIST_MODE, 100, [1u8; 16]);
    assert!(props.include_in_list_output(None));
}

#[test]
fn test_object_props_list_output_excludes_filter_out_status() {
    let mut props = ObjectProps::new_open(S3_TASK_CONTEXT_DIR_LEFT_LIST_MODE, 100, [1u8; 16]);
    props.status = OBJECT_PROPS_STATUS_FILTER_OUT;
    assert!(!props.include_in_list_output(None));
}

#[test]
fn test_object_props_list_output_excludes_invalid_direction_state() {
    let mut props = ObjectProps::default();
    props.status = OBJECT_PROPS_STATUS_OPEN;
    assert!(!props.include_in_list_output(None));

    props.set_dir(S3_TASK_CONTEXT_DIR_LEFT | S3_TASK_CONTEXT_DIR_RIGHT);
    assert!(!props.include_in_list_output(None));
}

#[test]
fn test_object_props_list_output_excludes_diff_mode() {
    let props = ObjectProps::new_open(S3_TASK_CONTEXT_DIR_LEFT_DIFF_MODE, 100, [1u8; 16]);
    assert!(!props.include_in_list_output(None));
}

#[test]
fn test_object_props_fast_etag_matches_plain_etag_string() {
    let props = ObjectProps::new_open(
        S3_TASK_CONTEXT_DIR_LEFT_LIST_MODE,
        100,
        [
            0x00, 0x01, 0x02, 0x03, 0x0a, 0x0b, 0x0c, 0x0d, 0x10, 0x11, 0x12, 0x13, 0xfa, 0xfb,
            0xfc, 0xff,
        ],
    );
    let mut buf = [0u8; 43];
    assert_eq!(props.write_etag_to_buffer(&mut buf), props.etag_string());
}

#[test]
fn test_object_props_fast_etag_matches_multipart_etag_string() {
    let mut props =
        ObjectProps::new_open(S3_TASK_CONTEXT_DIR_LEFT_LIST_MODE, 100, [0xabu8; 16]);
    props.etag_parts = 12_345;
    let mut buf = [0u8; 43];
    assert_eq!(props.write_etag_to_buffer(&mut buf), props.etag_string());
}

#[test]
fn test_object_props_fast_etag_matches_max_parts_etag_string() {
    let mut props =
        ObjectProps::new_open(S3_TASK_CONTEXT_DIR_LEFT_LIST_MODE, 100, [0xffu8; 16]);
    props.etag_parts = u32::MAX;
    let mut buf = [0u8; 43];
    assert_eq!(props.write_etag_to_buffer(&mut buf), props.etag_string());
}

#[test]
fn test_object_props_fast_etag_matches_zero_etag_string() {
    let props = ObjectProps::new_open(S3_TASK_CONTEXT_DIR_LEFT_LIST_MODE, 100, [0u8; 16]);
    let mut buf = [0u8; 43];
    assert_eq!(props.write_etag_to_buffer(&mut buf), props.etag_string());
}

#[test]
fn test_object_props_final_status_unknown_status_is_ignored() {
    let mut props = ObjectProps::default();
    props.set_dir(S3_TASK_CONTEXT_DIR_LEFT_LIST_MODE);
    props.status = 99;
    assert_eq!(props.final_status_check(None), MatchResult::Ignore);
}

#[test]
fn test_object_props_final_status_match_without_both_sides_is_ignored() {
    let props = ObjectProps::default();
    assert_eq!(props.final_status_check(None), MatchResult::Ignore);
}

#[test]
fn test_object_props_match_without_accumulator_direction_is_ignored() {
    let mut accumulator = ObjectProps::default();
    accumulator.status = OBJECT_PROPS_STATUS_OPEN;
    let mut right = ObjectProps::default();
    right.set_dir(S3_TASK_CONTEXT_DIR_RIGHT_DIFF_MODE);
    right.status = OBJECT_PROPS_STATUS_OPEN;

    let result = accumulator.match_other(&right, None);
    assert_eq!(result, MatchResult::Ignore);
    assert_eq!(accumulator.final_status_check(None), MatchResult::Ignore);
}

#[test]
fn test_object_props_match_size_diff() {
    let mut left = ObjectProps::default();
    left.set_dir(S3_TASK_CONTEXT_DIR_LEFT_DIFF_MODE);
    left.size = 100;

    let mut right = ObjectProps::default();
    right.set_dir(S3_TASK_CONTEXT_DIR_RIGHT_DIFF_MODE);
    right.size = 200;

    let result = left.match_other(&right, None);
    assert_eq!(result, MatchResult::Astrisk);
}

#[test]
fn test_object_props_duplicate_same_side() {
    let mut first = ObjectProps::default();
    first.set_dir(S3_TASK_CONTEXT_DIR_LEFT_DIFF_MODE);
    first.size = 100;

    let mut second = ObjectProps::default();
    second.set_dir(S3_TASK_CONTEXT_DIR_LEFT_DIFF_MODE);
    second.size = 200;

    let result = first.match_other(&second, None);
    assert_eq!(result, MatchResult::Dup);
    assert_eq!(first.size, 200); // overwritten
}

#[test]
fn test_object_props_match_etag_not_avail_both_default() {
    // Both sides have default (all-zero) etag → is_etag_not_avail() true.
    let mut left = ObjectProps::default();
    left.set_dir(S3_TASK_CONTEXT_DIR_LEFT_DIFF_MODE);
    left.size = 100;

    let mut right = ObjectProps::default();
    right.set_dir(S3_TASK_CONTEXT_DIR_RIGHT_DIFF_MODE);
    right.size = 100;

    assert!(left.is_etag_not_avail());
    assert!(right.is_etag_not_avail());

    let result = left.match_other(&right, None);
    assert_eq!(result, MatchResult::Astrisk);
    assert_eq!(left.status, OBJECT_PROPS_STATUS_ETAG_NOT_AVAIL);
}

#[test]
fn test_object_props_match_etag_not_avail_one_side_default() {
    // Left has a real etag, right has default (all-zero) → one side etag not available.
    let mut left = ObjectProps::default();
    left.set_dir(S3_TASK_CONTEXT_DIR_LEFT_DIFF_MODE);
    left.size = 100;
    left.etag_md5 = [0xabu8; 16];

    let mut right = ObjectProps::default();
    right.set_dir(S3_TASK_CONTEXT_DIR_RIGHT_DIFF_MODE);
    right.size = 100;
    // right.etag_md5 remains all-zero

    assert!(!left.is_etag_not_avail());
    assert!(right.is_etag_not_avail());

    let result = left.match_other(&right, None);
    assert_eq!(result, MatchResult::Astrisk);
    assert_eq!(left.status, OBJECT_PROPS_STATUS_ETAG_NOT_AVAIL);
}

#[test]
fn test_object_props_match_etag_not_match() {
    // Same size, different etags → ETAG_NOT_MATCH.
    let mut left = ObjectProps::default();
    left.set_dir(S3_TASK_CONTEXT_DIR_LEFT_DIFF_MODE);
    left.size = 100;
    left.etag_md5 = [0xabu8; 16];

    let mut right = ObjectProps::default();
    right.set_dir(S3_TASK_CONTEXT_DIR_RIGHT_DIFF_MODE);
    right.size = 100;
    right.etag_md5 = [0x42u8; 16];

    assert!(!left.is_etag_not_avail());
    assert!(!right.is_etag_not_avail());

    let result = left.match_other(&right, None);
    assert_eq!(result, MatchResult::Astrisk);
    assert_eq!(left.status, OBJECT_PROPS_STATUS_ETAG_NOT_MATCH);
}

#[test]
fn props_from_listing_parses_etags() {
    let plain = props_from_listing(Some("\"000102030a0b0c0d10111213fafbfcff\""), Some(1715700001), Some(2048));
    assert_eq!(
        plain.etag_md5,
        [0x00, 0x01, 0x02, 0x03, 0x0a, 0x0b, 0x0c, 0x0d, 0x10, 0x11, 0x12, 0x13, 0xfa, 0xfb, 0xfc, 0xff]
    );
    assert_eq!(plain.etag_parts, 0);
    assert_eq!(plain.size, 2048);
    assert_eq!(plain.last_modified, 1715700001);
    assert_eq!(plain.status, OBJECT_PROPS_STATUS_OPEN);
    assert_eq!(plain.etag_string(), "000102030a0b0c0d10111213fafbfcff");

    let multi = props_from_listing(Some("\"ABABABABABABABABABABABABABABABAB-12\""), None, None);
    assert_eq!(multi.etag_md5, [0xab; 16]);
    assert_eq!(multi.etag_parts, 12);
    assert_eq!(multi.size, 0);

    let bad_parts = props_from_listing(Some("\"abababababababababababababababab-x\""), None, None);
    assert_eq!(bad_parts.etag_md5, [0xab; 16]);
    assert_eq!(bad_parts.etag_parts, 0);

    // A bad digit stops the decoding where it stands.
    let partial = props_from_listing(Some("\"abzz0000000000000000000000000000\""), None, None);
    assert_eq!(partial.etag_md5[0], 0xab);
    assert_eq!(&partial.etag_md5[1..], &[0u8; 15]);

    let none = props_from_listing(None, Some(-1), Some(5));
    assert_eq!(none.etag_md5, [0u8; 16]);
    assert_eq!(none.last_modified, u64::MAX);
}

#[test]
fn test_object_props_fast_etag_matches_listing_parse_round_trip() {
    let mut props = ObjectProps::new_open(S3_TASK_CONTEXT_DIR_LEFT_LIST_MODE, 100, [0x5au8; 16]);
    props.etag_parts = 7;
    let text = format!("\"{}\"", props.etag_string());
    let parsed = props_from_listing(Some(&text), None, Some(100));
    assert_eq!(parsed.etag_md5, props.etag_md5);
    assert_eq!(parsed.etag_parts, 7);
}

#[test]
fn suspicious_boundaries_are_reported_per_pattern() {
    let hints: Vec<String> = vec![
        "alpha/".to_string(),
        " beta/".to_string(),
        "\"gamma/\",".to_string(),
        "[".to_string(),
        "a=b".to_string(),
    ];
    let w = suspicious_boundary_warnings(&hints);
    assert_eq!(w.len(), 4);
    assert_eq!(
        w[0],
        "KeySpaceHints boundary 1 has leading whitespace: ' beta/'. This will be sent verbatim as an S3 start_after value and may cause request failures."
    );
    assert_eq!(
        w[1],
        "KeySpaceHints boundary 2 ends with a comma: '\"gamma/\",'. This looks like leaked TOML array syntax."
    );
    assert_eq!(
        w[2],
        "KeySpaceHints boundary 3 is a TOML bracket: '['. This will produce invalid S3 start_after values."
    );
    assert_eq!(
        w[3],
        "KeySpaceHints boundary 4 contains '=': 'a=b'. This looks like a TOML assignment line, not an object key."
    );
    let quoted: Vec<String> = vec!["'x'".to_string()];
    assert_eq!(
        suspicious_boundary_warnings(&quoted),
        vec!["KeySpaceHints boundary 0 is quoted: ''x''. This looks like leaked TOML string syntax.".to_string()]
    );
    assert!(suspicious_boundary_warnings(&["plain/".to_string()]).is_empty());
}

#[test]
fn hints_total_count_is_kept_through_next_and_finish() {
    let boundaries = vec!["b/".to_string(), "d/".to_string()];
    let mut hints = KeySpaceHints::new_from(&boundaries);
    let first = hints.next().unwrap();
    let second = hints.next().unwrap();
    assert_eq!((first.index, second.index), (0, 1));
    assert_eq!(hints.total_count(), 3);
    hints.finish(second.index);
    hints.finish(second.index);
    assert_eq!(hints.total_count(), 3);
    assert_eq!(hints.completed_indices(), vec![1]);
    hints.finish(first.index);
    assert_eq!(hints.completed_indices(), vec![1, 0]);
}
