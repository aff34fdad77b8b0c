use s3_turbo_list::tasks_s3::{
    allow_split, ancestor_dirs, flat_cut_candidates, is_strictly_inside, page_boundary,
    SegmentControl, SPLIT_MIN_PAGES,
};

#[test]
fn test_ancestor_dirs_ladder() {
    assert_eq!(ancestor_dirs("big/a/0005", ""), vec!["big/a/", "big/", ""]);
    assert_eq!(ancestor_dirs("logs/a/b", "logs/"), vec!["logs/a/", "logs/"]);
    assert_eq!(ancestor_dirs("toplevel", ""), vec![""]);
    assert_eq!(ancestor_dirs("a/b", "a/"), vec!["a/"]);
}

#[test]
fn test_segment_control_accepts_valid_split() {
    let mut control = SegmentControl::new(Some("small/".to_string()));
    control.record_page("big/a/05");
    control.pending_split = Some("big/b/".to_string());
    control.splitting = true;

    let child = control.try_accept_split().expect("split accepted");
    assert_eq!(child.start, "big/b/");
    assert_eq!(child.end.as_deref(), Some("small/"));
    assert_eq!(control.current_end().as_deref(), Some("big/b/"));
    assert!(control.was_split());
    assert!(!control.splitting);
}

#[test]
fn test_segment_control_rejects_stale_split() {
    let mut control = SegmentControl::new(None);
    control.record_page("big/c/99");
    control.pending_split = Some("big/b/".to_string());
    control.splitting = true;

    assert!(control.try_accept_split().is_none());
    assert_eq!(control.current_end(), None);
    assert!(!control.was_split());
    assert!(!control.splitting);
}

#[test]
fn test_segment_control_rejects_out_of_range_split() {
    let mut control = SegmentControl::new(Some("d/".to_string()));
    control.record_page("a/1");
    control.pending_split = Some("d/".to_string());
    assert!(control.try_accept_split().is_none());

    let mut control = SegmentControl::new(None);
    control.record_page("a/1");
    control.pending_split = Some("z/".to_string());
    assert!(control.try_accept_split().is_some());
}

#[test]
fn test_segment_control_split_candidate_gating() {
    let mut control = SegmentControl::new(None);
    assert!(!control.is_split_candidate(), "needs pages");
    for i in 0..SPLIT_MIN_PAGES {
        control.record_page(&format!("k/{}", i));
    }
    assert!(control.is_split_candidate());
    control.unsplittable = true;
    assert!(!control.is_split_candidate(), "unsplittable is sticky");
}

#[test]
fn test_flat_cut_candidates_numeric_tail() {
    let candidates = flat_cut_candidates("obj-0014", "", None);
    assert!(!candidates.is_empty());
    for c in &candidates {
        assert!(c.as_str() > "obj-0014", "{}", c);
    }
    assert_eq!(candidates[0], "obj-1");
}

#[test]
fn test_flat_cut_candidates_respect_end_bound() {
    let candidates = flat_cut_candidates("prefix-3/object-000123", "", Some("prefix-3/p"));
    for c in &candidates {
        assert!(c.as_str() > "prefix-3/object-000123", "{}", c);
        assert!(c.as_str() < "prefix-3/p", "{}", c);
    }
}

#[test]
fn test_flat_cut_candidates_listing_prefix_scopes_tail() {
    let candidates = flat_cut_candidates("logs/2026/abcdef", "logs/", None);
    assert!(!candidates.is_empty());
    for c in &candidates {
        assert!(c.starts_with("logs/"), "{}", c);
    }
}

#[test]
fn test_flat_cut_candidates_empty_or_non_ascii_tail() {
    assert!(flat_cut_candidates("", "", None).is_empty());
    let candidates = flat_cut_candidates("中文键", "", None);
    for c in &candidates {
        assert!(std::str::from_utf8(c.as_bytes()).is_ok());
    }
}

#[test]
fn strictly_inside_is_between_cursor_and_end() {
    assert!(is_strictly_inside("b", "a", Some("c")));
    assert!(!is_strictly_inside("a", "a", Some("c")));
    assert!(!is_strictly_inside("c", "a", Some("c")));
    assert!(is_strictly_inside("zzz", "a", None));
}

#[test]
fn record_page_counts_pages_and_moves_cursor() {
    let mut control = SegmentControl::new(None);
    control.record_page("a");
    control.record_page("b");
    assert_eq!(control.pages, 2);
    assert_eq!(control.snapshot(), ("b".to_string(), None));
}

#[test]
fn page_boundary_stops_at_until() {
    let keys: Vec<String> = ["a", "b", "c"].iter().map(|s| s.to_string()).collect();
    assert_eq!(page_boundary(&keys, Some("b")), (2, true));
    assert_eq!(page_boundary(&keys, Some("a0")), (1, true));
    assert_eq!(page_boundary(&keys, None), (3, false));
    assert_eq!(page_boundary(&keys, Some("z")), (3, false));
}

#[test]
fn split_allowed_only_without_explicit_start() {
    assert!(allow_split(0b1000_0000, false, false));
    assert!(!allow_split(0b1010_0000, false, false));
    assert!(!allow_split(0b1000_0000, true, false));
    assert!(!allow_split(0b1000_0000, false, true));
}

#[test]
fn split_cut_is_the_middle_prefix_inside_the_range() {
    let ps: Vec<String> = vec!["d/", "b/", "a/", "c/", "z/"].into_iter().map(String::from).collect();
    assert_eq!(
        s3_turbo_list::tasks_s3::middle_split_cut(&ps, "a/9", Some("y")),
        Some("c/".to_string())
    );
    assert_eq!(s3_turbo_list::tasks_s3::middle_split_cut(&ps, "a/9", Some("c/")), Some("b/".to_string()));
    assert_eq!(s3_turbo_list::tasks_s3::middle_split_cut(&ps, "zz", None), None);
}
