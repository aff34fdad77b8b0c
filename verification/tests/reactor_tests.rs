use s3_turbo_list::objects::KeySpaceHints;
use s3_turbo_list::reactor::{next_launch, segment_finished, split_probe_target, FlatCutProbe};
use s3_turbo_list::tasks_s3::SplitRange;

fn strings(v: &[&str]) -> Vec<String> {
    v.iter().map(|s| s.to_string()).collect()
}

#[test]
fn next_launch_takes_children_before_hints() {
    let mut hints = KeySpaceHints::new_from(&strings(&["m/"]));
    let mut children = vec![
        SplitRange { start: "c".to_string(), end: Some("d".to_string()) },
        SplitRange { start: "x".to_string(), end: None },
    ];
    let mut next_child = 7usize;
    let first = next_launch(&mut children, &mut next_child, &mut hints).unwrap();
    assert_eq!(first.index, 7);
    assert_eq!(first.start, "x");
    assert_eq!(first.end, None);
    assert!(!first.checkpointable);
    assert_eq!(next_child, 8);
    assert_eq!(hints.len(), 2);
    let second = next_launch(&mut children, &mut next_child, &mut hints).unwrap();
    assert_eq!((second.index, second.start.as_str(), second.end.as_deref()), (8, "c", Some("d")));
    let third = next_launch(&mut children, &mut next_child, &mut hints).unwrap();
    assert_eq!((third.index, third.start.as_str(), third.end.as_deref()), (0, "", Some("m/")));
    assert!(third.checkpointable);
    assert_eq!(next_child, 9);
    let fourth = next_launch(&mut children, &mut next_child, &mut hints).unwrap();
    assert_eq!((fourth.index, fourth.start.as_str(), fourth.end.as_deref()), (1, "m/", None));
    assert!(next_launch(&mut children, &mut next_child, &mut hints).is_none());
}

#[test]
fn segment_finished_records_only_unsplit_hint_segments() {
    let mut hints = KeySpaceHints::new_from(&strings(&["m/"]));
    let a = hints.next().unwrap();
    let b = hints.next().unwrap();
    assert_eq!(segment_finished(&mut hints, a.index, true, true, false), Some(0));
    assert_eq!(hints.done_count(), 1);
    assert_eq!(segment_finished(&mut hints, b.index, true, true, true), None);
    assert_eq!(hints.done_count(), 2);
    let mut other = KeySpaceHints::new_from(&strings(&[]));
    let c = other.next().unwrap();
    assert_eq!(segment_finished(&mut other, c.index, false, true, false), None);
    assert_eq!(other.done_count(), 0);
    assert_eq!(segment_finished(&mut other, 5, true, false, false), None);
    assert_eq!(other.done_count(), 0);
}

#[test]
fn split_probe_target_picks_most_pages_when_allowed() {
    let running = vec![(3usize, true, 40u32), (4, false, 90), (5, true, 60), (6, true, 60)];
    assert_eq!(split_probe_target(true, 2, 4, true, true, &running), Some(5));
    assert_eq!(split_probe_target(false, 2, 4, true, true, &running), None);
    assert_eq!(split_probe_target(true, 4, 4, true, true, &running), None);
    assert_eq!(split_probe_target(true, 2, 4, false, true, &running), None);
    assert_eq!(split_probe_target(true, 2, 4, true, false, &running), None);
    assert_eq!(split_probe_target(true, 0, 4, true, true, &[(1, false, 99)]), None);
}

#[test]
fn flat_cut_probe_takes_first_key_inside() {
    let mut probe = FlatCutProbe::new("a/0001", "", Some("b"));
    assert_eq!(probe.pos, 0);
    let mut tried = 0;
    let mut cut = None;
    while let Some(_) = probe.next_candidate() {
        tried += 1;
        let key = if tried == 1 { Some("c/outside") } else { Some("a/5") };
        if let Some(k) = probe.record(key) {
            cut = Some(k);
        }
    }
    assert!(!probe.candidates.is_empty());
    if probe.candidates.len() >= 2 {
        assert_eq!(cut.as_deref(), Some("a/5"));
        assert_eq!(tried, 2);
    }
    let mut none_probe = FlatCutProbe::new("a/0001", "", Some("b"));
    while none_probe.next_candidate().is_some() {
        assert_eq!(none_probe.record(None), None);
    }
    assert_eq!(none_probe.pos, none_probe.candidates.len());
}
