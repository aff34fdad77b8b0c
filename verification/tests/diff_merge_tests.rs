use s3_turbo_list::data_map::{
    merge_diff_step, pending_pair, DiffRowSink, DiffSideStream, MergeStep, OUTPUT_FLAG_ASTRISK,
    OUTPUT_FLAG_EQUAL, OUTPUT_FLAG_MINUS, OUTPUT_FLAG_PLUS,
};
use s3_turbo_list::objects::{
    ObjectKey, ObjectProps, S3_TASK_CONTEXT_DIR_LEFT_DIFF_MODE, S3_TASK_CONTEXT_DIR_RIGHT_DIFF_MODE,
};

fn left_row(key: &str, size: u64) -> (ObjectKey, ObjectProps) {
    (ObjectKey::from(key), ObjectProps::new_open(S3_TASK_CONTEXT_DIR_LEFT_DIFF_MODE, size, [7u8; 16]))
}

fn right_row(key: &str, size: u64) -> (ObjectKey, ObjectProps) {
    (ObjectKey::from(key), ObjectProps::new_open(S3_TASK_CONTEXT_DIR_RIGHT_DIFF_MODE, size, [7u8; 16]))
}

/// Runs a whole merge, feeding each side's batches as the merge asks for
/// input, and returns the written rows as (key, flag) in write order.
fn run_merge(
    left_batches: Vec<Vec<(ObjectKey, ObjectProps)>>,
    right_batches: Vec<Vec<(ObjectKey, ObjectProps)>>,
) -> (Vec<(String, u8)>, DiffRowSink, DiffSideStream, DiffSideStream) {
    let mut left = DiffSideStream::new("left");
    let mut right = DiffSideStream::new("right");
    let mut lq = left_batches.into_iter();
    let mut rq = right_batches.into_iter();
    let mut sink = DiffRowSink::new();
    let mut written: Vec<(String, u8)> = Vec::new();
    loop {
        while left.needs_input() {
            match lq.next() {
                Some(b) => left.ingest(b).unwrap(),
                None => left.close(),
            }
        }
        while right.needs_input() {
            match rq.next() {
                Some(b) => right.ingest(b).unwrap(),
                None => right.close(),
            }
        }
        let verdict = pending_pair(&left, &right).map(|_| true);
        let (step, out) = merge_diff_step(&mut left, &mut right, verdict, &mut sink);
        if let Some((batch, flag)) = out {
            for (k, _) in batch {
                written.push((k.as_str().to_string(), flag));
            }
        }
        if step == MergeStep::Done {
            break;
        }
    }
    for (batch, flag) in sink.flush_all() {
        for (k, _) in batch {
            written.push((k.as_str().to_string(), flag));
        }
    }
    (written, sink, left, right)
}

#[test]
fn diff_merge_flags_each_key_by_presence() {
    let (mut rows, sink, left, right) = run_merge(
        vec![vec![left_row("a", 1), left_row("b", 2)], vec![left_row("d", 4)]],
        vec![vec![right_row("b", 2)], vec![right_row("c", 3), right_row("d", 5)]],
    );
    rows.sort();
    assert_eq!(
        rows,
        vec![
            ("a".to_string(), OUTPUT_FLAG_PLUS),
            ("b".to_string(), OUTPUT_FLAG_EQUAL),
            ("c".to_string(), OUTPUT_FLAG_MINUS),
            ("d".to_string(), OUTPUT_FLAG_ASTRISK),
        ]
    );
    let outcome = sink.finish(&left, &right);
    assert_eq!(outcome.rows, 4);
    assert_eq!(
        (outcome.plus, outcome.minus, outcome.astrisk, outcome.equal, outcome.ignored),
        (1, 1, 1, 1, 0)
    );
    assert_eq!(outcome.received_batches, 4);
    assert_eq!(outcome.received_objects, 6);
    assert_eq!(outcome.unique_prefixes(), 1);
    assert_eq!(outcome.bytes_total, 1 + 2 + 3 + 4);
}

#[test]
fn diff_merge_of_identical_sides_is_all_equal() {
    let (rows, sink, left, right) = run_merge(
        vec![vec![left_row("x/1", 10), left_row("x/2", 20)]],
        vec![vec![right_row("x/1", 10)], vec![right_row("x/2", 20)]],
    );
    assert_eq!(rows.len(), 2);
    assert!(rows.iter().all(|(_, f)| *f == OUTPUT_FLAG_EQUAL));
    let outcome = sink.finish(&left, &right);
    assert_eq!(outcome.equal, 2);
    assert_eq!(outcome.prefix_stats.get("x").unwrap().objects, 2);
}

#[test]
fn diff_merge_drops_pairs_the_filter_rejects() {
    let mut left = DiffSideStream::new("left");
    let mut right = DiffSideStream::new("right");
    left.ingest(vec![left_row("k", 1)]).unwrap();
    right.ingest(vec![right_row("k", 1)]).unwrap();
    let mut sink = DiffRowSink::new();
    assert!(pending_pair(&left, &right).is_some());
    let (step, out) = merge_diff_step(&mut left, &mut right, Some(false), &mut sink);
    assert_eq!(step, MergeStep::Both);
    assert!(out.is_none());
    left.close();
    right.close();
    let (step, _) = merge_diff_step(&mut left, &mut right, None, &mut sink);
    assert_eq!(step, MergeStep::Done);
    assert!(sink.flush_all().is_empty());
    let outcome = sink.finish(&left, &right);
    assert_eq!((outcome.rows, outcome.ignored), (0, 1));
    assert_eq!(outcome.unique_prefixes(), 1);
}

#[test]
fn diff_side_rejects_keys_out_of_order() {
    let mut side = DiffSideStream::new("left");
    side.ingest(vec![left_row("b", 1)]).unwrap();
    let err = side.ingest(vec![left_row("c", 1), left_row("a", 1)]).unwrap_err();
    assert_eq!(
        err,
        "left listing returned keys out of order ('a' after 'c'); diff requires S3 lexicographic ordering"
    );
}

#[test]
fn diff_side_keeps_the_latest_entry_of_a_repeated_key() {
    let mut left = DiffSideStream::new("left");
    let mut right = DiffSideStream::new("right");
    left.ingest(vec![left_row("k", 1), left_row("k", 9)]).unwrap();
    left.close();
    right.ingest(vec![right_row("k", 9)]).unwrap();
    right.close();
    let mut sink = DiffRowSink::new();
    let (step, _) = merge_diff_step(&mut left, &mut right, None, &mut sink);
    assert_eq!(step, MergeStep::Both);
    let batches = sink.flush_all();
    assert_eq!(batches.len(), 1);
    assert_eq!(batches[0].1, OUTPUT_FLAG_EQUAL);
    assert_eq!(batches[0].0[0].1.size(), 9);
}

#[test]
fn diff_sink_hands_out_full_batches() {
    let mut sink = DiffRowSink::new();
    let mut handed = 0usize;
    for i in 0..8192u32 {
        let (k, p) = left_row(&format!("p/{:05}", i), 1);
        if let Some((batch, flag)) = sink.accept(k, p, Some(OUTPUT_FLAG_PLUS)) {
            assert_eq!(flag, OUTPUT_FLAG_PLUS);
            handed += batch.len();
        }
    }
    assert_eq!(handed, 8192);
    assert!(sink.flush_all().is_empty());
    assert_eq!(sink.merged(), 8192);
}
