use s3_turbo_list::benchmark::{
    synthetic_diff_batches, synthetic_etag, synthetic_key, synthetic_list_batch, LocalBenchmarkKind, LocalDiffShape,
};

#[test]
fn synthetic_keys_are_zero_padded() {
    assert_eq!(synthetic_key(3, 42), "prefix-000003/object-000000000042.dat");
    assert_eq!(synthetic_key(1234567, 1), "prefix-1234567/object-000000000001.dat");
}

#[test]
fn synthetic_etag_is_little_endian_with_nonzero_tail() {
    let e = synthetic_etag(0x0102, 0);
    assert_eq!(&e[..8], &[0x02, 0x01, 0, 0, 0, 0, 0, 0]);
    assert_eq!(&e[8..15], &[0u8; 7]);
    assert_eq!(e[15], 1);
    let e = synthetic_etag(1, u64::MAX);
    assert_eq!(e[15], 0xff);
}

#[test]
fn mixed_shape_spreads_objects_over_both_sides() {
    let (left, right) = synthetic_diff_batches(0, 8, 2, 8, LocalBenchmarkKind::DiffOutput, LocalDiffShape::Mixed);
    // Indices 0..8: 0,4 both equal; 1,5 left only; 2,6 right only; 3,7 both changed.
    assert_eq!(left.len(), 6);
    assert_eq!(right.len(), 6);
    assert_eq!(left[0].0.as_str(), "prefix-000000/object-000000000000.dat");
    assert_eq!(right[1].0.as_str(), "prefix-000000/object-000000000002.dat");
    assert_eq!(right[2].1.size, left[2].1.size + 1);
    assert_ne!(right[2].1.etag_md5[0], left[2].1.etag_md5[0]);
    // The second half lies under the second prefix.
    assert_eq!(left[3].0.as_str(), "prefix-000001/object-000000000004.dat");
}

#[test]
fn diff_map_benchmark_pairs_every_object() {
    let (left, right) = synthetic_diff_batches(10, 4, 4, 0, LocalBenchmarkKind::DiffMap, LocalDiffShape::AllChanged);
    assert_eq!(left.len(), 4);
    assert_eq!(right.len(), 4);
    for (l, r) in left.iter().zip(right.iter()) {
        assert_eq!(l.0.as_str(), r.0.as_str());
        assert_eq!(l.1.size, r.1.size);
        assert_eq!(l.1.etag_md5, r.1.etag_md5);
    }
    assert_eq!(left[0].1.size, 1024 + 10);
}

#[test]
fn synthetic_keys_are_in_lexicographic_order() {
    let (left, _) = synthetic_diff_batches(0, 300, 7, 300, LocalBenchmarkKind::DiffOutput, LocalDiffShape::AllEqual);
    for w in left.windows(2) {
        assert!(w[0].0.as_str() < w[1].0.as_str());
    }
}

#[test]
fn synthetic_list_batch_spreads_keys_round_robin() {
    let batch = synthetic_list_batch(9, 3, 4);
    assert_eq!(batch.len(), 3);
    let keys: Vec<String> = batch.iter().map(|(k, _)| k.to_string()).collect();
    assert_eq!(keys, vec![
        "prefix-1/object-000000000009.dat".to_string(),
        "prefix-2/object-000000000010.dat".to_string(),
        "prefix-3/object-000000000011.dat".to_string(),
    ]);
    assert_eq!(batch[0].1.size, 1024 + 9);
    assert_eq!(batch[0].1.etag_md5, [9, 0, 0, 0, 0, 0, 0, 0, 1, 0, 0, 0, 0, 0, 0, 0]);
}
