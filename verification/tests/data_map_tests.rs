use s3_turbo_list::data_map::{
    ingest_list_parquet_batch, ks_file_text, part_path, record_prefix_stat, ListStreamingStats,
    PrefixStats,
};
use s3_turbo_list::objects::{ObjectKey, ObjectProps, S3_TASK_CONTEXT_DIR_LEFT_LIST_MODE};

#[test]
fn part_path_index_zero_is_unchanged() {
    assert_eq!(part_path("out/a_b_ts.parquet", 0), "out/a_b_ts.parquet");
    assert_eq!(part_path("plain", 0), "plain");
}

#[test]
fn part_path_inserts_before_extension() {
    assert_eq!(part_path("out/a_b_ts.parquet", 2), "out/a_b_ts.part2.parquet");
    assert_eq!(part_path("file.parquet", 1), "file.part1.parquet");
}

#[test]
fn part_path_no_extension_appends() {
    assert_eq!(part_path("out/datafile", 3), "out/datafile.part3");
    assert_eq!(part_path("noext", 5), "noext.part5");
}

#[test]
fn part_path_ignores_dot_in_parent_dir() {
    assert_eq!(part_path("a.b/datafile", 2), "a.b/datafile.part2");
}

#[test]
fn part_path_leading_dot_basename_appends() {
    assert_eq!(part_path("dir/.hidden", 2), "dir/.hidden.part2");
}

#[test]
fn parquet_batch_counts_every_row_and_masks_filtered_ones() {
    let mut stats_by_prefix = PrefixStats::new();
    let mut stats = ListStreamingStats {
        received_batches: 0,
        received_objects: 0,
        streamed_rows: 0,
        bytes_total: 0,
    };
    let keys = vec![ObjectKey::from("a/1"), ObjectKey::from("a/2"), ObjectKey::from("b")];
    let props = vec![
        ObjectProps::new_open(S3_TASK_CONTEXT_DIR_LEFT_LIST_MODE, 10, [1u8; 16]),
        ObjectProps::new_open(S3_TASK_CONTEXT_DIR_LEFT_LIST_MODE, 20, [1u8; 16]),
        ObjectProps::new_open(S3_TASK_CONTEXT_DIR_LEFT_LIST_MODE, 30, [1u8; 16]),
    ];
    let verdicts = vec![Some(true), Some(false), None];
    let mask = ingest_list_parquet_batch(&mut stats_by_prefix, &mut stats, &keys, &props, &verdicts);
    assert_eq!(mask, vec![true, false, true]);
    assert_eq!(stats.received_batches, 1);
    assert_eq!(stats.received_objects, 3);
    assert_eq!(stats.streamed_rows, 2);
    assert_eq!(stats.bytes_total, 60);
    assert_eq!(stats_by_prefix.get("a").unwrap().objects, 2);
    assert_eq!(stats_by_prefix.get("a").unwrap().bytes, 30);
    assert_eq!(stats_by_prefix.get("/").unwrap().objects, 1);
}

#[test]
fn ks_file_lists_prefix_counts_in_order() {
    let mut stats = PrefixStats::new();
    record_prefix_stat(&mut stats, "b", 5);
    record_prefix_stat(&mut stats, "a", 1);
    record_prefix_stat(&mut stats, "b", 5);
    assert_eq!(ks_file_text(&stats), "\"a\",\"1\"\n\"b\",\"2\"\n");
    assert_eq!(ks_file_text(&PrefixStats::new()), "");
}
