use parquet::basic::Compression;
use s3_turbo_list::utils::parse_compression;
use std::str::FromStr;

fn codec(name: &str, level: u32) -> Compression {
    Compression::from_str(&parse_compression(name, level)).unwrap()
}

#[test]
fn test_parse_compression_gzip_level() {
    assert!(matches!(codec("gzip", 6), Compression::GZIP(_)));
}

#[test]
fn test_parse_compression_snappy_no_level() {
    assert!(matches!(codec("snappy", 6), Compression::SNAPPY));
}

#[test]
fn test_parse_compression_unknown_falls_back() {
    assert!(matches!(codec("unknown", 6), Compression::GZIP(_)));
}

#[test]
fn compression_settings_as_text() {
    assert_eq!(parse_compression(" ZSTD ", 3), "zstd(3)");
    assert_eq!(parse_compression("lz4_raw", 9), "lz4_raw");
    assert_eq!(parse_compression("nope", 4), "gzip(4)");
    // A level out of the codec's range falls back to gzip(6).
    assert_eq!(parse_compression("gzip", 99), "gzip(6)");
}
