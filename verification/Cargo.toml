[package]
name = "s3_turbo_list"
version = "0.1.0"
edition = "2021"
publish = false

[dependencies]
sha2 = "=0.11.1"
hex = "=0.4.3"
chrono = "=0.4.45"
serde = { version = "=1.0.229", features = ["derive"] }
serde_json = "=1.0.154"
toml = "=1.1.8"
log = "=0.4.35"
env_logger = "=0.11.11"
clap = { version = "=4.6.7", features = ["derive"] }
dirs-next = "=2.0.0"
clap_complete = "*"
clap_mangen = "*"
ctrlc = "*"
futures = "*"
tokio = { version = "*", features = ["rt-multi-thread", "sync", "time", "macros"] }
aws-config = { version = "*", features = ["behavior-version-latest"] }
aws-sdk-s3 = "*"
parquet = { version = "*", default-features = false, features = ["arrow", "zstd", "snap"] }
arrow-array = "*"
arrow-schema = "*"
