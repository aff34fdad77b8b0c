pub mod text;
pub mod error;
pub mod objects;
pub mod config;
pub mod profiles;
pub mod agent;
pub mod filter_expr;
pub mod checkpoint;
pub mod tasks_s3;
pub mod trace;
pub mod compat_probe;
pub mod hints;
pub mod data_map;
pub mod diff;
pub mod local_tools;
pub mod benchmark;
pub mod auto_hints;
pub mod utils;
pub mod reactor;
pub mod json;
pub mod manifest;
