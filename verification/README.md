# s3_turbo_list

A segmented, concurrent lister and differ for S3-compatible buckets, with
Parquet, keyspace and text outputs, checkpoint/resume and runtime splitting
of long segments. Its logic is a Verus library whose functions carry
`requires`/`ensures` contracts proved by Verus; the program around it is
ordinary Rust.

## Layout

- `src/` — the verified library. Among its modules:
  - `objects` — object keys and metadata, the diff match, and the segment
    queue (`KeySpaceHints`) with its resume and tiling laws;
  - `tasks_s3` — per-segment paging, retry and split decisions;
  - `reactor` — the list reactor's decisions: which segment starts next,
    what a finished segment records in the checkpoint, which segment is
    probed for a split, and which probed key is a flat cut;
  - `auto_hints` — startup and flat boundary discovery as state machines;
  - `data_map`, `diff` — prefix statistics, keyspace text and the diff
    merge;
  - `config`, `profiles`, `agent` — configuration, endpoint profiles, the
    command plan and reports;
  - `json`, `manifest`, `local_tools` — the saved run manifest: its JSON
    parse, its summary and the checks of its artifacts;
  - `filter_expr`, `checkpoint`, `hints`, `trace`, `compat_probe`,
    `benchmark`, `utils`, `text`, `error`.
- `tests/` — the tests, run against the compiled library.
- `app/` — the program: argument handling, the AWS SDK calls and the async
  loops that run the library's decisions, file I/O, output writers, and
  float evaluation of filter expressions.

Outside crates are reached from `src/` only through small trusted items
(`#[verifier::external_body]` wrappers and declared types), each with a
doc comment saying what its contract claims of the outside code.
