# filecache

A verified manager for blobs that are cached in local files. It hands out one shared entry per
blob, drops entries that nobody uses, and decides how a cache is set up.

- `src/` is the library. Verus proves the contract of every function but two, which call out and
  are trusted: `runtime::start_runtime` starts a tokio runtime, and nothing is claimed of its
  result; `table::strong_count` counts the owners of an entry, and is only said to come to one at
  least. The declared types `tokio::runtime::Runtime`, `serde_json::Error` and `std::io::Error` are
  opaque to the proofs.
  - `config`, `work_dir`, `error`: the configuration, and how the working directory is made usable.
  - `setup`, `runtime`: the stages of setting up a manager.
  - `manager`, `table`, `metrics`: the manager and what it holds.
  - `model`, `laws`: what a manager stands for, and what holds of it as a whole.
- `app/` is ordinary Rust around the library: configuration values, the file system, locks, and the
  interfaces of the storage stack.
- `tests/` runs the library.
