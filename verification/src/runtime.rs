//! The runtime that caches run their blocking I/O on.

use std::time::Duration;
use tokio::runtime::{Builder, Runtime};
use vstd::prelude::*;

verus! {

/// A started runtime.
#[verifier::external_type_specification]
#[verifier::external_body]
pub struct ExRuntime(Runtime);

/// What a runtime is started with.
#[derive(Debug)]
pub struct RuntimeSettings {
    pub worker_threads: usize,
    /// Seconds that an idle thread for blocking work is kept.
    pub thread_keep_alive: u64,
    pub max_blocking_threads: usize,
    pub thread_name: String,
}

/// Whether these are the settings of the runtime that flushes caches.
pub open spec fn flushes_caches(settings: RuntimeSettings) -> bool {
    &&& settings.worker_threads == 1
    &&& settings.thread_keep_alive == 10
    &&& settings.max_blocking_threads == 8
    &&& settings.thread_name@ == "cache-flusher"@
}

/// Settings of the runtime that flushes caches. It mostly does blocking I/O, so one worker thread
/// is enough.
pub fn flusher_settings() -> (settings: RuntimeSettings)
    ensures
        flushes_caches(settings),
{
    RuntimeSettings {
        worker_threads: 1,
        thread_keep_alive: 10,
        max_blocking_threads: 8,
        thread_name: "cache-flusher".to_string(),
    }
}

/// Starts a multi-threaded runtime by `tokio::runtime::Builder`, with the given settings and no
/// others. Whether it starts is up to the operating system, so nothing is claimed of the result;
/// that the settings are those of the flusher is asked of the caller. `Builder::build` panics
/// where the operating system refuses a thread, which no argument can rule out.
#[verifier::external_body]
fn start_runtime(settings: RuntimeSettings) -> (runtime: Result<Runtime, std::io::Error>)
    requires
        flushes_caches(settings),
{
    Builder::new_multi_thread()
        .worker_threads(settings.worker_threads)
        .thread_keep_alive(Duration::from_secs(settings.thread_keep_alive))
        .max_blocking_threads(settings.max_blocking_threads)
        .thread_name(settings.thread_name)
        .build()
}

/// Applies a way of starting a runtime to settings, so that a contract can name where a runtime
/// came from.
fn start_by<F: Fn(RuntimeSettings) -> Result<Runtime, std::io::Error>>(
    f: F,
    settings: RuntimeSettings,
) -> (started: Result<Runtime, std::io::Error>)
    requires
        call_requires(f, (settings,)),
    ensures
        call_ensures(f, (settings,), started),
{
    f(settings)
}

/// Whether `started` is what starting a runtime with the settings of the flusher came to.
pub closed spec fn started_flusher(started: Result<Runtime, std::io::Error>) -> bool {
    exists|settings: RuntimeSettings|
        flushes_caches(settings) && #[trigger] call_ensures(start_runtime, (settings,), started)
}

/// Starts the runtime that flushes caches.
pub fn start_flusher() -> (started: Result<Runtime, std::io::Error>)
    ensures
        started_flusher(started),
{
    start_by(start_runtime, flusher_settings())
}

} // verus!
