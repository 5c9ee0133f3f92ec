//! How a cache manager is set up, one piece of outside work at a time.
//!
//! [`FileCacheMgr::new`] opens the first stage. Each stage takes the outcome of its piece of work
//! and opens the next one, or ends the setup with the error that the work came to. The last stage
//! gives the manager.

use crate::config::BlobCacheConfig;
use crate::error::CacheError;
use crate::manager::FileCacheMgr;
use crate::metrics::{BlobcacheMetrics, MetricsView};
use crate::model::{MgrView, Registered};
use crate::runtime::{start_flusher, started_flusher};
use crate::work_dir::{work_dir_verdict, WorkDirEvent, WorkDirStep, WorkDirVerdict};
use std::sync::Arc;
use tokio::runtime::Runtime;
use vstd::prelude::*;

verus! {

/// What a manager is made of, as far as the caller gives it.
pub struct SetupInputs<B, P> {
    pub blob_config: BlobCacheConfig,
    pub backend: B,
    pub prefetch_config: Arc<P>,
    pub id: String,
    pub validate: bool,
    pub is_compressed: bool,
}

/// The working directory has to be found usable. The first call to make on it is a stat.
pub struct WorkDirStage<B, P> {
    pub inputs: SetupInputs<B, P>,
}

/// The runtime has to be started.
pub struct RuntimeStage<B, P> {
    pub inputs: SetupInputs<B, P>,
    pub metrics: BlobcacheMetrics,
}

/// The prefetch workers have to be created, with these metrics and this prefetch configuration.
pub struct WorkerStage<B, P> {
    pub inputs: SetupInputs<B, P>,
    pub metrics: BlobcacheMetrics,
    pub runtime: Arc<Runtime>,
}

/// What comes after a call on the working directory.
pub enum WorkDirProgress<B, P> {
    /// Create the directory and its parents.
    CreateDirAll(WorkDirStage<B, P>),
    /// Examine the directory that was created.
    StatCreated(WorkDirStage<B, P>),
    /// The directory is usable.
    Ready(RuntimeStage<B, P>),
    /// There is no usable directory.
    Failed(CacheError),
}

impl<B, P> WorkDirStage<B, P> {
    /// The directory that the calls are made on.
    pub fn work_dir(&self) -> (work_dir: &str)
        ensures
            work_dir@ == self.inputs.blob_config.work_dir@,
    {
        self.inputs.blob_config.work_dir.as_str()
    }

    /// Takes the outcome of a call on the working directory. Once the directory is usable, the
    /// metrics are set up for it.
    pub fn advance(self, event: WorkDirEvent) -> (progress: WorkDirProgress<B, P>)
        ensures
            match work_dir_verdict(event) {
                WorkDirVerdict::Create => progress == WorkDirProgress::CreateDirAll(self),
                WorkDirVerdict::Recheck => progress == WorkDirProgress::StatCreated(self),
                WorkDirVerdict::Usable => progress matches WorkDirProgress::Ready(stage)
                    && stage.inputs == self.inputs && stage.metrics@ == (MetricsView {
                    id: self.inputs.id@,
                    work_dir: self.inputs.blob_config.work_dir@,
                    underlying_files: Set::empty(),
                }),
                WorkDirVerdict::NotADirectory => progress matches WorkDirProgress::Failed(
                    CacheError::NotADirectory { work_dir },
                ) && work_dir@ == self.inputs.blob_config.work_dir@,
                WorkDirVerdict::Unavailable(cause) => progress matches WorkDirProgress::Failed(
                    CacheError::WorkDirUnavailable { work_dir, failure },
                ) && work_dir@ == self.inputs.blob_config.work_dir@ && failure == cause,
            },
    {
        let metrics = match self.inputs.blob_config.get_work_dir(event) {
            WorkDirStep::CreateDirAll => {
                return WorkDirProgress::CreateDirAll(self);
            },
            WorkDirStep::StatCreated => {
                return WorkDirProgress::StatCreated(self);
            },
            WorkDirStep::Done(Err(error)) => {
                return WorkDirProgress::Failed(error);
            },
            WorkDirStep::Done(Ok(work_dir)) => BlobcacheMetrics::new(
                self.inputs.id.as_str(),
                work_dir,
            ),
        };
        WorkDirProgress::Ready(RuntimeStage { inputs: self.inputs, metrics })
    }
}

impl<B, P> RuntimeStage<B, P> {
    /// Starts the runtime that flushes caches.
    pub fn start_runtime(self) -> (next: Result<WorkerStage<B, P>, CacheError>)
        ensures
            match next {
                Ok(stage) => {
                    &&& stage.inputs == self.inputs
                    &&& stage.metrics == self.metrics
                    &&& started_flusher(Ok(*stage.runtime))
                },
                Err(error) => error matches CacheError::Runtime(cause) && started_flusher(
                    Err(cause),
                ),
            },
    {
        self.with_runtime(start_flusher())
    }

    /// Takes the outcome of starting the runtime.
    pub fn with_runtime(self, started: Result<Runtime, std::io::Error>) -> (next: Result<
        WorkerStage<B, P>,
        CacheError,
    >)
        ensures
            match started {
                Ok(runtime) => next == Ok::<WorkerStage<B, P>, CacheError>(
                    WorkerStage {
                        inputs: self.inputs,
                        metrics: self.metrics,
                        runtime: Arc::new(runtime),
                    },
                ),
                Err(error) => next == Err::<WorkerStage<B, P>, CacheError>(
                    CacheError::Runtime(error),
                ),
            },
    {
        match started {
            Ok(runtime) => Ok(
                WorkerStage {
                    inputs: self.inputs,
                    metrics: self.metrics,
                    runtime: Arc::new(runtime),
                },
            ),
            Err(error) => Err(CacheError::Runtime(error)),
        }
    }
}

impl<B, P> WorkerStage<B, P> {
    /// Takes the outcome of creating the prefetch workers, and gives the manager. It has no entry
    /// yet.
    pub fn with_workers<W, E>(self, created: Result<W, std::io::Error>) -> (mgr: Result<
        FileCacheMgr<B, P, W, E>,
        CacheError,
    >)
        ensures
            match created {
                Ok(workers) => mgr matches Ok(mgr) && mgr.wf() && mgr@ == (MgrView::<
                    B,
                    P,
                    W,
                    Arc<Registered<E>>,
                > {
                    blobs: Map::empty(),
                    next_stamp: 0,
                    backend: self.inputs.backend,
                    metrics: self.metrics@,
                    prefetch_config: self.inputs.prefetch_config,
                    runtime: self.runtime,
                    worker_mgr: Arc::new(workers),
                    work_dir: self.inputs.blob_config.work_dir@,
                    validate: self.inputs.validate,
                    disable_indexed_map: self.inputs.blob_config.disable_indexed_map,
                    is_compressed: self.inputs.is_compressed,
                }),
                Err(error) => mgr == Err::<FileCacheMgr<B, P, W, E>, CacheError>(
                    CacheError::Workers(error),
                ),
            },
    {
        match created {
            Ok(workers) => Ok(
                FileCacheMgr::assemble(self.inputs, self.metrics, self.runtime, Arc::new(workers)),
            ),
            Err(error) => Err(CacheError::Workers(error)),
        }
    }
}

} // verus!
