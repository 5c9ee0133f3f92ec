//! How the working directory is found usable, or made so.

use crate::config::BlobCacheConfig;
use crate::error::{CacheError, OsFailure};
use vstd::prelude::*;

verus! {

/// Outcome of one file system call on the working directory. A stat that succeeds tells whether it
/// found a directory.
#[derive(Debug)]
pub enum WorkDirEvent {
    /// The first stat.
    Stat(Result<bool, OsFailure>),
    /// The creation of the directory and its parents.
    CreateDirAll(Result<(), OsFailure>),
    /// The stat that follows a creation.
    StatCreated(Result<bool, OsFailure>),
}

/// What is known of the working directory after an event.
pub enum WorkDirVerdict {
    /// It has to be created.
    Create,
    /// It was created, and has to be examined again.
    Recheck,
    /// It is a directory.
    Usable,
    /// It is something else.
    NotADirectory,
    /// This call failed, and nothing is left to try.
    Unavailable(OsFailure),
}

/// What an event tells of the working directory.
pub open spec fn work_dir_verdict(event: WorkDirEvent) -> WorkDirVerdict {
    match event {
        WorkDirEvent::Stat(Err(_)) => WorkDirVerdict::Create,
        WorkDirEvent::CreateDirAll(Ok(_)) => WorkDirVerdict::Recheck,
        WorkDirEvent::CreateDirAll(Err(failure)) => WorkDirVerdict::Unavailable(failure),
        WorkDirEvent::StatCreated(Err(failure)) => WorkDirVerdict::Unavailable(failure),
        WorkDirEvent::Stat(Ok(is_dir)) | WorkDirEvent::StatCreated(Ok(is_dir)) => if is_dir {
            WorkDirVerdict::Usable
        } else {
            WorkDirVerdict::NotADirectory
        },
    }
}

/// What comes after an event.
#[derive(Debug)]
pub enum WorkDirStep<'a> {
    /// Create the directory and its parents.
    CreateDirAll,
    /// Examine the directory that was created.
    StatCreated,
    /// The directory, or why there is none.
    Done(Result<&'a str, CacheError>),
}

impl BlobCacheConfig {
    /// Takes the outcome of a call on the working directory, and tells the call to make next or
    /// the result. The first call to make is a stat. Where it fails, the directory is created and
    /// examined once more, and a failure there is final.
    pub fn get_work_dir(&self, event: WorkDirEvent) -> (step: WorkDirStep<'_>)
        ensures
            match work_dir_verdict(event) {
                WorkDirVerdict::Create => step is CreateDirAll,
                WorkDirVerdict::Recheck => step is StatCreated,
                WorkDirVerdict::Usable => step matches WorkDirStep::Done(Ok(dir)) && dir@
                    == self.work_dir@,
                WorkDirVerdict::NotADirectory => step matches WorkDirStep::Done(
                    Err(CacheError::NotADirectory { work_dir }),
                ) && work_dir@ == self.work_dir@,
                WorkDirVerdict::Unavailable(cause) => step matches WorkDirStep::Done(
                    Err(CacheError::WorkDirUnavailable { work_dir, failure }),
                ) && work_dir@ == self.work_dir@ && failure == cause,
            },
    {
        match event {
            WorkDirEvent::Stat(Err(_)) => WorkDirStep::CreateDirAll,
            WorkDirEvent::CreateDirAll(Ok(())) => WorkDirStep::StatCreated,
            WorkDirEvent::CreateDirAll(Err(failure)) | WorkDirEvent::StatCreated(Err(failure)) => {
                let work_dir = self.work_dir.clone();
                WorkDirStep::Done(Err(CacheError::WorkDirUnavailable { work_dir, failure }))
            },
            WorkDirEvent::Stat(Ok(is_dir)) | WorkDirEvent::StatCreated(Ok(is_dir)) => {
                if is_dir {
                    WorkDirStep::Done(Ok(self.work_dir.as_str()))
                } else {
                    let work_dir = self.work_dir.clone();
                    WorkDirStep::Done(Err(CacheError::NotADirectory { work_dir }))
                }
            },
        }
    }
}

} // verus!
