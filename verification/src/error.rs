//! Why a cache cannot be set up.

use vstd::prelude::*;

verus! {

/// Error of the JSON decoder.
#[verifier::external_type_specification]
#[verifier::external_body]
pub struct ExJsonError(serde_json::Error);

/// Error of the operating system, or of a library that wraps one.
#[verifier::external_type_specification]
#[verifier::external_body]
pub struct ExIoError(std::io::Error);

/// Error number of an invalid argument.
pub const EINVAL: i32 = 22;

/// Error number of a missing file or directory.
pub const ENOENT: i32 = 2;

/// A file system call that failed.
#[derive(Debug)]
pub struct OsFailure {
    /// What the call reported, as text.
    pub detail: String,
    /// Error number that the operating system set last.
    pub last_os_error: i32,
}

/// Why a cache cannot be set up.
#[derive(Debug)]
pub enum CacheError {
    /// The cache's section of the configuration does not decode.
    InvalidConfig(serde_json::Error),
    /// The working directory can neither be examined nor created.
    WorkDirUnavailable { work_dir: String, failure: OsFailure },
    /// The working directory is something else than a directory.
    NotADirectory { work_dir: String },
    /// The runtime for blocking I/O does not start.
    Runtime(std::io::Error),
    /// The prefetch workers cannot be created.
    Workers(std::io::Error),
}

/// Text of an error about a working directory that cannot be examined.
pub open spec fn unavailable_text(work_dir: Seq<char>, detail: Seq<char>) -> Seq<char> {
    "fail to stat blobcache work_dir "@ + work_dir + ": "@ + detail
}

/// Text of an error about a working directory that is no directory.
pub open spec fn not_a_directory_text(work_dir: Seq<char>) -> Seq<char> {
    "blobcache work_dir "@ + work_dir + " is not a directory"@
}

impl CacheError {
    /// Error number that stands for this error: the one set last for a file system call that
    /// failed, and none where another library's error is kept as it came.
    pub fn os_code(&self) -> (code: Option<i32>)
        ensures
            code == (match *self {
                CacheError::InvalidConfig(_) => Some(EINVAL),
                CacheError::WorkDirUnavailable { work_dir, failure } => Some(failure.last_os_error),
                CacheError::NotADirectory { work_dir } => Some(ENOENT),
                CacheError::Runtime(_) => None,
                CacheError::Workers(_) => None,
            }),
    {
        match self {
            CacheError::InvalidConfig(_) => Some(EINVAL),
            CacheError::WorkDirUnavailable { failure, .. } => Some(failure.last_os_error),
            CacheError::NotADirectory { .. } => Some(ENOENT),
            CacheError::Runtime(_) => None,
            CacheError::Workers(_) => None,
        }
    }

    /// Explains an error about the working directory. The other errors explain themselves.
    pub fn message(&self) -> (message: Option<String>)
        ensures
            match *self {
                CacheError::WorkDirUnavailable { work_dir, failure } => message is Some
                    && message->0@ == unavailable_text(work_dir@, failure.detail@),
                CacheError::NotADirectory { work_dir } => message is Some && message->0@
                    == not_a_directory_text(work_dir@),
                _ => message is None,
            },
    {
        match self {
            CacheError::WorkDirUnavailable { work_dir, failure } => {
                let mut text = "fail to stat blobcache work_dir ".to_string();
                text.append(work_dir.as_str());
                text.append(": ");
                text.append(failure.detail.as_str());
                Some(text)
            },
            CacheError::NotADirectory { work_dir } => {
                let mut text = "blobcache work_dir ".to_string();
                text.append(work_dir.as_str());
                text.append(" is not a directory");
                Some(text)
            },
            _ => None,
        }
    }
}

} // verus!
