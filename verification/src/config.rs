//! What a cache is configured with.

use vstd::prelude::*;

verus! {

/// The directory that blobs are cached in where the configuration names none.
pub fn default_work_dir() -> (dir: String)
    ensures
        dir@ == "."@,
{
    ".".to_string()
}

/// What a cache is configured with. `P` is the configuration of the prefetch workers.
pub struct CacheConfig<P> {
    /// Whether cached data is checked against its digest.
    pub cache_validate: bool,
    /// Whether data is cached in compressed form.
    pub cache_compressed: bool,
    /// The section that only the file cache reads, or why it does not decode.
    pub cache_config: Result<BlobCacheConfig, serde_json::Error>,
    pub prefetch_config: P,
}

/// The part of the configuration that only the file cache reads.
#[derive(Debug)]
pub struct BlobCacheConfig {
    /// Directory that blobs are cached in.
    pub work_dir: String,
    /// Whether the indexed chunk map is left unused.
    pub disable_indexed_map: bool,
}

impl Clone for BlobCacheConfig {
    fn clone(&self) -> (config: BlobCacheConfig)
        ensures
            config == *self,
    {
        BlobCacheConfig {
            work_dir: self.work_dir.clone(),
            disable_indexed_map: self.disable_indexed_map,
        }
    }
}

impl BlobCacheConfig {
    /// Builds the configuration from the fields that a configuration file holds. A field that the
    /// file leaves out takes its default: the current directory, and `false`.
    pub fn from_fields(work_dir: Option<String>, disable_indexed_map: Option<bool>) -> (config:
        BlobCacheConfig)
        ensures
            config.work_dir@ == (match work_dir {
                Some(dir) => dir@,
                None => "."@,
            }),
            config.disable_indexed_map == (match disable_indexed_map {
                Some(disable) => disable,
                None => false,
            }),
    {
        let work_dir = match work_dir {
            Some(dir) => dir,
            None => default_work_dir(),
        };
        let disable_indexed_map = match disable_indexed_map {
            Some(disable) => disable,
            None => false,
        };
        BlobCacheConfig { work_dir, disable_indexed_map }
    }
}

} // verus!
