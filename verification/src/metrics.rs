//! What a cache reports about itself.

use vstd::hash_set::StringHashSet;
use vstd::prelude::*;

verus! {

/// What metrics stand for.
#[verifier::ext_equal]
pub struct MetricsView {
    pub id: Seq<char>,
    pub work_dir: Seq<char>,
    pub underlying_files: Set<Seq<char>>,
}

/// Metrics of one cache.
pub struct BlobcacheMetrics {
    id: String,
    work_dir: String,
    underlying_files: StringHashSet,
}

impl View for BlobcacheMetrics {
    type V = MetricsView;

    closed spec fn view(&self) -> MetricsView {
        MetricsView {
            id: self.id@,
            work_dir: self.work_dir@,
            underlying_files: self.underlying_files@,
        }
    }
}

impl BlobcacheMetrics {
    /// Metrics of a cache that has no file yet.
    pub fn new(id: &str, work_dir: &str) -> (metrics: BlobcacheMetrics)
        ensures
            metrics@ == (MetricsView {
                id: id@,
                work_dir: work_dir@,
                underlying_files: Set::empty(),
            }),
    {
        BlobcacheMetrics {
            id: id.to_string(),
            work_dir: work_dir.to_string(),
            underlying_files: StringHashSet::new(),
        }
    }

    /// Id of the cache.
    pub fn id(&self) -> (id: &str)
        ensures
            id@ == self@.id,
    {
        self.id.as_str()
    }

    /// Directory that the cache keeps its files in.
    pub fn work_dir(&self) -> (work_dir: &str)
        ensures
            work_dir@ == self@.work_dir,
    {
        self.work_dir.as_str()
    }

    /// Whether a blob was ever cached.
    pub fn has_underlying_file(&self, blob_id: &str) -> (known: bool)
        ensures
            known == self@.underlying_files.contains(blob_id@),
    {
        self.underlying_files.contains(blob_id)
    }

    /// Records that a blob is cached.
    pub fn add_underlying_file(&mut self, blob_id: &str)
        ensures
            final(self)@ == (MetricsView {
                underlying_files: old(self)@.underlying_files.insert(blob_id@),
                ..old(self)@
            }),
    {
        self.underlying_files.insert(blob_id.to_string());
    }
}

} // verus!
