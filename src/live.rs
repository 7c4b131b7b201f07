//! The live progress table of video jobs, keyed by progress key. An entry
//! exists only while its job runs.
use vstd::prelude::*;
use vstd::hash_map::StringHashMap;
use crate::hls::CartoonProgressTracker;
use crate::types::{CartoonChapterInfo, CartoonDownloadProgress, DownloadError};
use crate::episode::cartoon_progress;

verus! {

pub struct ProgressTable {
    live: StringHashMap<CartoonProgressTracker>,
}

impl ProgressTable {
    pub closed spec fn entries(&self) -> Map<Seq<char>, CartoonProgressTracker> {
        self.live@
    }

    pub fn new() -> (r: ProgressTable)
        ensures
            r.entries() == Map::<Seq<char>, CartoonProgressTracker>::empty(),
    {
        ProgressTable { live: StringHashMap::new() }
    }

    /// Stores `progress` as the live entry of `key`.
    pub fn update(&mut self, key: &str, progress: CartoonProgressTracker)
        ensures
            final(self).entries() == old(self).entries().insert(key@, progress),
    {
        self.live.insert(key.to_owned(), progress);
    }

    /// Registers a job under `key` with its first progress entry. A second
    /// job under a key that is still running is refused, leaving the table
    /// as it is.
    pub fn start_job(&mut self, key: &str, progress: CartoonProgressTracker) -> (r: Result<(), DownloadError>)
        ensures
            old(self).entries().contains_key(key@) <==> r is Err,
            r is Err ==> r->Err_0 is AlreadyExists && final(self).entries() == old(self).entries(),
            r is Ok ==> final(self).entries() == old(self).entries().insert(key@, progress),
    {
        if self.live.contains_key(key) {
            return Err(DownloadError::AlreadyExists(key.to_owned()));
        }
        self.live.insert(key.to_owned(), progress);
        Ok(())
    }

    /// Drops the live entry of `key`.
    pub fn remove(&mut self, key: &str)
        ensures
            final(self).entries() == old(self).entries().remove(key@),
    {
        self.live.remove(key);
    }

    pub fn get(&self, key: &str) -> (r: Option<&CartoonProgressTracker>)
        ensures
            self.entries().contains_key(key@) <==> r is Some,
            r is Some ==> *r->Some_0 == self.entries()[key@],
    {
        self.live.get(key)
    }

    /// The progress of the episode under `key`: its live entry if there is
    /// one, else what its journal says (`journal` is the one found on disk).
    pub fn query(&self, key: &str, journal: Option<&CartoonChapterInfo>) -> (r: CartoonDownloadProgress)
        ensures
            self.entries().contains_key(key@) ==> r == (CartoonDownloadProgress {
                downloaded_size: self.entries()[key@].downloaded_bytes,
                total_size: self.entries()[key@].total_bytes,
                percent: self.entries()[key@].percent,
                completed: self.entries()[key@].status == crate::hls::TransferStatus::Completed,
            }),
            !self.entries().contains_key(key@) && journal is Some ==> r.completed && r.percent == 100
                && r.downloaded_size == journal->Some_0.file_size && r.total_size == journal->Some_0.file_size,
            !self.entries().contains_key(key@) && journal is None ==> !r.completed && r.percent == 0
                && r.downloaded_size == 0 && r.total_size == 0,
    {
        cartoon_progress(self.live.get(key), journal)
    }
}

} // verus!
