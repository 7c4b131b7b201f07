//! Cooperative pause flags, one per chapter key. A download loop reads its
//! flag between operations; the flag is dropped when the loop ends, so a
//! stale pause never blocks a later run.
use vstd::prelude::*;
use vstd::hash_map::StringHashMap;
use crate::keys::{chapter_key, chapter_key_of};

verus! {

pub struct PauseRegistry {
    flags: StringHashMap<bool>,
}

impl PauseRegistry {
    pub closed spec fn flags(&self) -> Map<Seq<char>, bool> {
        self.flags@
    }

    /// Whether the flag stored under `key` is set; an absent flag is clear.
    pub open spec fn paused_in(flags: Map<Seq<char>, bool>, key: Seq<char>) -> bool {
        flags.contains_key(key) && flags[key]
    }

    pub fn new() -> (r: PauseRegistry)
        ensures
            r.flags() == Map::<Seq<char>, bool>::empty(),
    {
        PauseRegistry { flags: StringHashMap::new() }
    }

    /// Creates the flag of `key` if needed and sets it to `paused`.
    pub fn set_pause_flag(&mut self, key: &str, paused: bool)
        ensures
            final(self).flags() == old(self).flags().insert(key@, paused),
    {
        let k = key.to_owned();
        self.flags.insert(k, paused);
    }

    pub fn is_paused(&self, key: &str) -> (r: bool)
        ensures
            r == Self::paused_in(self.flags(), key@),
    {
        match self.flags.get(key) {
            Some(p) => *p,
            None => false,
        }
    }

    /// Drops the flag of `key`.
    pub fn clear_pause_flag(&mut self, key: &str)
        ensures
            final(self).flags() == old(self).flags().remove(key@),
    {
        self.flags.remove(key);
    }

    /// Asks the chapter's download loop to stop; returns the flag as it now reads.
    pub fn pause_chapter_download(&mut self, manga_uuid: &str, group_path_word: &str, chapter_uuid: &str) -> (r: bool)
        ensures
            final(self).flags() == old(self).flags().insert(
                chapter_key_of(manga_uuid@, group_path_word@, chapter_uuid@),
                true,
            ),
            r,
    {
        let key = chapter_key(manga_uuid, group_path_word, chapter_uuid);
        self.set_pause_flag(key.as_str(), true);
        self.is_paused(key.as_str())
    }

    /// Clears the chapter's pause request, so that the next run goes ahead.
    pub fn resume_chapter_download(&mut self, manga_uuid: &str, group_path_word: &str, chapter_uuid: &str) -> (r: bool)
        ensures
            final(self).flags() == old(self).flags().insert(
                chapter_key_of(manga_uuid@, group_path_word@, chapter_uuid@),
                false,
            ),
            r,
    {
        let key = chapter_key(manga_uuid, group_path_word, chapter_uuid);
        self.set_pause_flag(key.as_str(), false);
        true
    }
}

} // verus!
