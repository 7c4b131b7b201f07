//! The registry of video jobs, persisted as one list so that a restarted
//! application can reattach to them. Entries are identified by their task
//! key; saving under a known key updates the entry in place.
use vstd::prelude::*;
use crate::keys::task_key_of;
use crate::clock::now_timestamp;
use crate::types::DownloadError;

verus! {

/// Declares `serde_json::Value` so that an entry can carry the caller's
/// metadata document unchanged; the registry never looks inside it.
#[verifier::external_type_specification]
#[verifier::external_body]
pub struct ExJsonValue(serde_json::Value);

/// One registered video job.
pub struct DownloadTask {
    pub cartoon_uuid: String,
    pub cartoon_name: String,
    pub chapter_uuid: String,
    pub chapter_name: String,
    pub video_url: String,
    pub cover: String,
    pub cartoon_detail: Option<serde_json::Value>,
    /// One of `downloading`, `paused`, `completed`, `error`, `cancelled`.
    pub status: String,
    /// The caller's progress value, kept as the bit pattern of the number it
    /// sent; the registry stores and returns it unchanged.
    pub progress: u64,
    pub start_time: String,
    pub updated_at: String,
}

pub open spec fn key_of(t: DownloadTask) -> Seq<char> {
    task_key_of(t.cartoon_uuid@, t.chapter_uuid@)
}

/// Whether a status names a job that is still to be reattached.
pub open spec fn is_active(status: Seq<char>) -> bool {
    status == "downloading"@ || status == "paused"@
}

/// The active entries of `s`, in order.
pub open spec fn active_of(s: Seq<DownloadTask>) -> Seq<DownloadTask>
    decreases s.len(),
{
    if s.len() == 0 {
        s
    } else if is_active(s.last().status@) {
        active_of(s.drop_last()).push(s.last())
    } else {
        active_of(s.drop_last())
    }
}

/// The entries of `s` whose key is not `key`, in order.
pub open spec fn without_key(s: Seq<DownloadTask>, key: Seq<char>) -> Seq<DownloadTask>
    decreases s.len(),
{
    if s.len() == 0 {
        s
    } else if key_of(s.last()) == key {
        without_key(s.drop_last(), key)
    } else {
        without_key(s.drop_last(), key).push(s.last())
    }
}

/// Position of the first entry with key `key`, or -1.
pub open spec fn index_of_key(s: Seq<DownloadTask>, key: Seq<char>) -> int
    decreases s.len(),
{
    if s.len() == 0 {
        -1
    } else if index_of_key(s.drop_last(), key) >= 0 {
        index_of_key(s.drop_last(), key)
    } else if key_of(s.last()) == key {
        s.len() - 1
    } else {
        -1
    }
}

pub open spec fn keys_unique(s: Seq<DownloadTask>) -> bool {
    forall|i: int, j: int| 0 <= i < j < s.len() ==> key_of(#[trigger] s[i]) != key_of(#[trigger] s[j])
}

/// The list after saving `entry` at time `now`.
pub open spec fn saved(s: Seq<DownloadTask>, entry: DownloadTask, now: String) -> Seq<DownloadTask> {
    let i = index_of_key(s, key_of(entry));
    if i >= 0 {
        s.update(i, refreshed(s[i], entry.status, entry.progress, now))
    } else {
        s.push(DownloadTask { updated_at: now, ..entry })
    }
}

/// Position of the entry that saving `entry` into `s` writes: the entry
/// already under its key, or the appended one.
pub open spec fn saved_at(s: Seq<DownloadTask>, entry: DownloadTask) -> int {
    let i = index_of_key(s, key_of(entry));
    if i >= 0 {
        i
    } else {
        s.len() as int
    }
}

/// `old_entry` with a new status and progress, updated at `now`.
pub open spec fn refreshed(old_entry: DownloadTask, status: String, progress: u64, now: String) -> DownloadTask {
    DownloadTask { status, progress, updated_at: now, ..old_entry }
}

pub proof fn lemma_index_of_key(s: Seq<DownloadTask>, key: Seq<char>)
    ensures
        -1 <= index_of_key(s, key) < s.len(),
        index_of_key(s, key) >= 0 ==> key_of(s[index_of_key(s, key)]) == key,
        forall|j: int| 0 <= j < s.len() && (index_of_key(s, key) < 0 || j < index_of_key(s, key)) ==> key_of(#[trigger] s[j]) != key,
    decreases s.len(),
{
    if s.len() > 0 {
        let t = s.drop_last();
        lemma_index_of_key(t, key);
        assert forall|j: int| 0 <= j < s.len() && (index_of_key(s, key) < 0 || j < index_of_key(s, key)) implies key_of(#[trigger] s[j]) != key by {
            if j < t.len() {
                assert(s[j] == t[j]);
            }
        }
    }
}

/// Whether `a` and `b` are equal strings.
fn same_text(a: &String, b: &String) -> (r: bool)
    ensures
        r == (a@ == b@),
{
    *a == *b
}

fn task_key_matches(t: &DownloadTask, cartoon_uuid: &String, chapter_uuid: &String) -> (r: bool)
    ensures
        r == (key_of(*t) == task_key_of(cartoon_uuid@, chapter_uuid@)),
{
    let a = crate::keys::task_key(t.cartoon_uuid.as_str(), t.chapter_uuid.as_str());
    let b = crate::keys::task_key(cartoon_uuid.as_str(), chapter_uuid.as_str());
    same_text(&a, &b)
}

fn find_task(tasks: &Vec<DownloadTask>, cartoon_uuid: &String, chapter_uuid: &String) -> (r: Option<usize>)
    ensures
        r is None <==> index_of_key(tasks@, task_key_of(cartoon_uuid@, chapter_uuid@)) < 0,
        r is Some ==> r->Some_0 as int == index_of_key(tasks@, task_key_of(cartoon_uuid@, chapter_uuid@)),
{
    let ghost key = task_key_of(cartoon_uuid@, chapter_uuid@);
    let wanted = crate::keys::task_key(cartoon_uuid.as_str(), chapter_uuid.as_str());
    let mut i: usize = 0;
    while i < tasks.len()
        invariant
            i <= tasks.len(),
            wanted@ == key,
            key == task_key_of(cartoon_uuid@, chapter_uuid@),
            index_of_key(tasks@.subrange(0, i as int), key) < 0,
        decreases tasks.len() - i,
    {
        assert(tasks@.subrange(0, i + 1).drop_last() =~= tasks@.subrange(0, i as int));
        let a = crate::keys::task_key(tasks[i].cartoon_uuid.as_str(), tasks[i].chapter_uuid.as_str());
        let matched = same_text(&a, &wanted);
        if matched {
            assert(tasks@.subrange(0, i + 1).last() == tasks@[i as int]);
            proof {
                lemma_index_prefix(tasks@, key, i + 1);
            }
            return Some(i);
        }
        i = i + 1;
    }
    assert(tasks@.subrange(0, tasks.len() as int) =~= tasks@);
    None
}

/// The first match in a prefix is the first match overall.
proof fn lemma_index_prefix(s: Seq<DownloadTask>, key: Seq<char>, n: int)
    requires
        0 <= n <= s.len(),
        index_of_key(s.subrange(0, n), key) >= 0,
    ensures
        index_of_key(s, key) == index_of_key(s.subrange(0, n), key),
    decreases s.len() - n,
{
    if n < s.len() {
        assert(s.subrange(0, n + 1).drop_last() =~= s.subrange(0, n));
        lemma_index_prefix(s, key, n + 1);
    } else {
        assert(s.subrange(0, n) =~= s);
    }
}

pub fn is_active_status(status: &String) -> (r: bool)
    ensures
        r == is_active(status@),
{
    let downloading = String::from_str("downloading");
    let paused = String::from_str("paused");
    same_text(status, &downloading) || same_text(status, &paused)
}

/// The registered jobs as stored in the list file.
pub struct TaskRegistry {
    tasks: Vec<DownloadTask>,
}

impl TaskRegistry {
    pub closed spec fn entries(&self) -> Seq<DownloadTask> {
        self.tasks@
    }

    pub fn from_tasks(tasks: Vec<DownloadTask>) -> (r: TaskRegistry)
        ensures
            r.entries() == tasks@,
    {
        TaskRegistry { tasks }
    }

    pub fn into_tasks(self) -> (r: Vec<DownloadTask>)
        ensures
            r@ == self.entries(),
    {
        self.tasks
    }

    /// The jobs still downloading or paused, in registry order.
    pub fn get_active_download_tasks(self) -> (r: Vec<DownloadTask>)
        ensures
            r@ == active_of(self.entries()),
    {
        let tasks = self.tasks;
        let ghost all = tasks@;
        let mut out: Vec<DownloadTask> = Vec::new();
        for t in it: tasks.into_iter()
            invariant
                it.seq() == all,
                out@ == active_of(all.subrange(0, it.index() as int)),
        {
            let ghost k = it.index();
            assert(all.subrange(0, k + 1).drop_last() =~= all.subrange(0, k as int));
            if is_active_status(&t.status) {
                out.push(t);
            }
        }
        assert(all.subrange(0, all.len() as int) =~= all);
        out
    }

    /// Saves a job stamped `now`: an entry with the same key gets the new
    /// status and progress; otherwise `entry` is appended.
    pub fn save_download_task_at(&mut self, entry: DownloadTask, now: String)
        ensures
            final(self).entries() == saved(old(self).entries(), entry, now),
    {
        proof {
            lemma_index_of_key(self.tasks@, key_of(entry));
        }
        match find_task(&self.tasks, &entry.cartoon_uuid, &entry.chapter_uuid) {
            Some(i) => {
                let mut t = self.tasks.remove(i);
                t.status = entry.status;
                t.progress = entry.progress;
                t.updated_at = now;
                self.tasks.insert(i, t);
                assert(self.tasks@ =~= old(self).entries().update(
                    i as int,
                    refreshed(old(self).entries()[i as int], entry.status, entry.progress, now),
                ));
            },
            None => {
                let mut e = entry;
                e.updated_at = now;
                self.tasks.push(e);
            },
        }
    }

    /// Saves a job stamped with the current time.
    pub fn save_download_task(&mut self, entry: DownloadTask)
        ensures
            final(self).entries() == saved(
                old(self).entries(),
                entry,
                final(self).entries()[saved_at(old(self).entries(), entry)].updated_at,
            ),
    {
        proof {
            lemma_index_of_key(self.tasks@, key_of(entry));
        }
        let now = now_timestamp();
        self.save_download_task_at(entry, now);
    }

    /// Sets the status of the job under the given key, stamped `now`.
    /// Fails when no entry has that key.
    pub fn update_download_task_status_at(&mut self, cartoon_uuid: &String, chapter_uuid: &String, status: String, now: String) -> (r: Result<(), DownloadError>)
        ensures
            ({
                let i = index_of_key(old(self).entries(), task_key_of(cartoon_uuid@, chapter_uuid@));
                &&& i < 0 <==> r is Err
                &&& r is Err ==> r->Err_0 is NotFound && final(self).entries() == old(self).entries()
                &&& r is Err ==> r->Err_0->NotFound_0@ == task_key_of(cartoon_uuid@, chapter_uuid@)
                &&& r is Ok ==> final(self).entries() == old(self).entries().update(
                    i,
                    DownloadTask { status, updated_at: now, ..old(self).entries()[i] },
                )
            }),
    {
        proof {
            lemma_index_of_key(self.tasks@, task_key_of(cartoon_uuid@, chapter_uuid@));
        }
        match find_task(&self.tasks, cartoon_uuid, chapter_uuid) {
            Some(i) => {
                let mut t = self.tasks.remove(i);
                t.status = status;
                t.updated_at = now;
                self.tasks.insert(i, t);
                assert(self.tasks@ =~= old(self).entries().update(
                    i as int,
                    DownloadTask { status, updated_at: now, ..old(self).entries()[i as int] },
                ));
                Ok(())
            },
            None => Err(DownloadError::NotFound(crate::keys::task_key(cartoon_uuid.as_str(), chapter_uuid.as_str()))),
        }
    }

    /// Sets the status of the job under the given key, stamped with the
    /// current time. Fails when no entry has that key.
    pub fn update_download_task_status(&mut self, cartoon_uuid: &String, chapter_uuid: &String, status: String) -> (r: Result<(), DownloadError>)
        ensures
            ({
                let i = index_of_key(old(self).entries(), task_key_of(cartoon_uuid@, chapter_uuid@));
                &&& i < 0 <==> r is Err
                &&& r is Err ==> r->Err_0 is NotFound && final(self).entries() == old(self).entries()
                &&& r is Err ==> r->Err_0->NotFound_0@ == task_key_of(cartoon_uuid@, chapter_uuid@)
                &&& r is Ok ==> final(self).entries() == old(self).entries().update(
                    i,
                    DownloadTask { status, updated_at: final(self).entries()[i].updated_at, ..old(self).entries()[i] },
                )
            }),
    {
        proof {
            lemma_index_of_key(self.tasks@, task_key_of(cartoon_uuid@, chapter_uuid@));
        }
        self.update_download_task_status_at(cartoon_uuid, chapter_uuid, status, now_timestamp())
    }

    /// Removes every entry with the given key. Fails, changing nothing, when
    /// there is none.
    pub fn remove_download_task(&mut self, cartoon_uuid: &String, chapter_uuid: &String) -> (r: Result<(), DownloadError>)
        ensures
            ({
                let key = task_key_of(cartoon_uuid@, chapter_uuid@);
                &&& index_of_key(old(self).entries(), key) < 0 <==> r is Err
                &&& r is Err ==> r->Err_0 is NotFound && final(self).entries() == old(self).entries()
                &&& r is Err ==> r->Err_0->NotFound_0@ == task_key_of(cartoon_uuid@, chapter_uuid@)
                &&& r is Ok ==> final(self).entries() == without_key(old(self).entries(), key)
            }),
    {
        let ghost key = task_key_of(cartoon_uuid@, chapter_uuid@);
        let ghost all = self.tasks@;
        let mut kept: Vec<DownloadTask> = Vec::new();
        let mut found = false;
        let mut tasks: Vec<DownloadTask> = Vec::new();
        std::mem::swap(&mut tasks, &mut self.tasks);
        for t in it: tasks.into_iter()
            invariant
                it.seq() == all,
                key == task_key_of(cartoon_uuid@, chapter_uuid@),
                kept@ == without_key(all.subrange(0, it.index() as int), key),
                found == (index_of_key(all.subrange(0, it.index() as int), key) >= 0),
        {
            let ghost k = it.index();
            assert(all.subrange(0, k + 1).drop_last() =~= all.subrange(0, k as int));
            assert(all.subrange(0, k + 1).last() == all[k as int]);
            if task_key_matches(&t, cartoon_uuid, chapter_uuid) {
                found = true;
            } else {
                kept.push(t);
            }
        }
        assert(all.subrange(0, all.len() as int) =~= all);
        if found {
            self.tasks = kept;
            Ok(())
        } else {
            proof {
                lemma_without_absent(all, key);
            }
            self.tasks = kept;
            Err(DownloadError::NotFound(crate::keys::task_key(cartoon_uuid.as_str(), chapter_uuid.as_str())))
        }
    }

    /// Marks the job cancelled and removes it; fails when it is not registered.
    pub fn cancel_cartoon_download(&mut self, cartoon_uuid: &String, chapter_uuid: &String) -> (r: Result<(), DownloadError>)
        ensures
            ({
                let key = task_key_of(cartoon_uuid@, chapter_uuid@);
                &&& index_of_key(old(self).entries(), key) < 0 <==> r is Err
                &&& r is Err ==> r->Err_0 is NotFound && final(self).entries() == old(self).entries()
                &&& r is Err ==> r->Err_0->NotFound_0@ == task_key_of(cartoon_uuid@, chapter_uuid@)
                &&& r is Ok ==> final(self).entries() == without_key(old(self).entries(), key)
            }),
    {
        let ghost before = self.tasks@;
        let ghost key = task_key_of(cartoon_uuid@, chapter_uuid@);
        let updated = self.update_download_task_status(cartoon_uuid, chapter_uuid, String::from_str("cancelled"));
        proof {
            lemma_index_of_key(before, key);
            if updated is Ok {
                let i = index_of_key(before, key);
                let after = self.tasks@;
                assert forall|j: int| 0 <= j < before.len() implies key_of(#[trigger] before[j]) == key_of(after[j]) by {
                    if j == i {
                        assert(after[j].cartoon_uuid == before[j].cartoon_uuid);
                        assert(after[j].chapter_uuid == before[j].chapter_uuid);
                    }
                }
                lemma_same_keys(before, after, key);
            }
        }
        self.remove_download_task(cartoon_uuid, chapter_uuid)
    }
}

/// With no entry under `key`, dropping that key changes nothing.
proof fn lemma_without_absent(s: Seq<DownloadTask>, key: Seq<char>)
    requires
        index_of_key(s, key) < 0,
    ensures
        without_key(s, key) == s,
    decreases s.len(),
{
    if s.len() > 0 {
        lemma_without_absent(s.drop_last(), key);
        assert(s.drop_last().push(s.last()) =~= s);
    }
}

/// Changing entries under `key` without touching their keys changes neither
/// where `key` first occurs nor what remains once it is dropped.
proof fn lemma_same_keys(a: Seq<DownloadTask>, b: Seq<DownloadTask>, key: Seq<char>)
    requires
        a.len() == b.len(),
        forall|j: int| 0 <= j < a.len() ==> key_of(#[trigger] a[j]) == key_of(b[j]),
        forall|j: int| 0 <= j < a.len() && key_of(#[trigger] a[j]) != key ==> a[j] == b[j],
    ensures
        index_of_key(a, key) == index_of_key(b, key),
        without_key(a, key) == without_key(b, key),
    decreases a.len(),
{
    if a.len() > 0 {
        let (a1, b1) = (a.drop_last(), b.drop_last());
        assert forall|j: int| 0 <= j < a1.len() implies key_of(#[trigger] a1[j]) == key_of(b1[j]) by {
            assert(a1[j] == a[j] && b1[j] == b[j]);
        }
        assert forall|j: int| 0 <= j < a1.len() && key_of(#[trigger] a1[j]) != key implies a1[j] == b1[j] by {
            assert(a1[j] == a[j] && b1[j] == b[j]);
        }
        lemma_same_keys(a1, b1, key);
    }
}

/// Saving under a key that is already registered updates that entry in
/// place: the list keeps its length, the entry takes the new status and
/// progress, and a list without duplicate keys stays without. Saving under
/// a new key appends one entry.
pub proof fn registry_save_no_duplicate(s: Seq<DownloadTask>, entry: DownloadTask, now: String)
    requires
        keys_unique(s),
    ensures
        keys_unique(saved(s, entry, now)),
        index_of_key(s, key_of(entry)) >= 0 ==> saved(s, entry, now).len() == s.len()
            && saved(s, entry, now)[index_of_key(s, key_of(entry))].status == entry.status
            && saved(s, entry, now)[index_of_key(s, key_of(entry))].progress == entry.progress,
        index_of_key(s, key_of(entry)) < 0 ==> saved(s, entry, now).len() == s.len() + 1,
        index_of_key(saved(s, entry, now), key_of(entry)) >= 0,
{
    lemma_index_of_key(s, key_of(entry));
    let t = saved(s, entry, now);
    let i = index_of_key(s, key_of(entry));
    assert forall|a: int| 0 <= a < s.len() implies key_of(#[trigger] t[a]) == key_of(s[a]) by {}
    if i < 0 {
        assert(key_of(t[s.len() as int]) == key_of(entry));
    }
    lemma_index_of_key(t, key_of(entry));
    if index_of_key(t, key_of(entry)) < 0 {
        if i >= 0 {
            assert(key_of(t[i]) == key_of(entry));
        } else {
            assert(key_of(t[s.len() as int]) == key_of(entry));
        }
    }
}

/// Removing a key that is not registered fails and leaves the list as it is.
pub proof fn registry_remove_absent(s: Seq<DownloadTask>, key: Seq<char>)
    requires
        index_of_key(s, key) < 0,
    ensures
        without_key(s, key) == s,
{
    lemma_without_absent(s, key);
}

/// Saving the same entry twice leaves the list as one save at the later
/// time would: the two lists differ only in the update time of that entry.
pub proof fn registry_save_twice(s: Seq<DownloadTask>, entry: DownloadTask, t1: String, t2: String)
    ensures
        saved(saved(s, entry, t1), entry, t2) == saved(s, entry, t2),
        saved(saved(s, entry, t1), entry, t2).len() == saved(s, entry, t1).len(),
        forall|j: int| 0 <= j < saved(s, entry, t1).len() && j != saved_at(s, entry) ==>
            #[trigger] saved(saved(s, entry, t1), entry, t2)[j] == saved(s, entry, t1)[j],
{
    lemma_index_of_key(s, key_of(entry));
    let k = key_of(entry);
    let i = index_of_key(s, k);
    let s1 = saved(s, entry, t1);
    if i >= 0 {
        let a = s1;
        let b = s;
        assert forall|j: int| 0 <= j < b.len() implies key_of(#[trigger] b[j]) == key_of(a[j]) by {}
        assert forall|j: int| 0 <= j < b.len() && key_of(#[trigger] b[j]) != k implies b[j] == a[j] by {}
        lemma_same_keys(b, a, k);
        assert(saved(s1, entry, t2) =~= saved(s, entry, t2));
    } else {
        assert(s1.drop_last() =~= s);
        assert(key_of(s1.last()) == k);
        assert(index_of_key(s1, k) == s.len() as int);
        assert(saved(s1, entry, t2) =~= saved(s, entry, t2));
    }
}

} // verus!
