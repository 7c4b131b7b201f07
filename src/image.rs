//! The image-set downloader as a state machine.
//!
//! The machine decides; its driver performs. Each call of `step` hands in
//! what the driver observed for the last action (the pause flag, whether a
//! file is on disk, whether a fetch succeeded, that the delay elapsed) and
//! returns the next action. Images are taken in order. For each one the pause
//! flag is read; an image already on disk is recorded without a fetch; before
//! a fetch the pause flag is read again; a fetch that succeeds is recorded,
//! one that fails is skipped; after a fetch the pause flag is read, the
//! driver waits a fixed delay and the flag is read once more. A set flag
//! ends the run at once.
use vstd::prelude::*;
use crate::types::{ChapterInfo, DownloadInfo, ImageInfo};
use crate::keys::{chapter_key, chapter_key_of};
use crate::clock::now_timestamp;

verus! {

/// What the driver is asked to do next.
#[derive(PartialEq, Eq, Structural, Clone, Copy, Debug)]
pub enum ImageAction {
    /// Read the pause flag of the chapter.
    CheckPause,
    /// Report whether the file of image `i` is already on disk.
    CheckExists(usize),
    /// Fetch image `i` and store it under its file name.
    Fetch(usize),
    /// Wait the fixed delay between requests.
    Delay,
    /// The run is over: write the journal.
    Finish,
}

/// What the driver observed.
#[derive(PartialEq, Eq, Structural, Clone, Copy, Debug)]
pub enum ImageEvent {
    Paused(bool),
    Exists(bool),
    Fetched(bool),
    Delayed,
}

/// Where the machine stands within the current image.
#[derive(PartialEq, Eq, Structural, Clone, Copy, Debug)]
pub enum ImageStage {
    BeforeImage,
    AwaitExists,
    BeforeFetch,
    AwaitFetch,
    AfterFetch,
    AwaitDelay,
    AfterDelay,
    Finished,
}

/// The abstract state: the file names of the images, the current image, the
/// stage, the images recorded as stored (by position, ascending) and the
/// number of fetches made.
pub struct ImageModel {
    pub files: Seq<Seq<char>>,
    pub pos: nat,
    pub stage: ImageStage,
    pub done: Seq<nat>,
    pub fetches: nat,
}

pub open spec fn is_after_fetch(stage: ImageStage) -> bool {
    stage == ImageStage::AfterFetch || stage == ImageStage::AwaitDelay || stage
        == ImageStage::AfterDelay
}

/// Number of images whose turn has come (the current one included once it
/// has been fetched).
pub open spec fn consumed(m: ImageModel) -> nat {
    if is_after_fetch(m.stage) {
        m.pos + 1
    } else {
        m.pos
    }
}

/// The file names recorded as stored, in order.
pub open spec fn materialized(m: ImageModel) -> Seq<Seq<char>> {
    m.done.map_values(|i: nat| m.files[i as int])
}

pub open spec fn image_wf(m: ImageModel) -> bool {
    &&& consumed(m) <= m.files.len()
    &&& m.stage != ImageStage::Finished ==> m.pos < m.files.len()
    &&& m.fetches <= consumed(m)
    &&& forall|k: int| 0 <= k < m.done.len() ==> #[trigger] m.done[k] < consumed(m)
    &&& forall|k: int, l: int| 0 <= k < l < m.done.len() ==> #[trigger] m.done[k] < #[trigger] m.done[l]
}

/// Turn to image `pos`, or finish when there is none.
pub open spec fn enter(m: ImageModel, pos: nat) -> ImageModel {
    if pos < m.files.len() {
        ImageModel { pos, stage: ImageStage::BeforeImage, ..m }
    } else {
        ImageModel { pos, stage: ImageStage::Finished, ..m }
    }
}

/// End the run where it stands.
pub open spec fn stop(m: ImageModel) -> ImageModel {
    ImageModel { pos: consumed(m), stage: ImageStage::Finished, ..m }
}

pub open spec fn with_stage(m: ImageModel, stage: ImageStage) -> ImageModel {
    ImageModel { stage, ..m }
}

/// The state when a run starts.
pub open spec fn image_start(files: Seq<Seq<char>>) -> ImageModel {
    enter(ImageModel { files, pos: 0, stage: ImageStage::Finished, done: Seq::empty(), fetches: 0 }, 0)
}

/// One transition. An event that does not answer the pending action leaves
/// the state as it is.
pub open spec fn image_step(m: ImageModel, ev: ImageEvent) -> ImageModel {
    match ev {
        ImageEvent::Paused(p) => {
            if m.stage == ImageStage::BeforeImage {
                if p { stop(m) } else { with_stage(m, ImageStage::AwaitExists) }
            } else if m.stage == ImageStage::BeforeFetch {
                if p { stop(m) } else { with_stage(m, ImageStage::AwaitFetch) }
            } else if m.stage == ImageStage::AfterFetch {
                if p { stop(m) } else { with_stage(m, ImageStage::AwaitDelay) }
            } else if m.stage == ImageStage::AfterDelay {
                if p { stop(m) } else { enter(m, m.pos + 1) }
            } else {
                m
            }
        },
        ImageEvent::Exists(e) => {
            if m.stage == ImageStage::AwaitExists {
                if e {
                    enter(ImageModel { done: m.done.push(m.pos), ..m }, m.pos + 1)
                } else {
                    with_stage(m, ImageStage::BeforeFetch)
                }
            } else {
                m
            }
        },
        ImageEvent::Fetched(ok) => {
            if m.stage == ImageStage::AwaitFetch {
                ImageModel {
                    stage: ImageStage::AfterFetch,
                    done: if ok { m.done.push(m.pos) } else { m.done },
                    fetches: m.fetches + 1,
                    ..m
                }
            } else {
                m
            }
        },
        ImageEvent::Delayed => {
            if m.stage == ImageStage::AwaitDelay {
                with_stage(m, ImageStage::AfterDelay)
            } else {
                m
            }
        },
    }
}

/// The action a state waits on.
pub open spec fn image_pending(m: ImageModel) -> ImageAction {
    match m.stage {
        ImageStage::AwaitExists => ImageAction::CheckExists(m.pos as usize),
        ImageStage::AwaitFetch => ImageAction::Fetch(m.pos as usize),
        ImageStage::AwaitDelay => ImageAction::Delay,
        ImageStage::Finished => ImageAction::Finish,
        _ => ImageAction::CheckPause,
    }
}

pub proof fn lemma_image_step_wf(m: ImageModel, ev: ImageEvent)
    requires
        image_wf(m),
    ensures
        image_wf(image_step(m, ev)),
{
    let n = image_step(m, ev);
    assert forall|k: int| 0 <= k < n.done.len() implies #[trigger] n.done[k] < consumed(n) by {
        if k < m.done.len() {
            assert(n.done[k] == m.done[k]);
        }
    }
    assert forall|k: int, l: int| 0 <= k < l < n.done.len() implies #[trigger] n.done[k] < #[trigger] n.done[l] by {
        if l < m.done.len() {
            assert(n.done[k] == m.done[k]);
            assert(n.done[l] == m.done[l]);
        } else {
            assert(n.done[k] == m.done[k]);
        }
    }
}

/// A chapter download in progress.
pub struct ImageDownload {
    manga_uuid: String,
    manga_name: String,
    group_path_word: String,
    chapter_uuid: String,
    chapter_name: String,
    images: Vec<ImageInfo>,
    pos: usize,
    stage: ImageStage,
    done: Vec<usize>,
    fetches: usize,
}

impl ImageDownload {
    pub closed spec fn model(&self) -> ImageModel {
        ImageModel {
            files: self.images@.map_values(|i: ImageInfo| i.filename@),
            pos: self.pos as nat,
            stage: self.stage,
            done: self.done@.map_values(|i: usize| i as nat),
            fetches: self.fetches as nat,
        }
    }

    pub closed spec fn wf(&self) -> bool {
        image_wf(self.model())
    }

    /// The url of image `i`.
    pub closed spec fn url_of(&self, i: int) -> Seq<char> {
        self.images@[i].url@
    }

    pub closed spec fn identity(&self) -> (Seq<char>, Seq<char>, Seq<char>, Seq<char>, Seq<char>) {
        (self.manga_uuid@, self.manga_name@, self.group_path_word@, self.chapter_uuid@, self.chapter_name@)
    }

    /// Starts a run over the images of `info`, in the order given.
    pub fn new(info: DownloadInfo) -> (r: ImageDownload)
        ensures
            r.wf(),
            r.model() == image_start(info.images@.map_values(|i: ImageInfo| i.filename@)),
            r.identity() == (info.manga_uuid@, info.manga_name@, info.group_path_word@, info.chapter_uuid@, info.chapter_name@),
            forall|i: int| 0 <= i < info.images@.len() ==> r.url_of(i) == #[trigger] info.images@[i].url@,
    {
        let stage = if info.images.len() > 0 { ImageStage::BeforeImage } else { ImageStage::Finished };
        let r = ImageDownload {
            manga_uuid: info.manga_uuid,
            manga_name: info.manga_name,
            group_path_word: info.group_path_word,
            chapter_uuid: info.chapter_uuid,
            chapter_name: info.chapter_name,
            images: info.images,
            pos: 0,
            stage,
            done: Vec::new(),
            fetches: 0,
        };
        assert(r.model().done =~= Seq::<nat>::empty());
        r
    }

    /// Key of the chapter in the pause registry.
    pub fn key(&self) -> (r: String)
        ensures
            r@ == chapter_key_of(self.identity().0, self.identity().2, self.identity().3),
    {
        chapter_key(self.manga_uuid.as_str(), self.group_path_word.as_str(), self.chapter_uuid.as_str())
    }

    /// Image `i`, if there is one.
    pub fn image(&self, i: usize) -> (r: Option<&ImageInfo>)
        ensures
            i < self.model().files.len() <==> r is Some,
            r is Some ==> r->Some_0.filename@ == self.model().files[i as int] && r->Some_0.url@
                == self.url_of(i as int),
    {
        if i < self.images.len() {
            Some(&self.images[i])
        } else {
            None
        }
    }

    pub fn is_finished(&self) -> (r: bool)
        ensures
            r == (self.model().stage == ImageStage::Finished),
    {
        self.stage == ImageStage::Finished
    }

    /// Number of fetches made so far.
    pub fn fetch_count(&self) -> (r: usize)
        ensures
            r as nat == self.model().fetches,
    {
        self.fetches
    }

    /// The journal of the chapter as it stands, stamped `download_time`.
    pub fn journal_at(&self, download_time: String) -> (r: ChapterInfo)
        requires
            self.wf(),
        ensures
            journal_matches(r, self.identity(), self.model()),
            r.download_time == download_time,
            r.images.len() <= r.total_images,
    {
        let mut names: Vec<String> = Vec::new();
        let mut k: usize = 0;
        let ghost m = self.model();
        proof {
            lemma_journal_bounded(m);
        }
        while k < self.done.len()
            invariant
                k <= self.done.len(),
                m == self.model(),
                image_wf(m),
                names@.map_values(|s: String| s@) == materialized(m).subrange(0, k as int),
            decreases self.done.len() - k,
        {
            let idx = self.done[k];
            assert(m.done[k as int] < consumed(m));
            let name = self.images[idx].filename.clone();
            assert(m.done[k as int] == idx as nat);
            assert(m.files[idx as int] == self.images@[idx as int].filename@);
            assert(materialized(m)[k as int] == name@);
            let ghost before = names@;
            names.push(name);
            assert(names@.map_values(|s: String| s@) =~= before.map_values(|s: String| s@).push(name@));
            assert(names@.map_values(|s: String| s@) =~= materialized(m).subrange(0, k + 1));
            k = k + 1;
        }
        assert(materialized(m).subrange(0, self.done.len() as int) =~= materialized(m));
        ChapterInfo {
            manga_uuid: self.manga_uuid.clone(),
            manga_name: self.manga_name.clone(),
            group_path_word: self.group_path_word.clone(),
            chapter_uuid: self.chapter_uuid.clone(),
            chapter_name: self.chapter_name.clone(),
            total_images: self.images.len(),
            images: names,
            download_time,
        }
    }

    /// The journal of the chapter as it stands, stamped with the current time.
    pub fn journal(&self) -> (r: ChapterInfo)
        requires
            self.wf(),
        ensures
            journal_matches(r, self.identity(), self.model()),
            r.images.len() <= r.total_images,
    {
        self.journal_at(now_timestamp())
    }

    /// The action the machine waits on.
    pub fn next_action(&self) -> (r: ImageAction)
        requires
            self.wf(),
        ensures
            r == image_pending(self.model()),
    {
        match self.stage {
            ImageStage::AwaitExists => ImageAction::CheckExists(self.pos),
            ImageStage::AwaitFetch => ImageAction::Fetch(self.pos),
            ImageStage::AwaitDelay => ImageAction::Delay,
            ImageStage::Finished => ImageAction::Finish,
            _ => ImageAction::CheckPause,
        }
    }

    /// Takes in what the driver observed and returns the next action.
    pub fn step(&mut self, ev: ImageEvent) -> (r: ImageAction)
        requires
            old(self).wf(),
        ensures
            final(self).wf(),
            final(self).model() == image_step(old(self).model(), ev),
            final(self).identity() == old(self).identity(),
            forall|i: int| 0 <= i < old(self).model().files.len() ==> final(self).url_of(i) == #[trigger] old(self).url_of(i),
            r == image_pending(final(self).model()),
            materialized(old(self).model()).is_prefix_of(materialized(final(self).model())),
            old(self).model().fetches <= final(self).model().fetches,
    {
        let ghost m = self.model();
        proof {
            lemma_image_step_wf(m, ev);
            lemma_image_step_monotonic(m, ev);
        }
        let n = self.images.len();
        match ev {
            ImageEvent::Paused(p) => {
                let s = self.stage;
                if s == ImageStage::BeforeImage || s == ImageStage::BeforeFetch || s == ImageStage::AfterFetch || s == ImageStage::AfterDelay {
                    if p {
                        if s == ImageStage::AfterFetch || s == ImageStage::AfterDelay {
                            self.pos = self.pos + 1;
                        }
                        self.stage = ImageStage::Finished;
                    } else if s == ImageStage::BeforeImage {
                        self.stage = ImageStage::AwaitExists;
                    } else if s == ImageStage::BeforeFetch {
                        self.stage = ImageStage::AwaitFetch;
                    } else if s == ImageStage::AfterFetch {
                        self.stage = ImageStage::AwaitDelay;
                    } else {
                        self.pos = self.pos + 1;
                        self.stage = if self.pos < n { ImageStage::BeforeImage } else { ImageStage::Finished };
                    }
                }
            },
            ImageEvent::Exists(e) => {
                if self.stage == ImageStage::AwaitExists {
                    if e {
                        self.done.push(self.pos);
                        self.pos = self.pos + 1;
                        self.stage = if self.pos < n { ImageStage::BeforeImage } else { ImageStage::Finished };
                    } else {
                        self.stage = ImageStage::BeforeFetch;
                    }
                }
            },
            ImageEvent::Fetched(ok) => {
                if self.stage == ImageStage::AwaitFetch {
                    if ok {
                        self.done.push(self.pos);
                    }
                    self.fetches = self.fetches + 1;
                    self.stage = ImageStage::AfterFetch;
                }
            },
            ImageEvent::Delayed => {
                if self.stage == ImageStage::AwaitDelay {
                    self.stage = ImageStage::AfterDelay;
                }
            },
        }
        assert(self.model().done =~= image_step(m, ev).done);
        assert(self.model().files =~= image_step(m, ev).files);
        self.next_action()
    }
}

/// The journal that a state stands for, as views: identity, declared total,
/// stored file names.
pub open spec fn journal_matches(
    j: ChapterInfo,
    id: (Seq<char>, Seq<char>, Seq<char>, Seq<char>, Seq<char>),
    m: ImageModel,
) -> bool {
    &&& j.manga_uuid@ == id.0
    &&& j.manga_name@ == id.1
    &&& j.group_path_word@ == id.2
    &&& j.chapter_uuid@ == id.3
    &&& j.chapter_name@ == id.4
    &&& j.total_images as nat == m.files.len()
    &&& j.images@.map_values(|s: String| s@) == materialized(m)
}

/// A strictly ascending sequence below `c` has at most `c` elements.
pub proof fn lemma_ascending_len(s: Seq<nat>, c: nat)
    requires
        forall|k: int| 0 <= k < s.len() ==> #[trigger] s[k] < c,
        forall|k: int, l: int| 0 <= k < l < s.len() ==> #[trigger] s[k] < #[trigger] s[l],
    ensures
        s.len() <= c,
    decreases s.len(),
{
    if s.len() > 0 {
        let t = s.drop_last();
        assert forall|k: int| 0 <= k < t.len() implies #[trigger] t[k] < s.last() by {
            assert(t[k] == s[k]);
        }
        assert forall|k: int, l: int| 0 <= k < l < t.len() implies #[trigger] t[k] < #[trigger] t[l] by {
            assert(t[k] == s[k] && t[l] == s[l]);
        }
        lemma_ascending_len(t, s.last());
    }
}

/// In every reachable state at most as many images are recorded as the
/// chapter declares.
pub proof fn lemma_journal_bounded(m: ImageModel)
    requires
        image_wf(m),
    ensures
        materialized(m).len() <= m.files.len(),
{
    lemma_ascending_len(m.done, consumed(m));
}

pub proof fn lemma_image_step_monotonic(m: ImageModel, ev: ImageEvent)
    requires
        image_wf(m),
    ensures
        materialized(m).is_prefix_of(materialized(image_step(m, ev))),
        m.fetches <= image_step(m, ev).fetches,
{
    let n = image_step(m, ev);
    assert(n.files == m.files);
    assert(m.done.is_prefix_of(n.done));
    assert forall|k: int| 0 <= k < materialized(m).len() implies materialized(m)[k] == materialized(n)[k] by {
        assert(m.done[k] == n.done[k]);
    }
}

/// The state after handing in `evs`, one after the other.
pub open spec fn image_run(m: ImageModel, evs: Seq<ImageEvent>) -> ImageModel
    decreases evs.len(),
{
    if evs.len() == 0 {
        m
    } else {
        image_step(image_run(m, evs.drop_last()), evs.last())
    }
}

pub proof fn lemma_image_run_wf(m: ImageModel, evs: Seq<ImageEvent>)
    requires
        image_wf(m),
    ensures
        image_wf(image_run(m, evs)),
    decreases evs.len(),
{
    if evs.len() > 0 {
        lemma_image_run_wf(m, evs.drop_last());
        lemma_image_step_wf(image_run(m, evs.drop_last()), evs.last());
    }
}

/// Within one run, whatever is observed, the recorded file names only grow
/// at the end and the count of fetches never falls.
pub proof fn image_progress_monotonic(m: ImageModel, evs: Seq<ImageEvent>, k: nat)
    requires
        image_wf(m),
        k <= evs.len(),
    ensures
        materialized(image_run(m, evs.take(k as int))).is_prefix_of(materialized(image_run(m, evs))),
        image_run(m, evs.take(k as int)).fetches <= image_run(m, evs).fetches,
        image_run(m, evs.take(k as int)).pos <= image_run(m, evs).pos,
    decreases evs.len(),
{
    if k < evs.len() {
        let front = evs.drop_last();
        assert(front.take(k as int) =~= evs.take(k as int));
        image_progress_monotonic(m, front, k);
        lemma_image_run_wf(m, front);
        lemma_image_step_monotonic(image_run(m, front), evs.last());
        lemma_image_step_pos(image_run(m, front), evs.last());
    } else {
        assert(evs.take(k as int) =~= evs);
    }
}

proof fn lemma_image_step_pos(m: ImageModel, ev: ImageEvent)
    ensures
        m.pos <= image_step(m, ev).pos,
{
}

/// A run whose first observation is a set pause flag makes no fetch at all:
/// after every later observation the machine is finished, with nothing
/// recorded beyond the state it started from, so the closing journal equals
/// the one written before the loop.
pub proof fn image_pause_before_start(files: Seq<Seq<char>>, evs: Seq<ImageEvent>, k: nat)
    requires
        evs.len() > 0,
        evs[0] == ImageEvent::Paused(true),
        1 <= k <= evs.len(),
    ensures
        image_run(image_start(files), evs.take(k as int)).stage == ImageStage::Finished,
        image_run(image_start(files), evs.take(k as int)).fetches == 0,
        materialized(image_run(image_start(files), evs.take(k as int))) == materialized(
            image_start(files),
        ),
        image_pending(image_run(image_start(files), evs.take(k as int))) == ImageAction::Finish,
    decreases k,
{
    let s0 = image_start(files);
    if k == 1 {
        assert(evs.take(1).drop_last() =~= Seq::<ImageEvent>::empty());
        assert(evs.take(1).last() == evs[0]);
        assert(image_run(s0, Seq::<ImageEvent>::empty()) == s0);
    } else {
        image_pause_before_start(files, evs, (k - 1) as nat);
        assert(evs.take(k as int).drop_last() =~= evs.take(k - 1));
    }
}

} // verus!
