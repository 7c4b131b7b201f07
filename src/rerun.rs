//! Re-running the image-set downloader. Against a disk that answers
//! truthfully and with no pause requested, a run fetches only files that
//! are absent, and a second run over the same chapter fetches none of the
//! files the first one stored.
use vstd::prelude::*;
use crate::image::{
    image_start, image_step, image_wf, lemma_image_step_wf, materialized, ImageEvent, ImageModel,
    ImageStage,
};

verus! {

/// The set of elements of `s`.
pub open spec fn seq_set(s: Seq<Seq<char>>) -> Set<Seq<char>>
    decreases s.len(),
{
    if s.len() == 0 {
        Set::empty()
    } else {
        seq_set(s.drop_last()).insert(s.last())
    }
}

/// The file names of images `i..`.
pub open spec fn suffix_set(files: Seq<Seq<char>>, i: nat) -> Set<Seq<char>>
    decreases files.len() - i,
{
    if i >= files.len() {
        Set::empty()
    } else {
        suffix_set(files, i + 1).insert(files[i as int])
    }
}

/// What a run against a truthful disk leaves behind: the final state, the
/// disk, the names fetched and the names fetched successfully.
pub struct HonestOutcome {
    pub state: ImageModel,
    pub disk: Set<Seq<char>>,
    pub fetched: Set<Seq<char>>,
    pub stored: Set<Seq<char>>,
}

/// The turn of the current image: the driver reports the pause flag clear,
/// whether the file is on `disk`, and, when it is not, the outcome `ok[pos]`
/// of its fetch; a stored file lands on the disk.
pub open spec fn honest_turn(m: ImageModel, disk: Set<Seq<char>>, ok: Seq<bool>) -> HonestOutcome {
    let f = m.files[m.pos as int];
    let m1 = image_step(m, ImageEvent::Paused(false));
    if disk.contains(f) {
        HonestOutcome { state: image_step(m1, ImageEvent::Exists(true)), disk, fetched: Set::empty(), stored: Set::empty() }
    } else {
        let m2 = image_step(m1, ImageEvent::Exists(false));
        let m3 = image_step(m2, ImageEvent::Paused(false));
        let m4 = image_step(m3, ImageEvent::Fetched(ok[m.pos as int]));
        let m5 = image_step(m4, ImageEvent::Paused(false));
        let m6 = image_step(m5, ImageEvent::Delayed);
        let m7 = image_step(m6, ImageEvent::Paused(false));
        HonestOutcome {
            state: m7,
            disk: if ok[m.pos as int] { disk.insert(f) } else { disk },
            fetched: set![f],
            stored: if ok[m.pos as int] { set![f] } else { Set::empty() },
        }
    }
}

/// Up to `fuel` turns, until the run finishes.
pub open spec fn honest_run(m: ImageModel, disk: Set<Seq<char>>, ok: Seq<bool>, fuel: nat) -> HonestOutcome
    decreases fuel,
{
    if fuel == 0 || m.stage != ImageStage::BeforeImage {
        HonestOutcome { state: m, disk, fetched: Set::empty(), stored: Set::empty() }
    } else {
        let t = honest_turn(m, disk, ok);
        let rest = honest_run(t.state, t.disk, ok, (fuel - 1) as nat);
        HonestOutcome {
            state: rest.state,
            disk: rest.disk,
            fetched: t.fetched + rest.fetched,
            stored: t.stored + rest.stored,
        }
    }
}

/// A state where a turn begins, or the end of the chapter.
pub open spec fn at_turn(m: ImageModel) -> bool {
    &&& image_wf(m)
    &&& (m.stage == ImageStage::BeforeImage && m.pos < m.files.len()) || (m.stage
        == ImageStage::Finished && m.pos == m.files.len())
}

proof fn lemma_turn(m: ImageModel, disk: Set<Seq<char>>, ok: Seq<bool>)
    requires
        at_turn(m),
        m.stage == ImageStage::BeforeImage,
        ok.len() == m.files.len(),
    ensures
        at_turn(honest_turn(m, disk, ok).state),
        honest_turn(m, disk, ok).state.pos == m.pos + 1,
        honest_turn(m, disk, ok).state.files == m.files,
        ({
            let f = m.files[m.pos as int];
            let t = honest_turn(m, disk, ok);
            if disk.contains(f) || ok[m.pos as int] {
                materialized(t.state) == materialized(m).push(f)
            } else {
                materialized(t.state) == materialized(m)
            }
        }),
{
    let t = honest_turn(m, disk, ok);
    let f = m.files[m.pos as int];
    lemma_steps_wf(m, disk, ok);
    if disk.contains(f) || ok[m.pos as int] {
        assert(t.state.done == m.done.push(m.pos));
        assert(materialized(t.state) =~= materialized(m).push(f));
    } else {
        assert(t.state.done == m.done);
    }
}

proof fn lemma_steps_wf(m: ImageModel, disk: Set<Seq<char>>, ok: Seq<bool>)
    requires
        at_turn(m),
        m.stage == ImageStage::BeforeImage,
        ok.len() == m.files.len(),
    ensures
        image_wf(honest_turn(m, disk, ok).state),
{
    let f = m.files[m.pos as int];
    let m1 = image_step(m, ImageEvent::Paused(false));
    lemma_image_step_wf(m, ImageEvent::Paused(false));
    if disk.contains(f) {
        lemma_image_step_wf(m1, ImageEvent::Exists(true));
    } else {
        let m2 = image_step(m1, ImageEvent::Exists(false));
        let m3 = image_step(m2, ImageEvent::Paused(false));
        let m4 = image_step(m3, ImageEvent::Fetched(ok[m.pos as int]));
        let m5 = image_step(m4, ImageEvent::Paused(false));
        let m6 = image_step(m5, ImageEvent::Delayed);
        lemma_image_step_wf(m1, ImageEvent::Exists(false));
        lemma_image_step_wf(m2, ImageEvent::Paused(false));
        lemma_image_step_wf(m3, ImageEvent::Fetched(ok[m.pos as int]));
        lemma_image_step_wf(m4, ImageEvent::Paused(false));
        lemma_image_step_wf(m5, ImageEvent::Delayed);
        lemma_image_step_wf(m6, ImageEvent::Paused(false));
    }
}

/// What one run against a truthful disk does, from the start of a turn to
/// the end of the chapter: it fetches no name that was on the disk at the
/// start; the disk gains exactly the names stored; the names recorded are
/// those recorded before, those of the remaining images that were on the
/// disk, and those stored; and only names of remaining images are stored.
pub proof fn lemma_honest_run(m: ImageModel, disk: Set<Seq<char>>, ok: Seq<bool>, fuel: nat)
    requires
        at_turn(m),
        ok.len() == m.files.len(),
        fuel >= m.files.len() - m.pos,
    ensures
        ({
            let r = honest_run(m, disk, ok, fuel);
            &&& r.fetched.disjoint(disk)
            &&& r.disk == disk + r.stored
            &&& seq_set(materialized(r.state)) == seq_set(materialized(m)) + suffix_set(m.files, m.pos).intersect(disk) + r.stored
            &&& r.stored.subset_of(suffix_set(m.files, m.pos))
            &&& r.state.stage == ImageStage::Finished
        }),
    decreases fuel,
{
    let r = honest_run(m, disk, ok, fuel);
    if m.stage != ImageStage::BeforeImage {
        assert(suffix_set(m.files, m.pos) =~= Set::empty());
        assert(r.disk =~= disk + r.stored);
        assert(seq_set(materialized(r.state)) =~= seq_set(materialized(m)) + suffix_set(m.files, m.pos).intersect(disk) + r.stored);
    } else {
        let f = m.files[m.pos as int];
        let t = honest_turn(m, disk, ok);
        lemma_turn(m, disk, ok);
        lemma_honest_run(t.state, t.disk, ok, (fuel - 1) as nat);
        let rest = honest_run(t.state, t.disk, ok, (fuel - 1) as nat);
        let s0 = seq_set(materialized(m));
        assert(suffix_set(m.files, m.pos) == suffix_set(m.files, m.pos + 1).insert(f));
        if disk.contains(f) || ok[m.pos as int] {
            assert(materialized(t.state).drop_last() =~= materialized(m));
            assert(seq_set(materialized(t.state)) == s0.insert(f));
        }
        assert(r.fetched.disjoint(disk));
        assert(r.disk =~= disk + r.stored);
        assert(seq_set(materialized(r.state)) =~= s0 + suffix_set(m.files, m.pos).intersect(disk) + r.stored);
        assert(r.stored.subset_of(suffix_set(m.files, m.pos)));
    }
}

/// Running the downloader twice over the same chapter, starting from an
/// empty disk, with each fetch succeeding or failing as `ok1` and `ok2` say:
/// the second run fetches no file that the first one stored, and the names
/// recorded by the two runs together are exactly the names whose fetch
/// succeeded in either; and every name a run records is on the disk when it
/// ends.
pub proof fn image_rerun_idempotent(files: Seq<Seq<char>>, ok1: Seq<bool>, ok2: Seq<bool>)
    requires
        ok1.len() == files.len(),
        ok2.len() == files.len(),
    ensures
        ({
            let n = files.len();
            let r1 = honest_run(image_start(files), Set::empty(), ok1, n);
            let r2 = honest_run(image_start(files), r1.disk, ok2, n);
            &&& r2.fetched.disjoint(r1.disk)
            &&& seq_set(materialized(r1.state)) + seq_set(materialized(r2.state)) == r1.stored
                + r2.stored
            &&& seq_set(materialized(r1.state)).subset_of(r1.disk)
            &&& seq_set(materialized(r2.state)).subset_of(r2.disk)
        }),
{
    let n = files.len();
    let s = image_start(files);
    assert(s.done =~= Seq::<nat>::empty());
    assert(materialized(s) =~= Seq::<Seq<char>>::empty());
    assert(at_turn(s));
    lemma_honest_run(s, Set::empty(), ok1, n);
    let r1 = honest_run(s, Set::empty(), ok1, n);
    lemma_honest_run(s, r1.disk, ok2, n);
    let r2 = honest_run(s, r1.disk, ok2, n);
    assert(seq_set(materialized(r1.state)) =~= r1.stored);
    assert(r1.disk =~= r1.stored);
    assert(suffix_set(files, 0).intersect(r1.disk) =~= r1.stored);
    assert(seq_set(materialized(r1.state)) + seq_set(materialized(r2.state)) =~= r1.stored + r2.stored);
    assert(seq_set(materialized(r2.state)).subset_of(r2.disk));
}

} // verus!
