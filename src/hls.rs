//! The segmented-video downloader as a state machine.
//!
//! A playlist is parsed into its segment URLs. The segments are fetched one
//! at a time in playlist order, each into a numbered scratch file; then the
//! scratch files are appended to the destination in the same order, and the
//! destination is flushed. Fetching takes the progress from 0 to 80 percent,
//! merging from 80 to 100. Any failed fetch or write ends the job with an
//! error; the driver then drops the job and its progress entry.
use vstd::prelude::*;
use crate::types::DownloadError;
use crate::text::{chars_of, get_base_url, through_last};
use crate::playlist::{parse_m3u8_segments, playlist_segments};
use vstd::arithmetic::div_mod::{lemma_div_is_ordered, lemma_div_by_self};

verus! {

#[derive(PartialEq, Eq, Structural, Clone, Copy, Debug)]
pub enum HlsPhase {
    Downloading,
    Merging,
    Completed,
    Failed,
}

/// What the driver is asked to do next.
#[derive(PartialEq, Eq, Structural, Clone, Copy, Debug)]
pub enum HlsAction {
    /// Fetch segment `i` into its scratch file.
    FetchSegment(usize),
    /// Append the scratch file of segment `i` to the destination.
    AppendSegment(usize),
    /// Flush and close the destination.
    Flush,
    /// The video is complete: remove the scratch files, write the journal.
    Done,
    /// The job failed: remove the scratch files and any partial destination,
    /// and drop the progress entry.
    Abort,
}

/// Status shown with the live progress of a video job.
#[derive(PartialEq, Eq, Structural, Clone, Copy, Debug)]
pub enum TransferStatus {
    Starting,
    Downloading,
    Merging,
    Completed,
    Failed,
}

/// Live progress of a video job.
#[derive(Clone, Copy, Debug)]
pub struct CartoonProgressTracker {
    pub current_segment: usize,
    pub total_segments: usize,
    pub downloaded_bytes: u64,
    pub total_bytes: u64,
    pub percent: u64,
    pub status: TransferStatus,
}

/// The abstract state: segment URLs, sizes of the segments fetched so far,
/// number of scratch files appended, and phase.
pub struct HlsModel {
    pub segments: Seq<Seq<char>>,
    pub sizes: Seq<nat>,
    pub merged: nat,
    pub phase: HlsPhase,
}

pub open spec fn sum_sizes(s: Seq<nat>) -> nat
    decreases s.len(),
{
    if s.len() == 0 {
        0
    } else {
        sum_sizes(s.drop_last()) + s.last()
    }
}

pub open spec fn hls_wf(m: HlsModel) -> bool {
    &&& m.segments.len() > 0
    &&& m.sizes.len() <= m.segments.len()
    &&& m.merged <= m.segments.len()
    &&& m.phase == HlsPhase::Downloading ==> m.sizes.len() < m.segments.len() && m.merged == 0
    &&& (m.phase == HlsPhase::Merging || m.phase == HlsPhase::Completed) ==> m.sizes.len()
        == m.segments.len()
    &&& m.phase == HlsPhase::Completed ==> m.merged == m.segments.len()
}

/// Progress in percent: 80 times the share of segments fetched while
/// fetching, 80 plus 20 times the share of files appended while merging,
/// 100 once the destination is flushed; 0 for a failed job.
pub open spec fn hls_percent(m: HlsModel) -> nat {
    let n = m.segments.len();
    match m.phase {
        HlsPhase::Downloading => 80 * m.sizes.len() / n,
        HlsPhase::Merging => 80 + 20 * m.merged / n,
        HlsPhase::Completed => 100,
        HlsPhase::Failed => 0,
    }
}

pub open spec fn hls_pending(m: HlsModel) -> HlsAction {
    match m.phase {
        HlsPhase::Downloading => HlsAction::FetchSegment(m.sizes.len() as usize),
        HlsPhase::Merging => if m.merged < m.segments.len() {
            HlsAction::AppendSegment(m.merged as usize)
        } else {
            HlsAction::Flush
        },
        HlsPhase::Completed => HlsAction::Done,
        HlsPhase::Failed => HlsAction::Abort,
    }
}

/// A fetched segment of `size` bytes; after the last one, merging begins.
pub open spec fn hls_fetched(m: HlsModel, size: nat) -> HlsModel {
    let sizes = m.sizes.push(size);
    HlsModel {
        sizes,
        phase: if sizes.len() == m.segments.len() { HlsPhase::Merging } else { HlsPhase::Downloading },
        ..m
    }
}

pub struct HlsDownload {
    segments: Vec<String>,
    sizes: Vec<u64>,
    total: u64,
    merged: usize,
    phase: HlsPhase,
}

/// Whether a video URL names a segment playlist rather than a single file.
pub open spec fn is_playlist(url: Seq<char>) -> bool {
    url.len() >= 5 && url.subrange(url.len() - 5, url.len() as int) == seq!['.', 'm', '3', 'u', '8']
}

pub fn is_playlist_url(url: &str) -> (r: bool)
    ensures
        r == is_playlist(url@),
{
    let cs = chars_of(url);
    let n = cs.len();
    if n < 5 {
        return false;
    }
    let ghost tail = seq!['.', 'm', '3', 'u', '8'];
    let r = cs[n - 5] == '.' && cs[n - 4] == 'm' && cs[n - 3] == '3' && cs[n - 2] == 'u' && cs[n - 1] == '8';
    let ghost t = cs@.subrange(n - 5, n as int);
    assert(r == (t == tail)) by {
        if r {
            assert(t =~= tail);
        } else if t == tail {
            assert(t[0] == tail[0] && t[1] == tail[1] && t[2] == tail[2] && t[3] == tail[3] && t[4] == tail[4]);
        }
    }
    r
}

impl HlsDownload {
    pub closed spec fn model(&self) -> HlsModel {
        HlsModel {
            segments: self.segments@.map_values(|s: String| s@),
            sizes: self.sizes@.map_values(|b: u64| b as nat),
            merged: self.merged as nat,
            phase: self.phase,
        }
    }

    pub closed spec fn wf(&self) -> bool {
        &&& hls_wf(self.model())
        &&& self.total as nat == sum_sizes(self.model().sizes)
    }

    /// Starts a job from the text of the playlist found at `playlist_url`.
    /// A playlist that names no segment is an error.
    pub fn from_playlist(playlist_url: &str, content: &str) -> (r: Result<HlsDownload, DownloadError>)
        ensures
            playlist_segments(content@, through_last(playlist_url@, '/')).len() == 0 <==> r is Err,
            r is Err ==> r->Err_0 is Parse && r->Err_0->Parse_0@ == "no segments in playlist"@,
            r is Ok ==> r->Ok_0.wf() && r->Ok_0.model() == (HlsModel {
                segments: playlist_segments(content@, through_last(playlist_url@, '/')),
                sizes: Seq::empty(),
                merged: 0,
                phase: HlsPhase::Downloading,
            }),
    {
        let base = get_base_url(playlist_url);
        let parsed = parse_m3u8_segments(content, base.as_str());
        let segments = match parsed {
            Ok(v) => v,
            Err(e) => return Err(DownloadError::Parse(e)),
        };
        if segments.len() == 0 {
            return Err(DownloadError::Parse(String::from_str("no segments in playlist")));
        }
        let r = HlsDownload { segments, sizes: Vec::new(), total: 0, merged: 0, phase: HlsPhase::Downloading };
        assert(r.model().sizes =~= Seq::<nat>::empty());
        Ok(r)
    }

    /// Number of segments.
    pub fn segment_count(&self) -> (r: usize)
        ensures
            r as nat == self.model().segments.len(),
    {
        self.segments.len()
    }

    /// URL of segment `i`, if there is one.
    pub fn segment_url(&self, i: usize) -> (r: Option<&String>)
        ensures
            i < self.model().segments.len() <==> r is Some,
            r is Some ==> r->Some_0@ == self.model().segments[i as int],
    {
        if i < self.segments.len() {
            Some(&self.segments[i])
        } else {
            None
        }
    }

    /// Bytes fetched so far.
    pub fn total_bytes(&self) -> (r: u64)
        requires
            self.wf(),
        ensures
            r as nat == sum_sizes(self.model().sizes),
    {
        self.total
    }

    pub fn next_action(&self) -> (r: HlsAction)
        requires
            self.wf(),
        ensures
            r == hls_pending(self.model()),
    {
        match self.phase {
            HlsPhase::Downloading => HlsAction::FetchSegment(self.sizes.len()),
            HlsPhase::Merging => if self.merged < self.segments.len() {
                HlsAction::AppendSegment(self.merged)
            } else {
                HlsAction::Flush
            },
            HlsPhase::Completed => HlsAction::Done,
            HlsPhase::Failed => HlsAction::Abort,
        }
    }

    /// Records that the pending segment was fetched and held `size` bytes.
    /// Refused unless a fetch is pending, or when the byte count would leave
    /// the range of `u64`.
    pub fn segment_fetched(&mut self, size: u64) -> (r: Result<HlsAction, DownloadError>)
        requires
            old(self).wf(),
        ensures
            final(self).wf(),
            r is Ok <==> (old(self).model().phase == HlsPhase::Downloading && sum_sizes(
                old(self).model().sizes,
            ) + size <= u64::MAX),
            r is Ok ==> final(self).model() == hls_fetched(old(self).model(), size as nat) && r->Ok_0
                == hls_pending(final(self).model()),
            r is Err ==> final(self).model() == old(self).model() && r->Err_0 is InvalidState,
    {
        if self.phase != HlsPhase::Downloading {
            return Err(DownloadError::InvalidState(String::from_str("no segment fetch is pending")));
        }
        if size > u64::MAX - self.total {
            return Err(DownloadError::InvalidState(String::from_str("byte count out of range")));
        }
        let ghost old_sizes = self.model().sizes;
        self.sizes.push(size);
        self.total = self.total + size;
        assert(self.model().sizes =~= old_sizes.push(size as nat));
        assert(self.model().sizes.drop_last() =~= old_sizes);
        if self.sizes.len() == self.segments.len() {
            self.phase = HlsPhase::Merging;
        }
        Ok(self.next_action())
    }

    /// Records that the pending scratch file was appended to the destination.
    pub fn segment_appended(&mut self) -> (r: Result<HlsAction, DownloadError>)
        requires
            old(self).wf(),
        ensures
            final(self).wf(),
            r is Ok <==> (old(self).model().phase == HlsPhase::Merging && old(self).model().merged
                < old(self).model().segments.len()),
            r is Ok ==> final(self).model() == (HlsModel {
                merged: old(self).model().merged + 1,
                ..old(self).model()
            }) && r->Ok_0 == hls_pending(final(self).model()),
            r is Err ==> final(self).model() == old(self).model() && r->Err_0 is InvalidState,
    {
        if self.phase != HlsPhase::Merging || self.merged >= self.segments.len() {
            return Err(DownloadError::InvalidState(String::from_str("no append is pending")));
        }
        self.merged = self.merged + 1;
        Ok(self.next_action())
    }

    /// Records that the destination was flushed after the last append.
    pub fn flushed(&mut self) -> (r: Result<HlsAction, DownloadError>)
        requires
            old(self).wf(),
        ensures
            final(self).wf(),
            r is Ok <==> (old(self).model().phase == HlsPhase::Merging && old(self).model().merged
                == old(self).model().segments.len()),
            r is Ok ==> final(self).model() == (HlsModel {
                phase: HlsPhase::Completed,
                ..old(self).model()
            }) && r->Ok_0 == HlsAction::Done,
            r is Err ==> final(self).model() == old(self).model() && r->Err_0 is InvalidState,
    {
        if self.phase != HlsPhase::Merging || self.merged < self.segments.len() {
            return Err(DownloadError::InvalidState(String::from_str("no flush is pending")));
        }
        self.phase = HlsPhase::Completed;
        Ok(HlsAction::Done)
    }

    /// Records that the pending fetch, append or flush failed. A job that
    /// has not completed becomes failed, whatever it was doing: a segmented
    /// video has no partial success. Refused once the job has completed or
    /// failed.
    pub fn failed(&mut self) -> (r: Result<HlsAction, DownloadError>)
        requires
            old(self).wf(),
        ensures
            final(self).wf(),
            r is Ok <==> (old(self).model().phase == HlsPhase::Downloading || old(self).model().phase
                == HlsPhase::Merging),
            r is Ok ==> final(self).model() == (HlsModel {
                phase: HlsPhase::Failed,
                ..old(self).model()
            }) && r->Ok_0 == HlsAction::Abort,
            r is Err ==> final(self).model() == old(self).model() && r->Err_0 is InvalidState,
    {
        if self.phase != HlsPhase::Downloading && self.phase != HlsPhase::Merging {
            return Err(DownloadError::InvalidState(String::from_str("the job is already over")));
        }
        self.phase = HlsPhase::Failed;
        Ok(HlsAction::Abort)
    }

    /// The live progress of the job.
    pub fn progress(&self) -> (r: CartoonProgressTracker)
        requires
            self.wf(),
        ensures
            r.percent as nat == hls_percent(self.model()),
            r.total_segments as nat == self.model().segments.len(),
            r.downloaded_bytes as nat == sum_sizes(self.model().sizes),
            r.status == match self.model().phase {
                HlsPhase::Downloading => TransferStatus::Downloading,
                HlsPhase::Merging => TransferStatus::Merging,
                HlsPhase::Completed => TransferStatus::Completed,
                HlsPhase::Failed => TransferStatus::Failed,
            },
            r.total_bytes as nat == if self.model().phase == HlsPhase::Completed {
                sum_sizes(self.model().sizes)
            } else {
                0
            },
            r.current_segment as nat == if self.model().phase == HlsPhase::Downloading {
                self.model().sizes.len() + 1
            } else {
                self.model().segments.len()
            },
    {
        let n = self.segments.len();
        let (percent, status, current) = match self.phase {
            HlsPhase::Downloading => {
                let p = (80 * (self.sizes.len() as u128) / (n as u128)) as u64;
                let ghost k = self.sizes.len() as int;
                let ghost nn = n as int;
                assert(80 * k / nn <= 80) by (nonlinear_arith)
                    requires k <= nn, nn > 0;
                (p, TransferStatus::Downloading, self.sizes.len() + 1)
            },
            HlsPhase::Merging => {
                let ghost k = self.merged as int;
                let ghost nn = n as int;
                assert(20 * k / nn <= 20) by (nonlinear_arith)
                    requires k <= nn, nn > 0;
                let p = 80 + (20 * (self.merged as u128) / (n as u128)) as u64;
                (p, TransferStatus::Merging, n)
            },
            HlsPhase::Completed => (100, TransferStatus::Completed, n),
            HlsPhase::Failed => (0, TransferStatus::Failed, n),
        };
        CartoonProgressTracker {
            current_segment: current,
            total_segments: n,
            downloaded_bytes: self.total,
            total_bytes: if self.phase == HlsPhase::Completed { self.total } else { 0 },
            percent,
            status,
        }
    }
}

/// The progress entry of a video job before its playlist is read.
pub fn starting_progress() -> (r: CartoonProgressTracker)
    ensures
        r.current_segment == 0 && r.total_segments == 0 && r.downloaded_bytes == 0
            && r.total_bytes == 0 && r.percent == 0 && r.status == TransferStatus::Starting,
{
    CartoonProgressTracker {
        current_segment: 0,
        total_segments: 0,
        downloaded_bytes: 0,
        total_bytes: 0,
        percent: 0,
        status: TransferStatus::Starting,
    }
}

/// The state of a fresh job over `segments`.
pub open spec fn hls_start(segments: Seq<Seq<char>>) -> HlsModel {
    HlsModel { segments, sizes: Seq::empty(), merged: 0, phase: HlsPhase::Downloading }
}

/// The state after the segments of sizes `sizes` were fetched, in order.
pub open spec fn hls_after_fetches(m: HlsModel, sizes: Seq<nat>) -> HlsModel
    decreases sizes.len(),
{
    if sizes.len() == 0 {
        m
    } else {
        hls_fetched(hls_after_fetches(m, sizes.drop_last()), sizes.last())
    }
}

/// The state after `count` scratch files were appended.
pub open spec fn hls_after_appends(m: HlsModel, count: nat) -> HlsModel {
    HlsModel { merged: m.merged + count, ..m }
}

proof fn lemma_after_fetches(segments: Seq<Seq<char>>, sizes: Seq<nat>)
    requires
        segments.len() > 0,
        sizes.len() <= segments.len(),
    ensures
        hls_after_fetches(hls_start(segments), sizes).sizes == sizes,
        hls_after_fetches(hls_start(segments), sizes).segments == segments,
        hls_after_fetches(hls_start(segments), sizes).merged == 0,
        hls_after_fetches(hls_start(segments), sizes).phase == if sizes.len() < segments.len() {
            HlsPhase::Downloading
        } else {
            HlsPhase::Merging
        },
    decreases sizes.len(),
{
    if sizes.len() > 0 {
        lemma_after_fetches(segments, sizes.drop_last());
        assert(sizes.drop_last().push(sizes.last()) =~= sizes);
    }
}

/// Progress follows the fetch and merge counts: after `k` of `N` segments
/// are fetched it is 80·k/N; after all are fetched and `j` files appended it
/// is 80 + 20·j/N; it is 100 before the flush only once every file has been
/// appended, and the flush is what completes the job.
pub proof fn hls_percent_formula(segments: Seq<Seq<char>>, sizes: Seq<nat>, j: nat)
    requires
        segments.len() > 0,
        sizes.len() <= segments.len(),
        j <= segments.len(),
    ensures
        sizes.len() < segments.len() ==> hls_percent(hls_after_fetches(hls_start(segments), sizes))
            == 80 * sizes.len() / segments.len(),
        sizes.len() == segments.len() ==> hls_percent(
            hls_after_appends(hls_after_fetches(hls_start(segments), sizes), j),
        ) == 80 + 20 * j / segments.len(),
        sizes.len() == segments.len() ==> hls_percent(hls_after_fetches(hls_start(segments), sizes))
            == 80 * sizes.len() / segments.len(),
        sizes.len() == segments.len() && j < segments.len() ==> hls_percent(
            hls_after_appends(hls_after_fetches(hls_start(segments), sizes), j),
        ) < 100,
{
    lemma_after_fetches(segments, sizes);
    let n = segments.len() as int;
    if sizes.len() == segments.len() {
        lemma_div_by_self(n);
        assert(80 * n / n == 80) by (nonlinear_arith)
            requires n > 0, n / n == 1;
        if j < n {
            let jj = j as int;
            assert(20 * jj / n < 20) by (nonlinear_arith)
                requires 0 <= jj < n;
        }
    }
}

/// Percent, fetched count and appended count never fall: each accepted
/// step leaves them as they were or raises them.
pub proof fn hls_progress_monotonic(m: HlsModel, size: nat)
    requires
        hls_wf(m),
    ensures
        m.phase == HlsPhase::Downloading ==> hls_percent(m) <= hls_percent(hls_fetched(m, size))
            && m.sizes.len() < hls_fetched(m, size).sizes.len(),
        m.phase == HlsPhase::Merging && m.merged < m.segments.len() ==> hls_percent(m)
            <= hls_percent(hls_after_appends(m, 1)),
        m.phase == HlsPhase::Merging ==> hls_percent(m) <= 100,
{
    let n = m.segments.len() as int;
    let k = m.sizes.len() as int;
    if m.phase == HlsPhase::Downloading {
        lemma_div_is_ordered(80 * k, 80 * (k + 1), n);
        if k + 1 == n {
            assert(80 * k / n <= 80) by (nonlinear_arith)
                requires 0 <= k < n;
        }
    }
    if m.phase == HlsPhase::Merging {
        let j = m.merged as int;
        lemma_div_is_ordered(20 * j, 20 * (j + 1), n);
        assert(20 * j / n <= 20) by (nonlinear_arith)
            requires 0 <= j <= n, n > 0;
    }
}

/// Merging appends the scratch files in playlist order: after `j` appends
/// the pending action is the append of file `j`, then the flush. The bytes
/// written are the sum of the segment sizes, whatever they are.
pub proof fn hls_merge_in_order(segments: Seq<Seq<char>>, sizes: Seq<nat>, j: nat)
    requires
        segments.len() > 0,
        sizes.len() == segments.len(),
        j <= segments.len(),
    ensures
        hls_pending(hls_after_appends(hls_after_fetches(hls_start(segments), sizes), j)) == if j
            < segments.len() {
            HlsAction::AppendSegment(j as usize)
        } else {
            HlsAction::Flush
        },
        hls_after_appends(hls_after_fetches(hls_start(segments), sizes), j).sizes == sizes,
{
    lemma_after_fetches(segments, sizes);
}

} // verus!
