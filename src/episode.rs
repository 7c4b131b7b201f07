//! File names and records of a video episode, and the progress reported for
//! it: live progress while a job runs, the journal once it has finished.
use vstd::prelude::*;
use crate::types::{CartoonChapterInfo, CartoonDownloadInfo, CartoonDownloadProgress};
use crate::clock::now_timestamp;
use crate::hls::{is_playlist, is_playlist_url, CartoonProgressTracker, TransferStatus};
use crate::text::{append_str, string_from_chars};

verus! {

pub open spec fn digit_char(d: nat) -> char {
    if d == 0 { '0' } else if d == 1 { '1' } else if d == 2 { '2' } else if d == 3 { '3' }
    else if d == 4 { '4' } else if d == 5 { '5' } else if d == 6 { '6' } else if d == 7 { '7' }
    else if d == 8 { '8' } else { '9' }
}

/// Decimal digits of `n`, without leading zeros.
pub open spec fn decimal(n: nat) -> Seq<char>
    decreases n,
{
    if n < 10 {
        seq![digit_char(n)]
    } else {
        decimal(n / 10).push(digit_char(n % 10))
    }
}

/// Decimal digits of `n`, left-padded with zeros to at least `width`.
pub open spec fn zero_padded(n: nat, width: nat) -> Seq<char> {
    let d = decimal(n);
    if d.len() >= width {
        d
    } else {
        Seq::new((width - d.len()) as nat, |i: int| '0') + d
    }
}

/// Name of the scratch file that holds segment `i`.
pub open spec fn scratch_name(i: nat) -> Seq<char> {
    seq!['s', 'e', 'g', 'm', 'e', 'n', 't', '_'] + zero_padded(i, 4) + seq!['.', 't', 's']
}

/// Name of the video file of an episode.
pub open spec fn video_name(chapter_name: Seq<char>) -> Seq<char> {
    chapter_name + seq!['.', 'm', 'p', '4']
}

fn digit(d: u64) -> (r: char)
    requires
        d < 10,
    ensures
        r == digit_char(d as nat),
{
    if d == 0 { '0' } else if d == 1 { '1' } else if d == 2 { '2' } else if d == 3 { '3' }
    else if d == 4 { '4' } else if d == 5 { '5' } else if d == 6 { '6' } else if d == 7 { '7' }
    else if d == 8 { '8' } else { '9' }
}

pub fn push_decimal(out: &mut Vec<char>, n: u64)
    ensures
        final(out)@ == old(out)@ + decimal(n as nat),
    decreases n,
{
    if n < 10 {
        out.push(digit(n));
        assert(final(out)@ =~= old(out)@ + decimal(n as nat)) by {
            assert(decimal(n as nat) == seq![digit_char(n as nat)]);
        }
    } else {
        push_decimal(out, n / 10);
        out.push(digit(n % 10));
        assert(out@ =~= old(out)@ + decimal(n as nat));
    }
}

/// Name of the scratch file that holds segment `index`: `segment_` and the
/// index written with at least four digits, then `.ts`.
pub fn scratch_file_name(index: usize) -> (r: String)
    ensures
        r@ == scratch_name(index as nat),
{
    let mut digits: Vec<char> = Vec::new();
    push_decimal(&mut digits, index as u64);
    assert(digits@ =~= decimal(index as nat));
    let mut out: Vec<char> = vec!['s', 'e', 'g', 'm', 'e', 'n', 't', '_'];
    let ghost head = out@;
    let mut pad = digits.len();
    while pad < 4
        invariant
            digits@ == decimal(index as nat),
            digits.len() <= pad,
            pad <= 4 || pad == digits.len(),
            out@ == head + Seq::new((pad - digits.len()) as nat, |i: int| '0'),
        decreases 4 - pad,
    {
        out.push('0');
        pad = pad + 1;
        assert(out@ =~= head + Seq::new((pad - digits.len()) as nat, |i: int| '0'));
    }
    let mut k: usize = 0;
    let ghost mid = out@;
    while k < digits.len()
        invariant
            k <= digits.len(),
            out@ == mid + digits@.subrange(0, k as int),
        decreases digits.len() - k,
    {
        out.push(digits[k]);
        k = k + 1;
        assert(out@ =~= mid + digits@.subrange(0, k as int));
    }
    assert(digits@.subrange(0, digits.len() as int) =~= digits@);
    out.push('.');
    out.push('t');
    out.push('s');
    assert(out@ =~= scratch_name(index as nat)) by {
        assert(head =~= seq!['s', 'e', 'g', 'm', 'e', 'n', 't', '_']);
        if digits.len() >= 4 {
            assert(Seq::new(0, |i: int| '0') =~= Seq::<char>::empty());
        }
    }
    string_from_chars(out.as_slice())
}

/// Name of the video file of an episode: its chapter name and `.mp4`.
pub fn video_file_name(chapter_name: &str) -> (r: String)
    ensures
        r@ == video_name(chapter_name@),
{
    let mut out: Vec<char> = Vec::new();
    append_str(&mut out, chapter_name);
    out.push('.');
    out.push('m');
    out.push('p');
    out.push('4');
    assert(out@ =~= video_name(chapter_name@));
    string_from_chars(out.as_slice())
}

/// Progress reported for an episode: the live entry while a job runs;
/// otherwise complete when its journal exists; otherwise not started.
pub fn cartoon_progress(live: Option<&CartoonProgressTracker>, journal: Option<&CartoonChapterInfo>) -> (r: CartoonDownloadProgress)
    ensures
        live is Some ==> r == (CartoonDownloadProgress {
            downloaded_size: live->Some_0.downloaded_bytes,
            total_size: live->Some_0.total_bytes,
            percent: live->Some_0.percent,
            completed: live->Some_0.status == TransferStatus::Completed,
        }),
        live is None && journal is Some ==> r == (CartoonDownloadProgress {
            downloaded_size: journal->Some_0.file_size,
            total_size: journal->Some_0.file_size,
            percent: 100,
            completed: true,
        }),
        live is None && journal is None ==> r == (CartoonDownloadProgress {
            downloaded_size: 0,
            total_size: 0,
            percent: 0,
            completed: false,
        }),
{
    match live {
        Some(p) => CartoonDownloadProgress {
            downloaded_size: p.downloaded_bytes,
            total_size: p.total_bytes,
            percent: p.percent,
            completed: p.status == TransferStatus::Completed,
        },
        None => match journal {
            Some(j) => CartoonDownloadProgress {
                downloaded_size: j.file_size,
                total_size: j.file_size,
                percent: 100,
                completed: true,
            },
            None => CartoonDownloadProgress {
                downloaded_size: 0,
                total_size: 0,
                percent: 0,
                completed: false,
            },
        },
    }
}

/// The journal of a finished episode, stamped `download_time`.
pub fn episode_journal_at(info: &CartoonDownloadInfo, file_size: u64, download_time: String) -> (r: CartoonChapterInfo)
    ensures
        r.cartoon_uuid@ == info.cartoon_uuid@,
        r.cartoon_name@ == info.cartoon_name@,
        r.chapter_uuid@ == info.chapter_uuid@,
        r.chapter_name@ == info.chapter_name@,
        r.video_file@ == video_name(info.chapter_name@),
        r.file_size == file_size,
        r.download_time == download_time,
{
    CartoonChapterInfo {
        cartoon_uuid: info.cartoon_uuid.clone(),
        cartoon_name: info.cartoon_name.clone(),
        chapter_uuid: info.chapter_uuid.clone(),
        chapter_name: info.chapter_name.clone(),
        video_file: video_file_name(info.chapter_name.as_str()),
        file_size,
        download_time,
    }
}

/// The journal of a finished episode, stamped with the current time.
pub fn episode_journal(info: &CartoonDownloadInfo, file_size: u64) -> (r: CartoonChapterInfo)
    ensures
        r.cartoon_uuid@ == info.cartoon_uuid@,
        r.cartoon_name@ == info.cartoon_name@,
        r.chapter_uuid@ == info.chapter_uuid@,
        r.chapter_name@ == info.chapter_name@,
        r.video_file@ == video_name(info.chapter_name@),
        r.file_size == file_size,
{
    episode_journal_at(info, file_size, now_timestamp())
}

/// How an episode download begins.
#[derive(PartialEq, Eq, Structural, Clone, Copy, Debug)]
pub enum EpisodeStart {
    /// The video file is already there: write its journal with size 0 and
    /// report success without any fetch.
    AlreadyPresent,
    /// Fetch the video as one file.
    SingleFile,
    /// Fetch the playlist and run a segmented download.
    Playlist,
}

/// Chooses how an episode download begins, from whether its video file is
/// on disk and the form of its URL.
pub fn plan_episode(video_exists: bool, video_url: &str) -> (r: EpisodeStart)
    ensures
        video_exists ==> r == EpisodeStart::AlreadyPresent,
        !video_exists && is_playlist(video_url@) ==> r == EpisodeStart::Playlist,
        !video_exists && !is_playlist(video_url@) ==> r == EpisodeStart::SingleFile,
{
    if video_exists {
        EpisodeStart::AlreadyPresent
    } else if is_playlist_url(video_url) {
        EpisodeStart::Playlist
    } else {
        EpisodeStart::SingleFile
    }
}

} // verus!
