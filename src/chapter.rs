//! Status of an image chapter as seen on disk: how many of its images are
//! there, and what that means for the caller.
use vstd::prelude::*;
use crate::types::DownloadProgress;
use crate::episode::{decimal, push_decimal};
use crate::text::{after_last, append_str, chars_of, get_extension_from_filename, get_filename_from_url, string_from_chars};

verus! {

/// Download state of a chapter according to its journal.
pub struct ChapterDownloadDetail {
    pub status: String,
    pub total_images: usize,
    pub downloaded_images: usize,
    pub progress: u128,
}

/// What a chapter directory without a journal suggests.
pub struct IncompleteDownloadResult {
    pub has_incomplete: bool,
    pub completed: Option<usize>,
    pub total: Option<usize>,
    pub percent: Option<u64>,
}

/// Whole percent of `part` in `whole`, 0 for an empty whole.
pub open spec fn percent_of(part: nat, whole: nat) -> nat {
    if whole == 0 {
        0
    } else {
        part * 100 / whole
    }
}

pub open spec fn count_true(s: Seq<bool>) -> nat
    decreases s.len(),
{
    if s.len() == 0 {
        0
    } else {
        count_true(s.drop_last()) + if s.last() { 1nat } else { 0nat }
    }
}

fn percent(part: usize, whole: usize) -> (r: u128)
    ensures
        r as nat == percent_of(part as nat, whole as nat),
{
    if whole == 0 {
        0
    } else {
        (part as u128) * 100 / (whole as u128)
    }
}

/// The detail of a chapter whose journal declares `total_images` and lists
/// files of which those flagged in `present` are on disk with content.
/// No file present: `not_downloaded`; all declared present: `downloaded`;
/// otherwise `partial`.
pub fn check_chapter_download_detail(total_images: usize, present: &Vec<bool>) -> (r: ChapterDownloadDetail)
    ensures
        r.total_images == total_images,
        r.downloaded_images as nat == count_true(present@),
        count_true(present@) == 0 ==> r.status@ == "not_downloaded"@,
        count_true(present@) != 0 && count_true(present@) == total_images ==> r.status@ == "downloaded"@,
        count_true(present@) != 0 && count_true(present@) != total_images ==> r.status@ == "partial"@,
        r.progress as nat == percent_of(count_true(present@), total_images as nat),
{
    let mut n: usize = 0;
    let mut i: usize = 0;
    while i < present.len()
        invariant
            i <= present.len(),
            n as nat == count_true(present@.subrange(0, i as int)),
            n <= i,
        decreases present.len() - i,
    {
        assert(present@.subrange(0, i + 1).drop_last() =~= present@.subrange(0, i as int));
        if present[i] {
            n = n + 1;
        }
        i = i + 1;
    }
    assert(present@.subrange(0, present.len() as int) =~= present@);
    let status = if n == 0 {
        String::from_str("not_downloaded")
    } else if n == total_images {
        String::from_str("downloaded")
    } else {
        String::from_str("partial")
    };
    let progress = percent(n, total_images);
    ChapterDownloadDetail { status, total_images, downloaded_images: n, progress }
}

/// Progress of a chapter from the number of image files found in its
/// directory and the number expected.
pub fn get_download_progress(completed: usize, expected_image_count: usize) -> (r: DownloadProgress)
    ensures
        r.completed == completed,
        r.total == expected_image_count,
        completed >= expected_image_count ==> r.status@ == "completed"@,
        completed < expected_image_count && completed > 0 ==> r.status@ == "downloading"@,
        completed < expected_image_count && completed == 0 ==> r.status@ == "pending"@,
        r.percent as nat == percent_of(completed as nat, expected_image_count as nat),
        r.current_image@ == "正在下载 "@ + decimal(completed as nat) + seq!['/'] + decimal(expected_image_count as nat),
{
    let status = if completed >= expected_image_count {
        String::from_str("completed")
    } else if completed > 0 {
        String::from_str("downloading")
    } else {
        String::from_str("pending")
    };
    let p = percent(completed, expected_image_count);
    let mut text: Vec<char> = Vec::new();
    append_str(&mut text, "正在下载 ");
    push_decimal(&mut text, completed as u64);
    text.push('/');
    push_decimal(&mut text, expected_image_count as u64);
    DownloadProgress {
        completed,
        total: expected_image_count,
        percent: p,
        current_image: string_from_chars(text.as_slice()),
        status,
    }
}

/// Progress of a chapter whose directory does not exist yet.
pub fn pending_progress(expected_image_count: usize) -> (r: DownloadProgress)
    ensures
        r.completed == 0,
        r.total == expected_image_count,
        r.percent == 0,
        r.status@ == "pending"@,
        r.current_image@ == "准备下载..."@,
{
    DownloadProgress {
        completed: 0,
        total: expected_image_count,
        percent: 0,
        current_image: String::from_str("准备下载..."),
        status: String::from_str("pending"),
    }
}

/// A chapter directory without a journal but with images in it holds an
/// interrupted download; anything else does not.
pub fn check_incomplete_download(dir_exists: bool, has_journal: bool, image_count: usize) -> (r: IncompleteDownloadResult)
    ensures
        r.has_incomplete == (dir_exists && !has_journal && image_count > 0),
        r.has_incomplete ==> r.completed == Some(image_count),
        !r.has_incomplete ==> r.completed is None,
        r.total is None && r.percent is None,
{
    if dir_exists && !has_journal && image_count > 0 {
        IncompleteDownloadResult { has_incomplete: true, completed: Some(image_count), total: None, percent: None }
    } else {
        IncompleteDownloadResult { has_incomplete: false, completed: None, total: None, percent: None }
    }
}

pub open spec fn ends_with(s: Seq<char>, suffix: Seq<char>) -> bool {
    s.len() >= suffix.len() && s.subrange(s.len() - suffix.len(), s.len() as int) == suffix
}

/// File names counted as images: those ending in `.jpg`, `.jpeg`, `.png` or `.webp`.
pub open spec fn is_image_name(name: Seq<char>) -> bool {
    ends_with(name, ".jpg"@) || ends_with(name, ".jpeg"@) || ends_with(name, ".png"@) || ends_with(name, ".webp"@)
}

fn has_suffix(cs: &Vec<char>, suffix: &str) -> (r: bool)
    ensures
        r == ends_with(cs@, suffix@),
{
    let sf = chars_of(suffix);
    if sf.len() > cs.len() {
        return false;
    }
    let off = cs.len() - sf.len();
    let mut j: usize = 0;
    while j < sf.len()
        invariant
            j <= sf.len(),
            off + sf.len() == cs.len(),
            sf@ == suffix@,
            cs@.subrange(off as int, off + j) =~= sf@.subrange(0, j as int),
        decreases sf.len() - j,
    {
        if cs[off + j] != sf[j] {
            assert(cs@.subrange(off as int, cs.len() as int)[j as int] != sf@[j as int]);
            return false;
        }
        j = j + 1;
        assert(cs@.subrange(off as int, off + j) =~= sf@.subrange(0, j as int));
    }
    assert(sf@.subrange(0, sf.len() as int) =~= sf@);
    true
}

pub fn is_image_file_name(name: &str) -> (r: bool)
    ensures
        r == is_image_name(name@),
{
    let cs = chars_of(name);
    has_suffix(&cs, ".jpg") || has_suffix(&cs, ".jpeg") || has_suffix(&cs, ".png") || has_suffix(&cs, ".webp")
}

/// Name of the cover file of a media item: `cover.` and the extension of
/// the file the cover URL points to.
pub fn cover_file_name(cover_url: &str) -> (r: String)
    ensures
        r@ == "cover."@ + after_last(after_last(cover_url@, '/'), '.'),
{
    let file = get_filename_from_url(cover_url);
    let ext = get_extension_from_filename(file.as_str());
    let mut out: Vec<char> = Vec::new();
    append_str(&mut out, "cover.");
    append_str(&mut out, ext.as_str());
    string_from_chars(out.as_slice())
}

} // verus!
