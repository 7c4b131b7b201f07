//! Records exchanged with callers and written to disk. Progress is given in
//! whole percent.
use vstd::prelude::*;

verus! {

/// One remote image of a chapter: where to fetch it, its position, and the
/// file name it is stored under.
#[derive(Clone, Debug)]
pub struct ImageInfo {
    pub url: String,
    pub index: usize,
    pub filename: String,
}

/// Descriptive metadata of a manga, written once per manga beside its chapters.
pub struct MangaDetail {
    pub uuid: String,
    pub name: String,
    pub path_word: String,
    pub cover: String,
    pub author: Vec<String>,
    pub theme: Vec<String>,
    pub status: String,
    pub popular: Option<i32>,
    pub brief: Option<String>,
}

/// A request to download one image chapter.
pub struct DownloadInfo {
    pub manga_uuid: String,
    pub manga_name: String,
    pub group_path_word: String,
    pub chapter_uuid: String,
    pub chapter_name: String,
    pub images: Vec<ImageInfo>,
    pub manga_detail: Option<MangaDetail>,
}

/// The journal of an image chapter (`info.json`): its identity, the declared
/// number of images, the file names stored so far and the time of writing.
#[derive(Clone, Debug)]
pub struct ChapterInfo {
    pub manga_uuid: String,
    pub manga_name: String,
    pub group_path_word: String,
    pub chapter_uuid: String,
    pub chapter_name: String,
    pub total_images: usize,
    pub images: Vec<String>,
    pub download_time: String,
}

/// Outcome of an image-chapter download.
pub struct DownloadResult {
    pub success: bool,
    pub message: String,
    pub chapter_path: String,
}

/// Progress of an image chapter as counted on disk.
#[derive(Clone, Debug)]
pub struct DownloadProgress {
    pub completed: usize,
    pub total: usize,
    pub percent: u128,
    pub current_image: String,
    pub status: String,
}

pub struct CheckDownloadedResult {
    pub is_downloaded: bool,
}

pub struct ChapterInfoResult {
    pub chapter_info: Option<ChapterInfo>,
}

pub struct LocalChapterImages {
    pub images: Vec<String>,
    pub total_count: usize,
}

pub struct DeleteChapterResult {
    pub success: bool,
    pub message: String,
}

/// A locally stored manga as listed to callers.
pub struct DownloadedMangaInfo {
    pub uuid: String,
    pub name: String,
    pub path_word: String,
    pub author: Vec<String>,
    pub theme: Vec<String>,
    pub status: Option<String>,
    pub popular: Option<i32>,
    pub brief: Option<String>,
    pub datetime_updated: Option<String>,
    pub cover_path: Option<String>,
    pub chapter_count: usize,
    pub latest_download_time: String,
}

/// Descriptive metadata of a cartoon, written once per cartoon.
pub struct CartoonDetail {
    pub uuid: String,
    pub name: String,
    pub path_word: String,
    pub cover: String,
    pub company: Option<String>,
    pub theme: Vec<String>,
    pub cartoon_type: Option<String>,
    pub category: Option<String>,
    pub grade: Option<String>,
    pub popular: Option<i32>,
    pub brief: Option<String>,
    pub years: Option<String>,
    pub datetime_updated: Option<String>,
}

/// A request to download one video episode.
pub struct CartoonDownloadInfo {
    pub cartoon_uuid: String,
    pub cartoon_name: String,
    pub chapter_uuid: String,
    pub chapter_name: String,
    pub video_url: String,
    pub cover: String,
    pub cartoon_detail: Option<CartoonDetail>,
}

/// The journal of a video episode (`info.json`): written once the video file
/// is complete.
#[derive(Clone, Debug)]
pub struct CartoonChapterInfo {
    pub cartoon_uuid: String,
    pub cartoon_name: String,
    pub chapter_uuid: String,
    pub chapter_name: String,
    pub video_file: String,
    pub file_size: u64,
    pub download_time: String,
}

/// Progress of a video episode as reported to callers.
#[derive(Clone, Copy, Debug)]
pub struct CartoonDownloadProgress {
    pub downloaded_size: u64,
    pub total_size: u64,
    pub percent: u64,
    pub completed: bool,
}

/// Outcome of a video-episode download.
pub struct CartoonDownloadResult {
    pub success: bool,
    pub message: String,
    pub file_path: String,
}

/// A locally stored cartoon as listed to callers.
pub struct DownloadedCartoonInfo {
    pub uuid: String,
    pub name: String,
    pub path_word: String,
    pub company: Option<String>,
    pub theme: Vec<String>,
    pub cartoon_type: Option<String>,
    pub category: Option<String>,
    pub grade: Option<String>,
    pub popular: Option<i32>,
    pub brief: Option<String>,
    pub years: Option<String>,
    pub datetime_updated: Option<String>,
    pub cover_path: Option<String>,
    pub chapter_count: usize,
    pub latest_download_time: String,
}

/// Failure of an engine operation, by kind, with a readable message.
#[derive(Clone, Debug)]
pub enum DownloadError {
    Io(String),
    Network(String),
    Parse(String),
    AlreadyExists(String),
    NotFound(String),
    InvalidState(String),
}

} // verus!
