use copymanga::chapter::{
    check_chapter_download_detail, check_incomplete_download, cover_file_name,
    get_download_progress, is_image_file_name, pending_progress,
};
use copymanga::config::{default_book_api_index, AppConfig, ConfigFiles};
use copymanga::episode::episode_journal_at;
use copymanga::types::{CartoonDownloadInfo, DownloadError};

#[test]
fn detail_status_by_count() {
    let none = check_chapter_download_detail(3, &vec![false, false]);
    assert_eq!((none.status.as_str(), none.downloaded_images, none.progress), ("not_downloaded", 0, 0));
    let part = check_chapter_download_detail(4, &vec![true, false, true]);
    assert_eq!((part.status.as_str(), part.downloaded_images, part.progress), ("partial", 2, 50));
    let full = check_chapter_download_detail(3, &vec![true, true, true]);
    assert_eq!((full.status.as_str(), full.total_images, full.progress), ("downloaded", 3, 100));
    let zero = check_chapter_download_detail(0, &vec![]);
    assert_eq!((zero.status.as_str(), zero.progress), ("not_downloaded", 0));
}

#[test]
fn progress_by_files_found() {
    let p = get_download_progress(1, 3);
    assert_eq!((p.status.as_str(), p.percent), ("downloading", 33));
    assert_eq!(p.current_image, "正在下载 1/3");
    assert_eq!(get_download_progress(0, 3).status, "pending");
    assert_eq!(get_download_progress(3, 3).status, "completed");
    assert_eq!(get_download_progress(5, 3).status, "completed");
    let fresh = pending_progress(7);
    assert_eq!((fresh.total, fresh.completed, fresh.status.as_str()), (7, 0, "pending"));
}

#[test]
fn incomplete_only_without_journal() {
    assert!(check_incomplete_download(true, false, 2).has_incomplete);
    assert_eq!(check_incomplete_download(true, false, 2).completed, Some(2));
    assert!(!check_incomplete_download(true, true, 2).has_incomplete);
    assert!(!check_incomplete_download(false, false, 0).has_incomplete);
    assert!(!check_incomplete_download(true, false, 0).has_incomplete);
}

#[test]
fn image_names_and_cover_name() {
    assert!(is_image_file_name("001.jpg"));
    assert!(is_image_file_name("a.webp"));
    assert!(!is_image_file_name("info.json"));
    assert!(!is_image_file_name("jpg"));
    assert_eq!(cover_file_name("https://x.y/covers/abc.png"), "cover.png");
}

#[test]
fn api_domain_selection() {
    let mut cfg = AppConfig {
        api_sources: vec!["https://a".to_string(), "https://b".to_string()],
        current_api_index: 1,
        book_api_sources: vec![],
        current_book_api_index: default_book_api_index(),
    };
    assert_eq!(cfg.current_api_domain().unwrap(), ("https://b".to_string(), false));
    cfg.current_api_index = 5;
    assert_eq!(cfg.current_api_domain().unwrap(), ("https://a".to_string(), true));
    cfg.current_api_index = -1;
    assert_eq!(cfg.current_api_domain().unwrap(), ("https://a".to_string(), true));
    assert!(matches!(cfg.current_book_api_domain(), Err(DownloadError::NotFound(_))));
    cfg.api_sources.clear();
    assert!(cfg.current_api_domain().is_err());
    assert_eq!(default_book_api_index(), -1);
    assert_eq!(ConfigFiles::SERVER, "server.json");
    assert_eq!(ConfigFiles::APP, "copymanga.json");
}

#[test]
fn episode_journal_fields() {
    let info = CartoonDownloadInfo {
        cartoon_uuid: "c".to_string(),
        cartoon_name: "Cartoon".to_string(),
        chapter_uuid: "e".to_string(),
        chapter_name: "Ep 1".to_string(),
        video_url: "https://v/x.mp4".to_string(),
        cover: String::new(),
        cartoon_detail: None,
    };
    let j = episode_journal_at(&info, 1234, "t".to_string());
    assert_eq!(j.video_file, "Ep 1.mp4");
    assert_eq!(j.file_size, 1234);
    assert_eq!(j.download_time, "t");
}

#[test]
fn percent_is_not_capped_when_more_files_than_declared() {
    let over = check_chapter_download_detail(1, &vec![true, true]);
    assert_eq!((over.status.as_str(), over.downloaded_images, over.progress), ("partial", 2, 200));
    assert_eq!(get_download_progress(5, 3).percent, 166);
    assert_eq!(get_download_progress(2, 0).percent, 0);
}
