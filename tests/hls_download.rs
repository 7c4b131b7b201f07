use copymanga::episode::{cartoon_progress, plan_episode, scratch_file_name, video_file_name, EpisodeStart};
use copymanga::hls::{is_playlist_url, starting_progress, HlsAction, HlsDownload, TransferStatus};
use copymanga::live::ProgressTable;
use copymanga::types::{CartoonChapterInfo, DownloadError};

const PLAYLIST: &str = "#EXTM3U\n#EXTINF:4,\ns0.ts\n#EXTINF:4,\ns1.ts\n#EXTINF:4,\ns2.ts\n#EXTINF:4,\ns3.ts\n#EXT-X-ENDLIST\n";

#[test]
fn four_segments_percent_sequence() {
    let mut job = HlsDownload::from_playlist("https://v.x/e1/index.m3u8", PLAYLIST).unwrap();
    assert_eq!(job.segment_count(), 4);
    assert_eq!(job.segment_url(2).unwrap(), "https://v.x/e1/s2.ts");
    let sizes = [100u64, 250, 50, 600];
    let mut seen = vec![job.progress().percent];
    let mut action = job.next_action();
    let mut appended = Vec::new();
    let mut scratch: Vec<String> = Vec::new();
    loop {
        action = match action {
            HlsAction::FetchSegment(i) => {
                scratch.push(scratch_file_name(i));
                job.segment_fetched(sizes[i]).unwrap()
            }
            HlsAction::AppendSegment(i) => {
                appended.push(i);
                job.segment_appended().unwrap()
            }
            HlsAction::Flush => job.flushed().unwrap(),
            HlsAction::Done => break,
            HlsAction::Abort => panic!("the job failed"),
        };
        let p = job.progress().percent;
        if *seen.last().unwrap() != p {
            seen.push(p);
        }
    }
    assert_eq!(seen, vec![0, 20, 40, 60, 80, 85, 90, 95, 100]);
    assert_eq!(appended, vec![0, 1, 2, 3]);
    assert_eq!(job.total_bytes(), 1000);
    let done = job.progress();
    assert_eq!(done.status, TransferStatus::Completed);
    assert_eq!(done.total_bytes, 1000);
    assert_eq!(scratch, vec!["segment_0000.ts", "segment_0001.ts", "segment_0002.ts", "segment_0003.ts"]);
}

#[test]
fn percent_is_below_100_until_all_appended() {
    let mut job = HlsDownload::from_playlist("u/p.m3u8", "a\nb\nc\n").unwrap();
    for _ in 0..3 {
        job.segment_fetched(1).unwrap();
    }
    assert_eq!(job.progress().percent, 80);
    assert_eq!(job.progress().status, TransferStatus::Merging);
    job.segment_appended().unwrap();
    assert_eq!(job.progress().percent, 86);
    job.segment_appended().unwrap();
    assert_eq!(job.progress().percent, 93);
    assert!(job.flushed().is_err());
    job.segment_appended().unwrap();
    assert_eq!(job.next_action(), HlsAction::Flush);
    assert_eq!(job.flushed().unwrap(), HlsAction::Done);
    assert_eq!(job.progress().percent, 100);
}

#[test]
fn empty_playlist_is_an_error() {
    match HlsDownload::from_playlist("https://v.x/e1/index.m3u8", "#EXTM3U\n#EXT-X-ENDLIST\n") {
        Err(DownloadError::Parse(msg)) => assert_eq!(msg, "no segments in playlist"),
        _ => panic!("expected a parse error"),
    }
}

#[test]
fn out_of_order_events_are_refused() {
    let mut job = HlsDownload::from_playlist("p.m3u8", "a\n").unwrap();
    assert!(matches!(job.segment_appended(), Err(DownloadError::InvalidState(_))));
    assert!(matches!(job.flushed(), Err(DownloadError::InvalidState(_))));
    assert_eq!(job.segment_fetched(7).unwrap(), HlsAction::AppendSegment(0));
    assert!(matches!(job.segment_fetched(7), Err(DownloadError::InvalidState(_))));
}

#[test]
fn byte_count_overflow_is_refused() {
    let mut job = HlsDownload::from_playlist("p.m3u8", "a\nb\n").unwrap();
    job.segment_fetched(u64::MAX).unwrap();
    assert!(matches!(job.segment_fetched(1), Err(DownloadError::InvalidState(_))));
    assert_eq!(job.total_bytes(), u64::MAX);
}

#[test]
fn playlist_urls_are_recognised_by_suffix() {
    assert!(is_playlist_url("https://v.x/a/index.m3u8"));
    assert!(!is_playlist_url("https://v.x/a/video.mp4"));
    assert!(!is_playlist_url("m3u8"));
}

#[test]
fn file_names_of_episode() {
    assert_eq!(video_file_name("第1话"), "第1话.mp4");
    assert_eq!(scratch_file_name(42), "segment_0042.ts");
    assert_eq!(scratch_file_name(12345), "segment_12345.ts");
}

#[test]
fn progress_query_prefers_live_then_journal() {
    let mut table = ProgressTable::new();
    let journal = CartoonChapterInfo {
        cartoon_uuid: "c".to_string(),
        cartoon_name: "n".to_string(),
        chapter_uuid: "e".to_string(),
        chapter_name: "ep".to_string(),
        video_file: "ep.mp4".to_string(),
        file_size: 4096,
        download_time: "t".to_string(),
    };
    let none = table.query("c_e", None);
    assert!(!none.completed && none.percent == 0 && none.total_size == 0);
    let from_journal = table.query("c_e", Some(&journal));
    assert!(from_journal.completed);
    assert_eq!((from_journal.percent, from_journal.downloaded_size, from_journal.total_size), (100, 4096, 4096));
    table.update("c_e", starting_progress());
    let live = table.query("c_e", Some(&journal));
    assert!(!live.completed);
    assert_eq!(live.percent, 0);
    table.remove("c_e");
    assert!(table.get("c_e").is_none());
    let direct = cartoon_progress(None, None);
    assert!(!direct.completed);
}

#[test]
fn second_start_of_a_running_job_is_refused() {
    let mut table = ProgressTable::new();
    table.start_job("c_e", starting_progress()).unwrap();
    assert!(matches!(table.start_job("c_e", starting_progress()), Err(DownloadError::AlreadyExists(_))));
    table.remove("c_e");
    assert!(table.start_job("c_e", starting_progress()).is_ok());
}

#[test]
fn failure_ends_the_job() {
    let mut job = HlsDownload::from_playlist("p.m3u8", "a\nb\n").unwrap();
    job.segment_fetched(3).unwrap();
    assert_eq!(job.failed().unwrap(), HlsAction::Abort);
    assert_eq!(job.next_action(), HlsAction::Abort);
    assert_eq!(job.progress().status, TransferStatus::Failed);
    assert!(matches!(job.segment_fetched(1), Err(DownloadError::InvalidState(_))));
    assert!(matches!(job.failed(), Err(DownloadError::InvalidState(_))));

    let mut done = HlsDownload::from_playlist("p.m3u8", "a\n").unwrap();
    done.segment_fetched(1).unwrap();
    done.segment_appended().unwrap();
    done.flushed().unwrap();
    assert!(matches!(done.failed(), Err(DownloadError::InvalidState(_))));
}

#[test]
fn episode_start_is_chosen_by_file_and_url() {
    assert_eq!(plan_episode(true, "https://v/index.m3u8"), EpisodeStart::AlreadyPresent);
    assert_eq!(plan_episode(false, "https://v/index.m3u8"), EpisodeStart::Playlist);
    assert_eq!(plan_episode(false, "https://v/video.mp4"), EpisodeStart::SingleFile);
}
