use copymanga::image::{ImageAction, ImageDownload, ImageEvent};
use copymanga::pause::PauseRegistry;
use copymanga::types::{DownloadInfo, ImageInfo};
use std::collections::HashSet;

fn chapter(n: usize) -> DownloadInfo {
    let images = (0..n)
        .map(|i| ImageInfo {
            url: format!("https://img.x/c1/{:03}.jpg", i + 1),
            index: i,
            filename: format!("{:03}.jpg", i + 1),
        })
        .collect();
    DownloadInfo {
        manga_uuid: "m1".to_string(),
        manga_name: "Manga".to_string(),
        group_path_word: "default".to_string(),
        chapter_uuid: "c1".to_string(),
        chapter_name: "Chapter 1".to_string(),
        images,
        manga_detail: None,
    }
}

/// Runs the machine against a simulated disk. `failing` lists images whose
/// fetch fails; `pauses` is asked before each pause check with the number of
/// successful fetches so far. Returns the indices fetched, in order.
fn drive(
    dl: &mut ImageDownload,
    disk: &mut HashSet<String>,
    failing: &[usize],
    pauses: &PauseRegistry,
    key: &str,
    mut pause_hook: impl FnMut(usize, &mut bool),
) -> Vec<usize> {
    let mut fetched = Vec::new();
    let mut ok_count = 0;
    let mut action = dl.next_action();
    let mut forced = false;
    loop {
        let ev = match action {
            ImageAction::CheckPause => {
                pause_hook(ok_count, &mut forced);
                ImageEvent::Paused(forced || pauses.is_paused(key))
            }
            ImageAction::CheckExists(i) => {
                let name = dl.image(i).unwrap().filename.clone();
                ImageEvent::Exists(disk.contains(&name))
            }
            ImageAction::Fetch(i) => {
                fetched.push(i);
                let ok = !failing.contains(&i);
                if ok {
                    disk.insert(dl.image(i).unwrap().filename.clone());
                    ok_count += 1;
                }
                ImageEvent::Fetched(ok)
            }
            ImageAction::Delay => ImageEvent::Delayed,
            ImageAction::Finish => break,
        };
        action = dl.step(ev);
    }
    fetched
}

#[test]
fn three_images_none_on_disk() {
    let mut dl = ImageDownload::new(chapter(3));
    let mut disk = HashSet::new();
    let reg = PauseRegistry::new();
    let fetched = drive(&mut dl, &mut disk, &[], &reg, "k", |_, _| {});
    assert_eq!(fetched, vec![0, 1, 2]);
    assert_eq!(dl.fetch_count(), 3);
    let j = dl.journal_at("2024-01-01 00:00:00".to_string());
    assert_eq!(j.images, vec!["001.jpg", "002.jpg", "003.jpg"]);
    assert_eq!(j.total_images, 3);
    assert_eq!(j.download_time, "2024-01-01 00:00:00");
    assert_eq!(j.chapter_uuid, "c1");
}

#[test]
fn three_images_one_on_disk() {
    let mut dl = ImageDownload::new(chapter(3));
    let mut disk: HashSet<String> = ["002.jpg".to_string()].into_iter().collect();
    let reg = PauseRegistry::new();
    let fetched = drive(&mut dl, &mut disk, &[], &reg, "k", |_, _| {});
    assert_eq!(fetched, vec![0, 2]);
    let j = dl.journal_at("t".to_string());
    assert_eq!(j.images.len(), 3);
    assert_eq!(j.images, vec!["001.jpg", "002.jpg", "003.jpg"]);
}

#[test]
fn pause_after_first_image_then_resume() {
    let mut reg = PauseRegistry::new();
    let mut dl = ImageDownload::new(chapter(3));
    let key = dl.key();
    assert_eq!(key, "m1|default|c1");
    let mut disk = HashSet::new();
    let fetched = {
        let mut pause_set = false;
        drive(&mut dl, &mut disk, &[], &reg, &key, |ok, forced| {
            if ok == 1 && !pause_set {
                pause_set = true;
                *forced = true;
            }
        })
    };
    assert_eq!(fetched, vec![0]);
    assert!(dl.is_finished());
    let j1 = dl.journal_at("t1".to_string());
    assert_eq!(j1.images, vec!["001.jpg"]);

    assert!(reg.resume_chapter_download("m1", "default", "c1"));
    let mut again = ImageDownload::new(chapter(3));
    let fetched2 = drive(&mut again, &mut disk, &[], &reg, &key, |_, _| {});
    assert_eq!(fetched2, vec![1, 2]);
    let j2 = again.journal_at("t2".to_string());
    assert_eq!(j2.images.len(), 3);
}

#[test]
fn pause_set_before_start_fetches_nothing() {
    let mut reg = PauseRegistry::new();
    assert!(reg.pause_chapter_download("m1", "default", "c1"));
    let mut dl = ImageDownload::new(chapter(3));
    let key = dl.key();
    let before = dl.journal_at("t".to_string());
    let mut disk = HashSet::new();
    let fetched = drive(&mut dl, &mut disk, &[], &reg, &key, |_, _| {});
    assert!(fetched.is_empty());
    assert_eq!(dl.fetch_count(), 0);
    let after = dl.journal_at("t".to_string());
    assert_eq!(before.images, after.images);
    assert_eq!(before.total_images, after.total_images);
    assert!(disk.is_empty());
}

#[test]
fn failed_fetch_is_skipped_and_retried_later() {
    let mut dl = ImageDownload::new(chapter(3));
    let mut disk = HashSet::new();
    let reg = PauseRegistry::new();
    let fetched = drive(&mut dl, &mut disk, &[1], &reg, "k", |_, _| {});
    assert_eq!(fetched, vec![0, 1, 2]);
    let j = dl.journal_at("t".to_string());
    assert_eq!(j.images, vec!["001.jpg", "003.jpg"]);

    // A second run with the same inputs fetches only what is missing.
    let mut again = ImageDownload::new(chapter(3));
    let fetched2 = drive(&mut again, &mut disk, &[], &reg, "k", |_, _| {});
    assert_eq!(fetched2, vec![1]);
    let j2 = again.journal_at("t".to_string());
    assert_eq!(j2.images, vec!["001.jpg", "002.jpg", "003.jpg"]);
}

#[test]
fn second_run_fetches_nothing_when_all_present() {
    let mut disk = HashSet::new();
    let reg = PauseRegistry::new();
    let mut first = ImageDownload::new(chapter(2));
    assert_eq!(drive(&mut first, &mut disk, &[], &reg, "k", |_, _| {}), vec![0, 1]);
    let mut second = ImageDownload::new(chapter(2));
    assert!(drive(&mut second, &mut disk, &[], &reg, "k", |_, _| {}).is_empty());
    assert_eq!(second.journal_at("t".to_string()).images, vec!["001.jpg", "002.jpg"]);
}

#[test]
fn recorded_names_only_grow_within_a_run() {
    let mut dl = ImageDownload::new(chapter(3));
    let mut seen: Vec<Vec<String>> = vec![dl.journal_at("t".to_string()).images];
    let mut counts = vec![dl.fetch_count()];
    let mut action = dl.next_action();
    let mut disk: HashSet<String> = ["001.jpg".to_string()].into_iter().collect();
    while action != ImageAction::Finish {
        let ev = match action {
            ImageAction::CheckPause => ImageEvent::Paused(false),
            ImageAction::CheckExists(i) => ImageEvent::Exists(disk.contains(&dl.image(i).unwrap().filename)),
            ImageAction::Fetch(i) => {
                disk.insert(dl.image(i).unwrap().filename.clone());
                ImageEvent::Fetched(i != 1)
            }
            ImageAction::Delay => ImageEvent::Delayed,
            ImageAction::Finish => unreachable!(),
        };
        action = dl.step(ev);
        seen.push(dl.journal_at("t".to_string()).images);
        counts.push(dl.fetch_count());
    }
    for w in seen.windows(2) {
        assert!(w[1].starts_with(&w[0]));
    }
    for w in counts.windows(2) {
        assert!(w[0] <= w[1]);
    }
}

#[test]
fn unexpected_event_changes_nothing() {
    let mut dl = ImageDownload::new(chapter(1));
    assert_eq!(dl.next_action(), ImageAction::CheckPause);
    assert_eq!(dl.step(ImageEvent::Fetched(true)), ImageAction::CheckPause);
    assert_eq!(dl.step(ImageEvent::Paused(false)), ImageAction::CheckExists(0));
    assert_eq!(dl.step(ImageEvent::Exists(false)), ImageAction::CheckPause);
    assert_eq!(dl.step(ImageEvent::Paused(false)), ImageAction::Fetch(0));
    assert_eq!(dl.step(ImageEvent::Fetched(true)), ImageAction::CheckPause);
    assert_eq!(dl.step(ImageEvent::Paused(false)), ImageAction::Delay);
    assert_eq!(dl.step(ImageEvent::Delayed), ImageAction::CheckPause);
    assert_eq!(dl.step(ImageEvent::Paused(false)), ImageAction::Finish);
    assert_eq!(dl.journal_at("t".to_string()).images, vec!["001.jpg"]);
}

#[test]
fn empty_chapter_finishes_at_once() {
    let dl = ImageDownload::new(chapter(0));
    assert_eq!(dl.next_action(), ImageAction::Finish);
    assert_eq!(dl.journal_at("t".to_string()).total_images, 0);
}
