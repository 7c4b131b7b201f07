use copymanga::pause::PauseRegistry;
use copymanga::tasks::{is_active_status, DownloadTask, TaskRegistry};
use copymanga::types::DownloadError;

fn task(cartoon: &str, chapter: &str, status: &str, progress: f64) -> DownloadTask {
    DownloadTask {
        cartoon_uuid: cartoon.to_string(),
        cartoon_name: "Cartoon".to_string(),
        chapter_uuid: chapter.to_string(),
        chapter_name: "Ep".to_string(),
        video_url: "https://v.x/index.m3u8".to_string(),
        cover: String::new(),
        cartoon_detail: Some(serde_json::Value::String("detail".to_string())),
        status: status.to_string(),
        progress: progress.to_bits(),
        start_time: "s".to_string(),
        updated_at: String::new(),
    }
}

#[test]
fn save_with_existing_key_updates_in_place() {
    let mut reg = TaskRegistry::from_tasks(vec![task("a", "1", "downloading", 10.0)]);
    reg.save_download_task_at(task("a", "1", "paused", 55.5), "t2".to_string());
    let tasks = reg.into_tasks();
    assert_eq!(tasks.len(), 1);
    assert_eq!(tasks[0].status, "paused");
    assert_eq!(f64::from_bits(tasks[0].progress), 55.5);
    assert_eq!(tasks[0].updated_at, "t2");
    assert_eq!(tasks[0].start_time, "s");
}

#[test]
fn save_with_new_key_appends() {
    let mut reg = TaskRegistry::from_tasks(vec![task("a", "1", "downloading", 0.0)]);
    reg.save_download_task_at(task("a", "2", "downloading", 0.0), "t".to_string());
    reg.save_download_task(task("b", "1", "paused", 1.0));
    let tasks = reg.into_tasks();
    assert_eq!(tasks.len(), 3);
    assert_eq!(tasks[1].chapter_uuid, "2");
    assert_eq!(tasks[1].updated_at, "t");
    assert_eq!(tasks[2].cartoon_uuid, "b");
}

#[test]
fn remove_absent_key_fails() {
    let mut reg = TaskRegistry::from_tasks(vec![task("a", "1", "downloading", 0.0)]);
    let a = "a".to_string();
    let missing = "9".to_string();
    match reg.remove_download_task(&a, &missing) {
        Err(DownloadError::NotFound(k)) => assert_eq!(k, "a|9"),
        _ => panic!("expected NotFound"),
    }
    assert_eq!(reg.into_tasks().len(), 1);
}

#[test]
fn remove_present_key_drops_it() {
    let mut reg = TaskRegistry::from_tasks(vec![
        task("a", "1", "downloading", 0.0),
        task("a", "2", "paused", 0.0),
    ]);
    reg.remove_download_task(&"a".to_string(), &"1".to_string()).unwrap();
    let tasks = reg.into_tasks();
    assert_eq!(tasks.len(), 1);
    assert_eq!(tasks[0].chapter_uuid, "2");
}

#[test]
fn update_status_and_cancel() {
    let mut reg = TaskRegistry::from_tasks(vec![task("a", "1", "downloading", 0.0)]);
    let (a, one, two) = ("a".to_string(), "1".to_string(), "2".to_string());
    reg.update_download_task_status_at(&a, &one, "error".to_string(), "t9".to_string()).unwrap();
    assert!(matches!(
        reg.update_download_task_status(&a, &two, "error".to_string()),
        Err(DownloadError::NotFound(_))
    ));
    assert!(reg.cancel_cartoon_download(&a, &two).is_err());
    reg.cancel_cartoon_download(&a, &one).unwrap();
    assert!(reg.into_tasks().is_empty());
}

#[test]
fn active_tasks_are_downloading_or_paused() {
    let reg = TaskRegistry::from_tasks(vec![
        task("a", "1", "downloading", 0.0),
        task("a", "2", "completed", 100.0),
        task("a", "3", "paused", 3.0),
        task("a", "4", "error", 0.0),
        task("a", "5", "cancelled", 0.0),
    ]);
    let active = reg.get_active_download_tasks();
    let ids: Vec<&str> = active.iter().map(|t| t.chapter_uuid.as_str()).collect();
    assert_eq!(ids, vec!["1", "3"]);
    assert!(is_active_status(&"paused".to_string()));
    assert!(!is_active_status(&"Paused".to_string()));
}

#[test]
fn pause_flags_are_per_key() {
    let mut reg = PauseRegistry::new();
    assert!(!reg.is_paused("m|g|c"));
    assert!(reg.pause_chapter_download("m", "g", "c"));
    assert!(reg.is_paused("m|g|c"));
    assert!(!reg.is_paused("m|g|d"));
    assert!(reg.resume_chapter_download("m", "g", "c"));
    assert!(!reg.is_paused("m|g|c"));
    reg.set_pause_flag("m|g|c", true);
    reg.clear_pause_flag("m|g|c");
    assert!(!reg.is_paused("m|g|c"));
}

#[test]
fn saving_twice_keeps_one_entry() {
    let mut reg = TaskRegistry::from_tasks(vec![task("a", "1", "downloading", 10.0), task("b", "1", "paused", 0.0)]);
    reg.save_download_task_at(task("a", "1", "paused", 20.0), "t1".to_string());
    reg.save_download_task_at(task("a", "1", "paused", 20.0), "t2".to_string());
    reg.save_download_task(task("c", "9", "downloading", 0.0));
    reg.save_download_task(task("c", "9", "downloading", 0.0));
    let tasks = reg.into_tasks();
    assert_eq!(tasks.len(), 3);
    assert_eq!(tasks.iter().filter(|t| t.cartoon_uuid == "a").count(), 1);
    assert_eq!(tasks.iter().filter(|t| t.cartoon_uuid == "c").count(), 1);
    assert_eq!(tasks[0].updated_at, "t2");
    assert_eq!(tasks[0].video_url, "https://v.x/index.m3u8");
    assert_eq!(tasks[2].chapter_uuid, "9");
    assert_eq!(tasks[2].video_url, "https://v.x/index.m3u8");
}

#[test]
fn not_found_names_the_key() {
    let mut reg = TaskRegistry::from_tasks(vec![]);
    match reg.update_download_task_status(&"x".to_string(), &"y".to_string(), "paused".to_string()) {
        Err(DownloadError::NotFound(k)) => assert_eq!(k, "x|y"),
        _ => panic!("expected NotFound"),
    }
    match reg.cancel_cartoon_download(&"x".to_string(), &"y".to_string()) {
        Err(DownloadError::NotFound(k)) => assert_eq!(k, "x|y"),
        _ => panic!("expected NotFound"),
    }
}
