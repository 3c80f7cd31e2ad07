use ytdl_mini::download_manager::{DownloadItem, DownloadManager, DownloadStatus};
use ytdl_mini::errors::DownloadError;

const URL_A: &str = "https://www.youtube.com/watch?v=aaaaaaaaaaa";
const URL_B: &str = "https://www.youtube.com/watch?v=bbbbbbbbbbb";
const URL_C: &str = "https://www.youtube.com/watch?v=ccccccccccc";
const URL_D: &str = "https://www.youtube.com/watch?v=ddddddddddd";

fn submit(m: &mut DownloadManager, url: &str) -> u64 {
    assert!(m.ids_not_exhausted());
    m.add_download(url.to_string()).expect("a valid URL must be accepted")
}

fn item_by_id(m: &DownloadManager, id: u64) -> Option<DownloadItem> {
    m.get_downloads().into_iter().find(|d| d.id == id)
}

fn downloading_count(m: &DownloadManager) -> usize {
    m.get_downloads()
        .iter()
        .filter(|d| matches!(d.status, DownloadStatus::Downloading))
        .count()
}

#[test]
fn test_invalid_url_is_rejected_and_creates_no_item() {
    let mut m = DownloadManager::new();
    assert!(m.ids_not_exhausted());
    let r = m.add_download("https://www.google.com".to_string());
    assert!(matches!(r, Err(DownloadError::InvalidUrl)));
    assert!(m.get_downloads().is_empty());
    let r2 = m.add_download("not a url".to_string());
    assert!(matches!(r2, Err(DownloadError::InvalidUrl)));
    assert!(m.get_downloads().is_empty());
}

#[test]
fn test_submitted_id_listed_exactly_once() {
    let mut m = DownloadManager::new();
    let id = submit(&mut m, URL_A);
    let listed = m.get_downloads();
    let hits: Vec<_> = listed.iter().filter(|d| d.id == id).collect();
    assert_eq!(hits.len(), 1);
    assert!(matches!(
        hits[0].status,
        DownloadStatus::Pending | DownloadStatus::Downloading
    ));
}

#[test]
fn test_downloading_never_exceeds_ceiling() {
    let mut m = DownloadManager::new();
    m.set_max_concurrent(2);
    let a = submit(&mut m, URL_A);
    submit(&mut m, URL_B);
    submit(&mut m, URL_C);
    assert_eq!(downloading_count(&m), 2);
    m.mark_success(a, "a.mp4".to_string());
    assert_eq!(downloading_count(&m), 2);
}

#[test]
fn test_progress_is_clamped_both_ways() {
    let mut m = DownloadManager::new();
    let id = submit(&mut m, URL_A);
    m.update_download_progress(id, 1500);
    assert_eq!(item_by_id(&m, id).unwrap().progress, 1000);
    m.update_download_progress(id, -300);
    assert_eq!(item_by_id(&m, id).unwrap().progress, 0);
    m.update_download_progress(id, 420);
    assert_eq!(item_by_id(&m, id).unwrap().progress, 420);
}

#[test]
fn test_progress_update_for_unknown_id_is_ignored() {
    let mut m = DownloadManager::new();
    let id = submit(&mut m, URL_A);
    m.update_download_progress(id + 1, 700);
    assert_eq!(item_by_id(&m, id).unwrap().progress, 0);
}

#[test]
fn test_fifo_admission_oldest_pending_first() {
    let mut m = DownloadManager::new();
    m.set_max_concurrent(1);
    let a = submit(&mut m, URL_A);
    let b = submit(&mut m, URL_B);
    let c = submit(&mut m, URL_C);
    assert!(matches!(item_by_id(&m, a).unwrap().status, DownloadStatus::Downloading));
    assert!(matches!(item_by_id(&m, b).unwrap().status, DownloadStatus::Pending));
    assert!(matches!(item_by_id(&m, c).unwrap().status, DownloadStatus::Pending));
    m.mark_success(a, "a.mp4".to_string());
    assert!(matches!(item_by_id(&m, b).unwrap().status, DownloadStatus::Downloading));
    assert!(matches!(item_by_id(&m, c).unwrap().status, DownloadStatus::Pending));
}

#[test]
fn test_clear_completed_removes_only_successes() {
    let mut m = DownloadManager::new();
    m.set_max_concurrent(1);
    let a = submit(&mut m, URL_A);
    let b = submit(&mut m, URL_B);
    let c = submit(&mut m, URL_C);
    let d = submit(&mut m, URL_D);
    m.mark_success(a, "a.mp4".to_string());
    m.mark_failed(b, "x".to_string());
    // now: a Success, b Failed("x"), c Downloading, d Pending
    m.clear_completed();
    assert!(item_by_id(&m, a).is_none());
    let bi = item_by_id(&m, b).unwrap();
    assert!(matches!(&bi.status, DownloadStatus::Failed(r) if r == "x"));
    assert!(matches!(item_by_id(&m, c).unwrap().status, DownloadStatus::Downloading));
    assert!(matches!(item_by_id(&m, d).unwrap().status, DownloadStatus::Pending));
    assert_eq!(m.get_downloads().len(), 3);
}

#[test]
fn test_success_sets_path_and_full_progress() {
    let mut m = DownloadManager::new();
    let id = submit(&mut m, URL_A);
    m.mark_success(id, "out/video.mp4".to_string());
    let it = item_by_id(&m, id).unwrap();
    assert!(matches!(it.status, DownloadStatus::Success));
    assert_eq!(it.file_path.as_deref(), Some("out/video.mp4"));
    assert_eq!(it.progress, 1000);
}

#[test]
fn test_failure_with_empty_reason_gets_default_text() {
    let mut m = DownloadManager::new();
    let id = submit(&mut m, URL_A);
    m.mark_failed(id, String::new());
    let it = item_by_id(&m, id).unwrap();
    assert!(matches!(&it.status, DownloadStatus::Failed(r) if r == "download failed"));
}

#[test]
fn test_completion_of_pending_item_is_ignored() {
    let mut m = DownloadManager::new();
    m.set_max_concurrent(1);
    let a = submit(&mut m, URL_A);
    let b = submit(&mut m, URL_B);
    // b is still pending; completing it must change nothing
    m.mark_success(b, "b.mp4".to_string());
    assert!(matches!(item_by_id(&m, b).unwrap().status, DownloadStatus::Pending));
    assert!(matches!(item_by_id(&m, a).unwrap().status, DownloadStatus::Downloading));
}

#[test]
fn test_update_download_status_dispatch() {
    let mut m = DownloadManager::new();
    m.set_max_concurrent(1);
    let a = submit(&mut m, URL_A);
    let b = submit(&mut m, URL_B);
    m.update_download_status(a, DownloadStatus::Success);
    let ai = item_by_id(&m, a).unwrap();
    assert!(matches!(ai.status, DownloadStatus::Success));
    assert_eq!(ai.file_path.as_deref(), Some("Download completed"));
    m.update_download_status(b, DownloadStatus::Failed("boom".to_string()));
    let bi = item_by_id(&m, b).unwrap();
    assert!(matches!(&bi.status, DownloadStatus::Failed(r) if r == "boom"));
}

#[test]
fn test_remove_download_frees_slot_for_next_pending() {
    let mut m = DownloadManager::new();
    m.set_max_concurrent(1);
    let a = submit(&mut m, URL_A);
    let b = submit(&mut m, URL_B);
    let removed = m.remove_download(a).unwrap();
    assert_eq!(removed.id, a);
    assert!(item_by_id(&m, a).is_none());
    assert!(matches!(item_by_id(&m, b).unwrap().status, DownloadStatus::Downloading));
    assert!(m.remove_download(a).is_none());
}

#[test]
fn test_update_title() {
    let mut m = DownloadManager::new();
    let id = submit(&mut m, URL_A);
    m.update_download_title(id, "A Song".to_string());
    assert_eq!(item_by_id(&m, id).unwrap().title.as_deref(), Some("A Song"));
}

#[test]
fn test_list_is_most_recent_first() {
    let mut m = DownloadManager::new();
    let a = submit(&mut m, URL_A);
    let b = submit(&mut m, URL_B);
    let c = submit(&mut m, URL_C);
    let listed = m.get_downloads();
    let ids: Vec<u64> = listed.iter().map(|d| d.id).collect();
    assert_eq!(ids, vec![c, b, a]);
    for w in listed.windows(2) {
        assert!(w[0].created_at > w[1].created_at);
    }
}

#[test]
fn test_lowering_ceiling_does_not_cancel_running_items() {
    let mut m = DownloadManager::new();
    m.set_max_concurrent(2);
    let a = submit(&mut m, URL_A);
    submit(&mut m, URL_B);
    submit(&mut m, URL_C);
    assert_eq!(downloading_count(&m), 2);
    m.set_max_concurrent(1);
    // both keep running; only future admission respects the new ceiling
    assert_eq!(downloading_count(&m), 2);
    m.mark_success(a, "a.mp4".to_string());
    // a slot freed, but 1 is still running and the ceiling is 1: no admission
    assert_eq!(downloading_count(&m), 1);
}

#[test]
fn test_set_max_concurrent_clamps_to_one() {
    let mut m = DownloadManager::new();
    m.set_max_concurrent(0);
    let a = submit(&mut m, URL_A);
    let b = submit(&mut m, URL_B);
    assert!(matches!(item_by_id(&m, a).unwrap().status, DownloadStatus::Downloading));
    assert!(matches!(item_by_id(&m, b).unwrap().status, DownloadStatus::Pending));
}
