use vidwatch::engine::build_observation;
use vidwatch::engine::compose_url;
use vidwatch::engine::file_name_of;
use vidwatch::engine::has_video_extension;
use vidwatch::engine::run_cycle;
use vidwatch::engine::Observation;
use vidwatch::tracker::Classification;
use vidwatch::tracker::FileTracker;
use vidwatch::upload::upload_step;
use vidwatch::upload::UploadEvent;
use vidwatch::upload::UploadPhase;

fn observation(path: &str, bytes: &[u8]) -> Observation {
    build_observation(path.to_string(), &bytes.to_vec()).expect("video path expected")
}

#[test]
fn empty_directory_cycle_is_idle() {
    let mut tracker = FileTracker::new();
    let observations: Vec<Observation> = Vec::new();
    let jobs = run_cycle(&mut tracker, &observations, "acct", "video", "?tok");
    assert_eq!(jobs.len(), 0);
    assert!(!tracker.is_tracked(&"clip.mp4".to_string()));
}

#[test]
fn first_sighting_is_new_and_not_uploaded() {
    let mut tracker = FileTracker::new();
    let observations = vec![observation("clip.mp4", b"fresh bytes")];
    let jobs = run_cycle(&mut tracker, &observations, "acct", "video", "?tok");
    assert_eq!(jobs.len(), 0);
    assert!(tracker.is_tracked(&"clip.mp4".to_string()));
}

#[test]
fn unchanged_file_is_uploaded_once_then_evicted() {
    let mut tracker = FileTracker::new();
    let observations = vec![observation("clip.mp4", b"X")];
    let first = run_cycle(&mut tracker, &observations, "acct", "video", "?tok");
    assert_eq!(first.len(), 0);
    let second = run_cycle(&mut tracker, &observations, "acct", "video", "?tok");
    assert_eq!(second.len(), 1);
    assert_eq!(second[0].path, "clip.mp4");
    assert_eq!(second[0].url, "https://acct.blob.core.windows.net/video/clip.mp4?tok");
    assert!(!tracker.is_tracked(&"clip.mp4".to_string()));
    // simulated successful transfer: read, send with a success status, delete
    let phase = upload_step(UploadPhase::Reading, UploadEvent::ReadOk);
    assert_eq!(phase, UploadPhase::Sending);
    let phase = upload_step(phase, UploadEvent::SendCompleted(201));
    assert_eq!(phase, UploadPhase::Deleting);
    let phase = upload_step(phase, UploadEvent::DeleteOk);
    assert_eq!(phase, UploadPhase::Succeeded);
}

#[test]
fn modified_file_is_retained_and_not_uploaded() {
    let mut tracker = FileTracker::new();
    let grown = vec![observation("clip.mp4", b"partial")];
    let jobs = run_cycle(&mut tracker, &grown, "acct", "video", "?tok");
    assert_eq!(jobs.len(), 0);
    let grown_more = vec![observation("clip.mp4", b"partial plus more")];
    let jobs = run_cycle(&mut tracker, &grown_more, "acct", "video", "?tok");
    assert_eq!(jobs.len(), 0);
    assert!(tracker.is_tracked(&"clip.mp4".to_string()));
}

#[test]
fn rejected_upload_leaves_no_entry_and_next_sighting_is_new() {
    let mut tracker = FileTracker::new();
    let observations = vec![observation("clip.mp4", b"X")];
    run_cycle(&mut tracker, &observations, "acct", "video", "?tok");
    let second = run_cycle(&mut tracker, &observations, "acct", "video", "?tok");
    assert_eq!(second.len(), 1);
    // the remote store answers with a non-success status: the job fails and
    // no later event resurrects it into deletion
    let phase = upload_step(UploadPhase::Reading, UploadEvent::ReadOk);
    let phase = upload_step(phase, UploadEvent::SendCompleted(403));
    assert_eq!(phase, UploadPhase::Failed);
    assert_eq!(upload_step(phase, UploadEvent::DeleteOk), UploadPhase::Failed);
    // the entry was evicted before dispatch and is not re-created
    assert!(!tracker.is_tracked(&"clip.mp4".to_string()));
    // a later cycle treats the retained file as brand-new again
    let third = run_cycle(&mut tracker, &observations, "acct", "video", "?tok");
    assert_eq!(third.len(), 0);
    assert!(tracker.is_tracked(&"clip.mp4".to_string()));
}

#[test]
fn observe_classifies_new_ready_new() {
    let mut tracker = FileTracker::new();
    let path = "c:/Users/someone/Downloads/clip.mp4".to_string();
    assert_eq!(tracker.observe(&path, 7), Classification::New);
    assert_eq!(tracker.observe(&path, 7), Classification::Ready);
    assert!(!tracker.is_tracked(&path));
    assert_eq!(tracker.observe(&path, 7), Classification::New);
}

#[test]
fn observe_classifies_changed_fingerprint_as_modified() {
    let mut tracker = FileTracker::new();
    let path = "clip.mp4".to_string();
    assert_eq!(tracker.observe(&path, 1), Classification::New);
    assert_eq!(tracker.observe(&path, 2), Classification::Modified);
    assert_eq!(tracker.observe(&path, 2), Classification::Ready);
}

#[test]
fn fingerprint_matches_crc32_check_value() {
    let o = observation("check.mp4", b"123456789");
    assert_eq!(o.fingerprint, 0xCBF4_3926);
}

#[test]
fn fingerprint_distinguishes_different_bytes() {
    let a = observation("a.mp4", b"first contents");
    let b = observation("a.mp4", b"second contents");
    assert_ne!(a.fingerprint, b.fingerprint);
}

#[test]
fn only_video_extensions_are_observed() {
    assert!(has_video_extension("clip.mp4"));
    assert!(has_video_extension("dir/sub\\clip.mp4"));
    assert!(!has_video_extension("notes.txt"));
    assert!(!has_video_extension(".mp4"));
    assert!(!has_video_extension("dir/.mp4"));
    assert!(!has_video_extension("clip.mp4.part"));
    assert!(build_observation("notes.txt".to_string(), &b"x".to_vec()).is_none());
    assert!(build_observation("clip.mp4".to_string(), &b"x".to_vec()).is_some());
}

#[test]
fn file_name_takes_suffix_after_last_separator() {
    assert_eq!(file_name_of("c:/Users/nextr/Downloads\\clip.mp4"), "clip.mp4");
    assert_eq!(file_name_of("a/b/c.mp4"), "c.mp4");
    assert_eq!(file_name_of("plain.mp4"), "plain.mp4");
    assert_eq!(file_name_of("dir/"), "");
}

#[test]
fn url_is_composed_from_startup_parameters() {
    let url = compose_url("acct", "video", "clip.mp4", "?tok");
    assert_eq!(url, "https://acct.blob.core.windows.net/video/clip.mp4?tok");
    let bare = compose_url("a", "c", "f.mp4", "");
    assert_eq!(bare, "https://a.blob.core.windows.net/c/f.mp4");
}
