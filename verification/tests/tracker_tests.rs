use local_upload_agent::requests::HttpMethod;
use local_upload_agent::tracker::{
    check_session, choose_trackers, find_gcloud_parallel_tracker_files, find_gcloud_tracker_file,
    get_gcloud_resumable_progress, parse_gcloud_uploaded_bytes, pick_part_trackers,
    query_tracker_progress, range_last_byte, tracker_file_mtime_ok, tracker_needle, tracker_query,
    TrackerChoice, TrackerEntry,
};

const SECOND: i128 = 1_000_000_000;

fn entry(name: &str, seconds: i128) -> TrackerEntry {
    TrackerEntry { file_name: Some(name.to_string()), modified: Some(seconds * SECOND) }
}

#[test]
fn range_headers_are_read() {
    assert_eq!(parse_gcloud_uploaded_bytes(None), Some(0));
    assert_eq!(parse_gcloud_uploaded_bytes(Some("  ")), Some(0));
    assert_eq!(parse_gcloud_uploaded_bytes(Some(" bytes=0-99 ")), Some(100));
    assert_eq!(parse_gcloud_uploaded_bytes(Some("bytes=0-0")), Some(1));
    assert_eq!(parse_gcloud_uploaded_bytes(Some("bytes=1-99")), None);
    assert_eq!(parse_gcloud_uploaded_bytes(Some("bytes=0-x")), None);
    assert_eq!(parse_gcloud_uploaded_bytes(Some("bytes=0-")), None);
    assert_eq!(range_last_byte(Some("bytes=0-18446744073709551615")), Some(u64::MAX));
    assert_eq!(range_last_byte(None), None);
}

#[test]
fn sessions_report_their_progress() {
    assert_eq!(query_tracker_progress(1000, 308, Some("bytes=0-99")), Some((100, 1000)));
    assert_eq!(query_tracker_progress(50, 308, Some("bytes=0-99")), Some((50, 50)));
    assert_eq!(query_tracker_progress(50, 308, None), Some((0, 50)));
    assert_eq!(query_tracker_progress(50, 200, Some("bytes=0-9")), None);
    assert_eq!(query_tracker_progress(50, 308, Some("junk")), None);
}

#[test]
fn tracker_documents_name_a_session() {
    let text = r#"{"serialization_data": {"total_size": 42, "url": "https://up/1"}}"#;
    let query = tracker_query(text).unwrap();
    assert_eq!(query.total_bytes, 42);
    assert_eq!(query.request.method, HttpMethod::Put);
    assert_eq!(query.request.url, "https://up/1");
    assert_eq!(query.request.bearer, None);
    assert_eq!(query.request.timeout_seconds, Some(5));
    assert_eq!(
        query.request.headers,
        vec![
            ("Content-Length".to_string(), "0".to_string()),
            ("Content-Range".to_string(), "bytes */42".to_string()),
        ]
    );
    for text in [
        "",
        "[]",
        "{}",
        r#"{"serialization_data": {"url": "u"}}"#,
        r#"{"serialization_data": {"total_size": 1}}"#,
        r#"{"serialization_data": {"total_size": 0, "url": "u"}}"#,
        r#"{"serialization_data": {"total_size": -1, "url": "u"}}"#,
        r#"{"serialization_data": {"total_size": 1.5, "url": "u"}}"#,
        r#"{"serialization_data": {"total_size": "1", "url": "u"}}"#,
        r#"{"serialization_data": {"total_size": 1, "url": 2}}"#,
        r#"{"serialization_data": {"total_size": 1, "url": " "}}"#,
        r#"{"serialization_data": [1]}"#,
    ] {
        assert_eq!(tracker_query(text), None, "{text}");
    }
    assert_eq!(check_session(Some(1), None), None);
    assert!(check_session(Some(1), Some("u")).is_some());
}

#[test]
fn old_files_do_not_count() {
    let start = 1000 * SECOND;
    assert_eq!(tracker_file_mtime_ok(Some(940 * SECOND), start), Some(940 * SECOND));
    assert_eq!(tracker_file_mtime_ok(Some(940 * SECOND - 1), start), None);
    assert_eq!(tracker_file_mtime_ok(None, start), None);
    assert_eq!(tracker_file_mtime_ok(Some(i128::MIN), i128::MIN), Some(i128::MIN));
}

#[test]
fn latest_tracker_of_the_file_is_found() {
    let start = 1000 * SECOND;
    let entries = vec![
        entry("upload_TRACKER_x_My Clip.MP4__gs.url", 1001),
        entry("upload_TRACKER_y_my clip.mp4__gs.url", 1005),
        entry("upload_TRACKER_z_MY CLIP.mp4__gs.url", 1005),
        entry("upload_TRACKER_other.mp4__gs.url", 2000),
        entry("download_TRACKER_my clip.mp4__gs.url", 2000),
        entry("upload_TRACKER_my clip.mp4__gs.url_1", 2000),
        TrackerEntry { file_name: None, modified: Some(3000 * SECOND) },
        TrackerEntry {
            file_name: Some("upload_TRACKER_my clip.mp4__gs.url".to_string()),
            modified: None,
        },
        entry("upload_TRACKER_my clip.mp4__gs.url", 900),
    ];
    assert_eq!(tracker_needle(false, "/videos/My Clip.mp4"), "my clip.mp4");
    assert_eq!(find_gcloud_tracker_file(false, "/videos/My Clip.mp4", Some(&entries), start), Some(2));
    assert_eq!(find_gcloud_tracker_file(false, "/videos/absent.mp4", Some(&entries), start), None);
    assert_eq!(find_gcloud_tracker_file(false, "/videos/My Clip.mp4", None, start), None);
}

#[test]
fn trackers_of_a_file_on_a_drive_or_a_share() {
    let start = 1000 * SECOND;
    let path = "C:\\Videos\\A.MOV";
    let shared = "\\\\server\\share\\Videos\\A.MOV";
    assert_eq!(tracker_needle(true, path), "a.mov");
    assert_eq!(tracker_needle(false, path), "c:\\videos\\a.mov");
    assert_eq!(tracker_needle(true, shared), "a.mov");
    for windows in [false, true] {
        assert_eq!(tracker_needle(windows, "C:/Videos/A.MOV"), "a.mov");
        assert_eq!(tracker_needle(windows, "//server/share/A.MOV"), "a.mov");
        assert_eq!(tracker_needle(windows, "/.."), "");
    }
    let entries = vec![
        entry("upload_TRACKER_x_other.mov__gs.url", 1003),
        entry("upload_TRACKER_x_a.mov__gs.url", 1001),
    ];
    assert_eq!(find_gcloud_tracker_file(true, path, Some(&entries), start), Some(1));
    assert_eq!(find_gcloud_tracker_file(false, path, Some(&entries), start), None);
    assert_eq!(find_gcloud_tracker_file(true, shared, Some(&entries), start), Some(1));
    assert_eq!(find_gcloud_tracker_file(true, "C:/Videos/A.MOV", Some(&entries), start), Some(1));
}

#[test]
fn parts_of_the_latest_upload_are_found() {
    let start = 1000 * SECOND;
    let manifests = vec![
        entry("parallel_upload_TRACKER_x_clip.mp4__gs.url", 1010),
        entry("parallel_upload_TRACKER_x_clip.mp4__gs.url", 1008),
        entry("parallel_upload_TRACKER_x_other.mp4__gs.url", 1100),
    ];
    let entries = vec![
        entry("upload_TRACKER_b__gs.url_2", 1020),
        entry("upload_TRACKER_a__gs.url_1", 1030),
        entry("upload_TRACKER_b__gs.url_10", 1040),
        entry("upload_TRACKER_b__gs.url_1", 1009),
        entry("upload_TRACKER_b__gs.url_0__gs.url_9", 1010),
        entry("upload_TRACKER_b__gs.url", 1099),
    ];
    assert_eq!(
        find_gcloud_parallel_tracker_files(false, "/v/clip.mp4", Some(&manifests), Some(&entries), start),
        Some(vec![4, 2, 0])
    );
    assert_eq!(
        find_gcloud_parallel_tracker_files(false, "/v/clip.mp4", Some(&manifests), None, start),
        None
    );
    assert_eq!(
        find_gcloud_parallel_tracker_files(false, "/v/clip.mp4", None, Some(&entries), start),
        None
    );
    let none: Vec<TrackerEntry> = Vec::new();
    assert_eq!(pick_part_trackers(&none, start, start), None);
    assert_eq!(pick_part_trackers(&entries, start, 5000 * SECOND), None);
}

#[test]
fn answers_add_up_but_not_beyond_the_file() {
    let whole = choose_trackers(Some(3), Some(vec![1]));
    assert_eq!(whole, TrackerChoice::Whole(3));
    assert_eq!(get_gcloud_resumable_progress(&whole, &vec![Some((70, 90))], 60), Some((60, 90)));
    assert_eq!(get_gcloud_resumable_progress(&whole, &vec![None], 60), None);
    let parts = choose_trackers(None, Some(vec![1, 2, 3]));
    assert_eq!(parts, TrackerChoice::Parts(vec![1, 2, 3]));
    let replies = vec![Some((10, 20)), None, Some((5, 20))];
    assert_eq!(get_gcloud_resumable_progress(&parts, &replies, 60), Some((15, 60)));
    let huge = vec![Some((u64::MAX, 1)), Some((u64::MAX, 1)), None];
    assert_eq!(get_gcloud_resumable_progress(&parts, &huge, 60), Some((60, 60)));
    assert_eq!(get_gcloud_resumable_progress(&parts, &vec![None, None, None], 60), None);
    assert_eq!(choose_trackers(None, Some(Vec::new())), TrackerChoice::Nothing);
    assert_eq!(choose_trackers(None, None), TrackerChoice::Nothing);
    assert_eq!(
        get_gcloud_resumable_progress(&TrackerChoice::Nothing, &Vec::new(), 60),
        None
    );
}
