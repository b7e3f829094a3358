use local_upload_agent::requests::{
    get_remote_status, http_success, import_gcs_asset, HttpOutcome, ImportGcsAssetResponse,
    StatusResponse,
};
use local_upload_agent::task::{
    append_output_tail, now_unix_seconds_string, take_child_line, unix_seconds_text,
    AgentTaskStatus, Elapsed, Progress, Speed, TaskHandle,
};

#[test]
fn fresh_task_is_queued() {
    let task = TaskHandle::new("id", "a.mp4", 12);
    assert_eq!(task.snapshot.task_id, "id");
    assert_eq!(task.snapshot.status, AgentTaskStatus::Queued);
    assert_eq!(task.snapshot.file_name, "a.mp4");
    assert_eq!(task.snapshot.file_size, 12);
    assert_eq!(task.snapshot.uploaded_bytes, 0);
    assert_eq!(task.snapshot.total_bytes, 12);
    assert_eq!(task.snapshot.progress, Progress::Fixed(0));
    assert_eq!(task.snapshot.speed_bytes_per_second, Speed::Idle);
    assert_eq!(task.snapshot.result, None);
    assert!(!task.cancel_requested);
    assert_eq!(task.active_pid, None);
    assert!(task.logs.is_empty());
}

#[test]
fn log_keeps_the_last_entries() {
    let mut task = TaskHandle::new("id", "a.mp4", 12);
    for n in 0..250u64 {
        task.append_log("5", "debug", &n.to_string(), Some(n), Some("d".to_string()));
    }
    let logs = task.get_logs();
    assert_eq!(logs.len(), 200);
    assert_eq!(logs[0].message, "50");
    assert_eq!(logs[199].message, "249");
    assert_eq!(logs[199].chunk_index, Some(249));
    assert_eq!(logs[199].detail, Some("d".to_string()));
    assert_eq!(logs, task.logs);
}

#[test]
fn output_tail_keeps_the_last_lines() {
    let mut tail: Vec<String> = Vec::new();
    append_output_tail(&mut tail, "   ");
    assert!(tail.is_empty());
    for n in 0..25 {
        append_output_tail(&mut tail, &format!("  line {n}\t"));
    }
    assert_eq!(tail.len(), 20);
    assert_eq!(tail[0], "line 5");
    assert_eq!(tail[19], "line 24");
}

#[test]
fn child_lines_go_to_tail_and_log() {
    let mut tail: Vec<String> = Vec::new();
    let mut task = TaskHandle::new("id", "a.mp4", 12);
    take_child_line(&mut tail, &mut task, "warn", "  hm ", "3");
    take_child_line(&mut tail, &mut task, "warn", "", "4");
    assert_eq!(tail, vec!["hm".to_string()]);
    assert_eq!(task.logs.len(), 2);
    assert_eq!(task.logs[0].message, "  hm ");
    assert_eq!(task.logs[0].level, "warn");
    assert_eq!(task.logs[1].message, "");
}

#[test]
fn ended_states() {
    assert!(AgentTaskStatus::Completed.is_ended());
    assert!(AgentTaskStatus::Cancelled.is_ended());
    assert!(AgentTaskStatus::Failed.is_ended());
    assert!(!AgentTaskStatus::Queued.is_ended());
    assert!(!AgentTaskStatus::Uploading.is_ended());
    assert!(!AgentTaskStatus::Finalizing.is_ended());
}

#[test]
fn clock_readings_are_written_in_seconds() {
    assert_eq!(unix_seconds_text(Some(1700000000)), "1700000000");
    assert_eq!(unix_seconds_text(None), "0");
    let now: u64 = now_unix_seconds_string().parse().unwrap();
    let real = std::time::SystemTime::now()
        .duration_since(std::time::SystemTime::UNIX_EPOCH)
        .unwrap()
        .as_secs();
    assert!(now <= real && real - now < 20);
}

#[test]
fn spans_do_not_run_back() {
    let early = Elapsed { nanoseconds: 5 };
    let late = Elapsed { nanoseconds: 12 };
    assert_eq!(late.since(early), Elapsed { nanoseconds: 7 });
    assert_eq!(early.since(late), Elapsed { nanoseconds: 0 });
}

#[test]
fn status_replies() {
    let refused: HttpOutcome<StatusResponse> =
        HttpOutcome::Refused { status: "404 Not Found".to_string(), body: "b".to_string() };
    assert_eq!(
        get_remote_status(refused),
        Err("查询上传状态失败：HTTP 404 Not Found".to_string())
    );
    assert_eq!(
        get_remote_status(HttpOutcome::NotSent("x".to_string())),
        Err("查询上传状态失败：x".to_string())
    );
    assert_eq!(
        get_remote_status(HttpOutcome::Unreadable("x".to_string())),
        Err("解析上传状态失败：x".to_string())
    );
    assert!(http_success(200) && http_success(299));
    assert!(!http_success(199) && !http_success(300));
}

#[test]
fn import_replies() {
    let imported = |success: bool, error: Option<&str>| {
        HttpOutcome::Received(ImportGcsAssetResponse {
            success,
            asset_id: "a1".to_string(),
            gs_uri: "gs://b/o".to_string(),
            error: error.map(|e| e.to_string()),
        })
    };
    assert_eq!(import_gcs_asset(imported(true, Some("ignored"))).unwrap().asset_id, "a1");
    assert_eq!(import_gcs_asset(imported(false, Some("no"))), Err("no".to_string()));
    assert_eq!(import_gcs_asset(imported(false, None)), Err("导入 GCS 素材失败".to_string()));
    assert_eq!(
        import_gcs_asset(HttpOutcome::Unreadable("x".to_string())),
        Err("解析 GCS 素材导入响应失败：x".to_string())
    );
    assert_eq!(
        import_gcs_asset(HttpOutcome::Refused {
            status: "500 Oops".to_string(),
            body: "b".to_string()
        }),
        Err("导入 GCS 素材失败：HTTP 500 Oops b".to_string())
    );
}
