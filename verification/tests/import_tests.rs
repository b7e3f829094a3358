use local_upload_agent::gcloud::{ExitStatus, GcloudCommandSpec, SpawnError};
use local_upload_agent::import::{
    CopyState, ImportAction, ImportEvent, ImportRun, ImportStage, POLL_PAUSE_SECONDS,
};
use local_upload_agent::requests::{
    HttpMethod, HttpOutcome, HttpRequest, ImportGcsAssetResponse, RequestBody,
};
use local_upload_agent::task::{
    AgentTaskStatus, AgentUploadTask, Elapsed, Progress, Speed, TaskHandle,
};

fn job() -> AgentUploadTask {
    AgentUploadTask {
        task_id: "t1".to_string(),
        base_url: "https://host".to_string(),
        file_name: "My Clip.mp4".to_string(),
        file_size: 100,
        mime_type: "video/mp4".to_string(),
        local_file_path: "/tmp/My Clip.mp4".to_string(),
        api_token: "token".to_string(),
        bucket_name: Some("bucket".to_string()),
        object_prefix: Some("uploads/".to_string()),
    }
}

fn spec() -> GcloudCommandSpec {
    GcloudCommandSpec {
        program: "gcloud".to_string(),
        prefix_args: Vec::new(),
        display_path: "/bin/gcloud".to_string(),
    }
}

const URI: &str = "gs://bucket/uploads/t1/my-clip.mp4";

fn request(method: HttpMethod, path: &str, body: RequestBody) -> HttpRequest {
    HttpRequest {
        method,
        url: format!("https://host{path}"),
        bearer: Some("token".to_string()),
        headers: Vec::new(),
        timeout_seconds: None,
        body,
    }
}

fn revoke() -> ImportAction {
    ImportAction::End {
        revoke: request(HttpMethod::Delete, "/api/upload/video/agent-token", RequestBody::Nothing),
    }
}

fn running(progress: Option<(u64, u64)>, nanoseconds: u128) -> ImportEvent {
    ImportEvent::Looked(CopyState::Running { progress, at: Elapsed { nanoseconds } })
}

fn exited(success: bool, code: Option<i32>) -> ImportEvent {
    ImportEvent::Looked(CopyState::Exited(ExitStatus { success, code }))
}

fn started(handle: &mut TaskHandle) -> ImportRun {
    let job = job();
    let tail = Vec::new();
    let mut run = ImportRun::new();
    assert_eq!(run.start(false, handle, &job, "1"), ImportAction::CheckTool);
    run.step(handle, &job, &tail, ImportEvent::ToolChecked(Ok(spec())), "2");
    run.step(handle, &job, &tail, ImportEvent::CopyStarted(Ok(77)), "3");
    run
}

#[test]
fn import_runs_to_completion() {
    let job = job();
    let tail: Vec<String> = Vec::new();
    let mut handle = TaskHandle::new("t1", "My Clip.mp4", 100);
    let mut run = ImportRun::new();
    assert_eq!(run.start(false, &mut handle, &job, "1"), ImportAction::CheckTool);
    assert_eq!(handle.snapshot.status, AgentTaskStatus::Uploading);
    assert_eq!(handle.snapshot.progress, Progress::Fixed(5));
    assert_eq!(handle.snapshot.gs_uri, Some(URI.to_string()));
    assert_eq!(handle.snapshot.object_name, Some("uploads/t1/my-clip.mp4".to_string()));
    match run.step(&mut handle, &job, &tail, ImportEvent::ToolChecked(Ok(spec())), "2") {
        ImportAction::StartCopy(line) => {
            assert_eq!(line.program, "gcloud");
            assert_eq!(line.args, vec!["storage", "cp", "--quiet", "/tmp/My Clip.mp4", URI]);
        }
        other => panic!("{other:?}"),
    }
    assert_eq!(handle.logs[1].message, "已检测到 gcloud CLI：/bin/gcloud，开始上传到 GCS");
    assert_eq!(handle.logs[1].detail, Some(URI.to_string()));
    assert_eq!(
        run.step(&mut handle, &job, &tail, ImportEvent::CopyStarted(Ok(77)), "3"),
        ImportAction::Look
    );
    assert_eq!(handle.active_pid, Some(77));
    assert_eq!(
        run.step(&mut handle, &job, &tail, running(Some((10, 100)), 1_000), "4"),
        ImportAction::Pause
    );
    assert_eq!(POLL_PAUSE_SECONDS, 3);
    assert_eq!(handle.snapshot.speed_bytes_per_second, Speed::Idle);
    assert_eq!(
        handle.snapshot.progress,
        Progress::Clamped { part: 10, whole: 100, low: 5, high: 88 }
    );
    assert_eq!(
        run.step(&mut handle, &job, &tail, ImportEvent::Paused, "5"),
        ImportAction::Look
    );
    run.step(&mut handle, &job, &tail, running(Some((40, 120)), 4_000), "6");
    assert_eq!(
        handle.snapshot.speed_bytes_per_second,
        Speed::Average { bytes: 30, within: Elapsed { nanoseconds: 3_000 } }
    );
    assert_eq!(handle.snapshot.total_bytes, 120);
    run.step(&mut handle, &job, &tail, ImportEvent::Paused, "7");
    run.step(&mut handle, &job, &tail, running(None, 9_000), "8");
    run.step(&mut handle, &job, &tail, ImportEvent::Paused, "9");
    match run.step(&mut handle, &job, &tail, exited(true, Some(0)), "10") {
        ImportAction::Describe(args) => {
            assert_eq!(args, vec!["storage", "objects", "describe", URI, "--format=json"]);
        }
        other => panic!("{other:?}"),
    }
    assert_eq!(handle.active_pid, None);
    assert_eq!(handle.snapshot.progress, Progress::Fixed(88));
    assert_eq!(
        run.step(&mut handle, &job, &tail, ImportEvent::Described(Ok(())), "11"),
        ImportAction::Send(request(
            HttpMethod::Post,
            "/api/media/import-gcs",
            RequestBody::ImportAsset {
                gs_uri: URI.to_string(),
                original_filename: "My Clip.mp4".to_string(),
            },
        ))
    );
    assert_eq!(handle.snapshot.status, AgentTaskStatus::Finalizing);
    assert_eq!(handle.snapshot.progress, Progress::Fixed(95));
    let reply = HttpOutcome::Received(ImportGcsAssetResponse {
        success: true,
        asset_id: "a9".to_string(),
        gs_uri: "gs://kept/o".to_string(),
        error: None,
    });
    assert_eq!(
        run.step(&mut handle, &job, &tail, ImportEvent::ImportReply(reply), "12"),
        revoke()
    );
    assert_eq!(handle.snapshot.status, AgentTaskStatus::Completed);
    assert_eq!(handle.snapshot.progress, Progress::Fixed(100));
    assert_eq!(handle.snapshot.uploaded_bytes, 100);
    let result = handle.snapshot.result.as_ref().unwrap();
    assert_eq!(result.url, "gs://kept/o");
    assert_eq!(result.filename, "My Clip.mp4");
    assert_eq!(result.gcs_gs_uri, Some("gs://kept/o".to_string()));
    assert_eq!(result.asset_id, Some("a9".to_string()));
    assert_eq!(handle.logs.last().unwrap().detail, Some("assetId=a9".to_string()));
}

#[test]
fn import_needs_bucket_and_prefix() {
    let mut job = job();
    job.bucket_name = Some(" ".to_string());
    let mut handle = TaskHandle::new("t1", "My Clip.mp4", 100);
    let mut run = ImportRun::new();
    assert_eq!(run.start(false, &mut handle, &job, "1"), revoke());
    assert_eq!(handle.snapshot.error, Some("GCloud 导入任务缺少 bucketName".to_string()));
    assert_eq!(handle.snapshot.status, AgentTaskStatus::Failed);
    assert_eq!(handle.logs[0].message, "GCloud 导入任务失败");
    job.bucket_name = Some("b".to_string());
    job.object_prefix = None;
    let mut handle = TaskHandle::new("t1", "My Clip.mp4", 100);
    let mut run = ImportRun::new();
    assert_eq!(run.start(false, &mut handle, &job, "1"), revoke());
    assert_eq!(handle.snapshot.error, Some("GCloud 导入任务缺少 objectPrefix".to_string()));
}

#[test]
fn missing_tool_fails_the_import() {
    let job = job();
    let tail = Vec::new();
    let mut handle = TaskHandle::new("t1", "My Clip.mp4", 100);
    let mut run = ImportRun::new();
    run.start(false, &mut handle, &job, "1");
    let event = ImportEvent::ToolChecked(Err("none".to_string()));
    assert_eq!(run.step(&mut handle, &job, &tail, event, "2"), revoke());
    assert_eq!(handle.snapshot.error, Some("none".to_string()));
}

#[test]
fn unstarted_copy_fails_the_import() {
    let job = job();
    let tail = Vec::new();
    let cases = [
        (SpawnError::NotFound, "未检测到 gcloud CLI，请先安装并完成 gcloud auth login"),
        (SpawnError::Other("denied".to_string()), "启动 gcloud 上传失败：denied"),
    ];
    for (error, message) in cases {
        let mut handle = TaskHandle::new("t1", "My Clip.mp4", 100);
        let mut run = ImportRun::new();
        run.start(false, &mut handle, &job, "1");
        run.step(&mut handle, &job, &tail, ImportEvent::ToolChecked(Ok(spec())), "2");
        let event = ImportEvent::CopyStarted(Err(error));
        assert_eq!(run.step(&mut handle, &job, &tail, event, "3"), revoke());
        assert_eq!(handle.snapshot.error, Some(message.to_string()));
    }
}

#[test]
fn failed_copy_is_reported_by_its_last_line_or_code() {
    let job = job();
    let mut handle = TaskHandle::new("t1", "My Clip.mp4", 100);
    let mut run = started(&mut handle);
    let tail = vec!["first".to_string(), "ERROR: denied".to_string()];
    assert_eq!(run.step(&mut handle, &job, &tail, exited(false, Some(1)), "4"), revoke());
    assert_eq!(handle.snapshot.error, Some("ERROR: denied".to_string()));
    for (code, message) in [
        (Some(-3), "gcloud 命令执行失败，退出码 -3"),
        (None, "gcloud 命令执行失败，退出码 1"),
    ] {
        let mut handle = TaskHandle::new("t1", "My Clip.mp4", 100);
        let mut run = started(&mut handle);
        run.step(&mut handle, &job, &Vec::new(), exited(false, code), "4");
        assert_eq!(handle.snapshot.error, Some(message.to_string()));
        assert_eq!(handle.active_pid, None);
    }
}

#[test]
fn copy_that_cannot_be_watched_fails_the_import() {
    let job = job();
    let mut handle = TaskHandle::new("t1", "My Clip.mp4", 100);
    let mut run = started(&mut handle);
    let event = ImportEvent::Looked(CopyState::Unknown("gone".to_string()));
    assert_eq!(run.step(&mut handle, &job, &Vec::new(), event, "4"), revoke());
    assert_eq!(handle.snapshot.error, Some("等待 gcloud 上传进程失败：gone".to_string()));
    assert_eq!(handle.active_pid, None);
}

#[test]
fn cancelled_copy_is_ended() {
    let job = job();
    let tail = Vec::new();
    let mut handle = TaskHandle::new("t1", "My Clip.mp4", 100);
    let mut run = started(&mut handle);
    run.step(&mut handle, &job, &tail, running(None, 5), "4");
    handle.cancel_requested = true;
    assert_eq!(
        run.step(&mut handle, &job, &tail, ImportEvent::Paused, "5"),
        ImportAction::EndCopy(77)
    );
    assert_eq!(run.stage, ImportStage::Ending);
    assert_eq!(run.step(&mut handle, &job, &tail, ImportEvent::CopyEnded, "6"), revoke());
    assert_eq!(handle.snapshot.status, AgentTaskStatus::Cancelled);
    assert_eq!(handle.logs.last().unwrap().message, "GCloud 导入任务已取消");
    assert_eq!(handle.active_pid, None);
    assert_eq!(
        run.step(&mut handle, &job, &tail, ImportEvent::Paused, "7"),
        ImportAction::Nothing
    );
}

#[test]
fn undescribed_object_fails_the_import() {
    let job = job();
    let tail = Vec::new();
    let mut handle = TaskHandle::new("t1", "My Clip.mp4", 100);
    let mut run = started(&mut handle);
    run.step(&mut handle, &job, &tail, exited(true, Some(0)), "4");
    let event = ImportEvent::Described(Err("404".to_string()));
    assert_eq!(run.step(&mut handle, &job, &tail, event, "5"), revoke());
    assert_eq!(handle.snapshot.error, Some("404".to_string()));
    assert_eq!(handle.snapshot.progress, Progress::Fixed(88));
}
