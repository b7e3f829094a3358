use local_upload_agent::chunks::ChunkPlan;
use local_upload_agent::requests::{
    CompleteResponse, HttpMethod, HttpOutcome, HttpRequest, InitResponse, RequestBody,
};
use local_upload_agent::retry::cancelled;
use local_upload_agent::task::{AgentTaskStatus, AgentUploadTask, Progress, Speed, TaskHandle};
use local_upload_agent::upload::{UploadAction, UploadEvent, UploadRun, UploadStage};

fn job() -> AgentUploadTask {
    AgentUploadTask {
        task_id: "t1".to_string(),
        base_url: "https://host".to_string(),
        file_name: "a.mp4".to_string(),
        file_size: 10,
        mime_type: "video/mp4".to_string(),
        local_file_path: "/tmp/a.mp4".to_string(),
        api_token: "token".to_string(),
        bucket_name: None,
        object_prefix: None,
    }
}

fn request(method: HttpMethod, path: &str, body: RequestBody) -> HttpRequest {
    HttpRequest {
        method,
        url: format!("https://host{path}"),
        bearer: Some("token".to_string()),
        headers: Vec::new(),
        timeout_seconds: None,
        body,
    }
}

fn revoke() -> UploadAction {
    UploadAction::End {
        revoke: request(HttpMethod::Delete, "/api/upload/video/agent-token", RequestBody::Nothing),
    }
}

fn session() -> UploadEvent {
    UploadEvent::SessionReply(HttpOutcome::Received(InitResponse {
        upload_id: "u1".to_string(),
        chunk_size: 4,
        total_chunks: None,
    }))
}

#[test]
fn upload_runs_to_completion() {
    let job = job();
    let mut handle = TaskHandle::new("t1", "a.mp4", 10);
    let mut run = UploadRun::new();
    assert_eq!(
        run.step(&mut handle, &job, UploadEvent::Started, "1"),
        UploadAction::Send(request(
            HttpMethod::Post,
            "/api/upload/video/init",
            RequestBody::Init {
                filename: "a.mp4".to_string(),
                file_size: 10,
                mime_type: "video/mp4".to_string(),
            },
        ))
    );
    assert_eq!(handle.logs[0].message, "上传任务已创建");
    assert_eq!(
        run.step(&mut handle, &job, session(), "2"),
        UploadAction::SendChunks {
            upload_id: "u1".to_string(),
            plan: ChunkPlan { chunk_size: 4, total_chunks: 3 },
        }
    );
    assert_eq!(
        handle.logs[1].detail,
        Some("uploadId=u1, totalChunks=3, chunkSize=4".to_string())
    );
    assert_eq!(handle.snapshot.status, AgentTaskStatus::Uploading);
    assert_eq!(handle.snapshot.upload_id, Some("u1".to_string()));
    assert_eq!(
        run.step(&mut handle, &job, UploadEvent::ChunksEnded(Ok(())), "3"),
        UploadAction::Send(request(
            HttpMethod::Post,
            "/api/upload/video/complete",
            RequestBody::UploadId("u1".to_string()),
        ))
    );
    assert_eq!(handle.snapshot.status, AgentTaskStatus::Finalizing);
    assert_eq!(handle.snapshot.progress, Progress::Fixed(99));
    let reply = HttpOutcome::Received(CompleteResponse {
        url: "https://x/y".to_string(),
        filename: "y.mp4".to_string(),
        local_path: Some("/srv/y.mp4".to_string()),
    });
    assert_eq!(run.step(&mut handle, &job, UploadEvent::CompletionReply(reply), "4"), revoke());
    assert_eq!(handle.snapshot.status, AgentTaskStatus::Completed);
    assert_eq!(handle.snapshot.progress, Progress::Fixed(100));
    assert_eq!(handle.snapshot.uploaded_bytes, 10);
    assert_eq!(handle.snapshot.speed_bytes_per_second, Speed::Idle);
    let result = handle.snapshot.result.as_ref().unwrap();
    assert_eq!(result.url, "https://x/y");
    assert_eq!(result.filename, "y.mp4");
    assert_eq!(result.local_path, Some("/srv/y.mp4".to_string()));
    assert_eq!(result.asset_id, None);
    assert_eq!(handle.logs[3].detail, Some("filename=y.mp4".to_string()));
    assert_eq!(
        run.step(&mut handle, &job, UploadEvent::Started, "5"),
        UploadAction::Nothing
    );
    assert_eq!(handle.logs.len(), 4);
}

#[test]
fn refused_session_fails_the_upload() {
    let job = job();
    let mut handle = TaskHandle::new("t1", "a.mp4", 10);
    let mut run = UploadRun::new();
    run.step(&mut handle, &job, UploadEvent::Started, "1");
    let refused = HttpOutcome::Refused {
        status: "401 Unauthorized".to_string(),
        body: "no".to_string(),
    };
    assert_eq!(run.step(&mut handle, &job, UploadEvent::SessionReply(refused), "2"), revoke());
    assert_eq!(handle.snapshot.status, AgentTaskStatus::Failed);
    assert_eq!(
        handle.snapshot.error,
        Some("初始化上传失败：HTTP 401 Unauthorized no".to_string())
    );
    assert_eq!(handle.logs[1].message, "上传任务失败");
    assert_eq!(run.stage, UploadStage::Ended);
}

#[test]
fn unreadable_session_fails_the_upload() {
    let job = job();
    let mut handle = TaskHandle::new("t1", "a.mp4", 10);
    let mut run = UploadRun::new();
    run.step(&mut handle, &job, UploadEvent::Started, "1");
    let garbled = HttpOutcome::Unreadable("eof".to_string());
    run.step(&mut handle, &job, UploadEvent::SessionReply(garbled), "2");
    assert_eq!(handle.snapshot.error, Some("解析上传初始化响应失败：eof".to_string()));
}

#[test]
fn opened_session_is_aborted_on_failure() {
    let job = job();
    let mut handle = TaskHandle::new("t1", "a.mp4", 10);
    let mut run = UploadRun::new();
    run.step(&mut handle, &job, UploadEvent::Started, "1");
    run.step(&mut handle, &job, session(), "2");
    run.step(&mut handle, &job, UploadEvent::ChunksEnded(Ok(())), "3");
    let lost = HttpOutcome::NotSent("reset".to_string());
    assert_eq!(
        run.step(&mut handle, &job, UploadEvent::CompletionReply(lost), "4"),
        UploadAction::Send(request(
            HttpMethod::Post,
            "/api/upload/video/abort",
            RequestBody::UploadId("u1".to_string()),
        ))
    );
    assert_eq!(run.step(&mut handle, &job, UploadEvent::AbortSent, "5"), revoke());
    assert_eq!(handle.snapshot.status, AgentTaskStatus::Failed);
    assert_eq!(handle.snapshot.error, Some("完成上传失败：reset".to_string()));
    assert_eq!(handle.snapshot.progress, Progress::Fixed(99));
}

#[test]
fn cancelled_upload_ends_as_cancelled() {
    let job = job();
    let mut handle = TaskHandle::new("t1", "a.mp4", 10);
    let mut run = UploadRun::new();
    run.step(&mut handle, &job, UploadEvent::Started, "1");
    run.step(&mut handle, &job, session(), "2");
    run.step(&mut handle, &job, UploadEvent::ChunksEnded(Err(cancelled())), "3");
    assert_eq!(run.step(&mut handle, &job, UploadEvent::AbortSent, "4"), revoke());
    assert_eq!(handle.snapshot.status, AgentTaskStatus::Cancelled);
    assert_eq!(handle.snapshot.progress, Progress::Fixed(0));
    assert_eq!(handle.snapshot.error, None);
    assert_eq!(handle.logs[2].message, "上传任务已取消");
}

#[test]
fn cancel_request_is_seen_before_completion() {
    let job = job();
    let mut handle = TaskHandle::new("t1", "a.mp4", 10);
    let mut run = UploadRun::new();
    run.step(&mut handle, &job, UploadEvent::Started, "1");
    run.step(&mut handle, &job, session(), "2");
    handle.cancel_requested = true;
    run.step(&mut handle, &job, UploadEvent::ChunksEnded(Ok(())), "3");
    assert_eq!(run.stage, UploadStage::Aborting(cancelled()));
}
