use local_upload_agent::chunks::{get_chunk_length, plan_chunks};
use local_upload_agent::import::{CopyState, ImportEvent, ImportRun};
use local_upload_agent::gcloud::GcloudCommandSpec;
use local_upload_agent::pool::ChunkPool;
use local_upload_agent::requests::{CompleteResponse, HttpOutcome, InitResponse};
use local_upload_agent::routes::Method;
use local_upload_agent::server::{AgentState, BodyOutcome, CreateTaskBody, Next};
use local_upload_agent::task::{
    AgentTaskStatus, AgentUploadTask, Elapsed, Progress, TaskHandle, LOG_LIMIT,
};
use local_upload_agent::updater::{CheckOutcome, UpdaterRuntimeState};
use local_upload_agent::upload::{UploadEvent, UploadRun};

fn job(bucket: Option<&str>) -> AgentUploadTask {
    AgentUploadTask {
        task_id: "t1".to_string(),
        base_url: "https://host".to_string(),
        file_name: "a.mp4".to_string(),
        file_size: 10,
        mime_type: "video/mp4".to_string(),
        local_file_path: "/tmp/a.mp4".to_string(),
        api_token: "token".to_string(),
        bucket_name: bucket.map(|b| b.to_string()),
        object_prefix: bucket.map(|_| "p".to_string()),
    }
}

fn percent_at_most(progress: Progress, limit: u128) -> bool {
    match progress {
        Progress::Fixed(percent) => u128::from(percent) <= limit,
        Progress::Capped { part, whole, cap } => {
            u128::from(cap) <= limit || 100 * u128::from(part) <= limit * u128::from(whole)
        }
        Progress::Clamped { part, whole, low, high } => {
            u128::from(low) <= limit
                && (u128::from(high) <= limit
                    || 100 * u128::from(part) <= limit * u128::from(whole))
        }
    }
}

fn assert_sound(handle: &TaskHandle) {
    let snapshot = &handle.snapshot;
    assert!(handle.logs.len() <= LOG_LIMIT);
    assert!(snapshot.uploaded_bytes <= snapshot.file_size);
    assert!(snapshot.file_size <= snapshot.total_bytes);
    assert_eq!(snapshot.task_id, "t1");
    assert_eq!(snapshot.file_name, "a.mp4");
    if snapshot.status != AgentTaskStatus::Completed {
        assert!(percent_at_most(snapshot.progress, 99));
    }
}

#[test]
fn task_stays_sound_through_an_upload() {
    let job = job(None);
    let mut handle = TaskHandle::new("t1", "a.mp4", 10);
    assert_sound(&handle);
    let mut run = UploadRun::new();
    run.step(&mut handle, &job, UploadEvent::Started, "1");
    assert_sound(&handle);
    let session = InitResponse { upload_id: "u".to_string(), chunk_size: 3, total_chunks: None };
    let event = UploadEvent::SessionReply(HttpOutcome::Received(session));
    run.step(&mut handle, &job, event, "1");
    assert_sound(&handle);
    let mut pool = ChunkPool::new(10, plan_chunks(10, 3, None));
    while let Some(index) = pool.claim(&handle) {
        let length = get_chunk_length(10, 3, index);
        pool.report(&mut handle, "u", index, Ok(length), Elapsed { nanoseconds: 1 }, "1");
        assert_sound(&handle);
    }
    assert_eq!(pool.conclude(&mut handle, "u", Elapsed { nanoseconds: 2 }), Ok(()));
    assert_sound(&handle);
    run.step(&mut handle, &job, UploadEvent::ChunksEnded(Ok(())), "1");
    assert_sound(&handle);
    let reply = CompleteResponse {
        url: "u".to_string(),
        filename: "f".to_string(),
        local_path: None,
    };
    run.step(&mut handle, &job, UploadEvent::CompletionReply(HttpOutcome::Received(reply)), "1");
    assert_sound(&handle);
    assert_eq!(handle.snapshot.status, AgentTaskStatus::Completed);
}

#[test]
fn task_stays_sound_through_an_import() {
    let job = job(Some("b"));
    let tail: Vec<String> = Vec::new();
    let mut handle = TaskHandle::new("t1", "a.mp4", 10);
    let mut run = ImportRun::new();
    run.start(false, &mut handle, &job, "1");
    assert_sound(&handle);
    let spec = GcloudCommandSpec {
        program: "gcloud".to_string(),
        prefix_args: Vec::new(),
        display_path: "gcloud".to_string(),
    };
    run.step(&mut handle, &job, &tail, ImportEvent::ToolChecked(Ok(spec)), "1");
    run.step(&mut handle, &job, &tail, ImportEvent::CopyStarted(Ok(1)), "1");
    for (received, total) in [(1u64, 5u64), (9, 20), (10, 10), (4, 4)] {
        let state = CopyState::Running {
            progress: Some((received, total)),
            at: Elapsed { nanoseconds: 7 },
        };
        run.step(&mut handle, &job, &tail, ImportEvent::Looked(state), "1");
        assert_sound(&handle);
        run.step(&mut handle, &job, &tail, ImportEvent::Paused, "1");
    }
}

#[test]
fn updates_stay_consistent() {
    let mut state: UpdaterRuntimeState<u8> = UpdaterRuntimeState::new("1", Some("e"), Some("k"));
    let check = |state: &UpdaterRuntimeState<u8>| {
        assert_eq!(state.snapshot.available, state.pending_update.is_some());
        assert!(percent_at_most(state.snapshot.progress, 100));
        assert!(state.snapshot.configured);
        assert_eq!(state.snapshot.endpoint, Some("e".to_string()));
        assert_eq!(state.snapshot.current_version, "1");
    };
    check(&state);
    state.begin_check();
    check(&state);
    let found = CheckOutcome::Found { update: 1, version: "2".to_string(), notes: None };
    assert_eq!(state.end_check(found, "1"), Ok(()));
    check(&state);
    state.request_install();
    check(&state);
    assert!(state.begin_install());
    state.record_download(0, 500, Some(100));
    check(&state);
    state.end_install(Some("x"));
    check(&state);
    state.end_install(None);
    check(&state);
    assert!(!state.begin_install());
    check(&state);
    assert!(state.end_check(CheckOutcome::Failed("x".to_string()), "2").is_err());
    check(&state);
}

#[test]
fn reading_changes_nothing_and_cancelling_one_task_only() {
    let mut state: AgentState<u8> = AgentState::new("1", "linux", None, None);
    let body = || {
        BodyOutcome::Body(CreateTaskBody {
            base_url: "https://host".to_string(),
            file_name: "a.mp4".to_string(),
            file_size: 10,
            mime_type: "video/mp4".to_string(),
            local_file_path: "/tmp/a.mp4".to_string(),
            api_token: "token".to_string(),
        })
    };
    state.create_upload_as(&body(), &Ok(10), "a");
    state.create_upload_as(&body(), &Ok(10), "b");
    let before = format!("{state:?}");
    for path in ["/v1/health", "/v1/uploads", "/v1/uploads/a", "/v1/uploads/a/logs", "/x"] {
        state.handle_request(Method::Get, path);
        state.handle_request(Method::Options, path);
        state.handle_request(Method::Other, path);
        assert_eq!(format!("{state:?}"), before);
    }
    let other = state.handle_get_task("b");
    match state.handle_request(Method::Post, "/v1/uploads/a/cancel") {
        Next::Respond(reply) => assert_eq!(reply, state.handle_get_task("a")),
        next => panic!("{next:?}"),
    }
    assert_eq!(state.handle_get_task("b"), other);
}
