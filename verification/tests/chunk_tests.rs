use local_upload_agent::chunks::{
    chunk_offset, countable, get_chunk_length, plan_chunks, ChunkPlan,
};
use local_upload_agent::pool::{ChunkPool, PARALLEL_UPLOADS};
use local_upload_agent::requests::{HttpMethod, HttpOutcome, RequestBody, StatusResponse};
use local_upload_agent::retry::{cancelled, ChunkAction, ChunkEvent, ChunkStage, ChunkUpload};
use local_upload_agent::task::{
    AgentTaskStatus, AgentUploadTask, Elapsed, Progress, Speed, TaskHandle,
};

fn job(file_size: u64) -> AgentUploadTask {
    AgentUploadTask {
        task_id: "t1".to_string(),
        base_url: "https://host".to_string(),
        file_name: "a.mp4".to_string(),
        file_size,
        mime_type: "video/mp4".to_string(),
        local_file_path: "/tmp/a.mp4".to_string(),
        api_token: "token".to_string(),
        bucket_name: None,
        object_prefix: None,
    }
}

fn handle(file_size: u64) -> TaskHandle {
    TaskHandle::new("t1", "a.mp4", file_size)
}

fn at(nanoseconds: u128) -> Elapsed {
    Elapsed { nanoseconds }
}

#[test]
fn chunk_lengths() {
    assert_eq!(get_chunk_length(10, 4, 0), 4);
    assert_eq!(get_chunk_length(10, 4, 1), 4);
    assert_eq!(get_chunk_length(10, 4, 2), 2);
    assert_eq!(get_chunk_length(10, 4, 3), 0);
    assert_eq!(get_chunk_length(10, u64::MAX, 2), 0);
    assert_eq!(get_chunk_length(0, 4, 0), 0);
    assert_eq!(chunk_offset(4, 2), 8);
    assert_eq!(chunk_offset(u64::MAX, 2), u64::MAX);
}

#[test]
fn chunk_lengths_add_up_to_the_file() {
    for (file_size, chunk_size) in [(10u64, 4u64), (8, 4), (1, 100), (1000, 7)] {
        let plan = plan_chunks(file_size, chunk_size, None);
        let mut sum: u64 = 0;
        for index in 0..plan.total_chunks {
            sum += get_chunk_length(file_size, plan.chunk_size, index) as u64;
        }
        assert_eq!(sum, file_size);
    }
}

#[test]
fn plans_have_at_least_one_chunk_of_one_byte() {
    assert_eq!(plan_chunks(10, 4, None), ChunkPlan { chunk_size: 4, total_chunks: 3 });
    assert_eq!(plan_chunks(10, 0, None), ChunkPlan { chunk_size: 1, total_chunks: 10 });
    assert_eq!(plan_chunks(0, 4, None), ChunkPlan { chunk_size: 4, total_chunks: 1 });
    assert_eq!(plan_chunks(10, 4, Some(0)), ChunkPlan { chunk_size: 4, total_chunks: 1 });
    assert_eq!(plan_chunks(10, 4, Some(9)), ChunkPlan { chunk_size: 4, total_chunks: 9 });
    assert!(!countable(u64::MAX, 2, None));
    assert!(countable(u64::MAX, 1, None));
    assert!(countable(u64::MAX, 2, Some(1)));
}

#[test]
fn accepted_chunk_ends_well() {
    let job = job(10);
    let mut handle = handle(10);
    let (mut chunk, action) = ChunkUpload::begin(&mut handle, &job, "u1", 2, 4, "100");
    assert_eq!(
        action,
        ChunkAction::ReadFile { path: "/tmp/a.mp4".to_string(), offset: 8, length: 2 }
    );
    assert_eq!(handle.logs[0].message, "分片开始上传");
    assert_eq!(handle.logs[0].detail, Some("chunkSize=4".to_string()));
    assert_eq!(handle.logs[0].chunk_index, Some(2));
    assert_eq!(handle.logs[0].timestamp, "100");
    match chunk.step(&mut handle, &job, ChunkEvent::Read(2), "101") {
        ChunkAction::Put(request) => {
            assert_eq!(request.method, HttpMethod::Put);
            assert_eq!(
                request.url,
                "https://host/api/upload/video/chunk?uploadId=u1&chunkIndex=2"
            );
            assert_eq!(request.bearer, Some("token".to_string()));
            assert_eq!(
                request.headers,
                vec![
                    ("Content-Type".to_string(), "application/octet-stream".to_string()),
                    ("x-upload-id".to_string(), "u1".to_string()),
                    ("x-chunk-index".to_string(), "2".to_string()),
                ]
            );
            assert_eq!(request.body, RequestBody::Chunk);
        }
        other => panic!("{other:?}"),
    }
    assert_eq!(
        chunk.step(&mut handle, &job, ChunkEvent::PutAccepted, "102"),
        ChunkAction::End(Ok(2))
    );
    assert_eq!(chunk.stage, ChunkStage::Ended);
    assert_eq!(chunk.step(&mut handle, &job, ChunkEvent::Rested, "103"), ChunkAction::Nothing);
}

#[test]
fn chunk_is_sent_three_times_at_most() {
    let job = job(10);
    let mut handle = handle(10);
    let (mut chunk, _) = ChunkUpload::begin(&mut handle, &job, "u1", 0, 4, "0");
    let mut puts = 0;
    let mut event = ChunkEvent::Read(4);
    loop {
        match chunk.step(&mut handle, &job, event, "0") {
            ChunkAction::Put(_) => {
                puts += 1;
                event = ChunkEvent::PutRefused {
                    status: "500 Internal Server Error".to_string(),
                    body: "oops".to_string(),
                };
            }
            ChunkAction::AskStatus(request) => {
                assert_eq!(request.url, "https://host/api/upload/video/status?uploadId=u1");
                assert_eq!(request.method, HttpMethod::Get);
                event = ChunkEvent::StatusReply(HttpOutcome::Received(StatusResponse {
                    completed_chunks: vec![1, 2],
                }));
            }
            ChunkAction::Rest(milliseconds) => {
                assert_eq!(milliseconds, 800);
                event = ChunkEvent::Rested;
            }
            ChunkAction::End(result) => {
                assert_eq!(
                    result,
                    Err("上传分片失败：chunk #0 HTTP 500 Internal Server Error oops".to_string())
                );
                break;
            }
            other => panic!("{other:?}"),
        }
    }
    assert_eq!(puts, 3);
    assert_eq!(handle.logs.len(), 3);
    assert_eq!(handle.logs[1].message, "分片上传失败，准备重试");
    assert_eq!(handle.logs[1].level, "warn");
}

#[test]
fn remote_status_confirms_a_chunk() {
    let job = job(10);
    let mut handle = handle(10);
    let (mut chunk, _) = ChunkUpload::begin(&mut handle, &job, "u1", 1, 4, "0");
    chunk.step(&mut handle, &job, ChunkEvent::Read(4), "0");
    chunk.step(&mut handle, &job, ChunkEvent::PutFailed("timeout".to_string()), "0");
    assert_eq!(chunk.last_error, "timeout");
    let reply = HttpOutcome::Received(StatusResponse { completed_chunks: vec![0, 1] });
    assert_eq!(
        chunk.step(&mut handle, &job, ChunkEvent::StatusReply(reply), "0"),
        ChunkAction::End(Ok(4))
    );
    assert_eq!(handle.logs[1].message, "分片已由远端状态确认成功");
}

#[test]
fn unreadable_files_end_a_chunk() {
    let job = job(10);
    let cases = [
        (ChunkEvent::OpenFailed("x".to_string()), "打开本地文件失败：x"),
        (ChunkEvent::SeekFailed("x".to_string()), "定位分片失败：x"),
        (ChunkEvent::ReadFailed("x".to_string()), "读取分片失败：x"),
    ];
    for (event, message) in cases {
        let mut handle = handle(10);
        let (mut chunk, _) = ChunkUpload::begin(&mut handle, &job, "u1", 1, 4, "0");
        assert_eq!(
            chunk.step(&mut handle, &job, event, "0"),
            ChunkAction::End(Err(message.to_string()))
        );
    }
}

#[test]
fn cancelled_task_sends_no_chunk() {
    let job = job(10);
    let mut handle = handle(10);
    let (mut chunk, _) = ChunkUpload::begin(&mut handle, &job, "u1", 1, 4, "0");
    handle.cancel_requested = true;
    assert_eq!(
        chunk.step(&mut handle, &job, ChunkEvent::Read(4), "0"),
        ChunkAction::End(Err(cancelled()))
    );
    assert_eq!(cancelled(), "__cancelled__");
}

#[test]
fn pool_gives_every_chunk_out_once() {
    let mut task = handle(10);
    let mut pool = ChunkPool::new(10, plan_chunks(10, 4, None));
    assert_eq!(PARALLEL_UPLOADS, 4);
    assert_eq!(pool.claim(&task), Some(0));
    assert_eq!(pool.claim(&task), Some(1));
    assert_eq!(pool.claim(&task), Some(2));
    assert_eq!(pool.claim(&task), None);
    assert!(pool.is_sending(1));
    pool.report(&mut task, "u1", 1, Ok(4), at(2_000_000_000), "7");
    assert!(!pool.is_sending(1));
    assert_eq!(task.snapshot.status, AgentTaskStatus::Uploading);
    assert_eq!(task.snapshot.uploaded_bytes, 4);
    assert_eq!(task.snapshot.progress, Progress::Capped { part: 4, whole: 10, cap: 99 });
    assert_eq!(
        task.snapshot.speed_bytes_per_second,
        Speed::Average { bytes: 4, within: at(2_000_000_000) }
    );
    assert_eq!(task.snapshot.upload_id, Some("u1".to_string()));
    assert_eq!(task.logs[0].message, "分片上传成功");
    assert_eq!(task.logs[0].detail, Some("uploadedBytes=4".to_string()));
    pool.report(&mut task, "u1", 0, Ok(4), at(3), "7");
    pool.report(&mut task, "u1", 2, Ok(2), at(4), "7");
    assert_eq!(pool.completed_bytes, 10);
    assert_eq!(pool.conclude(&mut task, "u1", at(5)), Ok(()));
    assert_eq!(task.snapshot.progress, Progress::Capped { part: 10, whole: 10, cap: 99 });
}

#[test]
fn failed_chunk_stops_the_upload() {
    let mut task = handle(100);
    let mut pool = ChunkPool::new(100, plan_chunks(100, 4, None));
    pool.claim(&task);
    pool.claim(&task);
    pool.report(&mut task, "u1", 0, Err("boom".to_string()), at(1), "7");
    assert_eq!(task.logs[0].message, "分片上传失败");
    assert!(task.cancel_requested);
    assert_eq!(pool.claim(&task), None);
    pool.report(&mut task, "u1", 1, Err("later".to_string()), at(1), "7");
    assert_eq!(pool.failure, Some("boom".to_string()));
    assert_eq!(pool.conclude(&mut task, "u1", at(2)), Err(cancelled()));
}

#[test]
fn cancelled_chunk_is_logged_as_such() {
    let mut task = handle(100);
    let mut pool = ChunkPool::new(100, plan_chunks(100, 4, None));
    pool.claim(&task);
    assert!(!pool.finished(&task));
    pool.report(&mut task, "u1", 0, Err(cancelled()), at(1), "7");
    assert_eq!(task.logs[0].message, "分片上传被取消");
    assert_eq!(pool.failure, None);
    assert!(task.cancel_requested);
    assert!(pool.finished(&task));
    assert_eq!(pool.conclude(&mut task, "u1", at(2)), Err(cancelled()));
}

#[test]
fn upload_is_finished_when_every_chunk_is_reported() {
    let mut task = handle(10);
    let mut pool = ChunkPool::new(10, plan_chunks(10, 4, None));
    let mut sent: Vec<u64> = Vec::new();
    let mut waiting: Vec<u64> = Vec::new();
    while let Some(index) = pool.claim(&task) {
        assert!(!pool.finished(&task));
        waiting.push(index);
    }
    while let Some(index) = waiting.pop() {
        assert!(!pool.finished(&task));
        let length = get_chunk_length(10, 4, index);
        pool.report(&mut task, "u1", index, Ok(length), at(1), "7");
        sent.push(index);
    }
    assert!(pool.finished(&task));
    assert_eq!(pool.conclude(&mut task, "u1", at(2)), Ok(()));
    sent.sort();
    assert_eq!(sent, vec![0, 1, 2]);
}

#[test]
fn first_failure_is_kept() {
    let mut task = handle(100);
    let mut pool = ChunkPool::new(100, plan_chunks(100, 4, None));
    pool.claim(&task);
    pool.report(&mut task, "u1", 0, Err("boom".to_string()), at(1), "7");
    task.cancel_requested = false;
    assert_eq!(pool.conclude(&mut task, "u1", at(2)), Err("boom".to_string()));
}
