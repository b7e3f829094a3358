//! An upload task from its start to its end: the session with the service, the chunks,
//! and the completion.
use crate::chunks::{
    bytes_before, is_countable, law_chunk_size_is_kept, law_own_plan_covers_file, plan_chunks,
    plan_for, ChunkPlan,
};
use crate::requests::{
    abort_request, abort_spec, asks, complete_request, complete_spec, init_request, init_spec,
    reply_of, reply_or_error, revoke_request, revoke_spec, BodyView, CompleteResponse,
    CompleteView, HttpMethod, HttpOutcome, HttpRequest, InitResponse, InitView, OutcomeView,
    RequestView,
};
use crate::retry::{cancelled, cancelled_text, error_text};
use crate::task::{
    copy_option, detailed, is_log_with, logged, note, AgentTaskStatus, AgentUploadTask, LogView,
    Progress, ResultView, SnapshotView, Speed, TaskHandle, TaskView, UploadTaskResult,
    UploadTaskView,
};
use crate::text::{decimal, decimal_text, text_option};
use vstd::prelude::*;
use vstd::string::*;

verus! {

/// What an upload task is waiting for.
#[derive(Debug, PartialEq, Eq)]
pub enum UploadStage {
    Starting,
    AwaitingSession,
    SendingChunks,
    AwaitingCompletion,
    /// The session is being given up, for this error.
    Aborting(String),
    Ended,
}

#[verifier::ext_equal]
pub enum UploadStageView {
    Starting,
    AwaitingSession,
    SendingChunks,
    AwaitingCompletion,
    Aborting(Seq<char>),
    Ended,
}

impl View for UploadStage {
    type V = UploadStageView;

    open spec fn view(&self) -> UploadStageView {
        match self {
            UploadStage::Starting => UploadStageView::Starting,
            UploadStage::AwaitingSession => UploadStageView::AwaitingSession,
            UploadStage::SendingChunks => UploadStageView::SendingChunks,
            UploadStage::AwaitingCompletion => UploadStageView::AwaitingCompletion,
            UploadStage::Aborting(error) => UploadStageView::Aborting(error@),
            UploadStage::Ended => UploadStageView::Ended,
        }
    }
}

/// The run of an upload task.
#[derive(Debug, PartialEq, Eq)]
pub struct UploadRun {
    pub stage: UploadStage,
    /// The session, once the service has opened one.
    pub upload_id: Option<String>,
}

#[verifier::ext_equal]
pub struct UploadRunView {
    pub stage: UploadStageView,
    pub upload_id: Option<Seq<char>>,
}

impl View for UploadRun {
    type V = UploadRunView;

    open spec fn view(&self) -> UploadRunView {
        UploadRunView { stage: self.stage@, upload_id: text_option(self.upload_id) }
    }
}

/// What has happened to an upload task.
#[derive(Debug, PartialEq, Eq)]
pub enum UploadEvent {
    Started,
    SessionReply(HttpOutcome<InitResponse>),
    /// The chunks have been sent, or sending them has ended with an error.
    ChunksEnded(Result<(), String>),
    CompletionReply(HttpOutcome<CompleteResponse>),
    /// The request that gives up the session has been sent.
    AbortSent,
}

#[verifier::ext_equal]
pub enum UploadEventView {
    Started,
    SessionReply(OutcomeView<InitView>),
    ChunksEnded(Result<(), Seq<char>>),
    CompletionReply(OutcomeView<CompleteView>),
    AbortSent,
}

impl View for UploadEvent {
    type V = UploadEventView;

    open spec fn view(&self) -> UploadEventView {
        match self {
            UploadEvent::Started => UploadEventView::Started,
            UploadEvent::SessionReply(outcome) => UploadEventView::SessionReply(outcome@),
            UploadEvent::ChunksEnded(result) => UploadEventView::ChunksEnded(error_text(*result)),
            UploadEvent::CompletionReply(outcome) => UploadEventView::CompletionReply(outcome@),
            UploadEvent::AbortSent => UploadEventView::AbortSent,
        }
    }
}

/// What to do next for an upload task.
#[derive(Debug, PartialEq, Eq)]
pub enum UploadAction {
    Send(HttpRequest),
    SendChunks { upload_id: String, plan: ChunkPlan },
    /// The task has ended: send this request, and see to its removal later.
    End { revoke: HttpRequest },
    /// The event does not fit; nothing is to be done.
    Nothing,
}

#[verifier::ext_equal]
pub enum UploadActionView {
    Send(RequestView),
    SendChunks { upload_id: Seq<char>, plan: ChunkPlan },
    End { revoke: RequestView },
    Nothing,
}

impl View for UploadAction {
    type V = UploadActionView;

    open spec fn view(&self) -> UploadActionView {
        match self {
            UploadAction::Send(request) => UploadActionView::Send(request@),
            UploadAction::SendChunks { upload_id, plan } => UploadActionView::SendChunks {
                upload_id: upload_id@,
                plan: *plan,
            },
            UploadAction::End { revoke } => UploadActionView::End { revoke: revoke@ },
            UploadAction::Nothing => UploadActionView::Nothing,
        }
    }
}

pub open spec fn new_upload_run() -> UploadRunView {
    UploadRunView { stage: UploadStageView::Starting, upload_id: None }
}

/// `task` with a changed snapshot.
pub open spec fn with_snapshot(task: TaskView, snapshot: SnapshotView) -> TaskView {
    TaskView { snapshot, ..task }
}

/// A task that has been completed.
pub open spec fn completed(task: TaskView, file_size: u64, result: ResultView) -> TaskView {
    with_snapshot(
        task,
        SnapshotView {
            status: AgentTaskStatus::Completed,
            progress: Progress::Fixed(100),
            uploaded_bytes: file_size,
            total_bytes: file_size,
            speed_bytes_per_second: Speed::Idle,
            result: Some(result),
            error: None,
            ..task.snapshot
        },
    )
}

/// A task that has been stopped.
pub open spec fn stopped(task: TaskView) -> TaskView {
    with_snapshot(
        task,
        SnapshotView {
            status: AgentTaskStatus::Cancelled,
            progress: Progress::Fixed(0),
            speed_bytes_per_second: Speed::Idle,
            error: None,
            ..task.snapshot
        },
    )
}

/// A task that has failed.
pub open spec fn failed(task: TaskView, error: Seq<char>) -> TaskView {
    with_snapshot(
        task,
        SnapshotView {
            status: AgentTaskStatus::Failed,
            speed_bytes_per_second: Speed::Idle,
            error: Some(error),
            ..task.snapshot
        },
    )
}

impl TaskHandle {
    pub fn complete(&mut self, file_size: u64, result: UploadTaskResult)
        ensures
            final(self)@ == completed(old(self)@, file_size, result@),
    {
        self.snapshot.status = AgentTaskStatus::Completed;
        self.snapshot.progress = Progress::Fixed(100);
        self.snapshot.uploaded_bytes = file_size;
        self.snapshot.total_bytes = file_size;
        self.snapshot.speed_bytes_per_second = Speed::Idle;
        self.snapshot.result = Some(result);
        self.snapshot.error = None;
    }

    pub fn stop(&mut self)
        ensures
            final(self)@ == stopped(old(self)@),
    {
        self.snapshot.status = AgentTaskStatus::Cancelled;
        self.snapshot.progress = Progress::Fixed(0);
        self.snapshot.speed_bytes_per_second = Speed::Idle;
        self.snapshot.error = None;
    }

    pub fn fail(&mut self, error: String)
        ensures
            final(self)@ == failed(old(self)@, error@),
    {
        self.snapshot.status = AgentTaskStatus::Failed;
        self.snapshot.speed_bytes_per_second = Speed::Idle;
        self.snapshot.error = Some(error);
    }
}

/// The result of an upload that the service has completed.
pub open spec fn upload_result(reply: CompleteView) -> ResultView {
    ResultView {
        url: reply.url,
        filename: reply.filename,
        local_path: reply.local_path,
        gcs_gs_uri: None,
        asset_id: None,
    }
}

/// The task has ended; its token is given back.
pub open spec fn upload_ended(run: UploadRunView, task: TaskView, job: UploadTaskView) -> (
    UploadRunView,
    TaskView,
    UploadActionView,
) {
    (
        UploadRunView { stage: UploadStageView::Ended, ..run },
        task,
        UploadActionView::End { revoke: revoke_spec(job) },
    )
}

/// The task has ended with an error.
pub open spec fn upload_broken(
    run: UploadRunView,
    task: TaskView,
    job: UploadTaskView,
    error: Seq<char>,
    now: Seq<char>,
) -> (UploadRunView, TaskView, UploadActionView) {
    if error == cancelled_text() {
        upload_ended(
            run,
            stopped(logged(task, now, "warn"@, "上传任务已取消"@, None, None)),
            job,
        )
    } else {
        upload_ended(
            run,
            failed(logged(task, now, "warn"@, "上传任务失败"@, None, Some(error)), error),
            job,
        )
    }
}

/// An error has come up: the session is given up first, where there is one.
pub open spec fn upload_erred(
    run: UploadRunView,
    task: TaskView,
    job: UploadTaskView,
    error: Seq<char>,
    now: Seq<char>,
) -> (UploadRunView, TaskView, UploadActionView) {
    match run.upload_id {
        Some(id) => (
            UploadRunView { stage: UploadStageView::Aborting(error), ..run },
            task,
            UploadActionView::Send(abort_spec(job, id)),
        ),
        None => upload_broken(run, task, job, error, now),
    }
}

/// The task as it starts.
pub open spec fn upload_started(task: TaskView, job: UploadTaskView, now: Seq<char>) -> TaskView {
    let noted = logged(task, now, "debug"@, "上传任务已创建"@, None, None);
    with_snapshot(
        noted,
        SnapshotView {
            status: AgentTaskStatus::Queued,
            progress: Progress::Fixed(0),
            uploaded_bytes: 0,
            total_bytes: job.file_size,
            speed_bytes_per_second: Speed::Idle,
            error: None,
            ..noted.snapshot
        },
    )
}

/// The plan by which the chunks are sent.
pub open spec fn session_plan(job: UploadTaskView, session: InitView) -> ChunkPlan {
    let (size, count) = plan_for(
        job.file_size as int,
        session.chunk_size as int,
        session.total_chunks,
    );
    ChunkPlan { chunk_size: size as u64, total_chunks: count as u64 }
}

/// The service has opened a session.
pub open spec fn session_opened(
    run: UploadRunView,
    task: TaskView,
    job: UploadTaskView,
    session: InitView,
    now: Seq<char>,
) -> (UploadRunView, TaskView, UploadActionView) {
    let plan = session_plan(job, session);
    let noted = logged(
        task,
        now,
        "debug"@,
        "远端上传会话初始化成功"@,
        None,
        Some(
            "uploadId="@ + session.upload_id + ", totalChunks="@ + decimal(plan.total_chunks as nat)
                + ", chunkSize="@ + decimal(plan.chunk_size as nat),
        ),
    );
    (
        UploadRunView {
            stage: UploadStageView::SendingChunks,
            upload_id: Some(session.upload_id),
        },
        with_snapshot(
            noted,
            SnapshotView {
                status: AgentTaskStatus::Uploading,
                upload_id: Some(session.upload_id),
                total_bytes: job.file_size,
                ..noted.snapshot
            },
        ),
        UploadActionView::SendChunks { upload_id: session.upload_id, plan },
    )
}

/// All chunks have been sent.
pub open spec fn chunks_sent(
    run: UploadRunView,
    task: TaskView,
    job: UploadTaskView,
    upload_id: Seq<char>,
    now: Seq<char>,
) -> (UploadRunView, TaskView, UploadActionView) {
    let noted = logged(task, now, "debug"@, "分片上传完成，开始 finalize"@, None, None);
    (
        UploadRunView { stage: UploadStageView::AwaitingCompletion, ..run },
        with_snapshot(
            noted,
            SnapshotView {
                status: AgentTaskStatus::Finalizing,
                progress: Progress::Fixed(99),
                uploaded_bytes: job.file_size,
                total_bytes: job.file_size,
                speed_bytes_per_second: Speed::Idle,
                ..noted.snapshot
            },
        ),
        UploadActionView::Send(complete_spec(job, upload_id)),
    )
}

/// How an event takes an upload task further.
pub open spec fn upload_step(
    run: UploadRunView,
    task: TaskView,
    job: UploadTaskView,
    event: UploadEventView,
    now: Seq<char>,
) -> (UploadRunView, TaskView, UploadActionView) {
    match (run.stage, event) {
        (UploadStageView::Starting, UploadEventView::Started) => (
            UploadRunView { stage: UploadStageView::AwaitingSession, ..run },
            upload_started(task, job, now),
            UploadActionView::Send(init_spec(job)),
        ),
        (UploadStageView::AwaitingSession, UploadEventView::SessionReply(outcome)) => {
            match reply_or_error(
                outcome,
                "初始化上传失败："@,
                "解析上传初始化响应失败："@,
            ) {
                Ok(session) => session_opened(run, task, job, session, now),
                Err(error) => upload_erred(run, task, job, error, now),
            }
        },
        (UploadStageView::SendingChunks, UploadEventView::ChunksEnded(result)) => {
            match result {
                Ok(_) => if task.cancel_requested {
                    upload_erred(run, task, job, cancelled_text(), now)
                } else {
                    match run.upload_id {
                        Some(id) => chunks_sent(run, task, job, id, now),
                        None => (run, task, UploadActionView::Nothing),
                    }
                },
                Err(error) => upload_erred(run, task, job, error, now),
            }
        },
        (UploadStageView::AwaitingCompletion, UploadEventView::CompletionReply(outcome)) => {
            match reply_or_error(outcome, "完成上传失败："@, "解析完成上传响应失败："@) {
                Ok(reply) => upload_ended(
                    run,
                    completed(
                        logged(
                            task,
                            now,
                            "debug"@,
                            "上传任务完成"@,
                            None,
                            Some("filename="@ + reply.filename),
                        ),
                        job.file_size,
                        upload_result(reply),
                    ),
                    job,
                ),
                Err(error) => upload_erred(run, task, job, error, now),
            }
        },
        (UploadStageView::Aborting(error), UploadEventView::AbortSent) => upload_broken(
            run,
            task,
            job,
            error,
            now,
        ),
        _ => (run, task, UploadActionView::Nothing),
    }
}

/// The number of chunks that a reply implies can be counted.
pub open spec fn is_plannable(job: UploadTaskView, event: UploadEventView) -> bool {
    event matches UploadEventView::SessionReply(OutcomeView::Received(session)) ==> is_countable(
        job.file_size,
        session.chunk_size,
        session.total_chunks,
    )
}

impl UploadRun {
    pub fn new() -> (run: Self)
        ensures
            run@ == new_upload_run(),
    {
        UploadRun { stage: UploadStage::Starting, upload_id: None }
    }

    fn end(&mut self, task: &AgentUploadTask) -> (action: UploadAction)
        ensures
            final(self)@ == (UploadRunView { stage: UploadStageView::Ended, ..old(self)@ }),
            action@ == (UploadActionView::End { revoke: revoke_spec(task@) }),
    {
        self.stage = UploadStage::Ended;
        UploadAction::End { revoke: revoke_request(task) }
    }

    fn break_off(
        &mut self,
        handle: &mut TaskHandle,
        task: &AgentUploadTask,
        error: String,
        now: &str,
    ) -> (action: UploadAction)
        ensures
            (final(self)@, final(handle)@, action@) == upload_broken(
                old(self)@,
                old(handle)@,
                task@,
                error@,
                now@,
            ),
    {
        let stop_mark = cancelled();
        if error == stop_mark {
            handle.append_log(now, "warn", "上传任务已取消", None, None);
            handle.stop();
        } else {
            handle.append_log(now, "warn", "上传任务失败", None, Some(error.clone()));
            handle.fail(error);
        }
        self.end(task)
    }

    fn err(&mut self, handle: &mut TaskHandle, task: &AgentUploadTask, error: String, now: &str) -> (
    action: UploadAction)
        ensures
            (final(self)@, final(handle)@, action@) == upload_erred(
                old(self)@,
                old(handle)@,
                task@,
                error@,
                now@,
            ),
    {
        let abort = match &self.upload_id {
            Some(id) => Some(abort_request(task, id.as_str())),
            None => None,
        };
        match abort {
            Some(request) => {
                self.stage = UploadStage::Aborting(error);
                UploadAction::Send(request)
            },
            None => self.break_off(handle, task, error, now),
        }
    }

    fn start(&mut self, handle: &mut TaskHandle, task: &AgentUploadTask, now: &str) -> (action:
        UploadAction)
        ensures
            final(self)@ == (UploadRunView {
                stage: UploadStageView::AwaitingSession,
                ..old(self)@
            }),
            final(handle)@ == upload_started(old(handle)@, task@, now@),
            action@ == UploadActionView::Send(init_spec(task@)),
    {
        handle.append_log(now, "debug", "上传任务已创建", None, None);
        handle.snapshot.status = AgentTaskStatus::Queued;
        handle.snapshot.progress = Progress::Fixed(0);
        handle.snapshot.uploaded_bytes = 0;
        handle.snapshot.total_bytes = task.file_size;
        handle.snapshot.speed_bytes_per_second = Speed::Idle;
        handle.snapshot.error = None;
        self.stage = UploadStage::AwaitingSession;
        UploadAction::Send(init_request(task))
    }

    fn open_session(
        &mut self,
        handle: &mut TaskHandle,
        task: &AgentUploadTask,
        session: InitResponse,
        now: &str,
    ) -> (action: UploadAction)
        requires
            is_countable(task@.file_size, session@.chunk_size, session@.total_chunks),
        ensures
            (final(self)@, final(handle)@, action@) == session_opened(
                old(self)@,
                old(handle)@,
                task@,
                session@,
                now@,
            ),
    {
        let plan = plan_chunks(task.file_size, session.chunk_size, session.total_chunks);
        let count_text = decimal_text(plan.total_chunks);
        let size_text = decimal_text(plan.chunk_size);
        let detail = "uploadId=".to_owned().concat(session.upload_id.as_str()).concat(
            ", totalChunks=",
        ).concat(count_text.as_str()).concat(", chunkSize=").concat(size_text.as_str());
        handle.append_log(
            now,
            "debug",
            "远端上传会话初始化成功",
            None,
            Some(detail),
        );
        handle.snapshot.status = AgentTaskStatus::Uploading;
        handle.snapshot.upload_id = Some(session.upload_id.clone());
        handle.snapshot.total_bytes = task.file_size;
        self.stage = UploadStage::SendingChunks;
        self.upload_id = Some(session.upload_id.clone());
        UploadAction::SendChunks { upload_id: session.upload_id, plan }
    }

    fn finish_chunks(
        &mut self,
        handle: &mut TaskHandle,
        task: &AgentUploadTask,
        upload_id: String,
        now: &str,
    ) -> (action: UploadAction)
        ensures
            (final(self)@, final(handle)@, action@) == chunks_sent(
                old(self)@,
                old(handle)@,
                task@,
                upload_id@,
                now@,
            ),
    {
        handle.append_log(now, "debug", "分片上传完成，开始 finalize", None, None);
        handle.snapshot.status = AgentTaskStatus::Finalizing;
        handle.snapshot.progress = Progress::Fixed(99);
        handle.snapshot.uploaded_bytes = task.file_size;
        handle.snapshot.total_bytes = task.file_size;
        handle.snapshot.speed_bytes_per_second = Speed::Idle;
        self.stage = UploadStage::AwaitingCompletion;
        UploadAction::Send(complete_request(task, upload_id.as_str()))
    }

    fn complete(
        &mut self,
        handle: &mut TaskHandle,
        task: &AgentUploadTask,
        reply: CompleteResponse,
        now: &str,
    ) -> (action: UploadAction)
        ensures
            (final(self)@, final(handle)@, action@) == upload_ended(
                old(self)@,
                completed(
                    logged(
                        old(handle)@,
                        now@,
                        "debug"@,
                        "上传任务完成"@,
                        None,
                        Some("filename="@ + reply@.filename),
                    ),
                    task@.file_size,
                    upload_result(reply@),
                ),
                task@,
            ),
    {
        let detail = "filename=".to_owned().concat(reply.filename.as_str());
        handle.append_log(now, "debug", "上传任务完成", None, Some(detail));
        handle.complete(
            task.file_size,
            UploadTaskResult {
                url: reply.url,
                filename: reply.filename,
                local_path: reply.local_path,
                gcs_gs_uri: None,
                asset_id: None,
            },
        );
        self.end(task)
    }

    /// Takes an upload task one event further.
    pub fn step(
        &mut self,
        handle: &mut TaskHandle,
        task: &AgentUploadTask,
        event: UploadEvent,
        now: &str,
    ) -> (action: UploadAction)
        requires
            is_plannable(task@, event@),
        ensures
            (final(self)@, final(handle)@, action@) == upload_step(
                old(self)@,
                old(handle)@,
                task@,
                event@,
                now@,
            ),
    {
        match event {
            UploadEvent::Started => match self.stage {
                UploadStage::Starting => self.start(handle, task, now),
                _ => UploadAction::Nothing,
            },
            UploadEvent::SessionReply(outcome) => match self.stage {
                UploadStage::AwaitingSession => match reply_of(
                    outcome,
                    "初始化上传失败：",
                    "解析上传初始化响应失败：",
                ) {
                    Ok(session) => self.open_session(handle, task, session, now),
                    Err(error) => self.err(handle, task, error, now),
                },
                _ => UploadAction::Nothing,
            },
            UploadEvent::ChunksEnded(result) => match self.stage {
                UploadStage::SendingChunks => match result {
                    Ok(_) => if handle.cancel_requested {
                        self.err(handle, task, cancelled(), now)
                    } else {
                        match copy_option(&self.upload_id) {
                            Some(id) => self.finish_chunks(handle, task, id, now),
                            None => UploadAction::Nothing,
                        }
                    },
                    Err(error) => self.err(handle, task, error, now),
                },
                _ => UploadAction::Nothing,
            },
            UploadEvent::CompletionReply(outcome) => match self.stage {
                UploadStage::AwaitingCompletion => match reply_of(
                    outcome,
                    "完成上传失败：",
                    "解析完成上传响应失败：",
                ) {
                    Ok(reply) => self.complete(handle, task, reply, now),
                    Err(error) => self.err(handle, task, error, now),
                },
                _ => UploadAction::Nothing,
            },
            UploadEvent::AbortSent => {
                let error = match &self.stage {
                    UploadStage::Aborting(error) => Some(error.clone()),
                    _ => None,
                };
                match error {
                    Some(error) => self.break_off(handle, task, error, now),
                    None => UploadAction::Nothing,
                }
            },
        }
    }
}

/// An upload comes to its end exactly when its token is given back, and the task then
/// stands as completed, cancelled or failed.
pub proof fn law_upload_end_revokes_token(
    run: UploadRunView,
    task: TaskView,
    job: UploadTaskView,
    event: UploadEventView,
    now: Seq<char>,
)
    requires
        !(run.stage is Ended),
    ensures
        ({
            let (next, next_task, action) = upload_step(run, task, job, event, now);
            &&& next.stage is Ended <==> action is End
            &&& (action matches UploadActionView::End { revoke } ==> revoke == revoke_spec(job)
                && next_task.snapshot.status.ended())
        }),
{
}

/// An upload that has ended stays as it is, whatever happens.
pub proof fn law_upload_ends_once(
    run: UploadRunView,
    task: TaskView,
    job: UploadTaskView,
    event: UploadEventView,
    now: Seq<char>,
)
    requires
        run.stage is Ended,
    ensures
        upload_step(run, task, job, event, now) == (run, task, UploadActionView::Nothing),
{
}

/// A session that was opened is given up before the task ends other than by completion.
pub proof fn law_unfinished_session_is_aborted(
    run: UploadRunView,
    task: TaskView,
    job: UploadTaskView,
    event: UploadEventView,
    now: Seq<char>,
)
    requires
        run.upload_id is Some,
        !(run.stage is Aborting),
    ensures
        ({
            let (next, next_task, action) = upload_step(run, task, job, event, now);
            &&& (action is End ==> next_task.snapshot.status is Completed)
            &&& (next.stage is Aborting ==> action == UploadActionView::Send(
                abort_spec(job, run.upload_id->0),
            ))
        }),
{
}

/// The event is one that the stage waits for.
pub open spec fn is_awaited(run: UploadRunView, event: UploadEventView) -> bool {
    match run.stage {
        UploadStageView::Starting => event is Started,
        UploadStageView::AwaitingSession => event is SessionReply,
        UploadStageView::SendingChunks => event is ChunksEnded,
        UploadStageView::AwaitingCompletion => event is CompletionReply,
        UploadStageView::Aborting(_) => event is AbortSent,
        UploadStageView::Ended => false,
    }
}

/// What an upload has not to do with stays as it is.
pub open spec fn keeps_the_rest(before: TaskView, after: TaskView) -> bool {
    &&& after.cancel_requested == before.cancel_requested
    &&& after.active_pid == before.active_pid
    &&& after.snapshot.task_id == before.snapshot.task_id
    &&& after.snapshot.file_name == before.snapshot.file_name
    &&& after.snapshot.file_size == before.snapshot.file_size
}

/// The task has come to an end with an error: as cancelled where it was to stop, and
/// otherwise as failed, with the error shown and noted. No result is made up.
pub open spec fn has_ended_with(
    before: TaskView,
    after: TaskView,
    error: Seq<char>,
    cancelled: LogView,
    failed: LogView,
) -> bool {
    &&& keeps_the_rest(before, after)
    &&& after.snapshot.result == before.snapshot.result
    &&& after.snapshot.speed_bytes_per_second is Idle
    &&& after.snapshot.uploaded_bytes == before.snapshot.uploaded_bytes
    &&& after.snapshot.total_bytes == before.snapshot.total_bytes
    &&& after.snapshot.upload_id == before.snapshot.upload_id
    &&& after.snapshot.gs_uri == before.snapshot.gs_uri
    &&& after.snapshot.object_name == before.snapshot.object_name
    &&& if error == "__cancelled__"@ {
        &&& after.snapshot.status is Cancelled
        &&& after.snapshot.error is None
        &&& after.snapshot.progress == Progress::Fixed(0)
        &&& is_log_with(before.logs, after.logs, cancelled)
    } else {
        &&& after.snapshot.status is Failed
        &&& after.snapshot.error == Some(error)
        &&& after.snapshot.progress == before.snapshot.progress
        &&& is_log_with(before.logs, after.logs, failed)
    }
}

/// An event that is not awaited changes nothing, and nothing is done about it. What an
/// upload has not to do with never changes.
pub proof fn law_upload_takes_awaited_events_only(
    run: UploadRunView,
    task: TaskView,
    job: UploadTaskView,
    event: UploadEventView,
    now: Seq<char>,
)
    ensures
        ({
            let (next, next_task, action) = upload_step(run, task, job, event, now);
            &&& (!is_awaited(run, event) ==> next == run && next_task == task && action is Nothing)
            &&& (is_awaited(run, event) && (run.stage is SendingChunks ==> run.upload_id is Some)
                ==> !(action is Nothing))
            &&& keeps_the_rest(task, next_task)
        }),
{
}

/// An upload that starts asks the service for a session for its file, and shows nothing as
/// uploaded.
pub proof fn law_upload_starts_with_a_session(
    run: UploadRunView,
    task: TaskView,
    job: UploadTaskView,
    now: Seq<char>,
)
    requires
        run.stage is Starting,
    ensures
        ({
            let (next, next_task, action) = upload_step(
                run,
                task,
                job,
                UploadEventView::Started,
                now,
            );
            &&& next.stage is AwaitingSession
            &&& next.upload_id == run.upload_id
            &&& (action matches UploadActionView::Send(request) && asks(
                request,
                HttpMethod::Post,
                job.base_url + "/api/upload/video/init"@,
                job.api_token,
                BodyView::Init {
                    filename: job.file_name,
                    file_size: job.file_size,
                    mime_type: job.mime_type,
                },
            ))
            &&& next_task.snapshot.status is Queued
            &&& next_task.snapshot.uploaded_bytes == 0
            &&& next_task.snapshot.total_bytes == job.file_size
            &&& next_task.snapshot.progress == Progress::Fixed(0)
            &&& next_task.snapshot.speed_bytes_per_second is Idle
            &&& next_task.snapshot.error is None
            &&& next_task.snapshot.result == task.snapshot.result
            &&& is_log_with(
                task.logs,
                next_task.logs,
                note(now, "debug"@, "上传任务已创建"@),
            )
        }),
{
}

/// Chunks are sent exactly where a session has been opened, under the session of the reply,
/// in chunks of the size that the reply asks for, and as many as the reply says.
pub proof fn law_chunks_are_sent_for_an_opened_session(
    run: UploadRunView,
    task: TaskView,
    job: UploadTaskView,
    event: UploadEventView,
    now: Seq<char>,
)
    requires
        is_plannable(job, event),
    ensures
        ({
            let (next, next_task, action) = upload_step(run, task, job, event, now);
            &&& action is SendChunks <==> run.stage is AwaitingSession && (
            event matches UploadEventView::SessionReply(OutcomeView::Received(_)))
            &&& (run.stage is AwaitingSession ==> (
            event matches UploadEventView::SessionReply(OutcomeView::Received(session)) ==> {
                &&& action matches UploadActionView::SendChunks { upload_id, plan } && {
                    &&& upload_id == session.upload_id
                    &&& (session.chunk_size >= 1 ==> plan.chunk_size == session.chunk_size)
                    &&& (session.chunk_size == 0 ==> plan.chunk_size == 1)
                    &&& (session.total_chunks matches Some(n) ==> (n >= 1 ==> plan.total_chunks
                        == n) && (n == 0 ==> plan.total_chunks == 1))
                    &&& (session.total_chunks is None ==> bytes_before(
                        job.file_size as int,
                        plan.chunk_size as int,
                        plan.total_chunks as int,
                    ) == job.file_size)
                    &&& is_log_with(
                        task.logs,
                        next_task.logs,
                        detailed(
                            now,
                            "debug"@,
                            "远端上传会话初始化成功"@,
                            "uploadId="@ + session.upload_id + ", totalChunks="@ + decimal(
                                plan.total_chunks as nat,
                            ) + ", chunkSize="@ + decimal(plan.chunk_size as nat),
                        ),
                    )
                }
                &&& next.stage is SendingChunks
                &&& next.upload_id == Some(session.upload_id)
                &&& next_task.snapshot.status is Uploading
                &&& next_task.snapshot.upload_id == Some(session.upload_id)
                &&& next_task.snapshot.total_bytes == job.file_size
                &&& next_task.snapshot.uploaded_bytes == task.snapshot.uploaded_bytes
                &&& next_task.snapshot.error == task.snapshot.error
                &&& next_task.snapshot.result == task.snapshot.result
            }))
        }),
{
    if let UploadEventView::SessionReply(OutcomeView::Received(session)) = event {
        law_chunk_size_is_kept(job.file_size, session.chunk_size, session.total_chunks);
        if session.total_chunks is None {
            law_own_plan_covers_file(job.file_size, session.chunk_size);
            lemma_own_count_fits(job.file_size, session.chunk_size);
        }
    }
}

proof fn lemma_own_count_fits(file_size: u64, chunk_size: u64)
    requires
        is_countable(file_size, chunk_size, None),
    ensures
        0 <= plan_for(file_size as int, chunk_size as int, None).1 <= u64::MAX,
{
    let size = plan_for(file_size as int, chunk_size as int, None).0;
    let total = file_size + size - 1;
    assert(0 <= total / size <= total) by (nonlinear_arith)
        requires
            size >= 1,
            total >= 0,
    ;
}

/// The service is asked to complete an upload exactly where all its chunks have been sent
/// and the task is not to stop, and the request names the session that was opened.
pub proof fn law_upload_is_completed_only_when_sent(
    run: UploadRunView,
    task: TaskView,
    job: UploadTaskView,
    event: UploadEventView,
    now: Seq<char>,
)
    ensures
        ({
            let (next, next_task, action) = upload_step(run, task, job, event, now);
            &&& !(run.stage is AwaitingCompletion) ==> (next.stage is AwaitingCompletion
                <==> run.stage is SendingChunks && (event matches UploadEventView::ChunksEnded(Ok(_)))
                && !task.cancel_requested && run.upload_id is Some)
            &&& (!(run.stage is AwaitingCompletion) && next.stage is AwaitingCompletion ==> {
                &&& next.upload_id == run.upload_id
                &&& action matches UploadActionView::Send(request) && asks(
                    request,
                    HttpMethod::Post,
                    job.base_url + "/api/upload/video/complete"@,
                    job.api_token,
                    BodyView::UploadId(run.upload_id->0),
                )
                &&& next_task.snapshot.status is Finalizing
                &&& next_task.snapshot.progress == Progress::Fixed(99)
                &&& next_task.snapshot.uploaded_bytes == job.file_size
                &&& next_task.snapshot.total_bytes == job.file_size
                &&& next_task.snapshot.speed_bytes_per_second is Idle
                &&& next_task.snapshot.result == task.snapshot.result
                &&& is_log_with(
                    task.logs,
                    next_task.logs,
                    note(now, "debug"@, "分片上传完成，开始 finalize"@),
                )
            })
        }),
{
}

/// An upload is completed only by a reply that was received to the request for completion,
/// and its result is what the reply says; the whole file then shows as uploaded.
pub proof fn law_upload_is_completed_by_the_service(
    run: UploadRunView,
    task: TaskView,
    job: UploadTaskView,
    event: UploadEventView,
    now: Seq<char>,
)
    ensures
        ({
            let (next, next_task, action) = upload_step(run, task, job, event, now);
            &&& (!(task.snapshot.status is Completed) && next_task.snapshot.status is Completed
                ==> run.stage is AwaitingCompletion && (
            event matches UploadEventView::CompletionReply(OutcomeView::Received(_))))
            &&& (run.stage is AwaitingCompletion ==> (
            event matches UploadEventView::CompletionReply(OutcomeView::Received(reply)) ==> {
                &&& next.stage is Ended
                &&& action is End
                &&& next_task.snapshot.status is Completed
                &&& next_task.snapshot.progress == Progress::Fixed(100)
                &&& next_task.snapshot.uploaded_bytes == job.file_size
                &&& next_task.snapshot.total_bytes == job.file_size
                &&& next_task.snapshot.speed_bytes_per_second is Idle
                &&& next_task.snapshot.error is None
                &&& next_task.snapshot.upload_id == task.snapshot.upload_id
                &&& next_task.snapshot.result matches Some(result) && {
                    &&& result.url == reply.url
                    &&& result.filename == reply.filename
                    &&& result.local_path == reply.local_path
                    &&& result.gcs_gs_uri is None
                    &&& result.asset_id is None
                }
                &&& is_log_with(
                    task.logs,
                    next_task.logs,
                    detailed(now, "debug"@, "上传任务完成"@, "filename="@ + reply.filename),
                )
            }))
        }),
{
}

/// The error that an event brings to an upload: a reply that was not received, chunks that
/// were not sent, or a task that is to stop when they have been.
pub open spec fn brings_error(
    run: UploadRunView,
    task: TaskView,
    event: UploadEventView,
    error: Seq<char>,
) -> bool {
    match (run.stage, event) {
        (UploadStageView::AwaitingSession, UploadEventView::SessionReply(outcome)) => match outcome {
            OutcomeView::NotSent(e) => error == "初始化上传失败："@ + e,
            OutcomeView::Refused { status, body } => error == "初始化上传失败："@ + "HTTP "@ + status
                + " "@ + body,
            OutcomeView::Unreadable(e) => error == "解析上传初始化响应失败："@ + e,
            OutcomeView::Received(_) => false,
        },
        (UploadStageView::SendingChunks, UploadEventView::ChunksEnded(result)) => match result {
            Ok(_) => task.cancel_requested && error == "__cancelled__"@,
            Err(e) => error == e,
        },
        (UploadStageView::AwaitingCompletion, UploadEventView::CompletionReply(outcome)) => {
            match outcome {
                OutcomeView::NotSent(e) => error == "完成上传失败："@ + e,
                OutcomeView::Refused { status, body } => error == "完成上传失败："@ + "HTTP "@
                    + status + " "@ + body,
                OutcomeView::Unreadable(e) => error == "解析完成上传响应失败："@ + e,
                OutcomeView::Received(_) => false,
            }
        },
        _ => false,
    }
}

/// An error ends the upload at once where no session has been opened; otherwise the session
/// is given up first, the error being kept, and the upload ends with it when that has been
/// asked for. Either way the task then stands as cancelled or failed, and the token is
/// given back.
pub proof fn law_error_ends_the_upload(
    run: UploadRunView,
    task: TaskView,
    job: UploadTaskView,
    event: UploadEventView,
    now: Seq<char>,
    error: Seq<char>,
)
    requires
        brings_error(run, task, event, error) || run.stage == UploadStageView::Aborting(error)
            && event is AbortSent,
    ensures
        ({
            let (next, next_task, action) = upload_step(run, task, job, event, now);
            if !(run.stage is Aborting) && run.upload_id is Some {
                &&& next.stage == UploadStageView::Aborting(error)
                &&& next.upload_id == run.upload_id
                &&& next_task == task
                &&& action matches UploadActionView::Send(request) && asks(
                    request,
                    HttpMethod::Post,
                    job.base_url + "/api/upload/video/abort"@,
                    job.api_token,
                    BodyView::UploadId(run.upload_id->0),
                )
            } else {
                &&& next.stage is Ended
                &&& action matches UploadActionView::End { revoke } && asks(
                    revoke,
                    HttpMethod::Delete,
                    job.base_url + "/api/upload/video/agent-token"@,
                    job.api_token,
                    BodyView::Nothing,
                )
                &&& has_ended_with(
                    task,
                    next_task,
                    error,
                    note(now, "warn"@, "上传任务已取消"@),
                    detailed(now, "warn"@, "上传任务失败"@, error),
                )
            }
        }),
{
}

/// A run of an upload begins at its start and without a session.
pub proof fn law_new_upload_is_to_start()
    ensures
        new_upload_run().stage is Starting,
        new_upload_run().upload_id is None,
{
}

} // verus!
