//! The upload of one chunk: attempts, confirmation by the service, and retries.
use crate::chunks::{
    chunk_bytes, chunk_offset, chunk_start, get_chunk_length, law_chunks_follow_each_other,
};
use crate::requests::{
    asks, chunk_request, chunk_spec, get_remote_status, status_or_error, status_request,
    status_spec, BodyView, HttpMethod, HttpOutcome, HttpRequest, OutcomeView, RequestView,
    StatusResponse,
};
use crate::task::{
    is_log_with, logged, AgentUploadTask, LogView, TaskHandle, TaskView, UploadTaskView,
};
use crate::text::{decimal, decimal_text};
use vstd::prelude::*;
use vstd::string::*;

verus! {

/// How often a chunk is sent again after a failure.
pub const RETRY_COUNT: u64 = 2;

/// How long to wait before a chunk is sent again, in milliseconds.
pub const RETRY_PAUSE_MILLISECONDS: u64 = 800;

/// The error that stands for a cancelled upload.
pub open spec fn cancelled_text() -> Seq<char> {
    "__cancelled__"@
}

pub fn cancelled() -> (text: String)
    ensures
        text@ == cancelled_text(),
{
    "__cancelled__".to_owned()
}

pub open spec fn error_text<T>(r: Result<T, String>) -> Result<T, Seq<char>> {
    match r {
        Ok(value) => Ok(value),
        Err(error) => Err(error@),
    }
}

/// What the upload of a chunk is waiting for.
#[derive(Clone, Copy, Debug, PartialEq, Eq, Structural)]
pub enum ChunkStage {
    Reading,
    AwaitingPut,
    AwaitingStatus,
    Resting,
    Ended,
}

/// The upload of one chunk.
#[derive(Debug, PartialEq, Eq)]
pub struct ChunkUpload {
    pub upload_id: String,
    pub chunk_index: u64,
    pub stage: ChunkStage,
    /// How many bytes were read for the chunk.
    pub length: usize,
    /// How many attempts have failed.
    pub attempt: u64,
    pub last_error: String,
}

#[verifier::ext_equal]
pub struct ChunkUploadView {
    pub upload_id: Seq<char>,
    pub chunk_index: u64,
    pub stage: ChunkStage,
    pub length: usize,
    pub attempt: u64,
    pub last_error: Seq<char>,
}

impl View for ChunkUpload {
    type V = ChunkUploadView;

    open spec fn view(&self) -> ChunkUploadView {
        ChunkUploadView {
            upload_id: self.upload_id@,
            chunk_index: self.chunk_index,
            stage: self.stage,
            length: self.length,
            attempt: self.attempt,
            last_error: self.last_error@,
        }
    }
}

/// What has happened to the upload of a chunk.
#[derive(Debug, PartialEq, Eq)]
pub enum ChunkEvent {
    OpenFailed(String),
    SeekFailed(String),
    ReadFailed(String),
    /// The chunk was read, and is this long.
    Read(usize),
    PutAccepted,
    PutRefused { status: String, body: String },
    PutFailed(String),
    StatusReply(HttpOutcome<StatusResponse>),
    Rested,
}

#[verifier::ext_equal]
pub enum ChunkEventView {
    OpenFailed(Seq<char>),
    SeekFailed(Seq<char>),
    ReadFailed(Seq<char>),
    Read(usize),
    PutAccepted,
    PutRefused { status: Seq<char>, body: Seq<char> },
    PutFailed(Seq<char>),
    StatusReply(OutcomeView<Seq<u64>>),
    Rested,
}

impl View for ChunkEvent {
    type V = ChunkEventView;

    open spec fn view(&self) -> ChunkEventView {
        match self {
            ChunkEvent::OpenFailed(error) => ChunkEventView::OpenFailed(error@),
            ChunkEvent::SeekFailed(error) => ChunkEventView::SeekFailed(error@),
            ChunkEvent::ReadFailed(error) => ChunkEventView::ReadFailed(error@),
            ChunkEvent::Read(length) => ChunkEventView::Read(*length),
            ChunkEvent::PutAccepted => ChunkEventView::PutAccepted,
            ChunkEvent::PutRefused { status, body } => ChunkEventView::PutRefused {
                status: status@,
                body: body@,
            },
            ChunkEvent::PutFailed(error) => ChunkEventView::PutFailed(error@),
            ChunkEvent::StatusReply(outcome) => ChunkEventView::StatusReply(outcome@),
            ChunkEvent::Rested => ChunkEventView::Rested,
        }
    }
}

/// What to do next for the upload of a chunk.
#[derive(Debug, PartialEq, Eq)]
pub enum ChunkAction {
    /// Read this many bytes of the file from this position on.
    ReadFile { path: String, offset: u64, length: usize },
    Put(HttpRequest),
    AskStatus(HttpRequest),
    /// Wait this many milliseconds.
    Rest(u64),
    /// The upload has ended: the number of bytes sent, or an error.
    End(Result<usize, String>),
    /// The event does not fit; nothing is to be done.
    Nothing,
}

#[verifier::ext_equal]
pub enum ChunkActionView {
    ReadFile { path: Seq<char>, offset: u64, length: usize },
    Put(RequestView),
    AskStatus(RequestView),
    Rest(u64),
    End(Result<usize, Seq<char>>),
    Nothing,
}

impl View for ChunkAction {
    type V = ChunkActionView;

    open spec fn view(&self) -> ChunkActionView {
        match self {
            ChunkAction::ReadFile { path, offset, length } => ChunkActionView::ReadFile {
                path: path@,
                offset: *offset,
                length: *length,
            },
            ChunkAction::Put(request) => ChunkActionView::Put(request@),
            ChunkAction::AskStatus(request) => ChunkActionView::AskStatus(request@),
            ChunkAction::Rest(milliseconds) => ChunkActionView::Rest(*milliseconds),
            ChunkAction::End(result) => ChunkActionView::End(error_text(*result)),
            ChunkAction::Nothing => ChunkActionView::Nothing,
        }
    }
}

/// The upload of a chunk that has not yet been read.
pub open spec fn new_chunk_upload(upload_id: Seq<char>, chunk_index: u64) -> ChunkUploadView {
    ChunkUploadView {
        upload_id,
        chunk_index,
        stage: ChunkStage::Reading,
        length: 0,
        attempt: 0,
        last_error: Seq::empty(),
    }
}

pub open spec fn chunk_ended(
    chunk: ChunkUploadView,
    task: TaskView,
    result: Result<usize, Seq<char>>,
) -> (ChunkUploadView, TaskView, ChunkActionView) {
    (
        ChunkUploadView { stage: ChunkStage::Ended, ..chunk },
        task,
        ChunkActionView::End(result),
    )
}

/// An attempt to send the chunk, unless the task is to stop.
pub open spec fn chunk_attempt(
    chunk: ChunkUploadView,
    task: TaskView,
    job: UploadTaskView,
) -> (ChunkUploadView, TaskView, ChunkActionView) {
    if task.cancel_requested {
        chunk_ended(chunk, task, Err(cancelled_text()))
    } else {
        (
            ChunkUploadView { stage: ChunkStage::AwaitingPut, ..chunk },
            task,
            ChunkActionView::Put(chunk_spec(job, chunk.upload_id, chunk.chunk_index)),
        )
    }
}

/// An attempt has failed; the service is asked whether the chunk has arrived after all.
pub open spec fn chunk_doubted(
    chunk: ChunkUploadView,
    task: TaskView,
    job: UploadTaskView,
    error: Seq<char>,
) -> (ChunkUploadView, TaskView, ChunkActionView) {
    (
        ChunkUploadView { stage: ChunkStage::AwaitingStatus, last_error: error, ..chunk },
        task,
        ChunkActionView::AskStatus(status_spec(job, chunk.upload_id)),
    )
}

/// The service has said which chunks have arrived, or has not answered.
pub open spec fn chunk_judged(
    chunk: ChunkUploadView,
    task: TaskView,
    outcome: OutcomeView<Seq<u64>>,
    now: Seq<char>,
) -> (ChunkUploadView, TaskView, ChunkActionView) {
    let arrived = match status_or_error(outcome) {
        Ok(chunks) => chunks.contains(chunk.chunk_index),
        Err(_) => false,
    };
    if arrived {
        chunk_ended(
            chunk,
            logged(
                task,
                now,
                "debug"@,
                "分片已由远端状态确认成功"@,
                Some(chunk.chunk_index),
                None,
            ),
            Ok(chunk.length),
        )
    } else if chunk.attempt < RETRY_COUNT {
        (
            ChunkUploadView { stage: ChunkStage::Resting, ..chunk },
            logged(
                task,
                now,
                "warn"@,
                "分片上传失败，准备重试"@,
                Some(chunk.chunk_index),
                Some(chunk.last_error),
            ),
            ChunkActionView::Rest(RETRY_PAUSE_MILLISECONDS),
        )
    } else {
        chunk_ended(
            chunk,
            task,
            Err(
                "上传分片失败：chunk #"@ + decimal(chunk.chunk_index as nat) + " "@
                    + chunk.last_error,
            ),
        )
    }
}

/// How an event takes the upload of a chunk further.
pub open spec fn chunk_step(
    chunk: ChunkUploadView,
    task: TaskView,
    job: UploadTaskView,
    event: ChunkEventView,
    now: Seq<char>,
) -> (ChunkUploadView, TaskView, ChunkActionView) {
    match (chunk.stage, event) {
        (ChunkStage::Reading, ChunkEventView::OpenFailed(error)) => chunk_ended(
            chunk,
            task,
            Err("打开本地文件失败："@ + error),
        ),
        (ChunkStage::Reading, ChunkEventView::SeekFailed(error)) => chunk_ended(
            chunk,
            task,
            Err("定位分片失败："@ + error),
        ),
        (ChunkStage::Reading, ChunkEventView::ReadFailed(error)) => chunk_ended(
            chunk,
            task,
            Err("读取分片失败："@ + error),
        ),
        (ChunkStage::Reading, ChunkEventView::Read(length)) => chunk_attempt(
            ChunkUploadView { length, ..chunk },
            task,
            job,
        ),
        (ChunkStage::AwaitingPut, ChunkEventView::PutAccepted) => chunk_ended(
            chunk,
            task,
            Ok(chunk.length),
        ),
        (ChunkStage::AwaitingPut, ChunkEventView::PutRefused { status, body }) => chunk_doubted(
            chunk,
            task,
            job,
            "HTTP "@ + status + " "@ + body,
        ),
        (ChunkStage::AwaitingPut, ChunkEventView::PutFailed(error)) => chunk_doubted(
            chunk,
            task,
            job,
            error,
        ),
        (ChunkStage::AwaitingStatus, ChunkEventView::StatusReply(outcome)) => chunk_judged(
            chunk,
            task,
            outcome,
            now,
        ),
        (ChunkStage::Resting, ChunkEventView::Rested) => chunk_attempt(
            ChunkUploadView { attempt: (chunk.attempt + 1) as u64, ..chunk },
            task,
            job,
        ),
        _ => (chunk, task, ChunkActionView::Nothing),
    }
}

/// What the upload of a chunk begins with: the bytes of the chunk are read from the file.
pub open spec fn chunk_reading(
    job: UploadTaskView,
    chunk_index: u64,
    chunk_size: u64,
) -> ChunkActionView {
    let start = chunk_start(chunk_size as int, chunk_index as int);
    ChunkActionView::ReadFile {
        path: job.local_file_path,
        offset: if start <= u64::MAX {
            start as u64
        } else {
            u64::MAX
        },
        length: chunk_bytes(job.file_size as int, chunk_size as int, chunk_index as int) as usize,
    }
}

impl ChunkUpload {
    /// At most the allowed number of retries has been made.
    pub open spec fn wf(self) -> bool {
        self@.attempts_left()
    }

    /// Starts the upload of a chunk by having it read.
    pub fn begin(
        handle: &mut TaskHandle,
        task: &AgentUploadTask,
        upload_id: &str,
        chunk_index: u64,
        chunk_size: u64,
        now: &str,
    ) -> (r: (ChunkUpload, ChunkAction))
        ensures
            r.0@ == new_chunk_upload(upload_id@, chunk_index),
            r.0.wf(),
            r.1@ == chunk_reading(task@, chunk_index, chunk_size),
            final(handle)@ == logged(
                old(handle)@,
                now@,
                "debug"@,
                "分片开始上传"@,
                Some(chunk_index),
                Some("chunkSize="@ + decimal(chunk_size as nat)),
            ),
            r.1 matches ChunkAction::ReadFile { path, offset, length } && {
                &&& path@ == task@.local_file_path
                &&& offset == (if chunk_start(chunk_size as int, chunk_index as int) <= u64::MAX {
                    chunk_start(chunk_size as int, chunk_index as int)
                } else {
                    u64::MAX as int
                })
                &&& length == chunk_bytes(
                    task@.file_size as int,
                    chunk_size as int,
                    chunk_index as int,
                ) as usize
                &&& length <= chunk_bytes(
                    task@.file_size as int,
                    chunk_size as int,
                    chunk_index as int,
                )
            },
    {
        let size_text = decimal_text(chunk_size);
        handle.append_log(
            now,
            "debug",
            "分片开始上传",
            Some(chunk_index),
            Some("chunkSize=".to_owned().concat(size_text.as_str())),
        );
        let chunk = ChunkUpload {
            upload_id: upload_id.to_owned(),
            chunk_index,
            stage: ChunkStage::Reading,
            length: 0,
            attempt: 0,
            last_error: String::new(),
        };
        let action = ChunkAction::ReadFile {
            path: task.local_file_path.clone(),
            offset: chunk_offset(chunk_size, chunk_index),
            length: get_chunk_length(task.file_size, chunk_size, chunk_index),
        };
        (chunk, action)
    }

    fn end(&mut self, result: Result<usize, String>) -> (action: ChunkAction)
        ensures
            final(self)@ == (ChunkUploadView { stage: ChunkStage::Ended, ..old(self)@ }),
            action@ == ChunkActionView::End(error_text(result)),
    {
        self.stage = ChunkStage::Ended;
        ChunkAction::End(result)
    }

    fn start_attempt(&mut self, handle: &TaskHandle, task: &AgentUploadTask) -> (action:
        ChunkAction)
        ensures
            (final(self)@, handle@, action@) == chunk_attempt(old(self)@, handle@, task@),
    {
        if handle.cancel_requested {
            self.end(Err(cancelled()))
        } else {
            self.stage = ChunkStage::AwaitingPut;
            ChunkAction::Put(chunk_request(task, self.upload_id.as_str(), self.chunk_index))
        }
    }

    fn doubt(&mut self, task: &AgentUploadTask, error: String) -> (action: ChunkAction)
        ensures
            final(self)@ == (ChunkUploadView {
                stage: ChunkStage::AwaitingStatus,
                last_error: error@,
                ..old(self)@
            }),
            action@ == ChunkActionView::AskStatus(status_spec(task@, old(self)@.upload_id)),
    {
        self.stage = ChunkStage::AwaitingStatus;
        self.last_error = error;
        ChunkAction::AskStatus(status_request(task, self.upload_id.as_str()))
    }

    fn judge(
        &mut self,
        handle: &mut TaskHandle,
        outcome: HttpOutcome<StatusResponse>,
        now: &str,
    ) -> (action: ChunkAction)
        ensures
            (final(self)@, final(handle)@, action@) == chunk_judged(
                old(self)@,
                old(handle)@,
                outcome@,
                now@,
            ),
    {
        let arrived = match get_remote_status(outcome) {
            Ok(status) => holds(&status.completed_chunks, self.chunk_index),
            Err(_) => false,
        };
        if arrived {
            handle.append_log(
                now,
                "debug",
                "分片已由远端状态确认成功",
                Some(self.chunk_index),
                None,
            );
            self.end(Ok(self.length))
        } else if self.attempt < RETRY_COUNT {
            handle.append_log(
                now,
                "warn",
                "分片上传失败，准备重试",
                Some(self.chunk_index),
                Some(self.last_error.clone()),
            );
            self.stage = ChunkStage::Resting;
            ChunkAction::Rest(RETRY_PAUSE_MILLISECONDS)
        } else {
            let index_text = decimal_text(self.chunk_index);
            let error = "上传分片失败：chunk #".to_owned().concat(index_text.as_str()).concat(
                " ",
            ).concat(self.last_error.as_str());
            self.end(Err(error))
        }
    }

    /// Takes the upload of a chunk one event further.
    pub fn step(
        &mut self,
        handle: &mut TaskHandle,
        task: &AgentUploadTask,
        event: ChunkEvent,
        now: &str,
    ) -> (action: ChunkAction)
        requires
            old(self).wf(),
        ensures
            final(self).wf(),
            (final(self)@, final(handle)@, action@) == chunk_step(
                old(self)@,
                old(handle)@,
                task@,
                event@,
                now@,
            ),
    {
        match self.stage {
            ChunkStage::Reading => match event {
                ChunkEvent::OpenFailed(error) => self.end(
                    Err("打开本地文件失败：".to_owned().concat(error.as_str())),
                ),
                ChunkEvent::SeekFailed(error) => self.end(
                    Err("定位分片失败：".to_owned().concat(error.as_str())),
                ),
                ChunkEvent::ReadFailed(error) => self.end(
                    Err("读取分片失败：".to_owned().concat(error.as_str())),
                ),
                ChunkEvent::Read(length) => {
                    self.length = length;
                    self.start_attempt(handle, task)
                },
                _ => ChunkAction::Nothing,
            },
            ChunkStage::AwaitingPut => match event {
                ChunkEvent::PutAccepted => self.end(Ok(self.length)),
                ChunkEvent::PutRefused { status, body } => {
                    let error = "HTTP ".to_owned().concat(status.as_str()).concat(" ").concat(
                        body.as_str(),
                    );
                    self.doubt(task, error)
                },
                ChunkEvent::PutFailed(error) => self.doubt(task, error),
                _ => ChunkAction::Nothing,
            },
            ChunkStage::AwaitingStatus => match event {
                ChunkEvent::StatusReply(outcome) => self.judge(handle, outcome, now),
                _ => ChunkAction::Nothing,
            },
            ChunkStage::Resting => match event {
                ChunkEvent::Rested => {
                    self.attempt = self.attempt + 1;
                    self.start_attempt(handle, task)
                },
                _ => ChunkAction::Nothing,
            },
            ChunkStage::Ended => ChunkAction::Nothing,
        }
    }
}

impl ChunkUploadView {
    pub open spec fn attempts_left(self) -> bool {
        &&& self.attempt <= RETRY_COUNT
        &&& self.stage is Resting ==> self.attempt < RETRY_COUNT
    }
}

/// Whether `list` holds `value`.
pub fn holds(list: &Vec<u64>, value: u64) -> (r: bool)
    ensures
        r == list@.contains(value),
{
    let mut i: usize = 0;
    while i < list.len()
        invariant
            i <= list@.len(),
            forall|j: int| 0 <= j < i ==> list@[j] != value,
        decreases list.len() - i,
    {
        if list[i] == value {
            return true;
        }
        i = i + 1;
    }
    false
}

/// How often the chunk is sent over a run of events, each with the task as it stands
/// when the event comes, and the time.
pub open spec fn puts_over(
    chunk: ChunkUploadView,
    job: UploadTaskView,
    events: Seq<(TaskView, ChunkEventView, Seq<char>)>,
) -> nat
    decreases events.len(),
{
    if events.len() == 0 {
        0
    } else {
        let (task, event, now) = events[0];
        let (next, next_task, action) = chunk_step(chunk, task, job, event, now);
        let sent: nat = if action is Put {
            1
        } else {
            0
        };
        sent + puts_over(next, job, events.drop_first())
    }
}

proof fn lemma_puts_bounded(
    chunk: ChunkUploadView,
    job: UploadTaskView,
    events: Seq<(TaskView, ChunkEventView, Seq<char>)>,
)
    requires
        chunk.attempts_left(),
    ensures
        puts_over(chunk, job, events) + chunk.attempt + (if chunk.stage is Reading {
            0int
        } else {
            1
        }) <= RETRY_COUNT + 1,
    decreases events.len(),
{
    if events.len() > 0 {
        let (task, event, now) = events[0];
        let (next, next_task, action) = chunk_step(chunk, task, job, event, now);
        lemma_puts_bounded(next, job, events.drop_first());
    }
}

/// Whatever happens, a chunk is sent three times at most: once, and once more for each
/// retry.
pub proof fn law_chunk_sent_three_times_at_most(
    upload_id: Seq<char>,
    chunk_index: u64,
    job: UploadTaskView,
    events: Seq<(TaskView, ChunkEventView, Seq<char>)>,
)
    ensures
        puts_over(new_chunk_upload(upload_id, chunk_index), job, events) <= 3,
{
    lemma_puts_bounded(new_chunk_upload(upload_id, chunk_index), job, events);
}

/// A chunk is given up for a failure of the service only after the last retry, and never
/// where the service reports that it has arrived.
pub proof fn law_chunk_given_up_only_after_retries(
    chunk: ChunkUploadView,
    task: TaskView,
    job: UploadTaskView,
    event: ChunkEventView,
    now: Seq<char>,
)
    requires
        chunk.attempts_left(),
        chunk.stage is AwaitingStatus,
        event is StatusReply,
    ensures
        ({
            let (next, next_task, action) = chunk_step(chunk, task, job, event, now);
            &&& (action matches ChunkActionView::End(Err(_)) ==> chunk.attempt == RETRY_COUNT)
            &&& (event matches ChunkEventView::StatusReply(OutcomeView::Received(chunks))
                && chunks.contains(chunk.chunk_index) ==> action == ChunkActionView::End(
                Ok(chunk.length),
            ))
        }),
{
}

/// The event is one that the stage waits for.
pub open spec fn is_awaited(stage: ChunkStage, event: ChunkEventView) -> bool {
    match stage {
        ChunkStage::Reading => event is OpenFailed || event is SeekFailed || event is ReadFailed
            || event is Read,
        ChunkStage::AwaitingPut => event is PutAccepted || event is PutRefused || event
            is PutFailed,
        ChunkStage::AwaitingStatus => event is StatusReply,
        ChunkStage::Resting => event is Rested,
        ChunkStage::Ended => false,
    }
}

/// The service has said that the chunk has arrived.
pub open spec fn confirms(event: ChunkEventView, index: u64) -> bool {
    event matches ChunkEventView::StatusReply(OutcomeView::Received(chunks)) && chunks.contains(
        index,
    )
}

/// The upload of a chunk ends well exactly where the service accepts the chunk, or answers,
/// when asked, that it has arrived; and it then reports the bytes that were read.
pub proof fn law_chunk_ends_well_only_when_arrived(
    chunk: ChunkUploadView,
    task: TaskView,
    job: UploadTaskView,
    event: ChunkEventView,
    now: Seq<char>,
)
    ensures
        ({
            let (next, next_task, action) = chunk_step(chunk, task, job, event, now);
            &&& (action matches ChunkActionView::End(Ok(_))) <==> (chunk.stage is AwaitingPut
                && event is PutAccepted) || (chunk.stage is AwaitingStatus && confirms(
                event,
                chunk.chunk_index,
            ))
            &&& (action matches ChunkActionView::End(Ok(length)) ==> length == chunk.length
                && next.stage is Ended)
            &&& (chunk.stage is AwaitingPut && event is PutAccepted ==> next_task == task)
            &&& (chunk.stage is AwaitingStatus && confirms(event, chunk.chunk_index)
                ==> is_log_with(
                task.logs,
                next_task.logs,
                LogView {
                    timestamp: now,
                    level: "debug"@,
                    message: "分片已由远端状态确认成功"@,
                    chunk_index: Some(chunk.chunk_index),
                    detail: None,
                },
            ))
        }),
{
}

/// A chunk that the service does not confirm, whatever it answers, rests for 800
/// milliseconds and is noted as failed while fewer than two retries have been made, and is
/// given up with the error of its last attempt after that.
pub proof fn law_unconfirmed_chunk_is_tried_again(
    chunk: ChunkUploadView,
    task: TaskView,
    job: UploadTaskView,
    event: ChunkEventView,
    now: Seq<char>,
)
    requires
        chunk.stage is AwaitingStatus,
        event is StatusReply,
        !confirms(event, chunk.chunk_index),
    ensures
        ({
            let (next, next_task, action) = chunk_step(chunk, task, job, event, now);
            if chunk.attempt < 2 {
                &&& action == ChunkActionView::Rest(800)
                &&& next.stage is Resting
                &&& is_log_with(
                    task.logs,
                    next_task.logs,
                    LogView {
                        timestamp: now,
                        level: "warn"@,
                        message: "分片上传失败，准备重试"@,
                        chunk_index: Some(chunk.chunk_index),
                        detail: Some(chunk.last_error),
                    },
                )
            } else {
                &&& action == ChunkActionView::End(
                    Err(
                        "上传分片失败：chunk #"@ + decimal(chunk.chunk_index as nat) + " "@
                            + chunk.last_error,
                    ),
                )
                &&& next.stage is Ended
                &&& next_task == task
            }
        }),
{
}

/// After an attempt that was refused or failed, the service is asked for the chunks of the
/// session, and the cause is kept as the error of the chunk.
pub proof fn law_failed_attempt_is_asked_about(
    chunk: ChunkUploadView,
    task: TaskView,
    job: UploadTaskView,
    event: ChunkEventView,
    now: Seq<char>,
)
    requires
        chunk.stage is AwaitingPut,
        event is PutRefused || event is PutFailed,
    ensures
        ({
            let (next, next_task, action) = chunk_step(chunk, task, job, event, now);
            &&& next.stage is AwaitingStatus
            &&& next_task == task
            &&& (action matches ChunkActionView::AskStatus(request) && asks(
                request,
                HttpMethod::Get,
                job.base_url + "/api/upload/video/status?uploadId="@ + chunk.upload_id,
                job.api_token,
                BodyView::Nothing,
            ))
            &&& (event matches ChunkEventView::PutRefused { status, body } ==> next.last_error
                == "HTTP "@ + status + " "@ + body)
            &&& (event matches ChunkEventView::PutFailed(error) ==> next.last_error == error)
        }),
{
}

/// A chunk that has been read, or has rested, is sent under its session and index, and the
/// retry is counted; where the task is to stop, it ends as cancelled and is not sent.
pub proof fn law_chunk_is_sent_unless_cancelled(
    chunk: ChunkUploadView,
    task: TaskView,
    job: UploadTaskView,
    event: ChunkEventView,
    now: Seq<char>,
)
    requires
        chunk.attempts_left(),
        chunk.stage is Reading && event is Read || chunk.stage is Resting && event is Rested,
    ensures
        ({
            let (next, next_task, action) = chunk_step(chunk, task, job, event, now);
            &&& next_task == task
            &&& (event matches ChunkEventView::Read(length) ==> next.length == length
                && next.attempt == chunk.attempt)
            &&& (event is Rested ==> next.length == chunk.length && next.attempt == chunk.attempt
                + 1)
            &&& next.last_error == chunk.last_error
            &&& if task.cancel_requested {
                action == ChunkActionView::End(Err("__cancelled__"@)) && next.stage is Ended
            } else {
                &&& next.stage is AwaitingPut
                &&& action == ChunkActionView::Put(
                    chunk_spec(job, chunk.upload_id, chunk.chunk_index),
                )
            }
        }),
{
}

/// A chunk that cannot be read ends with an error that says which step failed, and why.
pub proof fn law_unread_chunk_ends(
    chunk: ChunkUploadView,
    task: TaskView,
    job: UploadTaskView,
    event: ChunkEventView,
    now: Seq<char>,
)
    requires
        chunk.stage is Reading,
    ensures
        ({
            let (next, next_task, action) = chunk_step(chunk, task, job, event, now);
            &&& (event matches ChunkEventView::OpenFailed(error) ==> action == ChunkActionView::End(
                Err("打开本地文件失败："@ + error),
            ) && next.stage is Ended && next_task == task)
            &&& (event matches ChunkEventView::SeekFailed(error) ==> action == ChunkActionView::End(
                Err("定位分片失败："@ + error),
            ) && next.stage is Ended && next_task == task)
            &&& (event matches ChunkEventView::ReadFailed(error) ==> action == ChunkActionView::End(
                Err("读取分片失败："@ + error),
            ) && next.stage is Ended && next_task == task)
        }),
{
}

/// An event that is not awaited changes nothing, and nothing is done about it; one that is
/// awaited never goes without an answer. The chunk stays that of its session and index.
pub proof fn law_only_awaited_events_count(
    chunk: ChunkUploadView,
    task: TaskView,
    job: UploadTaskView,
    event: ChunkEventView,
    now: Seq<char>,
)
    ensures
        ({
            let (next, next_task, action) = chunk_step(chunk, task, job, event, now);
            &&& action is Nothing <==> !is_awaited(chunk.stage, event)
            &&& (action is Nothing ==> next == chunk && next_task == task)
            &&& next.upload_id == chunk.upload_id
            &&& next.chunk_index == chunk.chunk_index
            &&& !(action is ReadFile)
            &&& next_task.snapshot == task.snapshot
            &&& next_task.cancel_requested == task.cancel_requested
            &&& next_task.active_pid == task.active_pid
        }),
{
}

/// A chunk whose upload begins is to be read, and has been tried no time yet.
pub proof fn law_new_chunk_is_to_be_read(upload_id: Seq<char>, chunk_index: u64)
    ensures
        ({
            let chunk = new_chunk_upload(upload_id, chunk_index);
            &&& chunk.upload_id == upload_id
            &&& chunk.chunk_index == chunk_index
            &&& chunk.stage is Reading
            &&& chunk.attempt == 0
            &&& chunk.attempts_left()
        }),
{
}

/// The bytes that are read for a chunk are those of the chunk: they start at its place in the
/// file, are as many as it has there, and those of the next chunk follow them.
pub proof fn law_chunk_is_read_from_its_place(job: UploadTaskView, index: u64, chunk_size: u64)
    requires
        chunk_size >= 1,
        index < u64::MAX,
        (index + 1) * chunk_size <= u64::MAX,
        job.file_size <= usize::MAX,
    ensures
        chunk_reading(job, index, chunk_size) matches ChunkActionView::ReadFile {
            path,
            offset,
            length,
        } && {
            &&& path == job.local_file_path
            &&& offset == index * chunk_size
            &&& (offset + chunk_size <= job.file_size ==> length == chunk_size)
            &&& (offset <= job.file_size < offset + chunk_size ==> offset + length
                == job.file_size)
            &&& (offset >= job.file_size ==> length == 0)
            &&& (length == chunk_size ==> (chunk_reading(job, (index + 1) as u64, chunk_size)
                matches ChunkActionView::ReadFile { offset: next, .. } && next == offset
                + length))
        },
{
    law_chunks_follow_each_other(job.file_size as int, chunk_size as int, index as int);
    assert(index * chunk_size <= (index + 1) * chunk_size) by (nonlinear_arith)
        requires
            chunk_size >= 1,
            index >= 0,
    ;
}

} // verus!
