//! Upload tasks: what is known of one, and the log that it keeps.
use crate::outside::unix_seconds;
use crate::text::{
    decimal, decimal_text, digits_value, is_blank, keep_last, last_of, law_decimal_is_read_back,
    lemma_trimmed_blank, lemma_trimmed_keeps_content, parsed_u64, text_option, texts, trim, trimmed,
};
use vstd::prelude::*;
use vstd::string::*;

verus! {

/// How many log entries a task keeps.
pub const LOG_LIMIT: usize = 200;

/// How many lines of a child process's output are kept.
pub const OUTPUT_TAIL_LIMIT: usize = 20;

#[derive(Clone, Copy, Debug, PartialEq, Eq, Structural)]
pub enum AgentTaskStatus {
    Queued,
    Uploading,
    Finalizing,
    Completed,
    Cancelled,
    Failed,
}

impl AgentTaskStatus {
    /// A task in this state has come to its end.
    pub open spec fn ended(self) -> bool {
        self is Completed || self is Cancelled || self is Failed
    }

    pub fn is_ended(self) -> (r: bool)
        ensures
            r == self.ended(),
    {
        match self {
            AgentTaskStatus::Completed => true,
            AgentTaskStatus::Cancelled => true,
            AgentTaskStatus::Failed => true,
            _ => false,
        }
    }
}

/// A percentage that is shown to the user.
#[derive(Clone, Copy, Debug, PartialEq, Eq, Structural)]
pub enum Progress {
    /// This many percent.
    Fixed(u8),
    /// `part` of `whole` as a percentage, but at most `cap`.
    Capped { part: u64, whole: u64, cap: u8 },
    /// `part` of `whole` as a percentage, but at least `low` and at most `high`.
    Clamped { part: u64, whole: u64, low: u8, high: u8 },
}

impl Progress {
    /// The percentage is at most `limit`.
    pub open spec fn at_most(self, limit: int) -> bool {
        match self {
            Progress::Fixed(percent) => percent <= limit,
            Progress::Capped { part, whole, cap } => cap <= limit || (whole > 0 && 100 * part
                <= limit * whole),
            Progress::Clamped { part, whole, low, high } => low <= limit && (high <= limit || (
            whole > 0 && 100 * part <= limit * whole)),
        }
    }
}

/// A span of time.
#[derive(Clone, Copy, Debug, PartialEq, Eq, Structural)]
pub struct Elapsed {
    pub nanoseconds: u128,
}

impl Elapsed {
    /// The time between an earlier reading and this one, none where the clock ran back.
    pub open spec fn after(self, earlier: Elapsed) -> Elapsed {
        Elapsed {
            nanoseconds: if self.nanoseconds < earlier.nanoseconds {
                0
            } else {
                (self.nanoseconds - earlier.nanoseconds) as u128
            },
        }
    }

    pub fn since(self, earlier: Elapsed) -> (r: Elapsed)
        ensures
            r == self.after(earlier),
    {
        if self.nanoseconds < earlier.nanoseconds {
            Elapsed { nanoseconds: 0 }
        } else {
            Elapsed { nanoseconds: self.nanoseconds - earlier.nanoseconds }
        }
    }
}

/// A transfer rate that is shown to the user.
#[derive(Clone, Copy, Debug, PartialEq, Eq, Structural)]
pub enum Speed {
    Idle,
    /// `bytes` within a span of time, which counts as one millisecond at least.
    Average { bytes: u64, within: Elapsed },
}

#[derive(Debug, PartialEq, Eq)]
pub struct UploadTaskResult {
    pub url: String,
    pub filename: String,
    pub local_path: Option<String>,
    pub gcs_gs_uri: Option<String>,
    pub asset_id: Option<String>,
}

#[verifier::ext_equal]
pub struct ResultView {
    pub url: Seq<char>,
    pub filename: Seq<char>,
    pub local_path: Option<Seq<char>>,
    pub gcs_gs_uri: Option<Seq<char>>,
    pub asset_id: Option<Seq<char>>,
}

impl View for UploadTaskResult {
    type V = ResultView;

    open spec fn view(&self) -> ResultView {
        ResultView {
            url: self.url@,
            filename: self.filename@,
            local_path: text_option(self.local_path),
            gcs_gs_uri: text_option(self.gcs_gs_uri),
            asset_id: text_option(self.asset_id),
        }
    }
}

pub open spec fn result_option(result: Option<UploadTaskResult>) -> Option<ResultView> {
    match result {
        Some(r) => Some(r@),
        None => None,
    }
}

pub fn copy_option(text: &Option<String>) -> (r: Option<String>)
    ensures
        text_option(r) == text_option(*text),
{
    match text {
        Some(s) => Some(s.clone()),
        None => None,
    }
}

impl Clone for UploadTaskResult {
    fn clone(&self) -> (r: Self)
        ensures
            r@ == self@,
    {
        UploadTaskResult {
            url: self.url.clone(),
            filename: self.filename.clone(),
            local_path: copy_option(&self.local_path),
            gcs_gs_uri: copy_option(&self.gcs_gs_uri),
            asset_id: copy_option(&self.asset_id),
        }
    }
}

/// What is shown of a task.
#[derive(Debug, PartialEq, Eq)]
pub struct AgentTaskSnapshot {
    pub task_id: String,
    pub status: AgentTaskStatus,
    pub file_name: String,
    pub file_size: u64,
    pub uploaded_bytes: u64,
    pub total_bytes: u64,
    pub progress: Progress,
    pub speed_bytes_per_second: Speed,
    pub upload_id: Option<String>,
    pub gs_uri: Option<String>,
    pub object_name: Option<String>,
    pub error: Option<String>,
    pub result: Option<UploadTaskResult>,
}

#[verifier::ext_equal]
pub struct SnapshotView {
    pub task_id: Seq<char>,
    pub status: AgentTaskStatus,
    pub file_name: Seq<char>,
    pub file_size: u64,
    pub uploaded_bytes: u64,
    pub total_bytes: u64,
    pub progress: Progress,
    pub speed_bytes_per_second: Speed,
    pub upload_id: Option<Seq<char>>,
    pub gs_uri: Option<Seq<char>>,
    pub object_name: Option<Seq<char>>,
    pub error: Option<Seq<char>>,
    pub result: Option<ResultView>,
}

impl View for AgentTaskSnapshot {
    type V = SnapshotView;

    open spec fn view(&self) -> SnapshotView {
        SnapshotView {
            task_id: self.task_id@,
            status: self.status,
            file_name: self.file_name@,
            file_size: self.file_size,
            uploaded_bytes: self.uploaded_bytes,
            total_bytes: self.total_bytes,
            progress: self.progress,
            speed_bytes_per_second: self.speed_bytes_per_second,
            upload_id: text_option(self.upload_id),
            gs_uri: text_option(self.gs_uri),
            object_name: text_option(self.object_name),
            error: text_option(self.error),
            result: result_option(self.result),
        }
    }
}

impl Clone for AgentTaskSnapshot {
    fn clone(&self) -> (r: Self)
        ensures
            r@ == self@,
    {
        AgentTaskSnapshot {
            task_id: self.task_id.clone(),
            status: self.status,
            file_name: self.file_name.clone(),
            file_size: self.file_size,
            uploaded_bytes: self.uploaded_bytes,
            total_bytes: self.total_bytes,
            progress: self.progress,
            speed_bytes_per_second: self.speed_bytes_per_second,
            upload_id: copy_option(&self.upload_id),
            gs_uri: copy_option(&self.gs_uri),
            object_name: copy_option(&self.object_name),
            error: copy_option(&self.error),
            result: match &self.result {
                Some(result) => Some(result.clone()),
                None => None,
            },
        }
    }
}

/// The snapshot of a task that has just been created.
pub open spec fn fresh_snapshot(
    task_id: Seq<char>,
    file_name: Seq<char>,
    file_size: u64,
) -> SnapshotView {
    SnapshotView {
        task_id,
        status: AgentTaskStatus::Queued,
        file_name,
        file_size,
        uploaded_bytes: 0,
        total_bytes: file_size,
        progress: Progress::Fixed(0),
        speed_bytes_per_second: Speed::Idle,
        upload_id: None,
        gs_uri: None,
        object_name: None,
        error: None,
        result: None,
    }
}

/// One line of a task's log.
#[derive(Debug, PartialEq, Eq)]
pub struct TaskLogEntry {
    pub timestamp: String,
    pub level: String,
    pub message: String,
    pub chunk_index: Option<u64>,
    pub detail: Option<String>,
}

#[verifier::ext_equal]
pub struct LogView {
    pub timestamp: Seq<char>,
    pub level: Seq<char>,
    pub message: Seq<char>,
    pub chunk_index: Option<u64>,
    pub detail: Option<Seq<char>>,
}

impl View for TaskLogEntry {
    type V = LogView;

    open spec fn view(&self) -> LogView {
        LogView {
            timestamp: self.timestamp@,
            level: self.level@,
            message: self.message@,
            chunk_index: self.chunk_index,
            detail: text_option(self.detail),
        }
    }
}

impl Clone for TaskLogEntry {
    fn clone(&self) -> (r: Self)
        ensures
            r@ == self@,
    {
        TaskLogEntry {
            timestamp: self.timestamp.clone(),
            level: self.level.clone(),
            message: self.message.clone(),
            chunk_index: self.chunk_index,
            detail: copy_option(&self.detail),
        }
    }
}

pub open spec fn log_views(logs: Seq<TaskLogEntry>) -> Seq<LogView> {
    logs.map_values(|entry: TaskLogEntry| entry@)
}

/// The state of a running task: what is shown of it, whether it is to stop, the child
/// process that works for it, and its log.
#[derive(Debug, PartialEq, Eq)]
pub struct TaskHandle {
    pub snapshot: AgentTaskSnapshot,
    pub cancel_requested: bool,
    pub active_pid: Option<u32>,
    pub logs: Vec<TaskLogEntry>,
}

#[verifier::ext_equal]
pub struct TaskView {
    pub snapshot: SnapshotView,
    pub cancel_requested: bool,
    pub active_pid: Option<u32>,
    pub logs: Seq<LogView>,
}

impl View for TaskHandle {
    type V = TaskView;

    open spec fn view(&self) -> TaskView {
        TaskView {
            snapshot: self.snapshot@,
            cancel_requested: self.cancel_requested,
            active_pid: self.active_pid,
            logs: log_views(self.logs@),
        }
    }
}

/// The state of a task that has just been created.
pub open spec fn fresh_task(task_id: Seq<char>, file_name: Seq<char>, file_size: u64) -> TaskView {
    TaskView {
        snapshot: fresh_snapshot(task_id, file_name, file_size),
        cancel_requested: false,
        active_pid: None,
        logs: Seq::empty(),
    }
}

/// `task` with one more log entry, the oldest being dropped beyond the limit.
pub open spec fn logged(
    task: TaskView,
    now: Seq<char>,
    level: Seq<char>,
    message: Seq<char>,
    chunk_index: Option<u64>,
    detail: Option<Seq<char>>,
) -> TaskView {
    let entry = LogView { timestamp: now, level, message, chunk_index, detail };
    TaskView { logs: last_of(task.logs.push(entry), LOG_LIMIT as int), ..task }
}

impl TaskHandle {
    pub fn new(task_id: &str, file_name: &str, file_size: u64) -> (handle: Self)
        ensures
            handle@ == fresh_task(task_id@, file_name@, file_size),
    {
        let handle = TaskHandle {
            snapshot: AgentTaskSnapshot {
                task_id: task_id.to_owned(),
                status: AgentTaskStatus::Queued,
                file_name: file_name.to_owned(),
                file_size,
                uploaded_bytes: 0,
                total_bytes: file_size,
                progress: Progress::Fixed(0),
                speed_bytes_per_second: Speed::Idle,
                upload_id: None,
                gs_uri: None,
                object_name: None,
                error: None,
                result: None,
            },
            cancel_requested: false,
            active_pid: None,
            logs: Vec::new(),
        };
        assert(handle@.logs == Seq::<LogView>::empty());
        handle
    }

    /// Appends an entry to the log and drops the oldest beyond the limit.
    pub fn append_log(
        &mut self,
        now: &str,
        level: &str,
        message: &str,
        chunk_index: Option<u64>,
        detail: Option<String>,
    )
        ensures
            final(self)@ == logged(
                old(self)@,
                now@,
                level@,
                message@,
                chunk_index,
                text_option(detail),
            ),
    {
        let ghost before = self@;
        let ghost note = text_option(detail);
        self.logs.push(
            TaskLogEntry {
                timestamp: now.to_owned(),
                level: level.to_owned(),
                message: message.to_owned(),
                chunk_index,
                detail,
            },
        );
        let ghost longer = self.logs@;
        keep_last(&mut self.logs, LOG_LIMIT);
        proof {
            let entry = LogView {
                timestamp: now@,
                level: level@,
                message: message@,
                chunk_index,
                detail: note,
            };
            assert(log_views(longer) =~= before.logs.push(entry));
            assert(log_views(self.logs@) =~= last_of(before.logs.push(entry), LOG_LIMIT as int));
        }
    }

    /// The log, oldest entry first.
    pub fn get_logs(&self) -> (logs: Vec<TaskLogEntry>)
        ensures
            log_views(logs@) == self@.logs,
    {
        let mut logs: Vec<TaskLogEntry> = Vec::new();
        let mut i: usize = 0;
        while i < self.logs.len()
            invariant
                i <= self.logs@.len(),
                log_views(logs@) == log_views(self.logs@).take(i as int),
            decreases self.logs.len() - i,
        {
            let ghost before = logs@;
            logs.push(self.logs[i].clone());
            i = i + 1;
            assert(log_views(logs@) =~= log_views(before).push(self.logs@[i - 1]@));
            assert(log_views(self.logs@).take(i as int) =~= log_views(self.logs@).take(i - 1).push(
                self.logs@[i - 1]@,
            ));
        }
        assert(log_views(self.logs@).take(i as int) =~= log_views(self.logs@));
        logs
    }

    /// Records how far the chunks of an upload have come.
    pub fn update_progress_snapshot(
        &mut self,
        upload_id: &str,
        total_uploaded_bytes: u64,
        file_size: u64,
        elapsed: Elapsed,
    )
        ensures
            final(self)@ == with_progress(
                old(self)@,
                upload_id@,
                total_uploaded_bytes,
                file_size,
                elapsed,
            ),
    {
        self.snapshot.status = AgentTaskStatus::Uploading;
        self.snapshot.upload_id = Some(upload_id.to_owned());
        self.snapshot.uploaded_bytes = total_uploaded_bytes;
        self.snapshot.total_bytes = file_size;
        self.snapshot.progress =
        Progress::Capped { part: total_uploaded_bytes, whole: file_size, cap: 99 };
        self.snapshot.speed_bytes_per_second =
        Speed::Average { bytes: total_uploaded_bytes, within: elapsed };
    }
}

/// `task` while the chunks of its upload are under way.
pub open spec fn with_progress(
    task: TaskView,
    upload_id: Seq<char>,
    total_uploaded_bytes: u64,
    file_size: u64,
    elapsed: Elapsed,
) -> TaskView {
    TaskView {
        snapshot: SnapshotView {
            status: AgentTaskStatus::Uploading,
            upload_id: Some(upload_id),
            uploaded_bytes: total_uploaded_bytes,
            total_bytes: file_size,
            progress: Progress::Capped { part: total_uploaded_bytes, whole: file_size, cap: 99 },
            speed_bytes_per_second: Speed::Average { bytes: total_uploaded_bytes, within: elapsed },
            ..task.snapshot
        },
        ..task
    }
}

/// An upload that has been asked for: what to send, and where to.
#[derive(Debug, PartialEq, Eq)]
pub struct AgentUploadTask {
    pub task_id: String,
    pub base_url: String,
    pub file_name: String,
    pub file_size: u64,
    pub mime_type: String,
    pub local_file_path: String,
    pub api_token: String,
    pub bucket_name: Option<String>,
    pub object_prefix: Option<String>,
}

#[verifier::ext_equal]
pub struct UploadTaskView {
    pub task_id: Seq<char>,
    pub base_url: Seq<char>,
    pub file_name: Seq<char>,
    pub file_size: u64,
    pub mime_type: Seq<char>,
    pub local_file_path: Seq<char>,
    pub api_token: Seq<char>,
    pub bucket_name: Option<Seq<char>>,
    pub object_prefix: Option<Seq<char>>,
}

impl View for AgentUploadTask {
    type V = UploadTaskView;

    open spec fn view(&self) -> UploadTaskView {
        UploadTaskView {
            task_id: self.task_id@,
            base_url: self.base_url@,
            file_name: self.file_name@,
            file_size: self.file_size,
            mime_type: self.mime_type@,
            local_file_path: self.local_file_path@,
            api_token: self.api_token@,
            bucket_name: text_option(self.bucket_name),
            object_prefix: text_option(self.object_prefix),
        }
    }
}

/// Keeps the last lines of a child process's output, trimmed, without blank ones.
pub fn append_output_tail(output_tail: &mut Vec<String>, line: &str)
    ensures
        texts(final(output_tail)@) == tail_with(texts(old(output_tail)@), line@),
{
    let trimmed_line = trim(line);
    if trimmed_line.is_empty() {
        return;
    }
    let ghost before = output_tail@;
    output_tail.push(trimmed_line.to_owned());
    let ghost longer = output_tail@;
    keep_last(output_tail, OUTPUT_TAIL_LIMIT);
    proof {
        assert(texts(longer) =~= texts(before).push(trimmed(line@)));
        assert(texts(output_tail@) =~= last_of(texts(longer), OUTPUT_TAIL_LIMIT as int));
    }
}

pub open spec fn tail_with(tail: Seq<Seq<char>>, line: Seq<char>) -> Seq<Seq<char>> {
    if trimmed(line).len() == 0 {
        tail
    } else {
        last_of(tail.push(trimmed(line)), OUTPUT_TAIL_LIMIT as int)
    }
}

/// Takes in one line that a child process has written: into the tail and into the log.
pub fn take_child_line(
    output_tail: &mut Vec<String>,
    handle: &mut TaskHandle,
    level: &str,
    line: &str,
    now: &str,
)
    ensures
        texts(final(output_tail)@) == tail_with(texts(old(output_tail)@), line@),
        final(handle)@ == logged(old(handle)@, now@, level@, line@, None, None),
{
    append_output_tail(output_tail, line);
    handle.append_log(now, level, line, None, None);
}

/// The text of a clock reading: seconds since the Unix epoch, or `0` for a clock that is
/// set before it.
pub open spec fn seconds_text(seconds: Option<u64>) -> Seq<char> {
    match seconds {
        Some(n) => decimal(n as nat),
        None => "0"@,
    }
}

pub fn unix_seconds_text(seconds: Option<u64>) -> (text: String)
    ensures
        text@ == seconds_text(seconds),
{
    match seconds {
        Some(n) => decimal_text(n),
        None => "0".to_owned(),
    }
}

/// The current time in seconds since the Unix epoch, as text.
pub fn now_unix_seconds_string() -> (text: String)
    ensures
        exists|seconds: Option<u64>| text@ == #[trigger] seconds_text(seconds),
{
    unix_seconds_text(unix_seconds())
}

/// `after` is the log `before` with one more entry at its end, and without its oldest
/// entries where it would hold more than two hundred.
pub open spec fn is_log_with(before: Seq<LogView>, after: Seq<LogView>, entry: LogView) -> bool {
    &&& after.len() == (if before.len() < 200 {
        before.len() + 1
    } else {
        200
    })
    &&& after.last() == entry
    &&& forall|i: int|
        0 <= i < after.len() - 1 ==> #[trigger] after[i] == before[before.len() - (after.len() - 1)
            + i]
}

/// A log entry that says nothing of a chunk and has no detail.
pub open spec fn note(now: Seq<char>, level: Seq<char>, message: Seq<char>) -> LogView {
    LogView { timestamp: now, level, message, chunk_index: None, detail: None }
}

/// A log entry with a detail that says nothing of a chunk.
pub open spec fn detailed(
    now: Seq<char>,
    level: Seq<char>,
    message: Seq<char>,
    detail: Seq<char>,
) -> LogView {
    LogView { timestamp: now, level, message, chunk_index: None, detail: Some(detail) }
}

/// What is logged comes last in the log, the entries before it stay in their order, no more
/// than two hundred are kept, and nothing else of the task changes.
pub proof fn law_log_keeps_the_latest(
    task: TaskView,
    now: Seq<char>,
    level: Seq<char>,
    message: Seq<char>,
    chunk_index: Option<u64>,
    detail: Option<Seq<char>>,
)
    ensures
        ({
            let after = logged(task, now, level, message, chunk_index, detail);
            &&& is_log_with(
                task.logs,
                after.logs,
                LogView { timestamp: now, level, message, chunk_index, detail },
            )
            &&& after.snapshot == task.snapshot
            &&& after.cancel_requested == task.cancel_requested
            &&& after.active_pid == task.active_pid
        }),
{
}

/// A task that has just been created shows its file and waits: nothing has been uploaded,
/// nothing has been logged, and it has neither an error nor a result.
pub proof fn law_fresh_task_waits(task_id: Seq<char>, file_name: Seq<char>, file_size: u64)
    ensures
        ({
            let task = fresh_task(task_id, file_name, file_size);
            &&& task.snapshot.task_id == task_id
            &&& task.snapshot.file_name == file_name
            &&& task.snapshot.file_size == file_size
            &&& task.snapshot.total_bytes == file_size
            &&& task.snapshot.uploaded_bytes == 0
            &&& task.snapshot.status is Queued
            &&& task.snapshot.progress == Progress::Fixed(0)
            &&& task.snapshot.speed_bytes_per_second is Idle
            &&& task.snapshot.upload_id is None
            &&& task.snapshot.gs_uri is None
            &&& task.snapshot.object_name is None
            &&& task.snapshot.error is None
            &&& task.snapshot.result is None
            &&& !task.cancel_requested
            &&& task.active_pid is None
            &&& task.logs.len() == 0
        }),
{
}

/// The progress of an upload is shown as the bytes that have arrived, of the bytes of the
/// file, and as their rate over the whole time; what else is known of the task stays.
pub proof fn law_progress_shows_the_arrived_bytes(
    task: TaskView,
    upload_id: Seq<char>,
    arrived: u64,
    file_size: u64,
    elapsed: Elapsed,
)
    ensures
        ({
            let after = with_progress(task, upload_id, arrived, file_size, elapsed);
            &&& after.snapshot.status is Uploading
            &&& after.snapshot.upload_id == Some(upload_id)
            &&& after.snapshot.uploaded_bytes == arrived
            &&& after.snapshot.total_bytes == file_size
            &&& after.snapshot.progress == (Progress::Capped {
                part: arrived,
                whole: file_size,
                cap: 99,
            })
            &&& after.snapshot.speed_bytes_per_second == (Speed::Average {
                bytes: arrived,
                within: elapsed,
            })
            &&& after.snapshot.error == task.snapshot.error
            &&& after.snapshot.result == task.snapshot.result
            &&& after.snapshot.gs_uri == task.snapshot.gs_uri
            &&& after.snapshot.object_name == task.snapshot.object_name
            &&& after.cancel_requested == task.cancel_requested
            &&& after.active_pid == task.active_pid
            &&& after.logs == task.logs
        }),
{
}

/// The time between two readings of a clock makes up the difference between them, and is
/// none where the clock ran back.
pub proof fn law_elapsed_makes_up_the_difference(later: Elapsed, earlier: Elapsed)
    ensures
        later.nanoseconds >= earlier.nanoseconds ==> earlier.nanoseconds + later.after(
            earlier,
        ).nanoseconds == later.nanoseconds,
        later.nanoseconds <= earlier.nanoseconds ==> later.after(earlier).nanoseconds == 0,
{
}

/// A line of output that is not blank comes last in what is kept of the output, trimmed; the
/// lines before it stay in their order, twenty at most. A blank line changes nothing.
pub proof fn law_tail_keeps_the_latest_lines(tail: Seq<Seq<char>>, line: Seq<char>)
    ensures
        ({
            let after = tail_with(tail, line);
            if is_blank(line) {
                after == tail
            } else {
                &&& after.len() == (if tail.len() < 20 {
                    tail.len() + 1
                } else {
                    20
                })
                &&& after.last() == trimmed(line)
                &&& forall|i: int|
                    0 <= i < after.len() - 1 ==> #[trigger] after[i] == tail[tail.len() - (
                    after.len() - 1) + i]
            }
        }),
{
    if is_blank(line) {
        lemma_trimmed_blank(line);
    } else {
        lemma_trimmed_keeps_content(line);
    }
}

/// A reading of the clock is shown in decimal, and one from before the epoch as zero.
pub proof fn law_clock_reading_is_read_back(seconds: u64)
    ensures
        parsed_u64(seconds_text(Some(seconds))) == Some(seconds),
        parsed_u64(seconds_text(None)) == Some(0u64),
{
    reveal_strlit("0");
    law_decimal_is_read_back(seconds);
    law_decimal_is_read_back(0);
    assert("0"@ =~= seq!['0']);
    reveal_with_fuel(digits_value, 2);
    assert("0"@.drop_last() =~= Seq::empty());
}

/// A task has come to its end exactly where it is completed, cancelled or failed.
pub proof fn law_ended_tasks(status: AgentTaskStatus)
    ensures
        status.ended() <==> !(status is Queued || status is Uploading || status is Finalizing),
{
}

} // verus!
