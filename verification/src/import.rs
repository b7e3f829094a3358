//! An import task from its start to its end: the gcloud tool copies the file into Cloud
//! Storage, and the service takes the object over as an asset.
use crate::gcloud::{
    build_gcloud_command, exit_error_message, exit_message, gcloud_line, spawn_error_message,
    spawn_message, spec_result, started_view, CommandLine, CommandLineView, CommandSpecView,
    ExitStatus, GcloudCommandSpec, SpawnError, SpawnErrorView,
};
use crate::naming::{build_gcloud_object_name, gs_uri, gs_uri_of, may_be_object_name};
use crate::requests::{
    asks, import_gcs_asset, import_or_error, import_request, import_spec, revoke_request,
    revoke_spec, BodyView, HttpMethod, HttpOutcome, HttpRequest, ImportGcsAssetResponse,
    ImportView, OutcomeView, RequestView,
};
use crate::retry::{cancelled, cancelled_text, error_text};
use crate::task::{
    detailed, is_log_with, logged, note, AgentTaskStatus, AgentUploadTask, Elapsed, Progress,
    ResultView, SnapshotView, Speed, TaskHandle, TaskView, UploadTaskResult, UploadTaskView,
};
use crate::text::{blank, is_blank, is_white_space, signed_decimal, texts};
use crate::upload::{completed, failed, has_ended_with, stopped, with_snapshot};
use vstd::prelude::*;
use vstd::string::*;

verus! {

/// How long to wait between two looks at a running copy.
pub const POLL_PAUSE_SECONDS: u64 = 3;

/// What an import task is waiting for.
#[derive(Clone, Copy, Debug, PartialEq, Eq, Structural)]
pub enum ImportStage {
    Starting,
    CheckingTool,
    StartingCopy,
    /// The copy runs as this process; it is being looked at.
    Looking(u32),
    /// The copy runs as this process; it will be looked at after a pause.
    Pausing(u32),
    /// The copy is being ended.
    Ending,
    Describing,
    Importing,
    Ended,
}

/// The run of an import task.
#[derive(Debug, PartialEq, Eq)]
pub struct ImportRun {
    pub stage: ImportStage,
    /// The URI of the object, once it has been named.
    pub gs_uri: String,
    pub last_uploaded_bytes: u64,
    pub last_sampled_at: Option<Elapsed>,
}

#[verifier::ext_equal]
pub struct ImportRunView {
    pub stage: ImportStage,
    pub gs_uri: Seq<char>,
    pub last_uploaded_bytes: u64,
    pub last_sampled_at: Option<Elapsed>,
}

impl View for ImportRun {
    type V = ImportRunView;

    open spec fn view(&self) -> ImportRunView {
        ImportRunView {
            stage: self.stage,
            gs_uri: self.gs_uri@,
            last_uploaded_bytes: self.last_uploaded_bytes,
            last_sampled_at: self.last_sampled_at,
        }
    }
}

/// What a look at the copy has shown.
#[derive(Debug, PartialEq, Eq)]
pub enum CopyState {
    Exited(ExitStatus),
    /// It runs; these bytes of so many have been received, as far as is known, at this
    /// reading of the clock.
    Running { progress: Option<(u64, u64)>, at: Elapsed },
    Unknown(String),
}

#[verifier::ext_equal]
pub enum CopyStateView {
    Exited(ExitStatus),
    Running { progress: Option<(u64, u64)>, at: Elapsed },
    Unknown(Seq<char>),
}

impl View for CopyState {
    type V = CopyStateView;

    open spec fn view(&self) -> CopyStateView {
        match self {
            CopyState::Exited(status) => CopyStateView::Exited(*status),
            CopyState::Running { progress, at } => CopyStateView::Running {
                progress: *progress,
                at: *at,
            },
            CopyState::Unknown(error) => CopyStateView::Unknown(error@),
        }
    }
}

/// What has happened to an import task.
#[derive(Debug, PartialEq, Eq)]
pub enum ImportEvent {
    /// The task starts; the object is to have this name.
    Started(String),
    ToolChecked(Result<GcloudCommandSpec, String>),
    CopyStarted(Result<u32, SpawnError>),
    Looked(CopyState),
    Paused,
    /// The copy has been ended.
    CopyEnded,
    Described(Result<(), String>),
    ImportReply(HttpOutcome<ImportGcsAssetResponse>),
}

#[verifier::ext_equal]
pub enum ImportEventView {
    Started(Seq<char>),
    ToolChecked(Result<CommandSpecView, Seq<char>>),
    CopyStarted(Result<u32, SpawnErrorView>),
    Looked(CopyStateView),
    Paused,
    CopyEnded,
    Described(Result<(), Seq<char>>),
    ImportReply(OutcomeView<ImportView>),
}

impl View for ImportEvent {
    type V = ImportEventView;

    open spec fn view(&self) -> ImportEventView {
        match self {
            ImportEvent::Started(name) => ImportEventView::Started(name@),
            ImportEvent::ToolChecked(r) => ImportEventView::ToolChecked(spec_result(*r)),
            ImportEvent::CopyStarted(r) => ImportEventView::CopyStarted(started_view(*r)),
            ImportEvent::Looked(state) => ImportEventView::Looked(state@),
            ImportEvent::Paused => ImportEventView::Paused,
            ImportEvent::CopyEnded => ImportEventView::CopyEnded,
            ImportEvent::Described(r) => ImportEventView::Described(error_text(*r)),
            ImportEvent::ImportReply(outcome) => ImportEventView::ImportReply(outcome@),
        }
    }
}

/// What to do next for an import task.
#[derive(Debug, PartialEq, Eq)]
pub enum ImportAction {
    CheckTool,
    StartCopy(CommandLine),
    Look,
    Pause,
    /// End this process, and wait until it has ended.
    EndCopy(u32),
    /// Call the tool with these arguments.
    Describe(Vec<String>),
    Send(HttpRequest),
    /// The task has ended: send this request, and see to its removal later.
    End { revoke: HttpRequest },
    /// The event does not fit; nothing is to be done.
    Nothing,
}

#[verifier::ext_equal]
pub enum ImportActionView {
    CheckTool,
    StartCopy(CommandLineView),
    Look,
    Pause,
    EndCopy(u32),
    Describe(Seq<Seq<char>>),
    Send(RequestView),
    End { revoke: RequestView },
    Nothing,
}

impl View for ImportAction {
    type V = ImportActionView;

    open spec fn view(&self) -> ImportActionView {
        match self {
            ImportAction::CheckTool => ImportActionView::CheckTool,
            ImportAction::StartCopy(line) => ImportActionView::StartCopy(line@),
            ImportAction::Look => ImportActionView::Look,
            ImportAction::Pause => ImportActionView::Pause,
            ImportAction::EndCopy(pid) => ImportActionView::EndCopy(*pid),
            ImportAction::Describe(args) => ImportActionView::Describe(texts(args@)),
            ImportAction::Send(request) => ImportActionView::Send(request@),
            ImportAction::End { revoke } => ImportActionView::End { revoke: revoke@ },
            ImportAction::Nothing => ImportActionView::Nothing,
        }
    }
}

pub open spec fn new_import_run() -> ImportRunView {
    ImportRunView {
        stage: ImportStage::Starting,
        gs_uri: Seq::empty(),
        last_uploaded_bytes: 0,
        last_sampled_at: None,
    }
}

/// The run at another stage.
pub open spec fn at_stage(run: ImportRunView, stage: ImportStage) -> ImportRunView {
    ImportRunView { stage, ..run }
}

/// The task has ended; its token is given back.
pub open spec fn import_ended(run: ImportRunView, task: TaskView, job: UploadTaskView) -> (
    ImportRunView,
    TaskView,
    ImportActionView,
) {
    (
        at_stage(run, ImportStage::Ended),
        task,
        ImportActionView::End { revoke: revoke_spec(job) },
    )
}

/// The task has ended with an error.
pub open spec fn import_broken(
    run: ImportRunView,
    task: TaskView,
    job: UploadTaskView,
    error: Seq<char>,
    now: Seq<char>,
) -> (ImportRunView, TaskView, ImportActionView) {
    if error == cancelled_text() {
        import_ended(
            run,
            stopped(logged(task, now, "warn"@, "GCloud 导入任务已取消"@, None, None)),
            job,
        )
    } else {
        import_ended(
            run,
            failed(
                logged(task, now, "warn"@, "GCloud 导入任务失败"@, None, Some(error)),
                error,
            ),
            job,
        )
    }
}

/// The bucket of a task that has a bucket and a prefix, or what it lacks.
pub open spec fn import_bucket(job: UploadTaskView) -> Result<Seq<char>, Seq<char>> {
    match job.bucket_name {
        Some(bucket) if !is_blank(bucket) => match job.object_prefix {
            Some(prefix) if !is_blank(prefix) => Ok(bucket),
            _ => Err("GCloud 导入任务缺少 objectPrefix"@),
        },
        _ => Err("GCloud 导入任务缺少 bucketName"@),
    }
}

/// The task as it starts, with its object named.
pub open spec fn import_started(
    run: ImportRunView,
    task: TaskView,
    job: UploadTaskView,
    bucket: Seq<char>,
    object_name: Seq<char>,
    now: Seq<char>,
) -> (ImportRunView, TaskView, ImportActionView) {
    let uri = gs_uri(bucket, object_name);
    let noted = logged(task, now, "debug"@, "GCloud 导入任务已创建"@, None, None);
    (
        ImportRunView { stage: ImportStage::CheckingTool, gs_uri: uri, ..run },
        with_snapshot(
            noted,
            SnapshotView {
                status: AgentTaskStatus::Uploading,
                progress: Progress::Fixed(5),
                uploaded_bytes: 0,
                total_bytes: job.file_size,
                speed_bytes_per_second: Speed::Idle,
                error: None,
                gs_uri: Some(uri),
                object_name: Some(object_name),
                ..noted.snapshot
            },
        ),
        ImportActionView::CheckTool,
    )
}

/// The arguments by which the tool copies a file into Cloud Storage.
pub open spec fn copy_args(local_file_path: Seq<char>, uri: Seq<char>) -> Seq<Seq<char>> {
    seq!["storage"@, "cp"@, "--quiet"@, local_file_path, uri]
}

/// The arguments by which the tool describes an object.
pub open spec fn describe_args(uri: Seq<char>) -> Seq<Seq<char>> {
    seq!["storage"@, "objects"@, "describe"@, uri, "--format=json"@]
}

/// The tool has been found; the copy is started.
pub open spec fn copy_starting(
    run: ImportRunView,
    task: TaskView,
    job: UploadTaskView,
    spec: CommandSpecView,
    now: Seq<char>,
) -> (ImportRunView, TaskView, ImportActionView) {
    (
        at_stage(run, ImportStage::StartingCopy),
        logged(
            task,
            now,
            "debug"@,
            "已检测到 gcloud CLI："@ + spec.display_path + "，开始上传到 GCS"@,
            None,
            Some(run.gs_uri),
        ),
        ImportActionView::StartCopy(gcloud_line(spec, copy_args(job.local_file_path, run.gs_uri))),
    )
}

/// The copy runs; it is ended where the task is to stop, and looked at otherwise.
pub open spec fn copy_watched(run: ImportRunView, task: TaskView, pid: u32) -> (
    ImportRunView,
    TaskView,
    ImportActionView,
) {
    if task.cancel_requested {
        (at_stage(run, ImportStage::Ending), task, ImportActionView::EndCopy(pid))
    } else {
        (at_stage(run, ImportStage::Looking(pid)), task, ImportActionView::Look)
    }
}

/// The rate since the sample before; the rate that was shown stays where there is no
/// sample before, or nothing has been received since.
pub open spec fn sampled_speed(
    run: ImportRunView,
    shown: Speed,
    uploaded_bytes: u64,
    at: Elapsed,
) -> Speed {
    match run.last_sampled_at {
        Some(before) if uploaded_bytes > run.last_uploaded_bytes => Speed::Average {
            bytes: (uploaded_bytes - run.last_uploaded_bytes) as u64,
            within: at.after(before),
        },
        _ => shown,
    }
}

/// The task with a sample of how far the copy has come.
pub open spec fn with_sample(
    run: ImportRunView,
    task: TaskView,
    job: UploadTaskView,
    uploaded_bytes: u64,
    total_bytes: u64,
    at: Elapsed,
) -> TaskView {
    with_snapshot(
        task,
        SnapshotView {
            status: AgentTaskStatus::Uploading,
            uploaded_bytes,
            total_bytes: if total_bytes > job.file_size {
                total_bytes
            } else {
                job.file_size
            },
            progress: Progress::Clamped {
                part: uploaded_bytes,
                whole: job.file_size,
                low: 5,
                high: 88,
            },
            speed_bytes_per_second: sampled_speed(
                run,
                task.snapshot.speed_bytes_per_second,
                uploaded_bytes,
                at,
            ),
            ..task.snapshot
        },
    )
}

/// The copy runs on: the sample is kept, and the next look comes after a pause.
pub open spec fn copy_running(
    run: ImportRunView,
    task: TaskView,
    job: UploadTaskView,
    pid: u32,
    progress: Option<(u64, u64)>,
    at: Elapsed,
) -> (ImportRunView, TaskView, ImportActionView) {
    match progress {
        Some((uploaded_bytes, total_bytes)) => (
            ImportRunView {
                stage: ImportStage::Pausing(pid),
                last_uploaded_bytes: uploaded_bytes,
                last_sampled_at: Some(at),
                ..run
            },
            with_sample(run, task, job, uploaded_bytes, total_bytes, at),
            ImportActionView::Pause,
        ),
        None => (at_stage(run, ImportStage::Pausing(pid)), task, ImportActionView::Pause),
    }
}

/// `task` without a child process.
pub open spec fn without_pid(task: TaskView) -> TaskView {
    TaskView { active_pid: None, ..task }
}

/// The copy has ended by itself.
pub open spec fn copy_exited(
    run: ImportRunView,
    task: TaskView,
    job: UploadTaskView,
    status: ExitStatus,
    tail: Seq<Seq<char>>,
    now: Seq<char>,
) -> (ImportRunView, TaskView, ImportActionView) {
    let freed = without_pid(task);
    if status.success {
        (
            at_stage(run, ImportStage::Describing),
            with_snapshot(
                freed,
                SnapshotView {
                    uploaded_bytes: job.file_size,
                    total_bytes: job.file_size,
                    progress: Progress::Fixed(88),
                    speed_bytes_per_second: Speed::Idle,
                    ..freed.snapshot
                },
            ),
            ImportActionView::Describe(describe_args(run.gs_uri)),
        )
    } else {
        import_broken(run, freed, job, exit_message(status, tail), now)
    }
}

/// The object is there; the service is asked to take it over.
pub open spec fn object_described(
    run: ImportRunView,
    task: TaskView,
    job: UploadTaskView,
    now: Seq<char>,
) -> (ImportRunView, TaskView, ImportActionView) {
    let noted = logged(
        task,
        now,
        "debug"@,
        "GCS 对象已上传完成，开始导入站内素材"@,
        None,
        Some(run.gs_uri),
    );
    (
        at_stage(run, ImportStage::Importing),
        with_snapshot(
            noted,
            SnapshotView {
                status: AgentTaskStatus::Finalizing,
                progress: Progress::Fixed(95),
                speed_bytes_per_second: Speed::Idle,
                ..noted.snapshot
            },
        ),
        ImportActionView::Send(import_spec(job, run.gs_uri)),
    )
}

/// The result of an import.
pub open spec fn import_result(job: UploadTaskView, imported: ImportView) -> ResultView {
    ResultView {
        url: imported.gs_uri,
        filename: job.file_name,
        local_path: None,
        gcs_gs_uri: Some(imported.gs_uri),
        asset_id: Some(imported.asset_id),
    }
}

/// The service has taken the object over.
pub open spec fn asset_imported(
    run: ImportRunView,
    task: TaskView,
    job: UploadTaskView,
    imported: ImportView,
    now: Seq<char>,
) -> (ImportRunView, TaskView, ImportActionView) {
    import_ended(
        run,
        completed(
            logged(
                task,
                now,
                "debug"@,
                "GCS 素材已导入并回填 asset"@,
                None,
                Some("assetId="@ + imported.asset_id),
            ),
            job.file_size,
            import_result(job, imported),
        ),
        job,
    )
}

/// How an event takes an import task further; `tail` is what the copy has written last.
pub open spec fn import_step(
    run: ImportRunView,
    task: TaskView,
    job: UploadTaskView,
    tail: Seq<Seq<char>>,
    event: ImportEventView,
    now: Seq<char>,
) -> (ImportRunView, TaskView, ImportActionView) {
    match (run.stage, event) {
        (ImportStage::Starting, ImportEventView::Started(name)) => match import_bucket(job) {
            Ok(bucket) => import_started(run, task, job, bucket, name, now),
            Err(error) => import_broken(run, task, job, error, now),
        },
        (ImportStage::CheckingTool, ImportEventView::ToolChecked(checked)) => match checked {
            Ok(spec) => copy_starting(run, task, job, spec, now),
            Err(error) => import_broken(run, task, job, error, now),
        },
        (ImportStage::StartingCopy, ImportEventView::CopyStarted(started)) => match started {
            Ok(pid) => copy_watched(run, TaskView { active_pid: Some(pid), ..task }, pid),
            Err(error) => import_broken(
                run,
                task,
                job,
                spawn_message(error, "启动 gcloud 上传失败："@),
                now,
            ),
        },
        (ImportStage::Looking(pid), ImportEventView::Looked(state)) => match state {
            CopyStateView::Exited(status) => copy_exited(run, task, job, status, tail, now),
            CopyStateView::Running { progress, at } => copy_running(
                run,
                task,
                job,
                pid,
                progress,
                at,
            ),
            CopyStateView::Unknown(error) => import_broken(
                run,
                without_pid(task),
                job,
                "等待 gcloud 上传进程失败："@ + error,
                now,
            ),
        },
        (ImportStage::Pausing(pid), ImportEventView::Paused) => copy_watched(run, task, pid),
        (ImportStage::Ending, ImportEventView::CopyEnded) => import_broken(
            run,
            without_pid(task),
            job,
            cancelled_text(),
            now,
        ),
        (ImportStage::Describing, ImportEventView::Described(described)) => match described {
            Ok(_) => object_described(run, task, job, now),
            Err(error) => import_broken(run, task, job, error, now),
        },
        (ImportStage::Importing, ImportEventView::ImportReply(outcome)) => match import_or_error(
            outcome,
        ) {
            Ok(imported) => asset_imported(run, task, job, imported, now),
            Err(error) => import_broken(run, task, job, error, now),
        },
        _ => (run, task, ImportActionView::Nothing),
    }
}

fn bucket_of(task: &AgentUploadTask) -> (r: Result<&str, String>)
    ensures
        match r {
            Ok(bucket) => import_bucket(task@) == Ok::<Seq<char>, Seq<char>>(bucket@),
            Err(error) => import_bucket(task@) == Err::<Seq<char>, Seq<char>>(error@),
        },
{
    match &task.bucket_name {
        Some(bucket) => if blank(bucket.as_str()) {
            Err("GCloud 导入任务缺少 bucketName".to_owned())
        } else {
            match &task.object_prefix {
                Some(prefix) => if blank(prefix.as_str()) {
                    Err("GCloud 导入任务缺少 objectPrefix".to_owned())
                } else {
                    Ok(bucket.as_str())
                },
                None => Err("GCloud 导入任务缺少 objectPrefix".to_owned()),
            }
        },
        None => Err("GCloud 导入任务缺少 bucketName".to_owned()),
    }
}

impl ImportRun {
    pub fn new() -> (run: Self)
        ensures
            run@ == new_import_run(),
    {
        ImportRun {
            stage: ImportStage::Starting,
            gs_uri: String::new(),
            last_uploaded_bytes: 0,
            last_sampled_at: None,
        }
    }

    fn break_off(
        &mut self,
        handle: &mut TaskHandle,
        task: &AgentUploadTask,
        error: String,
        now: &str,
    ) -> (action: ImportAction)
        ensures
            (final(self)@, final(handle)@, action@) == import_broken(
                old(self)@,
                old(handle)@,
                task@,
                error@,
                now@,
            ),
    {
        let stop_mark = cancelled();
        if error == stop_mark {
            handle.append_log(now, "warn", "GCloud 导入任务已取消", None, None);
            handle.stop();
        } else {
            handle.append_log(now, "warn", "GCloud 导入任务失败", None, Some(error.clone()));
            handle.fail(error);
        }
        self.stage = ImportStage::Ended;
        ImportAction::End { revoke: revoke_request(task) }
    }

    fn begin(
        &mut self,
        handle: &mut TaskHandle,
        task: &AgentUploadTask,
        object_name: String,
        now: &str,
    ) -> (action: ImportAction)
        ensures
            (final(self)@, final(handle)@, action@) == (match import_bucket(task@) {
                Ok(bucket) => import_started(
                    old(self)@,
                    old(handle)@,
                    task@,
                    bucket,
                    object_name@,
                    now@,
                ),
                Err(error) => import_broken(old(self)@, old(handle)@, task@, error, now@),
            }),
    {
        let uri = match bucket_of(task) {
            Ok(bucket) => gs_uri_of(bucket, object_name.as_str()),
            Err(error) => {
                return self.break_off(handle, task, error, now);
            },
        };
        handle.append_log(now, "debug", "GCloud 导入任务已创建", None, None);
        handle.snapshot.status = AgentTaskStatus::Uploading;
        handle.snapshot.progress = Progress::Fixed(5);
        handle.snapshot.uploaded_bytes = 0;
        handle.snapshot.total_bytes = task.file_size;
        handle.snapshot.speed_bytes_per_second = Speed::Idle;
        handle.snapshot.error = None;
        handle.snapshot.gs_uri = Some(uri.clone());
        handle.snapshot.object_name = Some(object_name);
        self.stage = ImportStage::CheckingTool;
        self.gs_uri = uri;
        ImportAction::CheckTool
    }

    fn start_copy(
        &mut self,
        handle: &mut TaskHandle,
        task: &AgentUploadTask,
        spec: GcloudCommandSpec,
        now: &str,
    ) -> (action: ImportAction)
        ensures
            (final(self)@, final(handle)@, action@) == copy_starting(
                old(self)@,
                old(handle)@,
                task@,
                spec@,
                now@,
            ),
    {
        let message = "已检测到 gcloud CLI：".to_owned().concat(spec.display_path.as_str()).concat(
            "，开始上传到 GCS",
        );
        handle.append_log(now, "debug", message.as_str(), None, Some(self.gs_uri.clone()));
        let mut args: Vec<String> = Vec::new();
        args.push("storage".to_owned());
        args.push("cp".to_owned());
        args.push("--quiet".to_owned());
        args.push(task.local_file_path.clone());
        args.push(self.gs_uri.clone());
        assert(texts(args@) =~= copy_args(task@.local_file_path, self@.gs_uri));
        self.stage = ImportStage::StartingCopy;
        ImportAction::StartCopy(build_gcloud_command(&spec, &args))
    }

    fn watch(&mut self, handle: &TaskHandle, pid: u32) -> (action: ImportAction)
        ensures
            (final(self)@, handle@, action@) == copy_watched(old(self)@, handle@, pid),
    {
        if handle.cancel_requested {
            self.stage = ImportStage::Ending;
            ImportAction::EndCopy(pid)
        } else {
            self.stage = ImportStage::Looking(pid);
            ImportAction::Look
        }
    }

    fn sample(
        &mut self,
        handle: &mut TaskHandle,
        task: &AgentUploadTask,
        uploaded_bytes: u64,
        total_bytes: u64,
        at: Elapsed,
    )
        ensures
            final(self)@ == (ImportRunView {
                last_uploaded_bytes: uploaded_bytes,
                last_sampled_at: Some(at),
                ..old(self)@
            }),
            final(handle)@ == with_sample(
                old(self)@,
                old(handle)@,
                task@,
                uploaded_bytes,
                total_bytes,
                at,
            ),
    {
        if let Some(before) = self.last_sampled_at {
            if uploaded_bytes > self.last_uploaded_bytes {
                handle.snapshot.speed_bytes_per_second =
                Speed::Average {
                    bytes: uploaded_bytes - self.last_uploaded_bytes,
                    within: at.since(before),
                };
            }
        }
        handle.snapshot.status = AgentTaskStatus::Uploading;
        handle.snapshot.uploaded_bytes = uploaded_bytes;
        handle.snapshot.total_bytes =
        if total_bytes > task.file_size {
            total_bytes
        } else {
            task.file_size
        };
        handle.snapshot.progress =
        Progress::Clamped { part: uploaded_bytes, whole: task.file_size, low: 5, high: 88 };
        self.last_uploaded_bytes = uploaded_bytes;
        self.last_sampled_at = Some(at);
    }

    fn look(
        &mut self,
        handle: &mut TaskHandle,
        task: &AgentUploadTask,
        output_tail: &Vec<String>,
        pid: u32,
        state: CopyState,
        now: &str,
    ) -> (action: ImportAction)
        requires
            old(self)@.stage == ImportStage::Looking(pid),
        ensures
            (final(self)@, final(handle)@, action@) == import_step(
                old(self)@,
                old(handle)@,
                task@,
                texts(output_tail@),
                ImportEventView::Looked(state@),
                now@,
            ),
    {
        match state {
            CopyState::Exited(status) => {
                handle.active_pid = None;
                if !status.success {
                    let message = exit_error_message(status, output_tail);
                    return self.break_off(handle, task, message, now);
                }
                handle.snapshot.uploaded_bytes = task.file_size;
                handle.snapshot.total_bytes = task.file_size;
                handle.snapshot.progress = Progress::Fixed(88);
                handle.snapshot.speed_bytes_per_second = Speed::Idle;
                let mut args: Vec<String> = Vec::new();
                args.push("storage".to_owned());
                args.push("objects".to_owned());
                args.push("describe".to_owned());
                args.push(self.gs_uri.clone());
                args.push("--format=json".to_owned());
                assert(texts(args@) =~= describe_args(self@.gs_uri));
                self.stage = ImportStage::Describing;
                ImportAction::Describe(args)
            },
            CopyState::Running { progress, at } => {
                if let Some((uploaded_bytes, total_bytes)) = progress {
                    self.sample(handle, task, uploaded_bytes, total_bytes, at);
                }
                self.stage = ImportStage::Pausing(pid);
                ImportAction::Pause
            },
            CopyState::Unknown(error) => {
                handle.active_pid = None;
                let message = "等待 gcloud 上传进程失败：".to_owned().concat(error.as_str());
                self.break_off(handle, task, message, now)
            },
        }
    }

    fn ask_import(&mut self, handle: &mut TaskHandle, task: &AgentUploadTask, now: &str) -> (action:
        ImportAction)
        ensures
            (final(self)@, final(handle)@, action@) == object_described(
                old(self)@,
                old(handle)@,
                task@,
                now@,
            ),
    {
        handle.append_log(
            now,
            "debug",
            "GCS 对象已上传完成，开始导入站内素材",
            None,
            Some(self.gs_uri.clone()),
        );
        handle.snapshot.status = AgentTaskStatus::Finalizing;
        handle.snapshot.progress = Progress::Fixed(95);
        handle.snapshot.speed_bytes_per_second = Speed::Idle;
        self.stage = ImportStage::Importing;
        ImportAction::Send(import_request(task, self.gs_uri.as_str()))
    }

    fn complete(
        &mut self,
        handle: &mut TaskHandle,
        task: &AgentUploadTask,
        imported: ImportGcsAssetResponse,
        now: &str,
    ) -> (action: ImportAction)
        ensures
            (final(self)@, final(handle)@, action@) == asset_imported(
                old(self)@,
                old(handle)@,
                task@,
                imported@,
                now@,
            ),
    {
        let detail = "assetId=".to_owned().concat(imported.asset_id.as_str());
        handle.append_log(
            now,
            "debug",
            "GCS 素材已导入并回填 asset",
            None,
            Some(detail),
        );
        handle.complete(
            task.file_size,
            UploadTaskResult {
                url: imported.gs_uri.clone(),
                filename: task.file_name.clone(),
                local_path: None,
                gcs_gs_uri: Some(imported.gs_uri),
                asset_id: Some(imported.asset_id),
            },
        );
        self.stage = ImportStage::Ended;
        ImportAction::End { revoke: revoke_request(task) }
    }

    /// Starts an import task, with its object named after its file.
    pub fn start(
        &mut self,
        windows: bool,
        handle: &mut TaskHandle,
        task: &AgentUploadTask,
        now: &str,
    ) -> (action: ImportAction)
        ensures
            exists|name: Seq<char>|
                (task@.object_prefix matches Some(prefix) ==> may_be_object_name(
                    windows,
                    prefix,
                    task@.task_id,
                    task@.file_name,
                    name,
                )) && (final(self)@, final(handle)@, action@) == #[trigger] import_step(
                    old(self)@,
                    old(handle)@,
                    task@,
                    Seq::empty(),
                    ImportEventView::Started(name),
                    now@,
                ),
    {
        let name = match &task.object_prefix {
            Some(prefix) => build_gcloud_object_name(
                windows,
                prefix.as_str(),
                task.task_id.as_str(),
                task.file_name.as_str(),
            ),
            None => String::new(),
        };
        let tail: Vec<String> = Vec::new();
        assert(texts(tail@) =~= Seq::empty());
        self.step(handle, task, &tail, ImportEvent::Started(name), now)
    }

    /// Takes an import task one event further.
    pub fn step(
        &mut self,
        handle: &mut TaskHandle,
        task: &AgentUploadTask,
        output_tail: &Vec<String>,
        event: ImportEvent,
        now: &str,
    ) -> (action: ImportAction)
        ensures
            (final(self)@, final(handle)@, action@) == import_step(
                old(self)@,
                old(handle)@,
                task@,
                texts(output_tail@),
                event@,
                now@,
            ),
    {
        match event {
            ImportEvent::Started(name) => match self.stage {
                ImportStage::Starting => self.begin(handle, task, name, now),
                _ => ImportAction::Nothing,
            },
            ImportEvent::ToolChecked(checked) => match self.stage {
                ImportStage::CheckingTool => match checked {
                    Ok(spec) => self.start_copy(handle, task, spec, now),
                    Err(error) => self.break_off(handle, task, error, now),
                },
                _ => ImportAction::Nothing,
            },
            ImportEvent::CopyStarted(started) => match self.stage {
                ImportStage::StartingCopy => match started {
                    Ok(pid) => {
                        handle.active_pid = Some(pid);
                        self.watch(handle, pid)
                    },
                    Err(error) => {
                        let message = spawn_error_message(&error, "启动 gcloud 上传失败：");
                        self.break_off(handle, task, message, now)
                    },
                },
                _ => ImportAction::Nothing,
            },
            ImportEvent::Looked(state) => match self.stage {
                ImportStage::Looking(pid) => self.look(handle, task, output_tail, pid, state, now),
                _ => ImportAction::Nothing,
            },
            ImportEvent::Paused => match self.stage {
                ImportStage::Pausing(pid) => self.watch(handle, pid),
                _ => ImportAction::Nothing,
            },
            ImportEvent::CopyEnded => match self.stage {
                ImportStage::Ending => {
                    handle.active_pid = None;
                    self.break_off(handle, task, cancelled(), now)
                },
                _ => ImportAction::Nothing,
            },
            ImportEvent::Described(described) => match self.stage {
                ImportStage::Describing => match described {
                    Ok(_) => self.ask_import(handle, task, now),
                    Err(error) => self.break_off(handle, task, error, now),
                },
                _ => ImportAction::Nothing,
            },
            ImportEvent::ImportReply(outcome) => match self.stage {
                ImportStage::Importing => match import_gcs_asset(outcome) {
                    Ok(imported) => self.complete(handle, task, imported, now),
                    Err(error) => self.break_off(handle, task, error, now),
                },
                _ => ImportAction::Nothing,
            },
        }
    }
}

/// An import comes to its end exactly when its token is given back, and the task then
/// stands as completed, cancelled or failed.
pub proof fn law_import_end_revokes_token(
    run: ImportRunView,
    task: TaskView,
    job: UploadTaskView,
    tail: Seq<Seq<char>>,
    event: ImportEventView,
    now: Seq<char>,
)
    requires
        !(run.stage is Ended),
    ensures
        ({
            let (next, next_task, action) = import_step(run, task, job, tail, event, now);
            &&& next.stage is Ended <==> action is End
            &&& (action matches ImportActionView::End { revoke } ==> revoke == revoke_spec(job)
                && next_task.snapshot.status.ended())
        }),
{
}

/// An import that has ended stays as it is, whatever happens.
pub proof fn law_import_ends_once(
    run: ImportRunView,
    task: TaskView,
    job: UploadTaskView,
    tail: Seq<Seq<char>>,
    event: ImportEventView,
    now: Seq<char>,
)
    requires
        run.stage is Ended,
    ensures
        import_step(run, task, job, tail, event, now) == (run, task, ImportActionView::Nothing),
{
}

/// A copy whose task is to stop is ended before it is looked at again, and the task is
/// then cancelled.
pub proof fn law_cancelled_copy_is_ended(
    run: ImportRunView,
    task: TaskView,
    job: UploadTaskView,
    tail: Seq<Seq<char>>,
    now: Seq<char>,
    pid: u32,
)
    requires
        run.stage == ImportStage::Pausing(pid),
        task.cancel_requested,
    ensures
        ({
            let (next, next_task, action) = import_step(
                run,
                task,
                job,
                tail,
                ImportEventView::Paused,
                now,
            );
            let (last, last_task, last_action) = import_step(
                next,
                next_task,
                job,
                tail,
                ImportEventView::CopyEnded,
                now,
            );
            &&& action == ImportActionView::EndCopy(pid)
            &&& last.stage is Ended
            &&& last_task.snapshot.status is Cancelled
            &&& last_task.active_pid is None
        }),
{
}

/// The event is one that the stage waits for.
pub open spec fn is_awaited(stage: ImportStage, event: ImportEventView) -> bool {
    match stage {
        ImportStage::Starting => event is Started,
        ImportStage::CheckingTool => event is ToolChecked,
        ImportStage::StartingCopy => event is CopyStarted,
        ImportStage::Looking(_) => event is Looked,
        ImportStage::Pausing(_) => event is Paused,
        ImportStage::Ending => event is CopyEnded,
        ImportStage::Describing => event is Described,
        ImportStage::Importing => event is ImportReply,
        ImportStage::Ended => false,
    }
}

/// There is a text, and it is not blank.
pub open spec fn is_given(text: Option<Seq<char>>) -> bool {
    text matches Some(t) && exists|i: int| 0 <= i < t.len() && !is_white_space(#[trigger] t[i])
}

/// An event that is not awaited changes nothing, and nothing is done about it; one that is
/// awaited never goes without an answer. A task stays the one it is, and whether it is to
/// stop is not for the import to say.
pub proof fn law_import_takes_awaited_events_only(
    run: ImportRunView,
    task: TaskView,
    job: UploadTaskView,
    tail: Seq<Seq<char>>,
    event: ImportEventView,
    now: Seq<char>,
)
    ensures
        ({
            let (next, next_task, action) = import_step(run, task, job, tail, event, now);
            &&& action is Nothing <==> !is_awaited(run.stage, event)
            &&& (action is Nothing ==> next == run && next_task == task)
            &&& next_task.cancel_requested == task.cancel_requested
            &&& next_task.snapshot.task_id == task.snapshot.task_id
            &&& next_task.snapshot.file_name == task.snapshot.file_name
            &&& next_task.snapshot.file_size == task.snapshot.file_size
            &&& next_task.snapshot.upload_id == task.snapshot.upload_id
            &&& (!(run.stage is Starting) ==> next.gs_uri == run.gs_uri && next_task.snapshot.gs_uri
                == task.snapshot.gs_uri && next_task.snapshot.object_name
                == task.snapshot.object_name)
        }),
{
}

/// An import that has a bucket and a prefix starts by looking for the tool, with its object
/// named and nothing uploaded.
pub proof fn law_import_starts_with_its_object_named(
    run: ImportRunView,
    task: TaskView,
    job: UploadTaskView,
    tail: Seq<Seq<char>>,
    name: Seq<char>,
    now: Seq<char>,
)
    requires
        run.stage is Starting,
        is_given(job.bucket_name),
        is_given(job.object_prefix),
    ensures
        ({
            let (next, next_task, action) = import_step(
                run,
                task,
                job,
                tail,
                ImportEventView::Started(name),
                now,
            );
            let uri = "gs://"@ + job.bucket_name->0 + "/"@ + name;
            &&& action is CheckTool
            &&& next.stage is CheckingTool
            &&& next.gs_uri == uri
            &&& next_task.snapshot.gs_uri == Some(uri)
            &&& next_task.snapshot.object_name == Some(name)
            &&& next_task.snapshot.status is Uploading
            &&& next_task.snapshot.progress == Progress::Fixed(5)
            &&& next_task.snapshot.uploaded_bytes == 0
            &&& next_task.snapshot.total_bytes == job.file_size
            &&& next_task.snapshot.speed_bytes_per_second is Idle
            &&& next_task.snapshot.error is None
            &&& next_task.snapshot.result == task.snapshot.result
            &&& next_task.active_pid == task.active_pid
            &&& is_log_with(
                task.logs,
                next_task.logs,
                note(now, "debug"@, "GCloud 导入任务已创建"@),
            )
        }),
{
}

/// The tool that has been found is started to copy the file of the task to the object, and
/// is looked at as the process that it runs as, unless the task is to stop: then that
/// process is ended.
pub proof fn law_copy_is_started_and_watched(
    run: ImportRunView,
    task: TaskView,
    job: UploadTaskView,
    tail: Seq<Seq<char>>,
    event: ImportEventView,
    now: Seq<char>,
)
    ensures
        ({
            let (next, next_task, action) = import_step(run, task, job, tail, event, now);
            &&& (run.stage is CheckingTool ==> (event matches ImportEventView::ToolChecked(Ok(spec))
                ==> {
                &&& next.stage is StartingCopy
                &&& next_task.snapshot == task.snapshot
                &&& next_task.active_pid == task.active_pid
                &&& action matches ImportActionView::StartCopy(line) && {
                    &&& line.program == spec.program
                    &&& line.args.len() == spec.prefix_args.len() + 5
                    &&& line.args.take(spec.prefix_args.len() as int) == spec.prefix_args
                    &&& line.args[spec.prefix_args.len() as int] == "storage"@
                    &&& line.args[spec.prefix_args.len() as int + 1] == "cp"@
                    &&& line.args[spec.prefix_args.len() as int + 2] == "--quiet"@
                    &&& line.args[spec.prefix_args.len() as int + 3] == job.local_file_path
                    &&& line.args[spec.prefix_args.len() as int + 4] == run.gs_uri
                }
                &&& is_log_with(
                    task.logs,
                    next_task.logs,
                    detailed(
                        now,
                        "debug"@,
                        "已检测到 gcloud CLI："@ + spec.display_path + "，开始上传到 GCS"@,
                        run.gs_uri,
                    ),
                )
            }))
            &&& (run.stage is StartingCopy ==> (event matches ImportEventView::CopyStarted(Ok(pid))
                ==> {
                &&& next_task.active_pid == Some(pid)
                &&& next_task.snapshot == task.snapshot
                &&& next_task.logs == task.logs
                &&& (task.cancel_requested ==> action == ImportActionView::EndCopy(pid)
                    && next.stage is Ending)
                &&& (!task.cancel_requested ==> action is Look && next.stage
                    == ImportStage::Looking(pid))
            }))
            &&& (run.stage matches ImportStage::Pausing(pid) ==> (event is Paused ==> {
                &&& next_task == task
                &&& (task.cancel_requested ==> action == ImportActionView::EndCopy(pid)
                    && next.stage is Ending)
                &&& (!task.cancel_requested ==> action is Look && next.stage
                    == ImportStage::Looking(pid))
            }))
        }),
{
    if let ImportEventView::ToolChecked(Ok(spec)) = event {
        if run.stage is CheckingTool {
            let action = import_step(run, task, job, tail, event, now).2;
            if let ImportActionView::StartCopy(line) = action {
                assert(line.args.take(spec.prefix_args.len() as int) =~= spec.prefix_args);
            }
        }
    }
}

/// While the copy runs, the task shows the bytes that have been received, of no fewer than
/// the file has, and between 5 and 88 percent; the rate is that since the look before, and
/// stays where there was none or nothing has come since. Where nothing is known, nothing
/// changes. Then the copy is left alone for a while.
pub proof fn law_running_copy_shows_what_was_received(
    run: ImportRunView,
    task: TaskView,
    job: UploadTaskView,
    tail: Seq<Seq<char>>,
    pid: u32,
    progress: Option<(u64, u64)>,
    at: Elapsed,
    now: Seq<char>,
)
    requires
        run.stage == ImportStage::Looking(pid),
    ensures
        ({
            let (next, next_task, action) = import_step(
                run,
                task,
                job,
                tail,
                ImportEventView::Looked(CopyStateView::Running { progress, at }),
                now,
            );
            &&& action is Pause
            &&& next.stage == ImportStage::Pausing(pid)
            &&& next_task.active_pid == task.active_pid
            &&& next_task.logs == task.logs
            &&& match progress {
                None => next_task == task && next.last_uploaded_bytes == run.last_uploaded_bytes
                    && next.last_sampled_at == run.last_sampled_at,
                Some((received, total)) => {
                    &&& next.last_uploaded_bytes == received
                    &&& next.last_sampled_at == Some(at)
                    &&& next_task.snapshot.status is Uploading
                    &&& next_task.snapshot.uploaded_bytes == received
                    &&& next_task.snapshot.total_bytes >= total
                    &&& next_task.snapshot.total_bytes >= job.file_size
                    &&& (next_task.snapshot.total_bytes == total || next_task.snapshot.total_bytes
                        == job.file_size)
                    &&& next_task.snapshot.progress == (Progress::Clamped {
                        part: received,
                        whole: job.file_size,
                        low: 5,
                        high: 88,
                    })
                    &&& next_task.snapshot.error == task.snapshot.error
                    &&& next_task.snapshot.result == task.snapshot.result
                    &&& if run.last_sampled_at is Some && received > run.last_uploaded_bytes {
                        next_task.snapshot.speed_bytes_per_second matches Speed::Average {
                            bytes,
                            within,
                        } && {
                            &&& run.last_uploaded_bytes + bytes == received
                            &&& (at.nanoseconds >= run.last_sampled_at->0.nanoseconds
                                ==> run.last_sampled_at->0.nanoseconds + within.nanoseconds
                                == at.nanoseconds)
                            &&& (at.nanoseconds < run.last_sampled_at->0.nanoseconds
                                ==> within.nanoseconds == 0)
                        }
                    } else {
                        next_task.snapshot.speed_bytes_per_second
                            == task.snapshot.speed_bytes_per_second
                    }
                },
            }
        }),
{
}

/// A copy that has ended well shows the whole file as uploaded, and its object is then looked
/// up; an object that is there is what the service is asked to import.
pub proof fn law_copied_object_is_imported(
    run: ImportRunView,
    task: TaskView,
    job: UploadTaskView,
    tail: Seq<Seq<char>>,
    event: ImportEventView,
    now: Seq<char>,
)
    ensures
        ({
            let (next, next_task, action) = import_step(run, task, job, tail, event, now);
            &&& (!(run.stage is Describing) ==> (next.stage is Describing <==> run.stage is Looking
                && (event matches ImportEventView::Looked(CopyStateView::Exited(status))
                && status.success)))
            &&& (!(run.stage is Describing) && next.stage is Describing ==> {
                &&& next_task.active_pid is None
                &&& next_task.snapshot.uploaded_bytes == job.file_size
                &&& next_task.snapshot.total_bytes == job.file_size
                &&& next_task.snapshot.progress == Progress::Fixed(88)
                &&& next_task.snapshot.speed_bytes_per_second is Idle
                &&& next_task.snapshot.status == task.snapshot.status
                &&& next_task.snapshot.result == task.snapshot.result
                &&& next_task.logs == task.logs
                &&& action matches ImportActionView::Describe(args) && {
                    &&& args.len() == 5
                    &&& args[0] == "storage"@ && args[1] == "objects"@ && args[2] == "describe"@
                    &&& args[3] == run.gs_uri
                    &&& args[4] == "--format=json"@
                }
            })
            &&& (!(run.stage is Importing) ==> (next.stage is Importing <==> run.stage is Describing
                && (event matches ImportEventView::Described(Ok(_)))))
            &&& (!(run.stage is Importing) && next.stage is Importing ==> {
                &&& next_task.snapshot.status is Finalizing
                &&& next_task.snapshot.progress == Progress::Fixed(95)
                &&& next_task.snapshot.speed_bytes_per_second is Idle
                &&& next_task.snapshot.uploaded_bytes == task.snapshot.uploaded_bytes
                &&& next_task.snapshot.result == task.snapshot.result
                &&& next_task.active_pid == task.active_pid
                &&& action matches ImportActionView::Send(request) && asks(
                    request,
                    HttpMethod::Post,
                    job.base_url + "/api/media/import-gcs"@,
                    job.api_token,
                    BodyView::ImportAsset {
                        gs_uri: run.gs_uri,
                        original_filename: job.file_name,
                    },
                )
                &&& is_log_with(
                    task.logs,
                    next_task.logs,
                    detailed(
                        now,
                        "debug"@,
                        "GCS 对象已上传完成，开始导入站内素材"@,
                        run.gs_uri,
                    ),
                )
            })
        }),
{
}

/// An import is completed only by a reply that was received and reports success, and its
/// result is the asset and the object of that reply.
pub proof fn law_import_is_completed_by_the_service(
    run: ImportRunView,
    task: TaskView,
    job: UploadTaskView,
    tail: Seq<Seq<char>>,
    event: ImportEventView,
    now: Seq<char>,
)
    ensures
        ({
            let (next, next_task, action) = import_step(run, task, job, tail, event, now);
            let succeeded = run.stage is Importing && (event matches ImportEventView::ImportReply(
                OutcomeView::Received(imported),
            ) && imported.success);
            &&& (!(task.snapshot.status is Completed) ==> (next_task.snapshot.status is Completed
                <==> succeeded))
            &&& (next_task.snapshot.result != task.snapshot.result ==> succeeded)
            &&& (succeeded ==> (event matches ImportEventView::ImportReply(
                OutcomeView::Received(imported),
            ) && {
                &&& next.stage is Ended
                &&& action is End
                &&& next_task.snapshot.status is Completed
                &&& next_task.snapshot.progress == Progress::Fixed(100)
                &&& next_task.snapshot.uploaded_bytes == job.file_size
                &&& next_task.snapshot.total_bytes == job.file_size
                &&& next_task.snapshot.speed_bytes_per_second is Idle
                &&& next_task.snapshot.error is None
                &&& next_task.active_pid == task.active_pid
                &&& next_task.snapshot.result matches Some(result) && {
                    &&& result.asset_id == Some(imported.asset_id)
                    &&& result.gcs_gs_uri == Some(imported.gs_uri)
                    &&& result.url == imported.gs_uri
                    &&& result.filename == job.file_name
                    &&& result.local_path is None
                }
                &&& is_log_with(
                    task.logs,
                    next_task.logs,
                    detailed(
                        now,
                        "debug"@,
                        "GCS 素材已导入并回填 asset"@,
                        "assetId="@ + imported.asset_id,
                    ),
                )
            }))
        }),
{
}

/// The error that an event brings to an import: something that it needs is missing, the tool
/// or the copy has failed, the object is not there, or the service has not imported it.
pub open spec fn brings_error(
    run: ImportRunView,
    job: UploadTaskView,
    tail: Seq<Seq<char>>,
    event: ImportEventView,
    error: Seq<char>,
) -> bool {
    match (run.stage, event) {
        (ImportStage::Starting, ImportEventView::Started(_)) => if !is_given(job.bucket_name) {
            error == "GCloud 导入任务缺少 bucketName"@
        } else {
            !is_given(job.object_prefix) && error == "GCloud 导入任务缺少 objectPrefix"@
        },
        (ImportStage::CheckingTool, ImportEventView::ToolChecked(Err(e))) => error == e,
        (ImportStage::StartingCopy, ImportEventView::CopyStarted(Err(e))) => match e {
            SpawnErrorView::NotFound => error
                == "未检测到 gcloud CLI，请先安装并完成 gcloud auth login"@,
            SpawnErrorView::Other(cause) => error == "启动 gcloud 上传失败："@ + cause,
        },
        (ImportStage::Looking(_), ImportEventView::Looked(CopyStateView::Exited(status))) => {
            !status.success && if tail.len() > 0 {
                error == tail[tail.len() - 1]
            } else {
                error == "gcloud 命令执行失败，退出码 "@ + signed_decimal(
                    match status.code {
                        Some(code) => code as int,
                        None => 1,
                    },
                )
            }
        },
        (ImportStage::Looking(_), ImportEventView::Looked(CopyStateView::Unknown(e))) => error
            == "等待 gcloud 上传进程失败："@ + e,
        (ImportStage::Ending, ImportEventView::CopyEnded) => error == "__cancelled__"@,
        (ImportStage::Describing, ImportEventView::Described(Err(e))) => error == e,
        (ImportStage::Importing, ImportEventView::ImportReply(outcome)) => match outcome {
            OutcomeView::NotSent(e) => error == "导入 GCS 素材失败："@ + e,
            OutcomeView::Refused { status, body } => error == "导入 GCS 素材失败："@ + "HTTP "@
                + status + " "@ + body,
            OutcomeView::Unreadable(e) => error == "解析 GCS 素材导入响应失败："@ + e,
            OutcomeView::Received(imported) => !imported.success && match imported.error {
                Some(e) => error == e,
                None => error == "导入 GCS 素材失败"@,
            },
        },
        _ => false,
    }
}

/// An error ends the import: the task stands as cancelled where it was to stop, and otherwise
/// as failed with that error, without a result, and the token is given back. A process whose
/// end has been seen, or can no longer be awaited, is forgotten.
pub proof fn law_error_ends_the_import(
    run: ImportRunView,
    task: TaskView,
    job: UploadTaskView,
    tail: Seq<Seq<char>>,
    event: ImportEventView,
    now: Seq<char>,
    error: Seq<char>,
)
    requires
        brings_error(run, job, tail, event, error),
    ensures
        ({
            let (next, next_task, action) = import_step(run, task, job, tail, event, now);
            &&& next.stage is Ended
            &&& action matches ImportActionView::End { revoke } && asks(
                revoke,
                HttpMethod::Delete,
                job.base_url + "/api/upload/video/agent-token"@,
                job.api_token,
                BodyView::Nothing,
            )
            &&& (run.stage is Looking || run.stage is Ending ==> next_task.active_pid is None)
            &&& (!(run.stage is Looking || run.stage is Ending) ==> next_task.active_pid
                == task.active_pid)
            &&& has_ended_with(
                task,
                TaskView { active_pid: task.active_pid, ..next_task },
                error,
                note(now, "warn"@, "GCloud 导入任务已取消"@),
                detailed(now, "warn"@, "GCloud 导入任务失败"@, error),
            )
        }),
{
}

/// Every awaited event brings an error, or takes the import to its next stage, or completes
/// it: an import ends in no other way.
pub proof fn law_import_ends_by_error_or_completion(
    run: ImportRunView,
    task: TaskView,
    job: UploadTaskView,
    tail: Seq<Seq<char>>,
    event: ImportEventView,
    now: Seq<char>,
)
    requires
        import_step(run, task, job, tail, event, now).2 is End,
    ensures
        (exists|error: Seq<char>| brings_error(run, job, tail, event, error)) || import_step(
            run,
            task,
            job,
            tail,
            event,
            now,
        ).1.snapshot.status is Completed,
{
    let after = import_step(run, task, job, tail, event, now).1;
    if !(after.snapshot.status is Completed) {
        match (run.stage, event) {
            (ImportStage::Starting, ImportEventView::Started(_)) => {
                assert(brings_error(
                    run,
                    job,
                    tail,
                    event,
                    if !is_given(job.bucket_name) {
                        "GCloud 导入任务缺少 bucketName"@
                    } else {
                        "GCloud 导入任务缺少 objectPrefix"@
                    },
                ));
            },
            (ImportStage::Ending, ImportEventView::CopyEnded) => {
                assert(brings_error(run, job, tail, event, "__cancelled__"@));
            },
            _ => {
                if let Some(error) = after.snapshot.error {
                    if after.snapshot.status is Failed {
                        assert(brings_error(run, job, tail, event, error));
                    }
                }
                if after.snapshot.status is Cancelled {
                    assert(brings_error(run, job, tail, event, "__cancelled__"@));
                }
            },
        }
    }
}

/// A run of an import begins at its start, with no sample taken.
pub proof fn law_new_import_is_to_start()
    ensures
        new_import_run().stage is Starting,
        new_import_run().last_sampled_at is None,
        new_import_run().last_uploaded_bytes == 0,
{
}

} // verus!
