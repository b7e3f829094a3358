//! The state of the agent, and how it answers the requests of the local interface.
use crate::naming::{guess_mime_type, may_be_mime_type, sanitize_base_url};
use crate::outside::{is_uuid_text, new_uuid_text};
use crate::registry::{is_listing, snapshot_views, TaskRegistry};
use crate::routes::{route, route_of, Method, Route, RouteView};
use crate::task::{
    fresh_snapshot, fresh_task, is_log_with, log_views, logged, AgentTaskSnapshot, AgentTaskStatus,
    AgentUploadTask, LogView, Progress, SnapshotView, Speed, TaskHandle, TaskLogEntry, TaskView,
    UploadTaskView,
};
use crate::text::{blank, is_blank, str_option, text_option, texts, trim, trimmed, without_trailing};
use crate::updater::{
    check_begun, check_ended, check_error, fresh_runtime, install_requested, is_configured,
    updater_configured, CheckOutcome, RuntimeView, UpdaterRuntimeState, UpdaterSnapshot,
    UpdaterView,
};
use vstd::prelude::*;
use vstd::string::*;

verus! {

pub const AGENT_PORT: u16 = 17777;

/// The address that the agent listens on.
pub fn agent_host() -> (host: String)
    ensures
        host@ == "127.0.0.1"@,
{
    "127.0.0.1".to_owned()
}

/// A file that the user has picked.
#[derive(Debug, PartialEq, Eq)]
pub struct FileSelectionData {
    pub file_name: String,
    pub file_size: u64,
    pub mime_type: String,
    pub local_file_path: String,
}

#[verifier::ext_equal]
pub struct SelectionView {
    pub file_name: Seq<char>,
    pub file_size: u64,
    pub mime_type: Seq<char>,
    pub local_file_path: Seq<char>,
}

impl View for FileSelectionData {
    type V = SelectionView;

    open spec fn view(&self) -> SelectionView {
        SelectionView {
            file_name: self.file_name@,
            file_size: self.file_size,
            mime_type: self.mime_type@,
            local_file_path: self.local_file_path@,
        }
    }
}

/// What a reply holds.
#[derive(Debug, PartialEq, Eq)]
pub enum ReplyBody {
    /// An object without members.
    Nothing,
    Error(String),
    Task(AgentTaskSnapshot),
    Tasks(Vec<AgentTaskSnapshot>),
    Logs(Vec<TaskLogEntry>),
    File(FileSelectionData),
    Update(UpdaterSnapshot),
    /// An error, with what is known of the updates nevertheless.
    UpdateError { error: String, snapshot: UpdaterSnapshot },
    Health { version: String, platform: String, capabilities: Vec<String> },
    SystemInfo {
        host: String,
        port: u16,
        mode: String,
        transport: String,
        updater_configured: bool,
    },
}

#[verifier::ext_equal]
pub enum ReplyBodyView {
    Nothing,
    Error(Seq<char>),
    Task(SnapshotView),
    Tasks(Seq<SnapshotView>),
    Logs(Seq<LogView>),
    File(SelectionView),
    Update(UpdaterView),
    UpdateError { error: Seq<char>, snapshot: UpdaterView },
    Health { version: Seq<char>, platform: Seq<char>, capabilities: Seq<Seq<char>> },
    SystemInfo {
        host: Seq<char>,
        port: u16,
        mode: Seq<char>,
        transport: Seq<char>,
        updater_configured: bool,
    },
}

impl View for ReplyBody {
    type V = ReplyBodyView;

    open spec fn view(&self) -> ReplyBodyView {
        match self {
            ReplyBody::Nothing => ReplyBodyView::Nothing,
            ReplyBody::Error(error) => ReplyBodyView::Error(error@),
            ReplyBody::Task(snapshot) => ReplyBodyView::Task(snapshot@),
            ReplyBody::Tasks(list) => ReplyBodyView::Tasks(snapshot_views(list@)),
            ReplyBody::Logs(logs) => ReplyBodyView::Logs(log_views(logs@)),
            ReplyBody::File(file) => ReplyBodyView::File(file@),
            ReplyBody::Update(snapshot) => ReplyBodyView::Update(snapshot@),
            ReplyBody::UpdateError { error, snapshot } => ReplyBodyView::UpdateError {
                error: error@,
                snapshot: snapshot@,
            },
            ReplyBody::Health { version, platform, capabilities } => ReplyBodyView::Health {
                version: version@,
                platform: platform@,
                capabilities: texts(capabilities@),
            },
            ReplyBody::SystemInfo { host, port, mode, transport, updater_configured } => {
                ReplyBodyView::SystemInfo {
                    host: host@,
                    port: *port,
                    mode: mode@,
                    transport: transport@,
                    updater_configured: *updater_configured,
                }
            },
        }
    }
}

/// A reply: its status, and what it holds.
#[derive(Debug, PartialEq, Eq)]
pub struct Reply {
    pub status: u16,
    pub body: ReplyBody,
}

#[verifier::ext_equal]
pub struct ReplyView {
    pub status: u16,
    pub body: ReplyBodyView,
}

impl View for Reply {
    type V = ReplyView;

    open spec fn view(&self) -> ReplyView {
        ReplyView { status: self.status, body: self.body@ }
    }
}

pub open spec fn ok_reply(body: ReplyBodyView) -> ReplyView {
    ReplyView { status: 200, body }
}

pub open spec fn error_reply(status: u16, message: Seq<char>) -> ReplyView {
    ReplyView { status, body: ReplyBodyView::Error(message) }
}

fn refuse(status: u16, message: &str) -> (reply: Reply)
    ensures
        reply@ == error_reply(status, message@),
{
    Reply { status, body: ReplyBody::Error(message.to_owned()) }
}

/// What became of the body of a request.
#[derive(Debug, PartialEq, Eq)]
pub enum BodyOutcome<T> {
    Unread(String),
    Malformed(String),
    Body(T),
}

#[verifier::ext_equal]
pub enum BodyOutcomeView<V> {
    Unread(Seq<char>),
    Malformed(Seq<char>),
    Body(V),
}

impl<T: View> View for BodyOutcome<T> {
    type V = BodyOutcomeView<T::V>;

    open spec fn view(&self) -> BodyOutcomeView<T::V> {
        match self {
            BodyOutcome::Unread(error) => BodyOutcomeView::Unread(error@),
            BodyOutcome::Malformed(error) => BodyOutcomeView::Malformed(error@),
            BodyOutcome::Body(body) => BodyOutcomeView::Body(body@),
        }
    }
}

/// A request for an upload.
#[derive(Debug, PartialEq, Eq)]
pub struct CreateTaskBody {
    pub base_url: String,
    pub file_name: String,
    pub file_size: u64,
    pub mime_type: String,
    pub local_file_path: String,
    pub api_token: String,
}

#[verifier::ext_equal]
pub struct CreateTaskView {
    pub base_url: Seq<char>,
    pub file_name: Seq<char>,
    pub file_size: u64,
    pub mime_type: Seq<char>,
    pub local_file_path: Seq<char>,
    pub api_token: Seq<char>,
}

impl View for CreateTaskBody {
    type V = CreateTaskView;

    open spec fn view(&self) -> CreateTaskView {
        CreateTaskView {
            base_url: self.base_url@,
            file_name: self.file_name@,
            file_size: self.file_size,
            mime_type: self.mime_type@,
            local_file_path: self.local_file_path@,
            api_token: self.api_token@,
        }
    }
}

/// A request for an import: an upload with a bucket and a prefix.
#[derive(Debug, PartialEq, Eq)]
pub struct CreateGcloudImportBody {
    pub task: CreateTaskBody,
    pub bucket_name: String,
    pub object_prefix: String,
}

#[verifier::ext_equal]
pub struct CreateImportView {
    pub task: CreateTaskView,
    pub bucket_name: Seq<char>,
    pub object_prefix: Seq<char>,
}

impl View for CreateGcloudImportBody {
    type V = CreateImportView;

    open spec fn view(&self) -> CreateImportView {
        CreateImportView {
            task: self.task@,
            bucket_name: self.bucket_name@,
            object_prefix: self.object_prefix@,
        }
    }
}

impl CreateTaskView {
    /// Everything that an upload needs is there.
    pub open spec fn complete(self) -> bool {
        &&& !is_blank(self.base_url)
        &&& !is_blank(self.file_name)
        &&& !is_blank(self.mime_type)
        &&& !is_blank(self.local_file_path)
        &&& !is_blank(self.api_token)
        &&& self.file_size != 0
    }

    /// The upload that is asked for. The base URL loses slashes at its end; everything
    /// else is trimmed.
    pub open spec fn job(
        self,
        id: Seq<char>,
        bucket_name: Option<Seq<char>>,
        object_prefix: Option<Seq<char>>,
    ) -> UploadTaskView {
        UploadTaskView {
            task_id: id,
            base_url: without_trailing(self.base_url, '/'),
            file_name: trimmed(self.file_name),
            file_size: self.file_size,
            mime_type: trimmed(self.mime_type),
            local_file_path: trimmed(self.local_file_path),
            api_token: trimmed(self.api_token),
            bucket_name,
            object_prefix,
        }
    }
}

impl CreateImportView {
    /// Everything that an import needs is there.
    pub open spec fn complete(self) -> bool {
        self.task.complete() && !is_blank(self.bucket_name) && !is_blank(self.object_prefix)
    }

    /// The import that is asked for.
    pub open spec fn job(self, id: Seq<char>) -> UploadTaskView {
        self.task.job(id, Some(trimmed(self.bucket_name)), Some(trimmed(self.object_prefix)))
    }
}

impl CreateTaskBody {
    fn is_complete(&self) -> (r: bool)
        ensures
            r == self@.complete(),
    {
        !blank(self.base_url.as_str()) && !blank(self.file_name.as_str()) && !blank(
            self.mime_type.as_str(),
        ) && !blank(self.local_file_path.as_str()) && !blank(self.api_token.as_str())
            && self.file_size != 0
    }

    fn to_job(&self, id: &str, bucket_name: Option<String>, object_prefix: Option<String>) -> (job:
        AgentUploadTask)
        ensures
            job@ == self@.job(id@, text_option(bucket_name), text_option(object_prefix)),
    {
        AgentUploadTask {
            task_id: id.to_owned(),
            base_url: sanitize_base_url(self.base_url.as_str()),
            file_name: trim(self.file_name.as_str()).to_owned(),
            file_size: self.file_size,
            mime_type: trim(self.mime_type.as_str()).to_owned(),
            local_file_path: trim(self.local_file_path.as_str()).to_owned(),
            api_token: trim(self.api_token.as_str()).to_owned(),
            bucket_name,
            object_prefix,
        }
    }
}

/// A body that can be used, or the reply that refuses it.
pub open spec fn usable_body<V>(
    outcome: BodyOutcomeView<V>,
    complete: spec_fn(V) -> bool,
    incomplete: Seq<char>,
) -> Result<V, ReplyView> {
    match outcome {
        BodyOutcomeView::Unread(error) => Err(error_reply(400, "读取请求体失败："@ + error)),
        BodyOutcomeView::Malformed(error) => Err(error_reply(400, "解析 JSON 失败："@ + error)),
        BodyOutcomeView::Body(body) => if complete(body) {
            Ok(body)
        } else {
            Err(error_reply(400, incomplete))
        },
    }
}

/// The upload that is asked for, or the reply that refuses it.
pub open spec fn upload_body(outcome: BodyOutcomeView<CreateTaskView>) -> Result<
    CreateTaskView,
    ReplyView,
> {
    usable_body(
        outcome,
        |body: CreateTaskView| body.complete(),
        "baseUrl、localFilePath、fileName、fileSize、apiToken 必填"@,
    )
}

/// The import that is asked for, or the reply that refuses it.
pub open spec fn import_body(outcome: BodyOutcomeView<CreateImportView>) -> Result<
    CreateImportView,
    ReplyView,
> {
    usable_body(
        outcome,
        |body: CreateImportView| body.complete(),
        "baseUrl、localFilePath、fileName、fileSize、apiToken、bucketName、objectPrefix 必填"@,
    )
}

/// Why a file cannot be uploaded: it cannot be read, or its size is another.
pub open spec fn file_refusal(expected: u64, size: Result<u64, Seq<char>>) -> Option<ReplyView> {
    match size {
        Ok(actual) => if actual != expected {
            Some(error_reply(400, "所选文件大小与页面记录不一致，请重新选择"@))
        } else {
            None
        },
        Err(error) => Some(error_reply(400, "读取本地文件失败："@ + error)),
    }
}

pub open spec fn size_view(size: Result<u64, String>) -> Result<u64, Seq<char>> {
    match size {
        Ok(n) => Ok(n),
        Err(error) => Err(error@),
    }
}

fn refused_file(expected: u64, size: &Result<u64, String>) -> (refusal: Option<Reply>)
    ensures
        match refusal {
            Some(reply) => file_refusal(expected, size_view(*size)) == Some(reply@),
            None => file_refusal(expected, size_view(*size)) is None,
        },
{
    match size {
        Ok(actual) => if *actual != expected {
            Some(refuse(400, "所选文件大小与页面记录不一致，请重新选择"))
        } else {
            None
        },
        Err(error) => {
            let message = "读取本地文件失败：".to_owned().concat(error.as_str());
            Some(refuse(400, message.as_str()))
        },
    }
}

fn unusable<T>(outcome: &BodyOutcome<T>) -> (reply: Option<Reply>) where T: View
    ensures
        match outcome@ {
            BodyOutcomeView::Unread(error) => reply matches Some(r) && r@ == error_reply(
                400,
                "读取请求体失败："@ + error,
            ),
            BodyOutcomeView::Malformed(error) => reply matches Some(r) && r@ == error_reply(
                400,
                "解析 JSON 失败："@ + error,
            ),
            BodyOutcomeView::Body(_) => reply is None,
        },
{
    match outcome {
        BodyOutcome::Unread(error) => {
            let message = "读取请求体失败：".to_owned().concat(error.as_str());
            Some(refuse(400, message.as_str()))
        },
        BodyOutcome::Malformed(error) => {
            let message = "解析 JSON 失败：".to_owned().concat(error.as_str());
            Some(refuse(400, message.as_str()))
        },
        BodyOutcome::Body(_) => None,
    }
}

/// Checks the body of a request for an upload.
fn check_upload_body(outcome: &BodyOutcome<CreateTaskBody>) -> (r: Result<&CreateTaskBody, Reply>)
    ensures
        match r {
            Ok(body) => upload_body(outcome@) == Ok::<CreateTaskView, ReplyView>(body@),
            Err(reply) => upload_body(outcome@) == Err::<CreateTaskView, ReplyView>(reply@),
        },
{
    if let Some(reply) = unusable(outcome) {
        return Err(reply);
    }
    match outcome {
        BodyOutcome::Body(body) if body.is_complete() => Ok(body),
        _ => Err(refuse(400, "baseUrl、localFilePath、fileName、fileSize、apiToken 必填")),
    }
}

/// Checks the body of a request for an import.
fn check_import_body(outcome: &BodyOutcome<CreateGcloudImportBody>) -> (r: Result<
    &CreateGcloudImportBody,
    Reply,
>)
    ensures
        match r {
            Ok(body) => import_body(outcome@) == Ok::<CreateImportView, ReplyView>(body@),
            Err(reply) => import_body(outcome@) == Err::<CreateImportView, ReplyView>(reply@),
        },
{
    if let Some(reply) = unusable(outcome) {
        return Err(reply);
    }
    match outcome {
        BodyOutcome::Body(body) if body.task.is_complete() && !blank(body.bucket_name.as_str())
            && !blank(body.object_prefix.as_str()) => Ok(body),
        _ => Err(
            refuse(
                400,
                "baseUrl、localFilePath、fileName、fileSize、apiToken、bucketName、objectPrefix 必填",
            ),
        ),
    }
}

/// The file that is to be looked at before an upload is created.
pub open spec fn file_of_upload(outcome: BodyOutcomeView<CreateTaskView>) -> Option<Seq<char>> {
    match upload_body(outcome) {
        Ok(body) => Some(trimmed(body.local_file_path)),
        Err(_) => None,
    }
}

/// The file that is to be looked at before an import is created.
pub open spec fn file_of_import(outcome: BodyOutcomeView<CreateImportView>) -> Option<Seq<char>> {
    match import_body(outcome) {
        Ok(body) => Some(trimmed(body.task.local_file_path)),
        Err(_) => None,
    }
}

/// The file that is to be looked at before an upload is created, where the request for
/// it can be used.
pub fn upload_file(outcome: &BodyOutcome<CreateTaskBody>) -> (path: Option<String>)
    ensures
        text_option(path) == file_of_upload(outcome@),
        text_option(path) == match upload_body(outcome@) {
            Ok(body) => Some(trimmed(body.local_file_path)),
            Err(_) => None,
        },
{
    match check_upload_body(outcome) {
        Ok(body) => Some(trim(body.local_file_path.as_str()).to_owned()),
        Err(_) => None,
    }
}

/// The file that is to be looked at before an import is created, where the request for
/// it can be used.
pub fn import_file(outcome: &BodyOutcome<CreateGcloudImportBody>) -> (path: Option<String>)
    ensures
        text_option(path) == file_of_import(outcome@),
        text_option(path) == match import_body(outcome@) {
            Ok(body) => Some(trimmed(body.task.local_file_path)),
            Err(_) => None,
        },
{
    match check_import_body(outcome) {
        Ok(body) => Some(trim(body.task.local_file_path.as_str()).to_owned()),
        Err(_) => None,
    }
}

/// The tasks, and what has been made of a request for a new one: the reply, and the
/// upload to run.
pub type Creation = (Map<Seq<char>, TaskView>, ReplyView, Option<UploadTaskView>);

/// A task has been created.
pub open spec fn task_created(tasks: Map<Seq<char>, TaskView>, job: UploadTaskView) -> Creation {
    let task = fresh_task(job.task_id, job.file_name, job.file_size);
    (
        tasks.insert(job.task_id, task),
        ok_reply(ReplyBodyView::Task(task.snapshot)),
        Some(job),
    )
}

/// What is made of a request for an upload; `size` is what a look at the file has shown.
pub open spec fn upload_created(
    tasks: Map<Seq<char>, TaskView>,
    outcome: BodyOutcomeView<CreateTaskView>,
    size: Result<u64, Seq<char>>,
    id: Seq<char>,
) -> Creation {
    match upload_body(outcome) {
        Err(refusal) => (tasks, refusal, None),
        Ok(body) => match file_refusal(body.file_size, size) {
            Some(refusal) => (tasks, refusal, None),
            None => task_created(tasks, body.job(id, None, None)),
        },
    }
}

/// What is made of a request for an import; `size` is what a look at the file has shown.
pub open spec fn import_created(
    tasks: Map<Seq<char>, TaskView>,
    outcome: BodyOutcomeView<CreateImportView>,
    size: Result<u64, Seq<char>>,
    id: Seq<char>,
) -> Creation {
    match import_body(outcome) {
        Err(refusal) => (tasks, refusal, None),
        Ok(body) => match file_refusal(body.task.file_size, size) {
            Some(refusal) => (tasks, refusal, None),
            None => task_created(tasks, body.job(id)),
        },
    }
}

pub open spec fn job_option(job: Option<AgentUploadTask>) -> Option<UploadTaskView> {
    match job {
        Some(j) => Some(j@),
        None => None,
    }
}

/// What the user's choice of a file has brought.
#[derive(Debug, PartialEq, Eq)]
pub struct PickedFile {
    /// The name of the file, where it is text.
    pub file_name: Option<String>,
    pub local_file_path: String,
    pub file_size: Result<u64, String>,
}

/// The reply to a request to pick a file; `mime_type` is that of the file picked.
pub open spec fn pick_reply(picked: Option<PickedFile>, mime_type: Seq<char>) -> ReplyView {
    match picked {
        None => error_reply(400, "已取消选择文件"@),
        Some(file) => match file.file_size {
            Err(error) => error_reply(500, "读取文件信息失败："@ + error@),
            Ok(size) => ok_reply(
                ReplyBodyView::File(
                    SelectionView {
                        file_name: match text_option(file.file_name) {
                            Some(name) => name,
                            None => "video.mp4"@,
                        },
                        file_size: size,
                        mime_type,
                        local_file_path: file.local_file_path@,
                    },
                ),
            ),
        },
    }
}

pub fn picked_file_reply(picked: Option<PickedFile>, mime_type: String) -> (reply: Reply)
    ensures
        reply@ == pick_reply(picked, mime_type@),
{
    match picked {
        None => refuse(400, "已取消选择文件"),
        Some(file) => match file.file_size {
            Err(error) => {
                let message = "读取文件信息失败：".to_owned().concat(error.as_str());
                refuse(500, message.as_str())
            },
            Ok(size) => Reply {
                status: 200,
                body: ReplyBody::File(
                    FileSelectionData {
                        file_name: match file.file_name {
                            Some(name) => name,
                            None => "video.mp4".to_owned(),
                        },
                        file_size: size,
                        mime_type,
                        local_file_path: file.local_file_path,
                    },
                ),
            },
        },
    }
}

/// The reply to a request to pick a file.
pub fn handle_pick_file(windows: bool, picked: Option<PickedFile>) -> (reply: Reply)
    ensures
        match picked {
            Some(file) => exists|mime_type: Seq<char>| #[trigger]
                may_be_mime_type(windows, file.local_file_path@, mime_type) && reply@ == pick_reply(
                    picked,
                    mime_type,
                ),
            None => reply@ == pick_reply(picked, Seq::empty()),
        },
{
    let mime_type = match &picked {
        Some(file) => guess_mime_type(windows, file.local_file_path.as_str()),
        None => String::new(),
    };
    picked_file_reply(picked, mime_type)
}

/// The task as it is once it has been told to stop.
pub open spec fn cancel_requested(task: TaskView) -> TaskView {
    TaskView {
        cancel_requested: true,
        snapshot: SnapshotView {
            status: AgentTaskStatus::Cancelled,
            progress: Progress::Fixed(0),
            speed_bytes_per_second: Speed::Idle,
            ..task.snapshot
        },
        ..task
    }
}

/// What the agent knows.
#[derive(Debug, PartialEq, Eq)]
pub struct AgentState<U> {
    pub version: String,
    pub platform: String,
    pub update_endpoint: Option<String>,
    pub update_pubkey: Option<String>,
    pub tasks: TaskRegistry,
    pub updater: UpdaterRuntimeState<U>,
}

#[verifier::ext_equal]
pub struct StateView<U> {
    pub version: Seq<char>,
    pub platform: Seq<char>,
    pub update_endpoint: Option<Seq<char>>,
    pub update_pubkey: Option<Seq<char>>,
    pub tasks: Map<Seq<char>, TaskView>,
    pub updater: RuntimeView<U>,
}

impl<U> View for AgentState<U> {
    type V = StateView<U>;

    open spec fn view(&self) -> StateView<U> {
        StateView {
            version: self.version@,
            platform: self.platform@,
            update_endpoint: text_option(self.update_endpoint),
            update_pubkey: text_option(self.update_pubkey),
            tasks: self.tasks@,
            updater: self.updater@,
        }
    }
}

impl<U> StateView<U> {
    pub open spec fn configured(self) -> bool {
        is_configured(self.update_endpoint, self.update_pubkey)
    }

    pub open spec fn with_tasks(self, tasks: Map<Seq<char>, TaskView>) -> StateView<U> {
        StateView { tasks, ..self }
    }

    pub open spec fn with_updater(self, updater: RuntimeView<U>) -> StateView<U> {
        StateView { updater, ..self }
    }
}

/// What is to be done for a request.
#[derive(Debug, PartialEq, Eq)]
pub enum Next {
    Respond(Reply),
    /// Check for an update; the reply follows from what the check brings.
    CheckUpdate,
    /// Install the update in the background, and respond.
    InstallUpdate(Reply),
    /// Let the user pick a file; the reply follows from the choice.
    PickFile,
    /// Read the body of the request, which asks for an upload.
    CreateUpload,
    /// Read the body of the request, which asks for an import.
    CreateGcloudImport,
    /// End this process, and respond.
    Terminate { pid: u32, reply: Reply },
}

#[verifier::ext_equal]
pub enum NextView {
    Respond(ReplyView),
    CheckUpdate,
    InstallUpdate(ReplyView),
    PickFile,
    CreateUpload,
    CreateGcloudImport,
    Terminate { pid: u32, reply: ReplyView },
}

impl View for Next {
    type V = NextView;

    open spec fn view(&self) -> NextView {
        match self {
            Next::Respond(reply) => NextView::Respond(reply@),
            Next::CheckUpdate => NextView::CheckUpdate,
            Next::InstallUpdate(reply) => NextView::InstallUpdate(reply@),
            Next::PickFile => NextView::PickFile,
            Next::CreateUpload => NextView::CreateUpload,
            Next::CreateGcloudImport => NextView::CreateGcloudImport,
            Next::Terminate { pid, reply } => NextView::Terminate { pid: *pid, reply: reply@ },
        }
    }
}

/// What the agent can do.
pub open spec fn capability_names() -> Seq<Seq<char>> {
    seq![
        "health"@,
        "desktop-shell"@,
        "localhost-http"@,
        "auto-update"@,
        "pick-file"@,
        "upload-task"@,
        "gcloud-import"@,
        "gcloud-cli-orchestrated"@,
        "cancel-task"@,
        "concurrent-upload"@,
        "tray-resident"@,
    ]
}

pub fn capabilities() -> (names: Vec<String>)
    ensures
        texts(names@) == capability_names(),
{
    let mut names: Vec<String> = Vec::new();
    names.push("health".to_owned());
    names.push("desktop-shell".to_owned());
    names.push("localhost-http".to_owned());
    names.push("auto-update".to_owned());
    names.push("pick-file".to_owned());
    names.push("upload-task".to_owned());
    names.push("gcloud-import".to_owned());
    names.push("gcloud-cli-orchestrated".to_owned());
    names.push("cancel-task".to_owned());
    names.push("concurrent-upload".to_owned());
    names.push("tray-resident".to_owned());
    assert(texts(names@) =~= capability_names());
    names
}

pub open spec fn health_reply<U>(state: StateView<U>) -> ReplyView {
    ok_reply(
        ReplyBodyView::Health {
            version: state.version,
            platform: state.platform,
            capabilities: capability_names(),
        },
    )
}

pub open spec fn info_reply<U>(state: StateView<U>) -> ReplyView {
    ok_reply(
        ReplyBodyView::SystemInfo {
            host: "127.0.0.1"@,
            port: AGENT_PORT,
            mode: "desktop-v1"@,
            transport: "localhost-http"@,
            updater_configured: state.configured(),
        },
    )
}

pub open spec fn update_reply<U>(state: StateView<U>) -> ReplyView {
    ok_reply(ReplyBodyView::Update(state.updater.snapshot))
}

pub open spec fn task_missing() -> ReplyView {
    error_reply(404, "任务不存在"@)
}

/// The reply to a request for a task.
pub open spec fn task_reply<U>(state: StateView<U>, id: Seq<char>) -> ReplyView {
    if state.tasks.contains_key(id) {
        ok_reply(ReplyBodyView::Task(state.tasks[id].snapshot))
    } else {
        task_missing()
    }
}

/// The reply to a request for the log of a task.
pub open spec fn logs_reply<U>(state: StateView<U>, id: Seq<char>) -> ReplyView {
    if state.tasks.contains_key(id) {
        ok_reply(ReplyBodyView::Logs(state.tasks[id].logs))
    } else {
        task_missing()
    }
}

/// The reply is a list of the tasks.
pub open spec fn is_list_reply<U>(state: StateView<U>, reply: ReplyView) -> bool {
    &&& reply.status == 200
    &&& reply.body matches ReplyBodyView::Tasks(list) && is_listing(state.tasks, list)
}

/// A task is told to stop, and the child process that works for it is ended.
pub open spec fn cancelled_task<U>(state: StateView<U>, id: Seq<char>) -> (StateView<U>, NextView) {
    if state.tasks.contains_key(id) {
        let task = cancel_requested(state.tasks[id]);
        let reply = ok_reply(ReplyBodyView::Task(task.snapshot));
        (
            state.with_tasks(state.tasks.insert(id, task)),
            match task.active_pid {
                Some(pid) => NextView::Terminate { pid, reply },
                None => NextView::Respond(reply),
            },
        )
    } else {
        (state, NextView::Respond(task_missing()))
    }
}

/// A check for an update is asked for; it begins where updates are set up.
pub open spec fn update_check<U>(state: StateView<U>) -> (StateView<U>, NextView) {
    if state.configured() {
        (state.with_updater(check_begun(state.updater)), NextView::CheckUpdate)
    } else {
        (state, NextView::Respond(update_reply(state)))
    }
}

/// An installation is asked for.
pub open spec fn update_install<U>(state: StateView<U>) -> (StateView<U>, NextView) {
    if state.configured() {
        let after = state.with_updater(install_requested(state.updater));
        (after, NextView::InstallUpdate(update_reply(after)))
    } else {
        (state, NextView::Respond(error_reply(400, "当前构建未启用自动更新"@)))
    }
}

/// How a request is taken. A list of the tasks is the one reply that is not fixed: the
/// order of tasks with equal identifiers is open.
pub open spec fn is_taken<U>(
    before: StateView<U>,
    route: RouteView,
    after: StateView<U>,
    next: NextView,
) -> bool {
    match route {
        RouteView::Preflight => after == before && next == NextView::Respond(
            ReplyView { status: 204, body: ReplyBodyView::Nothing },
        ),
        RouteView::Health => after == before && next == NextView::Respond(health_reply(before)),
        RouteView::SystemInfo => after == before && next == NextView::Respond(info_reply(before)),
        RouteView::GetUpdate => after == before && next == NextView::Respond(update_reply(before)),
        RouteView::CheckUpdate => (after, next) == update_check(before),
        RouteView::InstallUpdate => (after, next) == update_install(before),
        RouteView::PickFile => after == before && next == NextView::PickFile,
        RouteView::ListTasks => after == before && (next matches NextView::Respond(reply)
            && is_list_reply(before, reply)),
        RouteView::CreateUpload => after == before && next == NextView::CreateUpload,
        RouteView::CreateGcloudImport => after == before && next == NextView::CreateGcloudImport,
        RouteView::GetTaskLogs(id) => after == before && next == NextView::Respond(
            logs_reply(before, id),
        ),
        RouteView::GetTask(id) => after == before && next == NextView::Respond(
            task_reply(before, id),
        ),
        RouteView::CancelTask(id) => (after, next) == cancelled_task(before, id),
        RouteView::Unknown => after == before && next == NextView::Respond(
            error_reply(404, "未找到接口"@),
        ),
    }
}

/// The reply once a check for an update has ended.
pub open spec fn checked_reply<U>(state: StateView<U>, error: Option<Seq<char>>) -> ReplyView {
    match error {
        None => update_reply(state),
        Some(e) => ReplyView {
            status: 500,
            body: ReplyBodyView::UpdateError { error: e, snapshot: state.updater.snapshot },
        },
    }
}

fn as_text(text: &Option<String>) -> (r: Option<&str>)
    ensures
        str_option(r) == text_option(*text),
{
    match text {
        Some(s) => Some(s.as_str()),
        None => None,
    }
}

impl<U> AgentState<U> {
    pub open spec fn wf(&self) -> bool {
        self.tasks.wf()
    }

    pub fn new(
        version: &str,
        platform: &str,
        update_endpoint: Option<String>,
        update_pubkey: Option<String>,
    ) -> (state: Self)
        ensures
            state.wf(),
            state@ == (StateView::<U> {
                version: version@,
                platform: platform@,
                update_endpoint: text_option(update_endpoint),
                update_pubkey: text_option(update_pubkey),
                tasks: Map::empty(),
                updater: fresh_runtime(
                    version@,
                    text_option(update_endpoint),
                    text_option(update_pubkey),
                ),
            }),
    {
        let updater = UpdaterRuntimeState::new(
            version,
            as_text(&update_endpoint),
            as_text(&update_pubkey),
        );
        AgentState {
            version: version.to_owned(),
            platform: platform.to_owned(),
            update_endpoint,
            update_pubkey,
            tasks: TaskRegistry::new(),
            updater,
        }
    }

    fn configured(&self) -> (r: bool)
        ensures
            r == self@.configured(),
    {
        updater_configured(as_text(&self.update_endpoint), as_text(&self.update_pubkey))
    }

    fn health(&self) -> (reply: Reply)
        ensures
            reply@ == health_reply(self@),
    {
        Reply {
            status: 200,
            body: ReplyBody::Health {
                version: self.version.clone(),
                platform: self.platform.clone(),
                capabilities: capabilities(),
            },
        }
    }

    fn system_info(&self) -> (reply: Reply)
        ensures
            reply@ == info_reply(self@),
    {
        Reply {
            status: 200,
            body: ReplyBody::SystemInfo {
                host: agent_host(),
                port: AGENT_PORT,
                mode: "desktop-v1".to_owned(),
                transport: "localhost-http".to_owned(),
                updater_configured: self.configured(),
            },
        }
    }

    /// The reply to a request for what is known of the updates.
    pub fn handle_get_update(&self) -> (reply: Reply)
        ensures
            reply@ == update_reply(self@),
    {
        Reply { status: 200, body: ReplyBody::Update(self.updater.snapshot.clone()) }
    }

    /// Takes a request to check for an update.
    pub fn handle_check_update(&mut self) -> (next: Next)
        requires
            old(self).wf(),
        ensures
            final(self).wf(),
            (final(self)@, next@) == update_check(old(self)@),
    {
        if self.configured() {
            self.updater.begin_check();
            Next::CheckUpdate
        } else {
            Next::Respond(self.handle_get_update())
        }
    }

    /// Records what a check for an update has brought, and gives the reply.
    pub fn check_for_updates(&mut self, outcome: CheckOutcome<U>, now: &str) -> (reply: Reply)
        requires
            old(self).wf(),
        ensures
            final(self).wf(),
            final(self)@ == old(self)@.with_updater(
                check_ended(old(self)@.updater, outcome, now@),
            ),
            reply@ == checked_reply(final(self)@, check_error(outcome)),
    {
        match self.updater.end_check(outcome, now) {
            Ok(_) => self.handle_get_update(),
            Err(error) => Reply {
                status: 500,
                body: ReplyBody::UpdateError { error, snapshot: self.updater.snapshot.clone() },
            },
        }
    }

    /// Takes a request to install an update.
    pub fn handle_install_update(&mut self) -> (next: Next)
        requires
            old(self).wf(),
        ensures
            final(self).wf(),
            (final(self)@, next@) == update_install(old(self)@),
    {
        if self.configured() {
            self.updater.request_install();
            Next::InstallUpdate(self.handle_get_update())
        } else {
            Next::Respond(refuse(400, "当前构建未启用自动更新"))
        }
    }

    /// The reply to a request for all tasks.
    pub fn handle_list_tasks(&self) -> (reply: Reply)
        requires
            self.wf(),
        ensures
            is_list_reply(self@, reply@),
    {
        Reply { status: 200, body: ReplyBody::Tasks(self.tasks.list()) }
    }

    /// The reply to a request for a task.
    pub fn handle_get_task(&self, task_id: &str) -> (reply: Reply)
        requires
            self.wf(),
        ensures
            reply@ == task_reply(self@, task_id@),
    {
        match self.tasks.get(task_id) {
            Some(handle) => Reply {
                status: 200,
                body: ReplyBody::Task(handle.snapshot.clone()),
            },
            None => refuse(404, "任务不存在"),
        }
    }

    /// The reply to a request for the log of a task.
    pub fn handle_get_task_logs(&self, task_id: &str) -> (reply: Reply)
        requires
            self.wf(),
        ensures
            reply@ == logs_reply(self@, task_id@),
    {
        match self.tasks.get(task_id) {
            Some(handle) => Reply { status: 200, body: ReplyBody::Logs(handle.get_logs()) },
            None => refuse(404, "任务不存在"),
        }
    }

    /// Takes a request to cancel a task.
    pub fn handle_cancel_task(&mut self, task_id: &str) -> (next: Next)
        requires
            old(self).wf(),
        ensures
            final(self).wf(),
            (final(self)@, next@) == cancelled_task(old(self)@, task_id@),
    {
        match self.tasks.get_mut(task_id) {
            Some(handle) => {
                handle.cancel_requested = true;
                handle.snapshot.status = AgentTaskStatus::Cancelled;
                handle.snapshot.progress = Progress::Fixed(0);
                handle.snapshot.speed_bytes_per_second = Speed::Idle;
                let reply = Reply { status: 200, body: ReplyBody::Task(handle.snapshot.clone()) };
                match handle.active_pid {
                    Some(pid) => Next::Terminate { pid, reply },
                    None => Next::Respond(reply),
                }
            },
            None => Next::Respond(refuse(404, "任务不存在")),
        }
    }

    fn create(&mut self, job: AgentUploadTask) -> (created: (Reply, Option<AgentUploadTask>))
        requires
            old(self).wf(),
        ensures
            final(self).wf(),
            final(self)@ == old(self)@.with_tasks(final(self)@.tasks),
            (final(self)@.tasks, created.0@, job_option(created.1)) == task_created(
                old(self)@.tasks,
                job@,
            ),
    {
        let handle = TaskHandle::new(job.task_id.as_str(), job.file_name.as_str(), job.file_size);
        let reply = Reply { status: 200, body: ReplyBody::Task(handle.snapshot.clone()) };
        self.tasks.insert(job.task_id.clone(), handle);
        (reply, Some(job))
    }

    /// Takes a request for an upload, which would stand under a given identifier.
    pub fn create_upload_as(
        &mut self,
        outcome: &BodyOutcome<CreateTaskBody>,
        size: &Result<u64, String>,
        id: &str,
    ) -> (created: (Reply, Option<AgentUploadTask>))
        requires
            old(self).wf(),
        ensures
            final(self).wf(),
            final(self)@ == old(self)@.with_tasks(final(self)@.tasks),
            (final(self)@.tasks, created.0@, job_option(created.1)) == upload_created(
                old(self)@.tasks,
                outcome@,
                size_view(*size),
                id@,
            ),
    {
        match check_upload_body(outcome) {
            Err(refusal) => (refusal, None),
            Ok(body) => match refused_file(body.file_size, size) {
                Some(refusal) => (refusal, None),
                None => self.create(body.to_job(id, None, None)),
            },
        }
    }

    /// Takes a request for an import, which would stand under a given identifier.
    pub fn create_import_as(
        &mut self,
        outcome: &BodyOutcome<CreateGcloudImportBody>,
        size: &Result<u64, String>,
        id: &str,
    ) -> (created: (Reply, Option<AgentUploadTask>))
        requires
            old(self).wf(),
        ensures
            final(self).wf(),
            final(self)@ == old(self)@.with_tasks(final(self)@.tasks),
            (final(self)@.tasks, created.0@, job_option(created.1)) == import_created(
                old(self)@.tasks,
                outcome@,
                size_view(*size),
                id@,
            ),
    {
        match check_import_body(outcome) {
            Err(refusal) => (refusal, None),
            Ok(body) => match refused_file(body.task.file_size, size) {
                Some(refusal) => (refusal, None),
                None => {
                    let bucket_name = trim(body.bucket_name.as_str()).to_owned();
                    let object_prefix = trim(body.object_prefix.as_str()).to_owned();
                    self.create(body.task.to_job(id, Some(bucket_name), Some(object_prefix)))
                },
            },
        }
    }

    /// Takes a request for an upload, and creates it under a fresh identifier.
    pub fn handle_create_upload(
        &mut self,
        outcome: &BodyOutcome<CreateTaskBody>,
        size: &Result<u64, String>,
    ) -> (created: (Reply, Option<AgentUploadTask>))
        requires
            old(self).wf(),
        ensures
            final(self).wf(),
            final(self)@ == old(self)@.with_tasks(final(self)@.tasks),
            exists|id: Seq<char>| #[trigger]
                is_uuid_text(id) && (final(self)@.tasks, created.0@, job_option(created.1))
                    == upload_created(old(self)@.tasks, outcome@, size_view(*size), id),
    {
        let id = new_uuid_text();
        self.create_upload_as(outcome, size, id.as_str())
    }

    /// Takes a request for an import, and creates it under a fresh identifier.
    pub fn handle_create_gcloud_import(
        &mut self,
        outcome: &BodyOutcome<CreateGcloudImportBody>,
        size: &Result<u64, String>,
    ) -> (created: (Reply, Option<AgentUploadTask>))
        requires
            old(self).wf(),
        ensures
            final(self).wf(),
            final(self)@ == old(self)@.with_tasks(final(self)@.tasks),
            exists|id: Seq<char>| #[trigger]
                is_uuid_text(id) && (final(self)@.tasks, created.0@, job_option(created.1))
                    == import_created(old(self)@.tasks, outcome@, size_view(*size), id),
    {
        let id = new_uuid_text();
        self.create_import_as(outcome, size, id.as_str())
    }

    /// Takes a request of the local interface.
    pub fn handle_request(&mut self, method: Method, path: &str) -> (next: Next)
        requires
            old(self).wf(),
        ensures
            final(self).wf(),
            is_taken(old(self)@, route(method, path@), final(self)@, next@),
    {
        match route_of(method, path) {
            Route::Preflight => Next::Respond(Reply { status: 204, body: ReplyBody::Nothing }),
            Route::Health => Next::Respond(self.health()),
            Route::SystemInfo => Next::Respond(self.system_info()),
            Route::GetUpdate => Next::Respond(self.handle_get_update()),
            Route::CheckUpdate => self.handle_check_update(),
            Route::InstallUpdate => self.handle_install_update(),
            Route::PickFile => Next::PickFile,
            Route::ListTasks => Next::Respond(self.handle_list_tasks()),
            Route::CreateUpload => Next::CreateUpload,
            Route::CreateGcloudImport => Next::CreateGcloudImport,
            Route::GetTaskLogs(id) => Next::Respond(self.handle_get_task_logs(id.as_str())),
            Route::GetTask(id) => Next::Respond(self.handle_get_task(id.as_str())),
            Route::CancelTask(id) => self.handle_cancel_task(id.as_str()),
            Route::Unknown => Next::Respond(refuse(404, "未找到接口")),
        }
    }
}

/// A request that only reads, one that is not known, and one that is about to read a
/// body or a choice leave the state as it is.
pub proof fn law_only_some_requests_change_state<U>(
    before: StateView<U>,
    method: Method,
    path: Seq<char>,
    after: StateView<U>,
    next: NextView,
)
    requires
        is_taken(before, route(method, path), after, next),
    ensures
        !(method is Post) ==> after == before,
        route(method, path) is Unknown ==> after == before && next == NextView::Respond(
            error_reply(404, "未找到接口"@),
        ),
        method is Options ==> next == NextView::Respond(
            ReplyView { status: 204, body: ReplyBodyView::Nothing },
        ),
{
}

/// A task that has been created is found under its identifier, queued and with nothing
/// in its log; every other task is as it was.
pub proof fn law_created_task_is_found<U>(state: StateView<U>, job: UploadTaskView, other: Seq<char>)
    ensures
        ({
            let after = state.with_tasks(task_created(state.tasks, job).0);
            &&& task_reply(after, job.task_id) == ok_reply(
                ReplyBodyView::Task(
                    fresh_snapshot(job.task_id, job.file_name, job.file_size),
                ),
            )
            &&& task_reply(after, job.task_id) == task_created(state.tasks, job).1
            &&& logs_reply(after, job.task_id) == ok_reply(ReplyBodyView::Logs(Seq::empty()))
            &&& (other != job.task_id ==> task_reply(after, other) == task_reply(state, other)
                && logs_reply(after, other) == logs_reply(state, other))
        }),
{
}

/// A request for a new task is granted with status 200 and starts a task, or is refused
/// with status 400 and then changes nothing and starts nothing. It is granted only where
/// nothing is missing and the file has the size that the request says.
pub proof fn law_creation_is_granted_or_refused(
    tasks: Map<Seq<char>, TaskView>,
    upload: BodyOutcomeView<CreateTaskView>,
    import: BodyOutcomeView<CreateImportView>,
    size: Result<u64, Seq<char>>,
    id: Seq<char>,
)
    ensures
        ({
            let (after, reply, job) = upload_created(tasks, upload, size, id);
            if upload matches BodyOutcomeView::Body(body) && body.complete() && size == Ok::<
                u64,
                Seq<char>,
            >(body.file_size) {
                reply.status == 200 && job is Some && after.contains_key(id)
            } else {
                reply.status == 400 && job is None && after == tasks
            }
        }),
        ({
            let (after, reply, job) = import_created(tasks, import, size, id);
            if import matches BodyOutcomeView::Body(body) && body.complete() && size == Ok::<
                u64,
                Seq<char>,
            >(body.task.file_size) {
                reply.status == 200 && job is Some && after.contains_key(id)
            } else {
                reply.status == 400 && job is None && after == tasks
            }
        }),
{
}

/// A task that has been cancelled is shown as cancelled and told to stop; every other
/// task is as it was. Cancelling a task that is not known changes nothing.
pub proof fn law_cancelled_task_is_shown<U>(state: StateView<U>, id: Seq<char>, other: Seq<char>)
    ensures
        ({
            let (after, next) = cancelled_task(state, id);
            &&& (state.tasks.contains_key(id) ==> after.tasks.contains_key(id)
                && after.tasks[id].cancel_requested
                && after.tasks[id].snapshot.status is Cancelled)
            &&& (!state.tasks.contains_key(id) ==> after == state && next == NextView::Respond(
                task_missing(),
            ))
            &&& (other != id ==> task_reply(after, other) == task_reply(state, other)
                && logs_reply(after, other) == logs_reply(state, other))
        }),
{
}

/// The reply says what is wrong, under this status.
pub open spec fn says_error(reply: ReplyView, status: u16, message: Seq<char>) -> bool {
    reply.status == status && reply.body == ReplyBodyView::Error(message)
}

/// What is answered of a task is the task: a known task is shown as it stands, and its log
/// is given whole; of an unknown task it is said that there is none. To ask changes nothing.
pub proof fn law_task_is_answered_as_it_stands<U>(
    state: StateView<U>,
    id: Seq<char>,
    after: StateView<U>,
    shown: NextView,
    log: NextView,
)
    requires
        is_taken(state, RouteView::GetTask(id), after, shown),
        is_taken(state, RouteView::GetTaskLogs(id), after, log),
    ensures
        after == state,
        shown matches NextView::Respond(reply) && if state.tasks.contains_key(id) {
            reply.status == 200 && reply.body == ReplyBodyView::Task(state.tasks[id].snapshot)
        } else {
            says_error(reply, 404, "任务不存在"@)
        },
        log matches NextView::Respond(reply) && if state.tasks.contains_key(id) {
            reply.status == 200 && reply.body == ReplyBodyView::Logs(state.tasks[id].logs)
        } else {
            says_error(reply, 404, "任务不存在"@)
        },
{
}

/// After an entry has been added to the log of a known task, the log that is answered is the
/// one from before with that entry at its end, and what is shown of the task is as before.
/// The answers for every other task stay the same.
pub proof fn law_logged_entry_is_answered<U>(
    state: StateView<U>,
    id: Seq<char>,
    other: Seq<char>,
    entry: LogView,
)
    requires
        state.tasks.contains_key(id),
        other != id,
    ensures
        ({
            let task = logged(
                state.tasks[id],
                entry.timestamp,
                entry.level,
                entry.message,
                entry.chunk_index,
                entry.detail,
            );
            let after = state.with_tasks(state.tasks.insert(id, task));
            &&& logs_reply(state, id).body matches ReplyBodyView::Logs(before)
            &&& logs_reply(after, id).body matches ReplyBodyView::Logs(now)
            &&& is_log_with(before, now, entry)
            &&& logs_reply(after, id).status == 200
            &&& task_reply(after, id) == task_reply(state, id)
            &&& task_reply(after, other) == task_reply(state, other)
            &&& logs_reply(after, other) == logs_reply(state, other)
        }),
{
}

/// Whatever step a known task has taken, what is answered of it afterwards is its new
/// snapshot and its new log.
pub proof fn law_changed_task_is_answered<U>(
    state: StateView<U>,
    id: Seq<char>,
    changed: TaskView,
)
    ensures
        ({
            let after = state.with_tasks(state.tasks.insert(id, changed));
            &&& task_reply(after, id).status == 200
            &&& task_reply(after, id).body == ReplyBodyView::Task(changed.snapshot)
            &&& logs_reply(after, id).status == 200
            &&& logs_reply(after, id).body == ReplyBodyView::Logs(changed.logs)
            &&& after.updater == state.updater
            &&& after.version == state.version
            &&& after.platform == state.platform
        }),
{
}

/// The upload that a request asks for has what the request says: the size as it is, the
/// base URL without slashes at its end, and everything else without white space around it.
pub proof fn law_job_has_what_the_request_says(
    body: CreateTaskView,
    import: CreateImportView,
    id: Seq<char>,
)
    ensures
        ({
            let job = body.job(id, None, None);
            &&& job.task_id == id
            &&& job.file_size == body.file_size
            &&& job.base_url == without_trailing(body.base_url, '/')
            &&& job.file_name == trimmed(body.file_name)
            &&& job.mime_type == trimmed(body.mime_type)
            &&& job.local_file_path == trimmed(body.local_file_path)
            &&& job.api_token == trimmed(body.api_token)
            &&& job.bucket_name is None
            &&& job.object_prefix is None
        }),
        ({
            let job = import.job(id);
            &&& job.task_id == id
            &&& job.file_size == import.task.file_size
            &&& job.base_url == without_trailing(import.task.base_url, '/')
            &&& job.file_name == trimmed(import.task.file_name)
            &&& job.mime_type == trimmed(import.task.mime_type)
            &&& job.local_file_path == trimmed(import.task.local_file_path)
            &&& job.api_token == trimmed(import.task.api_token)
            &&& job.bucket_name == Some(trimmed(import.bucket_name))
            &&& job.object_prefix == Some(trimmed(import.object_prefix))
        }),
{
}

/// A request for a task is complete exactly where none of its texts is blank and the file
/// is not empty.
pub proof fn law_complete_requests(body: CreateTaskView, import: CreateImportView)
    ensures
        body.complete() <==> !is_blank(body.base_url) && !is_blank(body.file_name) && !is_blank(
            body.mime_type,
        ) && !is_blank(body.local_file_path) && !is_blank(body.api_token) && body.file_size > 0,
        import.complete() <==> import.task.complete() && !is_blank(import.bucket_name)
            && !is_blank(import.object_prefix),
{
}

/// A request for an upload that can be granted starts the upload it asks for, and is answered
/// with the new task as it waits; one that cannot is told why: what of the body cannot be
/// read, that something is missing, that the file cannot be read, or that its size is
/// another.
pub proof fn law_request_for_an_upload(
    tasks: Map<Seq<char>, TaskView>,
    outcome: BodyOutcomeView<CreateTaskView>,
    size: Result<u64, Seq<char>>,
    id: Seq<char>,
)
    ensures
        ({
            let (after, reply, job) = upload_created(tasks, outcome, size, id);
            match outcome {
                BodyOutcomeView::Unread(e) => says_error(reply, 400, "读取请求体失败："@ + e) && job
                    is None && after == tasks,
                BodyOutcomeView::Malformed(e) => says_error(reply, 400, "解析 JSON 失败："@ + e)
                    && job is None && after == tasks,
                BodyOutcomeView::Body(body) => if !body.complete() {
                    says_error(
                        reply,
                        400,
                        "baseUrl、localFilePath、fileName、fileSize、apiToken 必填"@,
                    ) && job is None && after == tasks
                } else {
                    match size {
                        Err(e) => says_error(reply, 400, "读取本地文件失败："@ + e) && job is None
                            && after == tasks,
                        Ok(actual) => if actual == body.file_size {
                            &&& job == Some(body.job(id, None, None))
                            &&& reply.status == 200
                            &&& reply.body matches ReplyBodyView::Task(snapshot) && {
                                &&& snapshot.task_id == id
                                &&& snapshot.file_name == trimmed(body.file_name)
                                &&& snapshot.file_size == body.file_size
                                &&& snapshot.status is Queued
                            }
                            &&& after.contains_key(id)
                            &&& reply.body == ReplyBodyView::Task(after[id].snapshot)
                            &&& after[id].logs.len() == 0
                            &&& !after[id].cancel_requested
                            &&& after.remove(id) == tasks.remove(id)
                        } else {
                            says_error(
                                reply,
                                400,
                                "所选文件大小与页面记录不一致，请重新选择"@,
                            ) && job is None && after == tasks
                        },
                    }
                },
            }
        }),
{
    let after = upload_created(tasks, outcome, size, id).0;
    assert(after.remove(id) =~= tasks.remove(id));
}

/// A request for an import that can be granted starts the import it asks for, and is answered
/// with the new task as it waits; one that cannot is told why, as for an upload.
pub proof fn law_request_for_an_import(
    tasks: Map<Seq<char>, TaskView>,
    outcome: BodyOutcomeView<CreateImportView>,
    size: Result<u64, Seq<char>>,
    id: Seq<char>,
)
    ensures
        ({
            let (after, reply, job) = import_created(tasks, outcome, size, id);
            match outcome {
                BodyOutcomeView::Unread(e) => says_error(reply, 400, "读取请求体失败："@ + e) && job
                    is None && after == tasks,
                BodyOutcomeView::Malformed(e) => says_error(reply, 400, "解析 JSON 失败："@ + e)
                    && job is None && after == tasks,
                BodyOutcomeView::Body(body) => if !body.complete() {
                    says_error(
                        reply,
                        400,
                        "baseUrl、localFilePath、fileName、fileSize、apiToken、bucketName、objectPrefix 必填"@,
                    ) && job is None && after == tasks
                } else {
                    match size {
                        Err(e) => says_error(reply, 400, "读取本地文件失败："@ + e) && job is None
                            && after == tasks,
                        Ok(actual) => if actual == body.task.file_size {
                            &&& job == Some(body.job(id))
                            &&& reply.status == 200
                            &&& reply.body matches ReplyBodyView::Task(snapshot) && {
                                &&& snapshot.task_id == id
                                &&& snapshot.file_name == trimmed(body.task.file_name)
                                &&& snapshot.file_size == body.task.file_size
                                &&& snapshot.status is Queued
                            }
                            &&& after.contains_key(id)
                            &&& reply.body == ReplyBodyView::Task(after[id].snapshot)
                            &&& after[id].logs.len() == 0
                            &&& !after[id].cancel_requested
                            &&& after.remove(id) == tasks.remove(id)
                        } else {
                            says_error(
                                reply,
                                400,
                                "所选文件大小与页面记录不一致，请重新选择"@,
                            ) && job is None && after == tasks
                        },
                    }
                },
            }
        }),
{
    let after = import_created(tasks, outcome, size, id).0;
    assert(after.remove(id) =~= tasks.remove(id));
}

/// A file that was picked is answered with its name, its size, its path and its media type;
/// where none was picked, or its size is not known, that is said.
pub proof fn law_picked_file_is_answered(picked: Option<PickedFile>, mime_type: Seq<char>)
    ensures
        picked is None ==> says_error(pick_reply(picked, mime_type), 400, "已取消选择文件"@),
        picked matches Some(file) ==> match file.file_size {
            Err(error) => says_error(
                pick_reply(picked, mime_type),
                500,
                "读取文件信息失败："@ + error@,
            ),
            Ok(size) => {
                &&& pick_reply(picked, mime_type).status == 200
                &&& pick_reply(picked, mime_type).body matches ReplyBodyView::File(selection) && {
                    &&& selection.file_size == size
                    &&& selection.mime_type == mime_type
                    &&& selection.local_file_path == file.local_file_path@
                    &&& (file.file_name matches Some(name) ==> selection.file_name == name@)
                    &&& (file.file_name is None ==> selection.file_name == "video.mp4"@)
                }
            },
        },
{
}

/// A known task that is cancelled is told to stop and shown as cancelled at once, with
/// nothing else of it changed; the process that works for it, if any, is ended, and that
/// one only. It is answered as it then stands.
pub proof fn law_cancelling_stops_task_and_process<U>(
    state: StateView<U>,
    id: Seq<char>,
    after: StateView<U>,
    next: NextView,
)
    requires
        is_taken(state, RouteView::CancelTask(id), after, next),
    ensures
        !state.tasks.contains_key(id) ==> after == state && (next matches NextView::Respond(reply)
            && says_error(reply, 404, "任务不存在"@)),
        state.tasks.contains_key(id) ==> {
            let before = state.tasks[id];
            let task = after.tasks[id];
            &&& after.tasks.contains_key(id)
            &&& after.tasks.remove(id) == state.tasks.remove(id)
            &&& after.updater == state.updater
            &&& task.cancel_requested
            &&& task.snapshot.status is Cancelled
            &&& task.snapshot.progress == Progress::Fixed(0)
            &&& task.snapshot.speed_bytes_per_second is Idle
            &&& task.snapshot.task_id == before.snapshot.task_id
            &&& task.snapshot.file_name == before.snapshot.file_name
            &&& task.snapshot.file_size == before.snapshot.file_size
            &&& task.snapshot.uploaded_bytes == before.snapshot.uploaded_bytes
            &&& task.snapshot.total_bytes == before.snapshot.total_bytes
            &&& task.snapshot.upload_id == before.snapshot.upload_id
            &&& task.snapshot.gs_uri == before.snapshot.gs_uri
            &&& task.snapshot.object_name == before.snapshot.object_name
            &&& task.snapshot.error == before.snapshot.error
            &&& task.snapshot.result == before.snapshot.result
            &&& task.logs == before.logs
            &&& task.active_pid == before.active_pid
            &&& match before.active_pid {
                Some(running) => next matches NextView::Terminate { pid, reply } && pid == running
                    && reply.status == 200 && reply.body == ReplyBodyView::Task(task.snapshot),
                None => next matches NextView::Respond(reply) && reply.status == 200 && reply.body
                    == ReplyBodyView::Task(task.snapshot),
            }
        },
{
    if state.tasks.contains_key(id) {
        assert(after.tasks.remove(id) =~= state.tasks.remove(id));
    }
}

/// Who the agent is, and what it can do, is answered from its state; to ask changes nothing.
pub proof fn law_agent_says_who_it_is<U>(
    state: StateView<U>,
    after: StateView<U>,
    health: NextView,
    info: NextView,
)
    requires
        is_taken(state, RouteView::Health, after, health),
        is_taken(state, RouteView::SystemInfo, after, info),
    ensures
        after == state,
        health matches NextView::Respond(reply) && reply.status == 200 && (
        reply.body matches ReplyBodyView::Health { version, platform, capabilities } && {
            &&& version == state.version
            &&& platform == state.platform
            &&& capabilities.len() == 11
            &&& capabilities.contains("health"@)
            &&& capabilities.contains("desktop-shell"@)
            &&& capabilities.contains("localhost-http"@)
            &&& capabilities.contains("auto-update"@)
            &&& capabilities.contains("pick-file"@)
            &&& capabilities.contains("upload-task"@)
            &&& capabilities.contains("gcloud-import"@)
            &&& capabilities.contains("gcloud-cli-orchestrated"@)
            &&& capabilities.contains("cancel-task"@)
            &&& capabilities.contains("concurrent-upload"@)
            &&& capabilities.contains("tray-resident"@)
        }),
        info matches NextView::Respond(reply) && reply.status == 200 && (
        reply.body matches ReplyBodyView::SystemInfo {
            host,
            port,
            mode,
            transport,
            updater_configured,
        } && {
            &&& host == "127.0.0.1"@
            &&& port == 17777
            &&& mode == "desktop-v1"@
            &&& transport == "localhost-http"@
            &&& updater_configured == ((state.update_endpoint matches Some(e) && !is_blank(e)) && (
            state.update_pubkey matches Some(k) && !is_blank(k)))
        }),
{
    let names = capability_names();
    assert(names[0] == "health"@);
    assert(names[1] == "desktop-shell"@);
    assert(names[2] == "localhost-http"@);
    assert(names[3] == "auto-update"@);
    assert(names[4] == "pick-file"@);
    assert(names[5] == "upload-task"@);
    assert(names[6] == "gcloud-import"@);
    assert(names[7] == "gcloud-cli-orchestrated"@);
    assert(names[8] == "cancel-task"@);
    assert(names[9] == "concurrent-upload"@);
    assert(names[10] == "tray-resident"@);
}

/// The requests about updates: what is known of them is answered as it stands; a check or an
/// installation begins exactly where updates are set up, and the tasks are not touched.
pub proof fn law_requests_about_updates<U>(
    state: StateView<U>,
    requested: RouteView,
    after: StateView<U>,
    next: NextView,
)
    requires
        is_taken(state, requested, after, next),
        requested is GetUpdate || requested is CheckUpdate || requested is InstallUpdate,
    ensures
        ({
            let set_up = (state.update_endpoint matches Some(e) && !is_blank(e)) && (
            state.update_pubkey matches Some(k) && !is_blank(k));
            &&& after.tasks == state.tasks
            &&& (requested is GetUpdate ==> after == state && (next matches NextView::Respond(reply)
                && reply.status == 200 && reply.body == ReplyBodyView::Update(
                state.updater.snapshot,
            )))
            &&& (requested is CheckUpdate ==> if set_up {
                &&& next is CheckUpdate
                &&& after.updater.snapshot.checking
                &&& after.updater.snapshot.last_error is None
                &&& after.updater.pending_update == state.updater.pending_update
            } else {
                after == state && (next matches NextView::Respond(reply) && reply.status == 200
                    && reply.body == ReplyBodyView::Update(state.updater.snapshot))
            })
            &&& (requested is InstallUpdate ==> if set_up {
                &&& next matches NextView::InstallUpdate(reply) && reply.status == 200
                    && reply.body == ReplyBodyView::Update(after.updater.snapshot)
                &&& after.updater.snapshot.installing
                &&& !after.updater.snapshot.checking
                &&& after.updater.snapshot.last_error is None
                &&& after.updater.pending_update == state.updater.pending_update
            } else {
                after == state && (next matches NextView::Respond(reply) && says_error(
                    reply,
                    400,
                    "当前构建未启用自动更新"@,
                ))
            })
        }),
{
}

/// A check that has not failed is answered with what is then known of the updates, and one
/// that has failed with its error beside that.
pub proof fn law_check_is_answered<U>(state: StateView<U>, error: Seq<char>)
    ensures
        checked_reply(state, None).status == 200,
        checked_reply(state, None).body == ReplyBodyView::Update(state.updater.snapshot),
        checked_reply(state, Some(error)).status == 500,
        checked_reply(state, Some(error)).body == (ReplyBodyView::UpdateError {
            error,
            snapshot: state.updater.snapshot,
        }),
{
}

/// Requests that need more than the state are passed on, a request that is not known is
/// refused, and a preflight is granted; none of them changes anything.
pub proof fn law_other_requests_are_passed_on<U>(
    state: StateView<U>,
    requested: RouteView,
    after: StateView<U>,
    next: NextView,
)
    requires
        is_taken(state, requested, after, next),
    ensures
        requested is PickFile ==> after == state && next is PickFile,
        requested is CreateUpload ==> after == state && next is CreateUpload,
        requested is CreateGcloudImport ==> after == state && next is CreateGcloudImport,
        requested is Preflight ==> after == state && (next matches NextView::Respond(reply)
            && reply.status == 204 && reply.body is Nothing),
        requested is Unknown ==> after == state && (next matches NextView::Respond(reply)
            && says_error(reply, 404, "未找到接口"@)),
        requested is ListTasks ==> after == state && (next matches NextView::Respond(reply)
            && reply.status == 200 && reply.body is Tasks),
{
}

/// A file is looked at exactly where a request is complete, and it is the one that the task
/// would upload: whatever size it is found to have, a task that is created uploads that file.
pub proof fn law_file_of_the_request_is_looked_at(
    tasks: Map<Seq<char>, TaskView>,
    upload: BodyOutcomeView<CreateTaskView>,
    import: BodyOutcomeView<CreateImportView>,
    size: Result<u64, Seq<char>>,
    id: Seq<char>,
)
    ensures
        file_of_upload(upload) is Some <==> (upload matches BodyOutcomeView::Body(body)
            && body.complete()),
        upload_created(tasks, upload, size, id).2 matches Some(job) ==> file_of_upload(upload)
            == Some(job.local_file_path),
        file_of_import(import) is Some <==> (import matches BodyOutcomeView::Body(body)
            && body.complete()),
        import_created(tasks, import, size, id).2 matches Some(job) ==> file_of_import(import)
            == Some(job.local_file_path),
{
}

} // verus!
