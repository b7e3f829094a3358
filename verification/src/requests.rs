//! The requests that the agent sends to the upload service, and what its replies mean.
use crate::task::{AgentUploadTask, UploadTaskView};
use crate::text::{decimal, decimal_text, law_decimals_differ, text_option};
use vstd::prelude::*;
use vstd::string::*;

verus! {

#[derive(Clone, Copy, Debug, PartialEq, Eq, Structural)]
pub enum HttpMethod {
    Get,
    Post,
    Put,
    Delete,
}

/// What a request carries.
#[derive(Debug, PartialEq, Eq)]
pub enum RequestBody {
    Nothing,
    /// The bytes of the chunk at hand.
    Chunk,
    /// A JSON object with the member `uploadId`.
    UploadId(String),
    /// A JSON object with the members `filename`, `fileSize` and `mimeType`.
    Init { filename: String, file_size: u64, mime_type: String },
    /// A JSON object with the members `gsUri` and `originalFilename`.
    ImportAsset { gs_uri: String, original_filename: String },
}

#[verifier::ext_equal]
pub enum BodyView {
    Nothing,
    Chunk,
    UploadId(Seq<char>),
    Init { filename: Seq<char>, file_size: u64, mime_type: Seq<char> },
    ImportAsset { gs_uri: Seq<char>, original_filename: Seq<char> },
}

impl View for RequestBody {
    type V = BodyView;

    open spec fn view(&self) -> BodyView {
        match self {
            RequestBody::Nothing => BodyView::Nothing,
            RequestBody::Chunk => BodyView::Chunk,
            RequestBody::UploadId(id) => BodyView::UploadId(id@),
            RequestBody::Init { filename, file_size, mime_type } => BodyView::Init {
                filename: filename@,
                file_size: *file_size,
                mime_type: mime_type@,
            },
            RequestBody::ImportAsset { gs_uri, original_filename } => BodyView::ImportAsset {
                gs_uri: gs_uri@,
                original_filename: original_filename@,
            },
        }
    }
}

/// A request to be sent.
#[derive(Debug, PartialEq, Eq)]
pub struct HttpRequest {
    pub method: HttpMethod,
    pub url: String,
    /// The bearer token, where the request is authorised.
    pub bearer: Option<String>,
    pub headers: Vec<(String, String)>,
    /// A time limit of its own, in seconds.
    pub timeout_seconds: Option<u64>,
    pub body: RequestBody,
}

#[verifier::ext_equal]
pub struct RequestView {
    pub method: HttpMethod,
    pub url: Seq<char>,
    pub bearer: Option<Seq<char>>,
    pub headers: Seq<(Seq<char>, Seq<char>)>,
    pub timeout_seconds: Option<u64>,
    pub body: BodyView,
}

pub open spec fn pair_views(pairs: Seq<(String, String)>) -> Seq<(Seq<char>, Seq<char>)> {
    pairs.map_values(|pair: (String, String)| (pair.0@, pair.1@))
}

impl View for HttpRequest {
    type V = RequestView;

    open spec fn view(&self) -> RequestView {
        RequestView {
            method: self.method,
            url: self.url@,
            bearer: text_option(self.bearer),
            headers: pair_views(self.headers@),
            timeout_seconds: self.timeout_seconds,
            body: self.body@,
        }
    }
}

/// An authorised request without headers of its own.
pub open spec fn authorised(
    method: HttpMethod,
    url: Seq<char>,
    token: Seq<char>,
    body: BodyView,
) -> RequestView {
    RequestView {
        method,
        url,
        bearer: Some(token),
        headers: Seq::empty(),
        timeout_seconds: None,
        body,
    }
}

fn authorised_request(method: HttpMethod, url: String, token: &str, body: RequestBody) -> (r:
    HttpRequest)
    ensures
        r@ == authorised(method, url@, token@, body@),
{
    let request = HttpRequest {
        method,
        url,
        bearer: Some(token.to_owned()),
        headers: Vec::new(),
        timeout_seconds: None,
        body,
    };
    assert(request@.headers =~= Seq::empty());
    request
}

/// Opens an upload session for the file of `task`.
pub open spec fn init_spec(task: UploadTaskView) -> RequestView {
    authorised(
        HttpMethod::Post,
        task.base_url + "/api/upload/video/init"@,
        task.api_token,
        BodyView::Init {
            filename: task.file_name,
            file_size: task.file_size,
            mime_type: task.mime_type,
        },
    )
}

pub fn init_request(task: &AgentUploadTask) -> (r: HttpRequest)
    ensures
        r@ == init_spec(task@),
{
    authorised_request(
        HttpMethod::Post,
        task.base_url.clone().concat("/api/upload/video/init"),
        task.api_token.as_str(),
        RequestBody::Init {
            filename: task.file_name.clone(),
            file_size: task.file_size,
            mime_type: task.mime_type.clone(),
        },
    )
}

/// Sends one chunk of an upload.
pub open spec fn chunk_spec(
    task: UploadTaskView,
    upload_id: Seq<char>,
    chunk_index: u64,
) -> RequestView {
    RequestView {
        method: HttpMethod::Put,
        url: task.base_url + "/api/upload/video/chunk?uploadId="@ + upload_id + "&chunkIndex="@
            + decimal(chunk_index as nat),
        bearer: Some(task.api_token),
        headers: seq![
            ("Content-Type"@, "application/octet-stream"@),
            ("x-upload-id"@, upload_id),
            ("x-chunk-index"@, decimal(chunk_index as nat)),
        ],
        timeout_seconds: None,
        body: BodyView::Chunk,
    }
}

pub fn chunk_request(task: &AgentUploadTask, upload_id: &str, chunk_index: u64) -> (r: HttpRequest)
    ensures
        r@ == chunk_spec(task@, upload_id@, chunk_index),
{
    let index_text = decimal_text(chunk_index);
    let url = task.base_url.clone().concat("/api/upload/video/chunk?uploadId=").concat(
        upload_id,
    ).concat("&chunkIndex=").concat(index_text.as_str());
    let mut headers: Vec<(String, String)> = Vec::new();
    headers.push(("Content-Type".to_owned(), "application/octet-stream".to_owned()));
    headers.push(("x-upload-id".to_owned(), upload_id.to_owned()));
    headers.push(("x-chunk-index".to_owned(), index_text));
    let request = HttpRequest {
        method: HttpMethod::Put,
        url,
        bearer: Some(task.api_token.clone()),
        headers,
        timeout_seconds: None,
        body: RequestBody::Chunk,
    };
    assert(request@.headers =~= chunk_spec(task@, upload_id@, chunk_index).headers);
    request
}

/// Asks which chunks of an upload have arrived.
pub open spec fn status_spec(task: UploadTaskView, upload_id: Seq<char>) -> RequestView {
    authorised(
        HttpMethod::Get,
        task.base_url + "/api/upload/video/status?uploadId="@ + upload_id,
        task.api_token,
        BodyView::Nothing,
    )
}

pub fn status_request(task: &AgentUploadTask, upload_id: &str) -> (r: HttpRequest)
    ensures
        r@ == status_spec(task@, upload_id@),
{
    authorised_request(
        HttpMethod::Get,
        task.base_url.clone().concat("/api/upload/video/status?uploadId=").concat(upload_id),
        task.api_token.as_str(),
        RequestBody::Nothing,
    )
}

/// Ends an upload whose chunks have all been sent.
pub open spec fn complete_spec(task: UploadTaskView, upload_id: Seq<char>) -> RequestView {
    authorised(
        HttpMethod::Post,
        task.base_url + "/api/upload/video/complete"@,
        task.api_token,
        BodyView::UploadId(upload_id),
    )
}

pub fn complete_request(task: &AgentUploadTask, upload_id: &str) -> (r: HttpRequest)
    ensures
        r@ == complete_spec(task@, upload_id@),
{
    authorised_request(
        HttpMethod::Post,
        task.base_url.clone().concat("/api/upload/video/complete"),
        task.api_token.as_str(),
        RequestBody::UploadId(upload_id.to_owned()),
    )
}

/// Gives up an upload session.
pub open spec fn abort_spec(task: UploadTaskView, upload_id: Seq<char>) -> RequestView {
    authorised(
        HttpMethod::Post,
        task.base_url + "/api/upload/video/abort"@,
        task.api_token,
        BodyView::UploadId(upload_id),
    )
}

pub fn abort_request(task: &AgentUploadTask, upload_id: &str) -> (r: HttpRequest)
    ensures
        r@ == abort_spec(task@, upload_id@),
{
    authorised_request(
        HttpMethod::Post,
        task.base_url.clone().concat("/api/upload/video/abort"),
        task.api_token.as_str(),
        RequestBody::UploadId(upload_id.to_owned()),
    )
}

/// Gives back the token that the task was authorised with.
pub open spec fn revoke_spec(task: UploadTaskView) -> RequestView {
    authorised(
        HttpMethod::Delete,
        task.base_url + "/api/upload/video/agent-token"@,
        task.api_token,
        BodyView::Nothing,
    )
}

pub fn revoke_request(task: &AgentUploadTask) -> (r: HttpRequest)
    ensures
        r@ == revoke_spec(task@),
{
    authorised_request(
        HttpMethod::Delete,
        task.base_url.clone().concat("/api/upload/video/agent-token"),
        task.api_token.as_str(),
        RequestBody::Nothing,
    )
}

/// Has an object in Cloud Storage imported as an asset.
pub open spec fn import_spec(task: UploadTaskView, gs_uri: Seq<char>) -> RequestView {
    authorised(
        HttpMethod::Post,
        task.base_url + "/api/media/import-gcs"@,
        task.api_token,
        BodyView::ImportAsset { gs_uri, original_filename: task.file_name },
    )
}

pub fn import_request(task: &AgentUploadTask, gs_uri: &str) -> (r: HttpRequest)
    ensures
        r@ == import_spec(task@, gs_uri@),
{
    authorised_request(
        HttpMethod::Post,
        task.base_url.clone().concat("/api/media/import-gcs"),
        task.api_token.as_str(),
        RequestBody::ImportAsset {
            gs_uri: gs_uri.to_owned(),
            original_filename: task.file_name.clone(),
        },
    )
}

/// Asks a resumable upload session how much it has received.
pub open spec fn tracker_spec(upload_url: Seq<char>, total_bytes: u64) -> RequestView {
    RequestView {
        method: HttpMethod::Put,
        url: upload_url,
        bearer: None,
        headers: seq![
            ("Content-Length"@, "0"@),
            ("Content-Range"@, "bytes */"@ + decimal(total_bytes as nat)),
        ],
        timeout_seconds: Some(5),
        body: BodyView::Nothing,
    }
}

pub fn tracker_request(upload_url: &str, total_bytes: u64) -> (r: HttpRequest)
    ensures
        r@ == tracker_spec(upload_url@, total_bytes),
{
    let total_text = decimal_text(total_bytes);
    let mut headers: Vec<(String, String)> = Vec::new();
    headers.push(("Content-Length".to_owned(), "0".to_owned()));
    headers.push(("Content-Range".to_owned(), "bytes */".to_owned().concat(total_text.as_str())));
    let request = HttpRequest {
        method: HttpMethod::Put,
        url: upload_url.to_owned(),
        bearer: None,
        headers,
        timeout_seconds: Some(5),
        body: RequestBody::Nothing,
    };
    assert(request@.headers =~= tracker_spec(upload_url@, total_bytes).headers);
    request
}

/// Whether an HTTP status code reports success.
pub open spec fn is_success(code: u16) -> bool {
    200 <= code < 300
}

pub fn http_success(code: u16) -> (r: bool)
    ensures
        r == is_success(code),
{
    200 <= code && code < 300
}

/// What became of a request whose reply is to be read as a `T`.
#[derive(Debug, PartialEq, Eq)]
pub enum HttpOutcome<T> {
    /// No reply came.
    NotSent(String),
    /// The reply does not report success: its status, and its body.
    Refused { status: String, body: String },
    /// The reply could not be read.
    Unreadable(String),
    Received(T),
}

#[verifier::ext_equal]
pub enum OutcomeView<V> {
    NotSent(Seq<char>),
    Refused { status: Seq<char>, body: Seq<char> },
    Unreadable(Seq<char>),
    Received(V),
}

impl<T: View> View for HttpOutcome<T> {
    type V = OutcomeView<T::V>;

    open spec fn view(&self) -> OutcomeView<T::V> {
        match self {
            HttpOutcome::NotSent(error) => OutcomeView::NotSent(error@),
            HttpOutcome::Refused { status, body } => OutcomeView::Refused {
                status: status@,
                body: body@,
            },
            HttpOutcome::Unreadable(error) => OutcomeView::Unreadable(error@),
            HttpOutcome::Received(reply) => OutcomeView::Received(reply@),
        }
    }
}

/// The reply to a request, or the message that says why there is none: `failed` stands
/// before a refusal, `garbled` before a reply that could not be read.
pub open spec fn reply_or_error<V>(
    outcome: OutcomeView<V>,
    failed: Seq<char>,
    garbled: Seq<char>,
) -> Result<V, Seq<char>> {
    match outcome {
        OutcomeView::NotSent(error) => Err(failed + error),
        OutcomeView::Refused { status, body } => Err(failed + "HTTP "@ + status + " "@ + body),
        OutcomeView::Unreadable(error) => Err(garbled + error),
        OutcomeView::Received(reply) => Ok(reply),
    }
}

pub open spec fn reply_view<T: View>(r: Result<T, String>) -> Result<T::V, Seq<char>> {
    match r {
        Ok(reply) => Ok(reply@),
        Err(error) => Err(error@),
    }
}

pub fn reply_of<T: View>(outcome: HttpOutcome<T>, failed: &str, garbled: &str) -> (r: Result<
    T,
    String,
>)
    ensures
        reply_view(r) == reply_or_error(outcome@, failed@, garbled@),
{
    match outcome {
        HttpOutcome::NotSent(error) => Err(failed.to_owned().concat(error.as_str())),
        HttpOutcome::Refused { status, body } => Err(
            failed.to_owned().concat("HTTP ").concat(status.as_str()).concat(" ").concat(
                body.as_str(),
            ),
        ),
        HttpOutcome::Unreadable(error) => Err(garbled.to_owned().concat(error.as_str())),
        HttpOutcome::Received(reply) => Ok(reply),
    }
}

/// The session that the service has opened.
#[derive(Debug, PartialEq, Eq)]
pub struct InitResponse {
    pub upload_id: String,
    pub chunk_size: u64,
    pub total_chunks: Option<u64>,
}

#[verifier::ext_equal]
pub struct InitView {
    pub upload_id: Seq<char>,
    pub chunk_size: u64,
    pub total_chunks: Option<u64>,
}

impl View for InitResponse {
    type V = InitView;

    open spec fn view(&self) -> InitView {
        InitView {
            upload_id: self.upload_id@,
            chunk_size: self.chunk_size,
            total_chunks: self.total_chunks,
        }
    }
}

/// The chunks of an upload that have arrived.
#[derive(Debug, PartialEq, Eq)]
pub struct StatusResponse {
    pub completed_chunks: Vec<u64>,
}

impl View for StatusResponse {
    type V = Seq<u64>;

    open spec fn view(&self) -> Seq<u64> {
        self.completed_chunks@
    }
}

/// What the service says of the chunks that have arrived. The body of a refusal is left
/// out of the message.
pub open spec fn status_or_error(outcome: OutcomeView<Seq<u64>>) -> Result<Seq<u64>, Seq<char>> {
    match outcome {
        OutcomeView::NotSent(error) => Err("查询上传状态失败："@ + error),
        OutcomeView::Refused { status, body } => Err("查询上传状态失败：HTTP "@ + status),
        OutcomeView::Unreadable(error) => Err("解析上传状态失败："@ + error),
        OutcomeView::Received(chunks) => Ok(chunks),
    }
}

pub fn get_remote_status(outcome: HttpOutcome<StatusResponse>) -> (r: Result<
    StatusResponse,
    String,
>)
    ensures
        reply_view(r) == status_or_error(outcome@),
{
    match outcome {
        HttpOutcome::NotSent(error) => Err(
            "查询上传状态失败：".to_owned().concat(error.as_str()),
        ),
        HttpOutcome::Refused { status, body } => Err(
            "查询上传状态失败：HTTP ".to_owned().concat(status.as_str()),
        ),
        HttpOutcome::Unreadable(error) => Err(
            "解析上传状态失败：".to_owned().concat(error.as_str()),
        ),
        HttpOutcome::Received(reply) => Ok(reply),
    }
}

/// What the service has made of a completed upload.
#[derive(Debug, PartialEq, Eq)]
pub struct CompleteResponse {
    pub url: String,
    pub filename: String,
    pub local_path: Option<String>,
}

#[verifier::ext_equal]
pub struct CompleteView {
    pub url: Seq<char>,
    pub filename: Seq<char>,
    pub local_path: Option<Seq<char>>,
}

impl View for CompleteResponse {
    type V = CompleteView;

    open spec fn view(&self) -> CompleteView {
        CompleteView {
            url: self.url@,
            filename: self.filename@,
            local_path: text_option(self.local_path),
        }
    }
}

/// The answer to an import: whether it succeeded, the asset, and an error.
#[derive(Debug, PartialEq, Eq)]
pub struct ImportGcsAssetResponse {
    pub success: bool,
    pub asset_id: String,
    pub gs_uri: String,
    pub error: Option<String>,
}

#[verifier::ext_equal]
pub struct ImportView {
    pub success: bool,
    pub asset_id: Seq<char>,
    pub gs_uri: Seq<char>,
    pub error: Option<Seq<char>>,
}

impl View for ImportGcsAssetResponse {
    type V = ImportView;

    open spec fn view(&self) -> ImportView {
        ImportView {
            success: self.success,
            asset_id: self.asset_id@,
            gs_uri: self.gs_uri@,
            error: text_option(self.error),
        }
    }
}

/// The imported asset, or the message that says why there is none.
pub open spec fn import_or_error(outcome: OutcomeView<ImportView>) -> Result<
    ImportView,
    Seq<char>,
> {
    match reply_or_error(outcome, "导入 GCS 素材失败："@, "解析 GCS 素材导入响应失败："@) {
        Ok(imported) => if imported.success {
            Ok(imported)
        } else {
            match imported.error {
                Some(error) => Err(error),
                None => Err("导入 GCS 素材失败"@),
            }
        },
        Err(error) => Err(error),
    }
}

pub fn import_gcs_asset(outcome: HttpOutcome<ImportGcsAssetResponse>) -> (r: Result<
    ImportGcsAssetResponse,
    String,
>)
    ensures
        reply_view(r) == import_or_error(outcome@),
{
    match reply_of(outcome, "导入 GCS 素材失败：", "解析 GCS 素材导入响应失败：") {
        Ok(imported) => if imported.success {
            Ok(imported)
        } else {
            match imported.error {
                Some(error) => Err(error),
                None => Err("导入 GCS 素材失败".to_owned()),
            }
        },
        Err(error) => Err(error),
    }
}

/// The request is of this kind, to this address, authorised by this token, with this body
/// and with no header and no time limit of its own.
pub open spec fn asks(
    request: RequestView,
    method: HttpMethod,
    url: Seq<char>,
    token: Seq<char>,
    body: BodyView,
) -> bool {
    &&& request.method == method
    &&& request.url == url
    &&& request.bearer == Some(token)
    &&& request.headers.len() == 0
    &&& request.timeout_seconds is None
    &&& request.body == body
}

/// The requests of an upload go to the service that the task names, each to its own address,
/// under the token of the task, and name the file or the session that they are about.
pub proof fn law_requests_of_an_upload(task: UploadTaskView, upload_id: Seq<char>)
    ensures
        asks(
            init_spec(task),
            HttpMethod::Post,
            task.base_url + "/api/upload/video/init"@,
            task.api_token,
            BodyView::Init {
                filename: task.file_name,
                file_size: task.file_size,
                mime_type: task.mime_type,
            },
        ),
        asks(
            status_spec(task, upload_id),
            HttpMethod::Get,
            task.base_url + "/api/upload/video/status?uploadId="@ + upload_id,
            task.api_token,
            BodyView::Nothing,
        ),
        asks(
            complete_spec(task, upload_id),
            HttpMethod::Post,
            task.base_url + "/api/upload/video/complete"@,
            task.api_token,
            BodyView::UploadId(upload_id),
        ),
        asks(
            abort_spec(task, upload_id),
            HttpMethod::Post,
            task.base_url + "/api/upload/video/abort"@,
            task.api_token,
            BodyView::UploadId(upload_id),
        ),
        asks(
            revoke_spec(task),
            HttpMethod::Delete,
            task.base_url + "/api/upload/video/agent-token"@,
            task.api_token,
            BodyView::Nothing,
        ),
{
}

/// The request for an import goes to the service that the task names, under the token of the
/// task, and names the object and the file.
pub proof fn law_request_of_an_import(task: UploadTaskView, gs_uri: Seq<char>)
    ensures
        asks(
            import_spec(task, gs_uri),
            HttpMethod::Post,
            task.base_url + "/api/media/import-gcs"@,
            task.api_token,
            BodyView::ImportAsset { gs_uri, original_filename: task.file_name },
        ),
{
}

/// A chunk is sent under its session and its index, in the address and in the headers alike.
pub proof fn law_chunk_is_sent_under_its_index(
    task: UploadTaskView,
    upload_id: Seq<char>,
    index: u64,
)
    ensures
        ({
            let request = chunk_spec(task, upload_id, index);
            &&& request.method is Put
            &&& request.body is Chunk
            &&& request.bearer == Some(task.api_token)
            &&& request.timeout_seconds is None
            &&& request.url == task.base_url + "/api/upload/video/chunk?uploadId="@ + upload_id
                + "&chunkIndex="@ + decimal(index as nat)
            &&& request.headers.len() == 3
            &&& request.headers.contains(("Content-Type"@, "application/octet-stream"@))
            &&& request.headers.contains(("x-upload-id"@, upload_id))
            &&& request.headers.contains(("x-chunk-index"@, decimal(index as nat)))
        }),
{
    let headers = chunk_spec(task, upload_id, index).headers;
    assert(headers[0] == ("Content-Type"@, "application/octet-stream"@));
    assert(headers[1] == ("x-upload-id"@, upload_id));
    assert(headers[2] == ("x-chunk-index"@, decimal(index as nat)));
}

/// The requests for two chunks of a session differ in their addresses.
pub proof fn law_chunks_are_told_apart(
    task: UploadTaskView,
    upload_id: Seq<char>,
    index: u64,
    other: u64,
)
    requires
        index != other,
    ensures
        chunk_spec(task, upload_id, index).url != chunk_spec(task, upload_id, other).url,
{
    let front = task.base_url + "/api/upload/video/chunk?uploadId="@ + upload_id + "&chunkIndex="@;
    let n = front.len() as int;
    law_decimals_differ(index, other);
    assert((front + decimal(index as nat)).skip(n) =~= decimal(index as nat));
    assert((front + decimal(other as nat)).skip(n) =~= decimal(other as nat));
}

/// A session is asked how much it has received by an empty request to its own address,
/// without a token, that leaves the range open and names the total; it is given five seconds.
pub proof fn law_session_is_asked_for_its_range(upload_url: Seq<char>, total_bytes: u64)
    ensures
        ({
            let request = tracker_spec(upload_url, total_bytes);
            &&& request.method is Put
            &&& request.url == upload_url
            &&& request.bearer is None
            &&& request.body is Nothing
            &&& request.timeout_seconds == Some(5u64)
            &&& request.headers.len() == 2
            &&& request.headers.contains(("Content-Length"@, "0"@))
            &&& request.headers.contains(
                ("Content-Range"@, "bytes */"@ + decimal(total_bytes as nat)),
            )
        }),
{
    let headers = tracker_spec(upload_url, total_bytes).headers;
    assert(headers[0] == ("Content-Length"@, "0"@));
    assert(headers[1] == ("Content-Range"@, "bytes */"@ + decimal(total_bytes as nat)));
}

/// A status reports success exactly where it is one of the two hundreds.
pub proof fn law_success_is_two_hundred(code: u16)
    ensures
        is_success(code) <==> code as int / 100 == 2,
{
}

/// There is a reply exactly where one was received, and it is that one; otherwise there is
/// a message, which says what failed, ends in the cause, and names the status of a refusal.
pub proof fn law_reply_is_what_was_received<V>(
    outcome: OutcomeView<V>,
    failed: Seq<char>,
    garbled: Seq<char>,
)
    ensures
        ({
            let r = reply_or_error(outcome, failed, garbled);
            &&& r is Ok <==> outcome is Received
            &&& forall|v: V| outcome == OutcomeView::Received(v) ==> r == Ok::<V, Seq<char>>(v)
            &&& forall|e: Seq<char>|
                outcome == OutcomeView::<V>::NotSent(e) ==> r == Err::<V, Seq<char>>(failed + e)
            &&& forall|e: Seq<char>|
                outcome == OutcomeView::<V>::Unreadable(e) ==> r == Err::<V, Seq<char>>(
                    garbled + e,
                )
            &&& (outcome matches OutcomeView::Refused { status, body } ==> r == Err::<
                V,
                Seq<char>,
            >(failed + "HTTP "@ + status + " "@ + body))
        }),
{
}

/// It is known which chunks have arrived exactly where the service has answered which.
pub proof fn law_status_is_what_was_received(outcome: OutcomeView<Seq<u64>>)
    ensures
        status_or_error(outcome) is Ok <==> outcome is Received,
        outcome matches OutcomeView::Received(chunks) ==> status_or_error(outcome) == Ok::<
            Seq<u64>,
            Seq<char>,
        >(chunks),
        outcome matches OutcomeView::NotSent(e) ==> status_or_error(outcome) == Err::<
            Seq<u64>,
            Seq<char>,
        >("查询上传状态失败："@ + e),
        outcome matches OutcomeView::Refused { status, body } ==> status_or_error(outcome) == Err::<
            Seq<u64>,
            Seq<char>,
        >("查询上传状态失败：HTTP "@ + status),
        outcome matches OutcomeView::Unreadable(e) ==> status_or_error(outcome) == Err::<
            Seq<u64>,
            Seq<char>,
        >("解析上传状态失败："@ + e),
{
}

/// An asset has been imported exactly where a reply was received that reports success, and
/// it is the asset of that reply. A reply that reports none gives its own error, where it
/// has one.
pub proof fn law_import_is_what_was_received(outcome: OutcomeView<ImportView>)
    ensures
        import_or_error(outcome) is Ok <==> (outcome matches OutcomeView::Received(imported)
            && imported.success),
        import_or_error(outcome) matches Ok(imported) ==> outcome == OutcomeView::Received(
            imported,
        ),
        outcome matches OutcomeView::Received(imported) ==> (!imported.success
            ==> match imported.error {
            Some(error) => import_or_error(outcome) == Err::<ImportView, Seq<char>>(error),
            None => import_or_error(outcome) == Err::<ImportView, Seq<char>>(
                "导入 GCS 素材失败"@,
            ),
        }),
        outcome matches OutcomeView::NotSent(e) ==> import_or_error(outcome) == Err::<
            ImportView,
            Seq<char>,
        >("导入 GCS 素材失败："@ + e),
        outcome matches OutcomeView::Refused { status, body } ==> import_or_error(outcome) == Err::<
            ImportView,
            Seq<char>,
        >("导入 GCS 素材失败："@ + "HTTP "@ + status + " "@ + body),
        outcome matches OutcomeView::Unreadable(e) ==> import_or_error(outcome) == Err::<
            ImportView,
            Seq<char>,
        >("解析 GCS 素材导入响应失败："@ + e),
{
}

} // verus!
