//! The local interface: which request is meant by a method and a path.
use crate::outside::{is_lower_hex, is_uuid_text};
use crate::requests::pair_views;
use crate::text::{
    ends_with, has_prefix, has_suffix, same, starts_with, strip_prefixes, strip_suffixes,
    trim_end_char, without_prefixes, without_suffixes, without_trailing,
};
use vstd::prelude::*;
use vstd::string::*;

verus! {

/// The method of a request, as far as the interface tells methods apart.
#[derive(Clone, Copy, Debug, PartialEq, Eq, Structural)]
pub enum Method {
    Get,
    Post,
    Options,
    Other,
}

/// What a request asks for.
#[derive(Debug, PartialEq, Eq)]
pub enum Route {
    Preflight,
    Health,
    SystemInfo,
    GetUpdate,
    CheckUpdate,
    InstallUpdate,
    PickFile,
    ListTasks,
    CreateUpload,
    CreateGcloudImport,
    GetTaskLogs(String),
    GetTask(String),
    CancelTask(String),
    Unknown,
}

#[verifier::ext_equal]
pub enum RouteView {
    Preflight,
    Health,
    SystemInfo,
    GetUpdate,
    CheckUpdate,
    InstallUpdate,
    PickFile,
    ListTasks,
    CreateUpload,
    CreateGcloudImport,
    GetTaskLogs(Seq<char>),
    GetTask(Seq<char>),
    CancelTask(Seq<char>),
    Unknown,
}

impl View for Route {
    type V = RouteView;

    open spec fn view(&self) -> RouteView {
        match self {
            Route::Preflight => RouteView::Preflight,
            Route::Health => RouteView::Health,
            Route::SystemInfo => RouteView::SystemInfo,
            Route::GetUpdate => RouteView::GetUpdate,
            Route::CheckUpdate => RouteView::CheckUpdate,
            Route::InstallUpdate => RouteView::InstallUpdate,
            Route::PickFile => RouteView::PickFile,
            Route::ListTasks => RouteView::ListTasks,
            Route::CreateUpload => RouteView::CreateUpload,
            Route::CreateGcloudImport => RouteView::CreateGcloudImport,
            Route::GetTaskLogs(id) => RouteView::GetTaskLogs(id@),
            Route::GetTask(id) => RouteView::GetTask(id@),
            Route::CancelTask(id) => RouteView::CancelTask(id@),
            Route::Unknown => RouteView::Unknown,
        }
    }
}

/// The identifier in a path that names a task and ends in what is asked of it.
pub open spec fn id_between(path: Seq<char>, prefix: Seq<char>, suffix: Seq<char>) -> Seq<char> {
    without_trailing(without_suffixes(without_prefixes(path, prefix), suffix), '/')
}

/// What is read at a path.
pub open spec fn get_route(path: Seq<char>) -> RouteView {
    if path == "/v1/health"@ {
        RouteView::Health
    } else if path == "/v1/system/info"@ {
        RouteView::SystemInfo
    } else if path == "/v1/system/update"@ {
        RouteView::GetUpdate
    } else if path == "/v1/uploads"@ || path == "/v1/gcloud/imports"@ {
        RouteView::ListTasks
    } else if starts_with(path, "/v1/uploads/"@) && ends_with(path, "/logs"@) {
        RouteView::GetTaskLogs(id_between(path, "/v1/uploads/"@, "/logs"@))
    } else if starts_with(path, "/v1/gcloud/imports/"@) && ends_with(path, "/logs"@) {
        RouteView::GetTaskLogs(id_between(path, "/v1/gcloud/imports/"@, "/logs"@))
    } else if starts_with(path, "/v1/uploads/"@) {
        RouteView::GetTask(without_prefixes(path, "/v1/uploads/"@))
    } else if starts_with(path, "/v1/gcloud/imports/"@) {
        RouteView::GetTask(without_prefixes(path, "/v1/gcloud/imports/"@))
    } else {
        RouteView::Unknown
    }
}

/// What is asked for at a path.
pub open spec fn post_route(path: Seq<char>) -> RouteView {
    if path == "/v1/system/update/check"@ {
        RouteView::CheckUpdate
    } else if path == "/v1/system/update/install"@ {
        RouteView::InstallUpdate
    } else if path == "/v1/files/pick"@ {
        RouteView::PickFile
    } else if path == "/v1/uploads"@ {
        RouteView::CreateUpload
    } else if path == "/v1/gcloud/imports"@ {
        RouteView::CreateGcloudImport
    } else if starts_with(path, "/v1/uploads/"@) && ends_with(path, "/cancel"@) {
        RouteView::CancelTask(id_between(path, "/v1/uploads/"@, "/cancel"@))
    } else if starts_with(path, "/v1/gcloud/imports/"@) && ends_with(path, "/cancel"@) {
        RouteView::CancelTask(id_between(path, "/v1/gcloud/imports/"@, "/cancel"@))
    } else {
        RouteView::Unknown
    }
}

/// What a request asks for.
pub open spec fn route(method: Method, path: Seq<char>) -> RouteView {
    match method {
        Method::Options => RouteView::Preflight,
        Method::Get => get_route(path),
        Method::Post => post_route(path),
        Method::Other => RouteView::Unknown,
    }
}

fn read_id_between(path: &str, prefix: &str, suffix: &str) -> (id: String)
    ensures
        id@ == id_between(path@, prefix@, suffix@),
{
    trim_end_char(strip_suffixes(strip_prefixes(path, prefix), suffix), '/').to_owned()
}

fn route_get(path: &str) -> (r: Route)
    ensures
        r@ == get_route(path@),
{
    if same(path, "/v1/health") {
        Route::Health
    } else if same(path, "/v1/system/info") {
        Route::SystemInfo
    } else if same(path, "/v1/system/update") {
        Route::GetUpdate
    } else if same(path, "/v1/uploads") || same(path, "/v1/gcloud/imports") {
        Route::ListTasks
    } else if has_prefix(path, "/v1/uploads/") && has_suffix(path, "/logs") {
        Route::GetTaskLogs(read_id_between(path, "/v1/uploads/", "/logs"))
    } else if has_prefix(path, "/v1/gcloud/imports/") && has_suffix(path, "/logs") {
        Route::GetTaskLogs(read_id_between(path, "/v1/gcloud/imports/", "/logs"))
    } else if has_prefix(path, "/v1/uploads/") {
        Route::GetTask(strip_prefixes(path, "/v1/uploads/").to_owned())
    } else if has_prefix(path, "/v1/gcloud/imports/") {
        Route::GetTask(strip_prefixes(path, "/v1/gcloud/imports/").to_owned())
    } else {
        Route::Unknown
    }
}

fn route_post(path: &str) -> (r: Route)
    ensures
        r@ == post_route(path@),
{
    if same(path, "/v1/system/update/check") {
        Route::CheckUpdate
    } else if same(path, "/v1/system/update/install") {
        Route::InstallUpdate
    } else if same(path, "/v1/files/pick") {
        Route::PickFile
    } else if same(path, "/v1/uploads") {
        Route::CreateUpload
    } else if same(path, "/v1/gcloud/imports") {
        Route::CreateGcloudImport
    } else if has_prefix(path, "/v1/uploads/") && has_suffix(path, "/cancel") {
        Route::CancelTask(read_id_between(path, "/v1/uploads/", "/cancel"))
    } else if has_prefix(path, "/v1/gcloud/imports/") && has_suffix(path, "/cancel") {
        Route::CancelTask(read_id_between(path, "/v1/gcloud/imports/", "/cancel"))
    } else {
        Route::Unknown
    }
}

/// Tells what a request asks for.
pub fn route_of(method: Method, path: &str) -> (r: Route)
    ensures
        r@ == route(method, path@),
{
    match method {
        Method::Options => Route::Preflight,
        Method::Get => route_get(path),
        Method::Post => route_post(path),
        Method::Other => Route::Unknown,
    }
}

/// The header that says what a reply holds.
pub fn json_header() -> (header: (String, String))
    ensures
        (header.0@, header.1@) == ("Content-Type"@, "application/json; charset=utf-8"@),
{
    ("Content-Type".to_owned(), "application/json; charset=utf-8".to_owned())
}

/// The headers that let pages of any origin use the interface.
pub fn cors_headers() -> (headers: Vec<(String, String)>)
    ensures
        pair_views(headers@) == seq![
            ("Access-Control-Allow-Origin"@, "*"@),
            ("Access-Control-Allow-Methods"@, "GET,POST,OPTIONS"@),
            ("Access-Control-Allow-Headers"@, "Content-Type,Authorization"@),
            ("Access-Control-Allow-Private-Network"@, "true"@),
        ],
{
    let mut headers: Vec<(String, String)> = Vec::new();
    headers.push(("Access-Control-Allow-Origin".to_owned(), "*".to_owned()));
    headers.push(("Access-Control-Allow-Methods".to_owned(), "GET,POST,OPTIONS".to_owned()));
    headers.push(
        ("Access-Control-Allow-Headers".to_owned(), "Content-Type,Authorization".to_owned()),
    );
    headers.push(("Access-Control-Allow-Private-Network".to_owned(), "true".to_owned()));
    assert(pair_views(headers@) =~= seq![
        ("Access-Control-Allow-Origin"@, "*"@),
        ("Access-Control-Allow-Methods"@, "GET,POST,OPTIONS"@),
        ("Access-Control-Allow-Headers"@, "Content-Type,Authorization"@),
        ("Access-Control-Allow-Private-Network"@, "true"@),
    ]);
    headers
}

/// A text whose characters are those of an identifier, and that is not empty.
spec fn is_id_like(id: Seq<char>) -> bool {
    &&& id.len() > 0
    &&& forall|i: int| 0 <= i < id.len() ==> is_lower_hex(#[trigger] id[i]) || id[i] == '-'
}

proof fn lemma_id_behind_prefix(prefix: Seq<char>, id: Seq<char>)
    requires
        is_id_like(id),
        prefix.len() > 0,
        prefix[0] == '/',
    ensures
        starts_with(prefix + id, prefix),
        without_prefixes(prefix + id, prefix) == id,
{
    let path = prefix + id;
    assert(path.take(prefix.len() as int) =~= prefix);
    assert(path.skip(prefix.len() as int) =~= id);
    if starts_with(id, prefix) {
        assert(id.take(prefix.len() as int)[0] == id[0]);
    }
    assert(without_prefixes(id, prefix) == id);
}

proof fn lemma_id_before_suffix(id: Seq<char>, suffix: Seq<char>)
    requires
        is_id_like(id),
        suffix.len() > 0,
        suffix[0] == '/',
    ensures
        without_suffixes(id + suffix, suffix) == id,
        without_trailing(id, '/') == id,
{
    let path = id + suffix;
    assert(path.skip(path.len() - suffix.len()) =~= suffix);
    assert(path.take(path.len() - suffix.len()) =~= id);
    if ends_with(id, suffix) {
        assert(id.skip(id.len() - suffix.len())[0] == id[id.len() - suffix.len()]);
    }
    assert(without_suffixes(id, suffix) == id);
    assert(is_lower_hex(id[id.len() - 1]) || id[id.len() - 1] == '-');
}

proof fn lemma_prefixes_differ(rest: Seq<char>)
    ensures
        !starts_with("/v1/gcloud/imports/"@ + rest, "/v1/uploads/"@),
        !starts_with("/v1/uploads/"@ + rest, "/v1/gcloud/imports/"@),
{
    reveal_strlit("/v1/uploads/");
    reveal_strlit("/v1/gcloud/imports/");
    let uploads = "/v1/uploads/"@;
    let imports = "/v1/gcloud/imports/"@;
    if starts_with(imports + rest, uploads) {
        assert((imports + rest).take(uploads.len() as int)[4] == uploads[4]);
    }
    if starts_with(uploads + rest, imports) {
        assert((uploads + rest).take(imports.len() as int)[4] == imports[4]);
    }
}

proof fn lemma_plain_id_is_no_command(prefix: Seq<char>, id: Seq<char>, suffix: Seq<char>)
    requires
        id.len() >= suffix.len(),
        is_id_like(id),
        suffix.len() > 0,
        suffix[0] == '/',
    ensures
        !ends_with(prefix + id, suffix),
{
    let path = prefix + id;
    if ends_with(path, suffix) {
        let at = path.len() - suffix.len();
        assert(path.skip(at)[0] == path[at]);
        assert(path[at] == id[at - prefix.len()]);
    }
}

proof fn lemma_fixed_paths()
    ensures
        "/v1/health"@.len() == 10,
        "/v1/system/info"@.len() == 15,
        "/v1/system/update"@.len() == 17,
        "/v1/system/update/check"@.len() == 23,
        "/v1/system/update/install"@.len() == 25,
        "/v1/files/pick"@.len() == 14,
        "/v1/uploads"@.len() == 11,
        "/v1/gcloud/imports"@.len() == 18,
        "/v1/uploads/"@.len() == 12,
        "/v1/uploads/"@[0] == '/',
        "/v1/gcloud/imports/"@.len() == 19,
        "/v1/gcloud/imports/"@[0] == '/',
        "/logs"@.len() == 5,
        "/logs"@[0] == '/',
        "/cancel"@.len() == 7,
        "/cancel"@[0] == '/',
{
    reveal_strlit("/v1/health");
    reveal_strlit("/v1/system/info");
    reveal_strlit("/v1/system/update");
    reveal_strlit("/v1/system/update/check");
    reveal_strlit("/v1/system/update/install");
    reveal_strlit("/v1/files/pick");
    reveal_strlit("/v1/uploads");
    reveal_strlit("/v1/gcloud/imports");
    reveal_strlit("/v1/uploads/");
    reveal_strlit("/v1/gcloud/imports/");
    reveal_strlit("/logs");
    reveal_strlit("/cancel");
}

proof fn lemma_command_path(prefix: Seq<char>, id: Seq<char>, suffix: Seq<char>)
    requires
        is_id_like(id),
        prefix.len() > 0,
        prefix[0] == '/',
        suffix.len() > 0,
        suffix[0] == '/',
    ensures
        starts_with(prefix + id + suffix, prefix),
        ends_with(prefix + id + suffix, suffix),
        id_between(prefix + id + suffix, prefix, suffix) == id,
{
    let path = prefix + id + suffix;
    let tail = id + suffix;
    assert(path =~= prefix + tail);
    assert(path.take(prefix.len() as int) =~= prefix);
    assert(path.skip(prefix.len() as int) =~= tail);
    assert(path.skip(path.len() - suffix.len()) =~= suffix);
    if starts_with(tail, prefix) {
        assert(tail.take(prefix.len() as int)[0] == id[0]);
    }
    assert(without_prefixes(tail, prefix) == tail);
    assert(without_prefixes(path, prefix) == tail);
    lemma_id_before_suffix(id, suffix);
}

/// A task is reached under its identifier below both collections: to look at it, to read
/// its log, and to cancel it.
pub proof fn law_task_paths(id: Seq<char>)
    requires
        is_uuid_text(id),
    ensures
        route(Method::Get, "/v1/uploads/"@ + id) == RouteView::GetTask(id),
        route(Method::Get, "/v1/gcloud/imports/"@ + id) == RouteView::GetTask(id),
        route(Method::Get, "/v1/uploads/"@ + id + "/logs"@) == RouteView::GetTaskLogs(id),
        route(Method::Get, "/v1/gcloud/imports/"@ + id + "/logs"@) == RouteView::GetTaskLogs(id),
        route(Method::Post, "/v1/uploads/"@ + id + "/cancel"@) == RouteView::CancelTask(id),
        route(Method::Post, "/v1/gcloud/imports/"@ + id + "/cancel"@) == RouteView::CancelTask(id),
{
    let uploads = "/v1/uploads/"@;
    let imports = "/v1/gcloud/imports/"@;
    assert(is_id_like(id));
    lemma_fixed_paths();
    lemma_id_behind_prefix(uploads, id);
    lemma_id_behind_prefix(imports, id);
    lemma_prefixes_differ(id);
    lemma_plain_id_is_no_command(uploads, id, "/logs"@);
    lemma_plain_id_is_no_command(imports, id, "/logs"@);
    lemma_command_path(uploads, id, "/logs"@);
    lemma_command_path(imports, id, "/logs"@);
    lemma_command_path(uploads, id, "/cancel"@);
    lemma_command_path(imports, id, "/cancel"@);
    lemma_prefixes_differ(id + "/logs"@);
    lemma_prefixes_differ(id + "/cancel"@);
    assert(uploads + id + "/logs"@ =~= uploads + (id + "/logs"@));
    assert(imports + id + "/logs"@ =~= imports + (id + "/logs"@));
    assert(uploads + id + "/cancel"@ =~= uploads + (id + "/cancel"@));
    assert(imports + id + "/cancel"@ =~= imports + (id + "/cancel"@));
}

/// The fixed paths of the interface, and what is asked for there.
pub proof fn law_fixed_paths_are_known()
    ensures
        route(Method::Get, "/v1/health"@) is Health,
        route(Method::Get, "/v1/system/info"@) is SystemInfo,
        route(Method::Get, "/v1/system/update"@) is GetUpdate,
        route(Method::Get, "/v1/uploads"@) is ListTasks,
        route(Method::Get, "/v1/gcloud/imports"@) is ListTasks,
        route(Method::Post, "/v1/system/update/check"@) is CheckUpdate,
        route(Method::Post, "/v1/system/update/install"@) is InstallUpdate,
        route(Method::Post, "/v1/files/pick"@) is PickFile,
        route(Method::Post, "/v1/uploads"@) is CreateUpload,
        route(Method::Post, "/v1/gcloud/imports"@) is CreateGcloudImport,
{
    lemma_fixed_paths();
}

/// What a method can ask for: a preflight whatever the path, to read, or to change; any other
/// method asks for nothing that is known.
pub proof fn law_methods_ask_for_their_own(method: Method, path: Seq<char>)
    ensures
        route(method, path) is Preflight <==> method is Options,
        method is Other ==> route(method, path) is Unknown,
        method is Get ==> {
            let asked = route(method, path);
            asked is Health || asked is SystemInfo || asked is GetUpdate || asked is ListTasks
                || asked is GetTaskLogs || asked is GetTask || asked is Unknown
        },
        method is Post ==> {
            let asked = route(method, path);
            asked is CheckUpdate || asked is InstallUpdate || asked is PickFile || asked
                is CreateUpload || asked is CreateGcloudImport || asked is CancelTask || asked
                is Unknown
        },
{
}

/// A path is unknown exactly where it is none of the fixed ones and does not lie below one of
/// the two collections, or, to change something, does not end in a cancellation there. What
/// is read below a collection is a log exactly where the path says so at its end.
pub proof fn law_other_paths_are_unknown(path: Seq<char>)
    ensures
        ({
            let below = starts_with(path, "/v1/uploads/"@) || starts_with(
                path,
                "/v1/gcloud/imports/"@,
            );
            let read = path == "/v1/health"@ || path == "/v1/system/info"@ || path
                == "/v1/system/update"@ || path == "/v1/uploads"@ || path
                == "/v1/gcloud/imports"@;
            let changed = path == "/v1/system/update/check"@ || path
                == "/v1/system/update/install"@ || path == "/v1/files/pick"@ || path
                == "/v1/uploads"@ || path == "/v1/gcloud/imports"@;
            &&& route(Method::Get, path) is Unknown <==> !read && !below
            &&& (!read && below ==> if ends_with(path, "/logs"@) {
                route(Method::Get, path) is GetTaskLogs
            } else {
                route(Method::Get, path) is GetTask
            })
            &&& route(Method::Post, path) is Unknown <==> !changed && !(below && ends_with(
                path,
                "/cancel"@,
            ))
            &&& (!changed && below && ends_with(path, "/cancel"@) ==> route(Method::Post, path)
                is CancelTask)
        }),
{
}

} // verus!
