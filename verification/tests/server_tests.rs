use local_upload_agent::registry::{TaskRegistry, CLEANUP_DELAY_SECONDS};
use local_upload_agent::routes::{cors_headers, json_header, route_of, Method, Route};
use local_upload_agent::server::{
    handle_pick_file, import_file, picked_file_reply, upload_file, AgentState, BodyOutcome,
    CreateGcloudImportBody, CreateTaskBody, Next, PickedFile, Reply, ReplyBody,
};
use local_upload_agent::task::{AgentTaskStatus, Progress, TaskHandle};
use local_upload_agent::updater::CheckOutcome;

fn state() -> AgentState<u32> {
    AgentState::new("1.2.3", "linux", Some("https://e".to_string()), Some("key".to_string()))
}

fn bare_state() -> AgentState<u32> {
    AgentState::new("1.2.3", "linux", None, None)
}

fn body() -> CreateTaskBody {
    CreateTaskBody {
        base_url: "https://host//".to_string(),
        file_name: " a.mp4 ".to_string(),
        file_size: 10,
        mime_type: " video/mp4 ".to_string(),
        local_file_path: " /tmp/a.mp4 ".to_string(),
        api_token: " token ".to_string(),
    }
}

fn import_body() -> CreateGcloudImportBody {
    CreateGcloudImportBody {
        task: body(),
        bucket_name: " bucket ".to_string(),
        object_prefix: " p/ ".to_string(),
    }
}

fn error(status: u16, message: &str) -> Reply {
    Reply { status, body: ReplyBody::Error(message.to_string()) }
}

fn respond(next: Next) -> Reply {
    match next {
        Next::Respond(reply) => reply,
        other => panic!("{other:?}"),
    }
}

const INCOMPLETE: &str = "baseUrl、localFilePath、fileName、fileSize、apiToken 必填";

#[test]
fn fixed_routes() {
    assert_eq!(route_of(Method::Options, "/anything"), Route::Preflight);
    assert_eq!(route_of(Method::Get, "/v1/health"), Route::Health);
    assert_eq!(route_of(Method::Get, "/v1/system/info"), Route::SystemInfo);
    assert_eq!(route_of(Method::Get, "/v1/system/update"), Route::GetUpdate);
    assert_eq!(route_of(Method::Post, "/v1/system/update/check"), Route::CheckUpdate);
    assert_eq!(route_of(Method::Post, "/v1/system/update/install"), Route::InstallUpdate);
    assert_eq!(route_of(Method::Post, "/v1/files/pick"), Route::PickFile);
    assert_eq!(route_of(Method::Get, "/v1/uploads"), Route::ListTasks);
    assert_eq!(route_of(Method::Get, "/v1/gcloud/imports"), Route::ListTasks);
    assert_eq!(route_of(Method::Post, "/v1/uploads"), Route::CreateUpload);
    assert_eq!(route_of(Method::Post, "/v1/gcloud/imports"), Route::CreateGcloudImport);
    assert_eq!(route_of(Method::Other, "/v1/health"), Route::Unknown);
    assert_eq!(route_of(Method::Post, "/v1/health"), Route::Unknown);
    assert_eq!(route_of(Method::Get, "/v1/health?x"), Route::Unknown);
    assert_eq!(route_of(Method::Get, ""), Route::Unknown);
}

#[test]
fn task_routes() {
    let id = "0b6a2c1e-5d0f-4c1a-9f2e-0123456789ab";
    for base in ["/v1/uploads/", "/v1/gcloud/imports/"] {
        assert_eq!(
            route_of(Method::Get, &format!("{base}{id}")),
            Route::GetTask(id.to_string())
        );
        assert_eq!(
            route_of(Method::Get, &format!("{base}{id}/logs")),
            Route::GetTaskLogs(id.to_string())
        );
        assert_eq!(
            route_of(Method::Post, &format!("{base}{id}/cancel")),
            Route::CancelTask(id.to_string())
        );
        assert_eq!(
            route_of(Method::Get, &format!("{base}{base}x//logs/logs")),
            Route::GetTaskLogs("x".to_string())
        );
        assert_eq!(route_of(Method::Post, &format!("{base}{id}")), Route::Unknown);
    }
    assert_eq!(
        route_of(Method::Get, "/v1/uploads/logs"),
        Route::GetTaskLogs("logs".to_string())
    );
    assert_eq!(
        route_of(Method::Get, "/v1/uploads/x/cancel"),
        Route::GetTask("x/cancel".to_string())
    );
    assert_eq!(route_of(Method::Get, "/v1/uploads/"), Route::GetTask(String::new()));
    assert_eq!(route_of(Method::Get, "/v1/uploads/x/"), Route::GetTask("x/".to_string()));
}

#[test]
fn reply_headers() {
    let pair = |a: &str, b: &str| (a.to_string(), b.to_string());
    assert_eq!(json_header(), pair("Content-Type", "application/json; charset=utf-8"));
    assert_eq!(
        cors_headers(),
        vec![
            pair("Access-Control-Allow-Origin", "*"),
            pair("Access-Control-Allow-Methods", "GET,POST,OPTIONS"),
            pair("Access-Control-Allow-Headers", "Content-Type,Authorization"),
            pair("Access-Control-Allow-Private-Network", "true"),
        ]
    );
}

#[test]
fn simple_replies() {
    let mut state = state();
    assert_eq!(
        state.handle_request(Method::Options, "/x"),
        Next::Respond(Reply { status: 204, body: ReplyBody::Nothing })
    );
    assert_eq!(
        state.handle_request(Method::Get, "/nowhere"),
        Next::Respond(error(404, "未找到接口"))
    );
    match respond(state.handle_request(Method::Get, "/v1/health")).body {
        ReplyBody::Health { version, platform, capabilities } => {
            assert_eq!(version, "1.2.3");
            assert_eq!(platform, "linux");
            assert_eq!(
                capabilities,
                vec![
                    "health",
                    "desktop-shell",
                    "localhost-http",
                    "auto-update",
                    "pick-file",
                    "upload-task",
                    "gcloud-import",
                    "gcloud-cli-orchestrated",
                    "cancel-task",
                    "concurrent-upload",
                    "tray-resident",
                ]
            );
        }
        other => panic!("{other:?}"),
    }
    assert_eq!(
        respond(state.handle_request(Method::Get, "/v1/system/info")),
        Reply {
            status: 200,
            body: ReplyBody::SystemInfo {
                host: "127.0.0.1".to_string(),
                port: 17777,
                mode: "desktop-v1".to_string(),
                transport: "localhost-http".to_string(),
                updater_configured: true,
            },
        }
    );
    assert_eq!(state.handle_request(Method::Post, "/v1/files/pick"), Next::PickFile);
    assert_eq!(state.handle_request(Method::Post, "/v1/uploads"), Next::CreateUpload);
    assert_eq!(
        state.handle_request(Method::Post, "/v1/gcloud/imports"),
        Next::CreateGcloudImport
    );
}

#[test]
fn created_upload_is_found_and_cancelled() {
    let mut state = state();
    let outcome = BodyOutcome::Body(body());
    assert_eq!(upload_file(&outcome), Some("/tmp/a.mp4".to_string()));
    let (reply, job) = state.create_upload_as(&outcome, &Ok(10), "id-1");
    assert_eq!(reply.status, 200);
    let job = job.unwrap();
    assert_eq!(job.task_id, "id-1");
    assert_eq!(job.base_url, "https://host");
    assert_eq!(job.file_name, "a.mp4");
    assert_eq!(job.mime_type, "video/mp4");
    assert_eq!(job.local_file_path, "/tmp/a.mp4");
    assert_eq!(job.api_token, "token");
    assert_eq!(job.bucket_name, None);
    assert_eq!(respond(state.handle_request(Method::Get, "/v1/uploads/id-1")), reply);
    assert_eq!(
        respond(state.handle_request(Method::Get, "/v1/uploads/id-1/logs")),
        Reply { status: 200, body: ReplyBody::Logs(Vec::new()) }
    );
    state.tasks.get_mut("id-1").unwrap().active_pid = Some(42);
    match state.handle_request(Method::Post, "/v1/uploads/id-1/cancel") {
        Next::Terminate { pid, reply } => {
            assert_eq!(pid, 42);
            match reply.body {
                ReplyBody::Task(snapshot) => {
                    assert_eq!(snapshot.status, AgentTaskStatus::Cancelled);
                    assert_eq!(snapshot.progress, Progress::Fixed(0));
                }
                other => panic!("{other:?}"),
            }
        }
        other => panic!("{other:?}"),
    }
    assert!(state.tasks.get("id-1").unwrap().cancel_requested);
    state.tasks.get_mut("id-1").unwrap().active_pid = None;
    assert_eq!(
        respond(state.handle_request(Method::Post, "/v1/gcloud/imports/id-1/cancel")).status,
        200
    );
}

#[test]
fn created_import_has_bucket_and_prefix() {
    let mut state = state();
    let outcome = BodyOutcome::Body(import_body());
    assert_eq!(import_file(&outcome), Some("/tmp/a.mp4".to_string()));
    let (reply, job) = state.create_import_as(&outcome, &Ok(10), "id-2");
    assert_eq!(reply.status, 200);
    let job = job.unwrap();
    assert_eq!(job.bucket_name, Some("bucket".to_string()));
    assert_eq!(job.object_prefix, Some("p/".to_string()));
}

#[test]
fn fresh_identifiers_are_random_uuids() {
    let mut state = state();
    let outcome = BodyOutcome::Body(body());
    let first = state.handle_create_upload(&outcome, &Ok(10)).1.unwrap().task_id;
    let import = BodyOutcome::Body(import_body());
    let second = state.handle_create_gcloud_import(&import, &Ok(10)).1.unwrap().task_id;
    assert_ne!(first, second);
    for id in [&first, &second] {
        assert_eq!(id.len(), 36);
        assert_eq!(id.as_bytes()[14], b'4');
        assert!(matches!(id.as_bytes()[19], b'8' | b'9' | b'a' | b'b'));
        for (i, c) in id.chars().enumerate() {
            if [8, 13, 18, 23].contains(&i) {
                assert_eq!(c, '-');
            } else {
                assert!(c.is_ascii_digit() || ('a'..='f').contains(&c));
            }
        }
    }
    assert_eq!(state.tasks.list().len(), 2);
}

#[test]
fn incomplete_uploads_are_refused() {
    let mut cases: Vec<CreateTaskBody> = Vec::new();
    for field in 0..6 {
        let mut broken = body();
        match field {
            0 => broken.base_url = " ".to_string(),
            1 => broken.file_name = String::new(),
            2 => broken.mime_type = "\t".to_string(),
            3 => broken.local_file_path = String::new(),
            4 => broken.api_token = String::new(),
            _ => broken.file_size = 0,
        }
        cases.push(broken);
    }
    for broken in cases {
        let mut state = state();
        let outcome = BodyOutcome::Body(broken);
        assert_eq!(upload_file(&outcome), None);
        let (reply, job) = state.create_upload_as(&outcome, &Ok(10), "id");
        assert_eq!(reply, error(400, INCOMPLETE));
        assert_eq!(job, None);
        assert!(state.tasks.list().is_empty());
    }
}

#[test]
fn incomplete_imports_are_refused() {
    let mut broken = import_body();
    broken.object_prefix = " ".to_string();
    let mut state = state();
    let outcome = BodyOutcome::Body(broken);
    assert_eq!(import_file(&outcome), None);
    assert_eq!(
        state.create_import_as(&outcome, &Ok(10), "id").0,
        error(
            400,
            "baseUrl、localFilePath、fileName、fileSize、apiToken、bucketName、objectPrefix 必填"
        )
    );
}

#[test]
fn unusable_bodies_and_files_are_refused() {
    let mut state = state();
    assert_eq!(
        state.create_upload_as(&BodyOutcome::Unread("x".to_string()), &Ok(10), "id").0,
        error(400, "读取请求体失败：x")
    );
    assert_eq!(
        state.create_import_as(&BodyOutcome::Malformed("x".to_string()), &Ok(10), "id").0,
        error(400, "解析 JSON 失败：x")
    );
    let outcome = BodyOutcome::Body(body());
    assert_eq!(
        state.create_upload_as(&outcome, &Ok(11), "id").0,
        error(400, "所选文件大小与页面记录不一致，请重新选择")
    );
    assert_eq!(
        state.create_upload_as(&outcome, &Err("gone".to_string()), "id").0,
        error(400, "读取本地文件失败：gone")
    );
    assert!(state.tasks.list().is_empty());
}

#[test]
fn unknown_tasks_are_not_found() {
    let mut state = state();
    for (method, path) in [
        (Method::Get, "/v1/uploads/x"),
        (Method::Get, "/v1/gcloud/imports/x/logs"),
        (Method::Post, "/v1/uploads/x/cancel"),
    ] {
        assert_eq!(respond(state.handle_request(method, path)), error(404, "任务不存在"));
    }
}

#[test]
fn tasks_are_listed_by_descending_identifier() {
    let mut state = state();
    for id in ["b", "a", "d", "c"] {
        state.create_upload_as(&BodyOutcome::Body(body()), &Ok(10), id);
    }
    match respond(state.handle_request(Method::Get, "/v1/gcloud/imports")).body {
        ReplyBody::Tasks(list) => {
            let ids: Vec<&str> = list.iter().map(|s| s.task_id.as_str()).collect();
            assert_eq!(ids, vec!["d", "c", "b", "a"]);
        }
        other => panic!("{other:?}"),
    }
}

#[test]
fn tasks_stand_under_their_identifiers() {
    let mut state = state();
    let listed = |state: &mut AgentState<u32>| -> Vec<String> {
        let reply = respond(state.handle_request(Method::Get, "/v1/uploads"));
        assert_eq!(respond(state.handle_request(Method::Get, "/v1/uploads")), reply);
        match reply.body {
            ReplyBody::Tasks(list) => list.into_iter().map(|task| task.task_id).collect(),
            other => panic!("{other:?}"),
        }
    };
    let none: Vec<String> = Vec::new();
    assert_eq!(listed(&mut state), none);
    for id in ["b", "d", "a", "b"] {
        state.create_upload_as(&BodyOutcome::Body(body()), &Ok(10), id);
    }
    state.create_import_as(&BodyOutcome::Body(import_body()), &Ok(10), "c");
    assert_eq!(listed(&mut state), vec!["d", "c", "b", "a"]);
    state.handle_request(Method::Post, "/v1/uploads/c/cancel");
    assert_eq!(listed(&mut state), vec!["d", "c", "b", "a"]);
    state.tasks.remove_ended("c");
    assert_eq!(listed(&mut state), vec!["d", "b", "a"]);
    for id in ["d", "b", "a"] {
        assert_eq!(state.tasks.get(id).unwrap().snapshot.task_id, id);
    }
}

#[test]
fn only_ended_tasks_are_cleaned_up() {
    let mut tasks = TaskRegistry::new();
    assert_eq!(CLEANUP_DELAY_SECONDS, 300);
    tasks.insert("a".to_string(), TaskHandle::new("a", "f", 1));
    tasks.insert("b".to_string(), TaskHandle::new("b", "f", 1));
    tasks.remove_ended("a");
    assert!(tasks.get("a").is_some());
    tasks.get_mut("a").unwrap().snapshot.status = AgentTaskStatus::Failed;
    tasks.remove_ended("a");
    tasks.remove_ended("missing");
    assert!(tasks.get("a").is_none());
    assert!(tasks.get("b").is_some());
    assert!(tasks.get_mut("a").is_none());
    tasks.insert("b".to_string(), TaskHandle::new("b", "g", 2));
    assert_eq!(tasks.get("b").unwrap().snapshot.file_name, "g");
    assert_eq!(tasks.list().len(), 1);
}

#[test]
fn picked_files_are_reported() {
    assert_eq!(handle_pick_file(false, None), error(400, "已取消选择文件"));
    let picked = |name: Option<&str>, size: Result<u64, String>| {
        Some(PickedFile {
            file_name: name.map(|n| n.to_string()),
            local_file_path: "/v/clip.webm".to_string(),
            file_size: size,
        })
    };
    assert_eq!(
        handle_pick_file(false, picked(Some("clip.webm"), Err("io".to_string()))),
        error(500, "读取文件信息失败：io")
    );
    match handle_pick_file(false, picked(Some("clip.webm"), Ok(5))).body {
        ReplyBody::File(file) => {
            assert_eq!(file.file_name, "clip.webm");
            assert_eq!(file.file_size, 5);
            assert_eq!(file.mime_type, "video/webm");
            assert_eq!(file.local_file_path, "/v/clip.webm");
        }
        other => panic!("{other:?}"),
    }
    match picked_file_reply(picked(None, Ok(5)), "x/y".to_string()).body {
        ReplyBody::File(file) => {
            assert_eq!(file.file_name, "video.mp4");
            assert_eq!(file.mime_type, "x/y");
        }
        other => panic!("{other:?}"),
    }
}

#[test]
fn updates_that_are_not_set_up() {
    let mut state = bare_state();
    let reply = respond(state.handle_request(Method::Post, "/v1/system/update/check"));
    assert_eq!(reply, state.handle_get_update());
    assert_eq!(reply.status, 200);
    assert!(!state.updater.snapshot.checking);
    assert_eq!(
        respond(state.handle_request(Method::Post, "/v1/system/update/install")),
        error(400, "当前构建未启用自动更新")
    );
}

#[test]
fn update_check_and_installation() {
    let mut state = state();
    assert_eq!(
        state.handle_request(Method::Post, "/v1/system/update/check"),
        Next::CheckUpdate
    );
    assert!(state.updater.snapshot.checking);
    let reply = state.check_for_updates(CheckOutcome::Failed("net".to_string()), "9");
    assert_eq!(reply.status, 500);
    match reply.body {
        ReplyBody::UpdateError { error, snapshot } => {
            assert_eq!(error, "检查更新失败：net");
            assert_eq!(snapshot.last_error, Some("检查更新失败：net".to_string()));
        }
        other => panic!("{other:?}"),
    }
    let found =
        CheckOutcome::Found { update: 3, version: "2.0.0".to_string(), notes: None };
    let reply = state.check_for_updates(found, "10");
    assert_eq!(reply, state.handle_get_update());
    match state.handle_request(Method::Post, "/v1/system/update/install") {
        Next::InstallUpdate(reply) => assert_eq!(reply, state.handle_get_update()),
        other => panic!("{other:?}"),
    }
    assert!(state.updater.snapshot.installing);
}
