use local_upload_agent::gcloud::{
    build_gcloud_command, build_gcloud_env_vars, command_from, ensure_gcloud_installed,
    first_line, install_base_variables, resolve_gcloud_command, run_gcloud_command,
    terminate_process, version_args, windows_gcloud_install_candidates, ExitStatus,
    GcloudCallAction, GcloudCallEvent, GcloudCallStage, GcloudCommandSpec, GcloudResolution,
    GcloudSearch, SpawnError, ToolCheck,
};
use local_upload_agent::task::TaskHandle;

fn plain() -> GcloudCommandSpec {
    GcloudCommandSpec {
        program: "gcloud".to_string(),
        prefix_args: Vec::new(),
        display_path: "gcloud".to_string(),
    }
}

fn search(where_outputs: Vec<Option<Vec<u8>>>, file_checks: Vec<bool>) -> GcloudSearch {
    GcloudSearch {
        windows: true,
        install_candidates: vec!["c1".to_string(), "c2.CMD".to_string()],
        where_outputs,
        file_checks,
    }
}

#[test]
fn tool_is_called_by_its_name_elsewhere() {
    let mut search = search(Vec::new(), Vec::new());
    search.windows = false;
    assert_eq!(resolve_gcloud_command(&search), GcloudResolution::Found(plain()));
}

#[test]
fn tool_is_searched_for_on_windows() {
    let ask = |name: &str| GcloudResolution::RunWhere(name.to_string());
    assert_eq!(resolve_gcloud_command(&search(vec![], vec![])), ask("gcloud.cmd"));
    assert_eq!(resolve_gcloud_command(&search(vec![None], vec![])), ask("gcloud.exe"));
    let blank = Some(b" \r\n\n".to_vec());
    assert_eq!(resolve_gcloud_command(&search(vec![None, blank], vec![])), ask("gcloud"));
    let hit = Some(b"\r\n  /opt/gcloud.exe \r\nother".to_vec());
    match resolve_gcloud_command(&search(vec![hit], vec![])) {
        GcloudResolution::Found(spec) => {
            assert_eq!(spec.program, "/opt/gcloud.exe");
            assert_eq!(spec.display_path, "/opt/gcloud.exe");
            assert!(spec.prefix_args.is_empty());
        }
        other => panic!("{other:?}"),
    }
    let none = vec![None, None, None];
    assert_eq!(
        resolve_gcloud_command(&search(none.clone(), vec![])),
        GcloudResolution::CheckFile("c1".to_string())
    );
    assert_eq!(
        resolve_gcloud_command(&search(none.clone(), vec![false])),
        GcloudResolution::CheckFile("c2.CMD".to_string())
    );
    match resolve_gcloud_command(&search(none.clone(), vec![false, true])) {
        GcloudResolution::Found(spec) => {
            assert_eq!(spec.program, "cmd.exe");
            assert_eq!(spec.prefix_args, vec!["/C", "c2.CMD"]);
            assert_eq!(spec.display_path, "c2.CMD");
        }
        other => panic!("{other:?}"),
    }
    assert_eq!(
        resolve_gcloud_command(&search(none, vec![false, false])),
        GcloudResolution::Missing(
            "未检测到 gcloud CLI，请先安装并完成 gcloud auth login".to_string()
        )
    );
}

#[test]
fn drive_and_network_paths_to_the_tool() {
    let found = |line: &str| {
        match resolve_gcloud_command(&search(vec![Some(line.as_bytes().to_vec())], vec![])) {
            GcloudResolution::Found(spec) => spec,
            other => panic!("{other:?}"),
        }
    };
    for path in [
        "C:\\Google\\bin\\gcloud.cmd",
        "C:\\Google\\bin\\gcloud.CMD",
        "c:\\a.b\\gcloud.Bat",
        "C:/x/gcloud.bat",
        "C:gcloud.cmd",
        "\\\\server\\share\\gcloud.cmd",
        "\\\\server\\share\\bin\\gcloud.Bat",
        "//server/share/gcloud.cmd",
    ] {
        let spec = found(&format!("{path}\r\n"));
        assert_eq!(spec.program, "cmd.exe");
        assert_eq!(spec.prefix_args, vec!["/C", path]);
        assert_eq!(spec.display_path, path);
    }
    for path in [
        "C:\\Google\\bin\\gcloud.exe",
        "C:\\x.cmd\\gcloud",
        "C:\\bin\\gcloud.cmdx",
        "C:/bin/.cmd",
        "C:\\bin\\gcloud",
        "\\\\server\\share\\gcloud.exe",
        "\\\\server\\share.cmd\\gcloud",
        "\\\\server\\share\\.cmd",
    ] {
        let spec = found(path);
        assert_eq!(spec.program, path);
        assert!(spec.prefix_args.is_empty());
        assert_eq!(spec.display_path, path);
    }
}

#[test]
fn broken_output_is_read_with_replacements() {
    let hit = Some(vec![b'/', b'a', 0xff, b'b', b'\n']);
    match resolve_gcloud_command(&search(vec![hit], vec![])) {
        GcloudResolution::Found(spec) => assert_eq!(spec.program, "/a\u{fffd}b"),
        other => panic!("{other:?}"),
    }
}

#[test]
fn first_filled_lines() {
    assert_eq!(first_line(""), None);
    assert_eq!(first_line("\n \n"), None);
    assert_eq!(first_line("\n x \ny"), Some("x".to_string()));
    assert_eq!(first_line("x\r\n"), Some("x".to_string()));
}

#[test]
fn batch_files_go_through_the_interpreter() {
    assert_eq!(command_from("p", Some("BAT")).program, "cmd.exe");
    assert_eq!(command_from("p", Some("cmd")).prefix_args, vec!["/C", "p"]);
    assert_eq!(command_from("p", Some("exe")).program, "p");
    assert_eq!(command_from("p", None).program, "p");
}

#[test]
fn install_candidates_stand_below_the_bases() {
    let candidates =
        windows_gcloud_install_candidates(&vec!["/base".to_string(), "/other".to_string()]);
    assert_eq!(
        candidates,
        vec![
            "/base/Google/Cloud SDK/google-cloud-sdk/bin/gcloud.cmd",
            "/base/Google/Cloud SDK/google-cloud-sdk/bin/gcloud.exe",
            "/other/Google/Cloud SDK/google-cloud-sdk/bin/gcloud.cmd",
            "/other/Google/Cloud SDK/google-cloud-sdk/bin/gcloud.exe",
        ]
    );
    assert_eq!(
        install_base_variables(),
        vec!["LOCALAPPDATA", "ProgramW6432", "ProgramFiles", "ProgramFiles(x86)"]
    );
}

#[test]
fn environment_follows_the_setting() {
    let pair = |a: &str, b: &str| (a.to_string(), b.to_string());
    let on = vec![pair("CLOUDSDK_STORAGE_PARALLEL_COMPOSITE_UPLOAD_ENABLED", "True")];
    assert_eq!(build_gcloud_env_vars(None), on);
    assert_eq!(build_gcloud_env_vars(Some("no")), on);
    assert_eq!(
        build_gcloud_env_vars(Some(" FALSE ")),
        vec![
            pair("CLOUDSDK_STORAGE_PARALLEL_COMPOSITE_UPLOAD_ENABLED", "False"),
            pair("CLOUDSDK_STORAGE_PROCESS_COUNT", "1"),
            pair("CLOUDSDK_STORAGE_THREAD_COUNT", "1"),
        ]
    );
}

#[test]
fn command_lines() {
    let spec = command_from("g.cmd", Some("cmd"));
    let line = build_gcloud_command(&spec, &version_args());
    assert_eq!(line.program, "cmd.exe");
    assert_eq!(line.args, vec!["/C", "g.cmd", "version"]);
    let line = terminate_process(true, 12);
    assert_eq!(line.program, "taskkill");
    assert_eq!(line.args, vec!["/PID", "12", "/T", "/F"]);
    let line = terminate_process(false, 12);
    assert_eq!(line.program, "kill");
    assert_eq!(line.args, vec!["-TERM", "12"]);
}

#[test]
fn trial_call_decides_whether_the_tool_is_installed() {
    assert_eq!(ensure_gcloud_installed(plain(), ToolCheck::Succeeded), Ok(plain()));
    assert_eq!(
        ensure_gcloud_installed(plain(), ToolCheck::Unsuccessful),
        Err("gcloud CLI 不可用，请检查本机安装和登录状态".to_string())
    );
    assert_eq!(
        ensure_gcloud_installed(plain(), ToolCheck::NotFound),
        Err("未检测到 gcloud CLI，请先安装并完成 gcloud auth login".to_string())
    );
    assert_eq!(
        ensure_gcloud_installed(plain(), ToolCheck::Failed("x".to_string())),
        Err("gcloud CLI 不可用：x".to_string())
    );
}

#[test]
fn call_of_the_tool_runs_to_its_end() {
    let args = vec!["storage".to_string(), "ls".to_string()];
    let mut handle = TaskHandle::new("t", "f", 1);
    let mut stage = GcloudCallStage::Looking;
    let none: Vec<String> = Vec::new();
    let event = GcloudCallEvent::Looked(Ok(plain()));
    match run_gcloud_command(&mut stage, &mut handle, &args, &none, event, "1") {
        GcloudCallAction::Start(line) => assert_eq!(line.args, vec!["storage", "ls"]),
        other => panic!("{other:?}"),
    }
    assert_eq!(handle.logs[0].message, "已解析 gcloud CLI 路径：gcloud");
    let event = GcloudCallEvent::Started(Ok(5));
    assert_eq!(
        run_gcloud_command(&mut stage, &mut handle, &args, &none, event, "2"),
        GcloudCallAction::Wait
    );
    assert_eq!(handle.active_pid, Some(5));
    let event = GcloudCallEvent::Waited(Ok(ExitStatus { success: true, code: Some(0) }));
    assert_eq!(
        run_gcloud_command(&mut stage, &mut handle, &args, &none, event, "3"),
        GcloudCallAction::End(Ok(()))
    );
    assert_eq!(handle.active_pid, None);
    assert_eq!(stage, GcloudCallStage::Ended);
}

#[test]
fn call_of_the_tool_fails_with_a_message() {
    let args = vec!["x".to_string()];
    let tail = vec!["a".to_string(), "last words".to_string()];
    let failed = ExitStatus { success: false, code: Some(2) };
    let cases = [
        (
            GcloudCallStage::Looking,
            GcloudCallEvent::Looked(Err("gone".to_string())),
            Vec::new(),
            "gone",
        ),
        (
            GcloudCallStage::Starting,
            GcloudCallEvent::Started(Err(SpawnError::NotFound)),
            Vec::new(),
            "未检测到 gcloud CLI，请先安装并完成 gcloud auth login",
        ),
        (
            GcloudCallStage::Starting,
            GcloudCallEvent::Started(Err(SpawnError::Other("e".to_string()))),
            Vec::new(),
            "启动 gcloud 命令失败：e",
        ),
        (
            GcloudCallStage::Running,
            GcloudCallEvent::Waited(Err("e".to_string())),
            Vec::new(),
            "等待 gcloud 命令失败：e",
        ),
        (GcloudCallStage::Running, GcloudCallEvent::Waited(Ok(failed)), tail, "last words"),
        (
            GcloudCallStage::Running,
            GcloudCallEvent::Waited(Ok(failed)),
            Vec::new(),
            "gcloud 命令执行失败，退出码 2",
        ),
    ];
    for (start, event, tail, message) in cases {
        let mut stage = start;
        let mut handle = TaskHandle::new("t", "f", 1);
        assert_eq!(
            run_gcloud_command(&mut stage, &mut handle, &args, &tail, event, "1"),
            GcloudCallAction::End(Err(message.to_string()))
        );
        assert_eq!(stage, GcloudCallStage::Ended);
    }
}
