use local_upload_agent::startup::{
    agent_address, hides_on_close, listen_error, panic_report, startup_error_detail,
    startup_log_line, startup_log_path, tray_action, updater_at_startup, TrayAction,
};
use local_upload_agent::task::Progress;
use local_upload_agent::updater::{
    build_updater, check_settings, default_updater_snapshot, updater_configured, CheckOutcome,
    UpdaterRuntimeState, UpdaterSettings,
};

fn state() -> UpdaterRuntimeState<u32> {
    UpdaterRuntimeState::new("1.0.0", Some("https://e/latest.json"), Some("key"))
}

fn found() -> CheckOutcome<u32> {
    CheckOutcome::Found {
        update: 9,
        version: "1.1.0".to_string(),
        notes: Some("new".to_string()),
    }
}

#[test]
fn updates_need_endpoint_and_key() {
    assert!(updater_configured(Some("e"), Some("k")));
    assert!(!updater_configured(Some(" "), Some("k")));
    assert!(!updater_configured(Some("e"), Some("\t")));
    assert!(!updater_configured(None, Some("k")));
    assert!(!updater_configured(Some("e"), None));
}

#[test]
fn fresh_snapshot_shows_the_setup() {
    let snapshot = default_updater_snapshot("1.0.0", Some(" e "), None);
    assert!(!snapshot.configured);
    assert!(!snapshot.checking && !snapshot.installing && !snapshot.available);
    assert_eq!(snapshot.current_version, "1.0.0");
    assert_eq!(snapshot.endpoint, Some(" e ".to_string()));
    assert_eq!(snapshot.progress, Progress::Fixed(0));
    assert_eq!(snapshot.last_checked_at, None);
}

#[test]
fn settings_are_checked() {
    assert_eq!(
        build_updater(Some(" https://Example.com/a b "), Some(" key ")),
        Ok(UpdaterSettings {
            endpoint: "https://example.com/a%20b".to_string(),
            pubkey: "key".to_string(),
        })
    );
    assert_eq!(
        build_updater(Some(" "), Some("key")),
        Err("当前构建未配置自动更新端点".to_string())
    );
    assert_eq!(
        build_updater(Some("https://e"), None),
        Err("当前构建未配置自动更新公钥".to_string())
    );
    assert_eq!(
        build_updater(Some("not a url"), Some("key")),
        Err("解析自动更新端点失败：relative URL without a base".to_string())
    );
    assert_eq!(
        check_settings("k", Err("bad".to_string())),
        Err("解析自动更新端点失败：bad".to_string())
    );
}

#[test]
fn check_finds_an_update() {
    let mut state = state();
    state.begin_check();
    assert!(state.snapshot.checking);
    assert_eq!(state.end_check(found(), "55"), Ok(()));
    assert!(!state.snapshot.checking);
    assert!(state.snapshot.available);
    assert_eq!(state.pending_update, Some(9));
    assert_eq!(state.snapshot.latest_version, Some("1.1.0".to_string()));
    assert_eq!(state.snapshot.notes, Some("new".to_string()));
    assert_eq!(state.snapshot.last_checked_at, Some("55".to_string()));
    assert_eq!(state.end_check(CheckOutcome::UpToDate, "56"), Ok(()));
    assert!(!state.snapshot.available);
    assert_eq!(state.pending_update, None);
    assert_eq!(state.snapshot.latest_version, None);
    assert_eq!(state.snapshot.notes, None);
}

#[test]
fn failed_check_is_reported() {
    let cases: [(CheckOutcome<u32>, &str); 4] = [
        (CheckOutcome::BadSettings("m".to_string()), "m"),
        (CheckOutcome::EndpointsRefused("e".to_string()), "配置自动更新端点失败：e"),
        (CheckOutcome::NotBuilt("e".to_string()), "初始化自动更新器失败：e"),
        (CheckOutcome::Failed("e".to_string()), "检查更新失败：e"),
    ];
    for (outcome, message) in cases {
        let mut state = state();
        assert_eq!(state.end_check(found(), "1"), Ok(()));
        state.begin_check();
        assert_eq!(state.end_check(outcome, "2"), Err(message.to_string()));
        assert_eq!(state.snapshot.last_error, Some(message.to_string()));
        assert!(!state.snapshot.available);
        assert_eq!(state.pending_update, None);
        assert_eq!(state.snapshot.notes, Some("new".to_string()));
        assert_eq!(state.snapshot.last_checked_at, Some("2".to_string()));
    }
}

#[test]
fn installation_runs_to_its_end() {
    let mut state = state();
    assert_eq!(state.end_check(found(), "1"), Ok(()));
    state.request_install();
    assert!(state.snapshot.installing);
    assert!(state.begin_install());
    assert_eq!(state.record_download(0, 30, Some(120)), 30);
    assert_eq!(state.record_download(30, 30, Some(120)), 60);
    assert_eq!(state.snapshot.downloaded_bytes, 60);
    assert_eq!(state.snapshot.download_total_bytes, Some(120));
    assert_eq!(state.snapshot.progress, Progress::Capped { part: 60, whole: 120, cap: 100 });
    state.record_download(60, 1, Some(0));
    assert_eq!(state.snapshot.download_total_bytes, None);
    assert_eq!(state.snapshot.progress, Progress::Fixed(0));
    state.end_install(None);
    assert!(!state.snapshot.installing && !state.snapshot.available);
    assert_eq!(state.pending_update, None);
    assert_eq!(state.snapshot.progress, Progress::Fixed(100));
}

#[test]
fn installation_fails_with_a_message() {
    let mut state = state();
    state.request_install();
    assert!(!state.begin_install());
    assert!(!state.snapshot.installing);
    assert_eq!(
        state.snapshot.last_error,
        Some("当前没有待安装更新，请先检查更新".to_string())
    );
    assert_eq!(state.end_check(found(), "1"), Ok(()));
    state.request_install();
    state.end_install(Some("disk full"));
    assert_eq!(state.snapshot.last_error, Some("安装更新失败：disk full".to_string()));
    assert!(state.snapshot.available);
    assert_eq!(state.pending_update, Some(9));
}

#[test]
fn startup_texts() {
    assert_eq!(startup_log_line("12", "hello"), "[12] hello\n");
    assert_eq!(
        startup_log_path(false, "/tmp/"),
        "/tmp/chuangcut-local-upload-agent-startup.log"
    );
    assert_eq!(
        startup_log_path(false, "/tmp"),
        "/tmp/chuangcut-local-upload-agent-startup.log"
    );
    assert_eq!(panic_report(Some(("a.rs", 7)), Some("boom")), "捕获到 panic（a.rs:7）：boom");
    assert_eq!(panic_report(None, None), "捕获到 panic（unknown）：unknown panic payload");
    assert_eq!(startup_error_detail("m", "/p"), "m\n\n请把这个日志文件发给开发者：/p");
    assert_eq!(agent_address(), "127.0.0.1:17777");
    assert_eq!(listen_error("busy"), "启动本地 HTTP 服务失败（127.0.0.1:17777）：busy");
}

#[test]
fn startup_choices() {
    assert_eq!(
        updater_at_startup(Some("e"), Some(" k ")),
        (
            Some(" k ".to_string()),
            "检测到有效的 updater 配置，注册 updater 插件".to_string()
        )
    );
    assert_eq!(
        updater_at_startup(None, Some("k")),
        (None, "未检测到有效的 updater 配置，跳过 updater 插件注册".to_string())
    );
    assert!(hides_on_close("main"));
    assert!(!hides_on_close("other"));
    assert_eq!(tray_action("show"), TrayAction::ShowWindow);
    assert_eq!(tray_action("hide"), TrayAction::HideWindow);
    assert_eq!(tray_action("quit"), TrayAction::Quit);
    assert_eq!(tray_action("x"), TrayAction::Nothing);
}
