//! The start of the desktop agent: what it writes to its log, and what its windows and
//! its tray menu do.
use crate::naming::{is_joined, join};
use crate::server::{agent_host, AGENT_PORT};
use crate::text::{
    decimal, decimal_text, law_decimal_is_read_back, parsed_u64, same, starts_with, str_option,
    text_option,
};
use crate::updater::{is_configured, updater_configured};
use vstd::prelude::*;
use vstd::string::*;

verus! {

/// The file that the start of the agent is logged to, in a directory for such files.
pub fn startup_log_path(windows: bool, temp_dir: &str) -> (path: String)
    ensures
        is_joined(windows, temp_dir@, "chuangcut-local-upload-agent-startup.log"@, path@),
{
    join(windows, temp_dir, "chuangcut-local-upload-agent-startup.log")
}

/// One line of the log of the start.
pub fn startup_log_line(timestamp: &str, message: &str) -> (line: String)
    ensures
        line@ == "["@ + timestamp@ + "] "@ + message@ + "\n"@,
{
    "[".to_owned().concat(timestamp).concat("] ").concat(message).concat("\n")
}

/// Where the program has given up.
pub open spec fn place_text(location: Option<(Seq<char>, u32)>) -> Seq<char> {
    match location {
        Some((file, line)) => file + ":"@ + decimal(line as nat),
        None => "unknown"@,
    }
}

/// What is logged when the program gives up: where, and why.
pub fn panic_report(location: Option<(&str, u32)>, payload: Option<&str>) -> (report: String)
    ensures
        report@ == "捕获到 panic（"@ + place_text(
            match location {
                Some((file, line)) => Some((file@, line)),
                None => None,
            },
        ) + "）："@ + (match str_option(payload) {
            Some(message) => message,
            None => "unknown panic payload"@,
        }),
{
    let place = match location {
        Some((file, line)) => {
            let line_text = decimal_text(line as u64);
            file.to_owned().concat(":").concat(line_text.as_str())
        },
        None => "unknown".to_owned(),
    };
    let message = match payload {
        Some(message) => message,
        None => "unknown panic payload",
    };
    "捕获到 panic（".to_owned().concat(place.as_str()).concat("）：").concat(message)
}

/// What the user is told when the agent does not start.
pub fn startup_error_detail(message: &str, log_path: &str) -> (detail: String)
    ensures
        detail@ == message@ + "\n\n请把这个日志文件发给开发者："@ + log_path@,
{
    message.to_owned().concat("\n\n请把这个日志文件发给开发者：").concat(log_path)
}

/// The address of the local interface, with its port.
pub open spec fn interface_address() -> Seq<char> {
    "127.0.0.1"@ + ":"@ + decimal(AGENT_PORT as nat)
}

pub fn agent_address() -> (address: String)
    ensures
        address@ == interface_address(),
{
    let port_text = decimal_text(AGENT_PORT as u64);
    agent_host().concat(":").concat(port_text.as_str())
}

/// What is logged when the local interface cannot be opened.
pub fn listen_error(error: &str) -> (message: String)
    ensures
        message@ == "启动本地 HTTP 服务失败（"@ + interface_address() + "）："@ + error@,
{
    let address = agent_address();
    "启动本地 HTTP 服务失败（".to_owned().concat(address.as_str()).concat("）：").concat(error)
}

/// Whether updates take part in the start: the key to start them with, and what is
/// logged.
pub fn updater_at_startup(endpoint: Option<&str>, pubkey: Option<&str>) -> (r: (
    Option<String>,
    String,
))
    ensures
        is_configured(str_option(endpoint), str_option(pubkey)) ==> text_option(r.0) == str_option(
            pubkey,
        ) && r.1@ == "检测到有效的 updater 配置，注册 updater 插件"@,
        !is_configured(str_option(endpoint), str_option(pubkey)) ==> r.0 is None && r.1@
            == "未检测到有效的 updater 配置，跳过 updater 插件注册"@,
{
    if updater_configured(endpoint, pubkey) {
        let key = match pubkey {
            Some(key) => Some(key.to_owned()),
            None => None,
        };
        (key, "检测到有效的 updater 配置，注册 updater 插件".to_owned())
    } else {
        (None, "未检测到有效的 updater 配置，跳过 updater 插件注册".to_owned())
    }
}

/// The main window is hidden, not closed, when the user closes it.
pub fn hides_on_close(window: &str) -> (r: bool)
    ensures
        r == (window@ == "main"@),
{
    same(window, "main")
}

/// What an item of the tray menu does.
#[derive(Clone, Copy, Debug, PartialEq, Eq, Structural)]
pub enum TrayAction {
    ShowWindow,
    HideWindow,
    Quit,
    Nothing,
}

/// What the tray menu item with this name does.
pub open spec fn tray_action_for(item: Seq<char>) -> TrayAction {
    if item == "show"@ {
        TrayAction::ShowWindow
    } else if item == "hide"@ {
        TrayAction::HideWindow
    } else if item == "quit"@ {
        TrayAction::Quit
    } else {
        TrayAction::Nothing
    }
}

pub fn tray_action(item: &str) -> (action: TrayAction)
    ensures
        action == tray_action_for(item@),
{
    if same(item, "show") {
        TrayAction::ShowWindow
    } else if same(item, "hide") {
        TrayAction::HideWindow
    } else if same(item, "quit") {
        TrayAction::Quit
    } else {
        TrayAction::Nothing
    }
}

/// A place in the program is given as its file and line, and as unknown where there is none.
pub proof fn law_place_is_file_and_line(file: Seq<char>, line: u32, other: u32)
    ensures
        starts_with(place_text(Some((file, line))), file + ":"@),
        parsed_u64(place_text(Some((file, line))).skip(file.len() as int + 1)) == Some(line as u64),
        place_text(None) == "unknown"@,
        line != other ==> place_text(Some((file, line))) != place_text(Some((file, other))),
{
    reveal_strlit(":");
    law_decimal_is_read_back(line as u64);
    law_decimal_is_read_back(other as u64);
    let place = place_text(Some((file, line)));
    let elsewhere = place_text(Some((file, other)));
    let n = file.len() as int + 1;
    assert(place.take(n) =~= file + ":"@);
    assert(place.skip(n) =~= decimal(line as nat));
    assert(elsewhere.skip(n) =~= decimal(other as nat));
}

/// Each item of the tray menu does its own, and no other item does anything.
pub proof fn law_tray_items(item: Seq<char>)
    ensures
        tray_action_for(item) is ShowWindow <==> item == "show"@,
        tray_action_for(item) is HideWindow <==> item == "hide"@,
        tray_action_for(item) is Quit <==> item == "quit"@,
{
    reveal_strlit("show");
    reveal_strlit("hide");
    reveal_strlit("quit");
    assert("show"@[0] == 's' && "hide"@[0] == 'h' && "quit"@[0] == 'q');
}

/// The interface is reached on this machine only, at its port.
pub proof fn law_interface_is_local()
    ensures
        starts_with(interface_address(), "127.0.0.1:"@),
        parsed_u64(interface_address().skip(10)) == Some(17777u64),
{
    reveal_strlit("127.0.0.1");
    reveal_strlit(":");
    reveal_strlit("127.0.0.1:");
    law_decimal_is_read_back(17777);
    let address = interface_address();
    assert(address.take(10) =~= "127.0.0.1:"@);
    assert(address.skip(10) =~= decimal(17777));
}

} // verus!
