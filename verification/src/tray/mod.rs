//! The icon in the notification area: what it shows, what it is told, and what it does.

pub mod autostart;
pub mod icon;

pub use autostart::{autostart_status, set_autostart};

use crate::device_store::TrustedPeer;
use crate::failure::{Failure, FailureKind};
use crate::security;
use crate::security::CertificateFingerprint;
use crate::text;
use autostart::{quote_tray_command, AutostartState};
use vstd::prelude::*;

verus! {

/// The class of the hidden window.
pub const TRAY_WINDOW_CLASS: &'static str = "ClipFerryTrayWindow";

/// The name by which a second instance finds the first.
pub const SINGLE_INSTANCE_NAME: &'static str = "Local\\ClipFerry.Tray.v1";

/// What the icon says when the mouse rests on it.
pub const TRAY_TIP: &'static str = "ClipFerry · 剪贴摆渡";

/// The icon reports the mouse.
pub const TRAY_CALLBACK_MESSAGE: u32 = 0x8001;

/// Another instance asks to show the status.
pub const TRAY_SHOW_STATUS_MESSAGE: u32 = 0x8002;

/// Another instance asks to exit.
pub const TRAY_EXIT_MESSAGE: u32 = 0x8003;

pub const WM_DESTROY: u32 = 0x0002;

pub const WM_QUERYENDSESSION: u32 = 0x0011;

pub const WM_ENDSESSION: u32 = 0x0016;

pub const WM_COMMAND: u32 = 0x0111;

pub const WM_LBUTTONDBLCLK: u32 = 0x0203;

pub const WM_RBUTTONUP: u32 = 0x0205;

pub const COMMAND_STATUS: usize = 1001;

pub const COMMAND_PAIR: usize = 1002;

pub const COMMAND_MANAGE_PEERS: usize = 1003;

pub const COMMAND_PAUSE: usize = 1004;

pub const COMMAND_RESUME: usize = 1005;

pub const COMMAND_CANCEL: usize = 1006;

pub const COMMAND_AUTOSTART: usize = 1007;

pub const COMMAND_LOG: usize = 1008;

pub const COMMAND_EXIT: usize = 1009;

/// A message for the window of the instance that is running.
#[derive(Clone, Copy, Debug, PartialEq, Eq, Structural)]
pub struct TrayPost {
    pub window: u64,
    pub message: u32,
}

/// The message for the window that was found, if one was.
fn post_to_existing(window: Option<u64>, message: u32) -> (result: Result<TrayPost, Failure>)
    ensures
        result == (match window {
            Some(window) => Ok::<TrayPost, Failure>(TrayPost { window, message }),
            None => Err(Failure::new(FailureKind::NotFound, "ClipFerry tray is not running")),
        }),
{
    match window {
        Some(window) => Ok(TrayPost { window, message }),
        None => Err(Failure::new(FailureKind::NotFound, "ClipFerry tray is not running")),
    }
}

/// Asks the instance that is running, whose window was looked for, to show its status.
pub fn show_existing_status(window: Option<u64>) -> (result: Result<TrayPost, Failure>)
    ensures
        result == (match window {
            Some(window) => Ok::<TrayPost, Failure>(
                TrayPost { window, message: TRAY_SHOW_STATUS_MESSAGE },
            ),
            None => Err(Failure::new(FailureKind::NotFound, "ClipFerry tray is not running")),
        }),
{
    post_to_existing(window, TRAY_SHOW_STATUS_MESSAGE)
}

/// Asks the instance that is running, whose window was looked for, to exit.
pub fn exit_existing(window: Option<u64>) -> (result: Result<TrayPost, Failure>)
    ensures
        result == (match window {
            Some(window) => Ok::<TrayPost, Failure>(
                TrayPost { window, message: TRAY_EXIT_MESSAGE },
            ),
            None => Err(Failure::new(FailureKind::NotFound, "ClipFerry tray is not running")),
        }),
{
    post_to_existing(window, TRAY_EXIT_MESSAGE)
}

/// What a command of the menu does.
#[derive(Clone, Copy, Debug, PartialEq, Eq, Structural)]
pub enum TrayCommand {
    ShowStatus,
    /// Opens the console that pairs a device.
    Pair,
    /// Opens the console that manages the trusted devices.
    ManagePeers,
    /// Says that there is no transfer.
    NoTransfer,
    ToggleAutostart,
    OpenLog,
    Exit,
    Nothing,
}

/// What a command of the menu does.
pub open spec fn spec_command_of(command: usize) -> TrayCommand {
    if command == COMMAND_STATUS {
        TrayCommand::ShowStatus
    } else if command == COMMAND_PAIR {
        TrayCommand::Pair
    } else if command == COMMAND_MANAGE_PEERS {
        TrayCommand::ManagePeers
    } else if command == COMMAND_PAUSE || command == COMMAND_RESUME || command == COMMAND_CANCEL {
        TrayCommand::NoTransfer
    } else if command == COMMAND_AUTOSTART {
        TrayCommand::ToggleAutostart
    } else if command == COMMAND_LOG {
        TrayCommand::OpenLog
    } else if command == COMMAND_EXIT {
        TrayCommand::Exit
    } else {
        TrayCommand::Nothing
    }
}

/// What a command of the menu does.
#[verifier::when_used_as_spec(spec_command_of)]
pub fn command_of(command: usize) -> (action: TrayCommand)
    ensures
        action == spec_command_of(command),
{
    match command {
        COMMAND_STATUS => TrayCommand::ShowStatus,
        COMMAND_PAIR => TrayCommand::Pair,
        COMMAND_MANAGE_PEERS => TrayCommand::ManagePeers,
        COMMAND_PAUSE | COMMAND_RESUME | COMMAND_CANCEL => TrayCommand::NoTransfer,
        COMMAND_AUTOSTART => TrayCommand::ToggleAutostart,
        COMMAND_LOG => TrayCommand::OpenLog,
        COMMAND_EXIT => TrayCommand::Exit,
        _ => TrayCommand::Nothing,
    }
}

/// What the hidden window does with a message.
#[derive(Clone, Copy, Debug, PartialEq, Eq, Structural)]
pub enum TrayAction {
    /// Puts the icon back.
    AddIcon,
    ShowMenu,
    ShowStatus,
    /// Exits because another instance asked.
    ExitForAnother,
    Command { action: TrayCommand },
    /// Has nothing to do.
    Handled,
    /// Lets the session end.
    AllowEnd,
    /// Ends the message loop.
    Quit,
    /// Leaves the message to the system.
    Default,
}

/// What the hidden window does with a message once it is set up.
pub open spec fn tray_action(
    ready: bool,
    taskbar_created: u32,
    message: u32,
    wparam: usize,
    lparam: i64,
) -> TrayAction {
    if ready && message == taskbar_created {
        TrayAction::AddIcon
    } else if ready && message == TRAY_CALLBACK_MESSAGE {
        if lparam == WM_RBUTTONUP {
            TrayAction::ShowMenu
        } else if lparam == WM_LBUTTONDBLCLK {
            TrayAction::ShowStatus
        } else {
            TrayAction::Handled
        }
    } else if ready && message == TRAY_SHOW_STATUS_MESSAGE {
        TrayAction::ShowStatus
    } else if ready && message == TRAY_EXIT_MESSAGE {
        TrayAction::ExitForAnother
    } else if ready && message == WM_COMMAND {
        TrayAction::Command { action: command_of((wparam % 0x1_0000) as usize) }
    } else if message == WM_QUERYENDSESSION {
        TrayAction::AllowEnd
    } else if (message == WM_ENDSESSION && wparam != 0) || message == WM_DESTROY {
        TrayAction::Quit
    } else {
        TrayAction::Default
    }
}

/// What the hidden window does with a message. `ready` tells whether the window is set up, and
/// `taskbar_created` is the message that the taskbar sends when it starts anew.
pub fn route_tray_message(
    ready: bool,
    taskbar_created: u32,
    message: u32,
    wparam: usize,
    lparam: i64,
) -> (action: TrayAction)
    ensures
        action == tray_action(ready, taskbar_created, message, wparam, lparam),
{
    if ready {
        if message == taskbar_created {
            return TrayAction::AddIcon;
        }
        if message == TRAY_CALLBACK_MESSAGE {
            if lparam == WM_RBUTTONUP as i64 {
                return TrayAction::ShowMenu;
            }
            if lparam == WM_LBUTTONDBLCLK as i64 {
                return TrayAction::ShowStatus;
            }
            return TrayAction::Handled;
        }
        if message == TRAY_SHOW_STATUS_MESSAGE {
            return TrayAction::ShowStatus;
        }
        if message == TRAY_EXIT_MESSAGE {
            return TrayAction::ExitForAnother;
        }
        if message == WM_COMMAND {
            return TrayAction::Command { action: command_of(wparam % 0x1_0000) };
        }
    }
    if message == WM_QUERYENDSESSION {
        return TrayAction::AllowEnd;
    }
    if (message == WM_ENDSESSION && wparam != 0) || message == WM_DESTROY {
        return TrayAction::Quit;
    }
    TrayAction::Default
}

/// An entry of the menu.
#[derive(Clone, Copy, Debug)]
pub enum MenuItem {
    Separator,
    Entry { label: &'static str, command: usize, enabled: bool, checked: bool },
}

/// The menu of the icon.
pub open spec fn menu(autostart: AutostartState) -> Seq<MenuItem> {
    seq![
        MenuItem::Entry {
            label: "ClipFerry · 后台运行",
            command: 0,
            enabled: false,
            checked: false,
        },
        MenuItem::Separator,
        MenuItem::Entry {
            label: "查看状态",
            command: COMMAND_STATUS,
            enabled: true,
            checked: false,
        },
        MenuItem::Entry {
            label: "配对新设备…",
            command: COMMAND_PAIR,
            enabled: true,
            checked: false,
        },
        MenuItem::Entry {
            label: "管理已配对设备…",
            command: COMMAND_MANAGE_PEERS,
            enabled: true,
            checked: false,
        },
        MenuItem::Separator,
        MenuItem::Entry {
            label: "暂停传输",
            command: COMMAND_PAUSE,
            enabled: false,
            checked: false,
        },
        MenuItem::Entry {
            label: "继续传输",
            command: COMMAND_RESUME,
            enabled: false,
            checked: false,
        },
        MenuItem::Entry {
            label: "取消传输",
            command: COMMAND_CANCEL,
            enabled: false,
            checked: false,
        },
        MenuItem::Separator,
        MenuItem::Entry {
            label: "随 Windows 启动",
            command: COMMAND_AUTOSTART,
            enabled: true,
            checked: autostart == AutostartState::Enabled,
        },
        MenuItem::Entry {
            label: "打开诊断日志",
            command: COMMAND_LOG,
            enabled: true,
            checked: false,
        },
        MenuItem::Separator,
        MenuItem::Entry {
            label: "退出 ClipFerry",
            command: COMMAND_EXIT,
            enabled: true,
            checked: false,
        },
    ]
}

fn entry(label: &'static str, command: usize, enabled: bool) -> (item: MenuItem)
    ensures
        item == (MenuItem::Entry { label, command, enabled, checked: false }),
{
    MenuItem::Entry { label, command, enabled, checked: false }
}

/// The menu of the icon.
pub fn menu_items(autostart: AutostartState) -> (items: Vec<MenuItem>)
    ensures
        items@ == menu(autostart),
{
    let mut items: Vec<MenuItem> = Vec::new();
    items.push(entry("ClipFerry · 后台运行", 0, false));
    items.push(MenuItem::Separator);
    items.push(entry("查看状态", COMMAND_STATUS, true));
    items.push(entry("配对新设备…", COMMAND_PAIR, true));
    items.push(entry("管理已配对设备…", COMMAND_MANAGE_PEERS, true));
    items.push(MenuItem::Separator);
    items.push(entry("暂停传输", COMMAND_PAUSE, false));
    items.push(entry("继续传输", COMMAND_RESUME, false));
    items.push(entry("取消传输", COMMAND_CANCEL, false));
    items.push(MenuItem::Separator);
    items.push(
        MenuItem::Entry {
            label: "随 Windows 启动",
            command: COMMAND_AUTOSTART,
            enabled: true,
            checked: autostart == AutostartState::Enabled,
        },
    );
    items.push(entry("打开诊断日志", COMMAND_LOG, true));
    items.push(MenuItem::Separator);
    items.push(entry("退出 ClipFerry", COMMAND_EXIT, true));
    assert(items@ =~= menu(autostart));
    items
}

/// The lines of the trusted devices, one for each.
pub open spec fn peer_lines(peers: Seq<TrustedPeer>) -> Seq<char>
    decreases peers.len(),
{
    if peers.len() == 0 {
        Seq::empty()
    } else {
        let line = "• "@ + peers.last().label@ + "  "@ + security::fingerprint_text(
            peers.last().fingerprint.0@,
        );
        if peers.len() == 1 {
            line
        } else {
            peer_lines(peers.drop_last()) + "\r\n"@ + line
        }
    }
}

/// The status of the application in words.
pub open spec fn status_text(
    fingerprint: CertificateFingerprint,
    peers: Seq<TrustedPeer>,
    autostart: AutostartState,
) -> Seq<char> {
    "ClipFerry 正在后台运行\r\n\r\n本机设备\r\n"@ + security::fingerprint_text(fingerprint.0@)
        + "\r\n\r\n已配对设备（"@ + text::decimal(peers.len()) + "）\r\n"@ + (if peers.len() == 0 {
        "暂无（可从托盘菜单开始配对）"@
    } else {
        peer_lines(peers)
    })
        + "\r\n\r\n连接状态：等待已配对设备\r\n最近远端清单：暂无\r\n活动传输：暂无\r\n开机自启动："@
        + autostart.spec_label()
}

/// The status of the application in words.
pub fn snapshot(
    fingerprint: CertificateFingerprint,
    peers: &Vec<TrustedPeer>,
    autostart: AutostartState,
) -> (status: String)
    ensures
        status@ == status_text(fingerprint, peers@, autostart),
{
    let mut lines = String::new();
    let mut index: usize = 0;
    assert(lines@ =~= peer_lines(peers@.take(0)));
    while index < peers.len()
        invariant
            index <= peers@.len(),
            lines@ == peer_lines(peers@.take(index as int)),
        decreases peers@.len() - index,
    {
        let ghost before = lines@;
        if index != 0 {
            text::push_text(&mut lines, "\r\n");
        }
        text::push_text(&mut lines, "• ");
        text::push_text(&mut lines, peers[index].label.as_str());
        text::push_text(&mut lines, "  ");
        text::push_text(&mut lines, peers[index].fingerprint.to_text().as_str());
        index += 1;
        proof {
            let told = peers@.take(index as int);
            assert(told.drop_last() =~= peers@.take(index - 1));
            assert(told.last() == peers@[index - 1]);
            assert(lines@ =~= peer_lines(told));
        }
    }
    assert(peers@.take(index as int) =~= peers@);
    let mut status = String::new();
    text::push_text(&mut status, "ClipFerry 正在后台运行\r\n\r\n本机设备\r\n");
    text::push_text(&mut status, fingerprint.to_text().as_str());
    text::push_text(&mut status, "\r\n\r\n已配对设备（");
    text::push_decimal(&mut status, peers.len() as u64);
    text::push_text(&mut status, "）\r\n");
    if peers.len() == 0 {
        text::push_text(&mut status, "暂无（可从托盘菜单开始配对）");
    } else {
        text::push_text(&mut status, lines.as_str());
    }
    text::push_text(
        &mut status,
        "\r\n\r\n连接状态：等待已配对设备\r\n最近远端清单：暂无\r\n活动传输：暂无\r\n开机自启动：",
    );
    text::push_text(&mut status, autostart.label());
    assert(status@ =~= status_text(fingerprint, peers@, autostart));
    status
}

/// A line of the log. The time is in seconds.
pub fn log_line(timestamp: u64, message: &str) -> (line: String)
    ensures
        line@ == "time_unix="@ + text::decimal(timestamp as nat) + " "@ + message@ + "\n"@,
{
    let mut line = String::new();
    text::push_text(&mut line, "time_unix=");
    text::push_decimal(&mut line, timestamp);
    text::push_text(&mut line, " ");
    text::push_text(&mut line, message);
    text::push_text(&mut line, "\n");
    assert(line@ =~= "time_unix="@ + text::decimal(timestamp as nat) + " "@ + message@ + "\n"@);
    line
}

/// What is left of a number of cells once units are written with a zero behind them.
pub open spec fn fixed(units: Seq<u16>, cells: nat) -> Seq<u16> {
    Seq::new(
        cells,
        |k: int|
            if k < units.len() && k < cells - 1 {
                units[k]
            } else {
                0
            },
    )
}

/// Writes a text into a number of cells, cut to what they hold with a zero behind it. The other
/// cells are zero, too.
pub fn copy_wide_to_fixed(text: &str, output: &mut [u16])
    ensures
        final(output)@ == fixed(text::utf16(text@), old(output)@.len()),
{
    let units = text::encode_utf16(text);
    let cells: usize = output.len();
    let mut index: usize = 0;
    while index < cells
        invariant
            index <= cells,
            cells == output@.len(),
            units@ == text::utf16(text@),
            forall|k: int| 0 <= k < index ==> #[trigger] output@[k] == fixed(units@, cells as nat)[k],
        decreases cells - index,
    {
        output[index] = if index < units.len() && index < cells - 1 {
            units[index]
        } else {
            0
        };
        index += 1;
    }
    assert(output@ =~= fixed(units@, cells as nat));
}

/// What went wrong when the log was opened, in words; nothing where the shell's answer says that
/// nothing did.
pub fn shell_failure(answer: i64) -> (failure: Option<String>)
    ensures
        match failure {
            None => answer > 32,
            Some(message) => answer <= 32 && message@ == "Windows 无法打开诊断日志（ShellExecute="@
                + (if answer < 0 {
                "-"@
            } else {
                ""@
            }) + text::decimal(
                if answer < 0 {
                    (-answer) as nat
                } else {
                    answer as nat
                },
            ) + "）"@,
        },
{
    if answer > 32 {
        return None;
    }
    let mut message = String::new();
    text::push_text(&mut message, "Windows 无法打开诊断日志（ShellExecute=");
    if answer < 0 {
        text::push_text(&mut message, "-");
        let size: u64 = (-(answer + 1)) as u64 + 1;
        text::push_decimal(&mut message, size);
    } else {
        text::push_text(&mut message, "");
        text::push_decimal(&mut message, answer as u64);
    }
    text::push_text(&mut message, "）");
    assert(message@ =~= "Windows 无法打开诊断日志（ShellExecute="@ + (if answer < 0 {
        "-"@
    } else {
        ""@
    }) + text::decimal(
        if answer < 0 {
            (-answer) as nat
        } else {
            answer as nat
        },
    ) + "）"@);
    Some(message)
}

/// What the log and the user are told once autostart was switched.
pub fn autostart_notice(enable: bool) -> (notice: (&'static str, &'static str))
    ensures
        notice == if enable {
            (
                "autostart enabled=true",
                "已启用当前 Windows 用户登录后自动启动，不需要管理员权限。",
            )
        } else {
            ("autostart enabled=false", "已关闭开机自启动。")
        },
{
    if enable {
        (
            "autostart enabled=true",
            "已启用当前 Windows 用户登录后自动启动，不需要管理员权限。",
        )
    } else {
        ("autostart enabled=false", "已关闭开机自启动。")
    }
}

/// Shortest image that an icon can have.
pub const MIN_ICON_BYTES: usize = 40;

/// What the self test found: how long the image is that would be shown, and the command that would
/// start the application with the session of the user.
#[derive(Debug)]
pub struct SelfTest {
    pub icon_bytes: usize,
    pub command: String,
}

/// Checks the icon of the application, and how the command is quoted that starts it with the
/// session of the user.
pub fn self_test(icon: &[u8]) -> (result: Result<SelfTest, Failure>)
    ensures
        match icon::icon_outcome(icon@) {
            Err(failure) => result == Err::<SelfTest, Failure>(failure),
            Ok(image) => if image.len() < MIN_ICON_BYTES {
                result == Err::<SelfTest, Failure>(
                    Failure::invalid("embedded icon image is unexpectedly short"),
                )
            } else {
                &&& result matches Ok(test)
                &&& test.icon_bytes == image.len()
                &&& test.command@ == autostart::command_text(
                    "C:\\Program Files\\ClipFerry\\clipferry.exe"@,
                )
                &&& test.command@ == "\"C:\\Program Files\\ClipFerry\\clipferry.exe\" tray"@
            },
        },
{
    let icon_bytes: usize = match icon::best_icon_image(icon) {
        Err(failure) => {
            return Err(failure);
        },
        Ok(image) => image.len(),
    };
    if icon_bytes < MIN_ICON_BYTES {
        return Err(Failure::invalid("embedded icon image is unexpectedly short"));
    }
    proof {
        lemma_sample_is_quoted();
    }
    let command = match quote_tray_command("C:\\Program Files\\ClipFerry\\clipferry.exe") {
        Err(failure) => {
            return Err(failure);
        },
        Ok(command) => command,
    };
    if !text::same_text(
        command.as_str(),
        "\"C:\\Program Files\\ClipFerry\\clipferry.exe\" tray",
    ) {
        return Err(Failure::invalid("autostart command quoting is invalid"));
    }
    Ok(SelfTest { icon_bytes, command })
}

proof fn lemma_sample_is_quoted()
    ensures
        !"C:\\Program Files\\ClipFerry\\clipferry.exe"@.contains('"'),
        autostart::command_text("C:\\Program Files\\ClipFerry\\clipferry.exe"@)
            == "\"C:\\Program Files\\ClipFerry\\clipferry.exe\" tray"@,
{
    reveal_strlit("C:\\Program Files\\ClipFerry\\clipferry.exe");
    reveal_strlit("\"C:\\Program Files\\ClipFerry\\clipferry.exe\" tray");
    reveal_strlit("\"");
    reveal_strlit("\" tray");
    assert(autostart::command_text("C:\\Program Files\\ClipFerry\\clipferry.exe"@)
        =~= "\"C:\\Program Files\\ClipFerry\\clipferry.exe\" tray"@);
}

impl SelfTest {
    /// The line that tells of a self test that passed.
    pub fn line(&self) -> (line: String)
        ensures
            line@ == "TRAY_SELFTEST passed=true icon_bytes="@ + text::decimal(
                self.icon_bytes as nat,
            ) + " autostart_command=\""@ + text::escaped(self.command@) + "\""@,
    {
        let mut line = String::new();
        text::push_text(&mut line, "TRAY_SELFTEST passed=true icon_bytes=");
        text::push_decimal(&mut line, self.icon_bytes as u64);
        text::push_text(&mut line, " autostart_command=\"");
        text::push_escaped(&mut line, self.command.as_str());
        text::push_text(&mut line, "\"");
        assert(line@ =~= "TRAY_SELFTEST passed=true icon_bytes="@ + text::decimal(
            self.icon_bytes as nat,
        ) + " autostart_command=\""@ + text::escaped(self.command@) + "\""@);
        line
    }
}

/// A text that was cut to a number of cells ends in a zero, and what was kept of it stands
/// unchanged at the start.
pub proof fn lemma_fixed_text_ends(units: Seq<u16>, cells: nat)
    requires
        cells > 0,
    ensures
        fixed(units, cells).len() == cells,
        fixed(units, cells).last() == 0,
        forall|k: int|
            0 <= k < units.len() && k < cells - 1 ==> #[trigger] fixed(units, cells)[k] == units[k],
{
}

/// The commands of the menu by their numbers. Those of a transfer only say that there is none.
pub proof fn lemma_commands(command: usize)
    ensures
        command_of(command) is ShowStatus <==> command == 1001,
        command_of(command) is Pair <==> command == 1002,
        command_of(command) is ManagePeers <==> command == 1003,
        command_of(command) is NoTransfer <==> 1004 <= command <= 1006,
        command_of(command) is ToggleAutostart <==> command == 1007,
        command_of(command) is OpenLog <==> command == 1008,
        command_of(command) is Exit <==> command == 1009,
        command_of(command) is Nothing <==> command < 1001 || command > 1009,
{
}

/// What the hidden window does: the menu on a right click, the status on a double click or when it is
/// asked for it, commands as they come, and the end of the session or of the window ends it.
pub proof fn lemma_messages(taskbar_created: u32, message: u32, wparam: usize, lparam: i64)
    requires
        taskbar_created > 0x8003,
    ensures
        ({
            let action = tray_action(true, taskbar_created, message, wparam, lparam);
            &&& action is AddIcon <==> message == taskbar_created
            &&& action is ShowMenu <==> message == 0x8001 && lparam == 0x205
            &&& action is ShowStatus <==> (message == 0x8001 && lparam == 0x203) || message == 0x8002
            &&& action is ExitForAnother <==> message == 0x8003
            &&& action is Command <==> message == 0x111
            &&& action matches TrayAction::Command { action } ==> action == command_of(
                (wparam % 65_536) as usize,
            )
            &&& action is AllowEnd <==> message == 0x11
            &&& action is Quit <==> message == 2 || (message == 0x16 && wparam != 0)
            &&& action is Handled <==> message == 0x8001 && lparam != 0x203 && lparam != 0x205
        }),
        ({
            let action = tray_action(false, taskbar_created, message, wparam, lparam);
            &&& action is AllowEnd <==> message == 0x11
            &&& action is Quit <==> message == 2 || (message == 0x16 && wparam != 0)
            &&& action is Default || action is AllowEnd || action is Quit
        }),
{
}

/// Whether an entry of a menu has a command.
pub open spec fn lists(items: Seq<MenuItem>, command: usize) -> bool {
    exists|k: int|
        0 <= k < items.len() && (#[trigger] items[k] matches MenuItem::Entry { command: listed, .. }
            && listed == command)
}

/// Each entry of the menu that can be chosen does something, those of a transfer cannot be chosen, and
/// autostart is checked exactly while it is on. The menu ends with leaving the application.
pub proof fn lemma_menu(autostart: AutostartState)
    ensures
        menu(autostart).len() == 14,
        forall|k: int|
            0 <= k < menu(autostart).len() ==> (#[trigger] menu(autostart)[k] matches MenuItem::Entry {
                command,
                enabled,
                checked,
                ..
            } ==> (enabled <==> !(command_of(command) is Nothing) && !(command_of(command) is NoTransfer)) && (
            checked <==> command == 1007 && autostart is Enabled)),
        menu(autostart).last() matches MenuItem::Entry { command, .. } && command_of(command) is Exit,
        forall|command: usize| 1001 <= command <= 1009 ==> #[trigger] lists(menu(autostart), command),
{
    let items = menu(autostart);
    assert forall|command: usize| 1001 <= command <= 1009 implies #[trigger] lists(items, command) by {
        let k = if command == 1001 {
            2int
        } else if command == 1002 {
            3
        } else if command == 1003 {
            4
        } else if command == 1004 {
            6
        } else if command == 1005 {
            7
        } else if command == 1006 {
            8
        } else if command == 1007 {
            10
        } else if command == 1008 {
            11
        } else {
            13
        };
        assert(items[k] matches MenuItem::Entry { command: listed, .. } && listed == command);
    }
}

/// An instance that runs is asked for its status or to leave, each by its own message; without one
/// there is nobody to ask.
pub proof fn lemma_instances_are_asked(
    window: Option<u64>,
    status: Result<TrayPost, Failure>,
    leaving: Result<TrayPost, Failure>,
)
    requires
        call_ensures(show_existing_status, (window,), status),
        call_ensures(exit_existing, (window,), leaving),
    ensures
        status is Ok <==> window is Some,
        leaving is Ok <==> window is Some,
        status matches Ok(post) ==> Some(post.window) == window && post.message == 0x8002,
        leaving matches Ok(post) ==> Some(post.window) == window && post.message == 0x8003,
        status matches Err(failure) ==> failure.kind is NotFound,
        leaving matches Err(failure) ==> failure.kind is NotFound,
{
}

/// The status names this device, how many devices are trusted, each of them, and whether the
/// application starts with the system.
pub proof fn lemma_status_tells(
    fingerprint: CertificateFingerprint,
    peers: Seq<TrustedPeer>,
    autostart: AutostartState,
)
    ensures
        text::holds(
            status_text(fingerprint, peers, autostart),
            security::fingerprint_text(fingerprint.0@),
        ),
        text::holds(
            status_text(fingerprint, peers, autostart),
            "已配对设备（"@ + text::decimal(peers.len()) + "）"@,
        ),
        peers.len() > 0 ==> text::holds(status_text(fingerprint, peers, autostart), peer_lines(peers)),
        text::ends(
            status_text(fingerprint, peers, autostart),
            "开机自启动："@ + autostart.spec_label(),
        ),
{
    let whole = status_text(fingerprint, peers, autostart);
    let first = "ClipFerry 正在后台运行\r\n\r\n本机设备\r\n"@;
    let own = security::fingerprint_text(fingerprint.0@);
    let lines = if peers.len() == 0 {
        "暂无（可从托盘菜单开始配对）"@
    } else {
        peer_lines(peers)
    };
    let rest =
        "\r\n\r\n连接状态：等待已配对设备\r\n最近远端清单：暂无\r\n活动传输：暂无\r\n开机自启动："@;
    let counted = text::decimal(peers.len());
    reveal_strlit("\r\n\r\n已配对设备（");
    reveal_strlit("已配对设备（");
    reveal_strlit("）\r\n");
    reveal_strlit("）");
    reveal_strlit(
        "\r\n\r\n连接状态：等待已配对设备\r\n最近远端清单：暂无\r\n活动传输：暂无\r\n开机自启动：",
    );
    reveal_strlit("开机自启动：");
    let gap = seq!['\r', '\n', '\r', '\n'];
    assert("\r\n\r\n已配对设备（"@ =~= gap + "已配对设备（"@);
    assert("）\r\n"@ =~= "）"@ + seq!['\r', '\n']);
    let count = "已配对设备（"@ + counted + "）"@;
    assert(whole =~= first + own + ("\r\n\r\n已配对设备（"@ + counted + "）\r\n"@ + lines + rest
        + autostart.spec_label()));
    text::lemma_holds(
        first,
        own,
        "\r\n\r\n已配对设备（"@ + counted + "）\r\n"@ + lines + rest + autostart.spec_label(),
    );
    let after = seq!['\r', '\n'] + lines + rest + autostart.spec_label();
    assert(whole =~= (first + own + gap) + count + after);
    text::lemma_holds(first + own + gap, count, after);
    let before = first + own + gap + count + seq!['\r', '\n'];
    assert(whole =~= before + lines + (rest + autostart.spec_label()));
    text::lemma_holds(before, lines, rest + autostart.spec_label());
    let head = rest.take(rest.len() - 6);
    assert(rest =~= head + "开机自启动："@);
    assert(whole =~= (before + lines + head) + ("开机自启动："@ + autostart.spec_label()));
    text::lemma_holds(
        before + lines + head,
        "开机自启动："@ + autostart.spec_label(),
        Seq::empty(),
    );
}

/// Each trusted device has a line of its own with its name and its fingerprint, in order.
pub proof fn lemma_lines_of_peers(peers: Seq<TrustedPeer>, next: TrustedPeer)
    ensures
        peer_lines(seq![next]) == "• "@ + next.label@ + "  "@ + security::fingerprint_text(
            next.fingerprint.0@,
        ),
        peers.len() > 0 ==> peer_lines(peers.push(next)) == peer_lines(peers) + "\r\n"@ + peer_lines(
            seq![next],
        ),
{
    assert(peers.push(next).drop_last() =~= peers);
    assert(seq![next].last() == next);
}

/// The shell says by a number above 32 that it opened the log.
pub proof fn lemma_shell_answers(answer: i64, failure: Option<String>)
    requires
        call_ensures(shell_failure, (answer,), failure),
    ensures
        failure is None <==> answer > 32,
{
}

/// The numbers of the messages that a window gets, those of the application behind 0x8000.
pub proof fn lemma_numbers_of_messages()
    ensures
        TRAY_CALLBACK_MESSAGE == 0x8000 + 1,
        TRAY_SHOW_STATUS_MESSAGE == 0x8000 + 2,
        TRAY_EXIT_MESSAGE == 0x8000 + 3,
        WM_DESTROY == 2 && WM_QUERYENDSESSION == 17 && WM_ENDSESSION == 22,
        WM_COMMAND == 273 && WM_LBUTTONDBLCLK == 515 && WM_RBUTTONUP == 517,
{
}

} // verus!
