use clipferry::device_store::TrustedPeer;
use clipferry::failure::FailureKind;
use clipferry::security::CertificateFingerprint;
use clipferry::tray::autostart::{
    query_autostart, quote_tray_command, toggled, value_is_readable, AutostartChange,
    AutostartState,
};
use clipferry::tray::icon::best_icon_image;
use clipferry::tray::{
    autostart_notice, autostart_status, command_of, copy_wide_to_fixed, exit_existing, log_line,
    menu_items, route_tray_message, self_test, set_autostart, shell_failure, show_existing_status,
    snapshot, MenuItem, TrayAction, TrayCommand, TrayPost, COMMAND_EXIT, COMMAND_PAIR,
    COMMAND_PAUSE, TRAY_CALLBACK_MESSAGE, TRAY_EXIT_MESSAGE, TRAY_SHOW_STATUS_MESSAGE, WM_COMMAND,
    WM_DESTROY, WM_ENDSESSION, WM_LBUTTONDBLCLK, WM_QUERYENDSESSION, WM_RBUTTONUP,
};

const EXECUTABLE: &str = r"C:\Program Files\ClipFerry\clipferry.exe";

fn icon_file() -> Vec<u8> {
    let mut file = vec![0, 0, 1, 0, 2, 0];
    let small: [u8; 44] = [7; 44];
    let large: [u8; 48] = [9; 48];
    for (side, length, offset) in [(16_u8, 44_u32, 38_u32), (0, 48, 82)] {
        file.extend_from_slice(&[side, side, 0, 0, 1, 0, 32, 0]);
        file.extend_from_slice(&length.to_le_bytes());
        file.extend_from_slice(&offset.to_le_bytes());
    }
    file.extend_from_slice(&small);
    file.extend_from_slice(&large);
    file
}

#[test]
fn embedded_ico_directory_selects_an_in_bounds_image() {
    let file = icon_file();
    let image = best_icon_image(&file).unwrap();
    assert!(image.len() >= 40);
    assert!(file.windows(image.len()).any(|window| window == image));
    assert_eq!(image, &[9; 48]);
}

#[test]
fn malformed_icons_are_refused_and_the_first_of_equals_is_picked() {
    let good = icon_file();
    let test = self_test(&good).unwrap();
    assert_eq!(test.icon_bytes, 48);
    assert_eq!(test.command, r#""C:\Program Files\ClipFerry\clipferry.exe" tray"#);
    assert_eq!(
        test.line(),
        format!("TRAY_SELFTEST passed=true icon_bytes=48 autostart_command={:?}", test.command)
    );
    let cases: [(usize, u8, &str); 4] = [
        (0, 1, "invalid ICO header"),
        (2, 2, "invalid ICO header"),
        (4, 0, "invalid ICO directory"),
        (17, 1, "ICO image is out of bounds"),
    ];
    for (at, value, message) in cases {
        let mut bad = good.clone();
        bad[at] = value;
        assert_eq!(best_icon_image(&bad).unwrap_err().message, message);
    }
    assert_eq!(best_icon_image(&good[..5]).unwrap_err().message, "invalid ICO header");
    assert_eq!(best_icon_image(&good[..37]).unwrap_err().message, "invalid ICO directory");
    let mut equal = good.clone();
    equal[22] = 16;
    equal[23] = 16;
    assert_eq!(best_icon_image(&equal).unwrap(), &[7; 44]);
    let mut short = good;
    short[30] = 39;
    assert_eq!(
        self_test(&short).unwrap_err().message,
        "embedded icon image is unexpectedly short"
    );
}

#[test]
fn autostart_command_quotes_the_executable_and_uses_tray_mode() {
    let command = quote_tray_command(r"C:\Program Files\ClipFerry\clipferry.exe").unwrap();
    assert_eq!(command, r#""C:\Program Files\ClipFerry\clipferry.exe" tray"#);
    assert!(quote_tray_command("C:\\bad\"path\\clipferry.exe").is_err());
}

#[test]
fn fixed_wide_text_is_null_terminated_and_truncated() {
    let mut output = [0xFFFF; 5];
    copy_wide_to_fixed("ClipFerry", &mut output);
    assert_eq!(output, ['C' as u16, 'l' as u16, 'i' as u16, 'p' as u16, 0]);
}

#[test]
fn fixed_wide_text_clears_what_it_does_not_fill() {
    let mut output = [0xFFFF; 6];
    copy_wide_to_fixed("a🚢", &mut output);
    assert_eq!(output, [0x61, 0xd83d, 0xdea2, 0, 0, 0]);
    let mut nothing: [u16; 0] = [];
    copy_wide_to_fixed("a", &mut nothing);
    let mut one = [5];
    copy_wide_to_fixed("a", &mut one);
    assert_eq!(one, [0]);
}

#[test]
fn what_autostart_writes_reads_back_as_enabled() {
    let change = set_autostart(EXECUTABLE, true).unwrap();
    let data = match change {
        AutostartChange::Write { data } => data,
        AutostartChange::Delete => panic!("nothing to write"),
    };
    assert_eq!(&data[..4], &[0x22, 0, 0x43, 0]);
    assert_eq!(data.len(), 2 * (EXECUTABLE.len() + 7 + 1));
    assert_eq!(query_autostart(EXECUTABLE, Some(&data)), Ok(AutostartState::Enabled));
    assert_eq!(autostart_status(EXECUTABLE, Some(&data)).unwrap(), "enabled");
    assert_eq!(autostart_status("D:\\other.exe", Some(&data)).unwrap(), "stale");
    assert_eq!(autostart_status(EXECUTABLE, None).unwrap(), "disabled");
    assert_eq!(autostart_status(EXECUTABLE, Some(&[])).unwrap(), "stale");
    assert_eq!(autostart_status(EXECUTABLE, Some(&data[..5])).unwrap(), "stale");
    assert_eq!(
        autostart_status(EXECUTABLE, Some(&[0x00, 0xd8, 0x41, 0x00])).unwrap_err().message,
        "autostart value is not UTF-16"
    );
    assert_eq!(
        autostart_status("a\"b", None).unwrap_err().kind,
        FailureKind::InvalidInput
    );
    assert!(matches!(set_autostart(EXECUTABLE, false), Ok(AutostartChange::Delete)));
    assert!(set_autostart("a\"b", true).is_err());
    assert!(toggled(AutostartState::Stale) && toggled(AutostartState::Disabled));
    assert!(!toggled(AutostartState::Enabled));
    assert!(!value_is_readable(0) && !value_is_readable(3) && value_is_readable(65_536));
    assert!(!value_is_readable(65_538));
    assert_eq!(autostart_notice(true).0, "autostart enabled=true");
    assert_eq!(autostart_notice(false).1, "已关闭开机自启动。");
}

#[test]
fn the_running_instance_is_asked_by_message() {
    assert_eq!(
        show_existing_status(Some(7)),
        Ok(TrayPost { window: 7, message: TRAY_SHOW_STATUS_MESSAGE })
    );
    assert_eq!(exit_existing(Some(7)), Ok(TrayPost { window: 7, message: TRAY_EXIT_MESSAGE }));
    let missing = exit_existing(None).unwrap_err();
    assert_eq!(missing.kind, FailureKind::NotFound);
    assert_eq!(missing.message, "ClipFerry tray is not running");
    assert!(show_existing_status(None).is_err());
}

#[test]
fn messages_and_commands_are_routed() {
    assert_eq!(command_of(COMMAND_PAIR), TrayCommand::Pair);
    assert_eq!(command_of(COMMAND_PAUSE), TrayCommand::NoTransfer);
    assert_eq!(command_of(1), TrayCommand::Nothing);
    let route = |message, wparam, lparam| route_tray_message(true, 0xc123, message, wparam, lparam);
    assert_eq!(route(0xc123, 0, 0), TrayAction::AddIcon);
    assert_eq!(route(TRAY_CALLBACK_MESSAGE, 0, i64::from(WM_RBUTTONUP)), TrayAction::ShowMenu);
    assert_eq!(
        route(TRAY_CALLBACK_MESSAGE, 0, i64::from(WM_LBUTTONDBLCLK)),
        TrayAction::ShowStatus
    );
    assert_eq!(route(TRAY_CALLBACK_MESSAGE, 0, -1), TrayAction::Handled);
    assert_eq!(route(TRAY_SHOW_STATUS_MESSAGE, 0, 0), TrayAction::ShowStatus);
    assert_eq!(route(TRAY_EXIT_MESSAGE, 0, 0), TrayAction::ExitForAnother);
    assert_eq!(
        route(WM_COMMAND, 0x7_0000 + COMMAND_EXIT, 0),
        TrayAction::Command { action: TrayCommand::Exit }
    );
    assert_eq!(route(WM_QUERYENDSESSION, 0, 0), TrayAction::AllowEnd);
    assert_eq!(route(WM_ENDSESSION, 0, 0), TrayAction::Default);
    assert_eq!(route(WM_ENDSESSION, 1, 0), TrayAction::Quit);
    assert_eq!(
        route_tray_message(false, 0xc123, WM_COMMAND, COMMAND_EXIT, 0),
        TrayAction::Default
    );
    assert_eq!(route_tray_message(false, 0xc123, WM_DESTROY, 0, 0), TrayAction::Quit);
}

#[test]
fn the_menu_and_the_status_say_what_is_so() {
    let items = menu_items(AutostartState::Enabled);
    assert_eq!(items.len(), 14);
    assert!(matches!(
        items[10],
        MenuItem::Entry { label: "随 Windows 启动", command: 1007, enabled: true, checked: true }
    ));
    assert!(matches!(items[6], MenuItem::Entry { command: 1004, enabled: false, .. }));
    assert!(matches!(
        menu_items(AutostartState::Stale)[10],
        MenuItem::Entry { checked: false, .. }
    ));
    let own = CertificateFingerprint::from_bytes([0; 32]);
    let zeros = own.to_text();
    assert_eq!(
        snapshot(own, &Vec::new(), AutostartState::Disabled),
        format!(
            "ClipFerry 正在后台运行\r\n\r\n本机设备\r\n{zeros}\r\n\r\n已配对设备（0）\r\n暂无（可从托盘菜单开始配对）\r\n\r\n连接状态：等待已配对设备\r\n最近远端清单：暂无\r\n活动传输：暂无\r\n开机自启动：disabled"
        )
    );
    let peer = |label: &str| TrustedPeer {
        fingerprint: own,
        label: label.to_owned(),
        certificate: vec![1],
    };
    let status = snapshot(own, &vec![peer("one"), peer("two")], AutostartState::Enabled);
    assert!(status.contains(&format!("（2）\r\n• one  {zeros}\r\n• two  {zeros}\r\n\r\n")));
    assert_eq!(log_line(12, "hello"), "time_unix=12 hello\n");
    assert_eq!(shell_failure(33), None);
    assert_eq!(
        shell_failure(2).unwrap(),
        "Windows 无法打开诊断日志（ShellExecute=2）"
    );
    assert_eq!(
        shell_failure(-5).unwrap(),
        "Windows 无法打开诊断日志（ShellExecute=-5）"
    );
}
