use clipferry::address::{Endpoint, IpAddress};
use clipferry::clipboard::product::session::ProductSnapshot;
use clipferry::clipboard::product::summary::{
    ProductManifestSummary, ProductTransferSnapshot, ProductTransferState,
};
use clipferry::security::CertificateFingerprint;
use clipferry::transfer_window::{
    format_bytes, format_remaining, format_scaled_bytes, progress_tenths,
    should_present_generation, truncate, ProgressColor, TransferWindow, TransferWindowCommands,
    WindowAction, CONTROL_CANCEL, CONTROL_PAUSE, CONTROL_RESUME, SC_MINIMIZE, WM_CLOSE, WM_COMMAND,
    WM_SYSCOMMAND,
};

fn transfer(state: ProductTransferState) -> ProductTransferSnapshot {
    ProductTransferSnapshot {
        state,
        transferred: 50,
        total_size: 100,
        bytes_per_second: 10,
        average_bytes_per_second: 8,
        started_files: 1,
        total_files: 1,
        current_file_name: Some("file.bin".to_owned()),
        current_file_transferred: 50,
        current_file_size: 100,
        reconnect_attempts: 0,
        recovered_commands: 0,
        recovery_active: false,
    }
}

fn shown(state: ProductTransferState, generation: u64) -> ProductSnapshot {
    ProductSnapshot {
        listener_running: true,
        local_endpoint: Endpoint::new(IpAddress::V4(0x7f00_0001), 45_233),
        active_peer_label: "测试设备".to_owned(),
        active_peer: CertificateFingerprint::from_bytes([7; 32]),
        auto_receive: true,
        pending_offer: false,
        last_manifest: Some(ProductManifestSummary {
            direction: "接收",
            primary_name: "测试文件夹".to_owned(),
            items: 2,
            files: 1,
            directories: 1,
            total_size: 100,
        }),
        transfer: Some(transfer(state)),
        transfer_generation: generation,
        last_error: None,
    }
}

#[test]
fn progress_and_remaining_time_are_bounded() {
    assert_eq!(progress_tenths(50, 100, ProductTransferState::Running), 500);
    assert_eq!(progress_tenths(200, 100, ProductTransferState::Running), 1000);
    assert_eq!(progress_tenths(0, 0, ProductTransferState::Completed), 1000);
    assert_eq!(format_remaining(&transfer(ProductTransferState::Running)), "5 秒");
}

#[test]
fn truncation_preserves_unicode_boundaries() {
    assert_eq!(truncate("你好-ClipFerry", 2), "你好…");
    assert_eq!(truncate("文件", 4), "文件");
}

#[test]
fn an_unpasted_offer_does_not_replace_the_visible_transfer_result() {
    assert!(!should_present_generation(Some(7), 8, ProductTransferState::AwaitingPaste));
    assert!(should_present_generation(Some(7), 8, ProductTransferState::Running));
    assert!(should_present_generation(Some(7), 7, ProductTransferState::Completed));
}

#[test]
fn sizes_and_times_are_put_in_words() {
    assert_eq!(format_bytes(0), "0 B");
    assert_eq!(format_bytes(1023), "1023 B");
    assert_eq!(format_bytes(1024), "1.0 KiB");
    assert_eq!(format_bytes(1536 * 1024), "1.5 MiB");
    assert_eq!(format_bytes(1024 * 1024 * 1024 + 53 * 1024 * 1024), "1.05 GiB");
    assert_eq!(format_bytes(u64::MAX), "17179869183.99 GiB");
    assert_eq!(format_scaled_bytes(1999, 1000, 1, "k"), "1.9 k");
    assert_eq!(format_scaled_bytes(1049, 1000, 3, "k"), "1.049 k");
    assert_eq!(format_scaled_bytes(1009, 1000, 2, "k"), "1.00 k");
    assert_eq!(format_scaled_bytes(7, 2, 0, "x"), "3.0 x");
    assert_eq!(format_scaled_bytes(u64::MAX - 1, u64::MAX, 2, "x"), "0.99 x");
    assert_eq!(
        format_scaled_bytes(u64::MAX - 1, u64::MAX, 19, "x"),
        "0.9999999999999999999 x"
    );
    let left = |total_size, bytes_per_second| {
        format_remaining(&ProductTransferSnapshot {
            transferred: 0,
            total_size,
            bytes_per_second,
            ..transfer(ProductTransferState::Running)
        })
    };
    assert_eq!(left(101, 10), "11 秒");
    assert_eq!(left(61, 1), "1 分 1 秒");
    assert_eq!(left(3_661, 1), "1 小时 1 分");
    assert_eq!(left(1, 0), "计算中");
    assert_eq!(format_remaining(&transfer(ProductTransferState::Completed)), "已完成");
    assert_eq!(format_remaining(&transfer(ProductTransferState::Paused)), "已暂停");
    assert_eq!(progress_tenths(u64::MAX, u64::MAX, ProductTransferState::Running), 1);
    assert_eq!(progress_tenths(0, 0, ProductTransferState::Running), 0);
}

#[test]
fn the_window_shows_a_running_transfer() {
    let mut window = TransferWindow::new();
    let content = window.update(&shown(ProductTransferState::Running, 1), false).unwrap();
    assert_eq!(content.title, "ClipFerry · 从“测试设备”接收");
    assert_eq!(content.heading, "测试文件夹 · 1 个文件 / 1 个目录");
    assert_eq!(content.state, "传输中 · 50.0%");
    assert_eq!(content.amount, "已传输：50 B / 100 B");
    assert_eq!(content.speed, "当前速度：10 B/s    平均速度：8 B/s    剩余：5 秒");
    assert_eq!(content.current_file, "当前文件：file.bin    50 B / 100 B    文件 1/1");
    assert_eq!(content.recovery, "网络状态：稳定");
    assert_eq!(content.cancel, "取消");
    assert_eq!(content.tenths, 500);
    assert_eq!(content.color, ProgressColor::Normal);
    assert!(content.can_pause && !content.can_resume && content.appear);
    assert!(!window.update(&shown(ProductTransferState::Running, 1), true).unwrap().appear);
    let mut sent = shown(ProductTransferState::Running, 2);
    sent.last_manifest.as_mut().unwrap().direction = "发送";
    assert!(window.update(&sent, false).is_none());
    assert_eq!(window.generation, Some(1));
    let mut recovering = shown(ProductTransferState::Paused, 1);
    let inner = recovering.transfer.as_mut().unwrap();
    inner.recovery_active = true;
    inner.reconnect_attempts = 3;
    inner.recovered_commands = 2;
    inner.current_file_name = None;
    let content = window.update(&recovering, false).unwrap();
    assert_eq!(content.recovery, "网络状态：正在重连 · 已尝试 3 次 · 已恢复 2 次命令");
    assert_eq!(content.current_file, "当前文件：尚未开始    50 B / 100 B    文件 1/1");
    assert_eq!(content.color, ProgressColor::Paused);
    recovering.transfer.as_mut().unwrap().recovery_active = false;
    assert_eq!(
        window.update(&recovering, false).unwrap().recovery,
        "网络状态：已恢复 · 共尝试 3 次 · 已恢复 2 次命令"
    );
}

#[test]
fn an_offer_that_was_not_pasted_does_not_bring_the_window_up() {
    let mut window = TransferWindow::new();
    let content = window.update(&shown(ProductTransferState::AwaitingPaste, 1), false).unwrap();
    assert!(!content.appear);
    assert_eq!(content.state, "等待粘贴 · 50.0%");
}

#[test]
fn buttons_send_commands_and_closing_hides() {
    let commands = TransferWindowCommands { pause: 11, resume: 12, cancel: 13 };
    let mut window = TransferWindow::new();
    window.update(&shown(ProductTransferState::Running, 4), false);
    assert_eq!(
        window.handle(commands, WM_COMMAND, CONTROL_PAUSE),
        WindowAction::Send { command: 11 }
    );
    assert_eq!(
        window.handle(commands, WM_COMMAND, CONTROL_RESUME),
        WindowAction::Send { command: 12 }
    );
    assert_eq!(window.handle(commands, WM_COMMAND, 9), WindowAction::Handled);
    assert!(!window.hidden_by_user);
    assert_eq!(
        window.handle(commands, WM_COMMAND, CONTROL_CANCEL),
        WindowAction::SendAndHide { command: 13 }
    );
    assert!(window.hidden_by_user);
    assert!(!window.update(&shown(ProductTransferState::Running, 4), false).unwrap().appear);
    assert!(window.update(&shown(ProductTransferState::Running, 5), false).unwrap().appear);
    let done = window.update(&shown(ProductTransferState::Completed, 5), false).unwrap();
    assert_eq!(done.cancel, "完成");
    assert_eq!(window.handle(commands, WM_COMMAND, CONTROL_CANCEL), WindowAction::Hide);
    window.show();
    assert!(!window.hidden_by_user);
    assert_eq!(
        window.handle(commands, WM_SYSCOMMAND, SC_MINIMIZE as usize + 3),
        WindowAction::Hide
    );
    assert_eq!(window.handle(commands, WM_CLOSE, 0), WindowAction::Hide);
    assert_eq!(window.handle(commands, 1, 0), WindowAction::Default);
    let failed = window.update(&shown(ProductTransferState::Failed, 6), false).unwrap();
    assert_eq!((failed.cancel, failed.color), ("关闭", ProgressColor::Error));
}
