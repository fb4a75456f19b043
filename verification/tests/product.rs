use clipferry::address::{Endpoint, IpAddress};
use clipferry::app_settings::AppSettings;
use clipferry::clipboard::data_object::{VirtualFileDescriptor, FILE_ATTRIBUTE_DIRECTORY};
use clipferry::clipboard::local_file::capture::{CaptureError, CaptureRejection};
use clipferry::clipboard::product::announce::{
    check_acknowledgement, encode_announcement, is_recoverable_announcement_error,
    read_announcement, AnnouncementRetry, ANNOUNCEMENT_WINDOW, FIRST_DELAY, LONGEST_DELAY,
    OFFER_ACK, OFFER_FRAME_SIZE, OFFER_MAGIC,
};
use clipferry::clipboard::product::progress::{
    show, CurrentFile, Observation, RemoteProgress, Speed, SpeedSample,
};
use clipferry::clipboard::product::session::{
    capture_refusal, claim_clipboard_sequence, route_message, CancelStep, OfferAnnouncement, ProductError,
    ProductSession, ProductSnapshot, TransferDirection, WorkerAction, MAX_LIVE_SOURCE_OFFERS,
    PRODUCT_COMMAND_MESSAGE, PRODUCT_EVENT_MESSAGE, STREAMS_REFUSED, WM_CLIPBOARDUPDATE, WM_QUIT, WM_TIMER,
};
use clipferry::clipboard::product::summary::{
    summarize_manifest, ProductManifestSummary, ProductTransferState,
};
use clipferry::clipboard::secure_transfer::manifest::{OfferManifest, OfferManifestEntry};
use clipferry::clipboard::secure_transfer::model::SecureMetricsSnapshot;
use clipferry::clipboard::secure_transfer::wire::ProtocolId;
use clipferry::failure::FailureKind;
use clipferry::security::CertificateFingerprint;

const SECOND: u64 = 1_000_000_000;

fn v4(a: u8, b: u8, c: u8, d: u8, port: u16) -> Endpoint {
    Endpoint::new(IpAddress::V4(u32::from_be_bytes([a, b, c, d])), port)
}

fn fingerprint(name: &[u8]) -> CertificateFingerprint {
    CertificateFingerprint::from_certificate(name)
}

fn settings(auto_receive: bool) -> AppSettings {
    AppSettings {
        local_endpoint: v4(127, 0, 0, 1, 45233),
        active_peer: fingerprint(b"first"),
        peer_endpoint: v4(127, 0, 0, 1, 45234),
        auto_receive,
    }
}

fn session(auto_receive: bool) -> ProductSession {
    ProductSession::new(settings(auto_receive), "first".to_owned(), 0)
}

fn summary(files: usize, total_size: u64) -> ProductManifestSummary {
    ProductManifestSummary {
        direction: "接收",
        primary_name: "product-smoke.bin".to_owned(),
        items: files,
        files,
        directories: 0,
        total_size,
    }
}

fn metrics() -> SecureMetricsSnapshot {
    SecureMetricsSnapshot {
        accepted_connections: 0,
        tls_failures: 0,
        protocol_errors: 0,
        denied_requests: 0,
        replayed_requests: 0,
        begun_transfers: 0,
        read_requests: 0,
        served_bytes: 0,
        unique_bytes: 0,
        cancelled_transfers: 0,
        active_reads: 0,
        max_concurrent_reads: 0,
    }
}

fn progress() -> RemoteProgress {
    RemoteProgress {
        bytes_read: 0,
        started_transfers: 0,
        completed_transfers: 0,
        paused: false,
        cancelled: false,
        current_file: None,
        reconnect_attempts: 0,
        recovered_commands: 0,
        active_recoveries: 0,
    }
}

#[test]
fn the_transfer_that_is_shown_goes_one_way() {
    let sides = || {
        let moved = RemoteProgress { bytes_read: 3, ..progress() };
        let served = SecureMetricsSnapshot { unique_bytes: 5, ..metrics() };
        (
            Observation::received(&summary(1, 10), moved),
            Observation::sent(&summary(1, 10), served),
        )
    };
    let mut session = session(true);
    let mut shown = |direction, keep: (bool, bool)| {
        session.active_direction = direction;
        let (received, sent) = sides();
        session.observed(keep.0.then_some(received), keep.1.then_some(sent)).bytes
    };
    assert_eq!(shown(Some(TransferDirection::Remote), (true, true)), 3);
    assert_eq!(shown(Some(TransferDirection::Source), (true, true)), 5);
    assert_eq!(shown(Some(TransferDirection::Remote), (false, true)), 0);
    assert_eq!(shown(Some(TransferDirection::Source), (true, false)), 0);
    assert_eq!(shown(None, (true, true)), 0);
}

#[test]
fn offer_announcement_round_trips_private_ipv4_and_ipv6() {
    for endpoint in [
        v4(192, 168, 1, 9, 49152),
        Endpoint::new(IpAddress::V6(0xfd00_0000_0000_0000_0000_0000_0000_0009), 49152),
    ] {
        let encoded = encode_announcement(endpoint).unwrap();
        assert_eq!(read_announcement(&encoded).unwrap(), endpoint);
    }
}

#[test]
fn offer_announcement_rejects_public_zero_port_and_bad_magic() {
    assert!(encode_announcement(v4(8, 8, 8, 8, 45233)).is_err());
    assert!(encode_announcement(v4(192, 168, 1, 9, 0)).is_err());
    let mut frame = encode_announcement(v4(192, 168, 1, 9, 45233)).unwrap();
    frame[0] ^= 0xff;
    assert!(read_announcement(&frame).is_err());
}

#[test]
fn announcements_have_a_fixed_layout() {
    let frame = encode_announcement(v4(192, 168, 1, 9, 0xB0B1)).unwrap();
    assert_eq!(frame.len(), OFFER_FRAME_SIZE);
    assert_eq!(frame[..8], OFFER_MAGIC);
    assert_eq!(&OFFER_MAGIC, b"CFOFFER1");
    assert_eq!(frame[8], 4);
    assert_eq!(frame[9..13], [192, 168, 1, 9]);
    assert_eq!(frame[13..25], [0; 12]);
    assert_eq!(frame[25..], [0xB0, 0xB1]);
    let mut family = frame.clone();
    family[8] = 9;
    assert_eq!(
        read_announcement(&family).unwrap_err().message,
        "invalid offer endpoint address family"
    );
    let mut public = frame.clone();
    public[9] = 8;
    assert_eq!(read_announcement(&public).unwrap_err().kind, FailureKind::InvalidData);
    assert!(check_acknowledgement(&OFFER_ACK).is_ok());
    assert!(check_acknowledgement(b"CFACK002").is_err());
    assert!(check_acknowledgement(b"").is_err());
}

#[test]
fn announcements_are_tried_again_for_a_minute() {
    let mut retry = AnnouncementRetry::new(5);
    assert_eq!(retry.deadline, 5 + ANNOUNCEMENT_WINDOW);
    assert_eq!(retry.after_failure(false, 5), None);
    assert_eq!(retry.after_failure(true, 5), Some(FIRST_DELAY));
    assert_eq!(retry.after_failure(true, 5), Some(2 * FIRST_DELAY));
    for _ in 0..8 {
        retry.after_failure(true, 5);
    }
    assert_eq!(retry.after_failure(true, 5), Some(LONGEST_DELAY));
    assert_eq!(retry.after_failure(true, retry.deadline - 1), Some(1));
    assert_eq!(retry.after_failure(true, retry.deadline), None);
    assert!(is_recoverable_announcement_error(FailureKind::ConnectionRefused, None));
    assert!(is_recoverable_announcement_error(FailureKind::Other, Some(10051)));
    assert!(!is_recoverable_announcement_error(FailureKind::Other, Some(10049)));
    assert!(!is_recoverable_announcement_error(FailureKind::InvalidData, None));
}

#[test]
fn public_snapshot_layout_stays_small() {
    assert!(std::mem::size_of::<ProductSnapshot>() < 512);
}

#[test]
fn clipboard_sequence_is_claimed_before_success_rejection_or_read_failure() {
    let mut last = None;
    assert!(claim_clipboard_sequence(&mut last, 41));
    assert_eq!(last, Some(41));
    assert!(!claim_clipboard_sequence(&mut last, 41));
    assert!(claim_clipboard_sequence(&mut last, 42));
    assert_eq!(last, Some(42));
    assert!(claim_clipboard_sequence(&mut last, 0));
}

#[test]
fn sessions_accept_announcements_of_the_selected_peer_only() {
    let mut session = session(true);
    let stranger =
        OfferAnnouncement { endpoint: v4(127, 0, 0, 1, 50000), peer: fingerprint(b"second") };
    assert!(!session.note_offer(stranger));
    assert!(session.pending.is_none());
    assert_eq!(
        session.snapshot.last_error.as_deref(),
        Some("收到非活动设备的 Offer，已拒绝")
    );
    assert_eq!(session.pending_endpoint().unwrap_err().kind, FailureKind::NotFound);
    let selected =
        OfferAnnouncement { endpoint: v4(127, 0, 0, 1, 50000), peer: fingerprint(b"first") };
    assert!(session.note_offer(selected));
    assert!(session.snapshot.pending_offer);
    assert_eq!(session.pending_endpoint().unwrap(), v4(127, 0, 0, 1, 50000));
    session.announcement_sent();
    assert!(session.snapshot.last_error.is_none());

    session.accepted(summary(2, 4096), SECOND);
    assert!(!session.snapshot.pending_offer);
    assert!(session.pending.is_none());
    assert!(session.has_remote);
    assert_eq!(session.active_direction, Some(TransferDirection::Remote));
    assert_eq!(session.snapshot.transfer_generation, 1);
    let transfer = session.snapshot.transfer.as_ref().unwrap();
    assert_eq!(transfer.state, ProductTransferState::AwaitingPaste);
    assert_eq!((transfer.total_size, transfer.total_files), (4096, 2));
}

#[test]
fn manual_sessions_keep_the_offer_waiting() {
    let mut session = session(false);
    let selected = OfferAnnouncement { endpoint: v4(8, 8, 8, 8, 1), peer: fingerprint(b"first") };
    assert!(!session.note_offer(selected));
    assert!(session.snapshot.pending_offer);
    assert_eq!(session.pending_endpoint().unwrap_err().kind, FailureKind::InvalidData);
}

#[test]
fn own_offers_are_bounded() {
    let mut session = session(true);
    for _ in 0..MAX_LIVE_SOURCE_OFFERS {
        assert!(!session.published(summary(1, 10), 0));
    }
    assert!(session.published(summary(1, 10), 0));
    assert_eq!(session.live_sources, MAX_LIVE_SOURCE_OFFERS);
    assert_eq!(session.snapshot.transfer_generation, 5);
    assert_eq!(session.active_direction, Some(TransferDirection::Source));
}

#[test]
fn clipboard_updates_of_the_own_offer_are_not_looked_at() {
    let mut session = session(true);
    assert!(session.note_clipboard_update(1, true));
    session.accepted(summary(1, 1), 0);
    assert!(!session.note_clipboard_update(2, true));
    assert!(session.note_clipboard_update(3, false));
    session.note_capture(9);
    assert_eq!(session.last_clipboard_sequence, Some(9));
    session.note_capture(0);
    assert_eq!(session.last_clipboard_sequence, Some(9));
    session.set_listening(true);
    assert!(session.snapshot.listener_running);
}

#[test]
fn cancelling_drops_an_offer_that_was_not_begun() {
    let mut session = session(true);
    assert_eq!(session.cancel_remote(0).unwrap_err().kind, FailureKind::NotConnected);
    assert!(session.check_remote().is_err());
    session.accepted(summary(1, 10), 0);
    assert!(session.check_remote().is_ok());
    assert_eq!(session.cancel_remote(1).unwrap(), CancelStep::CancelAll);
    assert!(session.has_remote);
    assert_eq!(session.cancel_remote(0).unwrap(), CancelStep::DropOffer);
    assert!(!session.has_remote);
    assert_eq!(
        session.snapshot.transfer.as_ref().unwrap().state,
        ProductTransferState::Cancelled
    );
    session.refresh_progress(Observation::none(), SECOND);
    assert_eq!(
        session.snapshot.transfer.as_ref().unwrap().state,
        ProductTransferState::Cancelled
    );
}

#[test]
fn errors_are_shown_with_their_lead() {
    let mut session = session(true);
    session.set_error(ProductError::ReadFailed, "busy");
    assert_eq!(session.snapshot.last_error.as_deref(), Some("读取本机剪贴板失败：busy"));
    for (error, lead) in [
        (ProductError::WorkerStopped, "后台服务已停止："),
        (ProductError::PublishFailed, "本机文件清单发布失败："),
        (ProductError::NotSent, "本机文件剪贴板未发送："),
        (ProductError::AutoReceiveFailed, "自动接收远端清单失败："),
        (ProductError::AnnouncementFailed, "无法通知对端设备："),
        (ProductError::ControlFailed, "传输控制失败："),
    ] {
        assert_eq!(error.lead(), lead);
    }
}

#[test]
fn messages_are_routed_by_number() {
    assert_eq!(route_message(-1, WM_QUIT, true, true), WorkerAction::Fail);
    assert_eq!(route_message(0, 1, true, true), WorkerAction::Quit);
    assert_eq!(route_message(1, WM_QUIT, false, false), WorkerAction::Quit);
    assert_eq!(route_message(1, WM_CLIPBOARDUPDATE, true, false), WorkerAction::Clipboard);
    assert_eq!(route_message(1, WM_CLIPBOARDUPDATE, false, false), WorkerAction::Dispatch);
    assert_eq!(route_message(1, PRODUCT_EVENT_MESSAGE, false, false), WorkerAction::Events);
    assert_eq!(route_message(1, PRODUCT_COMMAND_MESSAGE, false, false), WorkerAction::Commands);
    assert_eq!(route_message(1, WM_TIMER, false, true), WorkerAction::Refresh);
    assert_eq!(route_message(1, WM_TIMER, true, false), WorkerAction::Dispatch);
}

#[test]
fn speed_is_smoothed_and_averaged() {
    let mut sample = SpeedSample::new(0);
    let running = ProductTransferState::Running;
    assert_eq!(sample.advance(SECOND, 1000, running), Speed { current: 1000, average: 1000 });
    assert_eq!(sample.advance(2 * SECOND, 5000, running), Speed { current: 1750, average: 2500 });
    assert_eq!(
        sample.advance(3 * SECOND, 5000, ProductTransferState::Paused),
        Speed { current: 0, average: 1666 }
    );
    assert_eq!(sample.advance(4 * SECOND, 5000, running), Speed { current: 1750, average: 1250 });
    assert_eq!(
        sample.advance(5 * SECOND, 6000, ProductTransferState::Completed),
        Speed { current: 0, average: 1200 }
    );
    assert_eq!(sample.smoothed_speed, 0);
    let mut sample = SpeedSample::new(0);
    assert_eq!(
        sample.advance(0, u64::MAX, running),
        Speed { current: 0, average: u64::MAX }
    );
}

#[test]
fn received_transfers_are_observed_by_their_files() {
    let summary = summary(2, 100);
    let state = |progress| Observation::received(&summary, progress).state;
    assert_eq!(state(progress()), ProductTransferState::AwaitingPaste);
    assert_eq!(
        state(RemoteProgress { started_transfers: 1, ..progress() }),
        ProductTransferState::Running
    );
    let completed =
        || RemoteProgress { started_transfers: 2, completed_transfers: 2, ..progress() };
    assert_eq!(state(completed()), ProductTransferState::Completed);
    assert_eq!(
        state(RemoteProgress { paused: true, ..completed() }),
        ProductTransferState::Paused
    );
    assert_eq!(
        state(RemoteProgress { paused: true, cancelled: true, ..completed() }),
        ProductTransferState::Cancelled
    );
    let observation = Observation::received(
        &summary,
        RemoteProgress {
            bytes_read: 150,
            active_recoveries: 1,
            reconnect_attempts: 3,
            current_file: Some(CurrentFile { name: "b".to_owned(), transferred: 4, size: 9 }),
            ..progress()
        },
    );
    assert_eq!(observation.bytes, 100);
    assert!(observation.recovery_active);
    let shown = show(observation, Speed { current: 7, average: 8 });
    assert_eq!(shown.bytes_per_second, 7);
    assert_eq!(shown.average_bytes_per_second, 8);
    assert_eq!(shown.current_file_name.as_deref(), Some("b"));
    assert_eq!((shown.current_file_transferred, shown.current_file_size), (4, 9));
    assert_eq!(shown.reconnect_attempts, 3);
}

#[test]
fn sent_transfers_are_observed_by_their_bytes() {
    let summary = summary(2, 100);
    let state = |metrics| Observation::sent(&summary, metrics).state;
    assert_eq!(state(metrics()), ProductTransferState::AwaitingPaste);
    let begun = || SecureMetricsSnapshot { begun_transfers: 1, ..metrics() };
    assert_eq!(state(begun()), ProductTransferState::Running);
    assert_eq!(
        state(SecureMetricsSnapshot { unique_bytes: 100, ..begun() }),
        ProductTransferState::Completed
    );
    assert_eq!(
        state(SecureMetricsSnapshot { unique_bytes: 100, cancelled_transfers: 1, ..begun() }),
        ProductTransferState::Cancelled
    );
    let mut session = session(true);
    session.published(ProductManifestSummary { direction: "发送", ..self::summary(2, 100) }, 0);
    session.refresh_progress(
        Observation::sent(&summary, SecureMetricsSnapshot { unique_bytes: 50, ..begun() }),
        SECOND,
    );
    let transfer = session.snapshot.transfer.as_ref().unwrap();
    assert_eq!(transfer.state, ProductTransferState::Running);
    assert_eq!(transfer.transferred, 50);
    assert_eq!(transfer.bytes_per_second, 50);
}

#[test]
fn manifests_are_summarized() {
    let entry = |name: &str, size, attributes| OfferManifestEntry {
        file_id: ProtocolId([3; 16]),
        descriptor: VirtualFileDescriptor {
            attributes,
            ..VirtualFileDescriptor::basic(name.to_owned(), size)
        },
    };
    let manifest = OfferManifest {
        offer_id: ProtocolId([1; 16]),
        ttl_millis: 1000,
        entries: vec![
            entry("folder", 0, FILE_ATTRIBUTE_DIRECTORY),
            entry("folder\\a", 7, 0x80),
            entry("folder\\b", 8, 0x80),
        ],
    };
    let summary = summarize_manifest("接收", &manifest);
    assert_eq!(summary.primary_name, "folder");
    assert_eq!((summary.items, summary.files, summary.directories), (3, 2, 1));
    assert_eq!(summary.total_size, 15);
    let empty = OfferManifest { entries: vec![], ..manifest };
    assert_eq!(summarize_manifest("发送", &empty).total_size, 0);
    assert_eq!(ProductTransferState::Paused.label(), "已暂停");
}

#[test]
fn files_with_further_streams_are_refused_with_advice() {
    let streams = CaptureError::Rejected { reason: CaptureRejection::AlternateDataStream };
    assert_eq!(capture_refusal(streams, ""), STREAMS_REFUSED);
    assert!(STREAMS_REFUSED.starts_with("所选内容包含 NTFS 附加数据流"));
    let directory = CaptureError::Rejected { reason: CaptureRejection::Directory };
    assert_eq!(capture_refusal(directory, ""), "rejected: directory");
    let system = CaptureError::Windows { code: 0x8000_FFFF };
    assert_eq!(capture_refusal(system, "Catastrophic failure"), "Catastrophic failure (0x8000FFFF)");
}
