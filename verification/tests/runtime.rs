use clipferry::address::{Endpoint, IpAddress};
use clipferry::clipboard::data_object::FileTime;
use clipferry::clipboard::hresult::{E_INVALIDARG, E_UNEXPECTED, S_FALSE, S_OK};
use clipferry::clipboard::local_file::capture::{
    CaptureError, CaptureRejection, ClipboardCapture,
};
use clipferry::clipboard::local_file::offer::LocalFileOffer;
use clipferry::clipboard::local_file::snapshot::{FileInformation, FileSnapshot};
use clipferry::clipboard::loopback::server::LoopbackMetricsSnapshot;
use clipferry::clipboard::loopback::wire::Opcode;
use clipferry::clipboard::report::{
    capture_accepted, capture_failed, capture_ready, capture_seen, capture_stopped,
    clipboard_ready, clipboard_stopped, format_code, format_identifier, format_lifetime,
    loopback_ready, loopback_stopped, pause_controlled, pause_ready, pause_stopped, secure_metrics,
    secure_ready, secure_stopped, LeaseEnd, ProbeCounts, MILLISECOND, SECOND,
};
use clipferry::clipboard::runtime::{
    after_open, after_publish, check_deferred, clears_clipboard, console_command,
    control_transfer, ends_probe, exit_timer, loopback_probe, loopback_request, partial_name, pause_probe_source, receiver_step, route_probe_message,
    source_wait, CaptureSummary, Console, ConsoleCommand, FileCaptureProbeOptions,
    FileCaptureSession, LoopbackProbeOptions, PauseProbeOptions, ProbeAction, PublishStep, ReceiverRequest, ReceiverStep,
    SecureFetch, BACKOFF, CLIPBRD_E_CANT_OPEN,
};
use clipferry::clipboard::secure_transfer::model::SecureMetrics;
use clipferry::clipboard::secure_transfer::wire::{RemoteTransferState, TransferStatus};
use clipferry::clipboard::transfer::{TransferControl, TransferControlState};
use clipferry::failure::FailureKind;

const COUNTS: ProbeCounts = ProbeCounts { read_calls: 3, events: 4, dropped_events: 5 };

fn pause_options() -> PauseProbeOptions {
    PauseProbeOptions {
        size_bytes: 100,
        chunk_bytes: 10,
        chunk_delay: 25 * MILLISECOND,
        lifetime: Some(90 * SECOND),
        async_mode: true,
    }
}

fn loopback_options() -> LoopbackProbeOptions {
    LoopbackProbeOptions {
        size_bytes: 4096,
        range_bytes: 1024,
        fragment_bytes: 64,
        range_delay: 0,
        connect_timeout: SECOND,
        io_timeout: 2 * SECOND,
        lifetime: None,
        async_mode: false,
    }
}

fn snapshot() -> FileSnapshot {
    let time = FileTime { low_date_time: 1, high_date_time: 2 };
    let information = FileInformation {
        attributes: 0x20,
        creation_time: time,
        last_access_time: time,
        last_write_time: time,
        volume_serial: 1,
        size_high: 0,
        size_low: 4,
        index_high: 0,
        index_low: 9,
    };
    FileSnapshot::capture(vec![67], "file.bin".to_owned(), information, true, Ok(false)).unwrap()
}

fn capture_session() -> FileCaptureSession {
    FileCaptureSession::new(FileCaptureProbeOptions {
        offer_ttl: SECOND,
        lifetime: None,
        async_mode: false,
    })
    .unwrap()
}

#[test]
fn a_busy_clipboard_is_tried_eight_times() {
    assert_eq!(after_publish(0, None), PublishStep::Done);
    let busy = Some(CLIPBRD_E_CANT_OPEN);
    for (refusals, pause) in BACKOFF.into_iter().enumerate().take(7) {
        assert_eq!(after_publish(refusals, busy), PublishStep::Retry { pause });
    }
    assert_eq!(after_publish(7, busy), PublishStep::Fail { code: CLIPBRD_E_CANT_OPEN });
    assert_eq!(
        after_publish(0, Some(E_UNEXPECTED)),
        PublishStep::Fail { code: E_UNEXPECTED }
    );
}

#[test]
fn publishing_reads_no_content() {
    assert_eq!(check_deferred(0, 0), Ok(()));
    assert_eq!(check_deferred(1, 0), Err(E_UNEXPECTED));
    assert_eq!(check_deferred(0, 1), Err(E_UNEXPECTED));
    assert!(clears_clipboard(S_OK));
    assert!(!clears_clipboard(S_FALSE));
}

#[test]
fn probes_end_by_timer_or_message() {
    assert_eq!(exit_timer(0), Ok(1));
    assert_eq!(exit_timer(1500 * MILLISECOND), Ok(1500));
    assert_eq!(exit_timer(u64::MAX), Err(E_INVALIDARG));
    assert_eq!(route_probe_message(-1, 0, true, true), ProbeAction::Fail);
    assert_eq!(route_probe_message(0, 0, true, true), ProbeAction::Quit);
    assert_eq!(route_probe_message(1, 0x113, false, true), ProbeAction::Quit);
    assert_eq!(route_probe_message(1, 0x113, false, false), ProbeAction::Dispatch);
    assert_eq!(route_probe_message(1, 0x31D, true, false), ProbeAction::Clipboard);
    assert_eq!(route_probe_message(1, 0x31D, false, false), ProbeAction::Dispatch);
}

#[test]
fn probes_reject_impossible_options() {
    assert_eq!(pause_probe_source(pause_options()).unwrap().length, 100);
    assert!(pause_probe_source(PauseProbeOptions { chunk_bytes: 0, ..pause_options() }).is_err());
    let address = Endpoint::new(IpAddress::V4(0x7F00_0001), 4000);
    let (_, client) = loopback_probe(loopback_options(), address).unwrap();
    assert_eq!(client.length, 4096);
    assert_eq!(
        loopback_probe(LoopbackProbeOptions { range_bytes: 0, ..loopback_options() }, address)
            .unwrap_err(),
        E_INVALIDARG
    );
    let unusable = FileCaptureProbeOptions { offer_ttl: 0, lifetime: None, async_mode: false };
    assert!(matches!(FileCaptureSession::new(unusable), Err(E_INVALIDARG)));
}

#[test]
fn captured_files_replace_the_offer_that_stood() {
    let mut session = capture_session();
    let candidate = session
        .captured(Ok(ClipboardCapture::Candidate { path: vec![67, 58], sequence: 4 }))
        .unwrap();
    assert_eq!((candidate.path, candidate.sequence), (vec![67, 58], 4));
    let given = Ok(([7; 16], [8; 16]));
    assert!(session.accept_candidate(snapshot(), 0, given).unwrap().is_none());
    assert!(session.registered(true).is_none());
    assert_eq!(session.clipboard_updated(true).0, false);
    let summary = session.summary(true, 5 * MILLISECOND, 7, 1);
    assert_eq!(
        (summary.current, summary.accepted, summary.offer_age_ms, summary.events),
        (true, 1, 5, 7)
    );
    let given = Ok(([1; 16], [2; 16]));
    let replaced = session.accept_candidate(snapshot(), 10, given).unwrap().unwrap();
    assert_eq!((replaced.offer_id, replaced.file_id), ([7; 16], [8; 16]));
    assert!(replaced.source.progress.revoked);
    let withdrawn = session.registered(false).unwrap();
    assert_eq!(withdrawn.offer_id, [1; 16]);
    assert_eq!(session.rejected, 1);
    let (look, previous) = session.clipboard_updated(true);
    assert!(look && previous.is_none());
    assert!(!session.summary(true, 0, 9, 9).current);
}

#[test]
fn opening_the_clipboard_is_tried_again_after_every_refusal() {
    assert_eq!(after_open(0, None), PublishStep::Done);
    for (refusals, pause) in BACKOFF.into_iter().enumerate().take(7) {
        assert_eq!(after_open(refusals, Some(E_UNEXPECTED)), PublishStep::Retry { pause });
    }
    assert_eq!(after_open(7, Some(E_UNEXPECTED)), PublishStep::Fail { code: E_UNEXPECTED });
}

#[test]
fn commands_are_sent_as_requests() {
    for (command, request) in [
        (ConsoleCommand::Pause, Some(Opcode::Pause)),
        (ConsoleCommand::Resume, Some(Opcode::Resume)),
        (ConsoleCommand::Cancel, Some(Opcode::Cancel)),
        (ConsoleCommand::Quit, Some(Opcode::Cancel)),
        (ConsoleCommand::Status, Some(Opcode::Status)),
        (ConsoleCommand::Stop, Some(Opcode::Status)),
        (ConsoleCommand::Empty, None),
        (ConsoleCommand::Unknown, None),
    ] {
        assert_eq!(loopback_request(command), request);
    }
}

#[test]
fn captures_are_counted_by_their_outcome() {
    let mut session = capture_session();
    let rejected = ClipboardCapture::Rejected { reason: CaptureRejection::Sparse };
    assert!(session.captured(Ok(rejected)).is_none());
    assert!(session.captured(Err(E_UNEXPECTED)).is_none());
    session.refuse();
    assert!(session.captured(Ok(ClipboardCapture::PrivateOffer)).is_none());
    assert!(session.captured(Ok(ClipboardCapture::NotFileClipboard)).is_none());
    assert_eq!((session.accepted, session.rejected, session.ignored), (0, 3, 2));
    let given = Ok(([7; 16], [8; 16]));
    assert!(matches!(session.accept_candidate(snapshot(), u64::MAX, given), Err(E_INVALIDARG)));
    assert_eq!(session.rejected, 4);
    assert!(matches!(
        session.accept_candidate(snapshot(), 0, Err(0x8007_000E)),
        Err(0x8007_000E)
    ));
    assert_eq!(session.rejected, 5);
    assert!(session.registry.current.is_none());
}

#[test]
fn fetched_files_are_counted_and_digested() {
    let mut fetch = SecureFetch::start(3);
    fetch.take(b"ab").unwrap();
    assert_eq!(fetch.offset(), 2);
    assert_eq!(fetch.check_size().unwrap_err().kind, FailureKind::UnexpectedEof);
    fetch.take(b"c").unwrap();
    fetch.check_size().unwrap();
    let status = TransferStatus { state: RemoteTransferState::Completed, unique_bytes: 3 };
    let result = fetch.finish(status);
    assert_eq!(result.bytes, 3);
    assert_eq!(result.status, status);
    assert_eq!(
        result.sha256,
        [
            0xba, 0x78, 0x16, 0xbf, 0x8f, 0x01, 0xcf, 0xea, 0x41, 0x41, 0x40, 0xde, 0x5d, 0xae,
            0x22, 0x23, 0xb0, 0x03, 0x61, 0xa3, 0x96, 0x17, 0x7a, 0x9c, 0xb4, 0x10, 0xff, 0x61,
            0xf2, 0x00, 0x15, 0xad
        ]
    );
    assert_eq!(
        partial_name("a.bin", &[0, 1, 2, 3, 4, 5, 0xAB, 0xFF]),
        ".a.bin.clipferry-000102030405abff.part"
    );
}

#[test]
fn consoles_know_their_commands() {
    assert_eq!(console_command(Console::Transfer, " Pause \r\n"), ConsoleCommand::Pause);
    assert_eq!(console_command(Console::Observer, "pause"), ConsoleCommand::Unknown);
    assert_eq!(console_command(Console::Receiver, "resume"), ConsoleCommand::Resume);
    assert_eq!(console_command(Console::Receiver, "stop"), ConsoleCommand::Unknown);
    assert_eq!(console_command(Console::Transfer, "STOP"), ConsoleCommand::Stop);
    assert_eq!(console_command(Console::Observer, "status"), ConsoleCommand::Status);
    assert_eq!(console_command(Console::Observer, "quit"), ConsoleCommand::Quit);
    assert_eq!(console_command(Console::Observer, "\n"), ConsoleCommand::Empty);
    assert_eq!(console_command(Console::Observer, "help"), ConsoleCommand::Unknown);
    assert!(ends_probe(ConsoleCommand::Quit));
    assert!(ends_probe(ConsoleCommand::Stop));
    assert!(!ends_probe(ConsoleCommand::Cancel));
    let mut control = TransferControl::new();
    assert_eq!(
        control_transfer(&mut control, ConsoleCommand::Pause),
        Some(TransferControlState::Paused)
    );
    assert_eq!(control_transfer(&mut control, ConsoleCommand::Empty), None);
    assert_eq!(
        control_transfer(&mut control, ConsoleCommand::Stop),
        Some(TransferControlState::Paused)
    );
    assert_eq!(
        control_transfer(&mut control, ConsoleCommand::Quit),
        Some(TransferControlState::Cancelled)
    );
    assert_eq!(source_wait(0, None), Some(SECOND));
    assert_eq!(source_wait(SECOND, Some(SECOND)), None);
    assert_eq!(source_wait(SECOND, Some(SECOND + 5)), Some(5));
    assert_eq!(source_wait(0, Some(9 * SECOND)), Some(SECOND));
}

#[test]
fn probe_lines_are_spelled_out() {
    assert_eq!(format_code(0x8004_01D0), "0x800401D0");
    assert_eq!(format_code(0), "0x00000000");
    assert_eq!(format_lifetime(None), "infinite");
    assert_eq!(format_lifetime(Some(90 * SECOND + 5)), "90s");
    assert_eq!(
        clipboard_ready(0, None),
        "READY file=RemoteClipboard-Test.txt size=37 deferred_reads=0 lifetime=infinite"
    );
    assert_eq!(
        clipboard_stopped(S_OK, COUNTS),
        "STOP current_clipboard=true status=0x00000000 read_calls=3 events=4 dropped_events=5"
    );
    assert_eq!(
        pause_ready(pause_options(), 0),
        "READY file=RemoteClipboard-Pause-Test.bin size=100 chunk=10 delay_ms=25 async_mode=true deferred_reads=0 lifetime=90s"
    );
    let mut control = TransferControl::new();
    control.note_chunk(7);
    assert_eq!(
        pause_stopped(S_FALSE, control, COUNTS),
        "STOP current_clipboard=false status=0x00000001 control_state=running bytes_served=7 chunks=1 read_calls=3 events=4 dropped_events=5"
    );
    assert_eq!(pause_controlled(control), "CONTROL state=running bytes_served=7 chunks=1");
    assert_eq!(
        capture_ready(FileCaptureProbeOptions {
            offer_ttl: 30 * SECOND,
            lifetime: None,
            async_mode: false
        }),
        "READY mode=file-capture waiting_for=CF_HDROP offer_ttl=30s async_mode=false lifetime=infinite"
    );
    assert_eq!(
        capture_stopped(CaptureSummary {
            current: true,
            accepted: 1,
            rejected: 2,
            ignored: 3,
            offer_age_ms: 4,
            read_calls: 5,
            bytes_read: 6,
            events: 7,
            dropped_events: 8,
        }),
        "STOP current_clipboard=true accepted=1 rejected=2 ignored=3 offer_age_ms=4 read_calls=5 bytes_read=6 events=7 dropped_events=8"
    );
}

#[test]
fn network_probe_lines_are_spelled_out() {
    assert_eq!(
        loopback_ready(loopback_options(), "127.0.0.1:4000", 0),
        "READY file=RemoteClipboard-Loopback-Test.bin size=4096 address=127.0.0.1:4000 range=1024 fragment=64 delay_ms=0 io_timeout_ms=2000 async_mode=false deferred_reads=0 network_reads=0 lifetime=infinite"
    );
    assert_eq!(
        loopback_stopped(
            S_OK,
            TransferControlState::Cancelled,
            LoopbackMetricsSnapshot {
                connections: 1,
                read_requests: 2,
                served_bytes: 3,
                unique_bytes: 4,
                retained_ranges: 5,
                coverage_saturated: true,
                protocol_errors: 6,
                max_concurrent_reads: 7,
            },
            COUNTS
        ),
        "STOP current_clipboard=true status=0x00000000 control_state=cancelled connections=1 network_reads=2 served_bytes=3 unique_bytes=4 ranges=5 coverage_saturated=true max_concurrent_reads=7 protocol_errors=6 read_calls=3 events=4 dropped_events=5"
    );
    let mut metrics = SecureMetrics::new();
    metrics.begin_read();
    assert_eq!(
        secure_metrics("STOP", metrics.snapshot(9)),
        "STOP tls_connections=0 tls_failures=0 begun_transfers=0 network_reads=0 served_bytes=0 unique_bytes=9 active_reads=1 denied=0 replays=0 cancelled=0 protocol_errors=0"
    );
    assert_eq!(
        secure_ready(Some("10.0.0.1:9"), "aa", "bb", "f.bin", 5, None, None),
        "READY mode=secure-source tls=1.3 mtls=true address=10.0.0.1:9 offer=aa file_id=bb file=f.bin size=5 content_reads=0 lifetime=infinite"
    );
    assert_eq!(
        secure_ready(None, "aa", "bb", "f.bin", 5, Some(true), Some(SECOND)),
        "READY mode=secure-receiver tls=1.3 mtls=true offer=aa file_id=bb file=f.bin size=5 content_reads=0 async_mode=true lifetime=1s"
    );
    assert_eq!(
        secure_stopped(S_OK, 2, 3, 4, "Completed"),
        "STOP current_clipboard=true status=0x00000000 live_sources=2 read_calls=3 bytes_read=4 transfer_state=Completed"
    );
}

#[test]
fn capture_lines_tell_what_was_seen_and_offered() {
    let rejected = ClipboardCapture::Rejected { reason: CaptureRejection::CutOperation };
    assert_eq!(
        capture_seen(&rejected).unwrap(),
        "CAPTURE accepted=false reason=cut-operation"
    );
    assert_eq!(
        capture_seen(&ClipboardCapture::PrivateOffer).unwrap(),
        "CAPTURE ignored=true reason=private-origin"
    );
    assert_eq!(
        capture_seen(&ClipboardCapture::NotFileClipboard).unwrap(),
        "CAPTURE ignored=true reason=not-file-clipboard"
    );
    assert!(capture_seen(&ClipboardCapture::Candidate { path: vec![67], sequence: 1 }).is_none());
    assert_eq!(
        capture_failed("offer-create", 0x8007_0057),
        "CAPTURE accepted=false reason=offer-create error=0x80070057"
    );
    let offer = LocalFileOffer::create(snapshot(), 10 * SECOND, SECOND, [0xab; 16], [1; 16]).unwrap();
    assert_eq!(
        capture_accepted(7, &offer, 2 * SECOND),
        "CAPTURE accepted=true sequence=7 offer=ABABABAB-ABAB-ABAB-ABAB-ABABABABABAB \
         file_id=01010101-0101-0101-0101-010101010101 file=file.bin size=4 content_reads=0 \
         ttl_ms=9000"
    );
}

#[test]
fn identifiers_are_shown_in_groups() {
    let identifier: [u8; 16] =
        [0, 1, 0x2a, 3, 4, 5, 6, 0x7f, 8, 9, 0xab, 0xcd, 0xef, 0x12, 0x34, 0xff];
    assert_eq!(format_identifier(&identifier), "00012A03-0405-067F-0809-ABCDEF1234FF");
}

#[test]
fn an_object_that_is_given_up_is_noted() {
    let probe = LeaseEnd::Probe { read_calls: 3 };
    assert_eq!(probe.event(), "ClipboardLease::drop");
    assert_eq!(probe.detail(S_OK), "was_current=true status=0x00000000 read_calls=3");
    let captured = LeaseEnd::Captured { read_calls: 2, bytes_read: 9 };
    assert_eq!(captured.event(), "CapturedClipboardLease::drop");
    assert_eq!(
        captured.detail(S_FALSE),
        "was_current=false status=0x00000001 read_calls=2 bytes_read=9"
    );
    let remote = LeaseEnd::Remote { live_sources: 1 };
    assert_eq!(remote.event(), "RemoteClipboardLease::drop");
    assert_eq!(remote.detail(S_OK), "was_current=true status=0x00000000 live_sources=1");
}

#[test]
fn the_receiver_asks_first_whether_a_transfer_was_started() {
    let sent = |request| ReceiverStep::Send { request };
    for (command, idle, started) in [
        (ConsoleCommand::Quit, ReceiverStep::Quit, ReceiverStep::Quit),
        (ConsoleCommand::Empty, ReceiverStep::Ignore, ReceiverStep::Ignore),
        (ConsoleCommand::Unknown, ReceiverStep::NotStarted, ReceiverStep::Unknown),
        (ConsoleCommand::Stop, ReceiverStep::NotStarted, ReceiverStep::Unknown),
        (ConsoleCommand::Pause, ReceiverStep::NotStarted, sent(ReceiverRequest::Pause)),
        (ConsoleCommand::Resume, ReceiverStep::NotStarted, sent(ReceiverRequest::Resume)),
        (ConsoleCommand::Cancel, ReceiverStep::NotStarted, sent(ReceiverRequest::Cancel)),
        (ConsoleCommand::Status, ReceiverStep::NotStarted, sent(ReceiverRequest::Status)),
    ] {
        assert_eq!(receiver_step(command, false), idle);
        assert_eq!(receiver_step(command, true), started);
    }
}

#[test]
fn capture_errors_are_told_in_words() {
    let refused = CaptureError::Windows { code: 0x8007_0005 };
    assert_eq!(refused.message("Access is denied."), "Access is denied. (0x80070005)");
    let rejected = CaptureError::Rejected { reason: CaptureRejection::Sparse };
    assert_eq!(rejected.message(""), "rejected: sparse-file");
}
