use std::cell::RefCell;

use clipferry::address::{Endpoint, IpAddress};
use clipferry::clipboard::coverage::{RangeCoverage, MAX_TRACKED_RANGES};
use clipferry::clipboard::hresult::{
    from_win32, HResult, CANCELLED, CONNECTION_ABORTED, E_INVALIDARG, E_UNEXPECTED,
    FILE_NOT_FOUND, INVALID_DATA, S_OK, TIMEOUT,
};
use clipferry::clipboard::loopback::client::{io_error, LoopbackControlClient, TcpRangeSource};
use clipferry::clipboard::loopback::server::{
    LoopbackServer, LoopbackServerConfig, RangeStep, ServerStep, DEFAULT_MAX_WORKERS,
};
use clipferry::clipboard::loopback::wire::{
    Opcode, RequestHeader, ResponseHeader, ResponseStatus, LOOPBACK_FILE_ID, REQUEST_HEADER_LEN,
};
use clipferry::clipboard::stream::{GatherStep, VirtualStream, STREAM_SEEK_SET};
use clipferry::clipboard::transfer::{generated_byte, ChunkWait, TransferControlState};
use clipferry::failure::FailureKind;

const SECOND: u64 = 1_000_000_000;

fn config(length: u64) -> LoopbackServerConfig {
    LoopbackServerConfig {
        length,
        file_id: LOOPBACK_FILE_ID,
        max_range_bytes: 64 * 1024,
        fragment_bytes: 7,
        range_delay: 0,
        socket_timeout: 2 * SECOND,
        max_workers: DEFAULT_MAX_WORKERS,
    }
}

fn local(port: u16) -> Endpoint {
    Endpoint::new(IpAddress::V4(0x7f00_0001), port)
}

fn client(length: u64) -> TcpRangeSource {
    TcpRangeSource::new(local(9), LOOPBACK_FILE_ID, length, 64 * 1024, SECOND, SECOND).unwrap()
}

struct Loopback {
    server: RefCell<LoopbackServer>,
    source: RefCell<TcpRangeSource>,
}

impl Loopback {
    fn new(length: u64) -> Self {
        Self {
            server: RefCell::new(LoopbackServer::start(config(length)).unwrap()),
            source: RefCell::new(client(length)),
        }
    }

    fn send(&self, request: RequestHeader) -> (Vec<u8>, Vec<u8>) {
        let mut server = self.server.borrow_mut();
        assert!(server.accept_connection());
        let mut payload = Vec::new();
        let response = match server.handle_request(&request.encode()) {
            ServerStep::Reply { response } => response,
            ServerStep::Serve { request } => match server.poll_range(request, false) {
                RangeStep::Refuse { response } => response,
                RangeStep::Wait { .. } => panic!("the range waits"),
                RangeStep::Send { response } => {
                    loop {
                        let written = u32::try_from(payload.len()).unwrap();
                        let fragment = server.fragment(request, written);
                        assert!(fragment.len() <= 7);
                        if fragment.is_empty() {
                            break;
                        }
                        payload.extend_from_slice(&fragment);
                    }
                    server.finish_range(request);
                    response
                }
            },
        };
        server.end_connection(false);
        (response.encode(), payload)
    }

    fn control(&self, opcode: Opcode) -> TransferControlState {
        let request = self.source.borrow_mut().next_request(opcode, 0, 0);
        let (header, _) = self.send(request);
        let answer = self.source.borrow().take_answer(request.request_id, &header).unwrap();
        TcpRangeSource::state_of(answer).unwrap()
    }
}

impl Loopback {
    fn read_at(&self, offset: u64, destination: &mut [u8]) -> Result<usize, HResult> {
        let request = self.source.borrow_mut().start_read(offset, destination.len());
        let Some(request) = request else {
            return Ok(0);
        };
        let (header, payload) = self.send(request);
        let answer = self.source.borrow().take_answer(request.request_id, &header)?;
        let length = TcpRangeSource::payload_of(answer, request)? as usize;
        assert_eq!(length, payload.len());
        destination[..length].copy_from_slice(&payload);
        Ok(length)
    }
}

fn stream_read(
    stream: &mut VirtualStream,
    loopback: &Loopback,
    destination: &mut [u8],
) -> (HResult, usize) {
    let (mut read, mut step) = stream.start_read(destination.len());
    loop {
        match step {
            GatherStep::Ask { offset, length } => {
                let start = destination.len() - length;
                let got = loopback.read_at(offset, &mut destination[start..]);
                step = read.took(got);
            }
            GatherStep::Settle { outcome } => {
                return VirtualStream::answer(stream.settle(outcome), destination.len());
            }
        }
    }
}

#[test]
fn range_round_trip_is_deterministic_deferred_and_short_frame_safe() {
    let loopback = Loopback::new(1 << 20);
    assert_eq!(loopback.server.borrow().metrics().read_requests, 0);
    let mut bytes = [0_u8; 4_097];

    assert_eq!(loopback.read_at(123, &mut bytes).unwrap(), bytes.len());
    for (index, byte) in bytes.iter().enumerate() {
        assert_eq!(*byte, generated_byte(123 + index as u64));
    }
    let metrics = loopback.server.borrow().metrics();
    assert_eq!(metrics.read_requests, 1);
    assert_eq!(metrics.served_bytes, bytes.len() as u64);
    assert_eq!(metrics.unique_bytes, bytes.len() as u64);
    assert_eq!(metrics.retained_ranges, 1);
}

#[test]
fn boundary_lengths_include_zero_one_chunk_edges_and_more_than_four_gib() {
    let lengths =
        [0, 1, 64 * 1024 - 1, 64 * 1024, 64 * 1024 + 1, u64::from(u32::MAX) + 2];

    for length in lengths {
        let loopback = Loopback::new(length);
        let mut bytes = [0_u8; 3];
        if length == 0 {
            assert_eq!(loopback.read_at(0, &mut bytes).unwrap(), 0);
            assert_eq!(loopback.server.borrow().metrics().connections, 0);
            continue;
        }

        let offset = length.saturating_sub(2);
        let read = loopback.read_at(offset, &mut bytes).unwrap();
        assert_eq!(read, usize::try_from(length - offset).unwrap());
        for (index, byte) in bytes[..read].iter().enumerate() {
            assert_eq!(*byte, generated_byte(offset + index as u64));
        }
    }
}

#[test]
fn randomized_seek_and_read_matches_the_local_reference() {
    let length = 2_u64 * 1024 * 1024;
    let loopback = Loopback::new(length);
    let mut stream = VirtualStream::create("random-loopback.bin".to_owned(), 0);
    let mut seed = 0xC11F_E221_u32;
    let mut bytes = [0_u8; 4_096];

    for _ in 0..128 {
        seed = seed.wrapping_mul(1_664_525).wrapping_add(1_013_904_223);
        let requested = usize::try_from((seed % 4_096) + 1).unwrap();
        seed = seed.wrapping_mul(1_664_525).wrapping_add(1_013_904_223);
        let offset = u64::from(seed) % (length - requested as u64);
        stream.seek_impl(length, i64::try_from(offset).unwrap(), STREAM_SEEK_SET).unwrap();
        let (result, read) = stream_read(&mut stream, &loopback, &mut bytes[..requested]);

        assert_eq!(result, S_OK);
        assert_eq!(read, requested);
        for (index, byte) in bytes[..requested].iter().enumerate() {
            assert_eq!(*byte, generated_byte(offset + index as u64));
        }
    }
}

#[test]
fn duplicate_and_overlapping_ranges_separate_served_from_unique_progress() {
    let loopback = Loopback::new(1 << 20);
    let mut bytes = [0_u8; 100];
    loopback.read_at(50, &mut bytes).unwrap();
    loopback.read_at(50, &mut bytes).unwrap();
    loopback.read_at(100, &mut bytes).unwrap();

    let metrics = loopback.server.borrow().metrics();
    assert_eq!(metrics.served_bytes, 300);
    assert_eq!(metrics.unique_bytes, 150);
    assert_eq!(metrics.retained_ranges, 1);
}

#[test]
fn seek_and_clone_use_tcp_ranges_with_independent_positions() {
    let length = 1 << 20;
    let loopback = Loopback::new(length);
    let mut stream = VirtualStream::create("loopback.bin".to_owned(), 0);
    stream.seek_impl(length, 500, STREAM_SEEK_SET).unwrap();
    let mut clone = stream.duplicate();
    stream.seek_impl(length, 900, STREAM_SEEK_SET).unwrap();
    let mut first = [0_u8; 32];
    let mut second = [0_u8; 32];

    assert_eq!(stream_read(&mut stream, &loopback, &mut first).0, S_OK);
    assert_eq!(stream_read(&mut clone, &loopback, &mut second).0, S_OK);
    assert_eq!(first[0], generated_byte(900));
    assert_eq!(second[0], generated_byte(500));
    assert_eq!(loopback.server.borrow().metrics().unique_bytes, 64);
}

#[test]
fn control_messages_pause_resume_and_terminally_cancel_reads() {
    let loopback = Loopback::new(1 << 20);
    assert_eq!(loopback.control(Opcode::Pause), TransferControlState::Paused);
    let request = loopback.source.borrow_mut().start_read(0, 32).unwrap();
    let parked = match loopback.server.borrow_mut().handle_request(&request.encode()) {
        ServerStep::Serve { request } => request,
        ServerStep::Reply { .. } => panic!("the range is not served"),
    };
    let mut polled = loopback.server.borrow_mut().poll_range(parked, false);
    assert!(matches!(polled, RangeStep::Wait { wait: ChunkWait::Park }));
    assert_eq!(loopback.server.borrow().metrics().served_bytes, 0);

    assert_eq!(loopback.control(Opcode::Resume), TransferControlState::Running);
    polled = loopback.server.borrow_mut().poll_range(parked, false);
    assert!(matches!(polled, RangeStep::Send { response } if response.payload_length == 32));
    loopback.server.borrow_mut().finish_range(parked);
    assert_eq!(loopback.control(Opcode::Pause), TransferControlState::Paused);

    let request = loopback.source.borrow_mut().start_read(64, 32).unwrap();
    loopback.server.borrow_mut().handle_request(&request.encode());
    assert_eq!(loopback.control(Opcode::Cancel), TransferControlState::Cancelled);
    polled = loopback.server.borrow_mut().poll_range(request, false);
    let answered = match polled {
        RangeStep::Refuse { response } => response,
        _ => panic!("the range goes on"),
    };
    assert_eq!(
        loopback.source.borrow().take_answer(request.request_id, &answered.encode()),
        Err(CANCELLED)
    );
    assert_eq!(loopback.control(Opcode::Resume), TransferControlState::Cancelled);
    assert_eq!(loopback.control(Opcode::Status), TransferControlState::Cancelled);
}

#[test]
fn competing_pause_resume_and_cancel_commands_end_in_cancelled_state() {
    let loopback = Loopback::new(1 << 20);
    loopback.control(Opcode::Pause);
    for index in 0..12 {
        loopback.control(match index % 3 {
            0 => Opcode::Pause,
            1 => Opcode::Resume,
            _ => Opcode::Cancel,
        });
    }
    assert_eq!(loopback.control(Opcode::Status), TransferControlState::Cancelled);
    let mut bytes = [0_u8; 32];
    assert_eq!(loopback.read_at(0, &mut bytes).unwrap_err(), CANCELLED);
    assert!(loopback.server.borrow().metrics().max_concurrent_reads <= 1);
}

#[test]
fn oversized_range_is_rejected_before_payload_allocation() {
    let loopback = Loopback::new(1 << 20);
    let request = RequestHeader {
        opcode: Opcode::ReadRange,
        request_id: 77,
        file_id: LOOPBACK_FILE_ID,
        offset: 0,
        length: 64 * 1024 + 1,
    };
    let (header, payload) = loopback.send(request);
    let response = ResponseHeader::decode(&header).unwrap();

    assert_eq!(response.status, ResponseStatus::InvalidRequest);
    assert_eq!(response.payload_length, 0);
    assert!(payload.is_empty());
    assert_eq!(loopback.server.borrow().metrics().served_bytes, 0);
}

#[test]
fn malformed_and_disconnected_clients_do_not_break_the_server() {
    let loopback = Loopback::new(1 << 20);
    {
        let mut server = loopback.server.borrow_mut();
        assert!(server.accept_connection());
        assert!(matches!(
            server.handle_request(&[0_u8; REQUEST_HEADER_LEN]),
            ServerStep::Reply { response } if response.status == ResponseStatus::InvalidRequest
        ));
        server.end_connection(true);
        let request = RequestHeader {
            opcode: Opcode::ReadRange,
            request_id: 88,
            file_id: LOOPBACK_FILE_ID,
            offset: 0,
            length: 64 * 1024,
        };
        assert!(server.accept_connection());
        server.handle_request(&request.encode());
        server.abandon_range();
        server.end_connection(true);
        assert_eq!(server.metrics().protocol_errors, 2);
    }
    let mut bytes = [0_u8; 64];
    assert_eq!(loopback.read_at(128, &mut bytes).unwrap(), 64);
    assert_eq!(bytes[0], generated_byte(128));
    assert_eq!(loopback.server.borrow().metrics().max_concurrent_reads, 1);
}

#[test]
fn mid_payload_disconnect_is_an_error_and_a_new_connection_can_retry() {
    assert_eq!(io_error(FailureKind::UnexpectedEof), CONNECTION_ABORTED);
    let loopback = Loopback::new(1 << 20);
    let request = loopback.source.borrow_mut().start_read(4_096, 1_024).unwrap();
    loopback.server.borrow_mut().handle_request(&request.encode());
    loopback.server.borrow_mut().abandon_range();
    let mut bytes = [0_u8; 1_024];
    assert_eq!(loopback.read_at(4_096, &mut bytes).unwrap(), bytes.len());
    for (index, byte) in bytes.iter().enumerate() {
        assert_eq!(*byte, generated_byte(4_096 + index as u64));
    }
}

#[test]
fn worker_limit_rejects_excess_connections_and_recovers_capacity() {
    let mut server = LoopbackServer::start(LoopbackServerConfig {
        max_workers: 2,
        ..config(1 << 20)
    })
    .unwrap();
    assert!(server.accept_connection());
    assert!(server.accept_connection());
    assert!(!server.accept_connection());
    server.end_connection(false);
    assert!(server.accept_connection());
    assert!(server.metrics().protocol_errors >= 1);
    assert_eq!(server.metrics().connections, 4);
}

#[test]
fn concurrent_clients_are_served_without_a_global_io_lock() {
    let mut server = LoopbackServer::start(LoopbackServerConfig {
        range_delay: 80_000_000,
        ..config(1 << 20)
    })
    .unwrap();
    let mut source = client(1 << 20);
    let first = source.start_read(0, 1_024).unwrap();
    let second = source.start_read(4_096, 1_024).unwrap();
    server.handle_request(&first.encode());
    server.handle_request(&second.encode());
    for request in [first, second] {
        assert!(matches!(
            server.poll_range(request, false),
            RangeStep::Wait { wait: ChunkWait::Sleep }
        ));
        assert!(matches!(server.poll_range(request, true), RangeStep::Send { .. }));
        assert_eq!(server.fragment(request, 0)[0], generated_byte(request.offset));
        server.finish_range(request);
    }
    assert!(server.metrics().max_concurrent_reads >= 2);
}

#[test]
fn zero_byte_and_large_logical_files_need_no_full_file_buffer() {
    let zero = Loopback::new(0);
    let mut byte = [0_u8; 1];
    assert_eq!(zero.read_at(0, &mut byte).unwrap(), 0);
    assert_eq!(zero.server.borrow().metrics().connections, 0);

    let length = 10_u64 * 1024 * 1024 * 1024;
    let large = Loopback::new(length);
    let mut bytes = [0_u8; 4_096];
    assert_eq!(large.read_at(length - 4_096, &mut bytes).unwrap(), bytes.len());
    assert_eq!(bytes[0], generated_byte(length - 4_096));
    assert_eq!(large.server.borrow().metrics().served_bytes, 4_096);
}

#[test]
fn logical_coverage_tracking_is_bounded_and_marks_saturation() {
    let mut coverage = RangeCoverage::new();
    for index in 0..=MAX_TRACKED_RANGES {
        coverage.note(u64::try_from(index).unwrap() * 2, 1);
    }

    assert!(coverage.saturated());
    assert_eq!(coverage.range_count(), 0);
    assert_eq!(coverage.unique_bytes(), MAX_TRACKED_RANGES as u64);
    coverage.note(0, u64::MAX);
    assert_eq!(coverage.unique_bytes(), MAX_TRACKED_RANGES as u64);
}

#[test]
fn coverage_counts_every_byte_once() {
    let mut coverage = RangeCoverage::new();
    coverage.note(10, 10);
    coverage.note(30, 10);
    assert_eq!((coverage.range_count(), coverage.unique_bytes()), (2, 20));
    coverage.note(20, 10);
    assert_eq!((coverage.range_count(), coverage.unique_bytes()), (1, 30));
    coverage.note(0, 50);
    assert_eq!((coverage.range_count(), coverage.unique_bytes()), (1, 50));
    coverage.note(5, 0);
    assert_eq!(coverage.unique_bytes(), 50);
}

#[test]
fn client_rejects_an_oversized_response_payload() {
    let mut source = client(1 << 20);
    let request = source.start_read(0, 32).unwrap();
    let response = ResponseHeader {
        status: ResponseStatus::Success,
        state: TransferControlState::Running,
        request_id: request.request_id,
        total_length: 1 << 20,
        payload_length: request.length + 1,
    };
    let answer = source.take_answer(request.request_id, &response.encode()).unwrap();
    assert_eq!(TcpRangeSource::payload_of(answer, request), Err(INVALID_DATA));
}

#[test]
fn every_refusal_has_its_code() {
    let mut source = client(1 << 20);
    let request = source.start_read(0, 32).unwrap();
    let good = ResponseHeader {
        status: ResponseStatus::Success,
        state: TransferControlState::Running,
        request_id: request.request_id,
        total_length: 1 << 20,
        payload_length: 32,
    };
    let told = |response: ResponseHeader| {
        source.take_answer(request.request_id, &response.encode()).map(|_| ())
    };
    assert_eq!(told(good), Ok(()));
    for (status, code) in [
        (ResponseStatus::InvalidRequest, E_INVALIDARG),
        (ResponseStatus::FileNotFound, FILE_NOT_FOUND),
        (ResponseStatus::Cancelled, CANCELLED),
        (ResponseStatus::InternalError, E_UNEXPECTED),
    ] {
        assert_eq!(told(ResponseHeader { status, ..good }), Err(code));
    }
    assert_eq!(told(ResponseHeader { request_id: 99, ..good }), Err(INVALID_DATA));
    assert_eq!(told(ResponseHeader { total_length: 1, ..good }), Err(INVALID_DATA));
    let mut header = good.encode();
    header[0] ^= 1;
    assert_eq!(source.take_answer(request.request_id, &header).map(|_| ()), Err(INVALID_DATA));
    assert_eq!(TcpRangeSource::state_of(good), Err(INVALID_DATA));
    assert_eq!(io_error(FailureKind::TimedOut), TIMEOUT);
    assert_eq!(io_error(FailureKind::InvalidData), INVALID_DATA);
    assert_eq!(from_win32(1223), CANCELLED);
    let loopback = Loopback::new(1 << 20);
    let unknown = RequestHeader { file_id: [9; 16], ..request };
    assert_eq!(
        ResponseHeader::decode(&loopback.send(unknown).0).unwrap().status,
        ResponseStatus::FileNotFound
    );
    loopback.server.borrow_mut().stop();
    assert_eq!(loopback.server.borrow().control().state(), TransferControlState::Cancelled);
}

#[test]
fn invalid_server_and_client_limits_are_rejected() {
    let mut invalid = config(1);
    invalid.fragment_bytes = invalid.max_range_bytes + 1;
    assert_eq!(LoopbackServer::start(invalid).err().unwrap(), E_INVALIDARG);

    let mut invalid = config(1);
    invalid.max_workers = 0;
    assert_eq!(LoopbackServer::start(invalid).err().unwrap(), E_INVALIDARG);

    assert_eq!(
        TcpRangeSource::new(
            Endpoint::new(IpAddress::V4(0xc000_0201), 9),
            LOOPBACK_FILE_ID,
            1,
            1,
            SECOND,
            SECOND
        )
        .unwrap_err(),
        E_INVALIDARG
    );
}

#[test]
fn control_requests_name_the_file_and_no_range() {
    let address = Endpoint::new(IpAddress::V4(0x7f00_0001), 4000);
    let source = TcpRangeSource::new(address, LOOPBACK_FILE_ID, 20, 8, 1, 1).unwrap();
    let mut client = LoopbackControlClient::new(source);
    for (id, opcode, request) in [
        (1, Opcode::Pause, client.pause()),
        (2, Opcode::Resume, client.resume()),
        (3, Opcode::Cancel, client.cancel()),
        (4, Opcode::Status, client.state()),
    ] {
        assert_eq!(request.opcode, opcode);
        assert_eq!(request.request_id, id);
        assert_eq!(request.file_id, LOOPBACK_FILE_ID);
        assert_eq!((request.offset, request.length), (0, 0));
    }
}
