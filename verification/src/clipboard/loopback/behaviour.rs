//! What a client and a server of the range protocol on one device do: numbers and places on the wire,
//! what is served, refused and counted.

use super::client;
use super::client::{LoopbackControlClient, TcpRangeSource};
use super::server;
use super::server::{LoopbackServerConfig, LoopbackView, RangeStep, ServerStep};
use super::wire;
use super::wire::{Opcode, RequestHeader, ResponseHeader, ResponseStatus};
use crate::address::Endpoint;
use crate::bytes;
use crate::clipboard::hresult::HResult;
use crate::clipboard::transfer::TransferControlState;
use crate::failure::FailureKind;
use vstd::prelude::*;

verus! {

/// The numbers by which requests, answers and states go over the wire.
pub proof fn lemma_numbers(opcode: Opcode, status: ResponseStatus, state: TransferControlState)
    ensures
        opcode.byte() == 1 <==> opcode is ReadRange,
        opcode.byte() == 2 <==> opcode is Pause,
        opcode.byte() == 3 <==> opcode is Resume,
        opcode.byte() == 4 <==> opcode is Cancel,
        opcode.byte() == 5 <==> opcode is Status,
        1 <= opcode.byte() <= 5,
        Opcode::from_byte(opcode.byte()) == Some(opcode),
        status.byte() == 0 <==> status is Success,
        status.byte() == 1 <==> status is InvalidRequest,
        status.byte() == 2 <==> status is FileNotFound,
        status.byte() == 3 <==> status is Cancelled,
        status.byte() == 4 <==> status is InternalError,
        ResponseStatus::from_byte(status.byte()) == Some(status),
        wire::state_byte(state) == 0 <==> state is Running,
        wire::state_byte(state) == 1 <==> state is Paused,
        wire::state_byte(state) == 2 <==> state is Cancelled,
        wire::state_from_byte(wire::state_byte(state)) == Some(state),
{
}

/// A request has 44 bytes: four letters, the first version, what it asks, its number, the file, the
/// offset and the length.
pub proof fn lemma_request_layout(request: RequestHeader)
    ensures
        ({
            let sent = request.wire();
            &&& sent.len() == 44
            &&& sent.take(4) == seq![67u8, 70u8, 82u8, 81u8]
            &&& sent[4] == 1 && sent[5] == request.opcode.byte() && sent[6] == 0 && sent[7] == 0
            &&& bytes::be_value(sent.subrange(8, 16)) == request.request_id
            &&& sent.subrange(16, 32) == request.file_id@
            &&& bytes::be_value(sent.subrange(32, 40)) == request.offset
            &&& bytes::be_value(sent.subrange(40, 44)) == request.length
        }),
{
    bytes::lemma_capacity_values();
    bytes::lemma_be_value_of_bytes(request.request_id as nat, 8);
    bytes::lemma_be_value_of_bytes(request.offset as nat, 8);
    bytes::lemma_be_value_of_bytes(request.length as nat, 4);
    let sent = request.wire();
    assert(sent.take(4) =~= seq![67u8, 70u8, 82u8, 81u8]);
    assert(sent.subrange(8, 16) =~= bytes::be_bytes(request.request_id as nat, 8));
    assert(sent.subrange(16, 32) =~= request.file_id@);
    assert(sent.subrange(32, 40) =~= bytes::be_bytes(request.offset as nat, 8));
    assert(sent.subrange(40, 44) =~= bytes::be_bytes(request.length as nat, 4));
}

/// An answer has 28 bytes: four letters, the first version, how it went, the state, the number of the
/// request, the length of the file and that of what follows.
pub proof fn lemma_response_layout(response: ResponseHeader)
    ensures
        ({
            let sent = response.wire();
            &&& sent.len() == 28
            &&& sent.take(4) == seq![67u8, 70u8, 82u8, 83u8]
            &&& sent[4] == 1 && sent[5] == response.status.byte() && sent[6] == wire::state_byte(
                response.state,
            ) && sent[7] == 0
            &&& bytes::be_value(sent.subrange(8, 16)) == response.request_id
            &&& bytes::be_value(sent.subrange(16, 24)) == response.total_length
            &&& bytes::be_value(sent.subrange(24, 28)) == response.payload_length
        }),
{
    bytes::lemma_capacity_values();
    bytes::lemma_be_value_of_bytes(response.request_id as nat, 8);
    bytes::lemma_be_value_of_bytes(response.total_length as nat, 8);
    bytes::lemma_be_value_of_bytes(response.payload_length as nat, 4);
    let sent = response.wire();
    assert(sent.take(4) =~= seq![67u8, 70u8, 82u8, 83u8]);
    assert(sent.subrange(8, 16) =~= bytes::be_bytes(response.request_id as nat, 8));
    assert(sent.subrange(16, 24) =~= bytes::be_bytes(response.total_length as nat, 8));
    assert(sent.subrange(24, 28) =~= bytes::be_bytes(response.payload_length as nat, 4));
}

/// A request is understood where its letters, its version and what it asks are known.
pub proof fn lemma_requests_that_are_understood(input: Seq<u8>)
    ensures
        RequestHeader::at_start(input) is Some <==> input.subrange(0, 4) == seq![67u8, 70u8, 82u8, 81u8]
            && input[4] == 1 && 1 <= input[5] <= 5,
{
    assert(wire::REQUEST_MAGIC@ =~= seq![67u8, 70u8, 82u8, 81u8]);
}

/// An answer is understood where its letters, its version, how it went and the state are known.
pub proof fn lemma_responses_that_are_understood(input: Seq<u8>)
    ensures
        ResponseHeader::at_start(input) is Some <==> input.subrange(0, 4) == seq![67u8, 70u8, 82u8, 83u8]
            && input[4] == 1 && input[5] <= 4 && input[6] <= 2,
        ResponseHeader::at_start(input) matches Some(response) ==> response.status.byte() == input[5]
            && wire::state_byte(response.state) == input[6],
{
    assert(wire::RESPONSE_MAGIC@ =~= seq![67u8, 70u8, 82u8, 83u8]);
}

/// A server takes ranges of up to a mebibyte, in fragments no longer than a range, and up to 256
/// connections at a time.
pub proof fn lemma_configurations(config: LoopbackServerConfig, result: Result<(), HResult>)
    requires
        call_ensures(server::validate_server_config, (config,), result),
    ensures
        result is Ok <==> {
            &&& 1 <= config.fragment_bytes <= config.max_range_bytes
            &&& config.max_range_bytes <= 1_048_576
            &&& config.socket_timeout >= 1
            &&& 1 <= config.max_workers <= 256
        },
        result matches Err(code) ==> code == 0x8007_0057,
{
}

/// A range of the file is served where it is no longer than allowed, and counted; a longer one, a
/// request that is not understood and one for another file are refused, each in its own way.
pub proof fn lemma_ranges_are_served(server: LoopbackView, request: RequestHeader)
    requires
        request.opcode is ReadRange,
    ensures
        ({
            let (after, step) = server.handled(request.wire());
            let served = request.file_id == server.config.file_id && request.length
                <= server.config.max_range_bytes;
            &&& served ==> {
                &&& step == (ServerStep::Serve { request })
                &&& after.counters.read_requests == (server.counters.read_requests + 1)
                    % 0x1_0000_0000_0000_0000
                &&& after.counters.active_reads == (server.counters.active_reads + 1)
                    % 0x1_0000_0000_0000_0000
                &&& after.control == server.control
            }
            &&& !served ==> after == server && (step matches ServerStep::Reply { response }
                && response.request_id == request.request_id && response.payload_length == 0
                && response.total_length == server.config.length && (response.status is FileNotFound
                <==> request.file_id != server.config.file_id) && (response.status is InvalidRequest
                <==> request.file_id == server.config.file_id))
        }),
{
    request.lemma_request_round_trip();
}

/// Control requests change the state as they say, unless it was cancelled, and are answered with the
/// state thereafter.
pub proof fn lemma_control_is_carried_out(server: LoopbackView, request: RequestHeader)
    requires
        !(request.opcode is ReadRange),
        request.file_id == server.config.file_id,
    ensures
        ({
            let (after, step) = server.handled(request.wire());
            let before = server.control.state;
            &&& step matches ServerStep::Reply { response }
            &&& response.status is Success && response.state == after.control.state && response.request_id
                == request.request_id && response.payload_length == 0
            &&& request.opcode is Pause && !(before is Cancelled) ==> after.control.state is Paused
            &&& request.opcode is Resume && !(before is Cancelled) ==> after.control.state is Running
            &&& request.opcode is Cancel || before is Cancelled ==> after.control.state is Cancelled
            &&& request.opcode is Status ==> after.control.state == before
            &&& after.counters == server.counters
        }),
{
    request.lemma_request_round_trip();
}

/// The turn of a range comes as the state allows: it waits while paused, is refused once cancelled, and
/// else gives as much as is asked for and is left, which is then counted.
pub proof fn lemma_turns_of_ranges(server: LoopbackView, request: RequestHeader)
    ensures
        ({
            let (after, step) = server.polled(request, false);
            let left = if request.offset < server.config.length {
                server.config.length - request.offset
            } else {
                0
            };
            let count = if request.length < left {
                request.length as int
            } else {
                left
            };
            &&& server.control.state is Paused ==> step is Wait && after == server
            &&& server.control.state is Cancelled ==> (step matches RangeStep::Refuse { response }
                && response.status is Cancelled && response.payload_length == 0)
            &&& server.control.state is Running && server.config.range_delay == 0 ==> (
            step matches RangeStep::Send { response } && response.status is Success
                && response.payload_length == count && response.request_id == request.request_id
                && response.total_length == server.config.length && after == server)
            &&& server.control.state is Running && server.config.range_delay > 0 ==> step is Wait
            &&& server.served(request).counters.served_bytes == (server.counters.served_bytes + count)
                % 0x1_0000_0000_0000_0000
            &&& server.served(request).control.chunks == (server.control.chunks + 1)
                % 0x1_0000_0000_0000_0000
            &&& server.served(request).coverage == server.coverage.noted(request.offset, count as u64)
            &&& server.counters.active_reads > 0 ==> server.served(request).counters.active_reads
                == server.counters.active_reads - 1
        }),
{
}

/// A server works on as many connections at a time as it may; each is counted, and those that it turns
/// away count as errors too.
pub proof fn lemma_connections(server: LoopbackView)
    ensures
        ({
            let (after, taken) = server.connected();
            &&& taken <==> server.workers < server.config.max_workers
            &&& after.counters.connections == (server.counters.connections + 1) % 0x1_0000_0000_0000_0000
            &&& taken ==> after.workers == server.workers + 1 && after.counters.protocol_errors
                == server.counters.protocol_errors
            &&& !taken ==> after.workers == server.workers && after.counters.protocol_errors
                == (server.counters.protocol_errors + 1) % 0x1_0000_0000_0000_0000
        }),
{
}

/// A client reads from this device only, up to a mebibyte at a time, and with time for it.
pub proof fn lemma_clients(
    address: Endpoint,
    file_id: [u8; 16],
    length: u64,
    longest: usize,
    connecting: u64,
    reading: u64,
    result: Result<TcpRangeSource, HResult>,
)
    requires
        call_ensures(
            TcpRangeSource::new,
            (address, file_id, length, longest, connecting, reading),
            result,
        ),
    ensures
        result is Ok <==> address.ip.spec_loopback() && 1 <= longest <= 1_048_576 && connecting >= 1
            && reading >= 1,
        result matches Ok(source) ==> source.length == length && source.file_id == file_id
            && source.max_request_bytes == longest && source.address == address && source.next_request_id == 1,
        result matches Err(code) ==> code == 0x8007_0057,
{
}

/// A client asks for as much as is wanted, is left and goes into a request; behind the end, and for
/// nothing, it asks for nothing. Requests are numbered one after the other.
pub proof fn lemma_reads_are_asked_for(
    source: &mut TcpRangeSource,
    offset: u64,
    wanted: usize,
    request: Option<RequestHeader>,
)
    requires
        old(source).valid(),
        call_ensures(TcpRangeSource::start_read, (source, offset, wanted), request),
    ensures
        request is None <==> wanted == 0 || offset >= old(source).length,
        request is None ==> *final(source) == *old(source),
        request matches Some(asked) ==> {
            &&& asked.opcode is ReadRange
            &&& asked.offset == offset
            &&& asked.file_id == old(source).file_id
            &&& asked.request_id == old(source).next_request_id
            &&& 0 < asked.length <= wanted && offset + asked.length <= old(source).length && asked.length
                <= old(source).max_request_bytes
            &&& asked.length == wanted || offset + asked.length == old(source).length || asked.length
                == old(source).max_request_bytes
            &&& final(source).next_request_id == (old(source).next_request_id + 1)
                % 0x1_0000_0000_0000_0000
        },
{
}

/// An answer is taken where it is one to this request, of this file, and reports success; a refusal
/// reaches the caller as what it is.
pub proof fn lemma_answers_are_taken(source: TcpRangeSource, number: u64, response: ResponseHeader)
    ensures
        ({
            let result = source.answer(number, response.wire());
            let fits = response.request_id == number && response.total_length == source.length;
            &&& result is Ok <==> fits && response.status is Success
            &&& result matches Ok(taken) ==> taken == response
            &&& !fits ==> result == Err::<ResponseHeader, HResult>(0x8007_000du32)
            &&& fits && response.status is InvalidRequest ==> result == Err::<ResponseHeader, HResult>(
                0x8007_0057u32,
            )
            &&& fits && response.status is FileNotFound ==> result == Err::<ResponseHeader, HResult>(
                0x8007_0002u32,
            )
            &&& fits && response.status is Cancelled ==> result == Err::<ResponseHeader, HResult>(
                0x8007_04c7u32,
            )
            &&& fits && response.status is InternalError ==> result == Err::<ResponseHeader, HResult>(
                0x8000_ffffu32,
            )
        }),
{
    response.lemma_response_round_trip();
}

/// What follows an answer: something, and no more than was asked for, behind a read; nothing behind
/// anything else.
pub proof fn lemma_payloads(
    response: ResponseHeader,
    request: RequestHeader,
    payload: Result<u32, HResult>,
    state: Result<TransferControlState, HResult>,
)
    requires
        call_ensures(TcpRangeSource::payload_of, (response, request), payload),
        call_ensures(TcpRangeSource::state_of, (response,), state),
    ensures
        payload is Ok <==> 1 <= response.payload_length <= request.length,
        payload matches Ok(length) ==> length == response.payload_length,
        state is Ok <==> response.payload_length == 0,
        state matches Ok(state) ==> state == response.state,
{
}

/// A failure of the connection reaches the caller as timed out, as invalid, or as given up.
pub proof fn lemma_failures(kind: FailureKind, code: HResult)
    requires
        call_ensures(client::io_error, (kind,), code),
    ensures
        kind is TimedOut || kind is WouldBlock <==> code == 0x8007_05b4,
        kind is InvalidData || kind is InvalidInput <==> code == 0x8007_000d,
        !(kind is TimedOut || kind is WouldBlock || kind is InvalidData || kind is InvalidInput) <==> code
            == 0x8007_04d4,
{
}

/// A control client asks for just what its method says, of its own file and under its own number.
pub proof fn lemma_commands(
    pausing: &mut LoopbackControlClient,
    paused: RequestHeader,
    resuming: &mut LoopbackControlClient,
    resumed: RequestHeader,
    cancelling: &mut LoopbackControlClient,
    cancelled: RequestHeader,
    asking: &mut LoopbackControlClient,
    asked: RequestHeader,
)
    requires
        call_ensures(LoopbackControlClient::pause, (pausing,), paused),
        call_ensures(LoopbackControlClient::resume, (resuming,), resumed),
        call_ensures(LoopbackControlClient::cancel, (cancelling,), cancelled),
        call_ensures(LoopbackControlClient::state, (asking,), asked),
    ensures
        paused.opcode is Pause && paused.file_id == old(pausing).source.file_id && paused.request_id == old(
            pausing,
        ).source.next_request_id,
        resumed.opcode is Resume && resumed.file_id == old(resuming).source.file_id,
        cancelled.opcode is Cancel && cancelled.file_id == old(cancelling).source.file_id,
        asked.opcode is Status && asked.file_id == old(asking).source.file_id,
        final(pausing).source.next_request_id == (old(pausing).source.next_request_id + 1)
            % 0x1_0000_0000_0000_0000,
        final(resuming).source.next_request_id == (old(resuming).source.next_request_id + 1)
            % 0x1_0000_0000_0000_0000,
{
}

} // verus!
