//! The protocol as both sides speak it: numbers and places on the wire, what a request of a receiver
//! comes to at the server, and which offers there are.

use super::client;
use super::client::SecureOfferClient;
use super::dispatch;
use super::dispatch::ReplyView;
use super::manifest;
use super::manifest::{EntryView, ManifestView};
use super::model::{ServerModel, SessionSecrets};
use super::offer;
use super::offer::SecureOfferedFile;
use super::server::ServerState;
use super::wire;
use super::wire::{
    Frame, Opcode, ProtocolId, RemoteTransferState, ResponseStatus, TransferCredentials,
    TransferStatus,
};
use crate::bytes;
use crate::clipboard::data_object;
use crate::clipboard::data_object::VirtualFileDescriptor;
use crate::failure::{Failure, FailureKind};
use crate::random;
use crate::security::CertificateFingerprint;
use crate::tls::TrustFailure;
use vstd::prelude::*;
use vstd::utf8;

verus! {

/// The numbers by which requests, answers and states go over the wire.
pub proof fn lemma_numbers(opcode: Opcode, status: ResponseStatus, state: RemoteTransferState)
    ensures
        opcode.code() == 1 <==> opcode is Hello,
        opcode.code() == 2 <==> opcode is GetOffer,
        opcode.code() == 3 <==> opcode is BeginTransfer,
        opcode.code() == 4 <==> opcode is ReadRange,
        opcode.code() == 5 <==> opcode is Pause,
        opcode.code() == 6 <==> opcode is Resume,
        opcode.code() == 7 <==> opcode is Cancel,
        opcode.code() == 8 <==> opcode is Status,
        opcode.code() == 9 <==> opcode is Complete,
        1 <= opcode.code() <= 9,
        status.code() == 0 <==> status is Success,
        status.code() == 1 <==> status is Invalid,
        status.code() == 2 <==> status is Denied,
        status.code() == 3 <==> status is Expired,
        status.code() == 4 <==> status is Replay,
        status.code() == 5 <==> status is Busy,
        status.code() == 6 <==> status is Cancelled,
        status.code() == 7 <==> status is Timeout,
        status.code() == 8 <==> status is SourceChanged,
        status.code() == 9 <==> status is Internal,
        status.code() <= 9,
        state.code() == 0 <==> state is Running,
        state.code() == 1 <==> state is Paused,
        state.code() == 2 <==> state is Cancelled,
        state.code() == 3 <==> state is Completed,
        state.code() <= 3,
        state.is_active() <==> state is Running || state is Paused,
{
}

/// Every number of a request is understood, and none else.
pub proof fn lemma_numbers_are_understood(
    number: u16,
    opcode: Result<Opcode, Failure>,
    code: u8,
    status: Result<ResponseStatus, Failure>,
    state: Result<RemoteTransferState, Failure>,
)
    requires
        call_ensures(Opcode::from_code, (number,), opcode),
        call_ensures(ResponseStatus::decode, (code,), status),
        call_ensures(RemoteTransferState::decode, (code,), state),
    ensures
        opcode is Ok <==> 1 <= number <= 9,
        opcode matches Ok(opcode) ==> opcode.code() == number,
        status is Ok <==> code <= 9,
        status matches Ok(status) ==> status.code() == code,
        state is Ok <==> code <= 3,
        state matches Ok(state) ==> state.code() == code,
{
}

/// A refusal reaches the receiver as a failure of its own kind.
pub proof fn lemma_refusals_are_told(status: ResponseStatus, rest: Seq<u8>)
    ensures
        wire::ok_outcome(seq![0u8] + rest) is Ok,
        !(status is Success) ==> {
            &&& wire::ok_outcome(seq![status.code()] + rest) matches Err(failure)
            &&& failure.kind is PermissionDenied <==> status is Denied || status is Replay
            &&& failure.kind is TimedOut <==> status is Expired || status is Timeout
            &&& failure.kind is WouldBlock <==> status is Busy
            &&& failure.kind is Interrupted <==> status is Cancelled
            &&& failure.kind is InvalidData <==> status is Invalid || status is SourceChanged
            &&& failure.kind is Other <==> status is Internal
        },
        wire::ok_outcome(Seq::empty()) is Err,
{
    let answer = seq![status.code()] + rest;
    assert(answer[0] == status.code());
    assert((seq![0u8] + rest)[0] == 0);
    if !(status is Success) {
        let told = choose|other: ResponseStatus| other.code() == answer[0];
        assert(status.code() == answer[0]);
        assert(told.code() == status.code());
        lemma_numbers(Opcode::Hello, told, RemoteTransferState::Running);
        lemma_numbers(Opcode::Hello, status, RemoteTransferState::Running);
    }
}

/// A failure reaches the shell as cancelled, timed out, denied, invalid or a read fault, by its kind.
pub proof fn lemma_failures_reach_the_shell(kind: FailureKind)
    ensures
        kind is Interrupted <==> client::code_of(kind) == 0x8007_04c7,
        kind is TimedOut || kind is WouldBlock <==> client::code_of(kind) == 0x8007_05b4,
        kind is PermissionDenied || kind is InvalidData <==> client::code_of(kind) == 0x8007_0005,
        kind is InvalidInput <==> client::code_of(kind) == 0x8007_0057,
        kind is NotFound || kind is NotConnected || kind is Other || kind is BrokenPipe || kind is UnexpectedEof
            || kind is ConnectionReset || kind is ConnectionRefused || kind is ConnectionAborted
            || kind is AlreadyExists <==> client::code_of(kind) == 0x8007_001e,
{
}

/// A frame starts with four letters and the second version, then tells what it asks, its own number
/// and the length of what follows, each with its highest byte first.
pub proof fn lemma_frame_layout(opcode: u16, request: u64, payload: Seq<u8>)
    requires
        payload.len() < 0x1_0000_0000,
    ensures
        ({
            let frame = wire::frame_bytes(opcode, request, payload);
            &&& frame.len() == 20 + payload.len()
            &&& frame.take(4) == seq![67u8, 70u8, 83u8, 52u8]
            &&& frame[4] == 0 && frame[5] == 2
            &&& 256 * frame[6] + frame[7] == opcode
            &&& bytes::be_value(frame.subrange(8, 16)) == request
            &&& bytes::be_value(frame.subrange(16, 20)) == payload.len()
            &&& frame.skip(20) == payload
        }),
{
    bytes::lemma_two_bytes(2);
    bytes::lemma_two_bytes(opcode as nat);
    bytes::lemma_capacity_values();
    bytes::lemma_be_value_of_bytes(request as nat, 8);
    bytes::lemma_be_value_of_bytes(payload.len(), 4);
    let frame = wire::frame_bytes(opcode, request, payload);
    assert(frame.take(4) =~= seq![67u8, 70u8, 83u8, 52u8]);
    assert(frame.subrange(8, 16) =~= bytes::be_bytes(request as nat, 8));
    assert(frame.subrange(16, 20) =~= bytes::be_bytes(payload.len(), 4));
    assert(frame.skip(20) =~= payload);
}

/// A frame is taken exactly where its letters, its version and its length are right and all of it is
/// there; a length beyond a mebibyte is not.
pub proof fn lemma_frames_that_are_taken(stream: Seq<u8>)
    requires
        stream.len() >= 20,
    ensures
        ({
            let length = bytes::be_value(stream.subrange(16, 20));
            wire::frame_outcome(stream) is Ok <==> {
                &&& stream.subrange(0, 4) == seq![67u8, 70u8, 83u8, 52u8]
                &&& bytes::be_value(stream.subrange(4, 6)) == 2
                &&& length <= 1_048_576
                &&& stream.len() >= 20 + length
            }
        }),
        wire::frame_outcome(stream) matches Ok(taken) ==> taken matches Some((opcode, request, payload))
            && opcode == bytes::be_value(stream.subrange(6, 8)) && request == bytes::be_value(
            stream.subrange(8, 16),
        ) && payload == stream.subrange(20, 20 + payload.len() as int),
        wire::frame_outcome(Seq::empty()) == Ok::<Option<(u16, u64, Seq<u8>)>, Failure>(None),
{
    assert(wire::MAGIC@ =~= seq![67u8, 70u8, 83u8, 52u8]);
    bytes::lemma_capacity_values();
    bytes::lemma_be_bytes_of_value(stream.subrange(6, 8));
    bytes::lemma_be_bytes_of_value(stream.subrange(8, 16));
}

/// A frame of a mebibyte or less is sent.
pub proof fn lemma_frames_that_are_sent(out: &mut Vec<u8>, frame: &Frame, result: Result<(), Failure>)
    requires
        call_ensures(wire::write_frame, (out, frame), result),
    ensures
        result is Ok <==> frame.payload@.len() <= 1_048_576,
        result is Ok ==> final(out)@.len() == old(out)@.len() + 20 + frame.payload@.len() && final(out)@.take(
            old(out)@.len() as int,
        ) == old(out)@,
        result is Err ==> final(out)@ == old(out)@,
{
    if result is Ok {
        wire::lemma_frame_round_trip(frame.opcode, frame.request_id, frame.payload@, Seq::empty());
        assert(final(out)@.take(old(out)@.len() as int) =~= old(out)@);
    }
}

/// Credentials go over the wire as the offer, the file, the transfer, the capability and the nonce of
/// the server, in 112 bytes.
pub proof fn lemma_credentials_layout(credentials: TransferCredentials)
    ensures
        ({
            let sent = credentials.wire();
            &&& sent.len() == 112
            &&& sent.subrange(0, 16) == credentials.offer_id.0@
            &&& sent.subrange(16, 32) == credentials.file_id.0@
            &&& sent.subrange(32, 48) == credentials.transfer_id.0@
            &&& sent.subrange(48, 80) == credentials.capability@
            &&& sent.subrange(80, 112) == credentials.server_nonce@
        }),
{
    let sent = credentials.wire();
    assert(sent.subrange(0, 16) =~= credentials.offer_id.0@);
    assert(sent.subrange(16, 32) =~= credentials.file_id.0@);
    assert(sent.subrange(32, 48) =~= credentials.transfer_id.0@);
    assert(sent.subrange(48, 80) =~= credentials.capability@);
    assert(sent.subrange(80, 112) =~= credentials.server_nonce@);
}

/// A status goes over the wire as a success, a state and eight bytes of progress.
pub proof fn lemma_status_layout(status: TransferStatus)
    ensures
        wire::status_bytes(status).len() == 10,
        wire::status_bytes(status)[0] == 0,
        wire::status_bytes(status)[1] == status.state.code(),
        bytes::be_value(wire::status_bytes(status).skip(2)) == status.unique_bytes,
{
    bytes::lemma_capacity_values();
    bytes::lemma_be_value_of_bytes(status.unique_bytes as nat, 8);
    assert(wire::status_bytes(status).skip(2) =~= bytes::be_bytes(status.unique_bytes as nat, 8));
}

/// A receiver that asks for a range gets what the rules say of that very range of that very transfer:
/// the refusal, or the read itself.
pub proof fn lemma_range_requests_arrive(
    model: ServerModel,
    peer: CertificateFingerprint,
    trusted: bool,
    now: u64,
    credentials: TransferCredentials,
    offset: u64,
    requested: usize,
    payload: Result<Vec<u8>, Failure>,
    secrets: Option<SessionSecrets>,
)
    requires
        call_ensures(client::read_request, (credentials, offset, requested), payload),
        payload is Ok,
    ensures
        requested <= 262_144,
        ({
            let shown = TransferCredentials { expires_at_millis: 0, ..credentials };
            let (after, result) = model.start_read(peer, trusted, now, shown, requested as nat);
            dispatch::dispatched(
                model,
                peer,
                trusted,
                now,
                Opcode::ReadRange,
                payload->Ok_0@,
                secrets,
            ) == (
                after,
                match result {
                    Err(status) => ReplyView::Bytes(seq![status.code()]),
                    Ok(_) => ReplyView::Read {
                        transfer_id: credentials.transfer_id,
                        offset,
                        requested,
                    },
                },
            )
        }),
{
    client::lemma_read_request_is_understood(credentials, offset, requested as nat);
}

/// A receiver may ask for 256 KiB at a time, and not for more.
pub proof fn lemma_ranges_that_are_asked_for(
    credentials: TransferCredentials,
    offset: u64,
    requested: usize,
    payload: Result<Vec<u8>, Failure>,
)
    requires
        call_ensures(client::read_request, (credentials, offset, requested), payload),
    ensures
        payload is Ok <==> requested <= 262_144,
        payload matches Ok(payload) ==> payload@.len() == 124 && payload@.take(112) == credentials.wire(),
{
    if payload is Ok {
        client::lemma_read_request_is_understood(credentials, offset, requested as nat);
        credentials.lemma_credentials_round_trip(Seq::empty());
        assert(payload->Ok_0@.take(112) =~= credentials.wire());
    }
}

/// A receiver that controls a transfer gets what the rules say of that very control: the refusal, or
/// the status thereafter.
pub proof fn lemma_control_requests_arrive(
    model: ServerModel,
    peer: CertificateFingerprint,
    trusted: bool,
    now: u64,
    opcode: Opcode,
    credentials: TransferCredentials,
    sequence: u64,
    payload: Vec<u8>,
    secrets: Option<SessionSecrets>,
)
    requires
        opcode is Pause || opcode is Resume || opcode is Cancel || opcode is Complete,
        call_ensures(client::control_request, (credentials, sequence), payload),
    ensures
        ({
            let shown = TransferCredentials { expires_at_millis: 0, ..credentials };
            let (after, result) = model.control(peer, trusted, now, shown, sequence, opcode);
            dispatch::dispatched(model, peer, trusted, now, opcode, payload@, secrets) == (
                after,
                ReplyView::Bytes(
                    match result {
                        Err(status) => seq![status.code()],
                        Ok(status) => wire::status_bytes(status),
                    },
                ),
            )
        }),
{
    client::lemma_control_request_is_understood(credentials, sequence);
}

/// A receiver that asks how a transfer stands gets what the rules say of that very transfer.
pub proof fn lemma_status_requests_arrive(
    model: ServerModel,
    peer: CertificateFingerprint,
    trusted: bool,
    now: u64,
    credentials: TransferCredentials,
    payload: Vec<u8>,
    secrets: Option<SessionSecrets>,
)
    requires
        call_ensures(TransferCredentials::encode, (credentials,), payload),
    ensures
        ({
            let shown = TransferCredentials { expires_at_millis: 0, ..credentials };
            let (after, result) = model.status(peer, trusted, now, shown);
            dispatch::dispatched(model, peer, trusted, now, Opcode::Status, payload@, secrets) == (
                after,
                ReplyView::Bytes(
                    match result {
                        Err(status) => seq![status.code()],
                        Ok(status) => wire::status_bytes(status),
                    },
                ),
            )
        }),
{
    credentials.lemma_credentials_round_trip(Seq::empty());
    assert(credentials.wire() + Seq::<u8>::empty() =~= credentials.wire());
}

/// A receiver that begins a transfer of a file gets the credentials that the rules give for it, or
/// their refusal.
pub proof fn lemma_begin_requests_arrive(
    model: ServerModel,
    peer: CertificateFingerprint,
    trusted: bool,
    now: u64,
    offer_id: ProtocolId,
    file_id: ProtocolId,
    nonce: [u8; 32],
    payload: Vec<u8>,
    secrets: Option<SessionSecrets>,
)
    requires
        call_ensures(client::begin_request, (offer_id, file_id, nonce), payload),
        exists|k: int| 0 <= k < 32 && #[trigger] nonce@[k] != 0,
    ensures
        payload@.len() == 64,
        ({
            let (after, result) = model.begin(peer, trusted, now, offer_id, file_id, nonce, secrets);
            let (reached, reply) = dispatch::dispatched(
                model,
                peer,
                trusted,
                now,
                Opcode::BeginTransfer,
                payload@,
                secrets,
            );
            &&& reached == after
            &&& result matches Err(status) ==> reply == ReplyView::Bytes(seq![status.code()])
            &&& result matches Ok(credentials) ==> reply matches ReplyView::Bytes(answer)
                && client::begin_outcome(answer, credentials.offer_id, credentials.file_id) == Ok::<
                TransferCredentials,
                Failure,
            >(credentials)
        }),
{
    client::lemma_begin_request_is_understood(
        model,
        peer,
        trusted,
        now,
        offer_id,
        file_id,
        nonce,
        secrets,
    );
    let (_, result) = model.begin(peer, trusted, now, offer_id, file_id, nonce, secrets);
    if let Ok(credentials) = result {
        client::lemma_begin_response_round_trip(credentials);
    }
}

/// Whether a request has another length than its kind has, greets in the middle of a connection, or
/// begins a transfer without a nonce.
pub open spec fn malformed(opcode: Opcode, payload: Seq<u8>) -> bool {
    ||| opcode is Hello
    ||| opcode is BeginTransfer && (payload.len() != 64 || forall|k: int|
        32 <= k < 64 ==> #[trigger] payload[k] == 0)
    ||| opcode is ReadRange && payload.len() != 124
    ||| (opcode is Pause || opcode is Resume || opcode is Cancel || opcode is Complete) && payload.len()
        != 120
    ||| opcode is Status && payload.len() != 112
}

/// Credentials are taken from a success of 121 bytes, and only for the offer and the file that were
/// asked for.
pub proof fn lemma_credentials_that_are_taken(
    given: TransferCredentials,
    offer_id: ProtocolId,
    file_id: ProtocolId,
    response: Seq<u8>,
)
    ensures
        ({
            let answer = dispatch::begin_response(given);
            client::begin_outcome(answer, offer_id, file_id) is Ok <==> given.offer_id == offer_id
                && given.file_id == file_id
        }),
        client::begin_outcome(response, offer_id, file_id) matches Ok(taken) ==> {
            &&& response.len() == 121 && response[0] == 0
            &&& taken.offer_id == offer_id && taken.file_id == file_id
        },
{
    client::lemma_begin_response_round_trip(given);
}

/// Data is taken from a success that holds as much as it tells, and no more than was asked for.
pub proof fn lemma_data_that_is_taken(response: Seq<u8>, requested: nat)
    ensures
        client::read_outcome(response, requested) is Ok <==> {
            let length = bytes::be_value(response.subrange(10, 14));
            &&& response.len() == 14 + length
            &&& response[0] == 0
            &&& response[1] <= 3
            &&& length <= requested
        },
        client::read_outcome(response, requested) matches Ok((status, data)) ==> {
            &&& data == response.skip(14)
            &&& status.state.code() == response[1]
            &&& status.unique_bytes == bytes::be_value(response.subrange(2, 10))
        },
{
    if response.len() >= 14 && response[0] == 0 && response[1] <= 3 {
        bytes::lemma_capacity_values();
        bytes::lemma_be_bytes_of_value(response.subrange(2, 10));
        let state = if response[1] == 0 {
            RemoteTransferState::Running
        } else if response[1] == 1 {
            RemoteTransferState::Paused
        } else if response[1] == 2 {
            RemoteTransferState::Cancelled
        } else {
            RemoteTransferState::Completed
        };
        assert(state.code() == response[1]);
    }
}

/// An offer that was made holds each item once, in order and with its description, under identifiers
/// that were drawn, for as long as asked.
pub proof fn lemma_made_offers(
    result: Result<SecureOfferedFile, TrustFailure>,
    items: Seq<(VirtualFileDescriptor, Option<u64>)>,
    ttl: u64,
    now: u64,
)
    requires
        offer::offers(result, items, ttl, now),
    ensures
        result is Ok ==> offer::offer_outcome(items, ttl, now) is Ok,
        result matches Ok(offered) ==> {
            &&& offered.spec_expires_at() == now + ttl
            &&& offered.entries().len() == items.len()
            &&& forall|k: int|
                0 <= k < items.len() ==> (#[trigger] offered.entries()[k]).descriptor == items[k].0@
            &&& forall|k: int|
                0 <= k < items.len() ==> random::drawn((#[trigger] offered.entries()[k]).file_id.0@)
            &&& random::drawn(offered.spec_offer_id().0@)
        },
        offer::offer_outcome(items, ttl, now) is Err ==> result is Err,
{
    if let Ok(offered) = result {
        let ids = choose|ids: Seq<ProtocolId>|
            ids.len() == items.len() && offer::all_drawn(ids) && offered.entries()
                == #[trigger] offer::offered_entries(items, ids);
        assert forall|k: int| 0 <= k < items.len() implies random::drawn(
            (#[trigger] offered.entries()[k]).file_id.0@,
        ) by {
            assert(random::drawn(ids[k].0@));
        }
    }
}

/// A request of another length than its kind has is invalid, and so are a greeting in the middle of a
/// connection and a transfer that is begun without a nonce. None of them changes anything.
pub proof fn lemma_malformed_requests(
    model: ServerModel,
    peer: CertificateFingerprint,
    trusted: bool,
    now: u64,
    opcode: Opcode,
    payload: Seq<u8>,
    secrets: Option<SessionSecrets>,
)
    requires
        malformed(opcode, payload),
    ensures
        dispatch::dispatched(model, peer, trusted, now, opcode, payload, secrets) == (
            model,
            ReplyView::Bytes(seq![1u8]),
        ),
{
    if opcode is BeginTransfer && payload.len() == 64 {
        assert forall|k: int| 0 <= k < 32 implies #[trigger] bytes::slice_of(payload, 32, 32)[k] == 0 by {
            assert(bytes::slice_of(payload, 32, 32)[k] == payload[32 + k]);
        }
    }
}

/// Whoever asks for the offer with nothing else gets it, with the whole milliseconds that are left of
/// its time, for as long as it stands; later it has expired.
pub proof fn lemma_offers_are_told(
    model: ServerModel,
    peer: CertificateFingerprint,
    trusted: bool,
    now: u64,
    payload: Seq<u8>,
    secrets: Option<SessionSecrets>,
)
    ensures
        ({
            let (after, reply) = dispatch::dispatched(
                model,
                peer,
                trusted,
                now,
                Opcode::GetOffer,
                payload,
                secrets,
            );
            &&& after == model
            &&& payload.len() > 0 || now >= model.offer_expires_at ==> reply == ReplyView::Bytes(seq![3u8])
            &&& payload.len() == 0 && now < model.offer_expires_at ==> {
                let told = model.told(now);
                &&& told.offer_id == model.offer_id
                &&& told.entries == model.entries
                &&& told.ttl_millis * 1_000_000 <= model.offer_expires_at - now < (told.ttl_millis + 1)
                    * 1_000_000
                &&& reply == ReplyView::Bytes(manifest::manifest_bytes(told)) || reply == ReplyView::Bytes(
                    seq![9u8],
                )
                &&& manifest::encodable(told) ==> reply == ReplyView::Bytes(manifest::manifest_bytes(told))
            }
        }),
{
}

/// An answer carries the bytes that were read, with their number before them; a refusal carries its
/// number alone.
pub proof fn lemma_read_answers_carry(
    outcome: Result<TransferStatus, ResponseStatus>,
    data: &[u8],
    payload: Vec<u8>,
)
    requires
        call_ensures(dispatch::encode_read_outcome, (outcome, data), payload),
        data@.len() <= 262_144,
    ensures
        outcome matches Err(status) ==> payload@ == seq![status.code()],
        outcome matches Ok(status) ==> {
            &&& payload@.len() == 14 + data@.len()
            &&& payload@[0] == 0 && payload@[1] == status.state.code()
            &&& bytes::be_value(payload@.subrange(2, 10)) == status.unique_bytes
            &&& bytes::be_value(payload@.subrange(10, 14)) == data@.len()
            &&& payload@.skip(14) == data@
        },
{
    if let Ok(status) = outcome {
        lemma_status_layout(status);
        bytes::lemma_capacity_values();
        bytes::lemma_be_value_of_bytes(data@.len(), 4);
        assert(payload@.subrange(2, 10) =~= wire::status_bytes(status).skip(2));
        assert(payload@.subrange(10, 14) =~= bytes::be_bytes(data@.len(), 4));
        assert(payload@.skip(14) =~= data@);
    }
}

/// A receiver greets with its part and 32 bytes that are not all zero, and is answered under the same
/// number with 32 bytes.
pub proof fn lemma_greetings(hello: &Frame, nonce: [u8; 32], result: Result<Frame, Failure>)
    requires
        call_ensures(dispatch::answer_hello, (hello, nonce), result),
    ensures
        result is Ok <==> {
            &&& hello.opcode == 1
            &&& hello.payload@.len() == 33
            &&& hello.payload@[0] == 1
            &&& exists|k: int| 1 <= k < 33 && #[trigger] hello.payload@[k] != 0
        },
        result matches Ok(answer) ==> answer.opcode == 0x8001 && answer.request_id == hello.request_id
            && answer.payload@ == nonce@,
{
    let payload = hello.payload@;
    if payload.len() == 33 {
        if bytes::all_zero(payload.skip(1)) {
            assert forall|k: int| 1 <= k < 33 implies #[trigger] payload[k] == 0 by {
                assert(payload.skip(1)[k - 1] == payload[k]);
            }
        } else {
            let k = choose|k: int| 0 <= k < payload.skip(1).len() && #[trigger] payload.skip(1)[k] != 0;
            assert(payload[k + 1] != 0);
        }
    }
}

/// A server that greets back is taken where it answers this very greeting.
pub proof fn lemma_greetings_are_checked(response: &Frame, number: u64, result: Result<(), Failure>)
    requires
        call_ensures(SecureOfferClient::check_hello, (response, number), result),
    ensures
        result is Ok <==> response.opcode == 0x8001 && response.request_id == number
            && response.payload@.len() == 32,
{
}

/// A response is taken exactly where it is one to this very request.
pub proof fn lemma_responses_are_matched(
    response: Frame,
    opcode: Opcode,
    number: u64,
    result: Result<Vec<u8>, Failure>,
)
    requires
        call_ensures(SecureOfferClient::check_response, (response, opcode, number), result),
    ensures
        result is Ok <==> response.opcode == 0x8000 + opcode.code() && response.request_id == number,
        result matches Ok(payload) ==> payload@ == response.payload@,
{
}

/// Requests are numbered one after the other, and only data goes over the connection for data.
pub proof fn lemma_requests_are_numbered(
    receiver: &mut SecureOfferClient,
    opcode: Opcode,
    payload: Vec<u8>,
    frame: Frame,
    data: bool,
)
    requires
        call_ensures(SecureOfferClient::request, (receiver, opcode, payload), frame),
        call_ensures(SecureOfferClient::uses_data_connection, (opcode,), data),
    ensures
        frame.opcode == opcode.code(),
        frame.payload@ == payload@,
        frame.request_id == old(receiver).next_id(),
        final(receiver).next_id() == (old(receiver).next_id() + 1) % 0x1_0000_0000_0000_0000,
        data <==> opcode is ReadRange,
{
}

/// A connection, and each request on it, is let in exactly where it is of the selected peer and that
/// is trusted.
pub proof fn lemma_who_is_let_in(
    server: &mut ServerState,
    peer: CertificateFingerprint,
    trusted: bool,
    request: &Frame,
    result: Result<Opcode, Failure>,
)
    requires
        old(server).wf(),
        call_ensures(ServerState::admit_request, (server, peer, trusted, request), result),
    ensures
        result is Ok <==> trusted && peer == old(server)@.authorized_peer && 1 <= request.opcode <= 9,
        result matches Ok(opcode) ==> opcode.code() == request.opcode,
        trusted && peer == old(server)@.authorized_peer ==> final(server)@ == old(server)@,
        !(trusted && peer == old(server)@.authorized_peer) ==> (result matches Err(failure)
            && failure.kind is PermissionDenied),
{
}

/// A connection is opened exactly to the selected peer while it is trusted.
pub proof fn lemma_who_may_connect(
    server: &mut ServerState,
    peer: CertificateFingerprint,
    trusted: bool,
    result: Result<(), Failure>,
)
    requires
        old(server).wf(),
        call_ensures(ServerState::open_connection, (server, peer, trusted), result),
    ensures
        result is Ok <==> trusted && peer == old(server)@.authorized_peer,
        result is Ok ==> final(server)@ == old(server)@,
        result matches Err(failure) ==> failure.kind is PermissionDenied,
{
}

/// Files are put on offer exactly where there are 1 to 4096 of them, their paths and sizes make up a
/// tree, each has the content that its description tells and a directory has none, and the offer has
/// a time that ends.
pub proof fn lemma_offers_that_are_made(
    items: Seq<(VirtualFileDescriptor, Option<u64>)>,
    ttl: u64,
    now: u64,
)
    ensures
        offer::offer_outcome(items, ttl, now) is Ok <==> {
            &&& 1 <= items.len() <= 4096
            &&& ttl > 0
            &&& now + ttl <= u64::MAX
            &&& data_object::valid_tree(offer::item_views(items))
            &&& forall|k: int|
                0 <= k < items.len() ==> {
                    let item = #[trigger] items[k];
                    if item.0.attributes & 0x10 != 0 {
                        item.1 is None
                    } else {
                        item.1 == Some(item.0.size)
                    }
                }
        },
{
    if forall|k: int|
        0 <= k < items.len() ==> {
            let item = #[trigger] items[k];
            if item.0.attributes & 0x10 != 0 {
                item.1 is None
            } else {
                item.1 == Some(item.0.size)
            }
        } {
        assert forall|k: int| 0 <= k < items.len() implies offer::item_matches(#[trigger] items[k]) by {
            let item = items[k];
            assert(if item.0.attributes & 0x10 != 0 {
                item.1 is None
            } else {
                item.1 == Some(item.0.size)
            });
        }
    }
    if offer::offer_outcome(items, ttl, now) is Ok {
        assert forall|k: int| 0 <= k < items.len() implies ({
            let item = #[trigger] items[k];
            if item.0.attributes & 0x10 != 0 {
                item.1 is None
            } else {
                item.1 == Some(item.0.size)
            }
        }) by {
            assert(offer::item_matches(items[k]));
        }
    }
}

/// Each item on offer keeps its place, its description and its identifier.
pub proof fn lemma_offers_hold_their_items(
    items: Seq<(VirtualFileDescriptor, Option<u64>)>,
    ids: Seq<ProtocolId>,
    k: int,
)
    requires
        0 <= k < items.len(),
    ensures
        offer::offered_entries(items, ids).len() == items.len(),
        offer::offered_entries(items, ids)[k].file_id == ids[k],
        offer::offered_entries(items, ids)[k].descriptor == items[k].0@,
{
}

/// The first file with an identifier is the one that is read.
pub proof fn lemma_files_are_found(entries: Seq<EntryView>, file_id: ProtocolId, place: int)
    requires
        0 <= place < entries.len(),
        entries[place].file_id == file_id,
        forall|k: int| 0 <= k < place ==> (#[trigger] entries[k]).file_id != file_id,
    ensures
        offer::entry_place(entries, file_id) == place,
        entries[place].descriptor.attributes & 0x10 == 0 ==> offer::has_content(entries, file_id),
{
    offer::lemma_entry_place_is(entries, file_id, place);
    if entries[place].descriptor.attributes & 0x10 == 0 {
        assert(!data_object::directory_attributes(entries[place].descriptor.attributes));
    }
}

/// Every offer with time left, of 1 to 4096 files under different identifiers whose paths and sizes
/// make up a tree, in at most a mebibyte, reaches a receiver as it is.
pub proof fn lemma_offers_that_are_accepted(told: ManifestView)
    requires
        told.ttl_millis > 0,
        1 <= told.entries.len() <= 4096,
        forall|j: int, k: int|
            0 <= j < k < told.entries.len() ==> (#[trigger] told.entries[j]).file_id != (
            #[trigger] told.entries[k]).file_id,
        data_object::valid_tree(manifest::entry_descriptors(told.entries)),
        forall|k: int|
            0 <= k < told.entries.len() ==> utf8::encode_utf8(
                (#[trigger] told.entries[k]).descriptor.name,
            ).len() <= 65_535,
        manifest::manifest_bytes(told).len() <= 1_048_576,
    ensures
        manifest::manifest_outcome(manifest::manifest_bytes(told)) == Ok::<ManifestView, Failure>(told),
{
    manifest::lemma_manifest_round_trip(told);
}

/// No offer is accepted that has no time left, too many files or none, or files that do not make up a
/// tree.
pub proof fn lemma_offers_that_are_refused(response: Seq<u8>)
    ensures
        manifest::manifest_outcome(response) matches Ok(told) ==> {
            &&& told.ttl_millis > 0
            &&& 1 <= told.entries.len() <= 4096
            &&& data_object::valid_tree(manifest::entry_descriptors(told.entries))
            &&& response.len() <= 1_048_576
            &&& response[0] == 0
        },
{
    let count = bytes::be_value(bytes::slice_of(response, 25, 4));
    manifest::lemma_entries_are_counted(response, 29, count, Seq::empty());
    bytes::lemma_capacity_values();
    bytes::lemma_be_bytes_of_value(bytes::slice_of(response, 17, 8));
}

/// An entry goes over the wire as its identifier, its size, its attributes, which of its times are
/// known, its times, and its name with its length before it.
pub proof fn lemma_entry_layout(entry: EntryView)
    ensures
        ({
            let sent = manifest::entry_bytes(entry);
            let name = utf8::encode_utf8(entry.descriptor.name);
            &&& sent.len() == 55 + name.len()
            &&& sent.subrange(0, 16) == entry.file_id.0@
            &&& bytes::be_value(sent.subrange(16, 24)) == entry.descriptor.size
            &&& bytes::be_value(sent.subrange(24, 28)) == entry.descriptor.attributes
            &&& sent[28] == (if entry.descriptor.creation_time is Some {
                1int
            } else {
                0
            }) + (if entry.descriptor.last_access_time is Some {
                2int
            } else {
                0
            }) + (if entry.descriptor.last_write_time is Some {
                4int
            } else {
                0
            })
            &&& entry.descriptor.creation_time matches Some(time) ==> bytes::be_value(sent.subrange(29, 37))
                == time.low_date_time + 0x1_0000_0000 * time.high_date_time
            &&& entry.descriptor.last_access_time matches Some(time) ==> bytes::be_value(
                sent.subrange(37, 45),
            ) == time.low_date_time + 0x1_0000_0000 * time.high_date_time
            &&& entry.descriptor.last_write_time matches Some(time) ==> bytes::be_value(
                sent.subrange(45, 53),
            ) == time.low_date_time + 0x1_0000_0000 * time.high_date_time
            &&& sent.skip(55) == name
        }),
{
    manifest::lemma_entry_fields(entry);
    bytes::lemma_capacity_values();
    bytes::lemma_be_value_of_bytes(entry.descriptor.size as nat, 8);
    bytes::lemma_be_value_of_bytes(entry.descriptor.attributes as nat, 4);
    bytes::lemma_be_value_of_bytes(
        manifest::time_bits(entry.descriptor.creation_time) as nat,
        8,
    );
    bytes::lemma_be_value_of_bytes(
        manifest::time_bits(entry.descriptor.last_access_time) as nat,
        8,
    );
    bytes::lemma_be_value_of_bytes(
        manifest::time_bits(entry.descriptor.last_write_time) as nat,
        8,
    );
    let sent = manifest::entry_bytes(entry);
    assert(sent.skip(55) =~= sent.subrange(55, sent.len() as int));
}

} // verus!
