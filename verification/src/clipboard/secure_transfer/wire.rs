//! Frames, codes and fixed-layout payloads of the transfer protocol.

use crate::bytes;
use crate::failure::{Failure, FailureKind};
use crate::text;
use vstd::prelude::*;

verus! {

/// Most bytes that one range request may ask for.
pub const MAX_SECURE_RANGE_BYTES: usize = 256 * 1024;

/// Most bytes of an encoded offer.
pub const MAX_SECURE_MANIFEST_BYTES: usize = 1024 * 1024;

/// Most payload bytes of one frame.
pub const MAX_FRAME_PAYLOAD: usize = 1024 * 1024;

/// Version of the protocol that every frame carries.
pub const PROTOCOL_VERSION: u16 = 2;

/// Bytes of a frame before its payload.
pub const FRAME_HEADER_LEN: usize = 20;

/// Distance between the opcode of a request and that of its response: the highest bit.
pub const RESPONSE_BIT: u16 = 0x8000;

/// Bytes of the credentials that accompany every request of a transfer.
pub const CREDENTIALS_WIRE_LEN: usize = 112;

/// Role byte of a receiver in the greeting.
pub const HELLO_ROLE_RECEIVER: u8 = 1;

/// The bytes that open every frame: `CFS4`.
pub const MAGIC: [u8; 4] = [0x43, 0x46, 0x53, 0x34];

/// A random identifier of an offer, a file or a transfer.
#[derive(Clone, Copy, Debug, Eq, Hash)]
pub struct ProtocolId(pub [u8; 16]);

impl PartialEq for ProtocolId {
    fn eq(&self, other: &Self) -> (same: bool) {
        let same = bytes::bytes_equal(&self.0, &other.0);
        proof {
            if same {
                assert(self.0 =~= other.0);
            }
        }
        same
    }
}

impl vstd::std_specs::cmp::PartialEqSpecImpl for ProtocolId {
    open spec fn obeys_eq_spec() -> bool {
        true
    }

    open spec fn eq_spec(&self, other: &Self) -> bool {
        *self == *other
    }
}

impl ProtocolId {
    pub fn bytes(self) -> (bytes: [u8; 16])
        ensures
            bytes == self.0,
    {
        self.0
    }

    /// The identifier in lower-case hexadecimal digits.
    pub fn to_text(&self) -> (result: String)
        ensures
            result@ == text::hex_text(self.0@, false),
    {
        let mut result = String::new();
        text::push_hex(&mut result, &self.0, false);
        assert(result@ =~= text::hex_text(self.0@, false));
        result
    }
}

/// Where a transfer stands.
#[derive(Clone, Copy, Debug, PartialEq, Eq, Structural)]
pub enum RemoteTransferState {
    Running,
    Paused,
    Cancelled,
    Completed,
}

impl RemoteTransferState {
    /// The code of a state.
    pub open spec fn code(self) -> u8 {
        match self {
            RemoteTransferState::Running => 0,
            RemoteTransferState::Paused => 1,
            RemoteTransferState::Cancelled => 2,
            RemoteTransferState::Completed => 3,
        }
    }

    /// Whether the transfer may still go on.
    pub open spec fn is_active(self) -> bool {
        self is Running || self is Paused
    }

    pub fn active(self) -> (active: bool)
        ensures
            active == self.is_active(),
    {
        match self {
            RemoteTransferState::Running | RemoteTransferState::Paused => true,
            _ => false,
        }
    }

    pub fn encode(self) -> (code: u8)
        ensures
            code == self.code(),
    {
        match self {
            RemoteTransferState::Running => 0,
            RemoteTransferState::Paused => 1,
            RemoteTransferState::Cancelled => 2,
            RemoteTransferState::Completed => 3,
        }
    }

    /// The state of a code.
    pub fn decode(value: u8) -> (result: Result<Self, Failure>)
        ensures
            match result {
                Ok(state) => state.code() == value,
                Err(failure) => value > 3 && failure == Failure::invalid("invalid transfer state"),
            },
    {
        match value {
            0 => Ok(RemoteTransferState::Running),
            1 => Ok(RemoteTransferState::Paused),
            2 => Ok(RemoteTransferState::Cancelled),
            3 => Ok(RemoteTransferState::Completed),
            _ => Err(Failure::invalid("invalid transfer state")),
        }
    }
}

/// What a request asks for.
#[derive(Clone, Copy, Debug, PartialEq, Eq, Structural)]
pub enum Opcode {
    Hello,
    GetOffer,
    BeginTransfer,
    ReadRange,
    Pause,
    Resume,
    Cancel,
    Status,
    Complete,
}

impl Opcode {
    /// The number of an opcode on the wire.
    pub open spec fn spec_code(self) -> u16 {
        match self {
            Opcode::Hello => 1,
            Opcode::GetOffer => 2,
            Opcode::BeginTransfer => 3,
            Opcode::ReadRange => 4,
            Opcode::Pause => 5,
            Opcode::Resume => 6,
            Opcode::Cancel => 7,
            Opcode::Status => 8,
            Opcode::Complete => 9,
        }
    }

    #[verifier::when_used_as_spec(spec_code)]
    pub fn code(self) -> (code: u16)
        ensures
            code == self.spec_code(),
    {
        match self {
            Opcode::Hello => 1,
            Opcode::GetOffer => 2,
            Opcode::BeginTransfer => 3,
            Opcode::ReadRange => 4,
            Opcode::Pause => 5,
            Opcode::Resume => 6,
            Opcode::Cancel => 7,
            Opcode::Status => 8,
            Opcode::Complete => 9,
        }
    }

    /// The opcode of a number.
    pub fn from_code(value: u16) -> (result: Result<Self, Failure>)
        ensures
            match result {
                Ok(opcode) => opcode.code() == value,
                Err(failure) => !(1 <= value <= 9) && failure == Failure::invalid(
                    "unknown secure protocol opcode",
                ),
            },
    {
        match value {
            1 => Ok(Opcode::Hello),
            2 => Ok(Opcode::GetOffer),
            3 => Ok(Opcode::BeginTransfer),
            4 => Ok(Opcode::ReadRange),
            5 => Ok(Opcode::Pause),
            6 => Ok(Opcode::Resume),
            7 => Ok(Opcode::Cancel),
            8 => Ok(Opcode::Status),
            9 => Ok(Opcode::Complete),
            _ => Err(Failure::invalid("unknown secure protocol opcode")),
        }
    }
}

/// The number of the response to an opcode.
pub fn response_opcode(opcode: Opcode) -> (code: u16)
    ensures
        code == opcode.code() + RESPONSE_BIT,
{
    opcode.code() + RESPONSE_BIT
}

/// How a server answers a request.
#[derive(Clone, Copy, Debug, PartialEq, Eq, Structural)]
pub enum ResponseStatus {
    Success,
    Invalid,
    Denied,
    Expired,
    Replay,
    Busy,
    Cancelled,
    Timeout,
    SourceChanged,
    Internal,
}

impl ResponseStatus {
    /// The code of a status.
    pub open spec fn code(self) -> u8 {
        match self {
            ResponseStatus::Success => 0,
            ResponseStatus::Invalid => 1,
            ResponseStatus::Denied => 2,
            ResponseStatus::Expired => 3,
            ResponseStatus::Replay => 4,
            ResponseStatus::Busy => 5,
            ResponseStatus::Cancelled => 6,
            ResponseStatus::Timeout => 7,
            ResponseStatus::SourceChanged => 8,
            ResponseStatus::Internal => 9,
        }
    }

    pub fn encode(self) -> (code: u8)
        ensures
            code == self.code(),
    {
        match self {
            ResponseStatus::Success => 0,
            ResponseStatus::Invalid => 1,
            ResponseStatus::Denied => 2,
            ResponseStatus::Expired => 3,
            ResponseStatus::Replay => 4,
            ResponseStatus::Busy => 5,
            ResponseStatus::Cancelled => 6,
            ResponseStatus::Timeout => 7,
            ResponseStatus::SourceChanged => 8,
            ResponseStatus::Internal => 9,
        }
    }

    /// The status of a code.
    pub fn decode(value: u8) -> (result: Result<Self, Failure>)
        ensures
            match result {
                Ok(status) => status.code() == value,
                Err(failure) => value > 9 && failure == Failure::invalid(
                    "invalid secure response status",
                ),
            },
    {
        match value {
            0 => Ok(ResponseStatus::Success),
            1 => Ok(ResponseStatus::Invalid),
            2 => Ok(ResponseStatus::Denied),
            3 => Ok(ResponseStatus::Expired),
            4 => Ok(ResponseStatus::Replay),
            5 => Ok(ResponseStatus::Busy),
            6 => Ok(ResponseStatus::Cancelled),
            7 => Ok(ResponseStatus::Timeout),
            8 => Ok(ResponseStatus::SourceChanged),
            9 => Ok(ResponseStatus::Internal),
            _ => Err(Failure::invalid("invalid secure response status")),
        }
    }
}

/// The failure that a receiver reports for a status.
pub open spec fn status_failure(status: ResponseStatus) -> Failure {
    match status {
        ResponseStatus::Invalid => Failure::invalid("invalid request"),
        ResponseStatus::Denied => Failure::new(FailureKind::PermissionDenied, "request denied"),
        ResponseStatus::Expired => Failure::new(FailureKind::TimedOut, "offer or transfer expired"),
        ResponseStatus::Replay => Failure::new(
            FailureKind::PermissionDenied,
            "replayed request denied",
        ),
        ResponseStatus::Busy => Failure::new(FailureKind::WouldBlock, "server is busy"),
        ResponseStatus::Cancelled => Failure::new(FailureKind::Interrupted, "transfer cancelled"),
        ResponseStatus::Timeout => Failure::new(
            FailureKind::TimedOut,
            "transfer request timed out",
        ),
        ResponseStatus::SourceChanged => Failure::invalid("source file changed"),
        ResponseStatus::Internal => Failure::new(FailureKind::Other, "server internal error"),
        ResponseStatus::Success => Failure::new(FailureKind::Other, "unexpected success status"),
    }
}

/// The failure that a receiver reports for a status.
pub fn status_error(status: ResponseStatus) -> (failure: Failure)
    ensures
        failure == status_failure(status),
{
    match status {
        ResponseStatus::Invalid => Failure::invalid("invalid request"),
        ResponseStatus::Denied => Failure::new(FailureKind::PermissionDenied, "request denied"),
        ResponseStatus::Expired => Failure::new(FailureKind::TimedOut, "offer or transfer expired"),
        ResponseStatus::Replay => Failure::new(
            FailureKind::PermissionDenied,
            "replayed request denied",
        ),
        ResponseStatus::Busy => Failure::new(FailureKind::WouldBlock, "server is busy"),
        ResponseStatus::Cancelled => Failure::new(FailureKind::Interrupted, "transfer cancelled"),
        ResponseStatus::Timeout => Failure::new(
            FailureKind::TimedOut,
            "transfer request timed out",
        ),
        ResponseStatus::SourceChanged => Failure::invalid("source file changed"),
        ResponseStatus::Internal => Failure::new(FailureKind::Other, "server internal error"),
        ResponseStatus::Success => Failure::new(FailureKind::Other, "unexpected success status"),
    }
}

/// What [`require_ok`] says of a response.
pub open spec fn ok_outcome(response: Seq<u8>) -> Result<(), Failure> {
    if response.len() == 0 {
        Err(Failure::invalid("empty secure response"))
    } else if response[0] == 0 {
        Ok(())
    } else if response[0] > 9 {
        Err(Failure::invalid("invalid secure response status"))
    } else {
        Err(status_failure(choose|status: ResponseStatus| status.code() == response[0]))
    }
}

/// Accepts the responses that report success.
pub fn require_ok(response: &[u8]) -> (result: Result<(), Failure>)
    ensures
        result == ok_outcome(response@),
{
    if response.len() == 0 {
        return Err(Failure::invalid("empty secure response"));
    }
    match ResponseStatus::decode(response[0]) {
        Ok(status) => {
            let ghost chosen = choose|other: ResponseStatus| other.code() == response@[0];
            assert(chosen.code() == response@[0] && status.code() == response@[0]);
            assert(chosen == status);
            match status {
                ResponseStatus::Success => Ok(()),
                other => Err(status_error(other)),
            }
        },
        Err(failure) => Err(failure),
    }
}

/// State and progress of a transfer, as its server counts them.
#[derive(Clone, Copy, Debug, PartialEq, Eq, Structural)]
pub struct TransferStatus {
    pub state: RemoteTransferState,
    pub unique_bytes: u64,
}

/// The bytes of a status response.
pub open spec fn status_bytes(status: TransferStatus) -> Seq<u8> {
    seq![0u8, status.state.code()] + bytes::be_bytes(status.unique_bytes as nat, 8)
}

/// Encodes a status response.
pub fn encode_transfer_status(status: TransferStatus) -> (response: Vec<u8>)
    ensures
        response@ == status_bytes(status),
{
    let mut response: Vec<u8> = Vec::new();
    response.push(ResponseStatus::Success.encode());
    response.push(status.state.encode());
    proof {
        bytes::lemma_capacity_values();
    }
    bytes::put_be(&mut response, status.unique_bytes, 8);
    assert(response@ =~= status_bytes(status));
    response
}

/// The status in a response; bytes beyond the first ten are not looked at.
pub open spec fn status_outcome(response: Seq<u8>) -> Result<TransferStatus, Failure> {
    match ok_outcome(response) {
        Err(failure) => Err(failure),
        Ok(_) => if response.len() < 10 {
            Err(Failure::invalid("truncated transfer status"))
        } else if response[1] > 3 {
            Err(Failure::invalid("invalid transfer state"))
        } else {
            Ok(
                TransferStatus {
                    state: choose|state: RemoteTransferState| state.code() == response[1],
                    unique_bytes: bytes::be_value(bytes::slice_of(response, 2, 8)) as u64,
                },
            )
        },
    }
}

/// Decodes the status in a response.
pub fn decode_transfer_status(response: &[u8]) -> (result: Result<TransferStatus, Failure>)
    ensures
        result == status_outcome(response@),
{
    match require_ok(response) {
        Err(failure) => {
            return Err(failure);
        },
        Ok(_) => {},
    }
    if response.len() < 10 {
        return Err(Failure::invalid("truncated transfer status"));
    }
    match RemoteTransferState::decode(response[1]) {
        Err(failure) => Err(failure),
        Ok(state) => {
            let ghost chosen = choose|other: RemoteTransferState| other.code() == response@[1];
            assert(chosen.code() == response@[1] && state.code() == response@[1]);
            assert(chosen == state);
            Ok(TransferStatus { state, unique_bytes: bytes::get_be(response, 2, 8) })
        },
    }
}

/// Decoding an encoded status gives the status back, whatever follows it.
pub proof fn lemma_status_round_trip(status: TransferStatus, rest: Seq<u8>)
    ensures
        status_outcome(status_bytes(status) + rest) == Ok::<TransferStatus, Failure>(status),
{
    bytes::lemma_capacity_values();
    bytes::lemma_be_value_of_bytes(status.unique_bytes as nat, 8);
    let response = status_bytes(status) + rest;
    assert(bytes::slice_of(response, 2, 8) =~= bytes::be_bytes(status.unique_bytes as nat, 8));
    let chosen = choose|other: RemoteTransferState| other.code() == response[1];
    assert(status.state.code() == response[1]);
    assert(chosen.code() == response[1]);
    assert(chosen == status.state);
}

/// Proof that a receiver may act on a transfer.
#[derive(Clone, Copy, Debug)]
pub struct TransferCredentials {
    pub offer_id: ProtocolId,
    pub file_id: ProtocolId,
    pub transfer_id: ProtocolId,
    pub capability: [u8; 32],
    pub server_nonce: [u8; 32],
    pub expires_at_millis: u64,
}

impl TransferCredentials {
    /// The bytes of credentials in a request; the lifetime is not part of them.
    pub open spec fn wire(self) -> Seq<u8> {
        self.offer_id.0@ + self.file_id.0@ + self.transfer_id.0@ + self.capability@
            + self.server_nonce@
    }

    /// Encodes credentials for a request.
    pub fn encode(self) -> (encoded: Vec<u8>)
        ensures
            encoded@ == self.wire(),
            encoded@.len() == CREDENTIALS_WIRE_LEN,
    {
        let mut encoded: Vec<u8> = Vec::new();
        bytes::append(&mut encoded, &self.offer_id.0);
        bytes::append(&mut encoded, &self.file_id.0);
        bytes::append(&mut encoded, &self.transfer_id.0);
        bytes::append(&mut encoded, &self.capability);
        bytes::append(&mut encoded, &self.server_nonce);
        assert(encoded@ =~= self.wire());
        encoded
    }

    /// The credentials that a request starts with.
    pub open spec fn at_start(request: Seq<u8>) -> TransferCredentials {
        TransferCredentials {
            offer_id: ProtocolId(bytes::spec_array_16(request, 0)),
            file_id: ProtocolId(bytes::spec_array_16(request, 16)),
            transfer_id: ProtocolId(bytes::spec_array_16(request, 32)),
            capability: bytes::spec_array_32(request, 48),
            server_nonce: bytes::spec_array_32(request, 80),
            expires_at_millis: 0,
        }
    }

    /// Decodes the credentials that a request starts with.
    pub fn decode(request: &[u8]) -> (result: Result<Self, ResponseStatus>)
        ensures
            result == if request@.len() < CREDENTIALS_WIRE_LEN {
                Err::<Self, ResponseStatus>(ResponseStatus::Invalid)
            } else {
                Ok(TransferCredentials::at_start(request@))
            },
    {
        if request.len() < CREDENTIALS_WIRE_LEN {
            return Err(ResponseStatus::Invalid);
        }
        Ok(
            TransferCredentials {
                offer_id: ProtocolId(bytes::array_16(request, 0)),
                file_id: ProtocolId(bytes::array_16(request, 16)),
                transfer_id: ProtocolId(bytes::array_16(request, 32)),
                capability: bytes::array_32(request, 48),
                server_nonce: bytes::array_32(request, 80),
                expires_at_millis: 0,
            },
        )
    }

    /// A request that starts with encoded credentials gives them back, all but the lifetime.
    pub proof fn lemma_credentials_round_trip(self, rest: Seq<u8>)
        ensures
            self.wire().len() == CREDENTIALS_WIRE_LEN,
            TransferCredentials::at_start(self.wire() + rest) == (TransferCredentials {
                expires_at_millis: 0,
                ..self
            }),
    {
        let request = self.wire() + rest;
        assert(bytes::slice_of(request, 0, 16) =~= self.offer_id.0@);
        assert(bytes::slice_of(request, 16, 16) =~= self.file_id.0@);
        assert(bytes::slice_of(request, 32, 16) =~= self.transfer_id.0@);
        assert(bytes::slice_of(request, 48, 32) =~= self.capability@);
        assert(bytes::slice_of(request, 80, 32) =~= self.server_nonce@);
        bytes::lemma_array_16(self.offer_id.0, request, 0);
        bytes::lemma_array_16(self.file_id.0, request, 16);
        bytes::lemma_array_16(self.transfer_id.0, request, 32);
        bytes::lemma_array_32(self.capability, request, 48);
        bytes::lemma_array_32(self.server_nonce, request, 80);
    }
}

/// One message of the protocol.
#[derive(Debug)]
pub struct Frame {
    pub opcode: u16,
    pub request_id: u64,
    pub payload: Vec<u8>,
}

/// The fields of a frame before its payload.
#[derive(Clone, Copy, Debug, PartialEq, Eq, Structural)]
pub struct FrameHeader {
    pub opcode: u16,
    pub request_id: u64,
    pub payload_length: usize,
}

/// The bytes of a frame.
pub open spec fn frame_bytes(opcode: u16, request_id: u64, payload: Seq<u8>) -> Seq<u8> {
    MAGIC@ + bytes::be_bytes(PROTOCOL_VERSION as nat, 2) + bytes::be_bytes(opcode as nat, 2)
        + bytes::be_bytes(request_id as nat, 8) + bytes::be_bytes(payload.len(), 4) + payload
}

/// Appends the bytes of a frame to `out`.
pub fn write_frame(out: &mut Vec<u8>, frame: &Frame) -> (result: Result<(), Failure>)
    ensures
        frame.payload@.len() > MAX_FRAME_PAYLOAD ==> result == Err::<(), Failure>(
            Failure::invalid("secure frame payload exceeds limit"),
        ) && final(out)@ == old(out)@,
        frame.payload@.len() <= MAX_FRAME_PAYLOAD ==> {
            &&& result == Ok::<(), Failure>(())
            &&& final(out)@ == old(out)@ + frame_bytes(
                frame.opcode,
                frame.request_id,
                frame.payload@,
            )
        },
{
    if frame.payload.len() > MAX_FRAME_PAYLOAD {
        return Err(Failure::invalid("secure frame payload exceeds limit"));
    }
    proof {
        bytes::lemma_capacity_values();
    }
    bytes::append(out, &MAGIC);
    bytes::put_be(out, PROTOCOL_VERSION as u64, 2);
    bytes::put_be(out, frame.opcode as u64, 2);
    bytes::put_be(out, frame.request_id, 8);
    bytes::put_be(out, frame.payload.len() as u64, 4);
    bytes::append(out, frame.payload.as_slice());
    assert(out@ =~= old(out)@ + frame_bytes(frame.opcode, frame.request_id, frame.payload@));
    Ok(())
}

/// What the twenty bytes of a header say.
pub open spec fn header_outcome(header: Seq<u8>) -> Result<FrameHeader, Failure> {
    let length = bytes::be_value(bytes::slice_of(header, 16, 4));
    if bytes::slice_of(header, 0, 4) != MAGIC@ || bytes::be_value(bytes::slice_of(header, 4, 2))
        != PROTOCOL_VERSION {
        Err(Failure::invalid("invalid secure frame magic or version"))
    } else if length > MAX_FRAME_PAYLOAD {
        Err(Failure::invalid("secure frame payload exceeds limit"))
    } else {
        Ok(
            FrameHeader {
                opcode: bytes::be_value(bytes::slice_of(header, 6, 2)) as u16,
                request_id: bytes::be_value(bytes::slice_of(header, 8, 8)) as u64,
                payload_length: length as usize,
            },
        )
    }
}

/// Decodes the header of a frame.
pub fn decode_frame_header(header: &[u8]) -> (result: Result<FrameHeader, Failure>)
    requires
        header@.len() >= FRAME_HEADER_LEN,
    ensures
        result == header_outcome(header@),
        result matches Ok(header) ==> header.payload_length <= MAX_FRAME_PAYLOAD,
{
    proof {
        bytes::lemma_capacity_values();
    }
    assert(header@.subrange(0, 4) == bytes::slice_of(header@, 0, 4));
    if !bytes::bytes_equal(&header[0..4], &MAGIC) || bytes::get_be(header, 4, 2)
        != PROTOCOL_VERSION as u64 {
        return Err(Failure::invalid("invalid secure frame magic or version"));
    }
    let length: u64 = bytes::get_be(header, 16, 4);
    if length > MAX_FRAME_PAYLOAD as u64 {
        return Err(Failure::invalid("secure frame payload exceeds limit"));
    }
    Ok(
        FrameHeader {
            opcode: bytes::get_be(header, 6, 2) as u16,
            request_id: bytes::get_be(header, 8, 8),
            payload_length: length as usize,
        },
    )
}

/// Opcode, request and payload of the frame that a byte stream starts with; nothing where the
/// stream has ended.
pub open spec fn frame_outcome(stream: Seq<u8>) -> Result<Option<(u16, u64, Seq<u8>)>, Failure> {
    if stream.len() == 0 {
        Ok(None)
    } else if stream.len() < FRAME_HEADER_LEN {
        Err(Failure::new(FailureKind::UnexpectedEof, "failed to fill whole buffer"))
    } else {
        match header_outcome(stream) {
            Err(failure) => Err(failure),
            Ok(header) => if stream.len() < FRAME_HEADER_LEN + header.payload_length {
                Err(Failure::new(FailureKind::UnexpectedEof, "failed to fill whole buffer"))
            } else {
                Ok(
                    Some(
                        (
                            header.opcode,
                            header.request_id,
                            bytes::slice_of(
                                stream,
                                FRAME_HEADER_LEN as int,
                                header.payload_length as int,
                            ),
                        ),
                    ),
                )
            },
        }
    }
}

/// Whether a frame and a number of bytes are what a byte stream starts with and how many of its
/// bytes that takes.
pub open spec fn starts_with(stream: Seq<u8>, frame: Frame, used: usize) -> bool {
    &&& frame_outcome(stream) == Ok::<Option<(u16, u64, Seq<u8>)>, Failure>(
        Some((frame.opcode, frame.request_id, frame.payload@)),
    )
    &&& used <= stream.len()
    &&& stream.take(used as int) == frame_bytes(frame.opcode, frame.request_id, frame.payload@)
}

/// Reads the frame that a byte stream starts with, if the stream holds any byte: the frame, and how
/// many bytes it takes.
pub fn read_frame_optional(stream: &[u8]) -> (result: Result<Option<(Frame, usize)>, Failure>)
    ensures
        match result {
            Err(failure) => frame_outcome(stream@) == Err::<
                Option<(u16, u64, Seq<u8>)>,
                Failure,
            >(failure),
            Ok(None) => frame_outcome(stream@) == Ok::<Option<(u16, u64, Seq<u8>)>, Failure>(None),
            Ok(Some((frame, used))) => starts_with(stream@, frame, used),
        },
{
    if stream.len() == 0 {
        return Ok(None);
    }
    if stream.len() < FRAME_HEADER_LEN {
        return Err(Failure::new(FailureKind::UnexpectedEof, "failed to fill whole buffer"));
    }
    match decode_frame_header(stream) {
        Err(failure) => Err(failure),
        Ok(header) => {
            if stream.len() - FRAME_HEADER_LEN < header.payload_length {
                return Err(Failure::new(FailureKind::UnexpectedEof, "failed to fill whole buffer"));
            }
            let payload = bytes::copy_range(stream, FRAME_HEADER_LEN, header.payload_length);
            proof {
                lemma_frame_prefix(stream@);
            }
            let used: usize = FRAME_HEADER_LEN + header.payload_length;
            let frame = Frame { opcode: header.opcode, request_id: header.request_id, payload };
            Ok(Some((frame, used)))
        },
    }
}

/// Reads the frame that a byte stream starts with: the frame, and how many bytes it takes.
pub fn read_frame(stream: &[u8]) -> (result: Result<(Frame, usize), Failure>)
    ensures
        match result {
            Err(failure) => frame_outcome(stream@) == Err::<
                Option<(u16, u64, Seq<u8>)>,
                Failure,
            >(failure) || (frame_outcome(stream@) == Ok::<
                Option<(u16, u64, Seq<u8>)>,
                Failure,
            >(None) && failure == Failure::new(
                FailureKind::UnexpectedEof,
                "secure connection closed",
            )),
            Ok((frame, used)) => starts_with(stream@, frame, used),
        },
{
    match read_frame_optional(stream) {
        Err(failure) => Err(failure),
        Ok(None) => Err(Failure::new(FailureKind::UnexpectedEof, "secure connection closed")),
        Ok(Some(read)) => Ok(read),
    }
}

/// Reading a written frame gives the frame back, whatever the stream holds after it.
pub proof fn lemma_frame_round_trip(opcode: u16, request_id: u64, payload: Seq<u8>, rest: Seq<u8>)
    requires
        payload.len() <= MAX_FRAME_PAYLOAD,
    ensures
        frame_bytes(opcode, request_id, payload).len() == FRAME_HEADER_LEN + payload.len(),
        frame_outcome(frame_bytes(opcode, request_id, payload) + rest) == Ok::<
            Option<(u16, u64, Seq<u8>)>,
            Failure,
        >(Some((opcode, request_id, payload))),
{
    bytes::lemma_capacity_values();
    bytes::lemma_be_value_of_bytes(PROTOCOL_VERSION as nat, 2);
    bytes::lemma_be_value_of_bytes(opcode as nat, 2);
    bytes::lemma_be_value_of_bytes(request_id as nat, 8);
    bytes::lemma_be_value_of_bytes(payload.len(), 4);
    let stream = frame_bytes(opcode, request_id, payload) + rest;
    assert(bytes::slice_of(stream, 0, 4) =~= MAGIC@);
    assert(bytes::slice_of(stream, 4, 2) =~= bytes::be_bytes(PROTOCOL_VERSION as nat, 2));
    assert(bytes::slice_of(stream, 6, 2) =~= bytes::be_bytes(opcode as nat, 2));
    assert(bytes::slice_of(stream, 8, 8) =~= bytes::be_bytes(request_id as nat, 8));
    assert(bytes::slice_of(stream, 16, 4) =~= bytes::be_bytes(payload.len(), 4));
    assert(bytes::slice_of(stream, 20, payload.len() as int) =~= payload);
}

/// A stream that gives a frame starts with the bytes of that frame.
pub proof fn lemma_frame_prefix(stream: Seq<u8>)
    requires
        frame_outcome(stream) matches Ok(Some(_)),
    ensures
        ({
            let frame = frame_outcome(stream)->Ok_0->0;
            let encoded = frame_bytes(frame.0, frame.1, frame.2);
            &&& frame.2.len() <= MAX_FRAME_PAYLOAD
            &&& encoded.len() == FRAME_HEADER_LEN + frame.2.len() <= stream.len()
            &&& stream.take(encoded.len() as int) == encoded
        }),
{
    let frame = frame_outcome(stream)->Ok_0->0;
    let encoded = frame_bytes(frame.0, frame.1, frame.2);
    bytes::lemma_capacity_values();
    bytes::lemma_be_bytes_of_value(bytes::slice_of(stream, 4, 2));
    bytes::lemma_be_bytes_of_value(bytes::slice_of(stream, 6, 2));
    bytes::lemma_be_bytes_of_value(bytes::slice_of(stream, 8, 8));
    bytes::lemma_be_bytes_of_value(bytes::slice_of(stream, 16, 4));
    assert(encoded =~= stream.take(encoded.len() as int)) by {
        assert(encoded =~= bytes::slice_of(stream, 0, 4) + bytes::slice_of(stream, 4, 2)
            + bytes::slice_of(stream, 6, 2) + bytes::slice_of(stream, 8, 8) + bytes::slice_of(
            stream,
            16,
            4,
        ) + frame.2);
    }
}

} // verus!
