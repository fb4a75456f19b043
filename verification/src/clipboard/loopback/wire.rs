//! The messages of the range protocol.

use crate::bytes;
use crate::clipboard::transfer::TransferControlState;
use vstd::prelude::*;

verus! {

/// First bytes of a request.
pub const REQUEST_MAGIC: [u8; 4] = [0x43, 0x46, 0x52, 0x51];

/// First bytes of a response.
pub const RESPONSE_MAGIC: [u8; 4] = [0x43, 0x46, 0x52, 0x53];

/// Version of the messages.
pub const PROTOCOL_VERSION: u8 = 1;

/// Length of a request.
pub const REQUEST_HEADER_LEN: usize = 44;

/// Length of a response before its payload.
pub const RESPONSE_HEADER_LEN: usize = 28;

/// Longest range that one request may ask for.
pub const MAX_PROTOCOL_RANGE_BYTES: usize = 1_048_576;

/// Identifier of the generated file of the loopback probe.
pub const LOOPBACK_FILE_ID: [u8; 16] = [
    0x43,
    0x6c,
    0x69,
    0x70,
    0x46,
    0x65,
    0x72,
    0x72,
    0x79,
    0x52,
    0x61,
    0x6e,
    0x67,
    0x65,
    0x30,
    0x31,
];

/// Name of the generated file of the loopback probe.
pub const LOOPBACK_TEST_FILE_NAME: &'static str = "RemoteClipboard-Loopback-Test.bin";

/// What a request asks for.
#[derive(Clone, Copy, Debug, PartialEq, Eq, Structural)]
pub enum Opcode {
    ReadRange,
    Pause,
    Resume,
    Cancel,
    Status,
}

impl Opcode {
    pub open spec fn spec_byte(self) -> u8 {
        match self {
            Opcode::ReadRange => 1,
            Opcode::Pause => 2,
            Opcode::Resume => 3,
            Opcode::Cancel => 4,
            Opcode::Status => 5,
        }
    }

    #[verifier::when_used_as_spec(spec_byte)]
    pub fn byte(self) -> (byte: u8)
        ensures
            byte == self.spec_byte(),
    {
        match self {
            Opcode::ReadRange => 1,
            Opcode::Pause => 2,
            Opcode::Resume => 3,
            Opcode::Cancel => 4,
            Opcode::Status => 5,
        }
    }

    pub open spec fn spec_from_byte(value: u8) -> Option<Opcode> {
        if value == 1 {
            Some(Opcode::ReadRange)
        } else if value == 2 {
            Some(Opcode::Pause)
        } else if value == 3 {
            Some(Opcode::Resume)
        } else if value == 4 {
            Some(Opcode::Cancel)
        } else if value == 5 {
            Some(Opcode::Status)
        } else {
            None
        }
    }

    #[verifier::when_used_as_spec(spec_from_byte)]
    pub fn from_byte(value: u8) -> (opcode: Option<Opcode>)
        ensures
            opcode == Opcode::spec_from_byte(value),
    {
        match value {
            1 => Some(Opcode::ReadRange),
            2 => Some(Opcode::Pause),
            3 => Some(Opcode::Resume),
            4 => Some(Opcode::Cancel),
            5 => Some(Opcode::Status),
            _ => None,
        }
    }
}

/// How a request ended.
#[derive(Clone, Copy, Debug, PartialEq, Eq, Structural)]
pub enum ResponseStatus {
    Success,
    InvalidRequest,
    FileNotFound,
    Cancelled,
    InternalError,
}

impl ResponseStatus {
    pub open spec fn spec_byte(self) -> u8 {
        match self {
            ResponseStatus::Success => 0,
            ResponseStatus::InvalidRequest => 1,
            ResponseStatus::FileNotFound => 2,
            ResponseStatus::Cancelled => 3,
            ResponseStatus::InternalError => 4,
        }
    }

    #[verifier::when_used_as_spec(spec_byte)]
    pub fn byte(self) -> (byte: u8)
        ensures
            byte == self.spec_byte(),
    {
        match self {
            ResponseStatus::Success => 0,
            ResponseStatus::InvalidRequest => 1,
            ResponseStatus::FileNotFound => 2,
            ResponseStatus::Cancelled => 3,
            ResponseStatus::InternalError => 4,
        }
    }

    pub open spec fn spec_from_byte(value: u8) -> Option<ResponseStatus> {
        if value == 0 {
            Some(ResponseStatus::Success)
        } else if value == 1 {
            Some(ResponseStatus::InvalidRequest)
        } else if value == 2 {
            Some(ResponseStatus::FileNotFound)
        } else if value == 3 {
            Some(ResponseStatus::Cancelled)
        } else if value == 4 {
            Some(ResponseStatus::InternalError)
        } else {
            None
        }
    }

    #[verifier::when_used_as_spec(spec_from_byte)]
    pub fn from_byte(value: u8) -> (status: Option<ResponseStatus>)
        ensures
            status == ResponseStatus::spec_from_byte(value),
    {
        match value {
            0 => Some(ResponseStatus::Success),
            1 => Some(ResponseStatus::InvalidRequest),
            2 => Some(ResponseStatus::FileNotFound),
            3 => Some(ResponseStatus::Cancelled),
            4 => Some(ResponseStatus::InternalError),
            _ => None,
        }
    }
}

pub open spec fn spec_state_byte(state: TransferControlState) -> u8 {
    match state {
        TransferControlState::Running => 0,
        TransferControlState::Paused => 1,
        TransferControlState::Cancelled => 2,
    }
}

/// The byte of a state.
#[verifier::when_used_as_spec(spec_state_byte)]
pub fn state_byte(state: TransferControlState) -> (byte: u8)
    ensures
        byte == spec_state_byte(state),
{
    match state {
        TransferControlState::Running => 0,
        TransferControlState::Paused => 1,
        TransferControlState::Cancelled => 2,
    }
}

pub open spec fn spec_state_from_byte(value: u8) -> Option<TransferControlState> {
    if value == 0 {
        Some(TransferControlState::Running)
    } else if value == 1 {
        Some(TransferControlState::Paused)
    } else if value == 2 {
        Some(TransferControlState::Cancelled)
    } else {
        None
    }
}

/// The state of a byte.
#[verifier::when_used_as_spec(spec_state_from_byte)]
pub fn state_from_byte(value: u8) -> (state: Option<TransferControlState>)
    ensures
        state == spec_state_from_byte(value),
{
    match value {
        0 => Some(TransferControlState::Running),
        1 => Some(TransferControlState::Paused),
        2 => Some(TransferControlState::Cancelled),
        _ => None,
    }
}

/// A request.
#[derive(Clone, Copy, Debug)]
pub struct RequestHeader {
    pub opcode: Opcode,
    pub request_id: u64,
    pub file_id: [u8; 16],
    pub offset: u64,
    pub length: u32,
}

/// A response before its payload.
#[derive(Clone, Copy, Debug, PartialEq, Eq, Structural)]
pub struct ResponseHeader {
    pub status: ResponseStatus,
    pub state: TransferControlState,
    pub request_id: u64,
    pub total_length: u64,
    pub payload_length: u32,
}

impl RequestHeader {
    /// The bytes of the request.
    pub open spec fn wire(self) -> Seq<u8> {
        REQUEST_MAGIC@ + seq![PROTOCOL_VERSION, self.opcode.byte(), 0, 0] + bytes::be_bytes(
            self.request_id as nat,
            8,
        ) + self.file_id@ + bytes::be_bytes(self.offset as nat, 8) + bytes::be_bytes(
            self.length as nat,
            4,
        )
    }

    /// The request that bytes spell.
    pub open spec fn at_start(input: Seq<u8>) -> Option<RequestHeader> {
        match Opcode::from_byte(input[5]) {
            Some(opcode) => if bytes::slice_of(input, 0, 4) == REQUEST_MAGIC@ && input[4]
                == PROTOCOL_VERSION {
                Some(
                    RequestHeader {
                        opcode,
                        request_id: bytes::be_value(bytes::slice_of(input, 8, 8)) as u64,
                        file_id: bytes::spec_array_16(input, 16),
                        offset: bytes::be_value(bytes::slice_of(input, 32, 8)) as u64,
                        length: bytes::be_value(bytes::slice_of(input, 40, 4)) as u32,
                    },
                )
            } else {
                None
            },
            None => None,
        }
    }

    pub fn encode(self) -> (out: Vec<u8>)
        ensures
            out@ == self.wire(),
            out@.len() == REQUEST_HEADER_LEN,
    {
        proof {
            bytes::lemma_capacity_values();
            bytes::lemma_be_bytes_len(self.request_id as nat, 8);
            bytes::lemma_be_bytes_len(self.offset as nat, 8);
            bytes::lemma_be_bytes_len(self.length as nat, 4);
        }
        let mut out: Vec<u8> = Vec::new();
        bytes::append(&mut out, &REQUEST_MAGIC);
        out.push(PROTOCOL_VERSION);
        out.push(self.opcode.byte());
        out.push(0);
        out.push(0);
        bytes::put_be(&mut out, self.request_id, 8);
        bytes::append(&mut out, &self.file_id);
        bytes::put_be(&mut out, self.offset, 8);
        bytes::put_be(&mut out, self.length as u64, 4);
        assert(out@ =~= self.wire());
        out
    }

    pub fn decode(input: &[u8]) -> (request: Option<RequestHeader>)
        requires
            input@.len() == REQUEST_HEADER_LEN,
        ensures
            request == RequestHeader::at_start(input@),
    {
        proof {
            bytes::lemma_capacity_values();
        }
        assert(input@.subrange(0, 4) == bytes::slice_of(input@, 0, 4));
        if !bytes::bytes_equal(&input[0..4], &REQUEST_MAGIC) || input[4] != PROTOCOL_VERSION {
            return None;
        }
        let opcode = match Opcode::from_byte(input[5]) {
            Some(opcode) => opcode,
            None => {
                return None;
            },
        };
        Some(
            RequestHeader {
                opcode,
                request_id: bytes::get_be(input, 8, 8),
                file_id: bytes::array_16(input, 16),
                offset: bytes::get_be(input, 32, 8),
                length: bytes::get_be(input, 40, 4) as u32,
            },
        )
    }

    /// A request reads back from its bytes.
    pub proof fn lemma_request_round_trip(self)
        ensures
            self.wire().len() == REQUEST_HEADER_LEN,
            RequestHeader::at_start(self.wire()) == Some(self),
    {
        let input = self.wire();
        bytes::lemma_capacity_values();
        bytes::lemma_be_value_of_bytes(self.request_id as nat, 8);
        bytes::lemma_be_value_of_bytes(self.offset as nat, 8);
        bytes::lemma_be_value_of_bytes(self.length as nat, 4);
        assert(bytes::slice_of(input, 0, 4) =~= REQUEST_MAGIC@);
        assert(bytes::slice_of(input, 8, 8) =~= bytes::be_bytes(self.request_id as nat, 8));
        assert(bytes::slice_of(input, 16, 16) =~= self.file_id@);
        assert(bytes::slice_of(input, 32, 8) =~= bytes::be_bytes(self.offset as nat, 8));
        assert(bytes::slice_of(input, 40, 4) =~= bytes::be_bytes(self.length as nat, 4));
        bytes::lemma_array_16(self.file_id, input, 16);
    }
}

impl ResponseHeader {
    /// The bytes of the response.
    pub open spec fn wire(self) -> Seq<u8> {
        RESPONSE_MAGIC@ + seq![
            PROTOCOL_VERSION,
            self.status.byte(),
            state_byte(self.state),
            0,
        ] + bytes::be_bytes(self.request_id as nat, 8) + bytes::be_bytes(
            self.total_length as nat,
            8,
        ) + bytes::be_bytes(self.payload_length as nat, 4)
    }

    /// The response that bytes spell.
    pub open spec fn at_start(input: Seq<u8>) -> Option<ResponseHeader> {
        match (ResponseStatus::from_byte(input[5]), state_from_byte(input[6])) {
            (Some(status), Some(state)) => if bytes::slice_of(input, 0, 4) == RESPONSE_MAGIC@
                && input[4] == PROTOCOL_VERSION {
                Some(
                    ResponseHeader {
                        status,
                        state,
                        request_id: bytes::be_value(bytes::slice_of(input, 8, 8)) as u64,
                        total_length: bytes::be_value(bytes::slice_of(input, 16, 8)) as u64,
                        payload_length: bytes::be_value(bytes::slice_of(input, 24, 4)) as u32,
                    },
                )
            } else {
                None
            },
            _ => None,
        }
    }

    pub fn encode(self) -> (out: Vec<u8>)
        ensures
            out@ == self.wire(),
            out@.len() == RESPONSE_HEADER_LEN,
    {
        proof {
            bytes::lemma_capacity_values();
            bytes::lemma_be_bytes_len(self.request_id as nat, 8);
            bytes::lemma_be_bytes_len(self.total_length as nat, 8);
            bytes::lemma_be_bytes_len(self.payload_length as nat, 4);
        }
        let mut out: Vec<u8> = Vec::new();
        bytes::append(&mut out, &RESPONSE_MAGIC);
        out.push(PROTOCOL_VERSION);
        out.push(self.status.byte());
        out.push(state_byte(self.state));
        out.push(0);
        bytes::put_be(&mut out, self.request_id, 8);
        bytes::put_be(&mut out, self.total_length, 8);
        bytes::put_be(&mut out, self.payload_length as u64, 4);
        assert(out@ =~= self.wire());
        out
    }

    pub fn decode(input: &[u8]) -> (response: Option<ResponseHeader>)
        requires
            input@.len() == RESPONSE_HEADER_LEN,
        ensures
            response == ResponseHeader::at_start(input@),
    {
        proof {
            bytes::lemma_capacity_values();
        }
        assert(input@.subrange(0, 4) == bytes::slice_of(input@, 0, 4));
        if !bytes::bytes_equal(&input[0..4], &RESPONSE_MAGIC) || input[4] != PROTOCOL_VERSION {
            return None;
        }
        match (ResponseStatus::from_byte(input[5]), state_from_byte(input[6])) {
            (Some(status), Some(state)) => Some(
                ResponseHeader {
                    status,
                    state,
                    request_id: bytes::get_be(input, 8, 8),
                    total_length: bytes::get_be(input, 16, 8),
                    payload_length: bytes::get_be(input, 24, 4) as u32,
                },
            ),
            _ => None,
        }
    }

    /// A response reads back from its bytes.
    pub proof fn lemma_response_round_trip(self)
        ensures
            self.wire().len() == RESPONSE_HEADER_LEN,
            ResponseHeader::at_start(self.wire()) == Some(self),
    {
        let input = self.wire();
        bytes::lemma_capacity_values();
        bytes::lemma_be_value_of_bytes(self.request_id as nat, 8);
        bytes::lemma_be_value_of_bytes(self.total_length as nat, 8);
        bytes::lemma_be_value_of_bytes(self.payload_length as nat, 4);
        assert(bytes::slice_of(input, 0, 4) =~= RESPONSE_MAGIC@);
        assert(bytes::slice_of(input, 8, 8) =~= bytes::be_bytes(self.request_id as nat, 8));
        assert(bytes::slice_of(input, 16, 8) =~= bytes::be_bytes(self.total_length as nat, 8));
        assert(bytes::slice_of(input, 24, 4) =~= bytes::be_bytes(self.payload_length as nat, 4));
    }
}

} // verus!
