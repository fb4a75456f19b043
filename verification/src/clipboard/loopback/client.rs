//! The side that reads ranges.

use super::server::{LoopbackView, RangeStep, ServerStep};
use super::wire::{
    Opcode, RequestHeader, ResponseHeader, ResponseStatus, MAX_PROTOCOL_RANGE_BYTES,
    RESPONSE_HEADER_LEN,
};
use crate::address::Endpoint;
use crate::clipboard::hresult::{
    HResult, CANCELLED, CONNECTION_ABORTED, E_INVALIDARG, E_UNEXPECTED, FILE_NOT_FOUND,
    INVALID_DATA, TIMEOUT,
};
use crate::clipboard::transfer;
use crate::clipboard::transfer::{ChunkWait, TransferControlState};
use crate::counter;
use crate::counter::count;
use crate::failure::FailureKind;
use vstd::prelude::*;

verus! {

/// Content that is read in ranges from a server of this device. Times are in nanoseconds.
#[derive(Clone, Copy, Debug)]
pub struct TcpRangeSource {
    pub address: Endpoint,
    pub file_id: [u8; 16],
    pub length: u64,
    pub max_request_bytes: usize,
    pub connect_timeout: u64,
    pub io_timeout: u64,
    pub next_request_id: u64,
}

/// The code of a failure of the connection.
pub fn io_error(kind: FailureKind) -> (code: HResult)
    ensures
        code == (match kind {
            FailureKind::TimedOut | FailureKind::WouldBlock => TIMEOUT,
            FailureKind::InvalidData | FailureKind::InvalidInput => INVALID_DATA,
            _ => CONNECTION_ABORTED,
        }),
{
    match kind {
        FailureKind::TimedOut | FailureKind::WouldBlock => TIMEOUT,
        FailureKind::InvalidData | FailureKind::InvalidInput => INVALID_DATA,
        _ => CONNECTION_ABORTED,
    }
}

/// The least of three numbers.
pub open spec fn least(first: int, second: int, third: int) -> int {
    let smaller = if first < second {
        first
    } else {
        second
    };
    if smaller < third {
        smaller
    } else {
        third
    }
}

impl TcpRangeSource {
    /// Whether the bounds of a source make sense: it reads from this device only.
    pub open spec fn valid(self) -> bool {
        &&& self.address.ip.spec_loopback()
        &&& 0 < self.max_request_bytes <= MAX_PROTOCOL_RANGE_BYTES
        &&& self.connect_timeout > 0
        &&& self.io_timeout > 0
    }

    pub fn new(
        address: Endpoint,
        file_id: [u8; 16],
        length: u64,
        max_request_bytes: usize,
        connect_timeout: u64,
        io_timeout: u64,
    ) -> (result: Result<Self, HResult>)
        ensures
            ({
                let source = TcpRangeSource {
                    address,
                    file_id,
                    length,
                    max_request_bytes,
                    connect_timeout,
                    io_timeout,
                    next_request_id: 1,
                };
                result == if source.valid() {
                    Ok::<TcpRangeSource, HResult>(source)
                } else {
                    Err(E_INVALIDARG)
                }
            }),
    {
        if !address.ip.is_loopback() || max_request_bytes == 0 || max_request_bytes
            > MAX_PROTOCOL_RANGE_BYTES || connect_timeout == 0 || io_timeout == 0 {
            return Err(E_INVALIDARG);
        }
        Ok(
            TcpRangeSource {
                address,
                file_id,
                length,
                max_request_bytes,
                connect_timeout,
                io_timeout,
                next_request_id: 1,
            },
        )
    }

    /// The next request.
    pub fn next_request(&mut self, opcode: Opcode, offset: u64, length: u32) -> (request:
        RequestHeader)
        ensures
            request == (RequestHeader {
                opcode,
                request_id: old(self).next_request_id,
                file_id: old(self).file_id,
                offset,
                length,
            }),
            *final(self) == (TcpRangeSource {
                next_request_id: counter::counted(old(self).next_request_id, 1),
                ..*old(self)
            }),
    {
        let request_id: u64 = self.next_request_id;
        self.next_request_id = count(request_id);
        RequestHeader { opcode, request_id, file_id: self.file_id, offset, length }
    }

    /// The request by which a read starts; none where there is nothing to read.
    pub fn start_read(&mut self, offset: u64, wanted: usize) -> (request: Option<RequestHeader>)
        requires
            old(self).valid(),
        ensures
            if wanted == 0 || offset >= old(self).length {
                request is None && *final(self) == *old(self)
            } else {
                &&& request == Some(
                    RequestHeader {
                        opcode: Opcode::ReadRange,
                        request_id: old(self).next_request_id,
                        file_id: old(self).file_id,
                        offset,
                        length: least(
                            wanted as int,
                            old(self).max_request_bytes as int,
                            old(self).length - offset,
                        ) as u32,
                    },
                )
                &&& *final(self) == (TcpRangeSource {
                    next_request_id: counter::counted(old(self).next_request_id, 1),
                    ..*old(self)
                })
            },
    {
        if wanted == 0 || offset >= self.length {
            return None;
        }
        let available: u64 = self.length - offset;
        let bounded: usize = if wanted < self.max_request_bytes {
            wanted
        } else {
            self.max_request_bytes
        };
        let length: u32 = if (bounded as u64) < available {
            bounded as u32
        } else {
            available as u32
        };
        Some(self.next_request(Opcode::ReadRange, offset, length))
    }

    /// What the answer to a request says.
    pub open spec fn answer(self, request_id: u64, header: Seq<u8>) -> Result<
        ResponseHeader,
        HResult,
    > {
        match ResponseHeader::at_start(header) {
            None => Err(INVALID_DATA),
            Some(response) => if response.request_id != request_id || response.total_length
                != self.length {
                Err(INVALID_DATA)
            } else {
                match response.status {
                    ResponseStatus::Success => Ok(response),
                    ResponseStatus::InvalidRequest => Err(E_INVALIDARG),
                    ResponseStatus::FileNotFound => Err(FILE_NOT_FOUND),
                    ResponseStatus::Cancelled => Err(CANCELLED),
                    ResponseStatus::InternalError => Err(E_UNEXPECTED),
                }
            },
        }
    }

    /// Takes the answer to a request.
    pub fn take_answer(&self, request_id: u64, header: &[u8]) -> (result: Result<
        ResponseHeader,
        HResult,
    >)
        requires
            header@.len() == RESPONSE_HEADER_LEN,
        ensures
            result == self.answer(request_id, header@),
    {
        let response = match ResponseHeader::decode(header) {
            None => {
                return Err(INVALID_DATA);
            },
            Some(response) => response,
        };
        if response.request_id != request_id || response.total_length != self.length {
            return Err(INVALID_DATA);
        }
        match response.status {
            ResponseStatus::Success => Ok(response),
            ResponseStatus::InvalidRequest => Err(E_INVALIDARG),
            ResponseStatus::FileNotFound => Err(FILE_NOT_FOUND),
            ResponseStatus::Cancelled => Err(CANCELLED),
            ResponseStatus::InternalError => Err(E_UNEXPECTED),
        }
    }

    /// How many bytes of payload follow the answer to a read; there must be some, and no more
    /// than were asked for.
    pub fn payload_of(response: ResponseHeader, request: RequestHeader) -> (result: Result<
        u32,
        HResult,
    >)
        ensures
            result == if 0 < response.payload_length <= request.length {
                Ok::<u32, HResult>(response.payload_length)
            } else {
                Err(INVALID_DATA)
            },
    {
        if response.payload_length == 0 || response.payload_length > request.length {
            return Err(INVALID_DATA);
        }
        Ok(response.payload_length)
    }

    /// The state that the answer to a control request tells; it has no payload.
    pub fn state_of(response: ResponseHeader) -> (result: Result<TransferControlState, HResult>)
        ensures
            result == if response.payload_length == 0 {
                Ok::<TransferControlState, HResult>(response.state)
            } else {
                Err(INVALID_DATA)
            },
    {
        if response.payload_length != 0 {
            return Err(INVALID_DATA);
        }
        Ok(response.state)
    }
}

/// A client that controls what is served. The answer to each of its requests tells the state.
#[derive(Debug)]
pub struct LoopbackControlClient {
    pub source: TcpRangeSource,
}

impl LoopbackControlClient {
    pub fn new(source: TcpRangeSource) -> (client: Self)
        ensures
            client.source == source,
    {
        LoopbackControlClient { source }
    }

    /// The request with an opcode that the client sends next.
    pub open spec fn command(self, opcode: Opcode) -> RequestHeader {
        RequestHeader {
            opcode,
            request_id: self.source.next_request_id,
            file_id: self.source.file_id,
            offset: 0,
            length: 0,
        }
    }

    /// The client once a request was numbered.
    pub open spec fn numbered(self) -> LoopbackControlClient {
        LoopbackControlClient {
            source: TcpRangeSource {
                next_request_id: counter::counted(self.source.next_request_id, 1),
                ..self.source
            },
        }
    }

    /// The request that pauses what is served.
    pub fn pause(&mut self) -> (request: RequestHeader)
        ensures
            request == old(self).command(Opcode::Pause),
            *final(self) == old(self).numbered(),
    {
        self.source.next_request(Opcode::Pause, 0, 0)
    }

    /// The request that resumes what is served.
    pub fn resume(&mut self) -> (request: RequestHeader)
        ensures
            request == old(self).command(Opcode::Resume),
            *final(self) == old(self).numbered(),
    {
        self.source.next_request(Opcode::Resume, 0, 0)
    }

    /// The request that cancels what is served.
    pub fn cancel(&mut self) -> (request: RequestHeader)
        ensures
            request == old(self).command(Opcode::Cancel),
            *final(self) == old(self).numbered(),
    {
        self.source.next_request(Opcode::Cancel, 0, 0)
    }

    /// The request that asks for the state.
    pub fn state(&mut self) -> (request: RequestHeader)
        ensures
            request == old(self).command(Opcode::Status),
            *final(self) == old(self).numbered(),
    {
        self.source.next_request(Opcode::Status, 0, 0)
    }
}

/// A read of a range gives exactly the bytes of the content at its offset: the server serves
/// what the client asks for, and the client takes what the server sends.
pub proof fn lemma_range_round_trip(
    source: TcpRangeSource,
    server: LoopbackView,
    request: RequestHeader,
    timed_out: bool,
)
    requires
        source.length == server.config.length,
        request.opcode is ReadRange,
        request.file_id == server.config.file_id,
        0 < request.length <= server.config.max_range_bytes,
        request.offset + request.length <= source.length,
        server.control.waiting(server.config.range_delay, timed_out) == ChunkWait::Proceed,
    ensures
        ({
            let (begun, first) = server.handled(request.wire());
            let (_, second) = begun.polled(request, timed_out);
            &&& first == ServerStep::Serve { request }
            &&& second matches RangeStep::Send { response } && {
                &&& source.answer(request.request_id, response.wire()) == Ok::<
                    ResponseHeader,
                    HResult,
                >(response)
                &&& response.payload_length == request.length
                &&& begun.payload(request) == transfer::generated(
                    request.offset,
                    request.length as nat,
                )
            }
        }),
{
    request.lemma_request_round_trip();
    let (begun, _) = server.handled(request.wire());
    let response = begun.response_for(
        request.request_id,
        ResponseStatus::Success,
        begun.payload_length(request),
    );
    response.lemma_response_round_trip();
}

/// A control request changes the state as asked, and the client learns the new state. A
/// cancelled transfer stays cancelled.
pub proof fn lemma_control_round_trip(
    source: TcpRangeSource,
    server: LoopbackView,
    request: RequestHeader,
)
    requires
        source.length == server.config.length,
        request.opcode !is ReadRange,
        request.file_id == server.config.file_id,
    ensures
        ({
            let (after, step) = server.handled(request.wire());
            &&& step matches ServerStep::Reply { response } && {
                &&& source.answer(request.request_id, response.wire()) == Ok::<
                    ResponseHeader,
                    HResult,
                >(response)
                &&& response.payload_length == 0
                &&& response.state == after.control.state
            }
            &&& server.control.state is Cancelled ==> after.control.state is Cancelled
            &&& request.opcode is Cancel ==> after.control.state is Cancelled
            &&& (after.counters, after.coverage) == (server.counters, server.coverage)
        }),
{
    request.lemma_request_round_trip();
    let (after, _) = server.handled(request.wire());
    let response = after.response_for(request.request_id, ResponseStatus::Success, 0);
    response.lemma_response_round_trip();
}

} // verus!
