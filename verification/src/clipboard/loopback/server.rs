//! The side that serves ranges.

use super::wire::{
    Opcode, RequestHeader, ResponseHeader, ResponseStatus, MAX_PROTOCOL_RANGE_BYTES,
    REQUEST_HEADER_LEN,
};
use crate::bytes;
use crate::clipboard::coverage;
use crate::clipboard::coverage::{CoverageView, RangeCoverage, MAX_TRACKED_RANGES};
use crate::clipboard::hresult::{HResult, E_INVALIDARG};
use crate::clipboard::transfer;
use crate::clipboard::transfer::{generated_byte, ChunkWait, TransferControl};
use crate::counter;
use crate::counter::count;
use vstd::prelude::*;

verus! {

/// Connections that are served at a time unless configured otherwise.
pub const DEFAULT_MAX_WORKERS: usize = 32;

/// Most connections that may be configured to be served at a time.
pub const MAX_CONFIGURED_WORKERS: usize = 256;

/// What is served, and within which bounds. Times are in nanoseconds.
#[derive(Clone, Copy, Debug)]
pub struct LoopbackServerConfig {
    pub length: u64,
    pub file_id: [u8; 16],
    pub max_range_bytes: usize,
    pub fragment_bytes: usize,
    pub range_delay: u64,
    pub socket_timeout: u64,
    pub max_workers: usize,
}

impl LoopbackServerConfig {
    /// Whether every bound makes sense.
    pub open spec fn valid(self) -> bool {
        &&& 0 < self.fragment_bytes <= self.max_range_bytes <= MAX_PROTOCOL_RANGE_BYTES
        &&& self.socket_timeout > 0
        &&& 0 < self.max_workers <= MAX_CONFIGURED_WORKERS
    }
}

/// Checks the bounds of a configuration.
pub fn validate_server_config(config: LoopbackServerConfig) -> (result: Result<(), HResult>)
    ensures
        result == if config.valid() {
            Ok::<(), HResult>(())
        } else {
            Err(E_INVALIDARG)
        },
{
    if config.max_range_bytes == 0 || config.fragment_bytes == 0 || config.fragment_bytes
        > config.max_range_bytes || config.max_range_bytes > MAX_PROTOCOL_RANGE_BYTES
        || config.socket_timeout == 0 || config.max_workers == 0 || config.max_workers
        > MAX_CONFIGURED_WORKERS {
        return Err(E_INVALIDARG);
    }
    Ok(())
}

/// The events of a server.
#[derive(Clone, Copy, Debug, PartialEq, Eq, Structural)]
pub struct LoopbackCounters {
    pub connections: u64,
    pub read_requests: u64,
    pub served_bytes: u64,
    pub protocol_errors: u64,
    pub active_reads: u64,
    pub max_concurrent_reads: u64,
}

/// The events of a server together with the progress of its ranges.
#[derive(Clone, Copy, Debug, PartialEq, Eq, Structural)]
pub struct LoopbackMetricsSnapshot {
    pub connections: u64,
    pub read_requests: u64,
    pub served_bytes: u64,
    pub unique_bytes: u64,
    pub retained_ranges: usize,
    pub coverage_saturated: bool,
    pub protocol_errors: u64,
    pub max_concurrent_reads: u64,
}

impl LoopbackCounters {
    /// The events once a read of a range began.
    pub open spec fn read_begun(self) -> LoopbackCounters {
        let current = counter::counted(self.active_reads, 1);
        LoopbackCounters {
            read_requests: counter::counted(self.read_requests, 1),
            active_reads: current,
            max_concurrent_reads: if current > self.max_concurrent_reads {
                current
            } else {
                self.max_concurrent_reads
            },
            ..self
        }
    }

    /// The events once a read of a range is over.
    pub open spec fn read_over(self) -> LoopbackCounters {
        LoopbackCounters {
            active_reads: if self.active_reads == 0 {
                u64::MAX
            } else {
                (self.active_reads - 1) as u64
            },
            ..self
        }
    }
}

/// A server.
#[derive(Debug)]
pub struct LoopbackServer {
    config: LoopbackServerConfig,
    control: TransferControl,
    counters: LoopbackCounters,
    coverage: RangeCoverage,
    workers: usize,
}

/// What a server holds.
#[verifier::ext_equal]
pub struct LoopbackView {
    pub config: LoopbackServerConfig,
    pub control: TransferControl,
    pub counters: LoopbackCounters,
    pub coverage: CoverageView,
    pub workers: nat,
}

/// What a server does with a request.
#[derive(Clone, Copy, Debug)]
pub enum ServerStep {
    /// Send this response without a payload.
    Reply { response: ResponseHeader },
    /// Serve the range, once its turn has come.
    Serve { request: RequestHeader },
}

/// What a server does with a range that it is to serve.
#[derive(Clone, Copy, Debug)]
pub enum RangeStep {
    /// Wait as told, and ask again.
    Wait { wait: ChunkWait },
    /// Send this response without a payload.
    Refuse { response: ResponseHeader },
    /// Send this response and then the payload.
    Send { response: ResponseHeader },
}

impl LoopbackView {
    /// The response to a request.
    pub open spec fn response_for(
        self,
        request_id: u64,
        status: ResponseStatus,
        payload_length: u32,
    ) -> ResponseHeader {
        ResponseHeader {
            status,
            state: self.control.state,
            request_id,
            total_length: self.config.length,
            payload_length,
        }
    }

    /// A server that has met nobody.
    pub open spec fn fresh(config: LoopbackServerConfig) -> LoopbackView {
        LoopbackView {
            config,
            control: TransferControl::fresh(),
            counters: LoopbackCounters {
                connections: 0,
                read_requests: 0,
                served_bytes: 0,
                protocol_errors: 0,
                active_reads: 0,
                max_concurrent_reads: 0,
            },
            coverage: CoverageView::nothing(),
            workers: 0,
        }
    }

    /// The server once somebody connected, and whether it works on the connection.
    pub open spec fn connected(self) -> (LoopbackView, bool) {
        let counted = LoopbackCounters {
            connections: counter::counted(self.counters.connections, 1),
            ..self.counters
        };
        if self.workers >= self.config.max_workers {
            (
                LoopbackView {
                    counters: LoopbackCounters {
                        protocol_errors: counter::counted(counted.protocol_errors, 1),
                        ..counted
                    },
                    ..self
                },
                false,
            )
        } else {
            (LoopbackView { counters: counted, workers: self.workers + 1, ..self }, true)
        }
    }

    /// The server once a request arrived, and what it does with it.
    pub open spec fn handled(self, header: Seq<u8>) -> (LoopbackView, ServerStep) {
        match RequestHeader::at_start(header) {
            None => (
                self,
                ServerStep::Reply {
                    response: self.response_for(0, ResponseStatus::InvalidRequest, 0),
                },
            ),
            Some(request) => if request.file_id != self.config.file_id {
                (
                    self,
                    ServerStep::Reply {
                        response: self.response_for(
                            request.request_id,
                            ResponseStatus::FileNotFound,
                            0,
                        ),
                    },
                )
            } else if request.opcode is ReadRange {
                if request.length > self.config.max_range_bytes {
                    (
                        self,
                        ServerStep::Reply {
                            response: self.response_for(
                                request.request_id,
                                ResponseStatus::InvalidRequest,
                                0,
                            ),
                        },
                    )
                } else {
                    (
                        LoopbackView { counters: self.counters.read_begun(), ..self },
                        ServerStep::Serve { request },
                    )
                }
            } else {
                let after = LoopbackView {
                    control: match request.opcode {
                        Opcode::Pause => self.control.paused(),
                        Opcode::Resume => self.control.resumed(),
                        Opcode::Cancel => self.control.cancelled(),
                        _ => self.control,
                    },
                    ..self
                };
                (
                    after,
                    ServerStep::Reply {
                        response: after.response_for(
                            request.request_id,
                            ResponseStatus::Success,
                            0,
                        ),
                    },
                )
            },
        }
    }

    /// How many bytes of a requested range there are.
    pub open spec fn payload_length(self, request: RequestHeader) -> u32 {
        if request.offset >= self.config.length {
            0
        } else if self.config.length - request.offset < request.length {
            (self.config.length - request.offset) as u32
        } else {
            request.length
        }
    }

    /// The bytes of a requested range.
    pub open spec fn payload(self, request: RequestHeader) -> Seq<u8> {
        transfer::generated(request.offset, self.payload_length(request) as nat)
    }

    /// The server once the turn of a range was asked for, and what it does with the range.
    pub open spec fn polled(self, request: RequestHeader, timed_out: bool) -> (
        LoopbackView,
        RangeStep,
    ) {
        let wait = self.control.waiting(self.config.range_delay, timed_out);
        match wait {
            ChunkWait::Proceed => (
                self,
                RangeStep::Send {
                    response: self.response_for(
                        request.request_id,
                        ResponseStatus::Success,
                        self.payload_length(request),
                    ),
                },
            ),
            ChunkWait::Cancelled => (
                LoopbackView { counters: self.counters.read_over(), ..self },
                RangeStep::Refuse {
                    response: self.response_for(request.request_id, ResponseStatus::Cancelled, 0),
                },
            ),
            _ => (self, RangeStep::Wait { wait }),
        }
    }

    /// The server once it has sent the payload of a range.
    pub open spec fn served(self, request: RequestHeader) -> LoopbackView {
        let length = self.payload_length(request);
        let counted = LoopbackCounters {
            served_bytes: counter::counted(self.counters.served_bytes, length as nat),
            ..self.counters
        };
        LoopbackView {
            control: self.control.served(length as nat),
            counters: counted.read_over(),
            coverage: self.coverage.noted(request.offset, length as u64),
            ..self
        }
    }
}

impl View for LoopbackServer {
    type V = LoopbackView;

    closed spec fn view(&self) -> LoopbackView {
        LoopbackView {
            config: self.config,
            control: self.control,
            counters: self.counters,
            coverage: self.coverage@,
            workers: self.workers as nat,
        }
    }
}

impl LoopbackServer {
    /// Whether the server is configured sensibly and works on no more connections than it may.
    pub closed spec fn wf(&self) -> bool {
        &&& self.config.valid()
        &&& self.coverage.wf()
        &&& self.workers <= self.config.max_workers
    }

    /// The bounds that hold of every server.
    pub proof fn lemma_bounds(&self)
        requires
            self.wf(),
        ensures
            self@.config.valid(),
            self@.coverage.consistent(),
            self@.workers <= self@.config.max_workers,
    {
        self.coverage.lemma_consistent();
    }

    /// A server for a configuration, if its bounds make sense.
    pub fn start(config: LoopbackServerConfig) -> (result: Result<Self, HResult>)
        ensures
            match result {
                Ok(server) => config.valid() && server.wf() && server@ == LoopbackView::fresh(
                    config,
                ),
                Err(code) => !config.valid() && code == E_INVALIDARG,
            },
    {
        match validate_server_config(config) {
            Err(code) => {
                return Err(code);
            },
            Ok(_) => {},
        }
        Ok(
            LoopbackServer {
                config,
                control: TransferControl::new(),
                counters: LoopbackCounters {
                    connections: 0,
                    read_requests: 0,
                    served_bytes: 0,
                    protocol_errors: 0,
                    active_reads: 0,
                    max_concurrent_reads: 0,
                },
                coverage: RangeCoverage::new(),
                workers: 0,
            },
        )
    }

    /// Counts a connection; whether there is a worker for it.
    pub fn accept_connection(&mut self) -> (accepted: bool)
        requires
            old(self).wf(),
        ensures
            final(self).wf(),
            (final(self)@, accepted) == old(self)@.connected(),
    {
        self.counters.connections = count(self.counters.connections);
        if self.workers >= self.config.max_workers {
            self.counters.protocol_errors = count(self.counters.protocol_errors);
            return false;
        }
        self.workers += 1;
        true
    }

    /// Notes that a worker is done with its connection, and whether it failed.
    pub fn end_connection(&mut self, failed: bool)
        requires
            old(self).wf(),
        ensures
            final(self).wf(),
            final(self)@ == (LoopbackView {
                workers: if old(self)@.workers == 0 {
                    0
                } else {
                    (old(self)@.workers - 1) as nat
                },
                counters: LoopbackCounters {
                    protocol_errors: if failed {
                        counter::counted(old(self)@.counters.protocol_errors, 1)
                    } else {
                        old(self)@.counters.protocol_errors
                    },
                    ..old(self)@.counters
                },
                ..old(self)@
            }),
    {
        if failed {
            self.counters.protocol_errors = count(self.counters.protocol_errors);
        }
        if self.workers > 0 {
            self.workers -= 1;
        }
    }

    fn response_for(
        &self,
        request_id: u64,
        status: ResponseStatus,
        payload_length: u32,
    ) -> (response: ResponseHeader)
        ensures
            response == self@.response_for(request_id, status, payload_length),
    {
        ResponseHeader {
            status,
            state: self.control.state(),
            request_id,
            total_length: self.config.length,
            payload_length,
        }
    }

    /// Handles a request.
    pub fn handle_request(&mut self, header: &[u8]) -> (step: ServerStep)
        requires
            old(self).wf(),
            header@.len() == REQUEST_HEADER_LEN,
        ensures
            final(self).wf(),
            (final(self)@, step) == old(self)@.handled(header@),
    {
        let request = match RequestHeader::decode(header) {
            None => {
                return ServerStep::Reply {
                    response: self.response_for(0, ResponseStatus::InvalidRequest, 0),
                };
            },
            Some(request) => request,
        };
        let same = bytes::bytes_equal(&request.file_id, &self.config.file_id);
        proof {
            if same {
                assert(request.file_id =~= self.config.file_id);
            }
        }
        if !same {
            return ServerStep::Reply {
                response: self.response_for(request.request_id, ResponseStatus::FileNotFound, 0),
            };
        }
        match request.opcode {
            Opcode::ReadRange => {
                if request.length as usize > self.config.max_range_bytes {
                    return ServerStep::Reply {
                        response: self.response_for(
                            request.request_id,
                            ResponseStatus::InvalidRequest,
                            0,
                        ),
                    };
                }
                self.counters.read_requests = count(self.counters.read_requests);
                let current: u64 = count(self.counters.active_reads);
                self.counters.active_reads = current;
                if current > self.counters.max_concurrent_reads {
                    self.counters.max_concurrent_reads = current;
                }
                return ServerStep::Serve { request };
            },
            Opcode::Pause => {
                let _ = self.control.pause();
            },
            Opcode::Resume => {
                let _ = self.control.resume();
            },
            Opcode::Cancel => {
                let _ = self.control.cancel();
            },
            Opcode::Status => {},
        }
        ServerStep::Reply {
            response: self.response_for(request.request_id, ResponseStatus::Success, 0),
        }
    }

    fn payload_length(&self, request: RequestHeader) -> (length: u32)
        ensures
            length == self@.payload_length(request),
    {
        let available: u64 = if request.offset < self.config.length {
            self.config.length - request.offset
        } else {
            0
        };
        if available < request.length as u64 {
            available as u32
        } else {
            request.length
        }
    }

    /// Asks whether the turn of a range has come. `timed_out` says that the delay of the range
    /// has passed without a change.
    pub fn poll_range(&mut self, request: RequestHeader, timed_out: bool) -> (step: RangeStep)
        requires
            old(self).wf(),
        ensures
            final(self).wf(),
            (final(self)@, step) == old(self)@.polled(request, timed_out),
    {
        let wait = self.control.wait_for_chunk(self.config.range_delay, timed_out);
        match wait {
            ChunkWait::Proceed => {
                let length: u32 = self.payload_length(request);
                RangeStep::Send {
                    response: self.response_for(
                        request.request_id,
                        ResponseStatus::Success,
                        length,
                    ),
                }
            },
            ChunkWait::Cancelled => {
                self.counters.active_reads = self.counters.active_reads.wrapping_sub(1);
                RangeStep::Refuse {
                    response: self.response_for(request.request_id, ResponseStatus::Cancelled, 0),
                }
            },
            _ => RangeStep::Wait { wait },
        }
    }

    /// The next fragment of the payload of a range, of which `written` bytes were sent.
    pub fn fragment(&self, request: RequestHeader, written: u32) -> (fragment: Vec<u8>)
        requires
            self.wf(),
            written <= self@.payload_length(request),
        ensures
            fragment@.len() <= self@.config.fragment_bytes,
            fragment@.len() == 0 <==> written == self@.payload_length(request),
            written + fragment@.len() <= self@.payload_length(request),
            fragment@.len() < self@.config.fragment_bytes ==> written + fragment@.len()
                == self@.payload_length(request),
            fragment@ == bytes::slice_of(
                self@.payload(request),
                written as int,
                fragment@.len() as int,
            ),
    {
        let length: u32 = self.payload_length(request);
        let rest: usize = (length - written) as usize;
        let size: usize = if rest < self.config.fragment_bytes {
            rest
        } else {
            self.config.fragment_bytes
        };
        let mut fragment: Vec<u8> = Vec::new();
        while fragment.len() < size
            invariant
                length == self@.payload_length(request),
                self.config == self@.config,
                written + size <= length,
                fragment@.len() <= size,
                fragment@ =~= bytes::slice_of(
                    self@.payload(request),
                    written as int,
                    fragment@.len() as int,
                ),
            decreases size - fragment@.len(),
        {
            let offset: u64 = request.offset + written as u64 + fragment.len() as u64;
            fragment.push(generated_byte(offset));
        }
        fragment
    }

    /// Notes that the payload of a range was sent.
    pub fn finish_range(&mut self, request: RequestHeader)
        requires
            old(self).wf(),
        ensures
            final(self).wf(),
            final(self)@ == old(self)@.served(request),
    {
        let length: u32 = self.payload_length(request);
        self.counters.served_bytes = self.counters.served_bytes.wrapping_add(length as u64);
        self.coverage.note(request.offset, length as u64);
        self.control.note_chunk(length as usize);
        self.counters.active_reads = self.counters.active_reads.wrapping_sub(1);
    }

    /// Notes that the payload of a range could not be sent.
    pub fn abandon_range(&mut self)
        requires
            old(self).wf(),
        ensures
            final(self).wf(),
            final(self)@ == (LoopbackView {
                counters: old(self)@.counters.read_over(),
                ..old(self)@
            }),
    {
        self.counters.active_reads = self.counters.active_reads.wrapping_sub(1);
    }

    /// Cancels what is being served, as a server does when it stops.
    pub fn stop(&mut self)
        requires
            old(self).wf(),
        ensures
            final(self).wf(),
            final(self)@ == (LoopbackView {
                control: old(self)@.control.cancelled(),
                ..old(self)@
            }),
    {
        let _ = self.control.cancel();
    }

    /// The state and the counters of the transfer.
    pub fn control(&self) -> (control: TransferControl)
        ensures
            control == self@.control,
    {
        self.control
    }

    pub fn metrics(&self) -> (metrics: LoopbackMetricsSnapshot)
        requires
            self.wf(),
        ensures
            metrics == (LoopbackMetricsSnapshot {
                connections: self@.counters.connections,
                read_requests: self@.counters.read_requests,
                served_bytes: self@.counters.served_bytes,
                unique_bytes: self@.coverage.unique_bytes,
                retained_ranges: coverage::run_starts(self@.coverage.covered).len() as usize,
                coverage_saturated: self@.coverage.saturated,
                protocol_errors: self@.counters.protocol_errors,
                max_concurrent_reads: self@.counters.max_concurrent_reads,
            }),
            metrics.retained_ranges <= MAX_TRACKED_RANGES,
    {
        LoopbackMetricsSnapshot {
            connections: self.counters.connections,
            read_requests: self.counters.read_requests,
            served_bytes: self.counters.served_bytes,
            unique_bytes: self.coverage.unique_bytes(),
            retained_ranges: self.coverage.range_count(),
            coverage_saturated: self.coverage.saturated(),
            protocol_errors: self.counters.protocol_errors,
            max_concurrent_reads: self.counters.max_concurrent_reads,
        }
    }
}

} // verus!
