//! A transfer that its owner can pause, resume and cancel, and the generated content of probes.

use crate::clipboard::hresult::{HResult, CANCELLED, E_INVALIDARG};
use crate::counter;
use vstd::prelude::*;

verus! {

/// Whether a transfer goes on.
#[derive(Clone, Copy, Debug, PartialEq, Eq, Structural)]
pub enum TransferControlState {
    Running,
    Paused,
    Cancelled,
}

impl TransferControlState {
    /// The word that a log shows.
    pub open spec fn spec_label(self) -> Seq<char> {
        match self {
            TransferControlState::Running => "running"@,
            TransferControlState::Paused => "paused"@,
            TransferControlState::Cancelled => "cancelled"@,
        }
    }

    /// The word that a log shows.
    pub fn label(self) -> (label: &'static str)
        ensures
            label@ == self.spec_label(),
    {
        match self {
            TransferControlState::Running => "running",
            TransferControlState::Paused => "paused",
            TransferControlState::Cancelled => "cancelled",
        }
    }
}

/// What a reader of the next chunk does.
#[derive(Clone, Copy, Debug, PartialEq, Eq, Structural)]
pub enum ChunkWait {
    /// Read the chunk.
    Proceed,
    /// Wait until the state changes.
    Park,
    /// Wait until the state changes or the delay of a chunk has passed.
    Sleep,
    /// Give up.
    Cancelled,
}

/// State and counters of a transfer.
#[derive(Clone, Copy, Debug)]
pub struct TransferControl {
    pub state: TransferControlState,
    pub bytes: u64,
    pub chunks: u64,
}

impl TransferControl {
    /// A transfer that runs and has served nothing.
    pub open spec fn fresh() -> TransferControl {
        TransferControl { state: TransferControlState::Running, bytes: 0, chunks: 0 }
    }

    /// The transfer once its owner paused it.
    pub open spec fn paused(self) -> TransferControl {
        match self.state {
            TransferControlState::Cancelled => self,
            _ => TransferControl { state: TransferControlState::Paused, ..self },
        }
    }

    /// The transfer once its owner resumed it.
    pub open spec fn resumed(self) -> TransferControl {
        match self.state {
            TransferControlState::Cancelled => self,
            _ => TransferControl { state: TransferControlState::Running, ..self },
        }
    }

    /// The transfer once its owner cancelled it.
    pub open spec fn cancelled(self) -> TransferControl {
        TransferControl { state: TransferControlState::Cancelled, ..self }
    }

    /// What a reader of the next chunk does.
    pub open spec fn waiting(self, delay: u64, timed_out: bool) -> ChunkWait {
        if timed_out {
            ChunkWait::Proceed
        } else {
            match self.state {
                TransferControlState::Cancelled => ChunkWait::Cancelled,
                TransferControlState::Paused => ChunkWait::Park,
                TransferControlState::Running => if delay == 0 {
                    ChunkWait::Proceed
                } else {
                    ChunkWait::Sleep
                },
            }
        }
    }

    /// The transfer once a chunk of `bytes` bytes was served.
    pub open spec fn served(self, bytes: nat) -> TransferControl {
        TransferControl {
            bytes: counter::counted(self.bytes, bytes),
            chunks: counter::counted(self.chunks, 1),
            ..self
        }
    }

    pub fn new() -> (control: Self)
        ensures
            control == TransferControl::fresh(),
    {
        TransferControl { state: TransferControlState::Running, bytes: 0, chunks: 0 }
    }

    /// Pauses the transfer unless it was cancelled.
    pub fn pause(&mut self) -> (state: TransferControlState)
        ensures
            *final(self) == old(self).paused(),
            state == final(self).state,
    {
        if self.state != TransferControlState::Cancelled {
            self.state = TransferControlState::Paused;
        }
        self.state
    }

    /// Resumes the transfer unless it was cancelled.
    pub fn resume(&mut self) -> (state: TransferControlState)
        ensures
            *final(self) == old(self).resumed(),
            state == final(self).state,
    {
        if self.state != TransferControlState::Cancelled {
            self.state = TransferControlState::Running;
        }
        self.state
    }

    /// Cancels the transfer for good.
    pub fn cancel(&mut self) -> (state: TransferControlState)
        ensures
            *final(self) == old(self).cancelled(),
            state == TransferControlState::Cancelled,
    {
        self.state = TransferControlState::Cancelled;
        self.state
    }

    pub fn state(&self) -> (state: TransferControlState)
        ensures
            state == self.state,
    {
        self.state
    }

    pub fn bytes_served(&self) -> (bytes: u64)
        ensures
            bytes == self.bytes,
    {
        self.bytes
    }

    pub fn chunk_calls(&self) -> (chunks: u64)
        ensures
            chunks == self.chunks,
    {
        self.chunks
    }

    /// What a reader of the next chunk does. `timed_out` says that the delay of the chunk has
    /// passed without a change.
    pub fn wait_for_chunk(&self, delay: u64, timed_out: bool) -> (wait: ChunkWait)
        ensures
            wait == self.waiting(delay, timed_out),
    {
        if timed_out {
            return ChunkWait::Proceed;
        }
        match self.state {
            TransferControlState::Cancelled => ChunkWait::Cancelled,
            TransferControlState::Paused => ChunkWait::Park,
            TransferControlState::Running => if delay == 0 {
                ChunkWait::Proceed
            } else {
                ChunkWait::Sleep
            },
        }
    }

    /// Counts a chunk that was served.
    pub fn note_chunk(&mut self, bytes: usize)
        ensures
            *final(self) == old(self).served(bytes as nat),
    {
        self.bytes = self.bytes.wrapping_add(bytes as u64);
        self.chunks = self.chunks.wrapping_add(1);
    }
}

/// The byte of generated content at an offset.
pub open spec fn spec_generated_byte(offset: u64) -> u8 {
    (((offset % 256) * 31 + 0xA5) % 256) as u8
}

/// Generated content: `count` bytes from `offset` on.
pub open spec fn generated(offset: u64, count: nat) -> Seq<u8> {
    Seq::new(count, |k: int| spec_generated_byte((offset + k) as u64))
}

/// The byte of generated content at an offset.
#[verifier::when_used_as_spec(spec_generated_byte)]
pub fn generated_byte(offset: u64) -> (byte: u8)
    ensures
        byte == spec_generated_byte(offset),
{
    let low: u32 = (offset % 256) as u32;
    ((low * 31 + 0xA5) % 256) as u8
}

/// Generated content of a given length, served in bounded chunks.
#[derive(Clone, Copy, Debug)]
pub struct GeneratedSource {
    pub length: u64,
    pub max_chunk: usize,
    pub delay: u64,
}

/// What is next for a read of generated content.
#[derive(Clone, Copy, Debug, PartialEq, Eq, Structural)]
pub enum GeneratedRead {
    /// Wait as told, and ask again.
    Wait { wait: ChunkWait },
    /// The read is over: so many bytes were read.
    Done { count: usize },
    /// The read failed.
    Fail { code: HResult },
}

impl GeneratedSource {
    pub fn new(length: u64, max_chunk: usize, delay: u64) -> (result: Result<Self, HResult>)
        ensures
            result == if length == 0 || max_chunk == 0 {
                Err::<GeneratedSource, HResult>(E_INVALIDARG)
            } else {
                Ok(GeneratedSource { length, max_chunk, delay })
            },
    {
        if length == 0 || max_chunk == 0 {
            return Err(E_INVALIDARG);
        }
        Ok(GeneratedSource { length, max_chunk, delay })
    }

    /// How many bytes one read at `offset` gives.
    pub open spec fn chunk(self, offset: u64, wanted: nat) -> nat {
        let remaining = if offset < self.length {
            (self.length - offset) as nat
        } else {
            0
        };
        let bounded = if remaining < wanted {
            remaining
        } else {
            wanted
        };
        if bounded < self.max_chunk {
            bounded
        } else {
            self.max_chunk as nat
        }
    }

    /// Reads at an offset under a control. `timed_out` says that the delay of the chunk has
    /// passed without a change.
    pub fn read_at(
        &self,
        control: &mut TransferControl,
        offset: u64,
        destination: &mut [u8],
        timed_out: bool,
    ) -> (step: GeneratedRead)
        ensures
            final(destination)@.len() == old(destination)@.len(),
            ({
                let wanted = old(destination)@.len();
                let count = self.chunk(offset, wanted);
                let wait = old(control).waiting(self.delay, timed_out);
                if offset >= self.length || wanted == 0 {
                    &&& step == GeneratedRead::Done { count: 0 }
                    &&& *final(control) == *old(control)
                    &&& final(destination)@ == old(destination)@
                } else if wait == ChunkWait::Proceed {
                    &&& step == GeneratedRead::Done { count: count as usize }
                    &&& count <= wanted
                    &&& *final(control) == old(control).served(count)
                    &&& final(destination)@ == generated(offset, count) + old(destination)@.skip(
                        count as int,
                    )
                } else {
                    &&& step == (if wait == ChunkWait::Cancelled {
                        GeneratedRead::Fail { code: CANCELLED }
                    } else {
                        GeneratedRead::Wait { wait }
                    })
                    &&& *final(control) == *old(control)
                    &&& final(destination)@ == old(destination)@
                }
            }),
    {
        if offset >= self.length || destination.len() == 0 {
            return GeneratedRead::Done { count: 0 };
        }
        let wait = control.wait_for_chunk(self.delay, timed_out);
        if wait == ChunkWait::Cancelled {
            return GeneratedRead::Fail { code: CANCELLED };
        }
        if wait != ChunkWait::Proceed {
            return GeneratedRead::Wait { wait };
        }
        let remaining: u64 = self.length - offset;
        let bounded: usize = if remaining < destination.len() as u64 {
            remaining as usize
        } else {
            destination.len()
        };
        let copied: usize = if bounded < self.max_chunk {
            bounded
        } else {
            self.max_chunk
        };
        let ghost before = destination@;
        let mut index: usize = 0;
        assert(destination@ =~= generated(offset, 0) + before.skip(0));
        while index < copied
            invariant
                index <= copied <= before.len(),
                offset + copied <= u64::MAX,
                destination@ =~= generated(offset, index as nat) + before.skip(index as int),
            decreases copied - index,
        {
            destination[index] = generated_byte(offset + index as u64);
            index += 1;
        }
        control.note_chunk(copied);
        GeneratedRead::Done { count: copied }
    }
}

/// A cancelled transfer stays cancelled, whatever its owner asks for.
pub proof fn lemma_cancellation_is_terminal(control: TransferControl)
    requires
        control.state is Cancelled,
    ensures
        control.paused() == control,
        control.resumed() == control,
        control.cancelled() == control,
        forall|delay: u64| control.waiting(delay, false) == ChunkWait::Cancelled,
{
}

/// Pausing and then resuming a transfer that runs loses nothing.
pub proof fn lemma_pause_is_undone(control: TransferControl)
    requires
        control.state is Running,
    ensures
        control.paused().resumed() == control,
        control.paused().waiting(0, false) == ChunkWait::Park,
        control.paused().resumed().waiting(0, false) == ChunkWait::Proceed,
{
}

/// Two adjacent stretches of generated content make up the stretch over both: a byte depends on
/// its offset alone.
pub proof fn lemma_generated_joins(offset: u64, first: nat, second: nat)
    requires
        offset + first + second <= u64::MAX,
    ensures
        generated(offset, first) + generated((offset + first) as u64, second) == generated(
            offset,
            first + second,
        ),
{
    assert(generated(offset, first) + generated((offset + first) as u64, second) =~= generated(
        offset,
        first + second,
    ));
}

/// The word under which a log shows how a transfer stands.
pub proof fn lemma_words_of_controls(state: TransferControlState, label: &'static str)
    requires
        call_ensures(TransferControlState::label, (state,), label),
    ensures
        state is Running ==> label@ == "running"@,
        state is Paused ==> label@ == "paused"@,
        state is Cancelled ==> label@ == "cancelled"@,
{
}

} // verus!
