//! The files of an offer as a receiver reads them, and the group that they make up.

use super::manifest::{OfferManifest, OfferManifestEntry};
use super::model::MAX_BEGIN_NONCES;
use super::wire::{
    Opcode, RemoteTransferState, TransferCredentials, TransferStatus, MAX_SECURE_RANGE_BYTES,
};
use crate::clipboard::hresult::{HResult, CANCELLED, READ_FAULT};
use crate::counter;
use crate::counter::count;
use crate::failure::{Failure, FailureKind};
use vstd::prelude::*;

verus! {

/// One file of an offer that is read over the network.
#[derive(Clone, Copy, Debug)]
pub struct SecureRemoteSource {
    pub size: u64,
    pub transfer: Option<TransferCredentials>,
    pub next_control_sequence: u64,
    pub completion_sent: bool,
    pub read_calls: u64,
    pub bytes_read: u64,
}

/// What is next for a read that a reader asked for.
#[derive(Clone, Copy, Debug, PartialEq, Eq, Structural)]
pub enum SourceStep {
    /// The group is paused: ask again later.
    Wait,
    /// Begin the transfer of the file first.
    Begin { requested: usize },
    /// Ask for this many bytes.
    Read { requested: usize },
    /// The read is over: so many bytes were read.
    Done { count: usize },
    /// The read failed.
    Fail { code: HResult },
}

/// What is next after the transfer of a file was begun.
#[derive(Clone, Copy, Debug, PartialEq, Eq, Structural)]
pub enum BegunStep {
    /// The transfer may be used.
    Ready,
    /// The group is paused: pause the transfer with this sequence number.
    SendPause { sequence: u64 },
    /// The group was cancelled: cancel the transfer with this sequence number, then fail.
    SendCancel { sequence: u64 },
}

/// What is next after the response to a read arrived.
#[derive(Clone, Copy, Debug, PartialEq, Eq, Structural)]
pub enum ReceivedStep {
    /// The transfer is paused: ask again later.
    Retry,
    /// The file ends here: complete the transfer with this sequence number.
    SendComplete { sequence: u64 },
    /// The bytes are the result of the read.
    Deliver,
    /// The read failed.
    Fail { code: HResult },
}

/// A request that controls the transfer of a file.
#[derive(Clone, Copy, Debug, PartialEq, Eq, Structural)]
pub struct ControlStep {
    pub opcode: Opcode,
    pub sequence: u64,
}

/// Whether an entry is the first one that is no directory.
pub open spec fn is_first_file(entries: Seq<OfferManifestEntry>, place: int) -> bool {
    &&& 0 <= place < entries.len()
    &&& !entries[place].descriptor.spec_is_directory()
    &&& forall|k: int| 0 <= k < place ==> (#[trigger] entries[k]).descriptor.spec_is_directory()
}

impl SecureRemoteSource {
    /// A file of which nothing was read.
    pub open spec fn fresh(size: u64) -> SecureRemoteSource {
        SecureRemoteSource {
            size,
            transfer: None,
            next_control_sequence: 1,
            completion_sent: false,
            read_calls: 0,
            bytes_read: 0,
        }
    }

    /// The first file of an offer.
    pub fn new(manifest: &OfferManifest) -> (source: Self)
        requires
            exists|place: int| is_first_file(manifest.entries@, place),
        ensures
            exists|place: int|
                is_first_file(manifest.entries@, place) && source == SecureRemoteSource::fresh(
                    manifest.entries@[place].descriptor.size,
                ),
    {
        match manifest.first_file() {
            Some(place) => {
                assert(is_first_file(manifest.entries@, place as int));
                SecureRemoteSource::new_for_entry(&manifest.entries[place])
            },
            None => {
                assert(false);
                SecureRemoteSource::new_for_entry(&manifest.entries[0])
            },
        }
    }

    /// A file of an offer.
    pub fn new_for_entry(entry: &OfferManifestEntry) -> (source: Self)
        ensures
            source == SecureRemoteSource::fresh(entry.descriptor.size),
    {
        SecureRemoteSource {
            size: entry.descriptor.size,
            transfer: None,
            next_control_sequence: 1,
            completion_sent: false,
            read_calls: 0,
            bytes_read: 0,
        }
    }

    pub fn read_calls(&self) -> (calls: u64)
        ensures
            calls == self.read_calls,
    {
        self.read_calls
    }

    pub fn bytes_read(&self) -> (bytes: u64)
        ensures
            bytes == self.bytes_read,
    {
        self.bytes_read
    }

    pub fn has_started(&self) -> (started: bool)
        ensures
            started == (self.transfer is Some),
    {
        self.transfer.is_some()
    }

    /// A read of at most `wanted` bytes: the source afterwards, and what is next.
    pub open spec fn asking(self, wanted: usize, group_cancelled: bool, group_paused: bool) -> (
        SecureRemoteSource,
        SourceStep,
    ) {
        let requested = if wanted < MAX_SECURE_RANGE_BYTES {
            wanted
        } else {
            MAX_SECURE_RANGE_BYTES
        };
        let called = SecureRemoteSource {
            read_calls: counter::counted(self.read_calls, 1),
            ..self
        };
        if wanted == 0 {
            (self, SourceStep::Done { count: 0 })
        } else if group_cancelled {
            (self, SourceStep::Fail { code: CANCELLED })
        } else if group_paused {
            (self, SourceStep::Wait)
        } else if self.transfer is None {
            (called, SourceStep::Begin { requested })
        } else {
            (called, SourceStep::Read { requested })
        }
    }

    /// Starts a read of at most `wanted` bytes.
    pub fn start_read(&mut self, wanted: usize, group_cancelled: bool, group_paused: bool) -> (step:
        SourceStep)
        ensures
            (*final(self), step) == old(self).asking(wanted, group_cancelled, group_paused),
    {
        if wanted == 0 {
            return SourceStep::Done { count: 0 };
        }
        if group_cancelled {
            return SourceStep::Fail { code: CANCELLED };
        }
        if group_paused {
            return SourceStep::Wait;
        }
        self.read_calls = count(self.read_calls);
        let requested: usize = if wanted < MAX_SECURE_RANGE_BYTES {
            wanted
        } else {
            MAX_SECURE_RANGE_BYTES
        };
        if self.transfer.is_none() {
            SourceStep::Begin { requested }
        } else {
            SourceStep::Read { requested }
        }
    }

    /// Takes the next sequence number of a control request.
    pub fn next_sequence(&mut self) -> (sequence: u64)
        ensures
            sequence == old(self).next_control_sequence,
            *final(self) == (SecureRemoteSource {
                next_control_sequence: counter::counted(old(self).next_control_sequence, 1),
                ..*old(self)
            }),
    {
        let sequence: u64 = self.next_control_sequence;
        self.next_control_sequence = count(sequence);
        sequence
    }

    /// The source once a control request was numbered.
    pub open spec fn numbered(self) -> SecureRemoteSource {
        SecureRemoteSource {
            next_control_sequence: counter::counted(self.next_control_sequence, 1),
            ..self
        }
    }

    /// The request that pauses the transfer.
    pub fn pause(&mut self) -> (step: ControlStep)
        ensures
            step.opcode is Pause && step.sequence == old(self).next_control_sequence,
            *final(self) == old(self).numbered(),
    {
        ControlStep { opcode: Opcode::Pause, sequence: self.next_sequence() }
    }

    /// The request that resumes the transfer.
    pub fn resume(&mut self) -> (step: ControlStep)
        ensures
            step.opcode is Resume && step.sequence == old(self).next_control_sequence,
            *final(self) == old(self).numbered(),
    {
        ControlStep { opcode: Opcode::Resume, sequence: self.next_sequence() }
    }

    /// The request that cancels the transfer.
    pub fn cancel(&mut self) -> (step: ControlStep)
        ensures
            step.opcode is Cancel && step.sequence == old(self).next_control_sequence,
            *final(self) == old(self).numbered(),
    {
        ControlStep { opcode: Opcode::Cancel, sequence: self.next_sequence() }
    }

    /// The request that completes the transfer; none where it was sent, and only the status is to
    /// be asked for.
    pub fn complete(&mut self) -> (step: Option<ControlStep>)
        ensures
            if old(self).completion_sent {
                step is None && *final(self) == *old(self)
            } else {
                &&& step == Some(
                    ControlStep {
                        opcode: Opcode::Complete,
                        sequence: old(self).next_control_sequence,
                    },
                )
                &&& *final(self) == old(self).numbered()
            },
    {
        if self.completion_sent {
            return None;
        }
        Some(ControlStep { opcode: Opcode::Complete, sequence: self.next_sequence() })
    }

    /// The credentials of the begun transfer came: the source afterwards, and what is next.
    pub open spec fn beginning(
        self,
        credentials: TransferCredentials,
        group_cancelled: bool,
        group_paused: bool,
    ) -> (SecureRemoteSource, BegunStep) {
        let started = SecureRemoteSource { transfer: Some(credentials), ..self };
        let sequence = self.next_control_sequence;
        if group_cancelled {
            (started.numbered(), BegunStep::SendCancel { sequence })
        } else if group_paused {
            (started.numbered(), BegunStep::SendPause { sequence })
        } else {
            (started, BegunStep::Ready)
        }
    }

    /// Takes the credentials of the begun transfer.
    pub fn begun(
        &mut self,
        credentials: TransferCredentials,
        group_cancelled: bool,
        group_paused: bool,
    ) -> (step: BegunStep)
        ensures
            (*final(self), step) == old(self).beginning(credentials, group_cancelled, group_paused),
    {
        self.transfer = Some(credentials);
        if group_cancelled {
            return BegunStep::SendCancel { sequence: self.next_sequence() };
        }
        if group_paused {
            return BegunStep::SendPause { sequence: self.next_sequence() };
        }
        BegunStep::Ready
    }

    /// The response to a read at `offset` came: the source afterwards, and what is next.
    pub open spec fn taking(self, offset: u64, state: RemoteTransferState, received: usize) -> (
        SecureRemoteSource,
        ReceivedStep,
    ) {
        if received == 0 && state is Paused {
            (self, ReceivedStep::Retry)
        } else if received == 0 && offset < self.size {
            (self, ReceivedStep::Fail { code: READ_FAULT })
        } else if received == 0 && !self.completion_sent {
            (
                SecureRemoteSource { completion_sent: true, ..self.numbered() },
                ReceivedStep::SendComplete { sequence: self.next_control_sequence },
            )
        } else {
            (
                SecureRemoteSource {
                    bytes_read: counter::counted(self.bytes_read, received as nat),
                    ..self
                },
                ReceivedStep::Deliver,
            )
        }
    }

    /// Takes the response to a read at `offset`: the state of the transfer and the number of
    /// bytes that came.
    pub fn received(&mut self, offset: u64, state: RemoteTransferState, received: usize) -> (step:
        ReceivedStep)
        ensures
            (*final(self), step) == old(self).taking(offset, state, received),
    {
        if received == 0 && state == RemoteTransferState::Paused {
            return ReceivedStep::Retry;
        }
        if received == 0 && offset < self.size {
            return ReceivedStep::Fail { code: READ_FAULT };
        }
        if received == 0 && !self.completion_sent {
            self.completion_sent = true;
            return ReceivedStep::SendComplete { sequence: self.next_sequence() };
        }
        self.bytes_read = self.bytes_read.wrapping_add(received as u64);
        ReceivedStep::Deliver
    }

    /// Notes that the request to complete the transfer failed: it is sent again at the next end.
    pub fn completion_failed(&mut self)
        ensures
            *final(self) == (SecureRemoteSource { completion_sent: false, ..*old(self) }),
    {
        self.completion_sent = false;
    }

    /// Notes that the request to complete the transfer was carried out.
    pub fn completed(&mut self)
        ensures
            *final(self) == (SecureRemoteSource { completion_sent: true, ..*old(self) }),
    {
        self.completion_sent = true;
    }
}

/// State and progress of all files of a paste.
#[derive(Clone, Copy, Debug, PartialEq, Eq, Structural)]
pub struct TransferGroupStatus {
    pub state: RemoteTransferState,
    pub started_transfers: usize,
    pub unique_bytes: u64,
    pub read_calls: u64,
    pub bytes_read: u64,
}

/// State and progress of one started file: what its server says, and what its reader counted.
#[derive(Clone, Copy, Debug, PartialEq, Eq, Structural)]
pub struct StartedTransfer {
    pub status: TransferStatus,
    pub read_calls: u64,
    pub bytes_read: u64,
}

/// Whether one of the files is in a state.
pub open spec fn one_is(started: Seq<StartedTransfer>, state: RemoteTransferState) -> bool {
    exists|k: int| 0 <= k < started.len() && (#[trigger] started[k]).status.state == state
}

/// The state of a group: cancelled where one file is, else running where one file is, else
/// paused where one file is, else completed.
pub open spec fn group_state(started: Seq<StartedTransfer>) -> RemoteTransferState {
    if one_is(started, RemoteTransferState::Cancelled) {
        RemoteTransferState::Cancelled
    } else if one_is(started, RemoteTransferState::Running) {
        RemoteTransferState::Running
    } else if one_is(started, RemoteTransferState::Paused) {
        RemoteTransferState::Paused
    } else {
        RemoteTransferState::Completed
    }
}

/// A sum that stops at the largest number.
pub open spec fn saturated(sum: nat) -> u64 {
    if sum > u64::MAX {
        u64::MAX
    } else {
        sum as u64
    }
}

/// The summed numbers of started files.
pub open spec fn group_sum(
    started: Seq<StartedTransfer>,
    number: spec_fn(StartedTransfer) -> u64,
) -> nat
    decreases started.len(),
{
    if started.len() == 0 {
        0
    } else {
        group_sum(started.drop_last(), number) + number(started.last()) as nat
    }
}

/// State and progress of a group of started files.
pub open spec fn group_status(started: Seq<StartedTransfer>) -> TransferGroupStatus {
    TransferGroupStatus {
        state: group_state(started),
        started_transfers: started.len() as usize,
        unique_bytes: saturated(
            group_sum(started, |transfer: StartedTransfer| transfer.status.unique_bytes),
        ),
        read_calls: saturated(group_sum(started, |transfer: StartedTransfer| transfer.read_calls)),
        bytes_read: saturated(group_sum(started, |transfer: StartedTransfer| transfer.bytes_read)),
    }
}

/// The state of one file joined to that of others.
fn join(left: RemoteTransferState, right: RemoteTransferState) -> (joined: RemoteTransferState)
    ensures
        joined == if left is Cancelled || right is Cancelled {
            RemoteTransferState::Cancelled
        } else if left is Running || right is Running {
            RemoteTransferState::Running
        } else if left is Paused || right is Paused {
            RemoteTransferState::Paused
        } else {
            RemoteTransferState::Completed
        },
{
    match (left, right) {
        (_, RemoteTransferState::Cancelled) | (RemoteTransferState::Cancelled, _) =>
            RemoteTransferState::Cancelled,
        (_, RemoteTransferState::Running) | (RemoteTransferState::Running, _) =>
            RemoteTransferState::Running,
        (_, RemoteTransferState::Paused) | (RemoteTransferState::Paused, _) =>
            RemoteTransferState::Paused,
        _ => RemoteTransferState::Completed,
    }
}

proof fn lemma_one_is_push(
    started: Seq<StartedTransfer>,
    next: StartedTransfer,
    state: RemoteTransferState,
)
    ensures
        one_is(started.push(next), state) == (one_is(started, state) || next.status.state
            == state),
{
    let longer = started.push(next);
    assert(longer[started.len() as int] == next);
    if one_is(started, state) {
        let k = choose|k: int|
            0 <= k < started.len() && (#[trigger] started[k]).status.state == state;
        assert(longer[k].status.state == state);
    }
    if one_is(longer, state) {
        let k = choose|k: int|
            0 <= k < longer.len() && (#[trigger] longer[k]).status.state == state;
        if k < started.len() {
            assert(started[k].status.state == state);
        }
    }
}

/// State and progress of a group of started files.
pub fn aggregate(started: &[StartedTransfer]) -> (status: TransferGroupStatus)
    ensures
        status == group_status(started@),
        status.started_transfers == started@.len(),
{
    let ghost unique = |transfer: StartedTransfer| transfer.status.unique_bytes;
    let ghost calls = |transfer: StartedTransfer| transfer.read_calls;
    let ghost read = |transfer: StartedTransfer| transfer.bytes_read;
    let mut state = RemoteTransferState::Completed;
    let mut unique_bytes: u64 = 0;
    let mut read_calls: u64 = 0;
    let mut bytes_read: u64 = 0;
    let mut index: usize = 0;
    while index < started.len()
        invariant
            index <= started@.len(),
            unique == |transfer: StartedTransfer| transfer.status.unique_bytes,
            calls == |transfer: StartedTransfer| transfer.read_calls,
            read == |transfer: StartedTransfer| transfer.bytes_read,
            state == group_state(started@.take(index as int)),
            unique_bytes == saturated(group_sum(started@.take(index as int), unique)),
            read_calls == saturated(group_sum(started@.take(index as int), calls)),
            bytes_read == saturated(group_sum(started@.take(index as int), read)),
        decreases started@.len() - index,
    {
        let transfer = started[index];
        proof {
            let before = started@.take(index as int);
            lemma_one_is_push(before, transfer, RemoteTransferState::Cancelled);
            lemma_one_is_push(before, transfer, RemoteTransferState::Running);
            lemma_one_is_push(before, transfer, RemoteTransferState::Paused);
            assert(started@.take(index + 1) =~= before.push(transfer));
            assert(started@.take(index + 1).drop_last() =~= before);
        }
        state = join(state, transfer.status.state);
        unique_bytes = unique_bytes.saturating_add(transfer.status.unique_bytes);
        read_calls = read_calls.saturating_add(transfer.read_calls);
        bytes_read = bytes_read.saturating_add(transfer.bytes_read);
        index += 1;
    }
    assert(started@.take(index as int) =~= started@);
    TransferGroupStatus {
        state,
        started_transfers: started.len(),
        unique_bytes,
        read_calls,
        bytes_read,
    }
}

/// The files of one paste, in the order in which they were opened.
#[derive(Debug)]
pub struct RemoteTransferRegistry {
    sources: Vec<SecureRemoteSource>,
    group_paused: bool,
    group_cancelled: bool,
}

/// The last `MAX_BEGIN_NONCES` sources.
pub open spec fn newest(sources: Seq<SecureRemoteSource>) -> Seq<SecureRemoteSource> {
    if sources.len() > MAX_BEGIN_NONCES {
        sources.skip(sources.len() - MAX_BEGIN_NONCES)
    } else {
        sources
    }
}

/// The places of the sources whose transfer was begun.
pub open spec fn started_places(sources: Seq<SecureRemoteSource>) -> Seq<int>
    decreases sources.len(),
{
    if sources.len() == 0 {
        Seq::empty()
    } else if sources.last().transfer is Some {
        started_places(sources.drop_last()).push(sources.len() - 1)
    } else {
        started_places(sources.drop_last())
    }
}

/// The places of the sources whose transfer was begun and not completed.
pub open spec fn unfinished_places(sources: Seq<SecureRemoteSource>) -> Seq<int>
    decreases sources.len(),
{
    if sources.len() == 0 {
        Seq::empty()
    } else if sources.last().transfer is Some && !sources.last().completion_sent {
        unfinished_places(sources.drop_last()).push(sources.len() - 1)
    } else {
        unfinished_places(sources.drop_last())
    }
}

/// How many bytes were read from the sources whose transfer was begun.
pub open spec fn started_bytes(sources: Seq<SecureRemoteSource>) -> nat
    decreases sources.len(),
{
    if sources.len() == 0 {
        0
    } else if sources.last().transfer is Some {
        started_bytes(sources.drop_last()) + sources.last().bytes_read as nat
    } else {
        started_bytes(sources.drop_last())
    }
}

/// What this side alone knows of a group of files: how many bytes it has read, how many files
/// were begun, how many of them were completed, and the place of the newest that was not.
#[derive(Clone, Copy, Debug, PartialEq, Eq, Structural)]
pub struct LocalProgress {
    pub bytes_read: u64,
    pub started_transfers: usize,
    pub completed_transfers: usize,
    pub current: Option<usize>,
}

proof fn lemma_started_places(sources: Seq<SecureRemoteSource>)
    ensures
        forall|k: int|
            0 <= k < started_places(sources).len() ==> 0 <= (#[trigger] started_places(sources)[k])
                < sources.len(),
    decreases sources.len(),
{
    if sources.len() > 0 {
        let before = sources.drop_last();
        lemma_started_places(before);
        assert forall|k: int| 0 <= k < started_places(sources).len() implies 0 <= (
        #[trigger] started_places(sources)[k]) < sources.len() by {
            if k < started_places(before).len() {
                assert(0 <= started_places(before)[k] < before.len());
            }
        }
    }
}

impl RemoteTransferRegistry {
    pub closed spec fn spec_sources(&self) -> Seq<SecureRemoteSource> {
        self.sources@
    }

    pub closed spec fn spec_paused(&self) -> bool {
        self.group_paused
    }

    pub closed spec fn spec_cancelled(&self) -> bool {
        self.group_cancelled
    }

    pub fn new() -> (registry: Self)
        ensures
            registry.spec_sources() == Seq::<SecureRemoteSource>::empty(),
            !registry.spec_paused(),
            !registry.spec_cancelled(),
    {
        RemoteTransferRegistry { sources: Vec::new(), group_paused: false, group_cancelled: false }
    }

    /// Remembers a source; the oldest are forgotten where there are too many.
    pub fn remember_source(&mut self, source: SecureRemoteSource)
        ensures
            final(self).spec_sources() == newest(old(self).spec_sources().push(source)),
            final(self).spec_paused() == old(self).spec_paused(),
            final(self).spec_cancelled() == old(self).spec_cancelled(),
            final(self).spec_sources().len() <= MAX_BEGIN_NONCES,
    {
        self.sources.push(source);
        let ghost all = self.sources@;
        let ghost mut dropped: int = 0;
        while self.sources.len() > MAX_BEGIN_NONCES
            invariant
                all == old(self).sources@.push(source),
                0 <= dropped <= all.len(),
                self.sources@ =~= all.skip(dropped),
                all.len() > MAX_BEGIN_NONCES ==> self.sources@.len() >= MAX_BEGIN_NONCES,
                all.len() <= MAX_BEGIN_NONCES ==> dropped == 0,
                self.group_paused == old(self).group_paused,
                self.group_cancelled == old(self).group_cancelled,
            decreases self.sources@.len(),
        {
            let _ = self.sources.remove(0);
            proof {
                dropped = dropped + 1;
            }
        }
        assert(self.sources@ =~= newest(all));
    }

    /// Opens the first file of an offer, and remembers it.
    pub fn create_source(&mut self, manifest: &OfferManifest) -> (source: SecureRemoteSource)
        requires
            exists|place: int| is_first_file(manifest.entries@, place),
        ensures
            exists|place: int|
                is_first_file(manifest.entries@, place) && source == SecureRemoteSource::fresh(
                    manifest.entries@[place].descriptor.size,
                ),
            final(self).spec_sources() == newest(old(self).spec_sources().push(source)),
            final(self).spec_paused() == old(self).spec_paused(),
            final(self).spec_cancelled() == old(self).spec_cancelled(),
    {
        let source = SecureRemoteSource::new(manifest);
        self.remember_source(source);
        source
    }

    /// Opens a file of an offer, and remembers it.
    pub fn create_source_for_entry(&mut self, entry: &OfferManifestEntry) -> (source:
        SecureRemoteSource)
        ensures
            source == SecureRemoteSource::fresh(entry.descriptor.size),
            final(self).spec_sources() == newest(old(self).spec_sources().push(source)),
            final(self).spec_paused() == old(self).spec_paused(),
            final(self).spec_cancelled() == old(self).spec_cancelled(),
    {
        let source = SecureRemoteSource::new_for_entry(entry);
        self.remember_source(source);
        source
    }

    /// The place of the newest source whose transfer was begun.
    pub fn latest_started(&self) -> (result: Result<usize, Failure>)
        ensures
            match result {
                Ok(place) => {
                    &&& place < self.spec_sources().len()
                    &&& self.spec_sources()[place as int].transfer is Some
                    &&& forall|k: int|
                        place < k < self.spec_sources().len() ==> (
                        #[trigger] self.spec_sources()[k]).transfer is None
                },
                Err(failure) => {
                    &&& failure == Failure::new(
                        FailureKind::NotConnected,
                        "no transfer has started",
                    )
                    &&& forall|k: int|
                        0 <= k < self.spec_sources().len() ==> (
                        #[trigger] self.spec_sources()[k]).transfer is None
                },
            },
    {
        let mut index: usize = self.sources.len();
        while index > 0
            invariant
                index <= self.sources@.len(),
                forall|k: int|
                    index <= k < self.sources@.len() ==> (
                    #[trigger] self.sources@[k]).transfer is None,
            decreases index,
        {
            index -= 1;
            if self.sources[index].has_started() {
                return Ok(index);
            }
        }
        Err(Failure::new(FailureKind::NotConnected, "no transfer has started"))
    }

    /// The places of the sources whose transfer was begun, oldest first.
    pub fn started_sources(&self) -> (result: Result<Vec<usize>, Failure>)
        ensures
            match result {
                Ok(places) => places@.len() > 0 && places@.map_values(|place: usize| place as int)
                    == started_places(self.spec_sources()),
                Err(failure) => started_places(self.spec_sources()).len() == 0 && failure
                    == Failure::new(FailureKind::NotConnected, "no transfer has started"),
            },
    {
        let mut places: Vec<usize> = Vec::new();
        let mut index: usize = 0;
        let ghost ints = |place: usize| place as int;
        assert(self.sources@.take(0) =~= Seq::empty());
        while index < self.sources.len()
            invariant
                index <= self.sources@.len(),
                ints == |place: usize| place as int,
                places@.map_values(ints) =~= started_places(self.sources@.take(index as int)),
            decreases self.sources@.len() - index,
        {
            let ghost before = places@;
            if self.sources[index].has_started() {
                places.push(index);
                assert(places@.map_values(ints) =~= before.map_values(ints).push(index as int));
            }
            index += 1;
            assert(self.sources@.take(index as int).drop_last() =~= self.sources@.take(index - 1));
        }
        assert(self.sources@.take(index as int) =~= self.sources@);
        if places.len() == 0 {
            assert(places@.map_values(ints).len() == 0);
            return Err(Failure::new(FailureKind::NotConnected, "no transfer has started"));
        }
        Ok(places)
    }

    /// Pauses the group: each returned source is to be paused.
    pub fn pause_all(&mut self) -> (result: Result<Vec<usize>, Failure>)
        ensures
            final(self).spec_sources() == old(self).spec_sources(),
            final(self).spec_cancelled() == old(self).spec_cancelled(),
            match result {
                Ok(places) => final(self).spec_paused() && places@.len() > 0 && places@.map_values(
                    |place: usize| place as int,
                ) == started_places(old(self).spec_sources()),
                Err(failure) => final(self).spec_paused() == old(self).spec_paused()
                    && started_places(old(self).spec_sources()).len() == 0 && failure
                    == Failure::new(FailureKind::NotConnected, "no transfer has started"),
            },
    {
        let started = self.started_sources();
        if started.is_ok() {
            self.group_paused = true;
        }
        started
    }

    /// Resumes the group: each returned source is to be resumed.
    pub fn resume_all(&mut self) -> (result: Result<Vec<usize>, Failure>)
        ensures
            final(self).spec_sources() == old(self).spec_sources(),
            final(self).spec_cancelled() == old(self).spec_cancelled(),
            match result {
                Ok(places) => !final(self).spec_paused() && places@.len() > 0 && places@.map_values(
                    |place: usize| place as int,
                ) == started_places(old(self).spec_sources()),
                Err(failure) => final(self).spec_paused() == old(self).spec_paused()
                    && started_places(old(self).spec_sources()).len() == 0 && failure
                    == Failure::new(FailureKind::NotConnected, "no transfer has started"),
            },
    {
        let started = self.started_sources();
        if started.is_ok() {
            self.group_paused = false;
        }
        started
    }

    /// Cancels the group for good, opened and unopened files: each returned source is to be
    /// cancelled.
    pub fn cancel_all(&mut self) -> (result: Result<Vec<usize>, Failure>)
        ensures
            final(self).spec_sources() == old(self).spec_sources(),
            match result {
                Ok(places) => final(self).spec_cancelled() && !final(self).spec_paused()
                    && places@.len() > 0 && places@.map_values(|place: usize| place as int)
                    == started_places(old(self).spec_sources()),
                Err(failure) => final(self).spec_cancelled() == old(self).spec_cancelled()
                    && final(self).spec_paused() == old(self).spec_paused() && started_places(
                    old(self).spec_sources(),
                ).len() == 0 && failure == Failure::new(
                    FailureKind::NotConnected,
                    "no transfer has started",
                ),
            },
    {
        let started = self.started_sources();
        if started.is_ok() {
            self.group_cancelled = true;
            self.group_paused = false;
        }
        started
    }

    /// The started files with what the server said of each of them, in order.
    pub open spec fn started_with(&self, statuses: Seq<TransferStatus>) -> Seq<StartedTransfer> {
        let places = started_places(self.spec_sources());
        Seq::new(
            places.len(),
            |k: int|
                StartedTransfer {
                    status: statuses[k],
                    read_calls: self.spec_sources()[places[k]].read_calls,
                    bytes_read: self.spec_sources()[places[k]].bytes_read,
                },
        )
    }

    /// State and progress of the group, once the server told of each started file.
    pub fn status_all(&self, statuses: &[TransferStatus]) -> (result: Result<
        TransferGroupStatus,
        Failure,
    >)
        requires
            statuses@.len() == started_places(self.spec_sources()).len(),
        ensures
            result == if statuses@.len() == 0 {
                Err::<TransferGroupStatus, Failure>(
                    Failure::new(FailureKind::NotConnected, "no transfer has started"),
                )
            } else {
                Ok(group_status(self.started_with(statuses@)))
            },
    {
        let places = match self.started_sources() {
            Err(failure) => {
                return Err(failure);
            },
            Ok(places) => places,
        };
        let ghost ints = |place: usize| place as int;
        let ghost expected = self.started_with(statuses@);
        assert(places@.map_values(ints).len() == places@.len());
        proof {
            lemma_started_places(self.spec_sources());
        }
        let mut started: Vec<StartedTransfer> = Vec::new();
        let mut index: usize = 0;
        while index < places.len()
            invariant
                index <= places@.len(),
                index == started@.len(),
                places@.len() == statuses@.len(),
                ints == |place: usize| place as int,
                places@.map_values(ints) == started_places(self.spec_sources()),
                expected == self.started_with(statuses@),
                expected.len() == places@.len(),
                forall|k: int|
                    0 <= k < places@.len() ==> 0 <= (#[trigger] started_places(
                        self.spec_sources(),
                    )[k]) < self.spec_sources().len(),
                started@ =~= expected.take(index as int),
            decreases places@.len() - index,
        {
            let place: usize = places[index];
            assert(places@.map_values(ints)[index as int] == place as int);
            let source = self.sources[place];
            started.push(
                StartedTransfer {
                    status: statuses[index],
                    read_calls: source.read_calls,
                    bytes_read: source.bytes_read,
                },
            );
            assert(expected.take(index as int).push(expected[index as int]) =~= expected.take(
                index + 1,
            ));
            index += 1;
        }
        assert(started@ =~= expected);
        Ok(aggregate(started.as_slice()))
    }

    /// How far the group has come, as far as this side knows.
    pub fn local_progress(&self) -> (progress: LocalProgress)
        ensures
            progress.bytes_read == saturated(started_bytes(self.spec_sources())),
            progress.started_transfers == started_places(self.spec_sources()).len(),
            progress.completed_transfers == started_places(self.spec_sources()).len()
                - unfinished_places(self.spec_sources()).len(),
            match progress.current {
                None => unfinished_places(self.spec_sources()).len() == 0,
                Some(place) => unfinished_places(self.spec_sources()).len() > 0 && place
                    == unfinished_places(self.spec_sources()).last(),
            },
    {
        let mut progress = LocalProgress {
            bytes_read: 0,
            started_transfers: 0,
            completed_transfers: 0,
            current: None,
        };
        let mut index: usize = 0;
        assert(self.sources@.take(0) =~= Seq::empty());
        while index < self.sources.len()
            invariant
                index <= self.sources@.len(),
                progress.bytes_read == saturated(started_bytes(self.sources@.take(index as int))),
                progress.started_transfers == started_places(self.sources@.take(index as int)).len(),
                progress.started_transfers <= index,
                progress.completed_transfers <= progress.started_transfers,
                progress.completed_transfers == progress.started_transfers - unfinished_places(
                    self.sources@.take(index as int),
                ).len(),
                match progress.current {
                    None => unfinished_places(self.sources@.take(index as int)).len() == 0,
                    Some(place) => unfinished_places(self.sources@.take(index as int)).len() > 0
                        && place == unfinished_places(self.sources@.take(index as int)).last(),
                },
            decreases self.sources@.len() - index,
        {
            let source = self.sources[index];
            if source.has_started() {
                progress.bytes_read = progress.bytes_read.saturating_add(source.bytes_read);
                progress.started_transfers += 1;
                if source.completion_sent {
                    progress.completed_transfers += 1;
                } else {
                    progress.current = Some(index);
                }
            }
            index += 1;
            assert(self.sources@.take(index as int).drop_last() =~= self.sources@.take(index - 1));
        }
        assert(self.sources@.take(index as int) =~= self.sources@);
        progress
    }

    /// The source at a place.
    pub fn source(&self, place: usize) -> (source: Option<SecureRemoteSource>)
        ensures
            source == if place < self.spec_sources().len() {
                Some(self.spec_sources()[place as int])
            } else {
                None
            },
    {
        if place < self.sources.len() {
            Some(self.sources[place])
        } else {
            None
        }
    }

    /// Puts a changed source back at its place.
    pub fn update_source(&mut self, place: usize, source: SecureRemoteSource)
        ensures
            final(self).spec_sources() == if place < old(self).spec_sources().len() {
                old(self).spec_sources().update(place as int, source)
            } else {
                old(self).spec_sources()
            },
            final(self).spec_paused() == old(self).spec_paused(),
            final(self).spec_cancelled() == old(self).spec_cancelled(),
    {
        if place < self.sources.len() {
            self.sources[place] = source;
        }
    }

    pub fn group_paused(&self) -> (paused: bool)
        ensures
            paused == self.spec_paused(),
    {
        self.group_paused
    }

    pub fn group_cancelled(&self) -> (cancelled: bool)
        ensures
            cancelled == self.spec_cancelled(),
    {
        self.group_cancelled
    }

    pub fn live_sources(&self) -> (count: usize)
        ensures
            count == self.spec_sources().len(),
    {
        self.sources.len()
    }
}

} // verus!
