//! What a server and a receiver do for each other: what is answered to a request in order, how
//! requests of one transfer follow on each other, and how both sides fit together.

use super::manifest::{EntryView, OfferManifest, OfferManifestEntry};
use super::model;
use super::model::{
    BeginNonce, ConnectionEnd, ReadStep, SecureMetrics, SecureMetricsSnapshot, ServerModel,
    SessionSecrets, SessionView,
};
use super::offer;
use super::offer::SecureOfferedFile;
use super::remote;
use super::remote::{
    BegunStep, ControlStep, LocalProgress, ReceivedStep, RemoteTransferRegistry, SecureRemoteSource,
    SourceStep, StartedTransfer,
};
use super::server::ServerState;
use super::wire::{
    Opcode, ProtocolId, RemoteTransferState, ResponseStatus, TransferCredentials, TransferStatus,
};
use crate::clipboard::hresult::{CANCELLED, READ_FAULT};
use crate::failure::Failure;
use crate::security::CertificateFingerprint;
use vstd::prelude::*;

verus! {

/// Whether the transfer at a place is the only one with its identifier, has not expired, and
/// belongs to a peer that is the selected one and shows all of its credentials.
pub open spec fn entitled(
    model: ServerModel,
    peer: CertificateFingerprint,
    now: u64,
    credentials: TransferCredentials,
    place: int,
) -> bool {
    &&& 0 <= place < model.sessions.len()
    &&& peer == model.authorized_peer
    &&& model.sessions[place].authorized_peer == peer
    &&& model.sessions[place].expires_at > now
    &&& model.sessions[place].secrets.transfer_id == credentials.transfer_id
    &&& model.sessions[place].offer_id == credentials.offer_id
    &&& model.sessions[place].file_id == credentials.file_id
    &&& model.sessions[place].secrets.capability == credentials.capability
    &&& model.sessions[place].secrets.server_nonce == credentials.server_nonce
    &&& forall|k: int|
        0 <= k < model.sessions.len() && k != place ==> (
        #[trigger] model.sessions[k]).secrets.transfer_id != credentials.transfer_id
}

/// Whether the entry at a place is a file, and the only entry with its identifier.
pub open spec fn is_file(entries: Seq<EntryView>, file_id: ProtocolId, place: int) -> bool {
    &&& 0 <= place < entries.len()
    &&& entries[place].file_id == file_id
    &&& entries[place].descriptor.attributes & 0x10 == 0
    &&& forall|k: int|
        0 <= k < entries.len() && k != place ==> (#[trigger] entries[k]).file_id != file_id
}

proof fn lemma_entitled_place(
    model: ServerModel,
    peer: CertificateFingerprint,
    now: u64,
    credentials: TransferCredentials,
    place: int,
)
    requires
        entitled(model, peer, now, credentials, place),
    ensures
        model::session_place(model.sessions, credentials.transfer_id) == place,
        model.authenticate(peer, true, now, credentials) == (model, Ok::<int, ResponseStatus>(place)),
        model.reading(credentials.transfer_id) == Some(model.sessions[place]),
{
    model::lemma_session_place_is(model.sessions, credentials.transfer_id, place);
}

/// A range of any length up to 256 KiB is served: the request is admitted, and where the transfer
/// runs, the next step is to read what is asked for as far as the file goes. Once read, the bytes
/// are handed out under the state in which the transfer is.
pub proof fn lemma_ranges_are_served(
    model: ServerModel,
    peer: CertificateFingerprint,
    now: u64,
    credentials: TransferCredentials,
    place: int,
    entry: int,
    offset: u64,
    requested: usize,
)
    requires
        entitled(model, peer, now, credentials, place),
        is_file(model.entries, credentials.file_id, entry),
        requested <= 262_144,
    ensures
        ({
            let (started, admitted) = model.start_read(
                peer,
                true,
                now,
                credentials,
                requested as nat,
            );
            let size = model.entries[entry].descriptor.size as int;
            let count = if offset + requested <= size {
                requested as int
            } else if offset <= size {
                size - offset
            } else {
                0
            };
            let (polled, step) = started.poll_read(
                peer,
                true,
                now,
                credentials.transfer_id,
                offset,
                requested as nat,
                false,
            );
            &&& admitted == Ok::<(), ResponseStatus>(())
            &&& started.sessions == model.sessions
            &&& model.sessions[place].state is Running || model.sessions[place].state is Completed
                ==> {
                &&& step == (ReadStep::Read { count: count as usize })
                &&& polled.finish_read(
                    peer,
                    true,
                    now,
                    credentials.transfer_id,
                    offset,
                    Some(count as u64),
                ).1 matches Ok(status)
                &&& status.state == model.sessions[place].state
            }
            &&& model.sessions[place].state is Cancelled ==> step == (ReadStep::Answer {
                outcome: Err(ResponseStatus::Cancelled),
            })
            &&& model.sessions[place].state is Paused ==> step is Wait
        }),
{
    lemma_entitled_place(model, peer, now, credentials, place);
    offer::lemma_entry_place_is(model.entries, credentials.file_id, entry);
    assert(offer::has_content(model.entries, credentials.file_id));
}

/// A range beyond 256 KiB is refused, and nothing changes.
pub proof fn lemma_longer_ranges_are_invalid(
    model: ServerModel,
    peer: CertificateFingerprint,
    trusted: bool,
    now: u64,
    credentials: TransferCredentials,
    requested: nat,
)
    requires
        requested > 262_144,
    ensures
        model.start_read(peer, trusted, now, credentials, requested) == (
            model,
            Err::<(), ResponseStatus>(ResponseStatus::Invalid),
        ),
{
}

/// What a receiver asks for, whatever its buffer holds, is what a server admits, and is as much as
/// the buffer takes up to 256 KiB. It asks for nothing only where there is no room, the group of the
/// file was cancelled, or it is paused.
pub proof fn lemma_receivers_ask_for_what_is_served(
    source: SecureRemoteSource,
    wanted: usize,
    cancelled: bool,
    paused: bool,
    model: ServerModel,
    peer: CertificateFingerprint,
    now: u64,
    credentials: TransferCredentials,
    place: int,
)
    requires
        entitled(model, peer, now, credentials, place),
    ensures
        ({
            let (after, step) = source.asking(wanted, cancelled, paused);
            let length = if wanted <= 262_144 {
                wanted
            } else {
                262_144
            };
            &&& wanted > 0 && !cancelled && !paused ==> {
                &&& step == (if source.transfer is None {
                    SourceStep::Begin { requested: length }
                } else {
                    SourceStep::Read { requested: length }
                })
                &&& after.read_calls == (source.read_calls + 1) % 0x1_0000_0000_0000_0000
                &&& model.start_read(peer, true, now, credentials, length as nat).1 == Ok::<
                    (),
                    ResponseStatus,
                >(())
            }
            &&& wanted == 0 ==> step == (SourceStep::Done { count: 0 })
            &&& wanted > 0 && cancelled ==> step == (SourceStep::Fail { code: CANCELLED })
            &&& wanted > 0 && !cancelled && paused ==> step is Wait
            &&& after.size == source.size && after.transfer == source.transfer && after.bytes_read
                == source.bytes_read && after.next_control_sequence == source.next_control_sequence
                && after.completion_sent == source.completion_sent
        }),
{
    lemma_entitled_place(model, peer, now, credentials, place);
}

/// Reads of a running transfer bring a receiver forward until the file ends: inside the file bytes
/// come and are handed on, and at its end the transfer is completed, once.
pub proof fn lemma_reads_reach_the_end(
    source: SecureRemoteSource,
    model: ServerModel,
    peer: CertificateFingerprint,
    now: u64,
    credentials: TransferCredentials,
    place: int,
    entry: int,
    offset: u64,
    wanted: usize,
)
    requires
        entitled(model, peer, now, credentials, place),
        model.sessions[place].state is Running,
        is_file(model.entries, credentials.file_id, entry),
        source.size == model.entries[entry].descriptor.size,
        source.transfer == Some(credentials),
        wanted > 0,
    ensures
        ({
            let (asked, step) = source.asking(wanted, false, false);
            &&& step matches SourceStep::Read { requested }
            &&& {
                let (started, _) = model.start_read(peer, true, now, credentials, requested as nat);
                let (_, next) = started.poll_read(
                    peer,
                    true,
                    now,
                    credentials.transfer_id,
                    offset,
                    requested as nat,
                    false,
                );
                &&& next matches ReadStep::Read { count }
                &&& {
                    let (taken, done) = asked.taking(offset, RemoteTransferState::Running, count);
                    &&& offset < source.size ==> 0 < count <= wanted && offset + count <= source.size
                        && done is Deliver && taken.bytes_read == (source.bytes_read + count)
                        % 0x1_0000_0000_0000_0000
                    &&& offset >= source.size ==> count == 0
                    &&& offset >= source.size && !source.completion_sent ==> done == (
                    ReceivedStep::SendComplete { sequence: source.next_control_sequence })
                        && taken.completion_sent
                    &&& offset >= source.size && source.completion_sent ==> done is Deliver
                }
            }
        }),
{
    lemma_entitled_place(model, peer, now, credentials, place);
    offer::lemma_entry_place_is(model.entries, credentials.file_id, entry);
    assert(offer::has_content(model.entries, credentials.file_id));
}

/// No bytes inside a file are a fault, unless the transfer is paused: then they are asked for again.
pub proof fn lemma_missing_bytes_are_a_fault(
    source: SecureRemoteSource,
    offset: u64,
    state: RemoteTransferState,
)
    requires
        offset < source.size,
    ensures
        source.taking(offset, state, 0) == (
            source,
            if state is Paused {
                ReceivedStep::Retry
            } else {
                ReceivedStep::Fail { code: READ_FAULT }
            },
        ),
{
}

/// A transfer that begins in a group that was cancelled or is paused is cancelled or paused itself,
/// and is used as it is in every other group.
pub proof fn lemma_begun_transfers_follow_their_group(
    source: SecureRemoteSource,
    credentials: TransferCredentials,
    cancelled: bool,
    paused: bool,
)
    ensures
        ({
            let (after, step) = source.beginning(credentials, cancelled, paused);
            let sequence = source.next_control_sequence;
            &&& after.transfer == Some(credentials)
            &&& cancelled ==> step == (BegunStep::SendCancel { sequence })
            &&& !cancelled && paused ==> step == (BegunStep::SendPause { sequence })
            &&& !cancelled && !paused ==> step is Ready
            &&& after.next_control_sequence == (if cancelled || paused {
                (sequence + 1) % 0x1_0000_0000_0000_0000
            } else {
                sequence as int
            })
        }),
{
}

/// What a state becomes under a control request, as users know it: a running transfer can be paused
/// and completed, a paused one resumed, and both can be cancelled; nothing else changes a state.
pub open spec fn turned(before: RemoteTransferState, opcode: Opcode) -> RemoteTransferState {
    match (before, opcode) {
        (RemoteTransferState::Running, Opcode::Pause) => RemoteTransferState::Paused,
        (RemoteTransferState::Paused, Opcode::Resume) => RemoteTransferState::Running,
        (RemoteTransferState::Running, Opcode::Cancel) => RemoteTransferState::Cancelled,
        (RemoteTransferState::Paused, Opcode::Cancel) => RemoteTransferState::Cancelled,
        (RemoteTransferState::Running, Opcode::Complete) => RemoteTransferState::Completed,
        _ => before,
    }
}

/// A control request with a fresh number is carried out, told with the state that comes of it, and
/// seen by every later request for the status. Only a transfer that ran or paused counts as
/// cancelled, once. Other transfers stay as they are.
pub proof fn lemma_control_is_carried_out(
    model: ServerModel,
    peer: CertificateFingerprint,
    now: u64,
    later: u64,
    credentials: TransferCredentials,
    place: int,
    sequence: u64,
    opcode: Opcode,
)
    requires
        entitled(model, peer, now, credentials, place),
        later < model.sessions[place].expires_at,
        sequence > model.sessions[place].last_control_sequence,
        opcode is Pause || opcode is Resume || opcode is Cancel || opcode is Complete,
    ensures
        ({
            let before = model.sessions[place];
            let (after, result) = model.control(peer, true, now, credentials, sequence, opcode);
            let expected = TransferStatus {
                state: turned(before.state, opcode),
                unique_bytes: before.coverage.unique_bytes,
            };
            &&& result == Ok::<TransferStatus, ResponseStatus>(expected)
            &&& after.status(peer, true, later, credentials).1 == Ok::<
                TransferStatus,
                ResponseStatus,
            >(expected)
            &&& after.metrics.cancelled_transfers == if opcode is Cancel && (before.state is Running
                || before.state is Paused) {
                (model.metrics.cancelled_transfers + 1) % 0x1_0000_0000_0000_0000
            } else {
                model.metrics.cancelled_transfers as int
            }
            &&& after.sessions.len() == model.sessions.len()
            &&& forall|k: int|
                0 <= k < model.sessions.len() && k != place ==> #[trigger] after.sessions[k]
                    == model.sessions[k]
            &&& after.sessions[place].last_control_sequence == sequence
            &&& after.sessions[place].expires_at == before.expires_at
            &&& after.sessions[place].coverage == before.coverage
        }),
{
    lemma_entitled_place(model, peer, now, credentials, place);
    let after = model.control(peer, true, now, credentials, sequence, opcode).0;
    assert forall|k: int| 0 <= k < after.sessions.len() && k != place implies (
    #[trigger] after.sessions[k]).secrets.transfer_id != credentials.transfer_id by {
        assert(after.sessions[k] == model.sessions[k]);
    }
    assert(entitled(after, peer, later, credentials, place));
    lemma_entitled_place(after, peer, later, credentials, place);
}

/// A control request with a number that was used, or one before it, is a replay and does nothing.
pub proof fn lemma_stale_control_does_nothing(
    model: ServerModel,
    peer: CertificateFingerprint,
    now: u64,
    credentials: TransferCredentials,
    place: int,
    sequence: u64,
    opcode: Opcode,
)
    requires
        entitled(model, peer, now, credentials, place),
        sequence <= model.sessions[place].last_control_sequence,
    ensures
        ({
            let (after, result) = model.control(peer, true, now, credentials, sequence, opcode);
            &&& result == Err::<TransferStatus, ResponseStatus>(ResponseStatus::Replay)
            &&& after.sessions == model.sessions
            &&& after.metrics.replayed_requests == (model.metrics.replayed_requests + 1)
                % 0x1_0000_0000_0000_0000
            &&& after.metrics.cancelled_transfers == model.metrics.cancelled_transfers
        }),
{
    lemma_entitled_place(model, peer, now, credentials, place);
}

/// Pausing makes reads wait, resuming lets them go on, cancelling ends them.
pub proof fn lemma_control_reaches_reads(
    model: ServerModel,
    peer: CertificateFingerprint,
    now: u64,
    credentials: TransferCredentials,
    place: int,
    entry: int,
    sequence: u64,
    opcode: Opcode,
    offset: u64,
    requested: usize,
)
    requires
        entitled(model, peer, now, credentials, place),
        is_file(model.entries, credentials.file_id, entry),
        sequence > model.sessions[place].last_control_sequence,
        requested <= 262_144,
    ensures
        ({
            let before = model.sessions[place].state;
            let after = model.control(peer, true, now, credentials, sequence, opcode).0;
            let (started, admitted) = after.start_read(
                peer,
                true,
                now,
                credentials,
                requested as nat,
            );
            let step = started.poll_read(
                peer,
                true,
                now,
                credentials.transfer_id,
                offset,
                requested as nat,
                false,
            ).1;
            &&& admitted is Ok
            &&& opcode is Pause && before is Running ==> step is Wait
            &&& opcode is Resume && before is Paused ==> step is Read
            &&& opcode is Cancel && (before is Running || before is Paused) ==> step == (
            ReadStep::Answer { outcome: Err(ResponseStatus::Cancelled) })
            &&& opcode is Complete && before is Running ==> step is Read
        }),
{
    lemma_entitled_place(model, peer, now, credentials, place);
    let after = model.control(peer, true, now, credentials, sequence, opcode).0;
    assert forall|k: int| 0 <= k < after.sessions.len() && k != place implies (
    #[trigger] after.sessions[k]).secrets.transfer_id != credentials.transfer_id by {
        assert(after.sessions[k] == model.sessions[k]);
    }
    assert(entitled(after, peer, now, credentials, place));
    lemma_ranges_are_served(after, peer, now, credentials, place, entry, offset, requested);
}

/// A paused read is told that the transfer is paused, once its time is over, and that it is cancelled
/// where the peer lost its trust meanwhile.
pub proof fn lemma_paused_reads_are_told(
    model: ServerModel,
    peer: CertificateFingerprint,
    now: u64,
    credentials: TransferCredentials,
    place: int,
    offset: u64,
    requested: nat,
)
    requires
        entitled(model, peer, now, credentials, place),
        model.sessions[place].state is Paused,
    ensures
        model.poll_read(peer, true, now, credentials.transfer_id, offset, requested, true).1 == (
        ReadStep::Answer {
            outcome: Ok(
                TransferStatus {
                    state: RemoteTransferState::Paused,
                    unique_bytes: model.sessions[place].coverage.unique_bytes,
                },
            ),
        }),
        ({
            let (after, step) = model.poll_read(
                peer,
                false,
                now,
                credentials.transfer_id,
                offset,
                requested,
                false,
            );
            &&& step == (ReadStep::Answer { outcome: Err(ResponseStatus::Denied) })
            &&& after.sessions[place].state is Cancelled
            &&& after.metrics.cancelled_transfers == (model.metrics.cancelled_transfers + 1)
                % 0x1_0000_0000_0000_0000
        }),
{
    lemma_entitled_place(model, peer, now, credentials, place);
}

/// A request for a transfer is denied to any peer but the selected one, to that one where it is no
/// longer trusted, without a transfer of that identifier, and with a credential that differs; where
/// the transfer has expired, that is told. None of them changes a transfer of the selected peer that
/// is trusted.
pub proof fn lemma_requests_are_refused(
    model: ServerModel,
    peer: CertificateFingerprint,
    trusted: bool,
    now: u64,
    credentials: TransferCredentials,
    sequence: u64,
    opcode: Opcode,
    requested: nat,
)
    requires
        requested <= 262_144,
    ensures
        ({
            let status = model.status(peer, trusted, now, credentials).1;
            let control = model.control(peer, trusted, now, credentials, sequence, opcode).1;
            let read = model.start_read(peer, trusted, now, credentials, requested).1;
            let place = model::session_place(model.sessions, credentials.transfer_id) as int;
            &&& peer != model.authorized_peer || !trusted ==> status == Err::<
                TransferStatus,
                ResponseStatus,
            >(ResponseStatus::Denied) && control == Err::<TransferStatus, ResponseStatus>(
                ResponseStatus::Denied,
            ) && read == Err::<(), ResponseStatus>(ResponseStatus::Denied)
            &&& peer == model.authorized_peer && trusted && (forall|k: int|
                0 <= k < model.sessions.len() ==> (#[trigger] model.sessions[k]).secrets.transfer_id
                    != credentials.transfer_id) ==> status == Err::<TransferStatus, ResponseStatus>(
                ResponseStatus::Denied,
            ) && control == Err::<TransferStatus, ResponseStatus>(ResponseStatus::Denied) && read
                == Err::<(), ResponseStatus>(ResponseStatus::Denied)
            &&& peer == model.authorized_peer && trusted && place < model.sessions.len()
                && model.sessions[place].expires_at <= now ==> status == Err::<
                TransferStatus,
                ResponseStatus,
            >(ResponseStatus::Expired) && control == Err::<TransferStatus, ResponseStatus>(
                ResponseStatus::Expired,
            ) && read == Err::<(), ResponseStatus>(ResponseStatus::Expired)
            &&& peer == model.authorized_peer && trusted && place < model.sessions.len()
                && model.sessions[place].expires_at > now && (model.sessions[place].authorized_peer
                != peer || model.sessions[place].offer_id != credentials.offer_id
                || model.sessions[place].file_id != credentials.file_id
                || model.sessions[place].secrets.capability != credentials.capability
                || model.sessions[place].secrets.server_nonce != credentials.server_nonce)
                ==> status == Err::<TransferStatus, ResponseStatus>(ResponseStatus::Denied)
                && control == Err::<TransferStatus, ResponseStatus>(ResponseStatus::Denied) && read
                == Err::<(), ResponseStatus>(ResponseStatus::Denied)
        }),
{
    model::lemma_session_place(model.sessions, credentials.transfer_id);
}

/// Beginning a transfer of an offered file, with a nonce that is not remembered and while there is
/// room, gives credentials of the file. With them every request is heard from then on, for as long as
/// transfers may take: the transfer runs, and nothing of it was served.
pub proof fn lemma_begun_transfers_are_usable(
    model: ServerModel,
    peer: CertificateFingerprint,
    now: u64,
    later: u64,
    file_id: ProtocolId,
    entry: int,
    nonce: [u8; 32],
    secrets: SessionSecrets,
    requested: nat,
)
    requires
        peer == model.authorized_peer,
        now < model.offer_expires_at,
        is_file(model.entries, file_id, entry),
        forall|k: int|
            0 <= k < model.nonces.len() && model.nonces[k].expires_at > now ==> (
            #[trigger] model.nonces[k]).nonce != nonce,
        model::active_count(model.sessions) < 64,
        model.sessions.len() < 4096,
        model.nonces.len() < 4096,
        forall|k: int|
            0 <= k < model.sessions.len() ==> (#[trigger] model.sessions[k]).secrets.transfer_id
                != secrets.transfer_id,
        now + model.transfer_ttl <= u64::MAX,
        now <= later < now + model.transfer_ttl,
        requested <= 262_144,
    ensures
        ({
            let (after, result) = model.begin(
                peer,
                true,
                now,
                model.offer_id,
                file_id,
                nonce,
                Some(secrets),
            );
            &&& result matches Ok(credentials)
            &&& credentials.offer_id == model.offer_id
            &&& credentials.file_id == file_id
            &&& credentials.transfer_id == secrets.transfer_id
            &&& credentials.capability == secrets.capability
            &&& credentials.server_nonce == secrets.server_nonce
            &&& credentials.expires_at_millis * 1_000_000 <= model.transfer_ttl
                < (credentials.expires_at_millis + 1) * 1_000_000
            &&& after.metrics.begun_transfers == (model.metrics.begun_transfers + 1)
                % 0x1_0000_0000_0000_0000
            &&& after.status(peer, true, later, credentials).1 == Ok::<
                TransferStatus,
                ResponseStatus,
            >(TransferStatus { state: RemoteTransferState::Running, unique_bytes: 0 })
            &&& after.start_read(peer, true, later, credentials, requested).1 == Ok::<
                (),
                ResponseStatus,
            >(())
            &&& after.control(peer, true, later, credentials, 1, Opcode::Pause).1 is Ok
            &&& after.begin(peer, true, later, model.offer_id, file_id, nonce, Some(secrets)).1
                == Err::<TransferCredentials, ResponseStatus>(
                if later < model.offer_expires_at {
                    ResponseStatus::Replay
                } else {
                    ResponseStatus::Expired
                },
            )
        }),
{
    let pruned = model.pruned(now);
    assert(offer::has_content(model.entries, file_id));
    model::lemma_live_sessions(model.sessions, now);
    model::lemma_live_nonces(model.nonces, now);
    assert forall|k: int| 0 <= k < pruned.sessions.len() implies (
    #[trigger] pruned.sessions[k]).secrets.transfer_id != secrets.transfer_id by {
        let session = model::live_sessions(model.sessions, now)[k];
        assert(model.sessions.contains(session));
        let j = choose|j: int| 0 <= j < model.sessions.len() && model.sessions[j] == session;
        assert(model.sessions[j].secrets.transfer_id != secrets.transfer_id);
    }
    assert(!model::has_nonce(pruned.nonces, nonce)) by {
        if model::has_nonce(pruned.nonces, nonce) {
            let k = choose|k: int|
                0 <= k < pruned.nonces.len() && (#[trigger] pruned.nonces[k]).nonce == nonce;
            let entry = model::live_nonces(model.nonces, now)[k];
            assert(model.nonces.contains(entry));
            let j = choose|j: int| 0 <= j < model.nonces.len() && model.nonces[j] == entry;
            assert(model.nonces[j].nonce != nonce);
        }
    }
    model::lemma_session_place_is(
        pruned.sessions,
        secrets.transfer_id,
        pruned.sessions.len() as int,
    );
    let (after, result) = model.begin(
        peer,
        true,
        now,
        model.offer_id,
        file_id,
        nonce,
        Some(secrets),
    );
    let credentials = result->Ok_0;
    let place = pruned.sessions.len() as int;
    assert(after.sessions =~= pruned.sessions.push(
        model.fresh_session(peer, now, model.offer_id, file_id, secrets),
    ));
    assert forall|k: int| 0 <= k < after.sessions.len() && k != place implies (
    #[trigger] after.sessions[k]).secrets.transfer_id != credentials.transfer_id by {
        assert(after.sessions[k] == pruned.sessions[k]);
    }
    assert(entitled(after, peer, later, credentials, place));
    lemma_entitled_place(after, peer, later, credentials, place);
    super::laws::lemma_begun_nonce_is_remembered(
        model,
        peer,
        true,
        now,
        model.offer_id,
        file_id,
        nonce,
        Some(secrets),
        later,
    );
}

/// The places of the transfers that run or pause.
pub open spec fn active_places(sessions: Seq<SessionView>) -> Set<int> {
    Set::new(
        |k: int|
            0 <= k < sessions.len() && (sessions[k].state is Running || sessions[k].state is Paused),
    )
}

/// The transfers that are counted are those that run or pause.
pub proof fn lemma_active_transfers_are_counted(sessions: Seq<SessionView>)
    ensures
        active_places(sessions).finite(),
        model::active_count(sessions) == active_places(sessions).len(),
    decreases sessions.len(),
{
    if sessions.len() == 0 {
        assert(active_places(sessions) =~= Set::empty());
    } else {
        let rest = sessions.drop_last();
        let last = sessions.len() - 1;
        lemma_active_transfers_are_counted(rest);
        if sessions.last().state is Running || sessions.last().state is Paused {
            assert(active_places(sessions) =~= active_places(rest).insert(last));
        } else {
            assert(active_places(sessions) =~= active_places(rest));
        }
    }
}

/// No transfer begins beside 64 others that run or pause, or 4096 in all: the server is busy, and
/// what it knows of transfers that have not expired stays as it is.
pub proof fn lemma_busy_servers_wait(
    model: ServerModel,
    peer: CertificateFingerprint,
    now: u64,
    file_id: ProtocolId,
    entry: int,
    nonce: [u8; 32],
    secrets: Option<SessionSecrets>,
)
    requires
        peer == model.authorized_peer,
        now < model.offer_expires_at,
        is_file(model.entries, file_id, entry),
        forall|k: int|
            0 <= k < model.nonces.len() && model.nonces[k].expires_at > now ==> (
            #[trigger] model.nonces[k]).nonce != nonce,
        forall|k: int|
            0 <= k < model.sessions.len() ==> (#[trigger] model.sessions[k]).expires_at > now,
        model::active_count(model.sessions) >= 64 || model.sessions.len() >= 4096,
    ensures
        ({
            let (after, result) = model.begin(
                peer,
                true,
                now,
                model.offer_id,
                file_id,
                nonce,
                secrets,
            );
            &&& result == Err::<TransferCredentials, ResponseStatus>(ResponseStatus::Busy)
            &&& after.sessions == model.sessions
            &&& after.metrics == model.metrics
        }),
{
    assert(offer::has_content(model.entries, file_id));
    lemma_all_live(model.sessions, now);
    model::lemma_live_nonces(model.nonces, now);
    let pruned = model.pruned(now);
    assert(!model::has_nonce(pruned.nonces, nonce)) by {
        if model::has_nonce(pruned.nonces, nonce) {
            let k = choose|k: int|
                0 <= k < pruned.nonces.len() && (#[trigger] pruned.nonces[k]).nonce == nonce;
            let found = model::live_nonces(model.nonces, now)[k];
            assert(model.nonces.contains(found));
            let j = choose|j: int| 0 <= j < model.nonces.len() && model.nonces[j] == found;
            assert(model.nonces[j].nonce != nonce);
        }
    }
}

proof fn lemma_all_live(sessions: Seq<SessionView>, now: u64)
    requires
        forall|k: int| 0 <= k < sessions.len() ==> (#[trigger] sessions[k]).expires_at > now,
    ensures
        model::live_sessions(sessions, now) == sessions,
    decreases sessions.len(),
{
    if sessions.len() > 0 {
        let rest = sessions.drop_last();
        assert forall|k: int| 0 <= k < rest.len() implies (#[trigger] rest[k]).expires_at > now by {
            assert(rest[k] == sessions[k]);
        }
        lemma_all_live(rest, now);
        assert(sessions =~= rest.push(sessions.last()));
    }
}

/// A transfer begins only where the selected peer asks for it, is trusted, names the offer that
/// stands, and asks for a file in it.
pub proof fn lemma_beginning_is_refused(
    model: ServerModel,
    peer: CertificateFingerprint,
    trusted: bool,
    now: u64,
    offer_id: ProtocolId,
    file_id: ProtocolId,
    nonce: [u8; 32],
    secrets: Option<SessionSecrets>,
)
    ensures
        ({
            let (after, result) = model.begin(
                peer,
                trusted,
                now,
                offer_id,
                file_id,
                nonce,
                secrets,
            );
            let file = exists|k: int|
                0 <= k < model.entries.len() && (#[trigger] model.entries[k]).file_id == file_id
                    && model.entries[k].descriptor.attributes & 0x10 == 0;
            &&& peer != model.authorized_peer || !trusted ==> result == Err::<
                TransferCredentials,
                ResponseStatus,
            >(ResponseStatus::Denied)
            &&& peer == model.authorized_peer && trusted && (offer_id != model.offer_id || now
                >= model.offer_expires_at) ==> result == Err::<TransferCredentials, ResponseStatus>(
                ResponseStatus::Expired,
            ) && after == model
            &&& peer == model.authorized_peer && trusted && offer_id == model.offer_id && now
                < model.offer_expires_at && !file ==> result == Err::<
                TransferCredentials,
                ResponseStatus,
            >(ResponseStatus::Denied) && after.sessions == model.sessions
        }),
{
    if offer::has_content(model.entries, file_id) {
        let k = choose|k: int|
            0 <= k < model.entries.len() && (#[trigger] model.entries[k]).file_id == file_id
                && !crate::clipboard::data_object::directory_attributes(
                model.entries[k].descriptor.attributes,
            );
        assert(model.entries[k].file_id == file_id);
    }
}

/// A peer that lost its trust loses every transfer that ran or paused, each counted once, and no
/// other transfer changes.
pub proof fn lemma_distrust_ends_transfers(
    model: ServerModel,
    peer: CertificateFingerprint,
    now: u64,
    credentials: TransferCredentials,
    k: int,
)
    requires
        0 <= k < model.sessions.len(),
    ensures
        ({
            let after = model.status(peer, false, now, credentials).0;
            let before = model.sessions[k];
            &&& after.sessions.len() == model.sessions.len()
            &&& before.authorized_peer == peer && (before.state is Running || before.state is Paused)
                ==> after.sessions[k].state is Cancelled
            &&& before.authorized_peer != peer || before.state is Completed || before.state is Cancelled
                ==> after.sessions[k] == before
            &&& after.sessions[k].secrets == before.secrets && after.sessions[k].expires_at
                == before.expires_at
            &&& after.metrics.denied_requests == (model.metrics.denied_requests + 1)
                % 0x1_0000_0000_0000_0000
        }),
{
}

/// A receiver that is entitled to a transfer is told its state and how many of its bytes were served,
/// each counted once.
pub proof fn lemma_status_is_told(
    model: ServerModel,
    peer: CertificateFingerprint,
    now: u64,
    credentials: TransferCredentials,
    place: int,
)
    requires
        entitled(model, peer, now, credentials, place),
    ensures
        model.status(peer, true, now, credentials) == (
            model,
            Ok::<TransferStatus, ResponseStatus>(
                TransferStatus {
                    state: model.sessions[place].state,
                    unique_bytes: model.sessions[place].coverage.unique_bytes,
                },
            ),
        ),
{
    lemma_entitled_place(model, peer, now, credentials, place);
}

/// Bytes that were read are handed out and counted where the transfer still stands; where it was
/// cancelled, or the peer lost its trust, or the file failed, nothing is handed out and nothing
/// counted.
pub proof fn lemma_finished_reads(
    model: ServerModel,
    peer: CertificateFingerprint,
    trusted: bool,
    now: u64,
    credentials: TransferCredentials,
    place: int,
    offset: u64,
    read: Option<u64>,
)
    requires
        entitled(model, peer, now, credentials, place),
    ensures
        ({
            let before = model.sessions[place];
            let (after, result) = model.finish_read(
                peer,
                trusted,
                now,
                credentials.transfer_id,
                offset,
                read,
            );
            &&& read is None ==> result == Err::<TransferStatus, ResponseStatus>(
                ResponseStatus::SourceChanged,
            ) && after.sessions == model.sessions
            &&& read is Some && !trusted ==> {
                &&& result == Err::<TransferStatus, ResponseStatus>(ResponseStatus::Denied)
                &&& before.state is Running || before.state is Paused ==> after.sessions[place].state is Cancelled
                &&& after.metrics.served_bytes == model.metrics.served_bytes
            }
            &&& read is Some && trusted && before.state is Cancelled ==> result == Err::<
                TransferStatus,
                ResponseStatus,
            >(ResponseStatus::Cancelled) && after.sessions == model.sessions && after.metrics.served_bytes
                == model.metrics.served_bytes
            &&& read is Some && trusted && !(before.state is Cancelled) ==> {
                &&& result == Ok::<TransferStatus, ResponseStatus>(
                    TransferStatus {
                        state: before.state,
                        unique_bytes: before.coverage.noted(offset, read->0).unique_bytes,
                    },
                )
                &&& after.sessions[place].coverage == before.coverage.noted(offset, read->0)
                &&& after.sessions[place].state == before.state
                &&& after.metrics.served_bytes == (model.metrics.served_bytes + read->0)
                    % 0x1_0000_0000_0000_0000
                &&& forall|k: int|
                    0 <= k < model.sessions.len() && k != place ==> #[trigger] after.sessions[k]
                        == model.sessions[k]
            }
        }),
{
    lemma_entitled_place(model, peer, now, credentials, place);
}

/// Bytes of a transfer that expired while they were read are not handed out.
pub proof fn lemma_late_reads(
    model: ServerModel,
    peer: CertificateFingerprint,
    trusted: bool,
    now: u64,
    transfer_id: ProtocolId,
    offset: u64,
    requested: nat,
    read: u64,
)
    requires
        trusted,
        peer == model.authorized_peer,
        model.reading(transfer_id) matches Some(session) && session.expires_at <= now,
    ensures
        model.finish_read(peer, trusted, now, transfer_id, offset, Some(read)).1 == Err::<
            TransferStatus,
            ResponseStatus,
        >(ResponseStatus::Expired),
        model.poll_read(peer, trusted, now, transfer_id, offset, requested, false).1 == (ReadStep::Answer {
            outcome: Err(ResponseStatus::Expired),
        }),
{
}

/// A paused read looks again after five seconds at most, and never later than a request or the
/// transfer itself may take.
pub proof fn lemma_paused_reads_look_again(model: ServerModel, left: u64)
    ensures
        model.poll_nanos(left) <= 5_000_000_000,
        model.poll_nanos(left) <= model.request_timeout,
        model.poll_nanos(left) <= left,
        model.poll_nanos(left) == 5_000_000_000 || model.poll_nanos(left) == model.request_timeout
            || model.poll_nanos(left) == left,
{
}

/// A connection may be silent for as long as a transfer or a request may take.
pub proof fn lemma_silent_connections(model: ServerModel)
    ensures
        model.idle_timeout() >= model.transfer_ttl,
        model.idle_timeout() >= model.request_timeout,
        model.idle_timeout() == model.transfer_ttl || model.idle_timeout() == model.request_timeout,
{
}

/// Each read is counted, from when it is admitted until it is over; the largest number at a time is
/// kept.
pub proof fn lemma_reads_are_counted(
    model: ServerModel,
    peer: CertificateFingerprint,
    now: u64,
    credentials: TransferCredentials,
    place: int,
    requested: nat,
)
    requires
        entitled(model, peer, now, credentials, place),
        requested <= 262_144,
        model.metrics.active_reads < 0xffff_ffff_ffff_ffff,
    ensures
        ({
            let started = model.start_read(peer, true, now, credentials, requested).0;
            let ended = started.with_read_ended(credentials.transfer_id);
            &&& started.metrics.active_reads == model.metrics.active_reads + 1
            &&& started.metrics.read_requests == (model.metrics.read_requests + 1)
                % 0x1_0000_0000_0000_0000
            &&& started.metrics.max_concurrent_reads >= started.metrics.active_reads
            &&& started.metrics.max_concurrent_reads == model.metrics.max_concurrent_reads
                || started.metrics.max_concurrent_reads == started.metrics.active_reads
            &&& started.metrics.max_concurrent_reads >= model.metrics.max_concurrent_reads
            &&& started.reads == model.reads.push(credentials.transfer_id)
            &&& ended.metrics.active_reads == model.metrics.active_reads
        }),
{
    lemma_entitled_place(model, peer, now, credentials, place);
}

/// A server takes 32 connections at a time; each that comes is counted, and each that is turned away
/// or goes wrong too, by its reason.
pub proof fn lemma_connections_are_counted(model: ServerModel, workers: nat, end: ConnectionEnd)
    ensures
        ({
            let (after, admitted) = model.admit_connection(workers);
            &&& admitted <==> workers < 32
            &&& after.metrics.accepted_connections == (model.metrics.accepted_connections + 1)
                % 0x1_0000_0000_0000_0000
            &&& admitted ==> after.metrics.protocol_errors == model.metrics.protocol_errors
            &&& !admitted ==> after.metrics.protocol_errors == (model.metrics.protocol_errors + 1)
                % 0x1_0000_0000_0000_0000
            &&& after.sessions == model.sessions && after.nonces == model.nonces
        }),
        ({
            let after = model.end_connection(end);
            &&& end is ProtocolError ==> after.metrics.protocol_errors == (model.metrics.protocol_errors + 1)
                % 0x1_0000_0000_0000_0000 && after.metrics.tls_failures == model.metrics.tls_failures
            &&& end is TlsFailure ==> after.metrics.tls_failures == (model.metrics.tls_failures + 1)
                % 0x1_0000_0000_0000_0000 && after.metrics.protocol_errors == model.metrics.protocol_errors
            &&& end is Closed || end is Denied ==> after == model
            &&& after.sessions == model.sessions
        }),
{
}

/// What expired is forgotten, and nothing else: transfers and nonces alike, one after the other.
pub proof fn lemma_what_expired_is_forgotten(
    sessions: Seq<SessionView>,
    session: SessionView,
    nonces: Seq<BeginNonce>,
    nonce: BeginNonce,
    now: u64,
)
    ensures
        model::live_sessions(Seq::empty(), now) == Seq::<SessionView>::empty(),
        model::live_nonces(Seq::empty(), now) == Seq::<BeginNonce>::empty(),
        now < session.expires_at ==> model::live_sessions(sessions.push(session), now)
            == model::live_sessions(sessions, now).push(session),
        now >= session.expires_at ==> model::live_sessions(sessions.push(session), now)
            == model::live_sessions(sessions, now),
        now < nonce.expires_at ==> model::live_nonces(nonces.push(nonce), now) == model::live_nonces(
            nonces,
            now,
        ).push(nonce),
        now >= nonce.expires_at ==> model::live_nonces(nonces.push(nonce), now) == model::live_nonces(
            nonces,
            now,
        ),
{
    assert(sessions.push(session).drop_last() =~= sessions);
    assert(nonces.push(nonce).drop_last() =~= nonces);
}

/// The progress of a server is the sum of that of its transfers.
pub proof fn lemma_progress_is_summed(sessions: Seq<SessionView>, session: SessionView)
    ensures
        model::unique_total(Seq::<SessionView>::empty()) == 0,
        model::unique_total(sessions.push(session)) == model::unique_total(sessions)
            + session.coverage.unique_bytes,
{
    assert(sessions.push(session).drop_last() =~= sessions);
}

/// What a server counted is told as it was counted.
pub proof fn lemma_counts_are_told(
    server: &ServerState,
    told: SecureMetricsSnapshot,
)
    requires
        call_ensures(ServerState::metrics, (server,), told),
    ensures
        told.accepted_connections == server@.metrics.accepted_connections,
        told.tls_failures == server@.metrics.tls_failures,
        told.protocol_errors == server@.metrics.protocol_errors,
        told.denied_requests == server@.metrics.denied_requests,
        told.replayed_requests == server@.metrics.replayed_requests,
        told.begun_transfers == server@.metrics.begun_transfers,
        told.read_requests == server@.metrics.read_requests,
        told.served_bytes == server@.metrics.served_bytes,
        told.cancelled_transfers == server@.metrics.cancelled_transfers,
        told.active_reads == server@.metrics.active_reads,
        told.max_concurrent_reads == server@.metrics.max_concurrent_reads,
        told.unique_bytes == model::unique_total(server@.sessions) % 0x1_0000_0000_0000_0000,
{
}

/// A server starts with nothing begun and nothing counted, for one peer, where it has time for
/// transfers and requests.
pub proof fn lemma_servers_start(
    offered: SecureOfferedFile,
    peer: CertificateFingerprint,
    transfer_ttl: u64,
    request_timeout: u64,
    result: Result<ServerState, Failure>,
)
    requires
        offered.wf(),
        call_ensures(ServerState::new, (offered, peer, transfer_ttl, request_timeout), result),
    ensures
        result is Ok <==> transfer_ttl > 0 && request_timeout > 0,
        result matches Ok(server) ==> {
            &&& server@.offer_id == offered.spec_offer_id()
            &&& server@.entries == offered.entries()
            &&& server@.offer_expires_at == offered.spec_expires_at()
            &&& server@.authorized_peer == peer
            &&& server@.transfer_ttl == transfer_ttl && server@.request_timeout == request_timeout
            &&& server@.sessions.len() == 0 && server@.nonces.len() == 0 && server@.reads.len() == 0
            &&& server@.metrics.begun_transfers == 0 && server@.metrics.served_bytes == 0
            &&& server@.metrics.cancelled_transfers == 0 && server@.metrics.active_reads == 0
        },
{
}

/// The state of a group of files: cancelled once one of them is, else running while one runs, else
/// paused while one is, and completed once all are.
pub proof fn lemma_states_of_groups(started: Seq<StartedTransfer>)
    ensures
        remote::group_state(started) is Cancelled <==> exists|k: int|
            0 <= k < started.len() && (#[trigger] started[k]).status.state is Cancelled,
        remote::group_state(started) is Completed <==> forall|k: int|
            0 <= k < started.len() ==> (#[trigger] started[k]).status.state is Completed,
        remote::group_state(started) is Running ==> exists|k: int|
            0 <= k < started.len() && (#[trigger] started[k]).status.state is Running,
        remote::group_state(started) is Paused ==> forall|k: int|
            0 <= k < started.len() ==> (#[trigger] started[k]).status.state is Paused
                || started[k].status.state is Completed,
{
    if exists|k: int| 0 <= k < started.len() && (#[trigger] started[k]).status.state is Cancelled {
        let k = choose|k: int|
            0 <= k < started.len() && (#[trigger] started[k]).status.state is Cancelled;
        assert(started[k].status.state == RemoteTransferState::Cancelled);
    }
    assert forall|k: int|
        0 <= k < started.len() && !remote::one_is(started, RemoteTransferState::Cancelled)
            && !remote::one_is(started, RemoteTransferState::Running) && !remote::one_is(
            started,
            RemoteTransferState::Paused,
        ) implies (#[trigger] started[k]).status.state is Completed by {
        let state = started[k].status.state;
        assert(state != RemoteTransferState::Cancelled);
        assert(state != RemoteTransferState::Running);
        assert(state != RemoteTransferState::Paused);
    }
    assert forall|k: int|
        0 <= k < started.len() && !remote::one_is(started, RemoteTransferState::Cancelled)
            && !remote::one_is(started, RemoteTransferState::Running) implies (
    #[trigger] started[k]).status.state is Paused || started[k].status.state is Completed by {
        let state = started[k].status.state;
        assert(state != RemoteTransferState::Cancelled);
        assert(state != RemoteTransferState::Running);
    }
}

/// The progress of a group is the sum of that of its files, as long as that fits.
pub proof fn lemma_progress_of_groups(
    started: Seq<StartedTransfer>,
    next: StartedTransfer,
    number: spec_fn(StartedTransfer) -> u64,
)
    ensures
        remote::group_sum(Seq::empty(), number) == 0,
        remote::group_sum(started.push(next), number) == remote::group_sum(started, number) + number(next),
        remote::group_sum(started, number) <= u64::MAX ==> remote::saturated(
            remote::group_sum(started, number),
        ) == remote::group_sum(started, number),
        remote::group_sum(started, number) > u64::MAX ==> remote::saturated(
            remote::group_sum(started, number),
        ) == 0xffff_ffff_ffff_ffff,
        remote::group_status(started).unique_bytes == remote::saturated(
            remote::group_sum(started, |one: StartedTransfer| one.status.unique_bytes),
        ),
        remote::group_status(started).read_calls == remote::saturated(
            remote::group_sum(started, |one: StartedTransfer| one.read_calls),
        ),
        remote::group_status(started).bytes_read == remote::saturated(
            remote::group_sum(started, |one: StartedTransfer| one.bytes_read),
        ),
{
    assert(started.push(next).drop_last() =~= started);
}

/// A file counts as started once its transfer was begun, and as unfinished until its end was told;
/// the bytes that were read of started files are summed up.
pub proof fn lemma_files_of_groups(sources: Seq<SecureRemoteSource>, next: SecureRemoteSource)
    ensures
        ({
            let more = sources.push(next);
            &&& next.transfer is Some ==> {
                &&& remote::started_places(more) == remote::started_places(sources).push(
                    sources.len() as int,
                )
                &&& remote::started_bytes(more) == remote::started_bytes(sources) + next.bytes_read
            }
            &&& next.transfer is None ==> {
                &&& remote::started_places(more) == remote::started_places(sources)
                &&& remote::started_bytes(more) == remote::started_bytes(sources)
            }
            &&& next.transfer is Some && !next.completion_sent ==> remote::unfinished_places(more)
                == remote::unfinished_places(sources).push(sources.len() as int)
            &&& next.transfer is None || next.completion_sent ==> remote::unfinished_places(more)
                == remote::unfinished_places(sources)
        }),
        remote::started_places(Seq::empty()).len() == 0,
        remote::unfinished_places(Seq::empty()).len() == 0,
        remote::started_bytes(Seq::empty()) == 0,
{
    assert(sources.push(next).drop_last() =~= sources);
}

/// What a receiver knows of its own progress: the bytes and the files that were started, those that
/// are over, and the latest that is not.
pub proof fn lemma_local_progress(registry: &RemoteTransferRegistry, progress: LocalProgress)
    requires
        call_ensures(RemoteTransferRegistry::local_progress, (registry,), progress),
    ensures
        progress.started_transfers == remote::started_places(registry.spec_sources()).len(),
        progress.completed_transfers + remote::unfinished_places(registry.spec_sources()).len()
            == progress.started_transfers,
        remote::started_bytes(registry.spec_sources()) <= u64::MAX ==> progress.bytes_read
            == remote::started_bytes(registry.spec_sources()),
        progress.current is None <==> remote::unfinished_places(registry.spec_sources()).len() == 0,
        progress.current matches Some(place) ==> place == remote::unfinished_places(
            registry.spec_sources(),
        ).last(),
{
}

/// A receiver remembers the latest 4096 files that it opened, in the order in which it opened them.
pub proof fn lemma_opened_files_are_remembered(sources: Seq<SecureRemoteSource>)
    ensures
        sources.len() <= 4096 ==> remote::newest(sources) == sources,
        sources.len() > 4096 ==> {
            &&& remote::newest(sources).len() == 4096
            &&& forall|k: int|
                0 <= k < 4096 ==> #[trigger] remote::newest(sources)[k] == sources[sources.len() - 4096 + k]
        },
{
}

/// A file that is opened has nothing read, no transfer, and the size that the offer told.
pub proof fn lemma_files_are_opened(
    registry: &mut RemoteTransferRegistry,
    entry: &OfferManifestEntry,
    source: SecureRemoteSource,
)
    requires
        call_ensures(RemoteTransferRegistry::create_source_for_entry, (registry, entry), source),
    ensures
        source.size == entry.descriptor.size,
        source.transfer is None,
        !source.completion_sent,
        source.bytes_read == 0 && source.read_calls == 0,
        source.next_control_sequence == 1,
        old(registry).spec_sources().len() < 4096 ==> final(registry).spec_sources() == old(
            registry,
        ).spec_sources().push(source),
        final(registry).spec_paused() == old(registry).spec_paused(),
        final(registry).spec_cancelled() == old(registry).spec_cancelled(),
{
}

/// Pausing a group holds it and each file that was started; resuming lets go of them again;
/// cancelling ends it for good. Without a started file there is nothing to control.
pub proof fn lemma_groups_are_controlled(
    pausing: &mut RemoteTransferRegistry,
    paused: Result<Vec<usize>, Failure>,
    resuming: &mut RemoteTransferRegistry,
    resumed: Result<Vec<usize>, Failure>,
    cancelling: &mut RemoteTransferRegistry,
    cancelled: Result<Vec<usize>, Failure>,
)
    requires
        call_ensures(RemoteTransferRegistry::pause_all, (pausing,), paused),
        call_ensures(RemoteTransferRegistry::resume_all, (resuming,), resumed),
        call_ensures(RemoteTransferRegistry::cancel_all, (cancelling,), cancelled),
    ensures
        paused is Ok <==> remote::started_places(old(pausing).spec_sources()).len() > 0,
        paused is Ok ==> final(pausing).spec_paused(),
        paused matches Ok(places) ==> places@.len() == remote::started_places(
            old(pausing).spec_sources(),
        ).len(),
        final(pausing).spec_cancelled() == old(pausing).spec_cancelled(),
        resumed is Ok <==> remote::started_places(old(resuming).spec_sources()).len() > 0,
        resumed is Ok ==> !final(resuming).spec_paused(),
        final(resuming).spec_cancelled() == old(resuming).spec_cancelled(),
        cancelled is Ok <==> remote::started_places(old(cancelling).spec_sources()).len() > 0,
        cancelled is Ok ==> final(cancelling).spec_cancelled() && !final(cancelling).spec_paused(),
        paused is Err ==> final(pausing).spec_paused() == old(pausing).spec_paused(),
        resumed is Err ==> final(resuming).spec_paused() == old(resuming).spec_paused(),
        cancelled is Err ==> final(cancelling).spec_cancelled() == old(cancelling).spec_cancelled(),
{
    if let Ok(places) = paused {
        assert(places@.map_values(|place: usize| place as int).len() == places@.len());
    }
    if let Ok(places) = resumed {
        assert(places@.map_values(|place: usize| place as int).len() == places@.len());
    }
    if let Ok(places) = cancelled {
        assert(places@.map_values(|place: usize| place as int).len() == places@.len());
    }
}

/// Each control request of a file has the next number, and its end is told once.
pub proof fn lemma_control_is_numbered(
    pausing: &mut SecureRemoteSource,
    paused: ControlStep,
    completing: &mut SecureRemoteSource,
    completed: Option<ControlStep>,
)
    requires
        call_ensures(SecureRemoteSource::pause, (pausing,), paused),
        call_ensures(SecureRemoteSource::complete, (completing,), completed),
    ensures
        paused.opcode is Pause,
        paused.sequence == old(pausing).next_control_sequence,
        final(pausing).next_control_sequence == (old(pausing).next_control_sequence + 1)
            % 0x1_0000_0000_0000_0000,
        completed is None <==> old(completing).completion_sent,
        completed matches Some(step) ==> step.opcode is Complete && step.sequence == old(
            completing,
        ).next_control_sequence && final(completing).next_control_sequence == (old(
            completing,
        ).next_control_sequence + 1) % 0x1_0000_0000_0000_0000,
        final(completing).bytes_read == old(completing).bytes_read,
{
}

/// Resuming and cancelling a file ask for just that, under the next number.
pub proof fn lemma_control_asks(
    resuming: &mut SecureRemoteSource,
    resumed: ControlStep,
    cancelling: &mut SecureRemoteSource,
    cancelled: ControlStep,
)
    requires
        call_ensures(SecureRemoteSource::resume, (resuming,), resumed),
        call_ensures(SecureRemoteSource::cancel, (cancelling,), cancelled),
    ensures
        resumed.opcode is Resume,
        resumed.sequence == old(resuming).next_control_sequence,
        final(resuming).next_control_sequence == (old(resuming).next_control_sequence + 1)
            % 0x1_0000_0000_0000_0000,
        cancelled.opcode is Cancel,
        cancelled.sequence == old(cancelling).next_control_sequence,
        final(cancelling).next_control_sequence == (old(cancelling).next_control_sequence + 1)
            % 0x1_0000_0000_0000_0000,
{
}

/// Bytes that came are delivered and counted.
pub proof fn lemma_bytes_are_delivered(
    source: SecureRemoteSource,
    offset: u64,
    state: RemoteTransferState,
    received: usize,
)
    requires
        received > 0,
    ensures
        source.taking(offset, state, received).1 is Deliver,
        source.taking(offset, state, received).0.bytes_read == (source.bytes_read + received)
            % 0x1_0000_0000_0000_0000,
        source.taking(offset, state, received).0.completion_sent == source.completion_sent,
        source.taking(offset, state, received).0.next_control_sequence == source.next_control_sequence,
{
}

/// The latest file that was started is the last one in the order in which they were opened.
pub proof fn lemma_latest_started(registry: &RemoteTransferRegistry, result: Result<usize, Failure>)
    requires
        call_ensures(RemoteTransferRegistry::latest_started, (registry,), result),
    ensures
        result is Ok <==> exists|k: int|
            0 <= k < registry.spec_sources().len() && (#[trigger] registry.spec_sources()[k]).transfer is Some,
        result matches Ok(place) ==> registry.spec_sources()[place as int].transfer is Some && forall|k: int|
            place < k < registry.spec_sources().len() ==> (
            #[trigger] registry.spec_sources()[k]).transfer is None,
{
    if let Ok(place) = result {
        assert(registry.spec_sources()[place as int].transfer is Some);
    }
}

/// Reads that are under way are counted one by one, and so is the most there ever were at once.
pub proof fn lemma_reads_under_way_are_counted(before: SecureMetrics)
    requires
        before.active_reads < 0xffff_ffff_ffff_ffff,
    ensures
        before.read_begun().active_reads == before.active_reads + 1,
        before.read_begun().max_concurrent_reads >= before.active_reads + 1,
        before.read_begun().max_concurrent_reads == before.active_reads + 1
            || before.read_begun().max_concurrent_reads == before.max_concurrent_reads,
        before.read_begun().max_concurrent_reads >= before.max_concurrent_reads,
        before.read_begun().read_ended() == (SecureMetrics {
            max_concurrent_reads: before.read_begun().max_concurrent_reads,
            ..before
        }),
{
}

/// A source for an offer stands for its first entry that is no directory, from the start, and behind
/// those that there were, of which 4096 stay.
pub proof fn lemma_first_files_are_sources(
    registry: &mut RemoteTransferRegistry,
    manifest: &OfferManifest,
    source: SecureRemoteSource,
    first: int,
)
    requires
        call_ensures(RemoteTransferRegistry::create_source, (registry, manifest), source),
        0 <= first < manifest.entries@.len(),
        !manifest.entries@[first].descriptor.spec_is_directory(),
        forall|k: int|
            0 <= k < first ==> (#[trigger] manifest.entries@[k]).descriptor.spec_is_directory(),
    ensures
        source.size == manifest.entries@[first].descriptor.size,
        source.transfer is None && source.read_calls == 0 && source.bytes_read == 0
            && !source.completion_sent && source.next_control_sequence == 1,
        final(registry).spec_sources().len() > 0 && final(registry).spec_sources().last() == source,
        old(registry).spec_sources().len() < 4096 ==> final(registry).spec_sources() == old(
            registry,
        ).spec_sources().push(source),
        old(registry).spec_sources().len() >= 4096 ==> final(registry).spec_sources().len() == 4096,
{
    assert(remote::is_first_file(manifest.entries@, first));
    let place = choose|place: int|
        remote::is_first_file(manifest.entries@, place) && source == SecureRemoteSource::fresh(
            manifest.entries@[place].descriptor.size,
        );
    if place < first {
        assert(manifest.entries@[place].descriptor.spec_is_directory());
    }
    if first < place {
        assert(manifest.entries@[first].descriptor.spec_is_directory());
    }
}

} // verus!
