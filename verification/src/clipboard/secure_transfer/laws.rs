//! What holds of a server over several requests.

use super::dispatch;
use super::dispatch::ReplyView;
use super::manifest;
use super::manifest::ManifestView;
use super::model;
use super::model::{
    BeginNonce, ReadStep, ServerModel, SessionSecrets, SessionView, NANOS_PER_MILLI,
};
use super::wire::{
    Opcode, ProtocolId, RemoteTransferState, ResponseStatus, TransferCredentials, TransferStatus,
};
use crate::clipboard::coverage;
use crate::counter;
use crate::failure::Failure;
use crate::security::CertificateFingerprint;
use vstd::prelude::*;

verus! {

/// Whether a nonce that began a transfer is remembered at `now`.
pub open spec fn remembers(model: ServerModel, nonce: [u8; 32], now: u64) -> bool {
    model::has_nonce(model::live_nonces(model.nonces, now), nonce)
}

proof fn lemma_live_nonce_kept(nonces: Seq<BeginNonce>, now: u64, place: int)
    requires
        0 <= place < nonces.len(),
        nonces[place].expires_at > now,
    ensures
        model::live_nonces(nonces, now).contains(nonces[place]),
    decreases nonces.len(),
{
    let rest = nonces.drop_last();
    let live = model::live_nonces(nonces, now);
    if place == nonces.len() - 1 {
        assert(live[live.len() - 1] == nonces[place]);
    } else {
        lemma_live_nonce_kept(rest, now, place);
        let live_rest = model::live_nonces(rest, now);
        let at = choose|at: int| 0 <= at < live_rest.len() && live_rest[at] == rest[place];
        assert(live[at] == nonces[place]);
    }
}

/// A nonce that is remembered is remembered in the list itself, with an end that is still to come.
proof fn lemma_remembered_entry(model: ServerModel, nonce: [u8; 32], now: u64) -> (place: int)
    requires
        remembers(model, nonce, now),
    ensures
        0 <= place < model.nonces.len(),
        model.nonces[place].nonce == nonce,
        model.nonces[place].expires_at > now,
{
    model::lemma_live_nonces(model.nonces, now);
    let live = model::live_nonces(model.nonces, now);
    let k = choose|k: int| 0 <= k < live.len() && (#[trigger] live[k]).nonce == nonce;
    let entry = live[k];
    assert(model.nonces.contains(entry));
    let place = choose|place: int| 0 <= place < model.nonces.len() && model.nonces[place] == entry;
    place
}

proof fn lemma_entry_remembered(model: ServerModel, place: int, now: u64)
    requires
        0 <= place < model.nonces.len(),
        model.nonces[place].expires_at > now,
    ensures
        remembers(model, model.nonces[place].nonce, now),
{
    lemma_live_nonce_kept(model.nonces, now, place);
    let live = model::live_nonces(model.nonces, now);
    let at = choose|at: int| 0 <= at < live.len() && live[at] == model.nonces[place];
    assert(live[at].nonce == model.nonces[place].nonce);
}

/// A request to begin a transfer is refused as a replay while its nonce is remembered, whatever
/// secrets are drawn.
pub proof fn lemma_remembered_nonce_is_replay(
    model: ServerModel,
    peer: CertificateFingerprint,
    now: u64,
    file_id: ProtocolId,
    nonce: [u8; 32],
    secrets: Option<SessionSecrets>,
)
    requires
        model.allows(peer, true),
        now < model.offer_expires_at,
        model.has_source(file_id),
        remembers(model, nonce, now),
    ensures
        model.begin(peer, true, now, model.offer_id, file_id, nonce, secrets).1 == Err::<
            TransferCredentials,
            ResponseStatus,
        >(ResponseStatus::Replay),
{
}

/// The nonce of a begun transfer is remembered for as long as the transfer may last.
pub proof fn lemma_begun_nonce_is_remembered(
    model: ServerModel,
    peer: CertificateFingerprint,
    trusted: bool,
    now: u64,
    offer_id: ProtocolId,
    file_id: ProtocolId,
    nonce: [u8; 32],
    secrets: Option<SessionSecrets>,
    later: u64,
)
    requires
        model.begin(peer, trusted, now, offer_id, file_id, nonce, secrets).1 is Ok,
        later < now + model.transfer_ttl,
    ensures
        remembers(
            model.begin(peer, trusted, now, offer_id, file_id, nonce, secrets).0,
            nonce,
            later,
        ),
{
    let after = model.begin(peer, trusted, now, offer_id, file_id, nonce, secrets).0;
    lemma_entry_remembered(after, after.nonces.len() - 1, later);
}

/// Whatever other requests come before `later`, a nonce that is remembered until then stays so.
pub proof fn lemma_begin_keeps_nonces(
    model: ServerModel,
    peer: CertificateFingerprint,
    trusted: bool,
    now: u64,
    offer_id: ProtocolId,
    file_id: ProtocolId,
    other: [u8; 32],
    secrets: Option<SessionSecrets>,
    nonce: [u8; 32],
    later: u64,
)
    requires
        now <= later,
        remembers(model, nonce, later),
    ensures
        remembers(
            model.begin(peer, trusted, now, offer_id, file_id, other, secrets).0,
            nonce,
            later,
        ),
{
    let after = model.begin(peer, trusted, now, offer_id, file_id, other, secrets).0;
    let place = lemma_remembered_entry(model, nonce, later);
    lemma_live_nonce_kept(model.nonces, now, place);
    let live = model::live_nonces(model.nonces, now);
    let at = choose|at: int| 0 <= at < live.len() && live[at] == model.nonces[place];
    if after.nonces == model.nonces {
        lemma_entry_remembered(after, place, later);
    } else {
        assert(after.nonces[at] == model.nonces[place]);
        lemma_entry_remembered(after, at, later);
    }
}

/// Requests other than those to begin a transfer leave the remembered nonces alone.
pub proof fn lemma_other_requests_keep_nonces(
    model: ServerModel,
    peer: CertificateFingerprint,
    trusted: bool,
    now: u64,
    credentials: TransferCredentials,
    sequence: u64,
    opcode: Opcode,
    offset: u64,
    requested: nat,
    timed_out: bool,
    read: Option<u64>,
)
    ensures
        model.control(peer, trusted, now, credentials, sequence, opcode).0.nonces == model.nonces,
        model.status(peer, trusted, now, credentials).0.nonces == model.nonces,
        model.start_read(peer, trusted, now, credentials, requested).0.nonces == model.nonces,
        model.poll_read(
            peer,
            trusted,
            now,
            credentials.transfer_id,
            offset,
            requested,
            timed_out,
        ).0.nonces == model.nonces,
        model.finish_read(
            peer,
            trusted,
            now,
            credentials.transfer_id,
            offset,
            read,
        ).0.nonces == model.nonces,
{
}

/// A control request that was carried out is refused when it comes again, and so is every older
/// one: sequence numbers only grow.
pub proof fn lemma_repeated_control_is_replay(
    model: ServerModel,
    peer: CertificateFingerprint,
    now: u64,
    credentials: TransferCredentials,
    sequence: u64,
    opcode: Opcode,
    later: u64,
    repeated: u64,
    other: Opcode,
)
    requires
        model.consistent(),
        model.control(peer, true, now, credentials, sequence, opcode).1 is Ok,
        repeated <= sequence,
        later < model.sessions[model::session_place(
            model.sessions,
            credentials.transfer_id,
        ) as int].expires_at,
    ensures
        ({
            let after = model.control(peer, true, now, credentials, sequence, opcode).0;
            let again = after.control(peer, true, later, credentials, repeated, other);
            &&& again.1 == Err::<TransferStatus, ResponseStatus>(ResponseStatus::Replay)
            &&& again.0.sessions == after.sessions
        }),
{
    let after = model.control(peer, true, now, credentials, sequence, opcode).0;
    let place = model::session_place(model.sessions, credentials.transfer_id) as int;
    model::lemma_session_place(model.sessions, credentials.transfer_id);
    assert forall|k: int| 0 <= k < place implies (
    #[trigger] after.sessions[k]).secrets.transfer_id != credentials.transfer_id by {
        assert(after.sessions[k] == model.sessions[k]);
    }
    model::lemma_session_place_is(after.sessions, credentials.transfer_id, place);
}

/// A transfer that was cancelled or completed never leaves that state: whatever is asked of the
/// server, it is in the same state as long as it is known.
pub open spec fn ended_stays_ended(before: ServerModel, after: ServerModel) -> bool {
    forall|j: int, k: int|
        0 <= j < before.sessions.len() && 0 <= k < after.sessions.len() && (
        #[trigger] before.sessions[j]).secrets.transfer_id == (
        #[trigger] after.sessions[k]).secrets.transfer_id && !before.sessions[j].state.is_active()
            ==> after.sessions[k].state == before.sessions[j].state
}

proof fn lemma_refusal_keeps_ended(model: ServerModel, peer: CertificateFingerprint)
    requires
        model.consistent(),
    ensures
        ended_stays_ended(model, model.with_peer_refused(peer)),
        ended_stays_ended(model, model),
{
    let after = model.with_peer_refused(peer);
    assert forall|j: int, k: int|
        0 <= j < model.sessions.len() && 0 <= k < after.sessions.len() && (
        #[trigger] model.sessions[j]).secrets.transfer_id == (
        #[trigger] after.sessions[k]).secrets.transfer_id
            && !model.sessions[j].state.is_active() implies after.sessions[k].state
        == model.sessions[j].state by {
        assert(after.sessions[k] == model::cancelled_for(model.sessions[k], peer));
        if j < k {
            assert(model.sessions[j].secrets.transfer_id != model.sessions[k].secrets.transfer_id);
        } else if k < j {
            assert(model.sessions[k].secrets.transfer_id != model.sessions[j].secrets.transfer_id);
        }
    }
    assert forall|j: int, k: int|
        0 <= j < model.sessions.len() && 0 <= k < model.sessions.len() && (
        #[trigger] model.sessions[j]).secrets.transfer_id == (
        #[trigger] model.sessions[k]).secrets.transfer_id
            && !model.sessions[j].state.is_active() implies model.sessions[k].state
        == model.sessions[j].state by {
        if j < k {
            assert(model.sessions[j].secrets.transfer_id != model.sessions[k].secrets.transfer_id);
        } else if k < j {
            assert(model.sessions[k].secrets.transfer_id != model.sessions[j].secrets.transfer_id);
        }
    }
}

proof fn lemma_update_keeps_ended(model: ServerModel, place: int, session: SessionView)
    requires
        model.consistent(),
        0 <= place < model.sessions.len(),
        session.secrets.transfer_id == model.sessions[place].secrets.transfer_id,
        !model.sessions[place].state.is_active() ==> session.state == model.sessions[place].state,
    ensures
        ended_stays_ended(model, model.with_session_at(place, session)),
{
    let after = model.with_session_at(place, session);
    lemma_refusal_keeps_ended(model, model.authorized_peer);
    assert forall|j: int, k: int|
        0 <= j < model.sessions.len() && 0 <= k < after.sessions.len() && (
        #[trigger] model.sessions[j]).secrets.transfer_id == (
        #[trigger] after.sessions[k]).secrets.transfer_id
            && !model.sessions[j].state.is_active() implies after.sessions[k].state
        == model.sessions[j].state by {
        assert(model.sessions[k].secrets.transfer_id == after.sessions[k].secrets.transfer_id);
        if j < k {
            assert(model.sessions[j].secrets.transfer_id != model.sessions[k].secrets.transfer_id);
        } else if k < j {
            assert(model.sessions[k].secrets.transfer_id != model.sessions[j].secrets.transfer_id);
        }
    }
}

/// A control or status request leaves ended transfers ended.
pub proof fn lemma_control_keeps_ended(
    model: ServerModel,
    peer: CertificateFingerprint,
    trusted: bool,
    now: u64,
    credentials: TransferCredentials,
    sequence: u64,
    opcode: Opcode,
)
    requires
        model.consistent(),
    ensures
        ended_stays_ended(
            model,
            model.control(peer, trusted, now, credentials, sequence, opcode).0,
        ),
        ended_stays_ended(model, model.status(peer, trusted, now, credentials).0),
{
    lemma_refusal_keeps_ended(model, peer);
    model::lemma_session_place(model.sessions, credentials.transfer_id);
    let place = model::session_place(model.sessions, credentials.transfer_id) as int;
    if place < model.sessions.len() {
        let session = model.sessions[place];
        lemma_update_keeps_ended(
            model,
            place,
            SessionView {
                last_control_sequence: sequence,
                state: model::controlled(session.state, opcode),
                ..session
            },
        );
    }
}

/// A read leaves ended transfers ended.
pub proof fn lemma_read_keeps_ended(
    model: ServerModel,
    peer: CertificateFingerprint,
    trusted: bool,
    now: u64,
    credentials: TransferCredentials,
    offset: u64,
    requested: nat,
    timed_out: bool,
    read: Option<u64>,
)
    requires
        model.consistent(),
    ensures
        ended_stays_ended(
            model,
            model.start_read(peer, trusted, now, credentials, requested).0,
        ),
        ended_stays_ended(
            model,
            model.poll_read(
                peer,
                trusted,
                now,
                credentials.transfer_id,
                offset,
                requested,
                timed_out,
            ).0,
        ),
        ended_stays_ended(
            model,
            model.finish_read(peer, trusted, now, credentials.transfer_id, offset, read).0,
        ),
{
    lemma_refusal_keeps_ended(model, peer);
    model::lemma_session_place(model.sessions, credentials.transfer_id);
    let place = model::session_place(model.sessions, credentials.transfer_id) as int;
    if place < model.sessions.len() {
        let session = model.sessions[place];
        if session.state.is_active() {
            lemma_update_keeps_ended(
                model,
                place,
                SessionView { state: RemoteTransferState::Cancelled, ..session },
            );
        }
        if read is Some {
            lemma_update_keeps_ended(
                model,
                place,
                SessionView { coverage: session.coverage.noted(offset, read->0), ..session },
            );
        }
    }
}

/// A request to begin a transfer leaves ended transfers ended, unless the drawn identifier is
/// that of a known transfer.
pub proof fn lemma_begin_keeps_ended(
    model: ServerModel,
    peer: CertificateFingerprint,
    trusted: bool,
    now: u64,
    offer_id: ProtocolId,
    file_id: ProtocolId,
    nonce: [u8; 32],
    secrets: Option<SessionSecrets>,
)
    requires
        model.consistent(),
        secrets matches Some(secrets) ==> forall|k: int|
            0 <= k < model.sessions.len() ==> (#[trigger] model.sessions[k]).secrets.transfer_id
                != secrets.transfer_id,
    ensures
        ended_stays_ended(
            model,
            model.begin(peer, trusted, now, offer_id, file_id, nonce, secrets).0,
        ),
{
    lemma_refusal_keeps_ended(model, peer);
    model::lemma_live_sessions(model.sessions, now);
    let after = model.begin(peer, trusted, now, offer_id, file_id, nonce, secrets).0;
    let live = model::live_sessions(model.sessions, now);
    if secrets is Some {
        model::lemma_session_place(live, secrets->0.transfer_id);
    }
    assert forall|j: int, k: int|
        0 <= j < model.sessions.len() && 0 <= k < after.sessions.len() && (
        #[trigger] model.sessions[j]).secrets.transfer_id == (
        #[trigger] after.sessions[k]).secrets.transfer_id
            && !model.sessions[j].state.is_active() implies after.sessions[k].state
        == model.sessions[j].state by {
        if after.sessions != model.sessions && after.sessions != model.with_peer_refused(
            peer,
        ).sessions {
            if k < live.len() {
                assert(model.sessions.contains(live[k]));
                let at = choose|at: int|
                    0 <= at < model.sessions.len() && model.sessions[at] == live[k];
                if secrets is Some {
                    assert(model.sessions[at].secrets.transfer_id != secrets->0.transfer_id);
                    let place = model::session_place(live, secrets->0.transfer_id) as int;
                    if place < live.len() {
                        assert(model.sessions.contains(live[place]));
                    }
                }
                assert(after.sessions[k] == live[k]);
                if at < j {
                    assert(model.sessions[at].secrets.transfer_id
                        != model.sessions[j].secrets.transfer_id);
                } else if j < at {
                    assert(model.sessions[j].secrets.transfer_id
                        != model.sessions[at].secrets.transfer_id);
                }
            }
        }
    }
}

/// Credentials that are not those of a transfer, or a peer that is not its own, get no access to
/// it and leave every transfer as it is.
pub proof fn lemma_wrong_credentials_are_denied(
    model: ServerModel,
    peer: CertificateFingerprint,
    now: u64,
    credentials: TransferCredentials,
    sequence: u64,
    opcode: Opcode,
)
    requires
        model.allows(peer, true),
        ({
            let place = model::session_place(model.sessions, credentials.transfer_id) as int;
            place < model.sessions.len() ==> model.sessions[place].expires_at > now
                && !model.sessions[place].matches(peer, credentials)
        }),
    ensures
        model.control(peer, true, now, credentials, sequence, opcode).1 == Err::<
            TransferStatus,
            ResponseStatus,
        >(ResponseStatus::Denied),
        model.status(peer, true, now, credentials).1 == Err::<TransferStatus, ResponseStatus>(
            ResponseStatus::Denied,
        ),
        model.control(peer, true, now, credentials, sequence, opcode).0.sessions == model.sessions,
        model.status(peer, true, now, credentials).0.sessions == model.sessions,
{
}

/// A peer that is not the selected one is denied everything, and no transfer changes.
pub proof fn lemma_stranger_is_denied(
    model: ServerModel,
    peer: CertificateFingerprint,
    trusted: bool,
    now: u64,
    offer_id: ProtocolId,
    file_id: ProtocolId,
    nonce: [u8; 32],
    secrets: Option<SessionSecrets>,
    credentials: TransferCredentials,
    sequence: u64,
    opcode: Opcode,
)
    requires
        model.consistent(),
        peer != model.authorized_peer,
    ensures
        model.begin(peer, trusted, now, offer_id, file_id, nonce, secrets).1 == Err::<
            TransferCredentials,
            ResponseStatus,
        >(ResponseStatus::Denied),
        model.begin(peer, trusted, now, offer_id, file_id, nonce, secrets).0.sessions
            == model.sessions,
        model.control(peer, trusted, now, credentials, sequence, opcode).1 == Err::<
            TransferStatus,
            ResponseStatus,
        >(ResponseStatus::Denied),
        model.control(peer, trusted, now, credentials, sequence, opcode).0.sessions
            == model.sessions,
{
    let refused = model.with_peer_refused(peer);
    assert forall|k: int| 0 <= k < model.sessions.len() implies #[trigger] refused.sessions[k]
        == model.sessions[k] by {
        assert(refused.sessions[k] == model::cancelled_for(model.sessions[k], peer));
        assert(model.sessions[k].authorized_peer == model.authorized_peer);
    }
    assert(refused.sessions =~= model.sessions);
}

/// When the selected peer is no longer trusted, its next request is denied and every transfer
/// that ran or paused is cancelled.
pub proof fn lemma_revocation_cancels(
    model: ServerModel,
    now: u64,
    credentials: TransferCredentials,
    sequence: u64,
    opcode: Opcode,
)
    requires
        model.consistent(),
    ensures
        ({
            let (after, answer) = model.control(
                model.authorized_peer,
                false,
                now,
                credentials,
                sequence,
                opcode,
            );
            &&& answer == Err::<TransferStatus, ResponseStatus>(ResponseStatus::Denied)
            &&& after.sessions.len() == model.sessions.len()
            &&& forall|k: int|
                0 <= k < after.sessions.len() ==> !(#[trigger] after.sessions[k]).state.is_active()
        }),
{
    let after = model.with_peer_refused(model.authorized_peer);
    assert forall|k: int| 0 <= k < after.sessions.len() implies !(
    #[trigger] after.sessions[k]).state.is_active() by {
        assert(after.sessions[k] == model::cancelled_for(
            model.sessions[k],
            model.authorized_peer,
        ));
        assert(model.sessions[k].authorized_peer == model.authorized_peer);
    }
}

/// A read never asks for more bytes than were requested, nor for bytes beyond the end of the
/// file.
pub proof fn lemma_reads_stay_in_file(
    model: ServerModel,
    peer: CertificateFingerprint,
    trusted: bool,
    now: u64,
    transfer_id: ProtocolId,
    offset: u64,
    requested: usize,
    timed_out: bool,
)
    ensures
        ({
            let entry = model.entry_place(model.reading(transfer_id)->0.file_id);
            let (after, step) = model.poll_read(
                peer,
                trusted,
                now,
                transfer_id,
                offset,
                requested as nat,
                timed_out,
            );
            step matches ReadStep::Read { count } ==> {
                &&& after == model
                &&& model.reading(transfer_id) is Some
                &&& count <= requested
                &&& count > 0 ==> offset + count <= model.entries[entry].descriptor.size
                &&& count < requested && offset < model.entries[entry].descriptor.size ==> offset
                    + count == model.entries[entry].descriptor.size
            }
        }),
{
}

/// A paused read is never answered with data, and it never outlives the transfer.
pub proof fn lemma_paused_read_waits(
    model: ServerModel,
    peer: CertificateFingerprint,
    now: u64,
    transfer_id: ProtocolId,
    offset: u64,
    requested: nat,
    timed_out: bool,
)
    requires
        model.reading(transfer_id) is Some,
        model.reading(transfer_id)->0.state is Paused,
        model.allows(peer, true),
    ensures
        ({
            let session = model.reading(transfer_id)->0;
            let step = model.poll_read(
                peer,
                true,
                now,
                transfer_id,
                offset,
                requested,
                timed_out,
            ).1;
            &&& !(step is Read)
            &&& step matches ReadStep::Wait { nanos } ==> now + nanos <= session.expires_at
                && nanos <= model::MAX_PAUSE_POLL_NANOS
            &&& !timed_out && now >= session.expires_at ==> step == (ReadStep::Answer {
                outcome: Err(ResponseStatus::Expired),
            })
        }),
{
}

/// A receiver that asks for the offer gets exactly the one that the server tells: while it stands
/// for a millisecond at least, the answer decodes to its identifier, what is left of its time, and
/// all of its entries in their order. It is refused only where it has no encoding.
pub proof fn lemma_offer_round_trip(
    model: ServerModel,
    peer: CertificateFingerprint,
    trusted: bool,
    now: u64,
    secrets: Option<SessionSecrets>,
)
    requires
        model.consistent(),
        forall|j: int, k: int|
            0 <= j < k < model.entries.len() ==> (#[trigger] model.entries[j]).file_id != (
            #[trigger] model.entries[k]).file_id,
        now + NANOS_PER_MILLI <= model.offer_expires_at,
    ensures
        ({
            let (after, reply) = dispatch::dispatched(
                model,
                peer,
                trusted,
                now,
                Opcode::GetOffer,
                Seq::empty(),
                secrets,
            );
            &&& after == model
            &&& reply matches ReplyView::Bytes(response) && if manifest::encodable(
                model.told(now),
            ) {
                manifest::manifest_outcome(response) == Ok::<ManifestView, Failure>(model.told(now))
            } else {
                response == seq![ResponseStatus::Internal.code()]
            }
        }),
{
    let told = model.told(now);
    assert(told.ttl_millis >= 1);
    if manifest::encodable(told) {
        manifest::lemma_manifest_round_trip(told);
    }
}

/// The progress of a transfer is the number of distinct offsets that were served for it, for as
/// long as they are counted, and what was served in all grows by every byte.
pub proof fn lemma_progress_counts_offsets(
    model: ServerModel,
    peer: CertificateFingerprint,
    trusted: bool,
    now: u64,
    transfer_id: ProtocolId,
    offset: u64,
    read: u64,
)
    requires
        model.reading(transfer_id) is Some,
        model.reading(transfer_id)->0.coverage.consistent(),
        offset + read <= u64::MAX,
    ensures
        ({
            let before = model.reading(transfer_id)->0.coverage;
            let (after, result) = model.finish_read(
                peer,
                trusted,
                now,
                transfer_id,
                offset,
                Some(read),
            );
            let noted = before.noted(offset, read);
            result matches Ok(status) ==> {
                &&& after.metrics.served_bytes == counter::counted(
                    model.metrics.served_bytes,
                    read as nat,
                )
                &&& status.unique_bytes == noted.unique_bytes
                &&& !noted.saturated ==> noted.covered == before.covered.union(
                    coverage::span(offset, (offset + read) as u64),
                ) && status.unique_bytes == noted.covered.len()
                &&& noted.saturated ==> status.unique_bytes == before.unique_bytes
            }
        }),
{
    let before = model.reading(transfer_id)->0.coverage;
    before.lemma_noted_consistent(offset, read);
    if read == 0 {
        assert(before.covered.union(coverage::span(offset, offset)) =~= before.covered);
    }
}

/// Serving offsets once more leaves the progress of a transfer as it is.
pub proof fn lemma_repeated_read_is_no_progress(
    model: ServerModel,
    peer: CertificateFingerprint,
    trusted: bool,
    now: u64,
    transfer_id: ProtocolId,
    offset: u64,
    read: u64,
)
    requires
        model.reading(transfer_id) is Some,
        model.reading(transfer_id)->0.coverage.consistent(),
        offset + read <= u64::MAX,
        coverage::span(offset, (offset + read) as u64).subset_of(
            model.reading(transfer_id)->0.coverage.covered,
        ),
    ensures
        ({
            let before = model.reading(transfer_id)->0;
            let (after, result) = model.finish_read(
                peer,
                trusted,
                now,
                transfer_id,
                offset,
                Some(read),
            );
            result matches Ok(status) ==> {
                &&& status == before.status()
                &&& after.metrics.served_bytes == counter::counted(
                    model.metrics.served_bytes,
                    read as nat,
                )
            }
        }),
{
    model.reading(transfer_id)->0.coverage.lemma_served_again(offset, read);
}

/// A transfer either has not expired, or lingers where a read of it is not over.
proof fn lemma_pruning_splits(
    sessions: Seq<SessionView>,
    now: u64,
    reads: Seq<ProtocolId>,
    session: SessionView,
)
    ensures
        model::live_sessions(sessions, now).contains(session) == (sessions.contains(session)
            && session.expires_at > now),
        model::read_sessions(sessions, now, reads).contains(session) == (sessions.contains(session)
            && session.expires_at <= now && reads.contains(session.secrets.transfer_id)),
    decreases sessions.len(),
{
    broadcast use vstd::seq_lib::group_seq_properties;

    if sessions.len() > 0 {
        lemma_pruning_splits(sessions.drop_last(), now, reads, session);
        assert(sessions =~= sessions.drop_last().push(sessions.last()));
    }
}

proof fn lemma_placed(sessions: Seq<SessionView>, session: SessionView)
    requires
        sessions.contains(session),
        forall|other: SessionView|
            #[trigger] sessions.contains(other) && other.secrets.transfer_id
                == session.secrets.transfer_id ==> other == session,
    ensures
        ({
            let place = model::session_place(sessions, session.secrets.transfer_id) as int;
            place < sessions.len() && sessions[place] == session
        }),
{
    let id = session.secrets.transfer_id;
    model::lemma_session_place(sessions, id);
    let at = choose|at: int| 0 <= at < sessions.len() && sessions[at] == session;
    assert(sessions[at].secrets.transfer_id == id);
    let place = model::session_place(sessions, id) as int;
    assert(sessions.contains(sessions[place]));
}

/// A read keeps the transfer that it is of: forgetting what has expired takes it from no read that
/// is not over. The transfers that linger are taken to have other identifiers than those that are
/// known, which are drawn at random.
pub proof fn lemma_read_keeps_its_transfer(model: ServerModel, now: u64, transfer_id: ProtocolId)
    requires
        model.consistent(),
        model.reads.contains(transfer_id),
        model.reading(transfer_id) is Some,
        model::session_place(model.sessions, transfer_id) < model.sessions.len()
            ==> model::session_place(model.lingering, transfer_id) == model.lingering.len(),
    ensures
        model.pruned(now).reading(transfer_id) == model.reading(transfer_id),
{
    let session = model.reading(transfer_id)->0;
    let pruned = model.pruned(now);
    let live = pruned.sessions;
    let read = model::read_sessions(model.sessions, now, model.reads);
    let place = model::session_place(model.sessions, transfer_id) as int;
    model::lemma_session_place(model.sessions, transfer_id);
    model::lemma_session_place(model.lingering, transfer_id);
    model::lemma_session_place(live, transfer_id);
    let found = model::session_place(live, transfer_id) as int;
    if found < live.len() {
        lemma_pruning_splits(model.sessions, now, model.reads, live[found]);
        assert(live.contains(live[found]));
    }
    if place < model.sessions.len() {
        assert(model.sessions.contains(session));
        lemma_pruning_splits(model.sessions, now, model.reads, session);
        assert forall|other: SessionView|
            model.sessions.contains(other) && other.secrets.transfer_id
                == transfer_id implies other == session by {
            let at = choose|at: int| 0 <= at < model.sessions.len() && model.sessions[at] == other;
            assert(model.sessions[at].secrets.transfer_id
                == model.sessions[place].secrets.transfer_id);
        }
        assert forall|other: SessionView|
            #[trigger] live.contains(other) && other.secrets.transfer_id
                == transfer_id implies other == session by {
            lemma_pruning_splits(model.sessions, now, model.reads, other);
        }
        assert forall|other: SessionView|
            #[trigger] read.contains(other) && other.secrets.transfer_id
                == transfer_id implies other == session by {
            lemma_pruning_splits(model.sessions, now, model.reads, other);
        }
        if session.expires_at > now {
            lemma_placed(live, session);
        } else {
            lemma_placed(read, session);
            let at = model::session_place(read, transfer_id) as int;
            let late = model.lingering.len() + at;
            model::lemma_session_place(read, transfer_id);
            assert(pruned.lingering[late] == session);
            assert forall|k: int| 0 <= k < late implies (
            #[trigger] pruned.lingering[k]).secrets.transfer_id != transfer_id by {
                if k < model.lingering.len() {
                    assert(pruned.lingering[k] == model.lingering[k]);
                } else {
                    assert(pruned.lingering[k] == read[k - model.lingering.len()]);
                }
            }
            model::lemma_session_place_is(pruned.lingering, transfer_id, late);
        }
    } else {
        let late = model::session_place(model.lingering, transfer_id) as int;
        assert forall|k: int| 0 <= k < late implies (
        #[trigger] pruned.lingering[k]).secrets.transfer_id != transfer_id by {
            assert(pruned.lingering[k] == model.lingering[k]);
        }
        model::lemma_session_place_is(pruned.lingering, transfer_id, late);
        if found < live.len() {
            assert(model.sessions.contains(live[found]));
        }
    }
}

} // verus!
