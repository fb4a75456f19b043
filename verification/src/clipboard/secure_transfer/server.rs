//! The rules by which the source of an offer answers its receiver.

use super::model;
use super::model::{
    BeginNonce, ConnectionEnd, ReadStep, SecureMetrics, SecureMetricsSnapshot, ServerModel, SessionSecrets,
    SessionView, DEFAULT_MAX_WORKERS, MAX_ACTIVE_TRANSFERS, MAX_BEGIN_NONCES, MAX_PAUSE_POLL_NANOS, NANOS_PER_MILLI,
};
use super::manifest::OfferManifest;
use super::offer::SecureOfferedFile;
use super::wire::{
    Opcode, ProtocolId, RemoteTransferState, ResponseStatus, TransferCredentials, TransferStatus,
    MAX_SECURE_RANGE_BYTES,
};
use crate::bytes;
use crate::clipboard::coverage::RangeCoverage;
use crate::failure::Failure;
use crate::security::CertificateFingerprint;
use crate::counter;
use crate::counter::count;
use vstd::prelude::*;

verus! {

/// One transfer of a file.
#[derive(Debug)]
pub struct TransferSession {
    authorized_peer: CertificateFingerprint,
    offer_id: ProtocolId,
    file_id: ProtocolId,
    secrets: SessionSecrets,
    expires_at: u64,
    state: RemoteTransferState,
    last_control_sequence: u64,
    coverage: RangeCoverage,
}

impl View for TransferSession {
    type V = SessionView;

    closed spec fn view(&self) -> SessionView {
        SessionView {
            authorized_peer: self.authorized_peer,
            offer_id: self.offer_id,
            file_id: self.file_id,
            secrets: self.secrets,
            expires_at: self.expires_at,
            state: self.state,
            last_control_sequence: self.last_control_sequence,
            coverage: self.coverage@,
        }
    }
}

/// The contents of transfers.
pub open spec fn session_views(sessions: Seq<TransferSession>) -> Seq<SessionView> {
    sessions.map_values(|session: TransferSession| session@)
}

/// The source side of one offer.
#[derive(Debug)]
pub struct ServerState {
    offered: SecureOfferedFile,
    authorized_peer: CertificateFingerprint,
    transfer_ttl: u64,
    request_timeout: u64,
    transfers: Vec<TransferSession>,
    lingering: Vec<TransferSession>,
    reads: Vec<ProtocolId>,
    begin_nonces: Vec<BeginNonce>,
    metrics: SecureMetrics,
}

impl View for ServerState {
    type V = ServerModel;

    closed spec fn view(&self) -> ServerModel {
        ServerModel {
            offer_id: self.offered.spec_offer_id(),
            entries: self.offered.entries(),
            offer_expires_at: self.offered.spec_expires_at(),
            authorized_peer: self.authorized_peer,
            transfer_ttl: self.transfer_ttl,
            request_timeout: self.request_timeout,
            sessions: session_views(self.transfers@),
            lingering: session_views(self.lingering@),
            reads: self.reads@,
            nonces: self.begin_nonces@,
            metrics: self.metrics,
        }
    }
}

impl ServerState {
    /// The model is consistent, and so is the coverage of every transfer.
    pub closed spec fn wf(&self) -> bool {
        &&& self@.consistent()
        &&& forall|k: int| 0 <= k < self.transfers@.len() ==> (#[trigger] self.transfers@[k]).coverage.wf()
        &&& forall|k: int| 0 <= k < self.lingering@.len() ==> (#[trigger] self.lingering@[k]).coverage.wf()
    }

    /// What is known of every server: it is consistent, and the progress of each transfer counts
    /// the offsets that were served for it.
    pub proof fn lemma_consistent(&self)
        requires
            self.wf(),
        ensures
            self@.consistent(),
            forall|k: int|
                0 <= k < self@.sessions.len() ==> (
                #[trigger] self@.sessions[k]).coverage.consistent(),
            forall|k: int|
                0 <= k < self@.lingering.len() ==> (
                #[trigger] self@.lingering[k]).coverage.consistent(),
    {
        assert forall|k: int| 0 <= k < self@.sessions.len() implies (
        #[trigger] self@.sessions[k]).coverage.consistent() by {
            assert(self@.sessions[k] == self.transfers@[k]@);
            self.transfers@[k].coverage.lemma_consistent();
        }
        assert forall|k: int| 0 <= k < self@.lingering.len() implies (
        #[trigger] self@.lingering[k]).coverage.consistent() by {
            assert(self@.lingering[k] == self.lingering@[k]@);
            self.lingering@[k].coverage.lemma_consistent();
        }
    }

    /// Serves an offer to one peer.
    pub fn new(
        offered: SecureOfferedFile,
        authorized_peer: CertificateFingerprint,
        transfer_ttl: u64,
        request_timeout: u64,
    ) -> (result: Result<Self, Failure>)
        requires
            offered.wf(),
        ensures
            transfer_ttl == 0 || request_timeout == 0 ==> result == Err::<Self, Failure>(
                Failure::invalid("secure server timeouts must be non-zero"),
            ),
            transfer_ttl != 0 && request_timeout != 0 ==> {
                &&& result is Ok
                &&& result->Ok_0.wf()
                &&& result->Ok_0@ == (ServerModel {
                    offer_id: offered.spec_offer_id(),
                    entries: offered.entries(),
                    offer_expires_at: offered.spec_expires_at(),
                    authorized_peer,
                    transfer_ttl,
                    request_timeout,
                    sessions: Seq::empty(),
                    lingering: Seq::empty(),
                    reads: Seq::empty(),
                    nonces: Seq::empty(),
                    metrics: SecureMetrics::zero(),
                })
            },
    {
        if transfer_ttl == 0 || request_timeout == 0 {
            return Err(Failure::invalid("secure server timeouts must be non-zero"));
        }
        let state = ServerState {
            offered,
            authorized_peer,
            transfer_ttl,
            request_timeout,
            transfers: Vec::new(),
            lingering: Vec::new(),
            reads: Vec::new(),
            begin_nonces: Vec::new(),
            metrics: SecureMetrics::new(),
        };
        assert(session_views(state.transfers@) =~= Seq::empty());
        assert(session_views(state.lingering@) =~= Seq::empty());
        Ok(state)
    }

    /// The offer as it is told at `now`.
    pub fn manifest(&self, now: u64) -> (manifest: OfferManifest)
        ensures
            manifest@ == self@.told(now),
    {
        self.offered.manifest(now)
    }

    pub fn offer_expires_at(&self) -> (expires_at: u64)
        ensures
            expires_at == self@.offer_expires_at,
    {
        self.offered.expires_at()
    }

    pub fn connection_idle_timeout(&self) -> (timeout: u64)
        ensures
            timeout == self@.idle_timeout(),
    {
        if self.transfer_ttl < self.request_timeout {
            self.request_timeout
        } else {
            self.transfer_ttl
        }
    }

    /// The summed progress of the transfers; a sum beyond 64 bits starts over.
    pub fn unique_bytes(&self) -> (sum: u64)
        ensures
            sum == counter::counted(0, model::unique_total(self@.sessions)),
    {
        let ghost views = session_views(self.transfers@);
        let mut sum: u64 = 0;
        let mut index: usize = 0;
        assert(views.take(0) =~= Seq::empty());
        while index < self.transfers.len()
            invariant
                index <= self.transfers@.len(),
                views == session_views(self.transfers@),
                sum == counter::counted(0, model::unique_total(views.take(index as int))),
            decreases self.transfers@.len() - index,
        {
            let more: u64 = self.transfers[index].coverage.unique_bytes();
            proof {
                assert(views.take(index + 1).drop_last() =~= views.take(index as int));
                assert(views[index as int] == self.transfers@[index as int]@);
            }
            sum = sum.wrapping_add(more);
            index += 1;
        }
        assert(views.take(index as int) =~= views);
        sum
    }

    /// The events of the server and the progress of its transfers.
    pub fn metrics(&self) -> (snapshot: SecureMetricsSnapshot)
        ensures
            snapshot == self@.metrics.spec_snapshot(
                counter::counted(0, model::unique_total(self@.sessions)),
            ),
    {
        self.metrics.snapshot(self.unique_bytes())
    }

    /// Takes or refuses a connection while `workers` others are worked on.
    pub fn admit_connection(&mut self, workers: usize) -> (admitted: bool)
        requires
            old(self).wf(),
        ensures
            final(self).wf(),
            (final(self)@, admitted) == old(self)@.admit_connection(workers as nat),
    {
        self.metrics.accepted_connections = count(self.metrics.accepted_connections);
        let admitted = workers < DEFAULT_MAX_WORKERS;
        if !admitted {
            self.metrics.protocol_errors = count(self.metrics.protocol_errors);
        }
        assert(self@ =~= old(self)@.admit_connection(workers as nat).0);
        admitted
    }

    /// Notes how a connection ended.
    pub fn end_connection(&mut self, end: ConnectionEnd)
        requires
            old(self).wf(),
        ensures
            final(self).wf(),
            final(self)@ == old(self)@.end_connection(end),
    {
        match end {
            ConnectionEnd::Closed | ConnectionEnd::Denied => {},
            ConnectionEnd::ProtocolError => {
                self.metrics.protocol_errors = count(self.metrics.protocol_errors);
            },
            ConnectionEnd::TlsFailure => {
                self.metrics.tls_failures = count(self.metrics.tls_failures);
            },
        }
        assert(self@ =~= old(self)@.end_connection(end));
    }

    /// Checks a peer: before its greeting, and before each of its requests.
    pub fn ensure_peer_allowed(&mut self, peer: CertificateFingerprint, trusted: bool) -> (allowed:
        bool)
        requires
            old(self).wf(),
        ensures
            final(self).wf(),
            (final(self)@, allowed) == old(self)@.ensure_allowed(peer, trusted),
    {
        if self.allowed(peer, trusted) {
            true
        } else {
            self.refuse_peer(peer);
            false
        }
    }

    fn allowed(&self, peer: CertificateFingerprint, trusted: bool) -> (allowed: bool)
        ensures
            allowed == self@.allows(peer, trusted),
    {
        peer == self.authorized_peer && trusted
    }

    /// Cancels every transfer of a peer that runs or pauses.
    fn cancel_peer_transfers(&mut self, peer: CertificateFingerprint)
        requires
            old(self).wf(),
        ensures
            final(self).wf(),
            final(self)@ == old(self)@.with_peer_cancelled(peer),
    {
        let ghost views = session_views(self.transfers@);
        let mut index: usize = 0;
        while index < self.transfers.len()
            invariant
                index <= self.transfers@.len(),
                views == session_views(old(self).transfers@),
                self.transfers@.len() == old(self).transfers@.len(),
                self.offered == old(self).offered,
                self.authorized_peer == old(self).authorized_peer,
                self.transfer_ttl == old(self).transfer_ttl,
                self.request_timeout == old(self).request_timeout,
                self.begin_nonces == old(self).begin_nonces,
                self.lingering == old(self).lingering,
                self.reads == old(self).reads,
                self.metrics == (SecureMetrics {
                    cancelled_transfers: counter::counted(
                        old(self).metrics.cancelled_transfers,
                        model::peer_active_count(views.take(index as int), peer),
                    ),
                    ..old(self).metrics
                }),
                forall|k: int|
                    0 <= k < index ==> (#[trigger] self.transfers@[k])@ == model::cancelled_for(
                        views[k],
                        peer,
                    ),
                forall|k: int|
                    index <= k < self.transfers@.len() ==> (#[trigger] self.transfers@[k])@
                        == views[k],
                forall|k: int|
                    0 <= k < self.transfers@.len() ==> (
                    #[trigger] self.transfers@[k]).coverage.wf(),
            decreases self.transfers@.len() - index,
        {
            proof {
                assert(views.take(index + 1).drop_last() =~= views.take(index as int));
                assert(self.transfers@[index as int]@ == views[index as int]);
                model::lemma_counted(
                    old(self).metrics.cancelled_transfers,
                    model::peer_active_count(views.take(index as int), peer),
                );
            }
            if self.transfers[index].authorized_peer == peer && self.transfers[index].state.active() {
                self.transfers[index].state = RemoteTransferState::Cancelled;
                self.metrics.cancelled_transfers = count(self.metrics.cancelled_transfers);
            }
            index += 1;
        }
        proof {
            assert(views.take(index as int) =~= views);
            assert(session_views(self.transfers@) =~= views.map_values(
                |session: SessionView| model::cancelled_for(session, peer),
            ));
            assert(self@ =~= old(self)@.with_peer_cancelled(peer));
            model::lemma_refused_consistent(old(self)@, peer);
        }
    }

    /// Refuses a peer that may not use the offer.
    fn refuse_peer(&mut self, peer: CertificateFingerprint)
        requires
            old(self).wf(),
        ensures
            final(self).wf(),
            final(self)@ == old(self)@.with_peer_refused(peer),
    {
        self.note_denied();
        self.cancel_peer_transfers(peer);
    }

    fn note_denied(&mut self)
        requires
            old(self).wf(),
        ensures
            final(self).wf(),
            final(self)@ == old(self)@.with_denied(),
            final(self).transfers == old(self).transfers,
    {
        self.metrics.denied_requests = count(self.metrics.denied_requests);
        assert(self@ =~= old(self)@.with_denied());
    }

    fn note_replayed(&mut self)
        requires
            old(self).wf(),
        ensures
            final(self).wf(),
            final(self)@ == old(self)@.with_replayed(),
    {
        self.metrics.replayed_requests = count(self.metrics.replayed_requests);
        assert(self@ =~= old(self)@.with_replayed());
    }

    /// Whether a read of a transfer is not over.
    fn is_read(&self, transfer_id: ProtocolId) -> (read: bool)
        ensures
            read == self@.reads.contains(transfer_id),
    {
        let mut index: usize = 0;
        while index < self.reads.len()
            invariant
                index <= self.reads@.len(),
                forall|k: int| 0 <= k < index ==> #[trigger] self.reads@[k] != transfer_id,
            decreases self.reads@.len() - index,
        {
            if self.reads[index] == transfer_id {
                assert(self@.reads[index as int] == transfer_id);
                return true;
            }
            index += 1;
        }
        false
    }

    /// Forgets the transfers that have expired; those that are read linger.
    fn prune_sessions(&mut self, now: u64)
        requires
            old(self).wf(),
        ensures
            final(self).wf(),
            final(self)@ == (ServerModel {
                sessions: model::live_sessions(old(self)@.sessions, now),
                lingering: old(self)@.lingering + model::read_sessions(
                    old(self)@.sessions,
                    now,
                    old(self)@.reads,
                ),
                ..old(self)@
            }),
    {
        let ghost views = session_views(self.transfers@);
        let ghost originals = self.transfers@;
        let ghost before = session_views(self.lingering@);
        let ghost mut seen: int = 0;
        let mut index: usize = 0;
        assert(views.take(0) =~= Seq::empty());
        assert(before + Seq::<SessionView>::empty() =~= before);
        while index < self.transfers.len()
            invariant
                0 <= seen <= originals.len(),
                originals == old(self).transfers@,
                views == session_views(originals),
                before == session_views(old(self).lingering@),
                index == model::live_sessions(views.take(seen), now).len(),
                self.transfers@.len() == index + originals.len() - seen,
                self.offered == old(self).offered,
                self.authorized_peer == old(self).authorized_peer,
                self.transfer_ttl == old(self).transfer_ttl,
                self.request_timeout == old(self).request_timeout,
                self.begin_nonces == old(self).begin_nonces,
                self.reads == old(self).reads,
                self.metrics == old(self).metrics,
                session_views(self.lingering@) =~= before + model::read_sessions(
                    views.take(seen),
                    now,
                    self.reads@,
                ),
                forall|k: int|
                    0 <= k < index ==> (#[trigger] self.transfers@[k])@ == model::live_sessions(
                        views.take(seen),
                        now,
                    )[k],
                forall|k: int|
                    index <= k < self.transfers@.len() ==> #[trigger] self.transfers@[k]
                        == originals[k - index + seen],
                forall|k: int|
                    0 <= k < self.transfers@.len() ==> (
                    #[trigger] self.transfers@[k]).coverage.wf(),
                forall|k: int|
                    0 <= k < self.lingering@.len() ==> (
                    #[trigger] self.lingering@[k]).coverage.wf(),
            decreases self.transfers@.len() - index,
        {
            proof {
                assert(self.transfers@[index as int] == originals[seen]);
                assert(views[seen] == originals[seen]@);
                assert(views.take(seen + 1).drop_last() =~= views.take(seen));
                assert(views.take(seen + 1).last() == views[seen]);
            }
            if self.transfers[index].expires_at > now {
                index += 1;
            } else {
                let read = self.is_read(self.transfers[index].secrets.transfer_id);
                let session = self.transfers.remove(index);
                if read {
                    let ghost held = session_views(self.lingering@);
                    let ghost view = session@;
                    self.lingering.push(session);
                    assert(session_views(self.lingering@) =~= held.push(view));
                }
            }
            proof {
                seen = seen + 1;
            }
        }
        proof {
            assert(views.take(seen) =~= views);
            assert(session_views(self.transfers@) =~= model::live_sessions(views, now));
            assert(self@ =~= (ServerModel {
                sessions: model::live_sessions(old(self)@.sessions, now),
                lingering: old(self)@.lingering + model::read_sessions(
                    old(self)@.sessions,
                    now,
                    old(self)@.reads,
                ),
                ..old(self)@
            }));
            model::lemma_pruned_sessions_consistent(old(self)@, now);
        }
    }

    /// Forgets the nonces that have expired.
    fn prune_nonces(&mut self, now: u64)
        requires
            old(self).wf(),
        ensures
            final(self).wf(),
            final(self)@ == (ServerModel {
                nonces: model::live_nonces(old(self)@.nonces, now),
                ..old(self)@
            }),
    {
        let ghost nonces = self.begin_nonces@;
        let mut kept: Vec<BeginNonce> = Vec::new();
        let mut index: usize = 0;
        assert(nonces.take(0) =~= Seq::empty());
        while index < self.begin_nonces.len()
            invariant
                *self == *old(self),
                nonces == self.begin_nonces@,
                index <= nonces.len(),
                kept@ == model::live_nonces(nonces.take(index as int), now),
            decreases nonces.len() - index,
        {
            let nonce = self.begin_nonces[index];
            if nonce.expires_at > now {
                kept.push(nonce);
            }
            index += 1;
            assert(nonces.take(index as int).drop_last() =~= nonces.take(index - 1));
        }
        assert(nonces.take(index as int) =~= nonces);
        self.begin_nonces = kept;
        proof {
            assert(self@ =~= (ServerModel {
                nonces: model::live_nonces(old(self)@.nonces, now),
                ..old(self)@
            }));
            model::lemma_live_nonces(nonces, now);
        }
    }

    fn knows_nonce(&self, nonce: &[u8; 32]) -> (known: bool)
        ensures
            known == model::has_nonce(self@.nonces, *nonce),
    {
        let mut index: usize = 0;
        while index < self.begin_nonces.len()
            invariant
                index <= self.begin_nonces@.len(),
                forall|k: int|
                    0 <= k < index ==> (#[trigger] self.begin_nonces@[k]).nonce != *nonce,
            decreases self.begin_nonces@.len() - index,
        {
            if bytes::same_32(&self.begin_nonces[index].nonce, nonce) {
                assert(self@.nonces[index as int].nonce == *nonce);
                return true;
            }
            index += 1;
        }
        false
    }

    fn active_transfers(&self) -> (active: usize)
        ensures
            active == model::active_count(self@.sessions),
    {
        let ghost views = session_views(self.transfers@);
        let mut active: usize = 0;
        let mut index: usize = 0;
        assert(views.take(0) =~= Seq::empty());
        while index < self.transfers.len()
            invariant
                index <= self.transfers@.len(),
                views == session_views(self.transfers@),
                active <= index,
                active == model::active_count(views.take(index as int)),
            decreases self.transfers@.len() - index,
        {
            proof {
                assert(views.take(index + 1).drop_last() =~= views.take(index as int));
                assert(views[index as int] == self.transfers@[index as int]@);
            }
            if self.transfers[index].state.active() {
                active += 1;
            }
            index += 1;
        }
        assert(views.take(index as int) =~= views);
        active
    }

    /// Where the transfer with this identifier stands.
    fn place_of(&self, transfer_id: ProtocolId) -> (place: usize)
        ensures
            place == model::session_place(self@.sessions, transfer_id),
            place <= self.transfers@.len(),
    {
        place_in(&self.transfers, transfer_id)
    }

    /// Takes a new transfer; it takes the place of one with the same identifier.
    fn insert_session(&mut self, session: TransferSession)
        requires
            old(self).wf(),
            old(self)@.sessions.len() < MAX_BEGIN_NONCES,
            model::active_count(old(self)@.sessions) < MAX_ACTIVE_TRANSFERS,
            session@.authorized_peer == old(self)@.authorized_peer,
            session.coverage.wf(),
        ensures
            final(self).wf(),
            final(self)@ == (ServerModel {
                sessions: model::with_session(old(self)@.sessions, session@),
                ..old(self)@
            }),
    {
        let place: usize = self.place_of(session.secrets.transfer_id);
        let ghost view = session@;
        proof {
            model::lemma_session_place(self@.sessions, view.secrets.transfer_id);
        }
        if place < self.transfers.len() {
            self.transfers[place] = session;
        } else {
            self.transfers.push(session);
        }
        proof {
            assert(session_views(self.transfers@) =~= model::with_session(old(self)@.sessions, view));
            assert(self@ =~= (ServerModel {
                sessions: model::with_session(old(self)@.sessions, view),
                ..old(self)@
            }));
            model::lemma_inserted_consistent(old(self)@, view);
        }
    }

    /// Answers a request to begin a transfer, with the secrets that were drawn for it.
    ///
    /// `trusted` tells whether the peer is still in the trust registry, and `secrets` is nothing
    /// where no secure randomness could be had.
    pub fn begin_transfer_with(
        &mut self,
        peer: CertificateFingerprint,
        trusted: bool,
        now: u64,
        offer_id: ProtocolId,
        file_id: ProtocolId,
        nonce: [u8; 32],
        secrets: Option<SessionSecrets>,
    ) -> (result: Result<TransferCredentials, ResponseStatus>)
        requires
            old(self).wf(),
        ensures
            final(self).wf(),
            (final(self)@, result) == old(self)@.begin(
                peer,
                trusted,
                now,
                offer_id,
                file_id,
                nonce,
                secrets,
            ),
    {
        if !self.allowed(peer, trusted) {
            self.refuse_peer(peer);
            return Err(ResponseStatus::Denied);
        }
        if offer_id != self.offered.offer_id() || now >= self.offered.expires_at() {
            return Err(ResponseStatus::Expired);
        }
        if !self.offered.has_source(file_id) {
            self.note_denied();
            return Err(ResponseStatus::Denied);
        }
        self.prune_sessions(now);
        self.prune_nonces(now);
        assert(self@ =~= old(self)@.pruned(now));
        if self.knows_nonce(&nonce) {
            self.note_replayed();
            return Err(ResponseStatus::Replay);
        }
        if self.active_transfers() >= MAX_ACTIVE_TRANSFERS || self.transfers.len()
            >= MAX_BEGIN_NONCES || self.begin_nonces.len() >= MAX_BEGIN_NONCES {
            return Err(ResponseStatus::Busy);
        }
        let secrets = match secrets {
            Some(secrets) => secrets,
            None => {
                return Err(ResponseStatus::Internal);
            },
        };
        if self.transfer_ttl > u64::MAX - now {
            return Err(ResponseStatus::Internal);
        }
        let expires_at: u64 = now + self.transfer_ttl;
        let session = TransferSession {
            authorized_peer: peer,
            offer_id,
            file_id,
            secrets,
            expires_at,
            state: RemoteTransferState::Running,
            last_control_sequence: 0,
            coverage: RangeCoverage::new(),
        };
        let ghost fresh = session@;
        let credentials = session.credentials(now);
        self.insert_session(session);
        let ghost inserted = self@;
        self.begin_nonces.push(BeginNonce { nonce, expires_at });
        self.metrics.begun_transfers = count(self.metrics.begun_transfers);
        proof {
            assert(self@ =~= old(self)@.begin(
                peer,
                trusted,
                now,
                offer_id,
                file_id,
                nonce,
                Some(secrets),
            ).0);
            assert forall|j: int, k: int| 0 <= j < k < self@.nonces.len() implies (
            #[trigger] self@.nonces[j]).nonce != (#[trigger] self@.nonces[k]).nonce by {
                assert(inserted.nonces[j] == self@.nonces[j]);
                if k < inserted.nonces.len() {
                    assert(inserted.nonces[k] == self@.nonces[k]);
                } else {
                    assert(inserted.nonces[j].nonce != nonce);
                }
            }
        }
        Ok(credentials)
    }

    /// Answers a request to begin a transfer, with secrets that are drawn for it.
    pub fn begin_transfer(
        &mut self,
        peer: CertificateFingerprint,
        trusted: bool,
        now: u64,
        offer_id: ProtocolId,
        file_id: ProtocolId,
        nonce: [u8; 32],
    ) -> (result: Result<TransferCredentials, ResponseStatus>)
        requires
            old(self).wf(),
        ensures
            final(self).wf(),
            exists|secrets: Option<SessionSecrets>|
                {
                    &&& match secrets {
                        Some(secrets) => secrets.drawn(),
                        None => SessionSecrets::refused(),
                    }
                    &&& (final(self)@, result) == #[trigger] old(self)@.begin(
                        peer,
                        trusted,
                        now,
                        offer_id,
                        file_id,
                        nonce,
                        secrets,
                    )
                },
    {
        let secrets = SessionSecrets::random();
        self.begin_transfer_with(peer, trusted, now, offer_id, file_id, nonce, secrets)
    }

    /// Finds the transfer that credentials give access to.
    fn authenticated_session(
        &mut self,
        peer: CertificateFingerprint,
        trusted: bool,
        now: u64,
        credentials: &TransferCredentials,
    ) -> (result: Result<usize, ResponseStatus>)
        requires
            old(self).wf(),
        ensures
            final(self).wf(),
            ({
                let (model, place) = old(self)@.authenticate(peer, trusted, now, *credentials);
                &&& final(self)@ == model
                &&& match result {
                    Ok(index) => place == Ok::<int, ResponseStatus>(index as int) && index < final(
                        self).transfers@.len() && *final(self) == *old(self),
                    Err(status) => place == Err::<int, ResponseStatus>(status),
                }
            }),
    {
        if !self.allowed(peer, trusted) {
            self.refuse_peer(peer);
            return Err(ResponseStatus::Denied);
        }
        let place: usize = self.place_of(credentials.transfer_id);
        if place == self.transfers.len() {
            self.note_denied();
            return Err(ResponseStatus::Denied);
        }
        assert(self@.sessions[place as int] == self.transfers@[place as int]@);
        let session = &self.transfers[place];
        if session.expires_at <= now {
            return Err(ResponseStatus::Expired);
        }
        if session.authorized_peer != peer || session.offer_id != credentials.offer_id
            || session.file_id != credentials.file_id || !bytes::same_32(
            &session.secrets.capability,
            &credentials.capability,
        ) || !bytes::same_32(&session.secrets.server_nonce, &credentials.server_nonce) {
            self.note_denied();
            return Err(ResponseStatus::Denied);
        }
        Ok(place)
    }

    /// Answers a request that pauses, resumes, cancels or completes a transfer.
    pub fn control(
        &mut self,
        peer: CertificateFingerprint,
        trusted: bool,
        now: u64,
        credentials: &TransferCredentials,
        sequence: u64,
        opcode: Opcode,
    ) -> (result: Result<TransferStatus, ResponseStatus>)
        requires
            old(self).wf(),
        ensures
            final(self).wf(),
            (final(self)@, result) == old(self)@.control(
                peer,
                trusted,
                now,
                *credentials,
                sequence,
                opcode,
            ),
    {
        let place: usize = match self.authenticated_session(peer, trusted, now, credentials) {
            Err(status) => {
                return Err(status);
            },
            Ok(place) => place,
        };
        assert(self@.sessions[place as int] == self.transfers@[place as int]@);
        if sequence <= self.transfers[place].last_control_sequence {
            self.note_replayed();
            return Err(ResponseStatus::Replay);
        }
        let state = self.transfers[place].state;
        let next = match opcode {
            Opcode::Pause => if state == RemoteTransferState::Running {
                RemoteTransferState::Paused
            } else {
                state
            },
            Opcode::Resume => if state == RemoteTransferState::Paused {
                RemoteTransferState::Running
            } else {
                state
            },
            Opcode::Cancel => if state.active() {
                RemoteTransferState::Cancelled
            } else {
                state
            },
            Opcode::Complete => if state == RemoteTransferState::Running {
                RemoteTransferState::Completed
            } else {
                state
            },
            _ => state,
        };
        let ghost next_view = SessionView {
            last_control_sequence: sequence,
            state: next,
            ..self@.sessions[place as int]
        };
        self.transfers[place].last_control_sequence = sequence;
        self.transfers[place].state = next;
        proof {
            assert(session_views(self.transfers@) =~= old(self)@.sessions.update(
                place as int,
                next_view,
            ));
            assert(self@ =~= old(self)@.with_session_at(place as int, next_view));
            model::lemma_update_consistent(old(self)@, place as int, next_view);
        }
        match opcode {
            Opcode::Pause | Opcode::Resume | Opcode::Cancel | Opcode::Complete => {},
            _ => {
                return Err(ResponseStatus::Invalid);
            },
        }
        if next == RemoteTransferState::Cancelled && state.active() {
            let ghost before = self@;
            self.metrics.cancelled_transfers = count(self.metrics.cancelled_transfers);
            assert(self@ =~= before.with_cancelled(1));
        }
        Ok(
            TransferStatus {
                state: next,
                unique_bytes: self.transfers[place].coverage.unique_bytes(),
            },
        )
    }

    /// Answers a request for the status of a transfer.
    pub fn status(
        &mut self,
        peer: CertificateFingerprint,
        trusted: bool,
        now: u64,
        credentials: &TransferCredentials,
    ) -> (result: Result<TransferStatus, ResponseStatus>)
        requires
            old(self).wf(),
        ensures
            final(self).wf(),
            (final(self)@, result) == old(self)@.status(peer, trusted, now, *credentials),
    {
        match self.authenticated_session(peer, trusted, now, credentials) {
            Err(status) => Err(status),
            Ok(place) => {
                assert(self@.sessions[place as int] == self.transfers@[place as int]@);
                Ok(self.transfers[place].status())
            },
        }
    }

    /// Admits a request for a range; the read goes on with [`ServerState::poll_read`].
    pub fn start_read(
        &mut self,
        peer: CertificateFingerprint,
        trusted: bool,
        now: u64,
        credentials: &TransferCredentials,
        requested: usize,
    ) -> (result: Result<(), ResponseStatus>)
        requires
            old(self).wf(),
        ensures
            final(self).wf(),
            (final(self)@, result) == old(self)@.start_read(
                peer,
                trusted,
                now,
                *credentials,
                requested as nat,
            ),
    {
        if requested > MAX_SECURE_RANGE_BYTES {
            return Err(ResponseStatus::Invalid);
        }
        match self.authenticated_session(peer, trusted, now, credentials) {
            Err(status) => {
                return Err(status);
            },
            Ok(_) => {},
        }
        self.reads.push(credentials.transfer_id);
        self.metrics.read_requests = count(self.metrics.read_requests);
        self.metrics.begin_read();
        assert(self@ =~= old(self)@.start_read(
            peer,
            trusted,
            now,
            *credentials,
            requested as nat,
        ).0);
        Ok(())
    }

    /// Notes that a read of a transfer is over; one that lingered for it is forgotten.
    fn end_read(&mut self, transfer_id: ProtocolId)
        requires
            old(self).wf(),
        ensures
            final(self).wf(),
            final(self)@ == old(self)@.with_read_ended(transfer_id),
    {
        self.metrics.end_read();
        let mut index: usize = 0;
        while index < self.reads.len() && self.reads[index] != transfer_id
            invariant
                index <= self.reads@.len(),
                forall|k: int| 0 <= k < index ==> #[trigger] self.reads@[k] != transfer_id,
            decreases self.reads@.len() - index,
        {
            index += 1;
        }
        proof {
            model::lemma_without_read(self.reads@, transfer_id, index as int);
        }
        if index < self.reads.len() {
            let _ = self.reads.remove(index);
        }
        assert(self.reads@ =~= model::without_read(old(self).reads@, transfer_id));
        let ghost views = session_views(self.lingering@);
        let ghost originals = self.lingering@;
        let ghost mut seen: int = 0;
        let mut kept: usize = 0;
        assert(views.take(0) =~= Seq::empty());
        while kept < self.lingering.len()
            invariant
                0 <= seen <= originals.len(),
                originals == old(self).lingering@,
                views == session_views(originals),
                kept == model::held_sessions(views.take(seen), self.reads@).len(),
                self.lingering@.len() == kept + originals.len() - seen,
                self.offered == old(self).offered,
                self.authorized_peer == old(self).authorized_peer,
                self.transfer_ttl == old(self).transfer_ttl,
                self.request_timeout == old(self).request_timeout,
                self.begin_nonces == old(self).begin_nonces,
                self.transfers == old(self).transfers,
                self.reads@ == model::without_read(old(self).reads@, transfer_id),
                self.metrics == old(self).metrics.read_ended(),
                forall|k: int|
                    0 <= k < kept ==> (#[trigger] self.lingering@[k])@ == model::held_sessions(
                        views.take(seen),
                        self.reads@,
                    )[k],
                forall|k: int|
                    kept <= k < self.lingering@.len() ==> #[trigger] self.lingering@[k]
                        == originals[k - kept + seen],
                forall|k: int|
                    0 <= k < self.lingering@.len() ==> (
                    #[trigger] self.lingering@[k]).coverage.wf(),
            decreases self.lingering@.len() - kept,
        {
            proof {
                assert(self.lingering@[kept as int] == originals[seen]);
                assert(views[seen] == originals[seen]@);
                assert(views.take(seen + 1).drop_last() =~= views.take(seen));
                assert(views.take(seen + 1).last() == views[seen]);
            }
            if self.is_read(self.lingering[kept].secrets.transfer_id) {
                kept += 1;
            } else {
                let _ = self.lingering.remove(kept);
            }
            proof {
                seen = seen + 1;
            }
        }
        proof {
            assert(views.take(seen) =~= views);
            assert(session_views(self.lingering@) =~= model::held_sessions(views, self.reads@));
            assert(self@ =~= old(self)@.with_read_ended(transfer_id));
        }
    }

    /// The transfer that a read is of.
    fn reading(&self, transfer_id: ProtocolId) -> (session: Option<&TransferSession>)
        ensures
            match session {
                Some(session) => self@.reading(transfer_id) == Some(session@),
                None => self@.reading(transfer_id) is None,
            },
    {
        let place: usize = self.place_of(transfer_id);
        if place < self.transfers.len() {
            assert(self@.sessions[place as int] == self.transfers@[place as int]@);
            return Some(&self.transfers[place]);
        }
        let late: usize = place_in(&self.lingering, transfer_id);
        if late < self.lingering.len() {
            assert(self@.lingering[late as int] == self.lingering@[late as int]@);
            return Some(&self.lingering[late]);
        }
        None
    }

    /// Cancels the transfer that a read is of.
    fn cancel_reading(&mut self, transfer_id: ProtocolId)
        requires
            old(self).wf(),
            old(self)@.reading(transfer_id) is Some,
        ensures
            final(self).wf(),
            final(self)@ == old(self)@.with_reading(
                transfer_id,
                (SessionView {
                    state: RemoteTransferState::Cancelled,
                    ..old(self)@.reading(transfer_id)->0
                }),
            ).with_cancelled(1),
    {
        let ghost next = SessionView {
            state: RemoteTransferState::Cancelled,
            ..self@.reading(transfer_id)->0
        };
        let place: usize = self.place_of(transfer_id);
        self.metrics.cancelled_transfers = count(self.metrics.cancelled_transfers);
        if place < self.transfers.len() {
            self.transfers[place].state = RemoteTransferState::Cancelled;
            proof {
                model::lemma_session_place(old(self)@.sessions, transfer_id);
                assert(session_views(self.transfers@) =~= old(self)@.sessions.update(
                    place as int,
                    next,
                ));
                model::lemma_update_consistent(old(self)@, place as int, next);
            }
        } else {
            let late: usize = place_in(&self.lingering, transfer_id);
            self.lingering[late].state = RemoteTransferState::Cancelled;
            assert(session_views(self.lingering@) =~= old(self)@.lingering.update(
                late as int,
                next,
            ));
        }
        assert(self@ =~= old(self)@.with_reading(transfer_id, next).with_cancelled(1));
    }

    /// Records bytes that were served of the transfer that a read is of; its status then.
    fn note_served(&mut self, transfer_id: ProtocolId, offset: u64, read: u64) -> (status:
        TransferStatus)
        requires
            old(self).wf(),
            old(self)@.reading(transfer_id) is Some,
        ensures
            final(self).wf(),
            ({
                let session = old(self)@.reading(transfer_id)->0;
                let next = SessionView {
                    coverage: session.coverage.noted(offset, read),
                    ..session
                };
                &&& status == next.status()
                &&& final(self)@ == old(self)@.with_reading(transfer_id, next)
            }),
    {
        let ghost session = self@.reading(transfer_id)->0;
        let ghost next = SessionView { coverage: session.coverage.noted(offset, read), ..session };
        let place: usize = self.place_of(transfer_id);
        if place < self.transfers.len() {
            assert(self@.sessions[place as int] == self.transfers@[place as int]@);
            self.transfers[place].coverage.note(offset, read);
            proof {
                model::lemma_session_place(old(self)@.sessions, transfer_id);
                assert(session_views(self.transfers@) =~= old(self)@.sessions.update(
                    place as int,
                    next,
                ));
                model::lemma_update_consistent(old(self)@, place as int, next);
                assert(self@ =~= old(self)@.with_reading(transfer_id, next));
            }
            self.transfers[place].status()
        } else {
            let late: usize = place_in(&self.lingering, transfer_id);
            assert(self@.lingering[late as int] == self.lingering@[late as int]@);
            self.lingering[late].coverage.note(offset, read);
            proof {
                assert(session_views(self.lingering@) =~= old(self)@.lingering.update(
                    late as int,
                    next,
                ));
                assert(self@ =~= old(self)@.with_reading(transfer_id, next));
            }
            self.lingering[late].status()
        }
    }

    /// Decides how an admitted read goes on: at once, and again after each wait.
    ///
    /// `timed_out` tells whether the last wait ended without a change of the transfer.
    pub fn poll_read(
        &mut self,
        peer: CertificateFingerprint,
        trusted: bool,
        now: u64,
        transfer_id: ProtocolId,
        offset: u64,
        requested: usize,
        timed_out: bool,
    ) -> (step: ReadStep)
        requires
            old(self).wf(),
        ensures
            final(self).wf(),
            (final(self)@, step) == old(self)@.poll_read(
                peer,
                trusted,
                now,
                transfer_id,
                offset,
                requested as nat,
                timed_out,
            ),
    {
        let (state, expires_at, file_id, status) = match self.reading(transfer_id) {
            None => {
                self.end_read(transfer_id);
                return ReadStep::Answer { outcome: Err(ResponseStatus::Expired) };
            },
            Some(session) => (session.state, session.expires_at, session.file_id, session.status()),
        };
        if state == RemoteTransferState::Paused && timed_out {
            self.end_read(transfer_id);
            return ReadStep::Answer { outcome: Ok(status) };
        }
        if state == RemoteTransferState::Paused && !self.allowed(peer, trusted) {
            self.cancel_reading(transfer_id);
            self.end_read(transfer_id);
            return ReadStep::Answer { outcome: Err(ResponseStatus::Denied) };
        }
        if now >= expires_at {
            self.end_read(transfer_id);
            return ReadStep::Answer { outcome: Err(ResponseStatus::Expired) };
        }
        if state == RemoteTransferState::Paused {
            let left: u64 = expires_at - now;
            let mut nanos: u64 = if self.request_timeout < MAX_PAUSE_POLL_NANOS {
                self.request_timeout
            } else {
                MAX_PAUSE_POLL_NANOS
            };
            if left < nanos {
                nanos = left;
            }
            return ReadStep::Wait { nanos };
        }
        if state == RemoteTransferState::Cancelled {
            self.end_read(transfer_id);
            return ReadStep::Answer { outcome: Err(ResponseStatus::Cancelled) };
        }
        if !self.allowed(peer, trusted) {
            self.refuse_peer(peer);
            self.end_read(transfer_id);
            return ReadStep::Answer { outcome: Err(ResponseStatus::Denied) };
        }
        let size = self.offered.entry_size(file_id);
        match size {
            Some(size) if self.offered.has_source(file_id) => {
                let count: usize = if offset >= size {
                    0
                } else if size - offset < requested as u64 {
                    (size - offset) as usize
                } else {
                    requested
                };
                ReadStep::Read { count }
            },
            _ => {
                self.end_read(transfer_id);
                ReadStep::Answer { outcome: Err(ResponseStatus::Denied) }
            },
        }
    }

    /// Ends a read that was carried out: `read` is the number of bytes that the source gave, or
    /// nothing where it failed.
    pub fn finish_read(
        &mut self,
        peer: CertificateFingerprint,
        trusted: bool,
        now: u64,
        transfer_id: ProtocolId,
        offset: u64,
        read: Option<u64>,
    ) -> (result: Result<TransferStatus, ResponseStatus>)
        requires
            old(self).wf(),
        ensures
            final(self).wf(),
            (final(self)@, result) == old(self)@.finish_read(
                peer,
                trusted,
                now,
                transfer_id,
                offset,
                read,
            ),
    {
        let read: u64 = match read {
            Some(read) => read,
            None => {
                self.end_read(transfer_id);
                return Err(ResponseStatus::SourceChanged);
            },
        };
        let allowed = self.allowed(peer, trusted);
        let (state, expires_at) = match self.reading(transfer_id) {
            None => {
                self.end_read(transfer_id);
                if allowed {
                    return Err(ResponseStatus::Expired);
                }
                return Err(ResponseStatus::Denied);
            },
            Some(session) => (session.state, session.expires_at),
        };
        if !allowed {
            if state.active() {
                self.cancel_reading(transfer_id);
            }
            self.end_read(transfer_id);
            return Err(ResponseStatus::Denied);
        }
        if now >= expires_at {
            self.end_read(transfer_id);
            return Err(ResponseStatus::Expired);
        }
        if state == RemoteTransferState::Cancelled {
            self.end_read(transfer_id);
            return Err(ResponseStatus::Cancelled);
        }
        let status = self.note_served(transfer_id, offset, read);
        let ghost moved = self@;
        self.metrics.served_bytes = self.metrics.served_bytes.wrapping_add(read);
        proof {
            assert(self@ =~= moved.with_metrics(
                SecureMetrics {
                    served_bytes: counter::counted(moved.metrics.served_bytes, read as nat),
                    ..moved.metrics
                },
            ));
        }
        self.end_read(transfer_id);
        Ok(status)
    }
}

/// Where the transfer with this identifier stands; past the end where there is none.
fn place_in(sessions: &Vec<TransferSession>, transfer_id: ProtocolId) -> (place: usize)
    ensures
        place == model::session_place(session_views(sessions@), transfer_id),
        place <= sessions@.len(),
{
    let ghost views = session_views(sessions@);
    let mut place: usize = 0;
    while place < sessions.len()
        invariant
            place <= sessions@.len(),
            views == session_views(sessions@),
            forall|k: int|
                0 <= k < place ==> (#[trigger] views[k]).secrets.transfer_id != transfer_id,
        decreases sessions@.len() - place,
    {
        assert(views[place as int] == sessions@[place as int]@);
        if sessions[place].secrets.transfer_id == transfer_id {
            proof {
                model::lemma_session_place_is(views, transfer_id, place as int);
            }
            return place;
        }
        place += 1;
    }
    proof {
        model::lemma_session_place_is(views, transfer_id, place as int);
    }
    place
}

impl TransferSession {
    fn status(&self) -> (status: TransferStatus)
        ensures
            status == self@.status(),
    {
        TransferStatus { state: self.state, unique_bytes: self.coverage.unique_bytes() }
    }

    /// The credentials that the receiver of the transfer is given.
    fn credentials(&self, now: u64) -> (credentials: TransferCredentials)
        ensures
            credentials == self@.credentials(now),
    {
        TransferCredentials {
            offer_id: self.offer_id,
            file_id: self.file_id,
            transfer_id: self.secrets.transfer_id,
            capability: self.secrets.capability,
            server_nonce: self.secrets.server_nonce,
            expires_at_millis: if self.expires_at <= now {
                0
            } else {
                (self.expires_at - now) / NANOS_PER_MILLI
            },
        }
    }
}

} // verus!
