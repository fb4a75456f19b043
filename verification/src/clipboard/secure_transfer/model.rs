//! What a server knows and how requests change it, as values.

use super::manifest::{EntryView, ManifestView};
use super::offer;
use super::wire::{
    Opcode, ProtocolId, RemoteTransferState, ResponseStatus, TransferCredentials, TransferStatus,
    MAX_SECURE_RANGE_BYTES,
};
use crate::clipboard::coverage::CoverageView;
use crate::counter;
use crate::counter::count;
use crate::random;
use crate::security::CertificateFingerprint;
use vstd::prelude::*;

verus! {

/// Most transfers that may run or pause at a time.
pub const MAX_ACTIVE_TRANSFERS: usize = 64;

/// Most transfers and most request nonces that a server remembers.
pub const MAX_BEGIN_NONCES: usize = 4096;

/// Longest wait of a paused read before it is answered without data, in nanoseconds.
pub const MAX_PAUSE_POLL_NANOS: u64 = 5_000_000_000;

/// Nanoseconds of a millisecond.
pub const NANOS_PER_MILLI: u64 = 1_000_000;

/// Most connections that a server works on at a time.
pub const DEFAULT_MAX_WORKERS: usize = 32;

/// The events of a server.
#[derive(Clone, Copy, Debug, PartialEq, Eq, Structural)]
pub struct SecureMetrics {
    pub accepted_connections: u64,
    pub tls_failures: u64,
    pub protocol_errors: u64,
    pub denied_requests: u64,
    pub replayed_requests: u64,
    pub begun_transfers: u64,
    pub read_requests: u64,
    pub served_bytes: u64,
    pub cancelled_transfers: u64,
    pub active_reads: u64,
    pub max_concurrent_reads: u64,
}

/// The events of a server together with the progress of its transfers.
#[derive(Clone, Copy, Debug, PartialEq, Eq, Structural)]
pub struct SecureMetricsSnapshot {
    pub accepted_connections: u64,
    pub tls_failures: u64,
    pub protocol_errors: u64,
    pub denied_requests: u64,
    pub replayed_requests: u64,
    pub begun_transfers: u64,
    pub read_requests: u64,
    pub served_bytes: u64,
    pub unique_bytes: u64,
    pub cancelled_transfers: u64,
    pub active_reads: u64,
    pub max_concurrent_reads: u64,
}

impl SecureMetrics {
    /// Nothing has happened.
    pub open spec fn zero() -> SecureMetrics {
        SecureMetrics {
            accepted_connections: 0,
            tls_failures: 0,
            protocol_errors: 0,
            denied_requests: 0,
            replayed_requests: 0,
            begun_transfers: 0,
            read_requests: 0,
            served_bytes: 0,
            cancelled_transfers: 0,
            active_reads: 0,
            max_concurrent_reads: 0,
        }
    }

    pub fn new() -> (metrics: Self)
        ensures
            metrics == SecureMetrics::zero(),
    {
        SecureMetrics {
            accepted_connections: 0,
            tls_failures: 0,
            protocol_errors: 0,
            denied_requests: 0,
            replayed_requests: 0,
            begun_transfers: 0,
            read_requests: 0,
            served_bytes: 0,
            cancelled_transfers: 0,
            active_reads: 0,
            max_concurrent_reads: 0,
        }
    }

    /// One more read runs; the largest number of reads at a time grows with it.
    pub open spec fn read_begun(self) -> SecureMetrics {
        let current = counter::counted(self.active_reads, 1);
        SecureMetrics {
            active_reads: current,
            max_concurrent_reads: if current > self.max_concurrent_reads {
                current
            } else {
                self.max_concurrent_reads
            },
            ..self
        }
    }

    /// One read less runs.
    pub open spec fn read_ended(self) -> SecureMetrics {
        SecureMetrics {
            active_reads: if self.active_reads == 0 {
                u64::MAX
            } else {
                (self.active_reads - 1) as u64
            },
            ..self
        }
    }

    pub fn begin_read(&mut self)
        ensures
            *final(self) == old(self).read_begun(),
    {
        let current: u64 = count(self.active_reads);
        self.active_reads = current;
        if current > self.max_concurrent_reads {
            self.max_concurrent_reads = current;
        }
    }

    pub fn end_read(&mut self)
        ensures
            *final(self) == old(self).read_ended(),
    {
        self.active_reads = self.active_reads.wrapping_sub(1);
    }

    /// The events together with the progress of the transfers.
    pub open spec fn spec_snapshot(self, unique_bytes: u64) -> SecureMetricsSnapshot {
        SecureMetricsSnapshot {
            accepted_connections: self.accepted_connections,
            tls_failures: self.tls_failures,
            protocol_errors: self.protocol_errors,
            denied_requests: self.denied_requests,
            replayed_requests: self.replayed_requests,
            begun_transfers: self.begun_transfers,
            read_requests: self.read_requests,
            served_bytes: self.served_bytes,
            unique_bytes,
            cancelled_transfers: self.cancelled_transfers,
            active_reads: self.active_reads,
            max_concurrent_reads: self.max_concurrent_reads,
        }
    }

    pub fn snapshot(&self, unique_bytes: u64) -> (snapshot: SecureMetricsSnapshot)
        ensures
            snapshot == self.spec_snapshot(unique_bytes),
    {
        SecureMetricsSnapshot {
            accepted_connections: self.accepted_connections,
            tls_failures: self.tls_failures,
            protocol_errors: self.protocol_errors,
            denied_requests: self.denied_requests,
            replayed_requests: self.replayed_requests,
            begun_transfers: self.begun_transfers,
            read_requests: self.read_requests,
            served_bytes: self.served_bytes,
            unique_bytes,
            cancelled_transfers: self.cancelled_transfers,
            active_reads: self.active_reads,
            max_concurrent_reads: self.max_concurrent_reads,
        }
    }
}

/// What only the server and the receiver of a transfer know.
#[derive(Clone, Copy, Debug)]
pub struct SessionSecrets {
    pub transfer_id: ProtocolId,
    pub capability: [u8; 32],
    pub server_nonce: [u8; 32],
}

/// The contents of a transfer.
#[verifier::ext_equal]
pub struct SessionView {
    pub authorized_peer: CertificateFingerprint,
    pub offer_id: ProtocolId,
    pub file_id: ProtocolId,
    pub secrets: SessionSecrets,
    pub expires_at: u64,
    pub state: RemoteTransferState,
    pub last_control_sequence: u64,
    pub coverage: CoverageView,
}

impl SessionView {
    /// The credentials of a transfer for which `left` nanoseconds are left.
    pub open spec fn credentials(self, now: u64) -> TransferCredentials {
        TransferCredentials {
            offer_id: self.offer_id,
            file_id: self.file_id,
            transfer_id: self.secrets.transfer_id,
            capability: self.secrets.capability,
            server_nonce: self.secrets.server_nonce,
            expires_at_millis: if self.expires_at <= now {
                0
            } else {
                ((self.expires_at - now) / NANOS_PER_MILLI as int) as u64
            },
        }
    }

    /// Whether the credentials and the peer are those of the transfer.
    pub open spec fn matches(
        self,
        peer: CertificateFingerprint,
        credentials: TransferCredentials,
    ) -> bool {
        &&& self.authorized_peer == peer
        &&& self.offer_id == credentials.offer_id
        &&& self.file_id == credentials.file_id
        &&& self.secrets.capability == credentials.capability
        &&& self.secrets.server_nonce == credentials.server_nonce
    }

    pub open spec fn status(self) -> TransferStatus {
        TransferStatus { state: self.state, unique_bytes: self.coverage.unique_bytes }
    }
}

/// A nonce that has begun a transfer, and until when it is remembered.
#[derive(Clone, Copy, Debug)]
pub struct BeginNonce {
    pub nonce: [u8; 32],
    pub expires_at: u64,
}

/// The transfers that have not expired.
pub open spec fn live_sessions(sessions: Seq<SessionView>, now: u64) -> Seq<SessionView>
    decreases sessions.len(),
{
    if sessions.len() == 0 {
        Seq::empty()
    } else if sessions.last().expires_at > now {
        live_sessions(sessions.drop_last(), now).push(sessions.last())
    } else {
        live_sessions(sessions.drop_last(), now)
    }
}

/// The transfers that have expired and of which one of these reads is not over.
pub open spec fn read_sessions(
    sessions: Seq<SessionView>,
    now: u64,
    reads: Seq<ProtocolId>,
) -> Seq<SessionView>
    decreases sessions.len(),
{
    if sessions.len() == 0 {
        Seq::empty()
    } else if sessions.last().expires_at <= now && reads.contains(
        sessions.last().secrets.transfer_id,
    ) {
        read_sessions(sessions.drop_last(), now, reads).push(sessions.last())
    } else {
        read_sessions(sessions.drop_last(), now, reads)
    }
}

/// The transfers of which one of these reads is not over.
pub open spec fn held_sessions(
    sessions: Seq<SessionView>,
    reads: Seq<ProtocolId>,
) -> Seq<SessionView>
    decreases sessions.len(),
{
    if sessions.len() == 0 {
        Seq::empty()
    } else if reads.contains(sessions.last().secrets.transfer_id) {
        held_sessions(sessions.drop_last(), reads).push(sessions.last())
    } else {
        held_sessions(sessions.drop_last(), reads)
    }
}

/// The reads without the first one of a transfer.
pub open spec fn without_read(reads: Seq<ProtocolId>, transfer_id: ProtocolId) -> Seq<ProtocolId>
    decreases reads.len(),
{
    if reads.len() == 0 {
        reads
    } else if reads[0] == transfer_id {
        reads.skip(1)
    } else {
        seq![reads[0]] + without_read(reads.skip(1), transfer_id)
    }
}

/// The nonces that are still remembered.
pub open spec fn live_nonces(nonces: Seq<BeginNonce>, now: u64) -> Seq<BeginNonce>
    decreases nonces.len(),
{
    if nonces.len() == 0 {
        Seq::empty()
    } else if nonces.last().expires_at > now {
        live_nonces(nonces.drop_last(), now).push(nonces.last())
    } else {
        live_nonces(nonces.drop_last(), now)
    }
}

/// Whether a nonce is remembered.
pub open spec fn has_nonce(nonces: Seq<BeginNonce>, nonce: [u8; 32]) -> bool {
    exists|k: int| 0 <= k < nonces.len() && (#[trigger] nonces[k]).nonce == nonce
}

/// How many transfers run or pause.
pub open spec fn active_count(sessions: Seq<SessionView>) -> nat
    decreases sessions.len(),
{
    if sessions.len() == 0 {
        0
    } else {
        active_count(sessions.drop_last()) + (if sessions.last().state.is_active() {
            1nat
        } else {
            0
        })
    }
}

/// How many transfers of a peer run or pause.
pub open spec fn peer_active_count(
    sessions: Seq<SessionView>,
    peer: CertificateFingerprint,
) -> nat
    decreases sessions.len(),
{
    if sessions.len() == 0 {
        0
    } else {
        peer_active_count(sessions.drop_last(), peer) + (if sessions.last().authorized_peer == peer
            && sessions.last().state.is_active() {
            1nat
        } else {
            0
        })
    }
}

/// The summed progress of transfers.
pub open spec fn unique_total(sessions: Seq<SessionView>) -> nat
    decreases sessions.len(),
{
    if sessions.len() == 0 {
        0
    } else {
        unique_total(sessions.drop_last()) + sessions.last().coverage.unique_bytes as nat
    }
}

/// A transfer after those of `peer` that ran or paused were cancelled.
pub open spec fn cancelled_for(session: SessionView, peer: CertificateFingerprint) -> SessionView {
    if session.authorized_peer == peer && session.state.is_active() {
        SessionView { state: RemoteTransferState::Cancelled, ..session }
    } else {
        session
    }
}

/// Where the transfer with this identifier stands; past the end where there is none.
pub open spec fn session_place(sessions: Seq<SessionView>, transfer_id: ProtocolId) -> nat
    decreases sessions.len(),
{
    if sessions.len() == 0 || sessions[0].secrets.transfer_id == transfer_id {
        0
    } else {
        1 + session_place(sessions.skip(1), transfer_id)
    }
}

/// The transfers with one more; it takes the place of one with the same identifier.
pub open spec fn with_session(sessions: Seq<SessionView>, session: SessionView) -> Seq<SessionView> {
    let place = session_place(sessions, session.secrets.transfer_id) as int;
    if place < sessions.len() {
        sessions.update(place, session)
    } else {
        sessions.push(session)
    }
}

pub proof fn lemma_session_place(sessions: Seq<SessionView>, transfer_id: ProtocolId)
    ensures
        session_place(sessions, transfer_id) <= sessions.len(),
        session_place(sessions, transfer_id) < sessions.len() ==> sessions[session_place(
            sessions,
            transfer_id,
        ) as int].secrets.transfer_id == transfer_id,
        forall|k: int|
            0 <= k < session_place(sessions, transfer_id) ==> (
            #[trigger] sessions[k]).secrets.transfer_id != transfer_id,
    decreases sessions.len(),
{
    if sessions.len() > 0 && sessions[0].secrets.transfer_id != transfer_id {
        let rest = sessions.skip(1);
        lemma_session_place(rest, transfer_id);
        assert forall|k: int| 0 <= k < session_place(sessions, transfer_id) implies (
        #[trigger] sessions[k]).secrets.transfer_id != transfer_id by {
            if k > 0 {
                assert(rest[k - 1] == sessions[k]);
            }
        }
        if session_place(sessions, transfer_id) < sessions.len() {
            assert(rest[session_place(rest, transfer_id) as int] == sessions[session_place(
                sessions,
                transfer_id,
            ) as int]);
        }
    }
}

pub proof fn lemma_session_place_is(sessions: Seq<SessionView>, transfer_id: ProtocolId, at: int)
    requires
        0 <= at <= sessions.len(),
        at < sessions.len() ==> sessions[at].secrets.transfer_id == transfer_id,
        forall|k: int|
            0 <= k < at ==> (#[trigger] sessions[k]).secrets.transfer_id != transfer_id,
    ensures
        session_place(sessions, transfer_id) == at,
{
    lemma_session_place(sessions, transfer_id);
    let found = session_place(sessions, transfer_id) as int;
    if found < at {
        assert(sessions[found].secrets.transfer_id == transfer_id);
    } else if at < found {
        assert(sessions[at].secrets.transfer_id != transfer_id);
    }
}

/// What a control request makes of a state.
pub open spec fn controlled(state: RemoteTransferState, opcode: Opcode) -> RemoteTransferState {
    match opcode {
        Opcode::Pause => if state is Running {
            RemoteTransferState::Paused
        } else {
            state
        },
        Opcode::Resume => if state is Paused {
            RemoteTransferState::Running
        } else {
            state
        },
        Opcode::Cancel => if state.is_active() {
            RemoteTransferState::Cancelled
        } else {
            state
        },
        Opcode::Complete => if state is Running {
            RemoteTransferState::Completed
        } else {
            state
        },
        _ => state,
    }
}

/// Whether an opcode controls a transfer.
pub open spec fn is_control(opcode: Opcode) -> bool {
    opcode is Pause || opcode is Resume || opcode is Cancel || opcode is Complete
}

impl SessionSecrets {
    /// The secrets that three draws give, if each of them gave something.
    pub open spec fn of_draws(
        transfer_id: Option<[u8; 16]>,
        capability: Option<[u8; 32]>,
        server_nonce: Option<[u8; 32]>,
    ) -> Option<SessionSecrets> {
        match (transfer_id, capability, server_nonce) {
            (Some(transfer_id), Some(capability), Some(server_nonce)) => Some(
                SessionSecrets { transfer_id: ProtocolId(transfer_id), capability, server_nonce },
            ),
            _ => None,
        }
    }

    /// The secrets that three draws give, if each of them gave something.
    pub fn from_draws(
        transfer_id: Option<[u8; 16]>,
        capability: Option<[u8; 32]>,
        server_nonce: Option<[u8; 32]>,
    ) -> (secrets: Option<SessionSecrets>)
        ensures
            secrets == SessionSecrets::of_draws(transfer_id, capability, server_nonce),
    {
        match (transfer_id, capability, server_nonce) {
            (Some(transfer_id), Some(capability), Some(server_nonce)) => Some(
                SessionSecrets { transfer_id: ProtocolId(transfer_id), capability, server_nonce },
            ),
            _ => None,
        }
    }

    /// Whether the system's random number source can have given the secrets.
    pub open spec fn drawn(self) -> bool {
        &&& random::drawn(self.transfer_id.0@)
        &&& random::drawn(self.capability@)
        &&& random::drawn(self.server_nonce@)
    }

    /// Whether the system's random number source can have failed to give secrets.
    pub open spec fn refused() -> bool {
        ||| exists|reason: String| random::refused(16, reason)
        ||| exists|reason: String| random::refused(32, reason)
    }

    /// Fresh random secrets, or nothing where the system has no randomness: each was drawn from
    /// the system's random number source. Nothing else is claimed of the bytes.
    pub fn random() -> (secrets: Option<SessionSecrets>)
        ensures
            match secrets {
                Some(secrets) => secrets.drawn(),
                None => SessionSecrets::refused(),
            },
    {
        let transfer_id = match random::random_16() {
            Ok(transfer_id) => transfer_id,
            Err(reason) => {
                assert(random::refused(16, reason));
                return None;
            },
        };
        let capability = match random::random_32() {
            Ok(capability) => capability,
            Err(reason) => {
                assert(random::refused(32, reason));
                return None;
            },
        };
        let server_nonce = match random::random_32() {
            Ok(server_nonce) => server_nonce,
            Err(reason) => {
                assert(random::refused(32, reason));
                return None;
            },
        };
        SessionSecrets::from_draws(Some(transfer_id), Some(capability), Some(server_nonce))
    }
}

/// What is next for a read of a transfer.
#[derive(Clone, Copy, Debug, PartialEq, Eq)]
pub enum ReadStep {
    /// The transfer is paused: wait for a change, at most this many nanoseconds.
    Wait { nanos: u64 },
    /// The read is over without data.
    Answer { outcome: Result<TransferStatus, ResponseStatus> },
    /// Read this many bytes of the file.
    Read { count: usize },
}

/// How a connection ended.
#[derive(Clone, Copy, Debug, PartialEq, Eq, Structural)]
pub enum ConnectionEnd {
    /// The peer closed it.
    Closed,
    /// The peer may not use the offer.
    Denied,
    /// The peer broke the protocol, or reading or writing failed.
    ProtocolError,
    /// The secure channel could not be set up.
    TlsFailure,
}

/// Everything that a server decides by: the offer, the transfers that are known, those that were
/// forgotten before their reads were over, the reads by the transfers that they are of, and the
/// nonces that are remembered.
#[verifier::ext_equal]
pub struct ServerModel {
    pub offer_id: ProtocolId,
    pub entries: Seq<EntryView>,
    pub offer_expires_at: u64,
    pub authorized_peer: CertificateFingerprint,
    pub transfer_ttl: u64,
    pub request_timeout: u64,
    pub sessions: Seq<SessionView>,
    pub lingering: Seq<SessionView>,
    pub reads: Seq<ProtocolId>,
    pub nonces: Seq<BeginNonce>,
    pub metrics: SecureMetrics,
}

impl ServerModel {
    /// A valid tree is on offer; transfers have distinct identifiers and belong to the selected
    /// peer, nonces are distinct; both are few, and so are the transfers that run or pause.
    pub open spec fn consistent(self) -> bool {
        &&& offer::is_tree(self.entries)
        &&& self.sessions.len() <= MAX_BEGIN_NONCES
        &&& active_count(self.sessions) <= MAX_ACTIVE_TRANSFERS
        &&& forall|k: int|
            0 <= k < self.sessions.len() ==> (#[trigger] self.sessions[k]).authorized_peer
                == self.authorized_peer
        &&& self.nonces.len() <= MAX_BEGIN_NONCES
        &&& forall|j: int, k: int|
            0 <= j < k < self.sessions.len() ==> (
            #[trigger] self.sessions[j]).secrets.transfer_id != (
            #[trigger] self.sessions[k]).secrets.transfer_id
        &&& forall|j: int, k: int|
            0 <= j < k < self.nonces.len() ==> (#[trigger] self.nonces[j]).nonce != (
            #[trigger] self.nonces[k]).nonce
    }

    /// Whether a peer may use the offer: it is the selected one and still trusted.
    pub open spec fn allows(self, peer: CertificateFingerprint, trusted: bool) -> bool {
        peer == self.authorized_peer && trusted
    }

    /// Whether the offer has content under this identifier: an entry that is no directory.
    pub open spec fn has_source(self, file_id: ProtocolId) -> bool {
        offer::has_content(self.entries, file_id)
    }

    /// Where the first entry with this identifier stands; past the end where there is none.
    pub open spec fn entry_place(self, file_id: ProtocolId) -> int {
        offer::entry_place(self.entries, file_id) as int
    }

    pub open spec fn with_metrics(self, metrics: SecureMetrics) -> ServerModel {
        ServerModel { metrics, ..self }
    }

    pub open spec fn with_denied(self) -> ServerModel {
        self.with_metrics(
            SecureMetrics {
                denied_requests: counter::counted(self.metrics.denied_requests, 1),
                ..self.metrics
            },
        )
    }

    pub open spec fn with_replayed(self) -> ServerModel {
        self.with_metrics(
            SecureMetrics {
                replayed_requests: counter::counted(self.metrics.replayed_requests, 1),
                ..self.metrics
            },
        )
    }

    pub open spec fn with_cancelled(self, more: nat) -> ServerModel {
        self.with_metrics(
            SecureMetrics {
                cancelled_transfers: counter::counted(self.metrics.cancelled_transfers, more),
                ..self.metrics
            },
        )
    }

    /// The server after it cancelled every transfer of a peer that ran or paused.
    pub open spec fn with_peer_cancelled(self, peer: CertificateFingerprint) -> ServerModel {
        ServerModel {
            sessions: self.sessions.map_values(
                |session: SessionView| cancelled_for(session, peer),
            ),
            ..self
        }.with_cancelled(peer_active_count(self.sessions, peer))
    }

    /// The server after it refused a peer that may not use the offer.
    pub open spec fn with_peer_refused(self, peer: CertificateFingerprint) -> ServerModel {
        self.with_denied().with_peer_cancelled(peer)
    }

    /// The server after it forgot what has expired. A transfer lingers until its reads are over.
    pub open spec fn pruned(self, now: u64) -> ServerModel {
        ServerModel {
            sessions: live_sessions(self.sessions, now),
            lingering: self.lingering + read_sessions(self.sessions, now, self.reads),
            nonces: live_nonces(self.nonces, now),
            ..self
        }
    }

    pub open spec fn busy(self) -> bool {
        ||| active_count(self.sessions) >= MAX_ACTIVE_TRANSFERS
        ||| self.sessions.len() >= MAX_BEGIN_NONCES
        ||| self.nonces.len() >= MAX_BEGIN_NONCES
    }

    /// The session that a begun transfer starts with.
    pub open spec fn fresh_session(
        self,
        peer: CertificateFingerprint,
        now: u64,
        offer_id: ProtocolId,
        file_id: ProtocolId,
        secrets: SessionSecrets,
    ) -> SessionView {
        SessionView {
            authorized_peer: peer,
            offer_id,
            file_id,
            secrets,
            expires_at: (now + self.transfer_ttl) as u64,
            state: RemoteTransferState::Running,
            last_control_sequence: 0,
            coverage: CoverageView::nothing(),
        }
    }

    /// A connection that comes while `workers` others are worked on: the server afterwards, and
    /// whether the connection is taken.
    pub open spec fn admit_connection(self, workers: nat) -> (ServerModel, bool) {
        let accepted = SecureMetrics {
            accepted_connections: counter::counted(self.metrics.accepted_connections, 1),
            ..self.metrics
        };
        if workers >= DEFAULT_MAX_WORKERS {
            (
                self.with_metrics(
                    SecureMetrics {
                        protocol_errors: counter::counted(accepted.protocol_errors, 1),
                        ..accepted
                    },
                ),
                false,
            )
        } else {
            (self.with_metrics(accepted), true)
        }
    }

    /// A connection that ended: the server afterwards.
    pub open spec fn end_connection(self, end: ConnectionEnd) -> ServerModel {
        match end {
            ConnectionEnd::Closed | ConnectionEnd::Denied => self,
            ConnectionEnd::ProtocolError => self.with_metrics(
                SecureMetrics {
                    protocol_errors: counter::counted(self.metrics.protocol_errors, 1),
                    ..self.metrics
                },
            ),
            ConnectionEnd::TlsFailure => self.with_metrics(
                SecureMetrics {
                    tls_failures: counter::counted(self.metrics.tls_failures, 1),
                    ..self.metrics
                },
            ),
        }
    }

    /// A check of a peer outside of any request: the server afterwards, and whether the peer may
    /// go on.
    pub open spec fn ensure_allowed(self, peer: CertificateFingerprint, trusted: bool) -> (
        ServerModel,
        bool,
    ) {
        if self.allows(peer, trusted) {
            (self, true)
        } else {
            (self.with_peer_refused(peer), false)
        }
    }

    /// The offer as it is told at `now`: with the milliseconds that are left of its lifetime.
    pub open spec fn told(self, now: u64) -> ManifestView {
        ManifestView {
            offer_id: self.offer_id,
            ttl_millis: if self.offer_expires_at <= now {
                0
            } else {
                ((self.offer_expires_at - now) / NANOS_PER_MILLI as int) as u64
            },
            entries: self.entries,
        }
    }

    /// How long a connection may be silent: as long as a transfer or a request may take.
    pub open spec fn idle_timeout(self) -> u64 {
        if self.transfer_ttl < self.request_timeout {
            self.request_timeout
        } else {
            self.transfer_ttl
        }
    }

    /// A request to begin a transfer: the server afterwards, and its answer.
    pub open spec fn begin(
        self,
        peer: CertificateFingerprint,
        trusted: bool,
        now: u64,
        offer_id: ProtocolId,
        file_id: ProtocolId,
        nonce: [u8; 32],
        secrets: Option<SessionSecrets>,
    ) -> (ServerModel, Result<TransferCredentials, ResponseStatus>) {
        let pruned = self.pruned(now);
        if !self.allows(peer, trusted) {
            (self.with_peer_refused(peer), Err(ResponseStatus::Denied))
        } else if offer_id != self.offer_id || now >= self.offer_expires_at {
            (self, Err(ResponseStatus::Expired))
        } else if !self.has_source(file_id) {
            (self.with_denied(), Err(ResponseStatus::Denied))
        } else if has_nonce(pruned.nonces, nonce) {
            (pruned.with_replayed(), Err(ResponseStatus::Replay))
        } else if pruned.busy() {
            (pruned, Err(ResponseStatus::Busy))
        } else if secrets is None || now + self.transfer_ttl > u64::MAX {
            (pruned, Err(ResponseStatus::Internal))
        } else {
            let session = self.fresh_session(peer, now, offer_id, file_id, secrets->0);
            (
                ServerModel {
                    sessions: with_session(pruned.sessions, session),
                    nonces: pruned.nonces.push(
                        BeginNonce { nonce, expires_at: (now + self.transfer_ttl) as u64 },
                    ),
                    metrics: SecureMetrics {
                        begun_transfers: counter::counted(self.metrics.begun_transfers, 1),
                        ..self.metrics
                    },
                    ..pruned
                },
                Ok(session.credentials(now)),
            )
        }
    }

    /// A request with credentials: the server afterwards, and the place of the transfer.
    pub open spec fn authenticate(
        self,
        peer: CertificateFingerprint,
        trusted: bool,
        now: u64,
        credentials: TransferCredentials,
    ) -> (ServerModel, Result<int, ResponseStatus>) {
        let place = session_place(self.sessions, credentials.transfer_id) as int;
        if !self.allows(peer, trusted) {
            (self.with_peer_refused(peer), Err(ResponseStatus::Denied))
        } else if place >= self.sessions.len() {
            (self.with_denied(), Err(ResponseStatus::Denied))
        } else if self.sessions[place].expires_at <= now {
            (self, Err(ResponseStatus::Expired))
        } else if !self.sessions[place].matches(peer, credentials) {
            (self.with_denied(), Err(ResponseStatus::Denied))
        } else {
            (self, Ok(place))
        }
    }

    pub open spec fn with_session_at(self, place: int, session: SessionView) -> ServerModel {
        ServerModel { sessions: self.sessions.update(place, session), ..self }
    }

    /// A control request: the server afterwards, and its answer.
    pub open spec fn control(
        self,
        peer: CertificateFingerprint,
        trusted: bool,
        now: u64,
        credentials: TransferCredentials,
        sequence: u64,
        opcode: Opcode,
    ) -> (ServerModel, Result<TransferStatus, ResponseStatus>) {
        let (checked, place) = self.authenticate(peer, trusted, now, credentials);
        match place {
            Err(status) => (checked, Err(status)),
            Ok(place) => {
                let session = self.sessions[place];
                let next = SessionView {
                    last_control_sequence: sequence,
                    state: controlled(session.state, opcode),
                    ..session
                };
                if sequence <= session.last_control_sequence {
                    (self.with_replayed(), Err(ResponseStatus::Replay))
                } else if !is_control(opcode) {
                    (self.with_session_at(place, next), Err(ResponseStatus::Invalid))
                } else if next.state is Cancelled && session.state.is_active() {
                    (self.with_session_at(place, next).with_cancelled(1), Ok(next.status()))
                } else {
                    (self.with_session_at(place, next), Ok(next.status()))
                }
            },
        }
    }

    /// A request for the status: the server afterwards, and its answer.
    pub open spec fn status(
        self,
        peer: CertificateFingerprint,
        trusted: bool,
        now: u64,
        credentials: TransferCredentials,
    ) -> (ServerModel, Result<TransferStatus, ResponseStatus>) {
        let (checked, place) = self.authenticate(peer, trusted, now, credentials);
        match place {
            Err(status) => (checked, Err(status)),
            Ok(place) => (checked, Ok(self.sessions[place].status())),
        }
    }

    /// A request for a range: the server afterwards, and whether the read may go on.
    pub open spec fn start_read(
        self,
        peer: CertificateFingerprint,
        trusted: bool,
        now: u64,
        credentials: TransferCredentials,
        requested: nat,
    ) -> (ServerModel, Result<(), ResponseStatus>) {
        if requested > MAX_SECURE_RANGE_BYTES {
            (self, Err(ResponseStatus::Invalid))
        } else {
            let (checked, place) = self.authenticate(peer, trusted, now, credentials);
            match place {
                Err(status) => (checked, Err(status)),
                Ok(_) => (
                    ServerModel {
                        reads: self.reads.push(credentials.transfer_id),
                        metrics: SecureMetrics {
                            read_requests: counter::counted(self.metrics.read_requests, 1),
                            ..self.metrics
                        }.read_begun(),
                        ..self
                    },
                    Ok(()),
                ),
            }
        }
    }

    /// The server after a read of a transfer is over: a transfer that lingered for it is forgotten.
    pub open spec fn with_read_ended(self, transfer_id: ProtocolId) -> ServerModel {
        let reads = without_read(self.reads, transfer_id);
        ServerModel {
            lingering: held_sessions(self.lingering, reads),
            reads,
            metrics: self.metrics.read_ended(),
            ..self
        }
    }

    /// The transfer that a read is of, known or lingering.
    pub open spec fn reading(self, transfer_id: ProtocolId) -> Option<SessionView> {
        let place = session_place(self.sessions, transfer_id) as int;
        let late = session_place(self.lingering, transfer_id) as int;
        if place < self.sessions.len() {
            Some(self.sessions[place])
        } else if late < self.lingering.len() {
            Some(self.lingering[late])
        } else {
            None
        }
    }

    /// The server after the transfer that a read is of has changed.
    pub open spec fn with_reading(self, transfer_id: ProtocolId, session: SessionView) -> ServerModel {
        let place = session_place(self.sessions, transfer_id) as int;
        let late = session_place(self.lingering, transfer_id) as int;
        if place < self.sessions.len() {
            self.with_session_at(place, session)
        } else {
            ServerModel { lingering: self.lingering.update(late, session), ..self }
        }
    }

    /// How many bytes of a file of `size` bytes a read of `requested` bytes at `offset` gives.
    pub open spec fn readable(size: u64, offset: u64, requested: nat) -> nat {
        if offset >= size {
            0
        } else if size - offset < requested {
            (size - offset) as nat
        } else {
            requested
        }
    }

    /// A read that goes on: the server afterwards, and what is next for the read.
    pub open spec fn poll_read(
        self,
        peer: CertificateFingerprint,
        trusted: bool,
        now: u64,
        transfer_id: ProtocolId,
        offset: u64,
        requested: nat,
        timed_out: bool,
    ) -> (ServerModel, ReadStep) {
        let ended = self.with_read_ended(transfer_id);
        match self.reading(transfer_id) {
            None => (ended, ReadStep::Answer { outcome: Err(ResponseStatus::Expired) }),
            Some(session) => {
                let entry = self.entry_place(session.file_id);
                if session.state is Paused && timed_out {
                    (ended, ReadStep::Answer { outcome: Ok(session.status()) })
                } else if session.state is Paused && !self.allows(peer, trusted) {
                    (
                        self.with_reading(
                            transfer_id,
                            SessionView { state: RemoteTransferState::Cancelled, ..session },
                        ).with_cancelled(1).with_read_ended(transfer_id),
                        ReadStep::Answer { outcome: Err(ResponseStatus::Denied) },
                    )
                } else if now >= session.expires_at {
                    (ended, ReadStep::Answer { outcome: Err(ResponseStatus::Expired) })
                } else if session.state is Paused {
                    (
                        self,
                        ReadStep::Wait { nanos: self.poll_nanos((session.expires_at - now) as u64) },
                    )
                } else if session.state is Cancelled {
                    (ended, ReadStep::Answer { outcome: Err(ResponseStatus::Cancelled) })
                } else if !self.allows(peer, trusted) {
                    (
                        self.with_peer_refused(peer).with_read_ended(transfer_id),
                        ReadStep::Answer { outcome: Err(ResponseStatus::Denied) },
                    )
                } else if !self.has_source(session.file_id) || entry >= self.entries.len() {
                    (ended, ReadStep::Answer { outcome: Err(ResponseStatus::Denied) })
                } else {
                    (
                        self,
                        ReadStep::Read {
                            count: Self::readable(
                                self.entries[entry].descriptor.size,
                                offset,
                                requested,
                            ) as usize,
                        },
                    )
                }
            },
        }
    }

    /// How long a paused read waits when `left` nanoseconds are left to the transfer.
    pub open spec fn poll_nanos(self, left: u64) -> u64 {
        let bounded = if self.request_timeout < MAX_PAUSE_POLL_NANOS {
            self.request_timeout
        } else {
            MAX_PAUSE_POLL_NANOS
        };
        if left < bounded {
            left
        } else {
            bounded
        }
    }

    /// The end of a read that got `read` bytes, or failed: the server afterwards, and its answer.
    pub open spec fn finish_read(
        self,
        peer: CertificateFingerprint,
        trusted: bool,
        now: u64,
        transfer_id: ProtocolId,
        offset: u64,
        read: Option<u64>,
    ) -> (ServerModel, Result<TransferStatus, ResponseStatus>) {
        let ended = self.with_read_ended(transfer_id);
        match (read, self.reading(transfer_id)) {
            (None, _) => (ended, Err(ResponseStatus::SourceChanged)),
            (Some(_), None) => (ended, Err(
                if self.allows(peer, trusted) {
                    ResponseStatus::Expired
                } else {
                    ResponseStatus::Denied
                },
            )),
            (Some(read), Some(session)) => if !self.allows(peer, trusted) {
                if session.state.is_active() {
                    (
                        self.with_reading(
                            transfer_id,
                            SessionView { state: RemoteTransferState::Cancelled, ..session },
                        ).with_cancelled(1).with_read_ended(transfer_id),
                        Err(ResponseStatus::Denied),
                    )
                } else {
                    (ended, Err(ResponseStatus::Denied))
                }
            } else if now >= session.expires_at {
                (ended, Err(ResponseStatus::Expired))
            } else if session.state is Cancelled {
                (ended, Err(ResponseStatus::Cancelled))
            } else {
                let next = SessionView {
                    coverage: session.coverage.noted(offset, read),
                    ..session
                };
                let moved = self.with_reading(transfer_id, next);
                (
                    moved.with_metrics(
                        SecureMetrics {
                            served_bytes: counter::counted(self.metrics.served_bytes, read as nat),
                            ..moved.metrics
                        },
                    ).with_read_ended(transfer_id),
                    Ok(next.status()),
                )
            },
        }
    }
}

/// Forgetting expired transfers keeps the model consistent.
pub proof fn lemma_pruned_sessions_consistent(model: ServerModel, now: u64)
    requires
        model.consistent(),
    ensures
        (ServerModel { sessions: live_sessions(model.sessions, now), ..model }).consistent(),
{
    lemma_live_sessions(model.sessions, now);
    let live = live_sessions(model.sessions, now);
    assert forall|k: int| 0 <= k < live.len() implies (#[trigger] live[k]).authorized_peer
        == model.authorized_peer by {
        let at = choose|at: int| 0 <= at < model.sessions.len() && model.sessions[at] == live[k];
        assert(model.sessions[at].authorized_peer == model.authorized_peer);
    }
}

/// A transfer more keeps the model consistent where there is room for it.
pub proof fn lemma_inserted_consistent(model: ServerModel, session: SessionView)
    requires
        model.consistent(),
        model.sessions.len() < MAX_BEGIN_NONCES,
        active_count(model.sessions) < MAX_ACTIVE_TRANSFERS,
        session.authorized_peer == model.authorized_peer,
    ensures
        (ServerModel {
            sessions: with_session(model.sessions, session),
            ..model
        }).consistent(),
{
    let sessions = model.sessions;
    let after = with_session(sessions, session);
    let id = session.secrets.transfer_id;
    lemma_session_place(sessions, id);
    let place = session_place(sessions, id) as int;
    assert forall|j: int, k: int| 0 <= j < k < after.len() implies (
    #[trigger] after[j]).secrets.transfer_id != (#[trigger] after[k]).secrets.transfer_id by {
        if place < sessions.len() {
            assert(sessions[j].secrets.transfer_id == after[j].secrets.transfer_id);
            assert(sessions[k].secrets.transfer_id == after[k].secrets.transfer_id);
        } else if k < sessions.len() {
            assert(sessions[j] == after[j] && sessions[k] == after[k]);
        } else {
            assert(sessions[j] == after[j]);
            assert(sessions[j].secrets.transfer_id != id);
        }
    }
    assert forall|k: int| 0 <= k < after.len() implies (#[trigger] after[k]).authorized_peer
        == model.authorized_peer by {
        if k < sessions.len() {
            assert(sessions[k].authorized_peer == model.authorized_peer);
        }
    }
    if place < sessions.len() {
        lemma_active_update(sessions, place, session);
    } else {
        assert(after.drop_last() =~= sessions);
    }
}

/// A change of a transfer that leaves its identifier and its peer alone and does not make it run
/// again keeps the model consistent.
pub proof fn lemma_update_consistent(model: ServerModel, place: int, session: SessionView)
    requires
        model.consistent(),
        0 <= place < model.sessions.len(),
        session.secrets.transfer_id == model.sessions[place].secrets.transfer_id,
        session.authorized_peer == model.sessions[place].authorized_peer,
        session.state.is_active() ==> model.sessions[place].state.is_active(),
    ensures
        model.with_session_at(place, session).consistent(),
{
    let after = model.with_session_at(place, session);
    lemma_active_update(model.sessions, place, session);
    assert forall|k: int| 0 <= k < after.sessions.len() implies (
    #[trigger] after.sessions[k]).authorized_peer == after.authorized_peer by {
        assert(model.sessions[k].authorized_peer == model.authorized_peer);
    }
    assert forall|j: int, k: int| 0 <= j < k < after.sessions.len() implies (
    #[trigger] after.sessions[j]).secrets.transfer_id != (
    #[trigger] after.sessions[k]).secrets.transfer_id by {
        assert(model.sessions[j].secrets.transfer_id == after.sessions[j].secrets.transfer_id);
        assert(model.sessions[k].secrets.transfer_id == after.sessions[k].secrets.transfer_id);
    }
}

/// Counting one more event after others.
/// The first read of a transfer stands at `place`, or nowhere.
pub proof fn lemma_without_read(reads: Seq<ProtocolId>, transfer_id: ProtocolId, place: int)
    requires
        0 <= place <= reads.len(),
        place < reads.len() ==> reads[place] == transfer_id,
        forall|k: int| 0 <= k < place ==> #[trigger] reads[k] != transfer_id,
    ensures
        without_read(reads, transfer_id) == if place < reads.len() {
            reads.remove(place)
        } else {
            reads
        },
    decreases reads.len(),
{
    if reads.len() > 0 && place > 0 {
        let rest = reads.skip(1);
        assert forall|k: int| 0 <= k < place - 1 implies #[trigger] rest[k] != transfer_id by {
            assert(rest[k] == reads[k + 1]);
        }
        assert(reads[0] != transfer_id);
        lemma_without_read(rest, transfer_id, place - 1);
        if place < reads.len() {
            assert(seq![reads[0]] + rest.remove(place - 1) =~= reads.remove(place));
        } else {
            assert(seq![reads[0]] + rest =~= reads);
        }
    } else if reads.len() > 0 {
        assert(reads.skip(1) =~= reads.remove(0));
    }
}

pub proof fn lemma_counted(counter: u64, before: nat)
    ensures
        counter::counted(counter::counted(counter, before), 1) == counter::counted(counter, before + 1),
        counter::counted(counter, before + 0) == counter::counted(counter, before),
        counter::counted(counter, 0) == counter,
{
}

/// How many transfers run or pause after one was changed.
pub proof fn lemma_active_update(sessions: Seq<SessionView>, place: int, session: SessionView)
    requires
        0 <= place < sessions.len(),
    ensures
        active_count(sessions.update(place, session)) == active_count(sessions) - (
        if sessions[place].state.is_active() {
            1int
        } else {
            0
        }) + (if session.state.is_active() {
            1int
        } else {
            0
        }),
    decreases sessions.len(),
{
    let after = sessions.update(place, session);
    if place == sessions.len() - 1 {
        assert(after.drop_last() =~= sessions.drop_last());
    } else {
        lemma_active_update(sessions.drop_last(), place, session);
        assert(after.drop_last() =~= sessions.drop_last().update(place, session));
    }
}

/// No more transfers run or pause after those of a peer were cancelled.
pub proof fn lemma_cancelled_active(sessions: Seq<SessionView>, peer: CertificateFingerprint)
    ensures
        active_count(
            sessions.map_values(|session: SessionView| cancelled_for(session, peer)),
        ) <= active_count(sessions),
    decreases sessions.len(),
{
    let after = sessions.map_values(|session: SessionView| cancelled_for(session, peer));
    if sessions.len() > 0 {
        lemma_cancelled_active(sessions.drop_last(), peer);
        assert(after.drop_last() =~= sessions.drop_last().map_values(
            |session: SessionView| cancelled_for(session, peer),
        ));
    }
}

/// Cancelling transfers keeps the model consistent.
pub proof fn lemma_refused_consistent(model: ServerModel, peer: CertificateFingerprint)
    requires
        model.consistent(),
    ensures
        model.with_peer_cancelled(peer).consistent(),
        model.with_peer_refused(peer).consistent(),
{
    let after = model.with_peer_cancelled(peer);
    lemma_cancelled_active(model.sessions, peer);
    assert forall|k: int| 0 <= k < after.sessions.len() implies (
    #[trigger] after.sessions[k]).authorized_peer == after.authorized_peer by {
        assert(after.sessions[k] == cancelled_for(model.sessions[k], peer));
    }
    assert forall|j: int, k: int| 0 <= j < k < after.sessions.len() implies (
    #[trigger] after.sessions[j]).secrets.transfer_id != (
    #[trigger] after.sessions[k]).secrets.transfer_id by {
        assert(after.sessions[j] == cancelled_for(model.sessions[j], peer));
        assert(after.sessions[k] == cancelled_for(model.sessions[k], peer));
    }
    assert(model.with_peer_refused(peer).sessions == after.sessions);
}

/// The transfers that have not expired are some of all, each once and in the same order.
pub proof fn lemma_live_sessions(sessions: Seq<SessionView>, now: u64)
    ensures
        live_sessions(sessions, now).len() <= sessions.len(),
        active_count(live_sessions(sessions, now)) <= active_count(sessions),
        forall|k: int|
            0 <= k < live_sessions(sessions, now).len() ==> {
                let session = #[trigger] live_sessions(sessions, now)[k];
                session.expires_at > now && sessions.contains(session)
            },
        (forall|j: int, k: int|
            0 <= j < k < sessions.len() ==> (#[trigger] sessions[j]).secrets.transfer_id != (
            #[trigger] sessions[k]).secrets.transfer_id) ==> forall|j: int, k: int|
            0 <= j < k < live_sessions(sessions, now).len() ==> (#[trigger] live_sessions(
                sessions,
                now,
            )[j]).secrets.transfer_id != (#[trigger] live_sessions(
                sessions,
                now,
            )[k]).secrets.transfer_id,
    decreases sessions.len(),
{
    if sessions.len() > 0 {
        let rest = sessions.drop_last();
        let live = live_sessions(sessions, now);
        let live_rest = live_sessions(rest, now);
        lemma_live_sessions(rest, now);
        assert(live_rest.push(sessions.last()).drop_last() =~= live_rest);
        assert forall|k: int| 0 <= k < live.len() implies {
            let session = #[trigger] live[k];
            session.expires_at > now && sessions.contains(session)
        } by {
            if k < live_rest.len() {
                assert(live[k] == live_rest[k]);
                let at = choose|at: int| 0 <= at < rest.len() && rest[at] == live_rest[k];
                assert(sessions[at] == live[k]);
            } else {
                assert(sessions[sessions.len() - 1] == live[k]);
            }
        }
        if forall|j: int, k: int|
            0 <= j < k < sessions.len() ==> (#[trigger] sessions[j]).secrets.transfer_id != (
            #[trigger] sessions[k]).secrets.transfer_id {
            assert forall|j: int, k: int| 0 <= j < k < rest.len() implies (
            #[trigger] rest[j]).secrets.transfer_id != (
            #[trigger] rest[k]).secrets.transfer_id by {
                assert(rest[j] == sessions[j] && rest[k] == sessions[k]);
            }
            assert forall|j: int, k: int| 0 <= j < k < live.len() implies (
            #[trigger] live[j]).secrets.transfer_id != (
            #[trigger] live[k]).secrets.transfer_id by {
                assert(live[j] == live_rest[j]);
                if k < live_rest.len() {
                    assert(live[k] == live_rest[k]);
                } else {
                    let at = choose|at: int| 0 <= at < rest.len() && rest[at] == live_rest[j];
                    assert(sessions[at] == rest[at]);
                    assert(sessions[at].secrets.transfer_id != sessions[sessions.len()
                        - 1].secrets.transfer_id);
                }
            }
        }
    }
}

/// The nonces that are still remembered are some of all, each once and in the same order.
pub proof fn lemma_live_nonces(nonces: Seq<BeginNonce>, now: u64)
    ensures
        live_nonces(nonces, now).len() <= nonces.len(),
        forall|k: int|
            0 <= k < live_nonces(nonces, now).len() ==> {
                let nonce = #[trigger] live_nonces(nonces, now)[k];
                nonce.expires_at > now && nonces.contains(nonce)
            },
        (forall|j: int, k: int|
            0 <= j < k < nonces.len() ==> (#[trigger] nonces[j]).nonce != (
            #[trigger] nonces[k]).nonce) ==> forall|j: int, k: int|
            0 <= j < k < live_nonces(nonces, now).len() ==> (#[trigger] live_nonces(
                nonces,
                now,
            )[j]).nonce != (#[trigger] live_nonces(nonces, now)[k]).nonce,
    decreases nonces.len(),
{
    if nonces.len() > 0 {
        let rest = nonces.drop_last();
        let live = live_nonces(nonces, now);
        let live_rest = live_nonces(rest, now);
        lemma_live_nonces(rest, now);
        assert forall|k: int| 0 <= k < live.len() implies {
            let nonce = #[trigger] live[k];
            nonce.expires_at > now && nonces.contains(nonce)
        } by {
            if k < live_rest.len() {
                assert(live[k] == live_rest[k]);
                let at = choose|at: int| 0 <= at < rest.len() && rest[at] == live_rest[k];
                assert(nonces[at] == live[k]);
            } else {
                assert(nonces[nonces.len() - 1] == live[k]);
            }
        }
        if forall|j: int, k: int|
            0 <= j < k < nonces.len() ==> (#[trigger] nonces[j]).nonce != (
            #[trigger] nonces[k]).nonce {
            assert forall|j: int, k: int| 0 <= j < k < rest.len() implies (
            #[trigger] rest[j]).nonce != (#[trigger] rest[k]).nonce by {
                assert(rest[j] == nonces[j] && rest[k] == nonces[k]);
            }
            assert forall|j: int, k: int| 0 <= j < k < live.len() implies (
            #[trigger] live[j]).nonce != (#[trigger] live[k]).nonce by {
                assert(live[j] == live_rest[j]);
                if k < live_rest.len() {
                    assert(live[k] == live_rest[k]);
                } else {
                    let at = choose|at: int| 0 <= at < rest.len() && rest[at] == live_rest[j];
                    assert(nonces[at] == rest[at]);
                    assert(nonces[at].nonce != nonces[nonces.len() - 1].nonce);
                }
            }
        }
    }
}

/// A server has 64 transfers running or paused, remembers 4096 of them, works on 32 connections at a
/// time, and lets a paused read wait for five seconds.
pub proof fn lemma_limits_of_servers()
    ensures
        MAX_ACTIVE_TRANSFERS == 64,
        MAX_BEGIN_NONCES == 64 * 64,
        MAX_PAUSE_POLL_NANOS == 5 * 1_000_000_000,
        NANOS_PER_MILLI * 1000 == 1_000_000_000,
        DEFAULT_MAX_WORKERS == 32,
{
}

} // verus!
