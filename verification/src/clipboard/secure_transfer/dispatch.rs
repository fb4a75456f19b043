//! Requests and responses of the source of an offer, as bytes.

use super::manifest;
use super::manifest::encode_manifest;
use super::model::{ServerModel, SessionSecrets};
use super::server::ServerState;
use super::wire;
use super::wire::{
    encode_transfer_status, response_opcode, Frame, Opcode, ProtocolId, ResponseStatus,
    TransferCredentials, TransferStatus, CREDENTIALS_WIRE_LEN, HELLO_ROLE_RECEIVER,
};
use crate::bytes;
use crate::failure::{Failure, FailureKind};
use crate::random;
use crate::random::random_32;
use crate::security::CertificateFingerprint;
use crate::tls::TrustFailure;
use vstd::prelude::*;

verus! {

/// What a request leads to.
#[derive(Debug)]
pub enum Reply {
    /// The payload of the response.
    Bytes(Vec<u8>),
    /// A read that was admitted and is to be carried out.
    Read { transfer_id: ProtocolId, offset: u64, requested: usize },
}

/// The contents of a reply.
#[verifier::ext_equal]
pub enum ReplyView {
    Bytes(Seq<u8>),
    Read { transfer_id: ProtocolId, offset: u64, requested: usize },
}

impl View for Reply {
    type V = ReplyView;

    open spec fn view(&self) -> ReplyView {
        match *self {
            Reply::Bytes(payload) => ReplyView::Bytes(payload@),
            Reply::Read { transfer_id, offset, requested } => ReplyView::Read {
                transfer_id,
                offset,
                requested,
            },
        }
    }
}

/// The response to a begun transfer.
pub open spec fn begin_response(credentials: TransferCredentials) -> Seq<u8> {
    seq![0u8] + credentials.wire() + bytes::be_bytes(credentials.expires_at_millis as nat, 8)
}

/// The response to a read.
pub open spec fn read_response(status: TransferStatus, data: Seq<u8>) -> Seq<u8> {
    wire::status_bytes(status) + bytes::be_bytes(data.len(), 4) + data
}

/// The payload of a response: that of a success, or the code of a refusal.
pub open spec fn payload_of(result: Result<Seq<u8>, ResponseStatus>) -> Seq<u8> {
    match result {
        Ok(payload) => payload,
        Err(status) => seq![status.code()],
    }
}

/// A request for the offer.
pub open spec fn manifest_answer(model: ServerModel, now: u64, payload: Seq<u8>) -> Result<
    Seq<u8>,
    ResponseStatus,
> {
    if payload.len() != 0 || now >= model.offer_expires_at {
        Err(ResponseStatus::Expired)
    } else if manifest::encodable(model.told(now)) {
        Ok(manifest::manifest_bytes(model.told(now)))
    } else {
        Err(ResponseStatus::Internal)
    }
}

/// A request to begin a transfer.
pub open spec fn begin_answer(
    model: ServerModel,
    peer: CertificateFingerprint,
    trusted: bool,
    now: u64,
    payload: Seq<u8>,
    secrets: Option<SessionSecrets>,
) -> (ServerModel, Result<Seq<u8>, ResponseStatus>) {
    if payload.len() != 64 || bytes::all_zero(bytes::slice_of(payload, 32, 32)) {
        (model, Err(ResponseStatus::Invalid))
    } else {
        let (after, result) = model.begin(
            peer,
            trusted,
            now,
            ProtocolId(bytes::spec_array_16(payload, 0)),
            ProtocolId(bytes::spec_array_16(payload, 16)),
            bytes::spec_array_32(payload, 32),
            secrets,
        );
        (
            after,
            match result {
                Ok(credentials) => Ok(begin_response(credentials)),
                Err(status) => Err(status),
            },
        )
    }
}

/// A request that controls a transfer.
pub open spec fn control_answer(
    model: ServerModel,
    peer: CertificateFingerprint,
    trusted: bool,
    now: u64,
    opcode: Opcode,
    payload: Seq<u8>,
) -> (ServerModel, Result<Seq<u8>, ResponseStatus>) {
    if payload.len() != CREDENTIALS_WIRE_LEN + 8 {
        (model, Err(ResponseStatus::Invalid))
    } else {
        let (after, result) = model.control(
            peer,
            trusted,
            now,
            TransferCredentials::at_start(payload),
            bytes::be_value(bytes::slice_of(payload, CREDENTIALS_WIRE_LEN as int, 8)) as u64,
            opcode,
        );
        (
            after,
            match result {
                Ok(status) => Ok(wire::status_bytes(status)),
                Err(status) => Err(status),
            },
        )
    }
}

/// A request for the status of a transfer.
pub open spec fn status_answer(
    model: ServerModel,
    peer: CertificateFingerprint,
    trusted: bool,
    now: u64,
    payload: Seq<u8>,
) -> (ServerModel, Result<Seq<u8>, ResponseStatus>) {
    if payload.len() != CREDENTIALS_WIRE_LEN {
        (model, Err(ResponseStatus::Invalid))
    } else {
        let (after, result) = model.status(
            peer,
            trusted,
            now,
            TransferCredentials::at_start(payload),
        );
        (
            after,
            match result {
                Ok(status) => Ok(wire::status_bytes(status)),
                Err(status) => Err(status),
            },
        )
    }
}

/// A request for a range.
pub open spec fn read_answer(
    model: ServerModel,
    peer: CertificateFingerprint,
    trusted: bool,
    now: u64,
    payload: Seq<u8>,
) -> (ServerModel, ReplyView) {
    if payload.len() != CREDENTIALS_WIRE_LEN + 12 {
        (model, ReplyView::Bytes(seq![ResponseStatus::Invalid.code()]))
    } else {
        let credentials = TransferCredentials::at_start(payload);
        let requested = bytes::be_value(
            bytes::slice_of(payload, CREDENTIALS_WIRE_LEN + 8, 4),
        );
        let (after, result) = model.start_read(peer, trusted, now, credentials, requested);
        (
            after,
            match result {
                Err(status) => ReplyView::Bytes(seq![status.code()]),
                Ok(_) => ReplyView::Read {
                    transfer_id: credentials.transfer_id,
                    offset: bytes::be_value(
                        bytes::slice_of(payload, CREDENTIALS_WIRE_LEN as int, 8),
                    ) as u64,
                    requested: requested as usize,
                },
            },
        )
    }
}

/// Any request: the server afterwards, and what the request leads to.
pub open spec fn dispatched(
    model: ServerModel,
    peer: CertificateFingerprint,
    trusted: bool,
    now: u64,
    opcode: Opcode,
    payload: Seq<u8>,
    secrets: Option<SessionSecrets>,
) -> (ServerModel, ReplyView) {
    match opcode {
        Opcode::Hello => (model, ReplyView::Bytes(seq![ResponseStatus::Invalid.code()])),
        Opcode::GetOffer => (
            model,
            ReplyView::Bytes(payload_of(manifest_answer(model, now, payload))),
        ),
        Opcode::BeginTransfer => {
            let (after, result) = begin_answer(model, peer, trusted, now, payload, secrets);
            (after, ReplyView::Bytes(payload_of(result)))
        },
        Opcode::ReadRange => read_answer(model, peer, trusted, now, payload),
        Opcode::Pause | Opcode::Resume | Opcode::Cancel | Opcode::Complete => {
            let (after, result) = control_answer(model, peer, trusted, now, opcode, payload);
            (after, ReplyView::Bytes(payload_of(result)))
        },
        Opcode::Status => {
            let (after, result) = status_answer(model, peer, trusted, now, payload);
            (after, ReplyView::Bytes(payload_of(result)))
        },
    }
}

/// The payload that refuses a request.
fn refusal(status: ResponseStatus) -> (payload: Vec<u8>)
    ensures
        payload@ == seq![status.code()],
{
    let mut payload: Vec<u8> = Vec::new();
    payload.push(status.encode());
    assert(payload@ =~= seq![status.code()]);
    payload
}

/// The payload of a response to a read that was carried out.
pub fn encode_read_response(status: TransferStatus, data: &[u8]) -> (payload: Vec<u8>)
    ensures
        payload@ == if data@.len() > u32::MAX {
            seq![ResponseStatus::Internal.code()]
        } else {
            read_response(status, data@)
        },
{
    if data.len() > 0xffff_ffff {
        return refusal(ResponseStatus::Internal);
    }
    proof {
        bytes::lemma_capacity_values();
    }
    let mut payload = encode_transfer_status(status);
    bytes::put_be(&mut payload, data.len() as u64, 4);
    bytes::append(&mut payload, data);
    assert(payload@ =~= read_response(status, data@));
    payload
}

/// The payload of a response to a read that ended with `outcome`.
pub fn encode_read_outcome(
    outcome: Result<TransferStatus, ResponseStatus>,
    data: &[u8],
) -> (payload: Vec<u8>)
    ensures
        payload@ == match outcome {
            Ok(status) => if data@.len() > u32::MAX {
                seq![ResponseStatus::Internal.code()]
            } else {
                read_response(status, data@)
            },
            Err(status) => seq![status.code()],
        },
{
    match outcome {
        Ok(status) => encode_read_response(status, data),
        Err(status) => refusal(status),
    }
}

/// Whether a frame greets as a receiver: with its role and a nonce that is not all zero.
pub open spec fn is_hello(opcode: u16, payload: Seq<u8>) -> bool {
    &&& opcode == Opcode::Hello.code()
    &&& payload.len() == 33
    &&& payload[0] == HELLO_ROLE_RECEIVER
    &&& !bytes::all_zero(payload.skip(1))
}

/// Whether a frame is the greeting of a receiver.
fn greets(hello: &Frame) -> (greets: bool)
    ensures
        greets == is_hello(hello.opcode, hello.payload@),
{
    if hello.opcode != Opcode::Hello.code() || hello.payload.len() != 33 || hello.payload[0]
        != HELLO_ROLE_RECEIVER {
        return false;
    }
    let greeting = hello.payload.as_slice();
    let rest = &greeting[1..33];
    assert(rest@ =~= hello.payload@.skip(1));
    !bytes::is_all_zero(rest)
}

/// Answers the greeting of a receiver.
pub fn answer_hello(hello: &Frame, nonce: [u8; 32]) -> (result: Result<Frame, Failure>)
    ensures
        !is_hello(hello.opcode, hello.payload@) ==> result == Err::<Frame, Failure>(
            Failure::invalid("invalid secure protocol hello"),
        ),
        is_hello(hello.opcode, hello.payload@) ==> {
            &&& result is Ok
            &&& result->Ok_0.opcode == Opcode::Hello.code() + wire::RESPONSE_BIT
            &&& result->Ok_0.request_id == hello.request_id
            &&& result->Ok_0.payload@ == nonce@
        },
{
    if !greets(hello) {
        return Err(Failure::invalid("invalid secure protocol hello"));
    }
    let mut payload: Vec<u8> = Vec::new();
    bytes::append(&mut payload, &nonce);
    assert(payload@ =~= nonce@);
    Ok(Frame { opcode: response_opcode(Opcode::Hello), request_id: hello.request_id, payload })
}

/// Answers the greeting of a receiver with a nonce of the answer's own.
pub fn fresh_hello_answer(hello: &Frame) -> (result: Result<Frame, TrustFailure>)
    ensures
        !is_hello(hello.opcode, hello.payload@) ==> result == Err::<Frame, TrustFailure>(
            TrustFailure::Refused { failure: Failure::invalid("invalid secure protocol hello") },
        ),
        is_hello(hello.opcode, hello.payload@) ==> match result {
            Ok(answer) => {
                &&& answer.opcode == Opcode::Hello.code() + wire::RESPONSE_BIT
                &&& answer.request_id == hello.request_id
                &&& answer.payload@.len() == 32
                &&& random::drawn(answer.payload@)
            },
            Err(failure) => failure matches TrustFailure::Cryptography { detail }
                && random::refused(32, detail),
        },
{
    if !greets(hello) {
        return Err(
            TrustFailure::Refused { failure: Failure::invalid("invalid secure protocol hello") },
        );
    }
    match random_32() {
        Err(detail) => Err(TrustFailure::Cryptography { detail }),
        Ok(nonce) => match answer_hello(hello, nonce) {
            Err(failure) => Err(TrustFailure::Refused { failure }),
            Ok(answer) => Ok(answer),
        },
    }
}

impl ServerState {
    /// Answers a request for the offer.
    fn encode_manifest_response(&self, now: u64, payload: &[u8]) -> (result: Result<
        Vec<u8>,
        ResponseStatus,
    >)
        ensures
            match result {
                Ok(response) => manifest_answer(self@, now, payload@) == Ok::<
                    Seq<u8>,
                    ResponseStatus,
                >(response@),
                Err(status) => manifest_answer(self@, now, payload@) == Err::<
                    Seq<u8>,
                    ResponseStatus,
                >(status),
            },
    {
        if payload.len() != 0 || now >= self.offer_expires_at() {
            return Err(ResponseStatus::Expired);
        }
        encode_manifest(&self.manifest(now))
    }

    /// Answers a request to begin a transfer.
    fn encode_begin_response(
        &mut self,
        peer: CertificateFingerprint,
        trusted: bool,
        now: u64,
        payload: &[u8],
        secrets: Option<SessionSecrets>,
    ) -> (result: Result<Vec<u8>, ResponseStatus>)
        requires
            old(self).wf(),
        ensures
            final(self).wf(),
            ({
                let (after, answer) = begin_answer(
                    old(self)@,
                    peer,
                    trusted,
                    now,
                    payload@,
                    secrets,
                );
                &&& final(self)@ == after
                &&& match result {
                    Ok(response) => answer == Ok::<Seq<u8>, ResponseStatus>(response@),
                    Err(status) => answer == Err::<Seq<u8>, ResponseStatus>(status),
                }
            }),
    {
        if payload.len() != 64 {
            return Err(ResponseStatus::Invalid);
        }
        let offer_id = ProtocolId(bytes::array_16(payload, 0));
        let file_id = ProtocolId(bytes::array_16(payload, 16));
        let nonce = bytes::array_32(payload, 32);
        if bytes::is_all_zero(&nonce) {
            return Err(ResponseStatus::Invalid);
        }
        match self.begin_transfer_with(peer, trusted, now, offer_id, file_id, nonce, secrets) {
            Err(status) => Err(status),
            Ok(credentials) => {
                proof {
                    bytes::lemma_capacity_values();
                }
                let mut response: Vec<u8> = Vec::new();
                response.push(ResponseStatus::Success.encode());
                bytes::append(&mut response, credentials.encode().as_slice());
                bytes::put_be(&mut response, credentials.expires_at_millis, 8);
                assert(response@ =~= begin_response(credentials));
                Ok(response)
            },
        }
    }

    /// Answers a request that controls a transfer.
    fn encode_control_response(
        &mut self,
        peer: CertificateFingerprint,
        trusted: bool,
        now: u64,
        opcode: Opcode,
        payload: &[u8],
    ) -> (result: Result<Vec<u8>, ResponseStatus>)
        requires
            old(self).wf(),
        ensures
            final(self).wf(),
            ({
                let (after, answer) = control_answer(
                    old(self)@,
                    peer,
                    trusted,
                    now,
                    opcode,
                    payload@,
                );
                &&& final(self)@ == after
                &&& match result {
                    Ok(response) => answer == Ok::<Seq<u8>, ResponseStatus>(response@),
                    Err(status) => answer == Err::<Seq<u8>, ResponseStatus>(status),
                }
            }),
    {
        if payload.len() != CREDENTIALS_WIRE_LEN + 8 {
            return Err(ResponseStatus::Invalid);
        }
        match TransferCredentials::decode(payload) {
            Err(status) => Err(status),
            Ok(credentials) => {
                let sequence: u64 = bytes::get_be(payload, CREDENTIALS_WIRE_LEN, 8);
                match self.control(peer, trusted, now, &credentials, sequence, opcode) {
                    Err(status) => Err(status),
                    Ok(status) => Ok(encode_transfer_status(status)),
                }
            },
        }
    }

    /// Answers a request for the status of a transfer.
    fn encode_status_response(
        &mut self,
        peer: CertificateFingerprint,
        trusted: bool,
        now: u64,
        payload: &[u8],
    ) -> (result: Result<Vec<u8>, ResponseStatus>)
        requires
            old(self).wf(),
        ensures
            final(self).wf(),
            ({
                let (after, answer) = status_answer(old(self)@, peer, trusted, now, payload@);
                &&& final(self)@ == after
                &&& match result {
                    Ok(response) => answer == Ok::<Seq<u8>, ResponseStatus>(response@),
                    Err(status) => answer == Err::<Seq<u8>, ResponseStatus>(status),
                }
            }),
    {
        if payload.len() != CREDENTIALS_WIRE_LEN {
            return Err(ResponseStatus::Invalid);
        }
        match TransferCredentials::decode(payload) {
            Err(status) => Err(status),
            Ok(credentials) => match self.status(peer, trusted, now, &credentials) {
                Err(status) => Err(status),
                Ok(status) => Ok(encode_transfer_status(status)),
            },
        }
    }

    /// Admits a request for a range.
    fn admit_read(
        &mut self,
        peer: CertificateFingerprint,
        trusted: bool,
        now: u64,
        payload: &[u8],
    ) -> (reply: Reply)
        requires
            old(self).wf(),
        ensures
            final(self).wf(),
            (final(self)@, reply@) == read_answer(old(self)@, peer, trusted, now, payload@),
    {
        if payload.len() != CREDENTIALS_WIRE_LEN + 12 {
            return Reply::Bytes(refusal(ResponseStatus::Invalid));
        }
        proof {
            bytes::lemma_capacity_values();
        }
        let credentials = match TransferCredentials::decode(payload) {
            Err(status) => {
                return Reply::Bytes(refusal(status));
            },
            Ok(credentials) => credentials,
        };
        let offset: u64 = bytes::get_be(payload, CREDENTIALS_WIRE_LEN, 8);
        let requested: usize = bytes::get_be(payload, CREDENTIALS_WIRE_LEN + 8, 4) as usize;
        match self.start_read(peer, trusted, now, &credentials, requested) {
            Err(status) => Reply::Bytes(refusal(status)),
            Ok(_) => Reply::Read { transfer_id: credentials.transfer_id, offset, requested },
        }
    }

    /// Answers any request, or admits it as a read that is to be carried out.
    pub fn dispatch_request(
        &mut self,
        peer: CertificateFingerprint,
        trusted: bool,
        now: u64,
        opcode: Opcode,
        payload: &[u8],
        secrets: Option<SessionSecrets>,
    ) -> (reply: Reply)
        requires
            old(self).wf(),
        ensures
            final(self).wf(),
            (final(self)@, reply@) == dispatched(
                old(self)@,
                peer,
                trusted,
                now,
                opcode,
                payload@,
                secrets,
            ),
    {
        let result = match opcode {
            Opcode::Hello => Err(ResponseStatus::Invalid),
            Opcode::GetOffer => self.encode_manifest_response(now, payload),
            Opcode::BeginTransfer => self.encode_begin_response(
                peer,
                trusted,
                now,
                payload,
                secrets,
            ),
            Opcode::ReadRange => {
                return self.admit_read(peer, trusted, now, payload);
            },
            Opcode::Pause | Opcode::Resume | Opcode::Cancel | Opcode::Complete =>
                self.encode_control_response(peer, trusted, now, opcode, payload),
            Opcode::Status => self.encode_status_response(peer, trusted, now, payload),
        };
        match result {
            Ok(response) => Reply::Bytes(response),
            Err(status) => Reply::Bytes(refusal(status)),
        }
    }

    /// Takes the next request of a connection: what it asks for, if the peer may still ask.
    pub fn admit_request(
        &mut self,
        peer: CertificateFingerprint,
        trusted: bool,
        request: &Frame,
    ) -> (result: Result<Opcode, Failure>)
        requires
            old(self).wf(),
        ensures
            final(self).wf(),
            final(self)@ == old(self)@.ensure_allowed(peer, trusted).0,
            match result {
                Ok(opcode) => old(self)@.allows(peer, trusted) && opcode.code() == request.opcode,
                Err(failure) => if !old(self)@.allows(peer, trusted) {
                    failure == Failure::new(
                        FailureKind::PermissionDenied,
                        "peer trust was revoked",
                    )
                } else {
                    !(1 <= request.opcode <= 9) && failure == Failure::invalid(
                        "unknown secure protocol opcode",
                    )
                },
            },
    {
        if !self.ensure_peer_allowed(peer, trusted) {
            return Err(Failure::new(FailureKind::PermissionDenied, "peer trust was revoked"));
        }
        Opcode::from_code(request.opcode)
    }

    /// Opens a connection of a peer.
    pub fn open_connection(&mut self, peer: CertificateFingerprint, trusted: bool) -> (result:
        Result<(), Failure>)
        requires
            old(self).wf(),
        ensures
            final(self).wf(),
            final(self)@ == old(self)@.ensure_allowed(peer, trusted).0,
            result == if old(self)@.allows(peer, trusted) {
                Ok::<(), Failure>(())
            } else {
                Err(Failure::new(FailureKind::PermissionDenied, "peer is not authorized"))
            },
    {
        if self.ensure_peer_allowed(peer, trusted) {
            Ok(())
        } else {
            Err(Failure::new(FailureKind::PermissionDenied, "peer is not authorized"))
        }
    }
}

} // verus!
