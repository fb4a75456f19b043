//! The receiving side of the protocol: requests and what their responses say.

use super::dispatch;
use super::manifest;
use super::manifest::{ManifestView, OfferManifest};
use super::model::{ServerModel, SessionSecrets};
use super::wire;
use super::wire::{
    decode_transfer_status, require_ok, response_opcode, Frame, Opcode, ProtocolId,
    ResponseStatus, TransferCredentials, TransferStatus, CREDENTIALS_WIRE_LEN, HELLO_ROLE_RECEIVER,
    MAX_SECURE_RANGE_BYTES,
};
use crate::bytes;
use crate::clipboard::hresult::{
    HResult, CANCELLED, E_ACCESSDENIED, E_INVALIDARG, READ_FAULT, TIMEOUT,
};
use crate::failure::{Failure, FailureKind};
use crate::random;
use crate::random::random_32;
use crate::security::CertificateFingerprint;
use crate::tls::TrustFailure;
use crate::counter;
use crate::counter::count;
use vstd::prelude::*;

verus! {

/// The request side of a receiver: it numbers its requests.
#[derive(Debug)]
pub struct SecureOfferClient {
    next_request_id: u64,
}

/// The result code that a failure is reported to the shell by.
pub open spec fn code_of(kind: FailureKind) -> HResult {
    match kind {
        FailureKind::Interrupted => CANCELLED,
        FailureKind::TimedOut | FailureKind::WouldBlock => TIMEOUT,
        FailureKind::PermissionDenied | FailureKind::InvalidData => E_ACCESSDENIED,
        FailureKind::InvalidInput => E_INVALIDARG,
        _ => READ_FAULT,
    }
}

/// The result code that a failure is reported to the shell by.
pub fn io_to_windows_error(kind: FailureKind) -> (code: HResult)
    ensures
        code == code_of(kind),
{
    match kind {
        FailureKind::Interrupted => CANCELLED,
        FailureKind::TimedOut | FailureKind::WouldBlock => TIMEOUT,
        FailureKind::PermissionDenied | FailureKind::InvalidData => E_ACCESSDENIED,
        FailureKind::InvalidInput => E_INVALIDARG,
        _ => READ_FAULT,
    }
}

/// What the response to a begun transfer of a file gives.
pub open spec fn begin_outcome(
    response: Seq<u8>,
    offer_id: ProtocolId,
    file_id: ProtocolId,
) -> Result<TransferCredentials, Failure> {
    let credentials = TransferCredentials {
        offer_id: ProtocolId(bytes::spec_array_16(response, 1)),
        file_id: ProtocolId(bytes::spec_array_16(response, 17)),
        transfer_id: ProtocolId(bytes::spec_array_16(response, 33)),
        capability: bytes::spec_array_32(response, 49),
        server_nonce: bytes::spec_array_32(response, 81),
        expires_at_millis: bytes::be_value(bytes::slice_of(response, 113, 8)) as u64,
    };
    match wire::ok_outcome(response) {
        Err(failure) => Err(failure),
        Ok(_) => if response.len() != 121 {
            Err(Failure::invalid("invalid BeginTransfer response"))
        } else if credentials.offer_id != offer_id || credentials.file_id != file_id {
            Err(Failure::invalid("BeginTransfer identifiers do not match offer"))
        } else {
            Ok(credentials)
        },
    }
}

/// What the response to a read of at most `requested` bytes gives.
pub open spec fn read_outcome(response: Seq<u8>, requested: nat) -> Result<
    (TransferStatus, Seq<u8>),
    Failure,
> {
    let length = bytes::be_value(bytes::slice_of(response, 10, 4));
    match wire::status_outcome(response) {
        Err(failure) => Err(failure),
        Ok(status) => if response.len() < 14 {
            Err(Failure::invalid("truncated ReadRange response"))
        } else if response.len() != 14 + length || length > requested {
            Err(Failure::invalid("invalid ReadRange payload length"))
        } else {
            Ok((status, response.skip(14)))
        },
    }
}

/// The payload of a request to begin a transfer.
pub open spec fn begin_payload(offer_id: ProtocolId, file_id: ProtocolId, nonce: [u8; 32]) -> Seq<
    u8,
> {
    offer_id.0@ + file_id.0@ + nonce@
}

/// The payload of a request for a range.
pub open spec fn read_payload(
    credentials: TransferCredentials,
    offset: u64,
    requested: nat,
) -> Seq<u8> {
    credentials.wire() + bytes::be_bytes(offset as nat, 8) + bytes::be_bytes(requested, 4)
}

/// The payload of a request that controls a transfer.
pub open spec fn control_payload(credentials: TransferCredentials, sequence: u64) -> Seq<u8> {
    credentials.wire() + bytes::be_bytes(sequence as nat, 8)
}

/// Encodes a request to begin a transfer.
pub fn begin_request(offer_id: ProtocolId, file_id: ProtocolId, nonce: [u8; 32]) -> (payload: Vec<
    u8,
>)
    ensures
        payload@ == begin_payload(offer_id, file_id, nonce),
{
    let mut payload: Vec<u8> = Vec::new();
    bytes::append(&mut payload, &offer_id.0);
    bytes::append(&mut payload, &file_id.0);
    bytes::append(&mut payload, &nonce);
    assert(payload@ =~= begin_payload(offer_id, file_id, nonce));
    payload
}

/// Whether a result is a request to begin a transfer with a nonce that was drawn, or tells why none
/// could be.
pub open spec fn begins(
    result: Result<Vec<u8>, TrustFailure>,
    offer_id: ProtocolId,
    file_id: ProtocolId,
) -> bool {
    match result {
        Ok(payload) => exists|nonce: [u8; 32]|
            #[trigger] random::drawn(nonce@) && payload@ == begin_payload(offer_id, file_id, nonce),
        Err(failure) => failure matches TrustFailure::Cryptography { detail } && random::refused(
            32,
            detail,
        ),
    }
}

/// Encodes a request to begin a transfer, with a nonce of its own.
pub fn fresh_begin_request(offer_id: ProtocolId, file_id: ProtocolId) -> (result: Result<
    Vec<u8>,
    TrustFailure,
>)
    ensures
        begins(result, offer_id, file_id),
{
    match random_32() {
        Ok(nonce) => Ok(begin_request(offer_id, file_id, nonce)),
        Err(detail) => Err(TrustFailure::Cryptography { detail }),
    }
}

/// Encodes a request for a range.
pub fn read_request(credentials: TransferCredentials, offset: u64, requested: usize) -> (result:
    Result<Vec<u8>, Failure>)
    ensures
        match result {
            Ok(payload) => requested <= MAX_SECURE_RANGE_BYTES && payload@ == read_payload(
                credentials,
                offset,
                requested as nat,
            ),
            Err(failure) => requested > MAX_SECURE_RANGE_BYTES && failure == Failure::invalid(
                "secure range exceeds client limit",
            ),
        },
{
    if requested > MAX_SECURE_RANGE_BYTES {
        return Err(Failure::invalid("secure range exceeds client limit"));
    }
    proof {
        bytes::lemma_capacity_values();
    }
    let mut payload = credentials.encode();
    bytes::put_be(&mut payload, offset, 8);
    bytes::put_be(&mut payload, requested as u64, 4);
    assert(payload@ =~= read_payload(credentials, offset, requested as nat));
    Ok(payload)
}

/// Encodes a request that controls a transfer.
pub fn control_request(credentials: TransferCredentials, sequence: u64) -> (payload: Vec<u8>)
    ensures
        payload@ == control_payload(credentials, sequence),
{
    proof {
        bytes::lemma_capacity_values();
    }
    let mut payload = credentials.encode();
    bytes::put_be(&mut payload, sequence, 8);
    assert(payload@ =~= control_payload(credentials, sequence));
    payload
}

/// Decodes the response to a begun transfer of a file.
pub fn decode_begin_response(
    response: &[u8],
    offer_id: ProtocolId,
    file_id: ProtocolId,
) -> (result: Result<TransferCredentials, Failure>)
    ensures
        result == begin_outcome(response@, offer_id, file_id),
{
    match require_ok(response) {
        Err(failure) => {
            return Err(failure);
        },
        Ok(_) => {},
    }
    if response.len() != 121 {
        return Err(Failure::invalid("invalid BeginTransfer response"));
    }
    let credentials = TransferCredentials {
        offer_id: ProtocolId(bytes::array_16(response, 1)),
        file_id: ProtocolId(bytes::array_16(response, 17)),
        transfer_id: ProtocolId(bytes::array_16(response, 33)),
        capability: bytes::array_32(response, 49),
        server_nonce: bytes::array_32(response, 81),
        expires_at_millis: bytes::get_be(response, 113, 8),
    };
    if credentials.offer_id != offer_id || credentials.file_id != file_id {
        return Err(Failure::invalid("BeginTransfer identifiers do not match offer"));
    }
    Ok(credentials)
}

/// Decodes the response to a read of at most `requested` bytes.
pub fn decode_read_response(response: &[u8], requested: usize) -> (result: Result<
    (TransferStatus, Vec<u8>),
    Failure,
>)
    ensures
        match result {
            Ok((status, data)) => read_outcome(response@, requested as nat) == Ok::<
                (TransferStatus, Seq<u8>),
                Failure,
            >((status, data@)),
            Err(failure) => read_outcome(response@, requested as nat) == Err::<
                (TransferStatus, Seq<u8>),
                Failure,
            >(failure),
        },
{
    let status = match decode_transfer_status(response) {
        Err(failure) => {
            return Err(failure);
        },
        Ok(status) => status,
    };
    if response.len() < 14 {
        return Err(Failure::invalid("truncated ReadRange response"));
    }
    let length: u64 = bytes::get_be(response, 10, 4);
    if (response.len() - 14) as u64 != length || length > requested as u64 {
        return Err(Failure::invalid("invalid ReadRange payload length"));
    }
    let data = bytes::copy_range(response, 14, response.len() - 14);
    assert(data@ =~= response@.skip(14));
    Ok((status, data))
}

impl SecureOfferClient {
    /// The number that the next request gets.
    pub closed spec fn next_id(&self) -> u64 {
        self.next_request_id
    }

    pub fn new() -> (client: Self)
        ensures
            client.next_id() == 1,
    {
        SecureOfferClient { next_request_id: 1 }
    }

    /// Whether a request goes over the connection for data, and not over that for control.
    pub fn uses_data_connection(opcode: Opcode) -> (data: bool)
        ensures
            data == (opcode is ReadRange),
    {
        opcode == Opcode::ReadRange
    }

    /// The next request.
    pub fn request(&mut self, opcode: Opcode, payload: Vec<u8>) -> (frame: Frame)
        ensures
            frame.opcode == opcode.code(),
            frame.request_id == old(self).next_id(),
            frame.payload@ == payload@,
            final(self).next_id() == counter::counted(old(self).next_id(), 1),
    {
        let request_id: u64 = self.next_request_id;
        self.next_request_id = count(request_id);
        Frame { opcode: opcode.code(), request_id, payload }
    }

    /// The greeting that opens a connection.
    pub fn hello(&mut self, nonce: [u8; 32]) -> (frame: Frame)
        ensures
            frame.opcode == Opcode::Hello.code(),
            frame.request_id == old(self).next_id(),
            frame.payload@ == seq![HELLO_ROLE_RECEIVER] + nonce@,
            final(self).next_id() == counter::counted(old(self).next_id(), 1),
    {
        let mut payload: Vec<u8> = Vec::new();
        payload.push(HELLO_ROLE_RECEIVER);
        bytes::append(&mut payload, &nonce);
        assert(payload@ =~= seq![HELLO_ROLE_RECEIVER] + nonce@);
        self.request(Opcode::Hello, payload)
    }

    /// The greeting that opens a connection, with a nonce of its own. Its number is used up even
    /// where no nonce could be drawn.
    pub fn fresh_hello(&mut self) -> (result: Result<Frame, TrustFailure>)
        ensures
            final(self).next_id() == counter::counted(old(self).next_id(), 1),
            match result {
                Ok(frame) => {
                    &&& frame.opcode == Opcode::Hello.code()
                    &&& frame.request_id == old(self).next_id()
                    &&& exists|nonce: [u8; 32]|
                        #[trigger] random::drawn(nonce@) && frame.payload@
                            == seq![HELLO_ROLE_RECEIVER] + nonce@
                },
                Err(failure) => failure matches TrustFailure::Cryptography { detail }
                    && random::refused(32, detail),
            },
    {
        match random_32() {
            Ok(nonce) => Ok(self.hello(nonce)),
            Err(detail) => {
                let _ = self.request(Opcode::Hello, Vec::new());
                Err(TrustFailure::Cryptography { detail })
            },
        }
    }

    /// Accepts the answer to a greeting.
    pub fn check_hello(response: &Frame, hello_id: u64) -> (result: Result<(), Failure>)
        ensures
            result == if response.opcode == Opcode::Hello.code() + wire::RESPONSE_BIT
                && response.request_id == hello_id && response.payload@.len() == 32 {
                Ok::<(), Failure>(())
            } else {
                Err(Failure::invalid("invalid secure HelloAck"))
            },
    {
        if response.opcode != response_opcode(Opcode::Hello) || response.request_id != hello_id
            || response.payload.len() != 32 {
            return Err(Failure::invalid("invalid secure HelloAck"));
        }
        Ok(())
    }

    /// The payload of a response, if it answers the request.
    pub fn check_response(response: Frame, opcode: Opcode, request_id: u64) -> (result: Result<
        Vec<u8>,
        Failure,
    >)
        ensures
            match result {
                Ok(payload) => response.opcode == opcode.code() + wire::RESPONSE_BIT
                    && response.request_id == request_id && payload@ == response.payload@,
                Err(failure) => !(response.opcode == opcode.code() + wire::RESPONSE_BIT
                    && response.request_id == request_id) && failure == Failure::invalid(
                    "secure response does not match request",
                ),
            },
    {
        if response.opcode != response_opcode(opcode) || response.request_id != request_id {
            return Err(Failure::invalid("secure response does not match request"));
        }
        Ok(response.payload)
    }

    /// Decodes the offer that a response holds.
    pub fn decode_manifest_response(response: &[u8]) -> (result: Result<OfferManifest, Failure>)
        ensures
            match result {
                Err(failure) => manifest::manifest_outcome(response@) == Err::<
                    ManifestView,
                    Failure,
                >(failure),
                Ok(manifest) => manifest::manifest_outcome(response@) == Ok::<
                    ManifestView,
                    Failure,
                >(manifest@),
            },
    {
        manifest::decode_manifest_response(response)
    }
}

/// A request to begin a transfer reaches the rules of the server with the identifiers and the
/// nonce that the receiver put into it.
pub proof fn lemma_begin_request_is_understood(
    model: ServerModel,
    peer: CertificateFingerprint,
    trusted: bool,
    now: u64,
    offer_id: ProtocolId,
    file_id: ProtocolId,
    nonce: [u8; 32],
    secrets: Option<SessionSecrets>,
)
    requires
        !bytes::all_zero(nonce@),
    ensures
        ({
            let (after, result) = model.begin(
                peer,
                trusted,
                now,
                offer_id,
                file_id,
                nonce,
                secrets,
            );
            dispatch::begin_answer(
                model,
                peer,
                trusted,
                now,
                begin_payload(offer_id, file_id, nonce),
                secrets,
            ) == (
                after,
                match result {
                    Ok(credentials) => Ok::<Seq<u8>, ResponseStatus>(
                        dispatch::begin_response(credentials),
                    ),
                    Err(status) => Err(status),
                },
            )
        }),
{
    let payload = begin_payload(offer_id, file_id, nonce);
    assert(bytes::slice_of(payload, 0, 16) =~= offer_id.0@);
    assert(bytes::slice_of(payload, 16, 16) =~= file_id.0@);
    assert(bytes::slice_of(payload, 32, 32) =~= nonce@);
    bytes::lemma_array_16(offer_id.0, payload, 0);
    bytes::lemma_array_16(file_id.0, payload, 16);
    bytes::lemma_array_32(nonce, payload, 32);
}

/// The credentials that a server gives reach the receiver unchanged.
pub proof fn lemma_begin_response_round_trip(credentials: TransferCredentials)
    ensures
        begin_outcome(
            dispatch::begin_response(credentials),
            credentials.offer_id,
            credentials.file_id,
        ) == Ok::<TransferCredentials, Failure>(credentials),
{
    let response = dispatch::begin_response(credentials);
    bytes::lemma_capacity_values();
    bytes::lemma_be_value_of_bytes(credentials.expires_at_millis as nat, 8);
    assert(bytes::slice_of(response, 1, 16) =~= credentials.offer_id.0@);
    assert(bytes::slice_of(response, 17, 16) =~= credentials.file_id.0@);
    assert(bytes::slice_of(response, 33, 16) =~= credentials.transfer_id.0@);
    assert(bytes::slice_of(response, 49, 32) =~= credentials.capability@);
    assert(bytes::slice_of(response, 81, 32) =~= credentials.server_nonce@);
    assert(bytes::slice_of(response, 113, 8) =~= bytes::be_bytes(
        credentials.expires_at_millis as nat,
        8,
    ));
    bytes::lemma_array_16(credentials.offer_id.0, response, 1);
    bytes::lemma_array_16(credentials.file_id.0, response, 17);
    bytes::lemma_array_16(credentials.transfer_id.0, response, 33);
    bytes::lemma_array_32(credentials.capability, response, 49);
    bytes::lemma_array_32(credentials.server_nonce, response, 81);
}

/// The bytes that a server reads reach the receiver unchanged.
pub proof fn lemma_read_response_round_trip(status: TransferStatus, data: Seq<u8>, requested: nat)
    requires
        data.len() <= requested,
        data.len() <= u32::MAX,
    ensures
        read_outcome(dispatch::read_response(status, data), requested) == Ok::<
            (TransferStatus, Seq<u8>),
            Failure,
        >((status, data)),
{
    let response = dispatch::read_response(status, data);
    bytes::lemma_capacity_values();
    bytes::lemma_be_bytes_len(status.unique_bytes as nat, 8);
    bytes::lemma_be_value_of_bytes(data.len(), 4);
    let rest = bytes::be_bytes(data.len(), 4) + data;
    wire::lemma_status_round_trip(status, rest);
    assert(response =~= wire::status_bytes(status) + rest);
    assert(bytes::slice_of(response, 10, 4) =~= bytes::be_bytes(data.len(), 4));
    assert(response.skip(14) =~= data);
}

/// A control request reaches the rules of the server with the credentials and the sequence
/// number that the receiver put into it.
pub proof fn lemma_control_request_is_understood(credentials: TransferCredentials, sequence: u64)
    ensures
        ({
            let payload = control_payload(credentials, sequence);
            &&& payload.len() == CREDENTIALS_WIRE_LEN + 8
            &&& TransferCredentials::at_start(payload) == (TransferCredentials {
                expires_at_millis: 0,
                ..credentials
            })
            &&& bytes::be_value(bytes::slice_of(payload, CREDENTIALS_WIRE_LEN as int, 8))
                == sequence
        }),
{
    bytes::lemma_capacity_values();
    bytes::lemma_be_value_of_bytes(sequence as nat, 8);
    let rest = bytes::be_bytes(sequence as nat, 8);
    credentials.lemma_credentials_round_trip(rest);
    assert(bytes::slice_of(
        control_payload(credentials, sequence),
        CREDENTIALS_WIRE_LEN as int,
        8,
    ) =~= rest);
}

/// A request for a range reaches the rules of the server with the credentials, the offset and
/// the length that the receiver put into it.
pub proof fn lemma_read_request_is_understood(
    credentials: TransferCredentials,
    offset: u64,
    requested: nat,
)
    requires
        requested <= MAX_SECURE_RANGE_BYTES,
    ensures
        ({
            let payload = read_payload(credentials, offset, requested);
            &&& payload.len() == CREDENTIALS_WIRE_LEN + 12
            &&& TransferCredentials::at_start(payload) == (TransferCredentials {
                expires_at_millis: 0,
                ..credentials
            })
            &&& bytes::be_value(bytes::slice_of(payload, CREDENTIALS_WIRE_LEN as int, 8)) == offset
            &&& bytes::be_value(bytes::slice_of(payload, CREDENTIALS_WIRE_LEN + 8, 4))
                == requested
        }),
{
    bytes::lemma_capacity_values();
    bytes::lemma_be_value_of_bytes(offset as nat, 8);
    bytes::lemma_be_value_of_bytes(requested, 4);
    let payload = read_payload(credentials, offset, requested);
    let rest = bytes::be_bytes(offset as nat, 8) + bytes::be_bytes(requested, 4);
    credentials.lemma_credentials_round_trip(rest);
    assert(payload =~= credentials.wire() + rest);
    assert(bytes::slice_of(payload, CREDENTIALS_WIRE_LEN as int, 8) =~= bytes::be_bytes(
        offset as nat,
        8,
    ));
    assert(bytes::slice_of(payload, CREDENTIALS_WIRE_LEN + 8, 4) =~= bytes::be_bytes(
        requested,
        4,
    ));
}

} // verus!
