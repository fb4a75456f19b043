//! First contact of two devices: what they tell each other, the code that their users compare,
//! and when they trust each other.

use crate::address::{is_private_or_loopback, Endpoint, IpAddress};
use crate::bytes;
use crate::device_store;
use crate::device_store::{DeviceStore, PeerList, TrustedPeer};
use crate::failure::{Failure, FailureKind};
use crate::random;
use crate::random::random_32;
use crate::security;
use crate::security::{sha256_digest, CertificateFingerprint};
use crate::text;
use crate::tls::{TrustFailure, CERTIFICATE_LIMIT};
use vstd::prelude::*;

verus! {

/// First bytes of a hello: `CFPAIR01`.
pub const HELLO_MAGIC: [u8; 8] = [0x43, 0x46, 0x50, 0x41, 0x49, 0x52, 0x30, 0x31];

/// First bytes of a proof: `CFPROOF1`.
pub const PROOF_MAGIC: [u8; 8] = [0x43, 0x46, 0x50, 0x52, 0x4f, 0x4f, 0x46, 0x31];

/// First bytes of a confirmation: `CFPCNF01`.
pub const CONFIRM_MAGIC: [u8; 8] = [0x43, 0x46, 0x50, 0x43, 0x4e, 0x46, 0x30, 0x31];

/// What every transcript starts with: `ClipFerry pairing transcript v1`.
pub const TRANSCRIPT_DOMAIN: [u8; 31] = [
    0x43, 0x6c, 0x69, 0x70, 0x46, 0x65, 0x72, 0x72, 0x79, 0x20, 0x70, 0x61, 0x69, 0x72, 0x69, 0x6e,
    0x67, 0x20, 0x74, 0x72, 0x61, 0x6e, 0x73, 0x63, 0x72, 0x69, 0x70, 0x74, 0x20, 0x76, 0x31,
];

/// The version of the protocol.
pub const PAIRING_VERSION: u16 = 1;

/// Length of a hello without its certificate.
pub const HELLO_HEADER_LENGTH: usize = 47;

/// Length of a proof.
pub const PROOF_LENGTH: usize = 40;

/// Length of a confirmation.
pub const CONFIRM_LENGTH: usize = 41;

/// Longest time that a pairing may take, in nanoseconds.
pub const MAX_PAIRING_TIMEOUT: u64 = 300_000_000_000;

/// How long a listener waits before it looks for a connection again, in nanoseconds.
pub const ACCEPT_POLL_INTERVAL: u64 = 25_000_000;

/// Which side of a pairing a device is.
#[derive(Clone, Copy, Debug, PartialEq, Eq, Structural)]
pub enum Role {
    Listener,
    Connector,
}

impl Role {
    pub open spec fn spec_number(self) -> u8 {
        match self {
            Role::Listener => 1,
            Role::Connector => 2,
        }
    }

    pub fn number(self) -> (number: u8)
        ensures
            number == self.spec_number(),
    {
        match self {
            Role::Listener => 1,
            Role::Connector => 2,
        }
    }
}

/// What a device tells of itself.
#[derive(Debug)]
pub struct Hello {
    pub role: Role,
    pub nonce: [u8; 32],
    pub certificate: Vec<u8>,
}

/// Why a hello is refused.
pub enum HelloFault {
    /// It ended early.
    Short,
    /// It has another form.
    Form(&'static str),
    /// It is of another version.
    Version(u16),
}

/// Whether a certificate has a length that is taken.
pub open spec fn certificate_fits(length: int) -> bool {
    0 < length <= CERTIFICATE_LIMIT
}

/// The bytes of a hello.
pub open spec fn hello_bytes(role: Role, nonce: Seq<u8>, certificate: Seq<u8>) -> Seq<u8> {
    HELLO_MAGIC@ + bytes::le_bytes(PAIRING_VERSION as nat, 2) + seq![role.spec_number()] + nonce
        + bytes::le_bytes(certificate.len(), 4) + certificate
}

/// The length of the certificate that follows the header of a hello from a device on the expected
/// side.
pub open spec fn header_outcome(header: Seq<u8>, expected: Role) -> Result<nat, HelloFault> {
    let version = bytes::le_value(bytes::slice_of(header, 8, 2));
    let length = bytes::le_value(bytes::slice_of(header, 43, 4));
    if header.len() < HELLO_HEADER_LENGTH {
        Err(HelloFault::Short)
    } else if bytes::slice_of(header, 0, 8) != HELLO_MAGIC@ {
        Err(HelloFault::Form("pairing hello magic mismatch"))
    } else if version != PAIRING_VERSION {
        Err(HelloFault::Version(version as u16))
    } else if header[10] != 1 && header[10] != 2 {
        Err(HelloFault::Form("pairing hello contains an unknown role"))
    } else if header[10] != expected.spec_number() {
        Err(HelloFault::Form("pairing hello role mismatch"))
    } else if !certificate_fits(length as int) {
        Err(HelloFault::Form("pairing certificate length must be between 1 and 65536 bytes"))
    } else {
        Ok(length)
    }
}

/// The nonce and the certificate of the hello that a stream of bytes starts with.
pub open spec fn hello_outcome(stream: Seq<u8>, expected: Role) -> Result<
    (Seq<u8>, Seq<u8>),
    HelloFault,
> {
    match header_outcome(stream, expected) {
        Err(fault) => Err(fault),
        Ok(length) => if stream.len() < HELLO_HEADER_LENGTH + length {
            Err(HelloFault::Short)
        } else {
            Ok((bytes::slice_of(stream, 11, 32), bytes::slice_of(stream, 47, length as int)))
        },
    }
}

/// Whether a failure reports a fault of a hello.
pub open spec fn reports(failure: TrustFailure, fault: HelloFault) -> bool {
    match fault {
        HelloFault::Short => failure == (TrustFailure::Refused {
            failure: Failure::new(FailureKind::UnexpectedEof, "failed to fill whole buffer"),
        }),
        HelloFault::Form(message) => failure == (TrustFailure::Refused {
            failure: Failure::invalid(message),
        }),
        HelloFault::Version(version) => failure == (TrustFailure::WrongVersion { version }),
    }
}

fn refused(message: &'static str) -> (failure: TrustFailure)
    ensures
        failure == (TrustFailure::Refused { failure: Failure::invalid(message) }),
{
    TrustFailure::Refused { failure: Failure::invalid(message) }
}

fn short() -> (failure: TrustFailure)
    ensures
        reports(failure, HelloFault::Short),
{
    TrustFailure::Refused {
        failure: Failure::new(FailureKind::UnexpectedEof, "failed to fill whole buffer"),
    }
}

impl Hello {
    /// Whether the certificate has a length that is taken.
    pub open spec fn wf(&self) -> bool {
        certificate_fits(self.certificate@.len() as int)
    }

    /// The bytes of the hello.
    pub open spec fn told(&self) -> Seq<u8> {
        hello_bytes(self.role, self.nonce@, self.certificate@)
    }

    /// A hello with a given nonce.
    pub fn with_nonce(role: Role, certificate: Vec<u8>, nonce: [u8; 32]) -> (result: Result<
        Self,
        TrustFailure,
    >)
        ensures
            match result {
                Ok(hello) => hello.wf() && hello.role == role && hello.certificate@ == certificate@
                    && hello.nonce == nonce,
                Err(failure) => !certificate_fits(certificate@.len() as int) && reports(
                    failure,
                    HelloFault::Form(
                        "pairing certificate length must be between 1 and 65536 bytes",
                    ),
                ),
            },
    {
        if certificate.len() == 0 || certificate.len() > CERTIFICATE_LIMIT {
            return Err(refused("pairing certificate length must be between 1 and 65536 bytes"));
        }
        Ok(Hello { role, nonce, certificate })
    }

    /// A hello with a fresh nonce.
    pub fn create(role: Role, certificate: Vec<u8>) -> (result: Result<Self, TrustFailure>)
        ensures
            match result {
                Ok(hello) => {
                    &&& hello.wf()
                    &&& hello.role == role
                    &&& hello.certificate@ == certificate@
                    &&& random::drawn(hello.nonce@)
                },
                Err(failure) => if !certificate_fits(certificate@.len() as int) {
                    reports(
                        failure,
                        HelloFault::Form(
                            "pairing certificate length must be between 1 and 65536 bytes",
                        ),
                    )
                } else {
                    failure matches TrustFailure::Randomness { detail } && random::refused(
                        32,
                        detail,
                    )
                },
            },
    {
        if certificate.len() == 0 || certificate.len() > CERTIFICATE_LIMIT {
            return Err(refused("pairing certificate length must be between 1 and 65536 bytes"));
        }
        match random_32() {
            Err(detail) => Err(TrustFailure::Randomness { detail }),
            Ok(nonce) => Hello::with_nonce(role, certificate, nonce),
        }
    }

    /// Encodes the hello.
    pub fn encode(&self) -> (encoded: Vec<u8>)
        requires
            self.wf(),
        ensures
            encoded@ == self.told(),
    {
        proof {
            bytes::lemma_capacity_values();
        }
        let mut encoded: Vec<u8> = Vec::new();
        bytes::append(&mut encoded, &HELLO_MAGIC);
        bytes::put_le(&mut encoded, PAIRING_VERSION as u64, 2);
        encoded.push(self.role.number());
        bytes::append(&mut encoded, &self.nonce);
        bytes::put_le(&mut encoded, self.certificate.len() as u64, 4);
        bytes::append(&mut encoded, self.certificate.as_slice());
        assert(encoded@ =~= self.told());
        encoded
    }

    /// The length of the certificate that follows the header of a hello, before anything is
    /// allocated for it.
    pub fn read_header(header: &[u8], expected: Role) -> (result: Result<usize, TrustFailure>)
        ensures
            match header_outcome(header@, expected) {
                Ok(length) => result == Ok::<usize, TrustFailure>(length as usize),
                Err(fault) => result matches Err(failure) && reports(failure, fault),
            },
    {
        if header.len() < HELLO_HEADER_LENGTH {
            return Err(short());
        }
        proof {
            bytes::lemma_capacity_values();
        }
        assert(header@.subrange(0, 8) == bytes::slice_of(header@, 0, 8));
        if !bytes::bytes_equal(&header[0..8], &HELLO_MAGIC) {
            return Err(refused("pairing hello magic mismatch"));
        }
        let version: u64 = bytes::get_le(header, 8, 2);
        if version != PAIRING_VERSION as u64 {
            return Err(TrustFailure::WrongVersion { version: version as u16 });
        }
        let role: u8 = header[10];
        if role != 1 && role != 2 {
            return Err(refused("pairing hello contains an unknown role"));
        }
        if role != expected.number() {
            return Err(refused("pairing hello role mismatch"));
        }
        let length: u64 = bytes::get_le(header, 43, 4);
        if length == 0 || length > CERTIFICATE_LIMIT as u64 {
            return Err(refused("pairing certificate length must be between 1 and 65536 bytes"));
        }
        Ok(length as usize)
    }

    /// Reads the hello that a stream of bytes starts with.
    pub fn read_from(stream: &[u8], expected: Role) -> (result: Result<Self, TrustFailure>)
        ensures
            match hello_outcome(stream@, expected) {
                Ok((nonce, certificate)) => {
                    &&& result matches Ok(hello)
                    &&& hello.wf()
                    &&& hello.role == expected
                    &&& hello.nonce@ == nonce
                    &&& hello.certificate@ == certificate
                },
                Err(fault) => result matches Err(failure) && reports(failure, fault),
            },
    {
        let length: usize = match Hello::read_header(stream, expected) {
            Err(failure) => {
                return Err(failure);
            },
            Ok(length) => length,
        };
        if stream.len() - HELLO_HEADER_LENGTH < length {
            return Err(short());
        }
        let nonce = bytes::array_32(stream, 11);
        let certificate = bytes::copy_range(stream, HELLO_HEADER_LENGTH, length);
        Ok(Hello { role: expected, nonce, certificate })
    }
}

/// The digest that binds the hellos of both sides.
pub open spec fn transcript(listener: Seq<u8>, connector: Seq<u8>) -> Seq<u8> {
    security::sha256(TRANSCRIPT_DOMAIN@ + listener + connector)
}

/// The digest that binds the hellos of both sides, the listener's before the connector's.
pub fn pairing_transcript(listener: &Hello, connector: &Hello) -> (result: Result<
    [u8; 32],
    TrustFailure,
>)
    requires
        listener.wf(),
        connector.wf(),
    ensures
        match result {
            Ok(hash) => listener.role is Listener && connector.role is Connector && hash@
                == transcript(listener.told(), connector.told()),
            Err(failure) => !(listener.role is Listener && connector.role is Connector) && reports(
                failure,
                HelloFault::Form("pairing transcript roles are not canonical"),
            ),
        },
{
    if listener.role != Role::Listener || connector.role != Role::Connector {
        return Err(refused("pairing transcript roles are not canonical"));
    }
    let mut said: Vec<u8> = Vec::new();
    bytes::append(&mut said, &TRANSCRIPT_DOMAIN);
    bytes::append(&mut said, listener.encode().as_slice());
    bytes::append(&mut said, connector.encode().as_slice());
    assert(said@ =~= TRANSCRIPT_DOMAIN@ + listener.told() + connector.told());
    Ok(sha256_digest(said.as_slice()))
}

/// The code that the users of both devices compare.
#[derive(Clone, Copy, Debug, Eq)]
pub struct PairingCode(pub [u8; 8]);

impl PartialEq for PairingCode {
    fn eq(&self, other: &Self) -> (same: bool) {
        let same = bytes::bytes_equal(&self.0, &other.0);
        proof {
            if same {
                assert(self.0 =~= other.0);
            }
        }
        same
    }
}

impl vstd::std_specs::cmp::PartialEqSpecImpl for PairingCode {
    open spec fn obeys_eq_spec() -> bool {
        true
    }

    open spec fn eq_spec(&self, other: &Self) -> bool {
        *self == *other
    }
}

/// The text of a code: upper-case hexadecimal digits in groups of four.
pub open spec fn code_text(code: Seq<u8>) -> Seq<char> {
    text::hex_text(code.subrange(0, 2), true) + seq!['-'] + text::hex_text(
        code.subrange(2, 4),
        true,
    ) + seq!['-'] + text::hex_text(code.subrange(4, 6), true) + seq!['-'] + text::hex_text(
        code.subrange(6, 8),
        true,
    )
}

impl PairingCode {
    /// The code as people compare it.
    pub fn to_text(&self) -> (result: String)
        ensures
            result@ == code_text(self.0@),
    {
        let code: &[u8] = &self.0;
        let mut result = String::new();
        text::push_hex(&mut result, &code[0..2], true);
        result.push('-');
        text::push_hex(&mut result, &code[2..4], true);
        result.push('-');
        text::push_hex(&mut result, &code[4..6], true);
        result.push('-');
        text::push_hex(&mut result, &code[6..8], true);
        assert(result@ =~= code_text(self.0@));
        result
    }
}

/// The code of a transcript: its first eight bytes.
pub fn pairing_code(transcript_hash: [u8; 32]) -> (code: PairingCode)
    ensures
        code.0@ == transcript_hash@.take(8),
{
    let code = PairingCode(
        [
            transcript_hash[0],
            transcript_hash[1],
            transcript_hash[2],
            transcript_hash[3],
            transcript_hash[4],
            transcript_hash[5],
            transcript_hash[6],
            transcript_hash[7],
        ],
    );
    assert(code.0@ =~= transcript_hash@.take(8));
    code
}

/// What a side of a pairing knows of it.
pub struct PairingView {
    pub local: Seq<u8>,
    pub peer: Seq<u8>,
    pub transcript: Seq<u8>,
    pub code: Seq<u8>,
}

/// What a side knows that said one hello and heard another.
pub open spec fn pairing_of(local: Hello, remote: Hello) -> PairingView {
    let transcript = if local.role is Listener {
        transcript(local.told(), remote.told())
    } else {
        transcript(remote.told(), local.told())
    };
    PairingView {
        local: security::sha256(local.certificate@),
        peer: security::sha256(remote.certificate@),
        transcript,
        code: transcript.take(8),
    }
}

/// The bytes of a proof that a side speaks of a transcript.
pub open spec fn proof_bytes(transcript: Seq<u8>) -> Seq<u8> {
    PROOF_MAGIC@ + transcript
}

/// The bytes of a decision on a transcript.
pub open spec fn confirmation_bytes(transcript: Seq<u8>, approved: bool) -> Seq<u8> {
    (CONFIRM_MAGIC@ + transcript).push(if approved {
        1
    } else {
        0
    })
}

/// A pairing that both sides have yet to confirm.
#[derive(Debug)]
pub struct PendingPairing {
    peer_address: Endpoint,
    local_fingerprint: CertificateFingerprint,
    peer_fingerprint: CertificateFingerprint,
    peer_certificate: Vec<u8>,
    transcript_hash: [u8; 32],
    code: PairingCode,
}

impl View for PendingPairing {
    type V = PairingView;

    closed spec fn view(&self) -> PairingView {
        PairingView {
            local: self.local_fingerprint.0@,
            peer: self.peer_fingerprint.0@,
            transcript: self.transcript_hash@,
            code: self.code.0@,
        }
    }
}

/// Why a pairing ends without trust, given the decision that the other side sent.
pub open spec fn confirmation_fault(
    transcript: Seq<u8>,
    local_approved: bool,
    remote: Seq<u8>,
    same_identity: bool,
) -> Option<Failure> {
    if remote.len() != CONFIRM_LENGTH || remote.take(40) != CONFIRM_MAGIC@ + transcript {
        Some(Failure::invalid("pairing confirmation transcript mismatch"))
    } else if remote[40] > 1 {
        Some(Failure::invalid("pairing confirmation decision is invalid"))
    } else if !local_approved || remote[40] == 0 {
        Some(
            Failure::new(FailureKind::PermissionDenied, "pairing was not approved on both devices"),
        )
    } else if !same_identity {
        Some(Failure::invalid("local device identity changed during pairing"))
    } else {
        None
    }
}

impl PendingPairing {
    pub closed spec fn spec_peer_address(&self) -> Endpoint {
        self.peer_address
    }

    pub closed spec fn spec_peer_certificate(&self) -> Seq<u8> {
        self.peer_certificate@
    }

    pub closed spec fn spec_local(&self) -> CertificateFingerprint {
        self.local_fingerprint
    }

    pub closed spec fn spec_peer(&self) -> CertificateFingerprint {
        self.peer_fingerprint
    }

    /// Whether the fingerprint of the other side is that of its certificate, and the code that of
    /// the transcript.
    pub open spec fn wf(&self) -> bool {
        &&& self@.local == self.spec_local().0@
        &&& self@.peer == self.spec_peer().0@
        &&& self@.peer == security::sha256(self.spec_peer_certificate())
        &&& self@.transcript.len() == 32
        &&& self@.code == self@.transcript.take(8)
    }

    /// The pairing of a device that said one hello and heard another from an address.
    pub fn begin(local: &Hello, remote: Hello, peer_address: Endpoint) -> (result: Result<
        Self,
        TrustFailure,
    >)
        requires
            local.wf(),
            remote.wf(),
        ensures
            match result {
                Ok(pending) => {
                    &&& local.role != remote.role
                    &&& pending.wf()
                    &&& pending@ == pairing_of(*local, remote)
                    &&& pending.spec_peer_address() == peer_address
                    &&& pending.spec_peer_certificate() == remote.certificate@
                },
                Err(failure) => local.role == remote.role && reports(
                    failure,
                    HelloFault::Form("pairing transcript roles are not canonical"),
                ),
            },
    {
        let hash = match local.role {
            Role::Listener => pairing_transcript(local, &remote),
            Role::Connector => pairing_transcript(&remote, local),
        };
        match hash {
            Err(failure) => Err(failure),
            Ok(transcript_hash) => {
                let pending = PendingPairing {
                    peer_address,
                    local_fingerprint: CertificateFingerprint::from_certificate(
                        local.certificate.as_slice(),
                    ),
                    peer_fingerprint: CertificateFingerprint::from_certificate(
                        remote.certificate.as_slice(),
                    ),
                    peer_certificate: remote.certificate,
                    transcript_hash,
                    code: pairing_code(transcript_hash),
                };
                Ok(pending)
            },
        }
    }

    pub fn code(&self) -> (code: PairingCode)
        ensures
            code.0@ == self@.code,
    {
        self.code
    }

    pub fn peer_address(&self) -> (address: Endpoint)
        ensures
            address == self.spec_peer_address(),
    {
        self.peer_address
    }

    pub fn local_fingerprint(&self) -> (fingerprint: CertificateFingerprint)
        ensures
            fingerprint == self.spec_local(),
    {
        self.local_fingerprint
    }

    pub fn peer_fingerprint(&self) -> (fingerprint: CertificateFingerprint)
        ensures
            fingerprint == self.spec_peer(),
    {
        self.peer_fingerprint
    }

    /// The certificate that the other side must prove to own.
    pub fn peer_certificate(&self) -> (certificate: &[u8])
        ensures
            certificate@ == self.spec_peer_certificate(),
    {
        self.peer_certificate.as_slice()
    }

    /// What this side sends first on the authenticated connection.
    pub fn tls_proof(&self) -> (message: Vec<u8>)
        ensures
            message@ == proof_bytes(self@.transcript),
    {
        let mut message: Vec<u8> = Vec::new();
        bytes::append(&mut message, &PROOF_MAGIC);
        bytes::append(&mut message, &self.transcript_hash);
        assert(message@ =~= proof_bytes(self@.transcript));
        message
    }

    /// Checks what the other side sent first on the authenticated connection.
    pub fn check_tls_proof(&self, remote: &[u8]) -> (result: Result<(), Failure>)
        ensures
            result == if remote@ == proof_bytes(self@.transcript) {
                Ok::<(), Failure>(())
            } else {
                Err(Failure::invalid("pairing TLS proof transcript mismatch"))
            },
    {
        if !bytes::bytes_equal(remote, self.tls_proof().as_slice()) {
            return Err(Failure::invalid("pairing TLS proof transcript mismatch"));
        }
        Ok(())
    }

    /// The decision that this side sends.
    pub fn confirmation(&self, local_approved: bool) -> (message: Vec<u8>)
        ensures
            message@ == confirmation_bytes(self@.transcript, local_approved),
    {
        let mut message: Vec<u8> = Vec::new();
        bytes::append(&mut message, &CONFIRM_MAGIC);
        bytes::append(&mut message, &self.transcript_hash);
        message.push(
            if local_approved {
                1
            } else {
                0
            },
        );
        assert(message@ =~= confirmation_bytes(self@.transcript, local_approved));
        message
    }

    /// Weighs both decisions, and whether the identity of this device is still the one it showed.
    pub fn check_confirmation(
        &self,
        local_approved: bool,
        remote: &[u8],
        current: CertificateFingerprint,
    ) -> (result: Result<(), Failure>)
        requires
            self.wf(),
        ensures
            result == (match confirmation_fault(
                self@.transcript,
                local_approved,
                remote@,
                current == self.spec_local(),
            ) {
                None => Ok::<(), Failure>(()),
                Some(failure) => Err(failure),
            }),
    {
        if remote.len() != CONFIRM_LENGTH {
            return Err(Failure::invalid("pairing confirmation transcript mismatch"));
        }
        let mut bound: Vec<u8> = Vec::new();
        bytes::append(&mut bound, &CONFIRM_MAGIC);
        bytes::append(&mut bound, &self.transcript_hash);
        assert(bound@ =~= CONFIRM_MAGIC@ + self@.transcript);
        assert(remote@.subrange(0, 40) =~= remote@.take(40));
        if !bytes::bytes_equal(&remote[0..40], bound.as_slice()) {
            return Err(Failure::invalid("pairing confirmation transcript mismatch"));
        }
        if remote[40] > 1 {
            return Err(Failure::invalid("pairing confirmation decision is invalid"));
        }
        if !local_approved || remote[40] == 0 {
            return Err(
                Failure::new(
                    FailureKind::PermissionDenied,
                    "pairing was not approved on both devices",
                ),
            );
        }
        if current != self.local_fingerprint {
            return Err(Failure::invalid("local device identity changed during pairing"));
        }
        Ok(())
    }

    /// Ends the pairing: the other device is trusted only where both sides approved the same
    /// transcript. `current` is the identity that this device has now, and `known` are the
    /// devices that it trusts already.
    pub fn confirm(
        self,
        store: &DeviceStore,
        local_approved: bool,
        remote: &[u8],
        current: CertificateFingerprint,
        peer_label: &str,
        known: &PeerList,
    ) -> (result: Result<TrustedPeer, TrustFailure>)
        requires
            self.wf(),
        ensures
            match confirmation_fault(
                self@.transcript,
                local_approved,
                remote@,
                current == self.spec_local(),
            ) {
                Some(failure) => result == Err::<TrustedPeer, TrustFailure>(
                    TrustFailure::Refused { failure },
                ),
                None => device_store::trusts(
                    result,
                    self.spec_peer_certificate(),
                    self.spec_peer(),
                    device_store::trust_outcome(
                        current,
                        self.spec_peer_certificate(),
                        self.spec_peer(),
                        peer_label@,
                        known.all(),
                    ),
                ),
            },
    {
        match self.check_confirmation(local_approved, remote, current) {
            Err(failure) => Err(TrustFailure::Refused { failure }),
            Ok(_) => store.trust_peer(
                current,
                self.peer_certificate,
                self.peer_fingerprint,
                peer_label,
                known,
            ),
        }
    }
}

/// Checks how long a pairing may take, in nanoseconds.
pub fn validate_timeout(timeout: u64) -> (result: Result<(), Failure>)
    ensures
        result == if 0 < timeout <= MAX_PAIRING_TIMEOUT {
            Ok::<(), Failure>(())
        } else {
            Err(Failure::invalid("pairing timeout must be between 1 millisecond and 300 seconds"))
        },
{
    if timeout == 0 || timeout > MAX_PAIRING_TIMEOUT {
        return Err(
            Failure::invalid("pairing timeout must be between 1 millisecond and 300 seconds"),
        );
    }
    Ok(())
}

/// Checks the address of the other side.
pub fn validate_peer_address(address: IpAddress) -> (result: Result<(), Failure>)
    ensures
        result == if address.spec_near() {
            Ok::<(), Failure>(())
        } else {
            Err(Failure::invalid("pairing is restricted to loopback or private unicast addresses"))
        },
{
    if is_private_or_loopback(address) {
        Ok(())
    } else {
        Err(Failure::invalid("pairing is restricted to loopback or private unicast addresses"))
    }
}

/// Checks where a connector connects to.
pub fn validate_endpoint(endpoint: Endpoint) -> (result: Result<(), Failure>)
    ensures
        result == if endpoint.port == 0 {
            Err::<(), Failure>(Failure::invalid("pairing endpoint port must not be zero"))
        } else if endpoint.ip.spec_near() {
            Ok(())
        } else {
            Err(Failure::invalid("pairing is restricted to loopback or private unicast addresses"))
        },
{
    if endpoint.port == 0 {
        return Err(Failure::invalid("pairing endpoint port must not be zero"));
    }
    validate_peer_address(endpoint.ip)
}

/// Checks where a listener listens: every address of the device will do, too.
pub fn validate_listener_endpoint(endpoint: Endpoint) -> (result: Result<(), Failure>)
    ensures
        result == if endpoint.port == 0 {
            Err::<(), Failure>(Failure::invalid("pairing listener port must not be zero"))
        } else if endpoint.ip.spec_unspecified() || endpoint.ip.spec_near() {
            Ok(())
        } else {
            Err(Failure::invalid("pairing is restricted to loopback or private unicast addresses"))
        },
{
    if endpoint.port == 0 {
        return Err(Failure::invalid("pairing listener port must not be zero"));
    }
    if endpoint.ip.is_unspecified() {
        Ok(())
    } else {
        validate_peer_address(endpoint.ip)
    }
}

/// Until when a listener listens. Times are in nanoseconds.
pub fn accept_deadline(now: u64, timeout: u64) -> (result: Result<u64, Failure>)
    ensures
        result == if now + timeout <= u64::MAX {
            Ok::<u64, Failure>((now + timeout) as u64)
        } else {
            Err(Failure::invalid("pairing timeout overflow"))
        },
{
    match now.checked_add(timeout) {
        Some(deadline) => Ok(deadline),
        None => Err(Failure::invalid("pairing timeout overflow")),
    }
}

/// What a listener does that found no connection.
#[derive(Clone, Copy, Debug)]
pub enum AcceptStep {
    /// Looks again after a while.
    Wait { pause: u64 },
    /// Gives up.
    TimedOut { failure: Failure },
    /// Reports what the system told.
    Fail,
}

/// What a listener does that found no connection, for the given reason. Times are in nanoseconds.
pub fn after_accept(reason: FailureKind, now: u64, deadline: u64) -> (step: AcceptStep)
    ensures
        step == if reason != FailureKind::WouldBlock {
            AcceptStep::Fail
        } else if now >= deadline {
            AcceptStep::TimedOut {
                failure: Failure::new(FailureKind::TimedOut, "pairing listener timed out"),
            }
        } else {
            AcceptStep::Wait { pause: ACCEPT_POLL_INTERVAL }
        },
{
    if reason != FailureKind::WouldBlock {
        return AcceptStep::Fail;
    }
    if now >= deadline {
        return AcceptStep::TimedOut {
            failure: Failure::new(FailureKind::TimedOut, "pairing listener timed out"),
        };
    }
    AcceptStep::Wait { pause: ACCEPT_POLL_INTERVAL }
}

/// A hello is heard as it was said, whatever follows it.
pub proof fn lemma_hello_round_trip(hello: Hello, rest: Seq<u8>)
    requires
        hello.wf(),
    ensures
        hello_outcome(hello.told() + rest, hello.role) == Ok::<(Seq<u8>, Seq<u8>), HelloFault>(
            (hello.nonce@, hello.certificate@),
        ),
{
    let stream = hello.told() + rest;
    bytes::lemma_capacity_values();
    bytes::lemma_le_value_of_bytes(PAIRING_VERSION as nat, 2);
    bytes::lemma_le_value_of_bytes(hello.certificate@.len(), 4);
    assert(bytes::slice_of(stream, 0, 8) =~= HELLO_MAGIC@);
    assert(bytes::slice_of(stream, 8, 2) =~= bytes::le_bytes(PAIRING_VERSION as nat, 2));
    assert(bytes::slice_of(stream, 43, 4) =~= bytes::le_bytes(hello.certificate@.len(), 4));
    assert(bytes::slice_of(stream, 11, 32) =~= hello.nonce@);
    assert(bytes::slice_of(stream, 47, hello.certificate@.len() as int) =~= hello.certificate@);
}

/// Both sides of a pairing have the same transcript and the same code, and each knows the other
/// by the fingerprint that the other has.
pub proof fn lemma_both_sides_agree(listener: Hello, connector: Hello)
    requires
        listener.role is Listener,
        connector.role is Connector,
    ensures
        pairing_of(listener, connector).transcript == pairing_of(connector, listener).transcript,
        pairing_of(listener, connector).code == pairing_of(connector, listener).code,
        pairing_of(listener, connector).local == pairing_of(connector, listener).peer,
        pairing_of(listener, connector).peer == pairing_of(connector, listener).local,
{
}

/// A confirmation says what its side decided: the other side goes on exactly where it was
/// approved on both.
pub proof fn lemma_trust_takes_two(transcript: Seq<u8>, first_approved: bool, second_approved: bool)
    requires
        transcript.len() == 32,
    ensures
        confirmation_fault(
            transcript,
            first_approved,
            confirmation_bytes(transcript, second_approved),
            true,
        ) is None <==> first_approved && second_approved,
        confirmation_fault(
            transcript,
            second_approved,
            confirmation_bytes(transcript, first_approved),
            true,
        ) is None <==> first_approved && second_approved,
{
    assert(confirmation_bytes(transcript, first_approved).take(40) =~= CONFIRM_MAGIC@ + transcript);
    assert(confirmation_bytes(transcript, second_approved).take(40) =~= CONFIRM_MAGIC@
        + transcript);
}

/// A confirmation of another transcript is never taken.
pub proof fn lemma_other_transcript_is_refused(
    transcript: Seq<u8>,
    other: Seq<u8>,
    local_approved: bool,
    remote_approved: bool,
    same_identity: bool,
)
    requires
        transcript.len() == 32,
        other.len() == 32,
        transcript != other,
    ensures
        confirmation_fault(
            transcript,
            local_approved,
            confirmation_bytes(other, remote_approved),
            same_identity,
        ) is Some,
        proof_bytes(other) != proof_bytes(transcript),
{
    let remote = confirmation_bytes(other, remote_approved);
    assert(remote.take(40) =~= CONFIRM_MAGIC@ + other);
    assert((CONFIRM_MAGIC@ + other).skip(8) =~= other);
    assert((CONFIRM_MAGIC@ + transcript).skip(8) =~= transcript);
    assert(proof_bytes(other).skip(8) =~= other);
    assert(proof_bytes(transcript).skip(8) =~= transcript);
}

/// People have five minutes to pair two devices, and a listener looks for a connection forty times a
/// second.
pub proof fn lemma_times_of_pairing()
    ensures
        MAX_PAIRING_TIMEOUT == 5 * 60 * 1_000_000_000,
        ACCEPT_POLL_INTERVAL * 40 == 1_000_000_000,
        PAIRING_VERSION == 1,
{
}

} // verus!
