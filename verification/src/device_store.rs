//! What a device keeps: its identity, and the devices that it trusts.

use crate::bytes;
use crate::failure::{Failure, FailureKind};
use crate::security;
use crate::security::CertificateFingerprint;
use crate::text;
use crate::text::text_from_utf8;
use crate::tls;
use crate::tls::{
    generate_identity_der, verify_peer_pin, wipe, TlsIdentity, TrustFailure, CERTIFICATE_LIMIT,
    PRIVATE_KEY_LIMIT, SERVER_NAME,
};
use vstd::prelude::*;
use vstd::utf8::*;

verus! {

/// Name of the file with the protected identity.
pub const IDENTITY_FILE: &'static str = "identity.dpapi";

/// Name of the directory with the records of trusted devices.
pub const TRUST_DIRECTORY: &'static str = "trusted-peers";

/// First bytes of an identity.
pub const IDENTITY_MAGIC: [u8; 8] = [0x43, 0x46, 0x49, 0x44, 1, 0, 0, 0];

/// First bytes of the record of a trusted device.
pub const TRUST_MAGIC: [u8; 8] = [0x43, 0x46, 0x50, 0x52, 1, 0, 0, 0];

/// Longest identity in the clear.
pub const IDENTITY_PLAINTEXT_LIMIT: usize = 131_088;

/// Longest protected identity.
pub const IDENTITY_PROTECTED_LIMIT: usize = 262_144;

/// Longest record of a trusted device.
pub const TRUST_RECORD_LIMIT: usize = 73_728;

/// Longest label of a trusted device, in UTF-8 bytes.
pub const LABEL_BYTE_LIMIT: usize = 128;

/// Most trusted devices.
pub const TRUSTED_PEER_LIMIT: usize = 64;

/// A device that is trusted.
#[derive(Debug)]
pub struct TrustedPeer {
    pub fingerprint: CertificateFingerprint,
    pub label: String,
    pub certificate: Vec<u8>,
}

/// What is kept of a device that is trusted.
pub struct PeerView {
    pub fingerprint: Seq<u8>,
    pub label: Seq<char>,
    pub certificate: Seq<u8>,
}

impl View for TrustedPeer {
    type V = PeerView;

    open spec fn view(&self) -> PeerView {
        PeerView {
            fingerprint: self.fingerprint.0@,
            label: self.label@,
            certificate: self.certificate@,
        }
    }
}

impl TrustedPeer {
    pub fn certificate_der(&self) -> (certificate: &[u8])
        ensures
            certificate@ == self.certificate@,
    {
        self.certificate.as_slice()
    }

    pub fn into_certificate_der(self) -> (certificate: Vec<u8>)
        ensures
            certificate@ == self.certificate@,
    {
        self.certificate
    }
}

/// Whether a certificate has a length that is taken.
pub open spec fn certificate_fits(certificate: Seq<u8>) -> bool {
    0 < certificate.len() <= CERTIFICATE_LIMIT
}

/// Whether a private key has a length that is taken.
pub open spec fn key_fits(private_key: Seq<u8>) -> bool {
    0 < private_key.len() <= PRIVATE_KEY_LIMIT
}

/// The label that a text gives: trimmed, not empty, not too long, without control characters.
pub open spec fn label_of(label: Seq<char>) -> Option<Seq<char>> {
    let trimmed = text::trimmed(label);
    if trimmed.len() == 0 || encode_utf8(trimmed).len() > LABEL_BYTE_LIMIT || text::has_control(
        trimmed,
    ) {
        None
    } else {
        Some(trimmed)
    }
}

/// Checks the length of a certificate.
pub fn validate_certificate(certificate: &[u8]) -> (result: Result<(), Failure>)
    ensures
        result == if certificate_fits(certificate@) {
            Ok::<(), Failure>(())
        } else {
            Err(Failure::invalid("certificate length must be between 1 and 65536 bytes"))
        },
{
    if certificate.len() == 0 || certificate.len() > CERTIFICATE_LIMIT {
        return Err(Failure::invalid("certificate length must be between 1 and 65536 bytes"));
    }
    Ok(())
}

/// The label that a text gives.
pub fn validate_label(label: &str) -> (result: Result<String, Failure>)
    ensures
        match result {
            Ok(valid) => label_of(label@) == Some(valid@),
            Err(failure) => label_of(label@) is None && failure == Failure::invalid(
                "peer label must contain 1 to 128 UTF-8 bytes without control characters",
            ),
        },
{
    let trimmed = text::trim(label);
    let encoded = trimmed.as_str().as_bytes();
    proof {
        if trimmed@.len() == 0 {
            assert(encode_utf8(trimmed@) =~= seq![]);
        } else {
            text::lemma_utf8_push(trimmed@.drop_last(), trimmed@.last());
            assert(trimmed@.drop_last().push(trimmed@.last()) =~= trimmed@);
        }
    }
    if encoded.len() == 0 || encoded.len() > LABEL_BYTE_LIMIT || text::contains_control(
        trimmed.as_str(),
    ) {
        return Err(
            Failure::invalid(
                "peer label must contain 1 to 128 UTF-8 bytes without control characters",
            ),
        );
    }
    Ok(trimmed)
}

/// The bytes of an identity.
pub open spec fn identity_bytes(certificate: Seq<u8>, private_key: Seq<u8>) -> Seq<u8> {
    IDENTITY_MAGIC@ + bytes::le_bytes(certificate.len(), 4) + bytes::le_bytes(private_key.len(), 4)
        + certificate + private_key
}

/// The certificate and the private key that the bytes of an identity hold.
pub open spec fn identity_outcome(encoded: Seq<u8>) -> Result<(Seq<u8>, Seq<u8>), Failure> {
    let certificate_length = bytes::le_value(bytes::slice_of(encoded, 8, 4)) as int;
    let key_length = bytes::le_value(bytes::slice_of(encoded, 12, 4)) as int;
    let certificate = bytes::slice_of(encoded, 16, certificate_length);
    let private_key = bytes::slice_of(encoded, 16 + certificate_length, key_length);
    if encoded.len() < 16 || bytes::slice_of(encoded, 0, 8) != IDENTITY_MAGIC@ {
        Err(Failure::invalid("unsupported or corrupt device identity"))
    } else if encoded.len() != 16 + certificate_length + key_length {
        Err(Failure::invalid("device identity length mismatch"))
    } else if !certificate_fits(certificate) {
        Err(Failure::invalid("certificate length must be between 1 and 65536 bytes"))
    } else if !key_fits(private_key) {
        Err(Failure::invalid("private key length is outside the allowed bounds"))
    } else {
        Ok((certificate, private_key))
    }
}

/// Encodes an identity.
pub fn encode_identity_bundle(certificate: &[u8], private_key: &[u8]) -> (result: Result<
    Vec<u8>,
    Failure,
>)
    ensures
        match result {
            Ok(encoded) => {
                &&& certificate_fits(certificate@) && key_fits(private_key@)
                &&& encoded@ == identity_bytes(certificate@, private_key@)
            },
            Err(failure) => if !certificate_fits(certificate@) {
                failure == Failure::invalid("certificate length must be between 1 and 65536 bytes")
            } else {
                !key_fits(private_key@) && failure == Failure::invalid(
                    "private key length must be between 1 and 65536 bytes",
                )
            },
        },
{
    match validate_certificate(certificate) {
        Err(failure) => {
            return Err(failure);
        },
        Ok(_) => {},
    }
    if private_key.len() == 0 || private_key.len() > PRIVATE_KEY_LIMIT {
        return Err(Failure::invalid("private key length must be between 1 and 65536 bytes"));
    }
    proof {
        bytes::lemma_capacity_values();
    }
    let mut encoded: Vec<u8> = Vec::new();
    bytes::append(&mut encoded, &IDENTITY_MAGIC);
    bytes::put_le(&mut encoded, certificate.len() as u64, 4);
    bytes::put_le(&mut encoded, private_key.len() as u64, 4);
    bytes::append(&mut encoded, certificate);
    bytes::append(&mut encoded, private_key);
    assert(encoded@ =~= identity_bytes(certificate@, private_key@));
    Ok(encoded)
}

/// Decodes an identity into its certificate and its private key.
pub fn decode_identity_bundle(encoded: &[u8]) -> (result: Result<(Vec<u8>, Vec<u8>), Failure>)
    ensures
        match result {
            Ok((certificate, private_key)) => identity_outcome(encoded@) == Ok::<
                (Seq<u8>, Seq<u8>),
                Failure,
            >((certificate@, private_key@)),
            Err(failure) => identity_outcome(encoded@) == Err::<(Seq<u8>, Seq<u8>), Failure>(
                failure,
            ),
        },
{
    if encoded.len() < 16 {
        return Err(Failure::invalid("unsupported or corrupt device identity"));
    }
    proof {
        bytes::lemma_capacity_values();
    }
    assert(encoded@.subrange(0, 8) == bytes::slice_of(encoded@, 0, 8));
    if !bytes::bytes_equal(&encoded[0..8], &IDENTITY_MAGIC) {
        return Err(Failure::invalid("unsupported or corrupt device identity"));
    }
    let certificate_length: u64 = bytes::get_le(encoded, 8, 4);
    let key_length: u64 = bytes::get_le(encoded, 12, 4);
    if encoded.len() as u64 != 16 + certificate_length + key_length {
        return Err(Failure::invalid("device identity length mismatch"));
    }
    let certificate = bytes::copy_range(encoded, 16, certificate_length as usize);
    let private_key = bytes::copy_range(
        encoded,
        16 + certificate_length as usize,
        key_length as usize,
    );
    match validate_certificate(certificate.as_slice()) {
        Err(failure) => {
            return Err(failure);
        },
        Ok(_) => {},
    }
    if private_key.len() == 0 || private_key.len() > PRIVATE_KEY_LIMIT {
        return Err(Failure::invalid("private key length is outside the allowed bounds"));
    }
    Ok((certificate, private_key))
}

/// A fresh identity, encoded. The private key is overwritten where it is no longer needed.
pub fn create_identity_bundle() -> (result: Result<Vec<u8>, TrustFailure>)
    ensures
        match result {
            Ok(encoded) => exists|certificate: Vec<u8>, private_key: Vec<u8>| #[trigger]
                tls::issued(SERVER_NAME, Ok((certificate, private_key))) && encoded@
                    == identity_bytes(certificate@, private_key@) && certificate_fits(certificate@)
                    && key_fits(private_key@),
            Err(TrustFailure::Cryptography { detail }) => tls::issued(SERVER_NAME, Err(detail)),
            Err(failure) => exists|certificate: Vec<u8>, private_key: Vec<u8>| #[trigger]
                tls::issued(SERVER_NAME, Ok((certificate, private_key))) && failure == (
                TrustFailure::Refused {
                    failure: if !certificate_fits(certificate@) {
                        Failure::invalid("certificate length must be between 1 and 65536 bytes")
                    } else {
                        Failure::invalid("private key length must be between 1 and 65536 bytes")
                    },
                }) && !(certificate_fits(certificate@) && key_fits(private_key@)),
        },
{
    match generate_identity_der() {
        Err(failure) => Err(failure),
        Ok((certificate, mut private_key)) => {
            let encoded = encode_identity_bundle(certificate.as_slice(), private_key.as_slice());
            wipe(&mut private_key);
            match encoded {
                Ok(encoded) => Ok(encoded),
                Err(failure) => Err(TrustFailure::Refused { failure }),
            }
        },
    }
}

/// The bytes of the record of a trusted device.
pub open spec fn record_bytes(certificate: Seq<u8>, label: Seq<char>) -> Seq<u8> {
    TRUST_MAGIC@ + bytes::le_bytes(certificate.len(), 4) + bytes::le_bytes(
        encode_utf8(label).len(),
        2,
    ) + certificate + encode_utf8(label)
}

/// Why a record is refused.
pub enum RecordFault {
    /// For its form.
    Form(&'static str),
    /// For the fingerprint of its certificate.
    Fingerprint,
    /// For one that is there already.
    Known,
}

/// The certificate and the label that the record of a trusted device holds.
pub open spec fn record_outcome(encoded: Seq<u8>, expected: Seq<u8>) -> Result<
    (Seq<u8>, Seq<char>),
    RecordFault,
> {
    let certificate_length = bytes::le_value(bytes::slice_of(encoded, 8, 4)) as int;
    let label_length = bytes::le_value(bytes::slice_of(encoded, 12, 2)) as int;
    let certificate = bytes::slice_of(encoded, 14, certificate_length);
    let label = bytes::slice_of(encoded, 14 + certificate_length, label_length);
    if encoded.len() < 14 || bytes::slice_of(encoded, 0, 8) != TRUST_MAGIC@ {
        Err(RecordFault::Form("unsupported or corrupt trusted peer record"))
    } else if encoded.len() != 14 + certificate_length + label_length {
        Err(RecordFault::Form("trusted peer record length mismatch"))
    } else if !certificate_fits(certificate) {
        Err(RecordFault::Form("certificate length must be between 1 and 65536 bytes"))
    } else if security::sha256(certificate) != expected {
        Err(RecordFault::Fingerprint)
    } else if !valid_utf8(label) {
        Err(RecordFault::Form("trusted peer label is not valid UTF-8"))
    } else {
        match label_of(decode_utf8(label)) {
            None => Err(
                RecordFault::Form(
                    "peer label must contain 1 to 128 UTF-8 bytes without control characters",
                ),
            ),
            Some(label) => Ok((certificate, label)),
        }
    }
}

/// The fingerprint of the certificate in a record.
pub open spec fn record_fingerprint(encoded: Seq<u8>) -> Seq<u8> {
    security::sha256(
        bytes::slice_of(encoded, 14, bytes::le_value(bytes::slice_of(encoded, 8, 4)) as int),
    )
}

/// The failure that tells of a record that is there already.
pub open spec fn known_failure() -> TrustFailure {
    TrustFailure::Refused {
        failure: Failure::new(FailureKind::AlreadyExists, "trusted peer record already exists"),
    }
}

/// Whether a result is that of decoding the record of the trusted device with a fingerprint.
pub open spec fn decodes(
    result: Result<TrustedPeer, TrustFailure>,
    encoded: Seq<u8>,
    expected: CertificateFingerprint,
) -> bool {
    match record_outcome(encoded, expected.0@) {
        Ok((certificate, label)) => {
            &&& result matches Ok(peer)
            &&& peer.fingerprint == expected
            &&& peer.certificate@ == certificate
            &&& peer.label@ == label
        },
        Err(RecordFault::Form(message)) => {
            &&& result matches Err(failure)
            &&& failure == (TrustFailure::Refused { failure: Failure::invalid(message) })
        },
        Err(RecordFault::Fingerprint) => {
            &&& result matches Err(TrustFailure::WrongRecord { expected: told, actual })
            &&& told == expected
            &&& actual.0@ == record_fingerprint(encoded)
        },
        Err(RecordFault::Known) => false,
    }
}

/// The label under which a certificate may be trusted.
pub open spec fn check_outcome(
    local: CertificateFingerprint,
    certificate: Seq<u8>,
    expected: CertificateFingerprint,
    label: Seq<char>,
) -> Result<Seq<char>, RecordFault> {
    if !certificate_fits(certificate) {
        Err(RecordFault::Form("certificate length must be between 1 and 65536 bytes"))
    } else if !tls::has_fingerprint(certificate, expected) {
        Err(RecordFault::Fingerprint)
    } else if expected == local {
        Err(RecordFault::Form("the local device cannot trust itself as a peer"))
    } else {
        match label_of(label) {
            None => Err(
                RecordFault::Form(
                    "peer label must contain 1 to 128 UTF-8 bytes without control characters",
                ),
            ),
            Some(label) => Ok(label),
        }
    }
}

/// The label under which a certificate is trusted, in a registry that knows some devices already.
pub open spec fn trust_outcome(
    local: CertificateFingerprint,
    certificate: Seq<u8>,
    expected: CertificateFingerprint,
    label: Seq<char>,
    known: Seq<PeerView>,
) -> Result<Seq<char>, RecordFault> {
    match check_outcome(local, certificate, expected, label) {
        Err(fault) => Err(fault),
        Ok(label) => if known.len() >= TRUSTED_PEER_LIMIT {
            Err(RecordFault::Form("trusted peer limit of 64 has been reached"))
        } else if knows(known, expected.0@) {
            Err(RecordFault::Known)
        } else {
            Ok(label)
        },
    }
}

/// Whether a failure tells why a certificate is not trusted.
pub open spec fn tells(
    failure: TrustFailure,
    certificate: Seq<u8>,
    expected: CertificateFingerprint,
    fault: RecordFault,
) -> bool {
    match fault {
        RecordFault::Form(message) => failure == (TrustFailure::Refused {
            failure: Failure::invalid(message),
        }),
        RecordFault::Fingerprint => {
            &&& failure matches TrustFailure::WrongPeer { expected: told, actual }
            &&& told == expected
            &&& tls::has_fingerprint(certificate, actual)
        },
        RecordFault::Known => failure == known_failure(),
    }
}

/// Whether a result is what trusting a certificate must come to.
pub open spec fn trusts(
    result: Result<TrustedPeer, TrustFailure>,
    certificate: Seq<u8>,
    expected: CertificateFingerprint,
    outcome: Result<Seq<char>, RecordFault>,
) -> bool {
    match outcome {
        Ok(label) => {
            &&& result matches Ok(peer)
            &&& peer.fingerprint == expected
            &&& peer.certificate@ == certificate
            &&& peer.label@ == label
        },
        Err(fault) => {
            &&& result matches Err(failure)
            &&& tells(failure, certificate, expected, fault)
        },
    }
}

fn refused(message: &'static str) -> (failure: TrustFailure)
    ensures
        failure == (TrustFailure::Refused { failure: Failure::invalid(message) }),
{
    TrustFailure::Refused { failure: Failure::invalid(message) }
}

/// Encodes the record of a trusted device.
pub fn encode_trust_record(peer: &TrustedPeer) -> (result: Result<Vec<u8>, Failure>)
    ensures
        match result {
            Ok(encoded) => {
                &&& certificate_fits(peer.certificate@)
                &&& label_of(peer.label@) matches Some(label) && encoded@ == record_bytes(
                    peer.certificate@,
                    label,
                )
            },
            Err(failure) => if !certificate_fits(peer.certificate@) {
                failure == Failure::invalid("certificate length must be between 1 and 65536 bytes")
            } else {
                label_of(peer.label@) is None && failure == Failure::invalid(
                    "peer label must contain 1 to 128 UTF-8 bytes without control characters",
                )
            },
        },
{
    match validate_certificate(peer.certificate.as_slice()) {
        Err(failure) => {
            return Err(failure);
        },
        Ok(_) => {},
    }
    let label = match validate_label(peer.label.as_str()) {
        Err(failure) => {
            return Err(failure);
        },
        Ok(label) => label,
    };
    proof {
        bytes::lemma_capacity_values();
    }
    let label_bytes = label.as_str().as_bytes();
    let mut encoded: Vec<u8> = Vec::new();
    bytes::append(&mut encoded, &TRUST_MAGIC);
    bytes::put_le(&mut encoded, peer.certificate.len() as u64, 4);
    bytes::put_le(&mut encoded, label_bytes.len() as u64, 2);
    bytes::append(&mut encoded, peer.certificate.as_slice());
    bytes::append(&mut encoded, label_bytes);
    assert(encoded@ =~= record_bytes(peer.certificate@, label@));
    Ok(encoded)
}

/// Decodes the record of the trusted device with a fingerprint.
pub fn decode_trust_record(encoded: &[u8], expected: CertificateFingerprint) -> (result: Result<
    TrustedPeer,
    TrustFailure,
>)
    ensures
        decodes(result, encoded@, expected),
{
    if encoded.len() < 14 {
        return Err(refused("unsupported or corrupt trusted peer record"));
    }
    proof {
        bytes::lemma_capacity_values();
    }
    assert(encoded@.subrange(0, 8) == bytes::slice_of(encoded@, 0, 8));
    if !bytes::bytes_equal(&encoded[0..8], &TRUST_MAGIC) {
        return Err(refused("unsupported or corrupt trusted peer record"));
    }
    let certificate_length: u64 = bytes::get_le(encoded, 8, 4);
    let label_length: u64 = bytes::get_le(encoded, 12, 2);
    if encoded.len() as u64 != 14 + certificate_length + label_length {
        return Err(refused("trusted peer record length mismatch"));
    }
    let certificate = bytes::copy_range(encoded, 14, certificate_length as usize);
    match validate_certificate(certificate.as_slice()) {
        Err(failure) => {
            return Err(TrustFailure::Refused { failure });
        },
        Ok(_) => {},
    }
    let actual = CertificateFingerprint::from_certificate(certificate.as_slice());
    if actual != expected {
        proof {
            if actual.0@ == expected.0@ {
                assert(actual.0 =~= expected.0);
            }
        }
        return Err(TrustFailure::WrongRecord { expected, actual });
    }
    let label_bytes = bytes::copy_range(
        encoded,
        14 + certificate_length as usize,
        label_length as usize,
    );
    let label = match text_from_utf8(label_bytes.as_slice()) {
        None => {
            return Err(refused("trusted peer label is not valid UTF-8"));
        },
        Some(label) => label,
    };
    match validate_label(label.as_str()) {
        Err(failure) => Err(TrustFailure::Refused { failure }),
        Ok(label) => Ok(TrustedPeer { fingerprint: actual, label, certificate }),
    }
}

/// The name of the record of a trusted device, without its extension.
pub fn compact_fingerprint(fingerprint: CertificateFingerprint) -> (name: String)
    ensures
        name@ == text::hex_text(fingerprint.0@, false),
{
    let mut name = String::new();
    text::push_hex(&mut name, &fingerprint.0, false);
    assert(name@ =~= text::hex_text(fingerprint.0@, false));
    name
}

/// The fingerprint that the name of a record tells, without its extension.
pub fn parse_compact_fingerprint(name: &str) -> (result: Result<CertificateFingerprint, Failure>)
    ensures
        match result {
            Ok(fingerprint) => security::compact_digits(name@) && fingerprint.0@
                == security::digit_bytes(name@),
            Err(failure) => !security::compact_digits(name@) && failure == Failure::invalid(
                "trusted peer filename is not a fingerprint",
            ),
        },
{
    let characters = text::characters(name);
    match security::parse_digits(characters.as_slice()) {
        Some(parsed) => Ok(CertificateFingerprint(parsed)),
        None => Err(Failure::invalid("trusted peer filename is not a fingerprint")),
    }
}

/// Where a device keeps what it keeps.
#[derive(Debug)]
pub struct DeviceStore {
    root: String,
}

impl DeviceStore {
    pub closed spec fn spec_root(&self) -> Seq<char> {
        self.root@
    }

    pub fn new(root: String) -> (store: Self)
        ensures
            store.spec_root() == root@,
    {
        DeviceStore { root }
    }

    pub fn root(&self) -> (root: &str)
        ensures
            root@ == self.spec_root(),
    {
        self.root.as_str()
    }

    /// The name of the record of a trusted device.
    pub fn peer_file(&self, fingerprint: CertificateFingerprint) -> (name: String)
        ensures
            name@ == text::hex_text(fingerprint.0@, false) + ".peer"@,
    {
        let mut name = compact_fingerprint(fingerprint);
        text::push_text(&mut name, ".peer");
        name
    }

    /// The certificate of the device, which others may see, and its fingerprint.
    pub fn export_certificate(&self, identity: &TlsIdentity) -> (exported: (
        Vec<u8>,
        CertificateFingerprint,
    ))
        ensures
            exported.0@ == identity.spec_certificate(),
            exported.1 == identity.spec_fingerprint(),
    {
        let shown = identity.certificate_der();
        let mut certificate: Vec<u8> = Vec::new();
        bytes::append(&mut certificate, shown);
        assert(certificate@ =~= identity.spec_certificate());
        (certificate, identity.fingerprint())
    }

    /// Decodes an identity that was unprotected; its certificate and its private key must be ones.
    pub fn load_identity(&self, cleartext: &[u8]) -> (result: Result<TlsIdentity, TrustFailure>)
        ensures
            match result {
                Ok(identity) => {
                    &&& identity.wf()
                    &&& identity_outcome(cleartext@) == Ok::<(Seq<u8>, Seq<u8>), Failure>(
                        (identity.spec_certificate(), identity.spec_private_key()),
                    )
                    &&& tls::anchor_of(identity.spec_certificate()) is Some
                    &&& tls::key_parses(identity.spec_private_key())
                },
                Err(failure) => match identity_outcome(cleartext@) {
                    Err(reason) => failure == (TrustFailure::Refused { failure: reason }),
                    Ok((certificate, private_key)) => {
                        &&& failure matches TrustFailure::Cryptography { detail }
                        &&& if tls::anchor_of(certificate) is Some {
                            tls::key_refused(private_key, detail)
                        } else {
                            tls::anchor_refused(certificate, detail)
                        }
                    },
                },
            },
    {
        match decode_identity_bundle(cleartext) {
            Err(failure) => Err(TrustFailure::Refused { failure }),
            Ok((certificate, private_key)) => TlsIdentity::parse(certificate, private_key),
        }
    }

    /// Checks a device that is to be trusted: its certificate must have the expected fingerprint
    /// and not be that of this device itself. The label under which it may be trusted.
    pub fn check_peer(
        &self,
        local: CertificateFingerprint,
        certificate: &[u8],
        expected: CertificateFingerprint,
        label: &str,
    ) -> (result: Result<String, TrustFailure>)
        ensures
            match check_outcome(local, certificate@, expected, label@) {
                Ok(kept) => result matches Ok(label) && label@ == kept,
                Err(fault) => result matches Err(failure) && tells(
                    failure,
                    certificate@,
                    expected,
                    fault,
                ),
            },
    {
        match validate_certificate(certificate) {
            Err(failure) => {
                return Err(TrustFailure::Refused { failure });
            },
            Ok(_) => {},
        }
        match verify_peer_pin(certificate, expected) {
            Err(failure) => {
                return Err(failure);
            },
            Ok(_) => {},
        }
        if expected == local {
            return Err(refused("the local device cannot trust itself as a peer"));
        }
        match validate_label(label) {
            Err(failure) => Err(TrustFailure::Refused { failure }),
            Ok(label) => Ok(label),
        }
    }

    /// Takes a device into the trusted ones, which are `known`. One that is among them already is
    /// refused, and so is one more than there may be.
    pub fn trust_peer(
        &self,
        local: CertificateFingerprint,
        certificate: Vec<u8>,
        expected: CertificateFingerprint,
        label: &str,
        known: &PeerList,
    ) -> (result: Result<TrustedPeer, TrustFailure>)
        ensures
            trusts(
                result,
                certificate@,
                expected,
                trust_outcome(local, certificate@, expected, label@, known.all()),
            ),
    {
        let label = match self.check_peer(local, certificate.as_slice(), expected, label) {
            Err(failure) => {
                return Err(failure);
            },
            Ok(label) => label,
        };
        if known.len() >= TRUSTED_PEER_LIMIT {
            return Err(refused("trusted peer limit of 64 has been reached"));
        }
        if known.knows(expected) {
            return Err(
                TrustFailure::Refused {
                    failure: Failure::new(
                        FailureKind::AlreadyExists,
                        "trusted peer record already exists",
                    ),
                },
            );
        }
        Ok(TrustedPeer { fingerprint: expected, label, certificate })
    }

    /// Takes a device into the trusted ones whose certificate was read from a file.
    pub fn trust_peer_file(
        &self,
        local: CertificateFingerprint,
        certificate: Vec<u8>,
        expected: CertificateFingerprint,
        label: &str,
        known: &PeerList,
    ) -> (result: Result<TrustedPeer, TrustFailure>)
        ensures
            trusts(
                result,
                certificate@,
                expected,
                if certificate_fits(certificate@) {
                    trust_outcome(local, certificate@, expected, label@, known.all())
                } else {
                    Err(
                        RecordFault::Form(
                            "peer certificate must be a regular file between 1 and 65536 bytes",
                        ),
                    )
                },
            ),
    {
        if !check_file(true, certificate.len() as u64, CERTIFICATE_LIMIT) {
            return Err(
                refused("peer certificate must be a regular file between 1 and 65536 bytes"),
            );
        }
        self.trust_peer(local, certificate, expected, label, known)
    }

    /// The trusted devices whose records are these files, each under its name without extension.
    /// One file that is not a record of the device that its name tells, one record too many, or a
    /// second record of a device, and there is no list.
    pub fn list_peers(&self, files: &Vec<PeerFile>) -> (result: Result<PeerList, TrustFailure>)
        ensures
            lists(result, file_views(files@)),
    {
        let ghost views = file_views(files@);
        let mut list = PeerList::new();
        let mut index: usize = 0;
        assert(views.take(0) =~= Seq::empty());
        while index < files.len()
            invariant
                index <= files@.len(),
                views == file_views(files@),
                list.wf(),
                listed(views.take(index as int)) == Ok::<Seq<PeerView>, ListFault>(list.all()),
            decreases files@.len() - index,
        {
            let file = &files[index];
            proof {
                assert(views[index as int] == file@);
                assert(views.take(index + 1).drop_last() =~= views.take(index as int));
                assert(views.take(index + 1).last() == file@);
                lemma_fault_stays(views, index + 1);
            }
            let name = match &file.name {
                None => {
                    return Err(refused("trusted peer filename is not valid Unicode"));
                },
                Some(name) => name,
            };
            let fingerprint = match parse_compact_fingerprint(name.as_str()) {
                Err(failure) => {
                    return Err(TrustFailure::Refused { failure });
                },
                Ok(fingerprint) => fingerprint,
            };
            let peer = match decode_trust_record(file.record.as_slice(), fingerprint) {
                Err(failure) => {
                    return Err(failure);
                },
                Ok(peer) => peer,
            };
            match list.add(peer) {
                Err(failure) => {
                    return Err(TrustFailure::Refused { failure });
                },
                Ok(_) => {},
            }
            index += 1;
        }
        assert(views.take(index as int) =~= views);
        Ok(list)
    }

    /// Decodes the record of the trusted device with a fingerprint.
    pub fn load_peer(&self, fingerprint: CertificateFingerprint, record: &[u8]) -> (result: Result<
        TrustedPeer,
        TrustFailure,
    >)
        ensures
            decodes(result, record@, fingerprint),
    {
        decode_trust_record(record, fingerprint)
    }
}

/// Whether a file may be read as a whole.
pub fn check_file(regular: bool, length: u64, limit: usize) -> (readable: bool)
    ensures
        readable == (regular && 0 < length <= limit),
{
    regular && length > 0 && length <= limit as u64
}

/// A file among the records of trusted devices: its name without extension, where it is Unicode,
/// and what it holds.
#[derive(Debug)]
pub struct PeerFile {
    pub name: Option<String>,
    pub record: Vec<u8>,
}

/// A file among the records of trusted devices.
pub struct PeerFileView {
    pub name: Option<Seq<char>>,
    pub record: Seq<u8>,
}

impl View for PeerFile {
    type V = PeerFileView;

    open spec fn view(&self) -> PeerFileView {
        PeerFileView {
            name: match self.name {
                Some(name) => Some(name@),
                None => None,
            },
            record: self.record@,
        }
    }
}

pub open spec fn file_views(files: Seq<PeerFile>) -> Seq<PeerFileView> {
    Seq::new(files.len(), |k: int| files[k]@)
}

pub open spec fn peer_views(peers: Seq<TrustedPeer>) -> Seq<PeerView> {
    Seq::new(peers.len(), |k: int| peers[k]@)
}

/// Why there is no list of the trusted devices.
pub enum ListFault {
    /// For a reason that can be told in advance.
    Form(&'static str),
    /// A record holds the certificate of another device than the one with this fingerprint.
    Misplaced { expected: Seq<u8>, record: Seq<u8> },
}

/// The device whose record a file is.
pub open spec fn file_peer(file: PeerFileView) -> Result<PeerView, ListFault> {
    match file.name {
        None => Err(ListFault::Form("trusted peer filename is not valid Unicode")),
        Some(name) => if !security::compact_digits(name) {
            Err(ListFault::Form("trusted peer filename is not a fingerprint"))
        } else {
            let fingerprint = security::digit_bytes(name);
            match record_outcome(file.record, fingerprint) {
                Ok((certificate, label)) => Ok(PeerView { fingerprint, label, certificate }),
                Err(RecordFault::Form(message)) => Err(ListFault::Form(message)),
                Err(_) => Err(ListFault::Misplaced { expected: fingerprint, record: file.record }),
            }
        },
    }
}

/// The trusted devices with one more among them, at its place.
pub open spec fn added(peers: Seq<PeerView>, peer: PeerView) -> Result<Seq<PeerView>, ListFault> {
    if peers.len() >= TRUSTED_PEER_LIMIT {
        Err(ListFault::Form("trusted peer registry exceeds the limit of 64"))
    } else if knows(peers, peer.fingerprint) {
        Err(ListFault::Form("trusted peer registry holds a device more than once"))
    } else {
        Ok(peers.insert(rank(peers, peer.fingerprint) as int, peer))
    }
}

/// The trusted devices whose records are these files.
pub open spec fn listed(files: Seq<PeerFileView>) -> Result<Seq<PeerView>, ListFault>
    decreases files.len(),
{
    if files.len() == 0 {
        Ok(Seq::empty())
    } else {
        match listed(files.drop_last()) {
            Err(fault) => Err(fault),
            Ok(peers) => match file_peer(files.last()) {
                Err(fault) => Err(fault),
                Ok(peer) => added(peers, peer),
            },
        }
    }
}

/// Whether a result is the list of the trusted devices whose records are these files.
pub open spec fn lists(
    result: Result<PeerList, TrustFailure>,
    files: Seq<PeerFileView>,
) -> bool {
    match listed(files) {
        Ok(peers) => result matches Ok(list) && list.wf() && list.all() == peers,
        Err(ListFault::Form(message)) => {
            &&& result matches Err(failure)
            &&& failure == (TrustFailure::Refused { failure: Failure::invalid(message) })
        },
        Err(ListFault::Misplaced { expected, record }) => {
            &&& result matches Err(TrustFailure::WrongRecord { expected: told, actual })
            &&& told.0@ == expected
            &&& actual.0@ == record_fingerprint(record)
        },
    }
}

/// A fault among the first files is that of all.
proof fn lemma_fault_stays(files: Seq<PeerFileView>, count: int)
    requires
        0 <= count <= files.len(),
    ensures
        listed(files.take(count)) matches Err(fault) ==> listed(files) == Err::<
            Seq<PeerView>,
            ListFault,
        >(fault),
    decreases files.len(),
{
    if count < files.len() {
        lemma_fault_stays(files.drop_last(), count);
        assert(files.drop_last().take(count) =~= files.take(count));
    } else {
        assert(files.take(count) =~= files);
    }
}

/// The trusted devices in the order of their fingerprints.
#[derive(Debug)]
pub struct PeerList {
    peers: Vec<TrustedPeer>,
}

/// Whether a device with a fingerprint is among some.
pub open spec fn knows(peers: Seq<PeerView>, fingerprint: Seq<u8>) -> bool {
    exists|k: int| 0 <= k < peers.len() && (#[trigger] peers[k]).fingerprint == fingerprint
}

/// Where a fingerprint stands among ordered ones: behind all that do not come after it.
pub open spec fn rank(peers: Seq<PeerView>, fingerprint: Seq<u8>) -> nat
    decreases peers.len(),
{
    if peers.len() == 0 || !bytes::bytes_before(fingerprint, peers.last().fingerprint) {
        peers.len()
    } else {
        rank(peers.drop_last(), fingerprint)
    }
}

/// Whether devices stand in the order of their fingerprints, each of them once.
pub open spec fn ordered(peers: Seq<PeerView>) -> bool {
    forall|j: int, k: int|
        0 <= j < k < peers.len() ==> bytes::bytes_before(
            (#[trigger] peers[j]).fingerprint,
            (#[trigger] peers[k]).fingerprint,
        )
}

pub proof fn lemma_rank_bound(peers: Seq<PeerView>, fingerprint: Seq<u8>)
    ensures
        rank(peers, fingerprint) <= peers.len(),
        forall|k: int|
            rank(peers, fingerprint) <= k < peers.len() ==> bytes::bytes_before(
                fingerprint,
                (#[trigger] peers[k]).fingerprint,
            ),
        rank(peers, fingerprint) > 0 ==> !bytes::bytes_before(
            fingerprint,
            peers[rank(peers, fingerprint) - 1].fingerprint,
        ),
    decreases peers.len(),
{
    if peers.len() > 0 && bytes::bytes_before(fingerprint, peers.last().fingerprint) {
        let rest = peers.drop_last();
        lemma_rank_bound(rest, fingerprint);
        assert forall|k: int|
            rank(peers, fingerprint) <= k < peers.len() implies bytes::bytes_before(
            fingerprint,
            (#[trigger] peers[k]).fingerprint,
        ) by {
            if k < rest.len() {
                assert(rest[k] == peers[k]);
            }
        }
    }
}

proof fn lemma_before_is_total(left: Seq<u8>, right: Seq<u8>)
    requires
        left != right,
    ensures
        bytes::bytes_before(left, right) || bytes::bytes_before(right, left),
    decreases left.len(),
{
    if left.len() == 0 || right.len() == 0 {
        if left.len() == 0 && right.len() == 0 {
            assert(left =~= right);
        }
    } else if left[0] == right[0] {
        if left.skip(1) == right.skip(1) {
            assert(left =~= seq![left[0]] + left.skip(1));
            assert(right =~= seq![right[0]] + right.skip(1));
        }
        lemma_before_is_total(left.skip(1), right.skip(1));
    }
}

proof fn lemma_before_is_transitive(first: Seq<u8>, second: Seq<u8>, third: Seq<u8>)
    requires
        bytes::bytes_before(first, second),
        bytes::bytes_before(second, third),
    ensures
        bytes::bytes_before(first, third),
    decreases first.len(),
{
    if first.len() > 0 && third.len() > 0 && second.len() > 0 {
        if first[0] == second[0] && second[0] == third[0] {
            lemma_before_is_transitive(first.skip(1), second.skip(1), third.skip(1));
        }
    }
}

/// A device that was not among ordered ones and is put at its rank keeps the order.
pub proof fn lemma_insertion_keeps_order(peers: Seq<PeerView>, peer: PeerView)
    requires
        ordered(peers),
        !knows(peers, peer.fingerprint),
    ensures
        ordered(peers.insert(rank(peers, peer.fingerprint) as int, peer)),
{
    let place = rank(peers, peer.fingerprint) as int;
    lemma_rank_bound(peers, peer.fingerprint);
    let longer = peers.insert(place, peer);
    assert forall|j: int, k: int| 0 <= j < k < longer.len() implies bytes::bytes_before(
        (#[trigger] longer[j]).fingerprint,
        (#[trigger] longer[k]).fingerprint,
    ) by {
        let before = |m: int| if m < place { m } else { m - 1 };
        if j != place && k != place {
            assert(longer[j] == peers[before(j)]);
            assert(longer[k] == peers[before(k)]);
        } else if j == place {
            assert(longer[k] == peers[k - 1]);
        } else {
            assert(longer[j] == peers[j]);
            let last = peers[place - 1].fingerprint;
            lemma_before_is_total(last, peer.fingerprint);
            if j < place - 1 {
                lemma_before_is_transitive(peers[j].fingerprint, last, peer.fingerprint);
            }
        }
    }
}

impl PeerList {
    pub closed spec fn all(&self) -> Seq<PeerView> {
        peer_views(self.peers@)
    }

    /// Whether there are no more devices than may be trusted, in the order of their fingerprints,
    /// each of them once.
    pub open spec fn wf(&self) -> bool {
        &&& self.all().len() <= TRUSTED_PEER_LIMIT
        &&& ordered(self.all())
    }

    pub fn new() -> (list: Self)
        ensures
            list.wf(),
            list.all() == Seq::<PeerView>::empty(),
    {
        let list = PeerList { peers: Vec::new() };
        assert(list.all() =~= Seq::<PeerView>::empty());
        list
    }

    /// Adds a device at its place; too many are refused, and so is one that is there already.
    pub fn add(&mut self, peer: TrustedPeer) -> (result: Result<(), Failure>)
        requires
            old(self).wf(),
        ensures
            final(self).wf(),
            match added(old(self).all(), peer@) {
                Ok(peers) => result == Ok::<(), Failure>(()) && final(self).all() == peers,
                Err(ListFault::Form(message)) => {
                    &&& result == Err::<(), Failure>(Failure::invalid(message))
                    &&& final(self).all() == old(self).all()
                },
                Err(_) => false,
            },
    {
        if self.peers.len() >= TRUSTED_PEER_LIMIT {
            return Err(Failure::invalid("trusted peer registry exceeds the limit of 64"));
        }
        if self.knows(peer.fingerprint) {
            return Err(Failure::invalid("trusted peer registry holds a device more than once"));
        }
        let ghost views = self.all();
        let ghost fingerprint = peer@.fingerprint;
        let mut place: usize = self.peers.len();
        assert(views.take(place as int) =~= views);
        while place > 0 && bytes::comes_before(
            &peer.fingerprint.0,
            &self.peers[place - 1].fingerprint.0,
        )
            invariant
                place <= self.peers@.len(),
                self.peers@ == old(self).peers@,
                views == peer_views(self.peers@),
                fingerprint == peer.fingerprint.0@,
                rank(views, fingerprint) == rank(views.take(place as int), fingerprint),
            decreases place,
        {
            proof {
                assert(views.take(place as int).last() == self.peers@[place - 1]@);
                assert(views.take(place as int).drop_last() =~= views.take(place - 1));
            }
            place -= 1;
        }
        proof {
            if place > 0 {
                assert(views.take(place as int).last() == self.peers@[place - 1]@);
            }
            lemma_insertion_keeps_order(views, peer@);
        }
        let ghost added_view = peer@;
        self.peers.insert(place, peer);
        assert(self.all() =~= views.insert(place as int, added_view));
        Ok(())
    }

    /// Whether a device is among the trusted ones.
    pub fn knows(&self, fingerprint: CertificateFingerprint) -> (known: bool)
        ensures
            known == knows(self.all(), fingerprint.0@),
    {
        let ghost views = self.all();
        let mut index: usize = 0;
        while index < self.peers.len()
            invariant
                index <= self.peers@.len(),
                views == peer_views(self.peers@),
                forall|k: int|
                    0 <= k < index ==> (#[trigger] views[k]).fingerprint != fingerprint.0@,
            decreases self.peers@.len() - index,
        {
            let found = self.peers[index].fingerprint;
            assert(views[index as int].fingerprint == found.0@);
            if found == fingerprint {
                return true;
            }
            proof {
                if found.0@ == fingerprint.0@ {
                    assert(found.0 =~= fingerprint.0);
                }
            }
            index += 1;
        }
        false
    }

    pub fn len(&self) -> (count: usize)
        ensures
            count == self.all().len(),
    {
        self.peers.len()
    }

    pub fn peers(&self) -> (peers: &Vec<TrustedPeer>)
        ensures
            peer_views(peers@) == self.all(),
    {
        &self.peers
    }
}

/// The name of a temporary file beside the one that it becomes.
pub open spec fn temporary_text(name: Seq<char>, process: u32, random: u64) -> Seq<char> {
    "."@ + name + "."@ + text::decimal(process as nat) + "."@ + text::hex_text(
        bytes::be_bytes(random as nat, 8),
        false,
    ) + ".tmp"@
}

/// The name of a temporary file beside the one that it becomes.
pub fn temporary_name(name: &str, process: u32, random: u64) -> (temporary: String)
    ensures
        temporary@ == temporary_text(name@, process, random),
{
    proof {
        bytes::lemma_capacity_values();
    }
    let mut digits: Vec<u8> = Vec::new();
    bytes::put_be(&mut digits, random, 8);
    assert(digits@ =~= bytes::be_bytes(random as nat, 8));
    let mut temporary = String::new();
    text::push_text(&mut temporary, ".");
    text::push_text(&mut temporary, name);
    text::push_text(&mut temporary, ".");
    text::push_decimal(&mut temporary, process as u64);
    text::push_text(&mut temporary, ".");
    text::push_hex(&mut temporary, digits.as_slice(), false);
    text::push_text(&mut temporary, ".tmp");
    assert(temporary@ =~= temporary_text(name@, process, random));
    temporary
}

/// How often a temporary file is tried to be created.
pub const TEMPORARY_ATTEMPTS: u32 = 8;

/// What is next after trying to create a temporary file.
#[derive(Clone, Copy, Debug)]
pub enum TemporaryStep {
    /// It is there: write it, and put it in its place.
    Write,
    /// Try another name.
    Retry,
    /// Give up, for the reason that the file system told.
    Fail,
    /// Give up after too many names were taken.
    GiveUp { failure: Failure },
}

/// What is next after `attempts` temporary files were tried to be created, of which the last was,
/// or failed to be for the given reason.
pub fn after_temporary(attempts: u32, failure: Option<FailureKind>) -> (step: TemporaryStep)
    ensures
        step == (match failure {
            None => TemporaryStep::Write,
            Some(FailureKind::AlreadyExists) => if attempts < TEMPORARY_ATTEMPTS {
                TemporaryStep::Retry
            } else {
                TemporaryStep::GiveUp {
                    failure: Failure::new(
                        FailureKind::AlreadyExists,
                        "could not allocate a unique temporary filename",
                    ),
                }
            },
            Some(_) => TemporaryStep::Fail,
        }),
{
    match failure {
        None => TemporaryStep::Write,
        Some(FailureKind::AlreadyExists) => if attempts < TEMPORARY_ATTEMPTS {
            TemporaryStep::Retry
        } else {
            TemporaryStep::GiveUp {
                failure: Failure::new(
                    FailureKind::AlreadyExists,
                    "could not allocate a unique temporary filename",
                ),
            }
        },
        Some(_) => TemporaryStep::Fail,
    }
}

/// What is next after looking for the identity of the device.
#[derive(Clone, Copy, Debug, PartialEq, Eq, Structural)]
pub enum IdentityStep {
    /// The identity is there.
    Use { created: bool },
    /// There is none: create one.
    Create,
    /// Something else failed.
    Fail,
}

/// What is next after the identity was loaded, or failed to be for the given reason.
pub fn after_load(failure: Option<FailureKind>) -> (step: IdentityStep)
    ensures
        step == (match failure {
            None => IdentityStep::Use { created: false },
            Some(FailureKind::NotFound) => IdentityStep::Create,
            Some(_) => IdentityStep::Fail,
        }),
{
    match failure {
        None => IdentityStep::Use { created: false },
        Some(FailureKind::NotFound) => IdentityStep::Create,
        Some(_) => IdentityStep::Fail,
    }
}

/// What is next after a fresh identity was put in its place, or failed to be for the given
/// reason. Where another one got there first, that one is used.
pub fn after_publish(failure: Option<FailureKind>) -> (step: IdentityStep)
    ensures
        step == (match failure {
            None => IdentityStep::Use { created: true },
            Some(FailureKind::AlreadyExists) => IdentityStep::Use { created: false },
            Some(_) => IdentityStep::Fail,
        }),
{
    match failure {
        None => IdentityStep::Use { created: true },
        Some(FailureKind::AlreadyExists) => IdentityStep::Use { created: false },
        Some(_) => IdentityStep::Fail,
    }
}

/// An identity that was encoded decodes to what it was.
pub proof fn lemma_identity_round_trip(certificate: Seq<u8>, private_key: Seq<u8>)
    requires
        certificate_fits(certificate),
        key_fits(private_key),
    ensures
        identity_outcome(identity_bytes(certificate, private_key)) == Ok::<
            (Seq<u8>, Seq<u8>),
            Failure,
        >((certificate, private_key)),
        identity_bytes(certificate, private_key).len() <= IDENTITY_PLAINTEXT_LIMIT,
{
    let encoded = identity_bytes(certificate, private_key);
    bytes::lemma_capacity_values();
    bytes::lemma_le_value_of_bytes(certificate.len(), 4);
    bytes::lemma_le_value_of_bytes(private_key.len(), 4);
    assert(bytes::slice_of(encoded, 0, 8) =~= IDENTITY_MAGIC@);
    assert(bytes::slice_of(encoded, 8, 4) =~= bytes::le_bytes(certificate.len(), 4));
    assert(bytes::slice_of(encoded, 12, 4) =~= bytes::le_bytes(private_key.len(), 4));
    assert(bytes::slice_of(encoded, 16, certificate.len() as int) =~= certificate);
    assert(bytes::slice_of(encoded, 16 + certificate.len() as int, private_key.len() as int)
        =~= private_key);
}

proof fn lemma_trim_start_first(label: Seq<char>)
    ensures
        text::trim_start(label).len() > 0 ==> !text::is_whitespace(text::trim_start(label)[0]),
    decreases label.len(),
{
    if label.len() > 0 && text::is_whitespace(label[0]) {
        lemma_trim_start_first(label.skip(1));
    }
}

proof fn lemma_trim_end_last(label: Seq<char>)
    ensures
        text::trim_end(label).len() <= label.len(),
        text::trim_end(label) == label.take(text::trim_end(label).len() as int),
        text::trim_end(label).len() > 0 ==> !text::is_whitespace(text::trim_end(label).last()),
    decreases label.len(),
{
    if label.len() > 0 && text::is_whitespace(label.last()) {
        let rest = label.drop_last();
        lemma_trim_end_last(rest);
        let kept = text::trim_end(rest).len() as int;
        assert(rest.take(kept) =~= label.take(kept));
    } else {
        assert(label.take(label.len() as int) =~= label);
    }
}

/// A label that was taken is taken as it is when it is read back.
pub proof fn lemma_label_is_stable(label: Seq<char>)
    ensures
        label_of(label) matches Some(taken) ==> label_of(taken) == Some(taken),
{
    let started = text::trim_start(label);
    let taken = text::trimmed(label);
    lemma_trim_start_first(label);
    lemma_trim_end_last(started);
    if taken.len() > 0 {
        assert(taken[0] == started[0]);
        assert(text::trim_start(taken) == taken);
        assert(text::trim_end(taken) == taken);
    }
}

/// The record of a trusted device reads back as it was written, under its own fingerprint.
pub proof fn lemma_record_round_trip(
    certificate: Seq<u8>,
    label: Seq<char>,
    fingerprint: CertificateFingerprint,
)
    requires
        certificate_fits(certificate),
        tls::has_fingerprint(certificate, fingerprint),
        label_of(label) == Some(label),
    ensures
        record_outcome(record_bytes(certificate, label), fingerprint.0@) == Ok::<
            (Seq<u8>, Seq<char>),
            RecordFault,
        >((certificate, label)),
        record_bytes(certificate, label).len() <= TRUST_RECORD_LIMIT,
{
    let encoded = record_bytes(certificate, label);
    let written = encode_utf8(label);
    bytes::lemma_capacity_values();
    bytes::lemma_le_value_of_bytes(certificate.len(), 4);
    bytes::lemma_le_value_of_bytes(written.len(), 2);
    assert(bytes::slice_of(encoded, 0, 8) =~= TRUST_MAGIC@);
    assert(bytes::slice_of(encoded, 8, 4) =~= bytes::le_bytes(certificate.len(), 4));
    assert(bytes::slice_of(encoded, 12, 2) =~= bytes::le_bytes(written.len(), 2));
    assert(bytes::slice_of(encoded, 14, certificate.len() as int) =~= certificate);
    assert(bytes::slice_of(encoded, 14 + certificate.len() as int, written.len() as int)
        =~= written);
    encode_utf8_valid_utf8(label);
    encode_utf8_decode_utf8(label);
}

/// A device that was trusted is found again in the record that is kept of it.
pub proof fn lemma_trusted_peer_reloads(
    local: CertificateFingerprint,
    certificate: Seq<u8>,
    expected: CertificateFingerprint,
    label: Seq<char>,
    known: Seq<PeerView>,
)
    ensures
        trust_outcome(local, certificate, expected, label, known) matches Ok(kept)
            ==> record_outcome(record_bytes(certificate, kept), expected.0@) == Ok::<
            (Seq<u8>, Seq<char>),
            RecordFault,
        >((certificate, kept)),
{
    if let Ok(kept) = trust_outcome(local, certificate, expected, label, known) {
        lemma_label_is_stable(label);
        lemma_record_round_trip(certificate, kept, expected);
    }
}

/// A record under the name of another device is refused.
pub proof fn lemma_misplaced_record_is_refused(
    certificate: Seq<u8>,
    label: Seq<char>,
    fingerprint: CertificateFingerprint,
)
    requires
        certificate_fits(certificate),
        label_of(label) == Some(label),
        !tls::has_fingerprint(certificate, fingerprint),
    ensures
        record_outcome(record_bytes(certificate, label), fingerprint.0@) == Err::<
            (Seq<u8>, Seq<char>),
            RecordFault,
        >(RecordFault::Fingerprint),
{
    let encoded = record_bytes(certificate, label);
    let written = encode_utf8(label);
    bytes::lemma_capacity_values();
    bytes::lemma_le_value_of_bytes(certificate.len(), 4);
    bytes::lemma_le_value_of_bytes(written.len(), 2);
    assert(bytes::slice_of(encoded, 0, 8) =~= TRUST_MAGIC@);
    assert(bytes::slice_of(encoded, 8, 4) =~= bytes::le_bytes(certificate.len(), 4));
    assert(bytes::slice_of(encoded, 12, 2) =~= bytes::le_bytes(written.len(), 2));
    assert(bytes::slice_of(encoded, 14, certificate.len() as int) =~= certificate);
}

/// The name of a record tells the fingerprint that it was made of.
pub proof fn lemma_record_name_round_trip(fingerprint: CertificateFingerprint)
    ensures
        security::compact_digits(text::hex_text(fingerprint.0@, false)),
        security::digit_bytes(text::hex_text(fingerprint.0@, false)) == fingerprint.0@,
{
    security::lemma_digits_round_trip(fingerprint.0@, false);
}

/// The file that a device is kept in once it is trusted.
pub open spec fn peer_file_view(peer: PeerView) -> PeerFileView {
    PeerFileView {
        name: Some(text::hex_text(peer.fingerprint, false)),
        record: record_bytes(peer.certificate, peer.label),
    }
}

/// A list holds one device for each file, at most 64, in strictly ascending order of their
/// fingerprints.
pub proof fn lemma_list_is_complete(files: Seq<PeerFileView>)
    ensures
        listed(files) matches Ok(peers) ==> {
            &&& peers.len() == files.len() <= TRUSTED_PEER_LIMIT
            &&& ordered(peers)
            &&& forall|k: int|
                0 <= k < files.len() ==> {
                    &&& file_peer(#[trigger] files[k]) matches Ok(peer)
                    &&& peers.contains(peer)
                }
        },
    decreases files.len(),
{
    if files.len() > 0 && listed(files) is Ok {
        let rest = files.drop_last();
        lemma_list_is_complete(rest);
        let before = listed(rest)->Ok_0;
        let peer = file_peer(files.last())->Ok_0;
        let peers = listed(files)->Ok_0;
        let place = rank(before, peer.fingerprint) as int;
        lemma_rank_bound(before, peer.fingerprint);
        lemma_insertion_keeps_order(before, peer);
        assert(peers[place] == peer);
        assert forall|k: int| 0 <= k < files.len() implies {
            &&& file_peer(#[trigger] files[k]) matches Ok(peer)
            &&& peers.contains(peer)
        } by {
            if k < rest.len() {
                assert(rest[k] == files[k]);
                let found = file_peer(files[k])->Ok_0;
                let m = choose|m: int| 0 <= m < before.len() && before[m] == found;
                assert(peers[if m < place { m } else { m + 1 }] == found);
            }
        }
    }
}

/// Two files with records of one device are never listed.
pub proof fn lemma_second_record_is_refused(files: Seq<PeerFileView>, first: int, second: int)
    requires
        0 <= first < second < files.len(),
        file_peer(files[first]) is Ok,
        file_peer(files[second]) is Ok,
        file_peer(files[first])->Ok_0.fingerprint == file_peer(files[second])->Ok_0.fingerprint,
    ensures
        listed(files) is Err,
{
    if listed(files) is Ok {
        let before = files.take(second);
        let upto = files.take(second + 1);
        lemma_fault_stays(files, second + 1);
        assert(upto.drop_last() =~= before);
        assert(upto.last() == files[second]);
        lemma_list_is_complete(before);
        assert(before[first] == files[first]);
        let peers = listed(before)->Ok_0;
        let found = file_peer(files[first])->Ok_0;
        let m = choose|m: int| 0 <= m < peers.len() && peers[m] == found;
        assert(knows(peers, file_peer(files[second])->Ok_0.fingerprint)) by {
            assert(peers[m].fingerprint == found.fingerprint);
        }
    }
}

/// A device that was trusted is in the list that the records give from then on, and trusting it
/// once more is refused.
pub proof fn lemma_trusted_peer_is_listed(
    files: Seq<PeerFileView>,
    local: CertificateFingerprint,
    certificate: Seq<u8>,
    expected: CertificateFingerprint,
    label: Seq<char>,
    again: Seq<char>,
)
    requires
        listed(files) is Ok,
    ensures
        ({
            let known = listed(files)->Ok_0;
            trust_outcome(local, certificate, expected, label, known) matches Ok(kept) ==> {
                let peer = PeerView { fingerprint: expected.0@, label: kept, certificate };
                let more = known.insert(rank(known, expected.0@) as int, peer);
                &&& listed(files.push(peer_file_view(peer))) == Ok::<Seq<PeerView>, ListFault>(more)
                &&& trust_outcome(local, certificate, expected, again, more) is Err
            }
        }),
{
    let known = listed(files)->Ok_0;
    if let Ok(kept) = trust_outcome(local, certificate, expected, label, known) {
        let peer = PeerView { fingerprint: expected.0@, label: kept, certificate };
        let place = rank(known, expected.0@) as int;
        let more = known.insert(place, peer);
        let longer = files.push(peer_file_view(peer));
        lemma_trusted_peer_reloads(local, certificate, expected, label, known);
        lemma_record_name_round_trip(expected);
        lemma_rank_bound(known, expected.0@);
        assert(longer.drop_last() =~= files);
        assert(longer.last() == peer_file_view(peer));
        assert(more[place] == peer);
        assert(knows(more, expected.0@));
    }
}

/// What is kept has its limits: 64 devices, labels of 128 bytes, records of 72 KiB, protected identities
/// of 256 KiB, and eight names for a temporary file.
pub proof fn lemma_limits_of_records()
    ensures
        TRUSTED_PEER_LIMIT == 64,
        LABEL_BYTE_LIMIT == 128,
        TRUST_RECORD_LIMIT == 72 * 1024,
        IDENTITY_PROTECTED_LIMIT == 256 * 1024,
        IDENTITY_PLAINTEXT_LIMIT == 2 * 64 * 1024 + 16,
        TEMPORARY_ATTEMPTS == 8,
{
}

} // verus!
