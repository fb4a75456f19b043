//! Device identities, and connections on which both sides prove theirs.

use crate::bytes;
use crate::failure::{Failure, FailureKind};
use crate::security;
use crate::security::CertificateFingerprint;
use crate::text;
use vstd::prelude::*;

verus! {

/// Longest certificate that is taken.
pub const CERTIFICATE_LIMIT: usize = 65_536;

/// Longest private key that is taken.
pub const PRIVATE_KEY_LIMIT: usize = 65_536;

/// The name for which every device has its certificate.
pub const SERVER_NAME: &'static str = "clipferry.local";

/// The number of version 1.3 of TLS on the wire.
pub const TLS13_NUMBER: u16 = 0x0304;

/// The application protocol that both sides must agree on: `clipferry/1`.
pub const ALPN_PROTOCOL: [u8; 11] = [
    0x63, 0x6c, 0x69, 0x70, 0x66, 0x65, 0x72, 0x72, 0x79, 0x2f, 0x31,
];

/// A set of trust anchors of the rustls crate.
#[verifier::external_type_specification]
#[verifier::external_body]
pub struct ExRootCertStore(rustls::RootCertStore);

/// The settings of connecting sides in the rustls crate.
#[verifier::external_type_specification]
#[verifier::external_body]
pub struct ExClientConfig(rustls::ClientConfig);

/// The settings of accepting sides in the rustls crate.
#[verifier::external_type_specification]
#[verifier::external_body]
pub struct ExServerConfig(rustls::ServerConfig);

/// The trust anchor that a certificate gives; nothing where it is not a certificate.
pub uninterp spec fn anchor_of(certificate: Seq<u8>) -> Option<Seq<u8>>;

/// The trust anchors that a set holds, in the order in which they were added.
pub uninterp spec fn anchors(roots: rustls::RootCertStore) -> Seq<Seq<u8>>;

/// A version of TLS in the rustls crate.
#[verifier::external_type_specification]
#[verifier::external_body]
pub struct ExSupportedProtocolVersion(rustls::SupportedProtocolVersion);

/// The number that a version of TLS has on the wire.
pub uninterp spec fn version_number(version: rustls::SupportedProtocolVersion) -> u16;

/// Whether bytes are a private key in PKCS#8 of a kind that can sign.
pub uninterp spec fn key_parses(private_key: Seq<u8>) -> bool;

/// Whether the settings of a connecting side can be made of a certificate, a private key, trust
/// anchors and versions.
pub uninterp spec fn client_config_accepted(
    certificate: Seq<u8>,
    private_key: Seq<u8>,
    anchors: Seq<Seq<u8>>,
    versions: Seq<u16>,
) -> bool;

/// Whether the settings of an accepting side can be made of a certificate, a private key, trust
/// anchors and versions.
pub uninterp spec fn server_config_accepted(
    certificate: Seq<u8>,
    private_key: Seq<u8>,
    anchors: Seq<Seq<u8>>,
    versions: Seq<u16>,
) -> bool;

/// What the settings of a connection are made of: the certificate that is shown and its private
/// key, the trust anchors that the other side is held to, the versions of TLS and the application
/// protocol that are offered, and whether data may come before the handshake is over.
pub struct TlsSettings {
    pub certificate: Seq<u8>,
    pub private_key: Seq<u8>,
    pub anchors: Seq<Seq<u8>>,
    pub versions: Seq<u16>,
    pub alpn: Seq<u8>,
    pub early_data: bool,
}

/// What the settings of a connecting side hold.
pub uninterp spec fn client_settings(config: rustls::ClientConfig) -> TlsSettings;

/// What the settings of an accepting side hold.
pub uninterp spec fn server_settings(config: rustls::ServerConfig) -> TlsSettings;

/// `RootCertStore::empty` of the rustls crate: a set without anchors.
#[verifier::external_body]
pub(crate) fn empty_roots() -> (roots: rustls::RootCertStore)
    ensures
        anchors(roots) == Seq::<Seq<u8>>::empty(),
{
    rustls::RootCertStore::empty()
}

/// `RootCertStore::add` of the rustls crate: gives the set with the anchor of a certificate at the
/// end, or refuses the certificate. What the refusal says is not stated.
#[verifier::external_body]
pub(crate) fn add_root(roots: rustls::RootCertStore, certificate: &[u8]) -> (result: Result<
    rustls::RootCertStore,
    String,
>)
    ensures
        match anchor_of(certificate@) {
            Some(anchor) => result matches Ok(more) && anchors(more) == anchors(roots).push(anchor),
            None => result is Err,
        },
{
    let mut more = roots;
    more.add(certificate.into()).map_err(|error| error.to_string())?;
    Ok(more)
}

/// `rustls::version::TLS13` of the rustls crate: version 1.3.
#[verifier::external_body]
pub(crate) fn tls13() -> (version: &'static rustls::SupportedProtocolVersion)
    ensures
        version_number(*version) == TLS13_NUMBER,
{
    &rustls::version::TLS13
}

/// The numbers of versions.
pub open spec fn version_numbers(versions: Seq<&'static rustls::SupportedProtocolVersion>) -> Seq<
    u16,
> {
    versions.map_values(
        |version: &'static rustls::SupportedProtocolVersion| version_number(*version),
    )
}

/// `any_supported_type` of the ring provider of the rustls crate: takes nothing but a private key
/// that it can parse. That it takes every such key is not claimed, as it asks the system for
/// randomness, and what a refusal says is not stated.
#[verifier::external_body]
pub(crate) fn parse_key(private_key: &[u8]) -> (result: Result<(), String>)
    ensures
        result is Ok ==> key_parses(private_key@),
{
    let key = rustls::pki_types::PrivatePkcs8KeyDer::from(private_key.to_vec());
    rustls::crypto::ring::sign::any_supported_type(&key.into())
        .map(|_| ())
        .map_err(|error| error.to_string())
}

/// `ConfigBuilder::with_client_auth_cert` of the rustls crate, with the ring provider and the
/// given anchors, versions, application protocol and choice of early data: takes nothing but what
/// fits together, and the settings hold all that was given. That it takes everything that fits is
/// not claimed, as parsing a key asks the system for randomness. What a refusal says is not
/// stated.
#[verifier::external_body]
pub(crate) fn client_config(
    certificate: &[u8],
    private_key: &[u8],
    roots: rustls::RootCertStore,
    versions: &[&'static rustls::SupportedProtocolVersion],
    alpn: &[u8],
    early_data: bool,
) -> (result: Result<rustls::ClientConfig, String>)
    ensures
        result is Ok ==> client_config_accepted(
            certificate@,
            private_key@,
            anchors(roots),
            version_numbers(versions@),
        ),
        result matches Ok(config) ==> client_settings(config) == (TlsSettings {
            certificate: certificate@,
            private_key: private_key@,
            anchors: anchors(roots),
            versions: version_numbers(versions@),
            alpn: alpn@,
            early_data,
        }),
{
    let provider = std::sync::Arc::new(rustls::crypto::ring::default_provider());
    let key = rustls::pki_types::PrivatePkcs8KeyDer::from(private_key.to_vec());
    let mut config = rustls::ClientConfig::builder_with_provider(provider)
        .with_protocol_versions(versions)
        .map_err(|error| error.to_string())?
        .with_root_certificates(roots)
        .with_client_auth_cert(vec![certificate.to_vec().into()], key.into())
        .map_err(|error| error.to_string())?;
    config.alpn_protocols = vec![alpn.to_vec()];
    config.enable_early_data = early_data;
    Ok(config)
}

/// `ConfigBuilder::with_single_cert` of the rustls crate, with the ring provider, a verifier that
/// asks every client for a certificate of one of the anchors, and the given versions, application
/// protocol and limit of early data: takes nothing but what fits together, which no settings
/// without anchors do, and the settings hold all that was given. That it takes everything that
/// fits is not claimed, as parsing a key asks the system for randomness. What a refusal says is
/// not stated.
#[verifier::external_body]
pub(crate) fn server_config(
    certificate: &[u8],
    private_key: &[u8],
    roots: rustls::RootCertStore,
    versions: &[&'static rustls::SupportedProtocolVersion],
    alpn: &[u8],
    max_early_data: u32,
) -> (result: Result<rustls::ServerConfig, String>)
    ensures
        result is Ok ==> server_config_accepted(
            certificate@,
            private_key@,
            anchors(roots),
            version_numbers(versions@),
        ),
        result matches Ok(config) ==> server_settings(config) == (TlsSettings {
            certificate: certificate@,
            private_key: private_key@,
            anchors: anchors(roots),
            versions: version_numbers(versions@),
            alpn: alpn@,
            early_data: max_early_data > 0,
        }),
        anchors(roots).len() == 0 ==> result is Err,
{
    let ring = std::sync::Arc::new(rustls::crypto::ring::default_provider());
    let key = rustls::pki_types::PrivatePkcs8KeyDer::from(private_key.to_vec());
    let verifier =
        rustls::server::WebPkiClientVerifier::builder_with_provider(roots.into(), ring.clone())
            .build()
            .map_err(|error| error.to_string())?;
    let mut config = rustls::ServerConfig::builder_with_provider(ring)
        .with_protocol_versions(versions)
        .map_err(|error| error.to_string())?
        .with_client_cert_verifier(verifier)
        .with_single_cert(vec![certificate.to_vec().into()], key.into())
        .map_err(|error| error.to_string())?;
    config.alpn_protocols = vec![alpn.to_vec()];
    config.max_early_data_size = max_early_data;
    Ok(config)
}

/// `rcgen::generate_simple_self_signed` of the rcgen crate: a fresh key pair with a certificate
/// that it signs itself, both in DER. Nothing is claimed of either.
#[verifier::external_body]
pub(crate) fn self_signed(name: &str) -> (generated: Result<(Vec<u8>, Vec<u8>), String>) {
    let made = rcgen::generate_simple_self_signed([name.to_owned()]);
    let made = made.map_err(|error| error.to_string())?;
    Ok((made.cert.der().as_ref().to_vec(), made.signing_key.serialize_der()))
}

/// `Zeroize::zeroize` of the zeroize crate: overwrites what a vector holds and leaves it empty.
#[verifier::external_body]
pub(crate) fn wipe(secret: &mut Vec<u8>)
    ensures
        final(secret)@ == Seq::<u8>::empty(),
{
    zeroize::Zeroize::zeroize(secret)
}

/// Why a certificate, a connection or a record is refused.
#[derive(Debug)]
pub enum TrustFailure {
    /// For a reason that can be told in advance.
    Refused { failure: Failure },
    /// A certificate has another fingerprint than the expected one.
    WrongPeer { expected: CertificateFingerprint, actual: CertificateFingerprint },
    /// A record holds a certificate with another fingerprint than its name says.
    WrongRecord { expected: CertificateFingerprint, actual: CertificateFingerprint },
    /// A device speaks another version of the pairing protocol.
    WrongVersion { version: u16 },
    /// The cryptographic library refused.
    Cryptography { detail: String },
    /// No nonce could be drawn.
    Randomness { detail: String },
}

impl TrustFailure {
    /// The class of the failure.
    pub fn kind(&self) -> (kind: FailureKind)
        ensures
            kind == (match *self {
                TrustFailure::Refused { failure } => failure.kind,
                TrustFailure::Randomness { .. } => FailureKind::Other,
                _ => FailureKind::InvalidData,
            }),
    {
        match self {
            TrustFailure::Refused { failure } => failure.kind,
            TrustFailure::Randomness { .. } => FailureKind::Other,
            _ => FailureKind::InvalidData,
        }
    }

    /// The sentence that a log shows.
    pub open spec fn sentence(self) -> Seq<char> {
        match self {
            TrustFailure::Refused { failure } => failure.message@,
            TrustFailure::WrongPeer { expected, actual } =>
                "peer certificate fingerprint mismatch: expected "@ + security::fingerprint_text(
                    expected.0@,
                ) + ", got "@ + security::fingerprint_text(actual.0@),
            TrustFailure::WrongRecord { expected, actual } =>
                "trusted peer record fingerprint mismatch: filename "@
                    + security::fingerprint_text(expected.0@) + ", certificate "@
                    + security::fingerprint_text(actual.0@),
            TrustFailure::WrongVersion { version } => "unsupported pairing version "@
                + text::decimal(version as nat),
            TrustFailure::Cryptography { detail } => detail@,
            TrustFailure::Randomness { detail } => "random nonce generation failed: "@ + detail@,
        }
    }

    /// The sentence that a log shows.
    pub fn message(&self) -> (message: String)
        ensures
            message@ == self.sentence(),
    {
        let mut message = String::new();
        match self {
            TrustFailure::Refused { failure } => {
                text::push_text(&mut message, failure.message);
            },
            TrustFailure::WrongPeer { expected, actual } => {
                text::push_text(&mut message, "peer certificate fingerprint mismatch: expected ");
                text::push_text(&mut message, expected.to_text().as_str());
                text::push_text(&mut message, ", got ");
                text::push_text(&mut message, actual.to_text().as_str());
            },
            TrustFailure::WrongRecord { expected, actual } => {
                text::push_text(
                    &mut message,
                    "trusted peer record fingerprint mismatch: filename ",
                );
                text::push_text(&mut message, expected.to_text().as_str());
                text::push_text(&mut message, ", certificate ");
                text::push_text(&mut message, actual.to_text().as_str());
            },
            TrustFailure::WrongVersion { version } => {
                text::push_text(&mut message, "unsupported pairing version ");
                text::push_decimal(&mut message, *version as u64);
            },
            TrustFailure::Cryptography { detail } => {
                text::push_text(&mut message, detail.as_str());
            },
            TrustFailure::Randomness { detail } => {
                text::push_text(&mut message, "random nonce generation failed: ");
                text::push_text(&mut message, detail.as_str());
            },
        }
        assert(message@ =~= self.sentence());
        message
    }
}

fn refused(message: &'static str) -> (failure: TrustFailure)
    ensures
        failure == (TrustFailure::Refused { failure: Failure::invalid(message) }),
{
    TrustFailure::Refused { failure: Failure::invalid(message) }
}

/// Whether a call of `parse_key` can have refused a private key for this reason.
pub closed spec fn key_refused(private_key: Seq<u8>, reason: String) -> bool {
    exists|given: &[u8]| #[trigger] given@ == private_key && call_ensures(
        parse_key,
        (given,),
        Err::<(), String>(reason),
    )
}

/// Whether a call of `add_root` can have refused a certificate for this reason.
pub closed spec fn anchor_refused(certificate: Seq<u8>, reason: String) -> bool {
    exists|roots: rustls::RootCertStore, given: &[u8]|
        #![trigger anchors(roots), given@]
        given@ == certificate && call_ensures(
            add_root,
            (roots, given),
            Err::<rustls::RootCertStore, String>(reason),
        )
}

/// Whether a call of `client_config` can have refused to make these settings for this reason.
pub closed spec fn client_refused(settings: TlsSettings, reason: String) -> bool {
    exists|
        certificate: &[u8],
        private_key: &[u8],
        roots: rustls::RootCertStore,
        versions: &[&'static rustls::SupportedProtocolVersion],
        alpn: &[u8],
    |
        #![trigger certificate@, private_key@, anchors(roots), version_numbers(versions@), alpn@]
        {
            &&& certificate@ == settings.certificate
            &&& private_key@ == settings.private_key
            &&& anchors(roots) == settings.anchors
            &&& version_numbers(versions@) == settings.versions
            &&& alpn@ == settings.alpn
            &&& call_ensures(
                client_config,
                (certificate, private_key, roots, versions, alpn, settings.early_data),
                Err::<rustls::ClientConfig, String>(reason),
            )
        }
}

/// Whether a call of `server_config` can have refused to make these settings for this reason.
pub closed spec fn server_refused(settings: TlsSettings, reason: String) -> bool {
    exists|
        certificate: &[u8],
        private_key: &[u8],
        roots: rustls::RootCertStore,
        versions: &[&'static rustls::SupportedProtocolVersion],
        alpn: &[u8],
    |
        #![trigger certificate@, private_key@, anchors(roots), version_numbers(versions@), alpn@]
        {
            &&& certificate@ == settings.certificate
            &&& private_key@ == settings.private_key
            &&& anchors(roots) == settings.anchors
            &&& version_numbers(versions@) == settings.versions
            &&& alpn@ == settings.alpn
            &&& !settings.early_data
            &&& call_ensures(
                server_config,
                (certificate, private_key, roots, versions, alpn, 0u32),
                Err::<rustls::ServerConfig, String>(reason),
            )
        }
}

/// A certificate with its private key, both in DER, and the fingerprint of the certificate.
#[derive(Debug)]
pub struct TlsIdentity {
    certificate: Vec<u8>,
    private_key: Vec<u8>,
    fingerprint: CertificateFingerprint,
}

impl TlsIdentity {
    pub closed spec fn spec_certificate(&self) -> Seq<u8> {
        self.certificate@
    }

    pub closed spec fn spec_private_key(&self) -> Seq<u8> {
        self.private_key@
    }

    pub closed spec fn spec_fingerprint(&self) -> CertificateFingerprint {
        self.fingerprint
    }

    /// Whether the fingerprint is that of the certificate.
    pub open spec fn wf(&self) -> bool {
        self.spec_fingerprint().0@ == security::sha256(self.spec_certificate())
    }

    /// The settings of every connection of a device that is held to some trust anchors: version 1.3
    /// of TLS, one application protocol, and no data before the handshake is over.
    pub open spec fn settings(&self, anchors: Seq<Seq<u8>>) -> TlsSettings {
        TlsSettings {
            certificate: self.spec_certificate(),
            private_key: self.spec_private_key(),
            anchors,
            versions: seq![TLS13_NUMBER],
            alpn: ALPN_PROTOCOL@,
            early_data: false,
        }
    }

    /// The identity of a certificate and a private key.
    pub fn from_der(certificate: Vec<u8>, private_key: Vec<u8>) -> (result: Result<
        Self,
        TrustFailure,
    >)
        ensures
            match result {
                Ok(identity) => {
                    &&& certificate@.len() > 0 && private_key@.len() > 0
                    &&& identity.wf()
                    &&& identity.spec_certificate() == certificate@
                    &&& identity.spec_private_key() == private_key@
                },
                Err(failure) => (certificate@.len() == 0 || private_key@.len() == 0) && failure == (
                TrustFailure::Refused {
                    failure: Failure::invalid("certificate and private key must not be empty"),
                }),
            },
    {
        if certificate.len() == 0 || private_key.len() == 0 {
            return Err(refused("certificate and private key must not be empty"));
        }
        let fingerprint = CertificateFingerprint::from_certificate(certificate.as_slice());
        Ok(TlsIdentity { certificate, private_key, fingerprint })
    }

    /// The identity of a certificate and a private key that can be parsed as such.
    pub fn parse(certificate: Vec<u8>, private_key: Vec<u8>) -> (result: Result<
        Self,
        TrustFailure,
    >)
        ensures
            match result {
                Ok(identity) => {
                    &&& certificate@.len() > 0 && private_key@.len() > 0
                    &&& anchor_of(certificate@) is Some
                    &&& key_parses(private_key@)
                    &&& identity.wf()
                    &&& identity.spec_certificate() == certificate@
                    &&& identity.spec_private_key() == private_key@
                },
                Err(failure) => if certificate@.len() == 0 || private_key@.len() == 0 {
                    failure == (TrustFailure::Refused {
                        failure: Failure::invalid("certificate and private key must not be empty"),
                    })
                } else {
                    &&& failure matches TrustFailure::Cryptography { detail }
                    &&& if anchor_of(certificate@) is Some {
                        key_refused(private_key@, detail)
                    } else {
                        anchor_refused(certificate@, detail)
                    }
                },
            },
    {
        if certificate.len() > 0 && private_key.len() > 0 {
            let roots = empty_roots();
            assert(anchors(roots) == Seq::<Seq<u8>>::empty());
            let extend = add_root;
            match extend(roots, certificate.as_slice()) {
                Err(detail) => {
                    return Err(TrustFailure::Cryptography { detail });
                },
                Ok(_) => {},
            }
            let parse = parse_key;
            match parse(private_key.as_slice()) {
                Err(detail) => {
                    return Err(TrustFailure::Cryptography { detail });
                },
                Ok(_) => {},
            }
        }
        TlsIdentity::from_der(certificate, private_key)
    }

    pub fn fingerprint(&self) -> (fingerprint: CertificateFingerprint)
        ensures
            fingerprint == self.spec_fingerprint(),
    {
        self.fingerprint
    }

    pub fn certificate_der(&self) -> (certificate: &[u8])
        ensures
            certificate@ == self.spec_certificate(),
    {
        self.certificate.as_slice()
    }
}

/// Whether a call of `self_signed` for a name can have given this.
pub closed spec fn issued(name: &str, generated: Result<(Vec<u8>, Vec<u8>), String>) -> bool {
    call_ensures(self_signed, (name,), generated)
}

/// A fresh certificate for the name of every device and its private key, both in DER, as they
/// were issued; where none were, the reason that was told. Nothing is claimed of the bytes.
pub fn generate_identity_der() -> (generated: Result<(Vec<u8>, Vec<u8>), TrustFailure>)
    ensures
        match generated {
            Ok(pair) => issued(SERVER_NAME, Ok(pair)),
            Err(failure) => failure matches TrustFailure::Cryptography { detail } && issued(
                SERVER_NAME,
                Err(detail),
            ),
        },
{
    let issue = self_signed;
    match issue(SERVER_NAME) {
        Ok(pair) => Ok(pair),
        Err(detail) => Err(TrustFailure::Cryptography { detail }),
    }
}

/// Whether a certificate has a fingerprint.
pub open spec fn has_fingerprint(certificate: Seq<u8>, expected: CertificateFingerprint) -> bool {
    security::sha256(certificate) == expected.0@
}

/// Checks that a certificate has the expected fingerprint.
pub fn verify_peer_pin(certificate: &[u8], expected: CertificateFingerprint) -> (result: Result<
    (),
    TrustFailure,
>)
    ensures
        match result {
            Ok(_) => has_fingerprint(certificate@, expected),
            Err(failure) => {
                &&& !has_fingerprint(certificate@, expected)
                &&& failure matches TrustFailure::WrongPeer { expected: told, actual }
                    && told == expected && has_fingerprint(certificate@, actual)
            },
        },
{
    let actual = CertificateFingerprint::from_certificate(certificate);
    if actual != expected {
        proof {
            if has_fingerprint(certificate@, expected) {
                assert(actual.0 =~= expected.0);
            }
        }
        return Err(TrustFailure::WrongPeer { expected, actual });
    }
    Ok(())
}

/// Checks the length of a file that is read as a whole.
pub fn check_bounded(length: u64, limit: usize) -> (within: bool)
    ensures
        within == (0 < length <= limit),
{
    length > 0 && length <= limit as u64
}

/// Checks a certificate that was read from a file: its length, and that it has the expected
/// fingerprint.
pub fn load_and_verify_peer_certificate(
    certificate: Vec<u8>,
    expected: CertificateFingerprint,
) -> (result: Result<Vec<u8>, TrustFailure>)
    ensures
        match result {
            Ok(same) => {
                &&& 0 < certificate@.len() <= CERTIFICATE_LIMIT
                &&& has_fingerprint(certificate@, expected)
                &&& same@ == certificate@
            },
            Err(failure) => if !(0 < certificate@.len() <= CERTIFICATE_LIMIT) {
                failure == (TrustFailure::Refused {
                    failure: Failure::invalid(
                        "peer certificate length must be between 1 and 65536 bytes",
                    ),
                })
            } else {
                &&& !has_fingerprint(certificate@, expected)
                &&& failure matches TrustFailure::WrongPeer { expected: told, actual }
                    && told == expected && has_fingerprint(certificate@, actual)
            },
        },
{
    if !check_bounded(certificate.len() as u64, CERTIFICATE_LIMIT) {
        return Err(refused("peer certificate length must be between 1 and 65536 bytes"));
    }
    match verify_peer_pin(certificate.as_slice(), expected) {
        Err(failure) => Err(failure),
        Ok(_) => Ok(certificate),
    }
}

/// The connecting side of connections to one device. Times are in nanoseconds.
pub struct PinnedTlsClient {
    pub config: rustls::ClientConfig,
    pub expected_peer: CertificateFingerprint,
    pub timeout: u64,
}

/// The accepting side of connections from one device. Times are in nanoseconds.
pub struct PinnedTlsServer {
    pub config: rustls::ServerConfig,
    pub expected_peer: CertificateFingerprint,
    pub timeout: u64,
}

impl PinnedTlsClient {
    /// The connecting side of connections to the device with a certificate, which must have the
    /// expected fingerprint; that certificate is the only one that is trusted.
    pub fn new(
        identity: &TlsIdentity,
        peer_certificate: Vec<u8>,
        expected_peer: CertificateFingerprint,
        timeout: u64,
    ) -> (result: Result<Self, TrustFailure>)
        ensures
            match result {
                Ok(client) => {
                    &&& has_fingerprint(peer_certificate@, expected_peer)
                    &&& anchor_of(peer_certificate@) matches Some(anchor)
                        && client_config_accepted(
                        identity.spec_certificate(),
                        identity.spec_private_key(),
                        seq![anchor],
                        seq![TLS13_NUMBER],
                    )
                    &&& client_settings(client.config) == identity.settings(
                        seq![anchor_of(peer_certificate@)->0],
                    )
                    &&& client.expected_peer == expected_peer
                    &&& client.timeout == timeout
                },
                Err(failure) => if !has_fingerprint(peer_certificate@, expected_peer) {
                    &&& failure matches TrustFailure::WrongPeer { expected, actual }
                    &&& expected == expected_peer
                    &&& has_fingerprint(peer_certificate@, actual)
                } else {
                    &&& failure matches TrustFailure::Cryptography { detail }
                    &&& match anchor_of(peer_certificate@) {
                        Some(anchor) => client_refused(identity.settings(seq![anchor]), detail),
                        None => anchor_refused(peer_certificate@, detail),
                    }
                },
            },
    {
        match verify_peer_pin(peer_certificate.as_slice(), expected_peer) {
            Err(failure) => {
                return Err(failure);
            },
            Ok(_) => {},
        }
        let none = empty_roots();
        assert(anchors(none) == Seq::<Seq<u8>>::empty());
        let extend = add_root;
        let roots = match extend(none, peer_certificate.as_slice()) {
            Err(detail) => {
                return Err(TrustFailure::Cryptography { detail });
            },
            Ok(roots) => roots,
        };
        assert(anchors(roots) =~= seq![anchor_of(peer_certificate@)->0]);
        let versions = [tls13()];
        assert(version_numbers(versions@) =~= seq![TLS13_NUMBER]);
        let configure = client_config;
        match configure(
            identity.certificate.as_slice(),
            identity.private_key.as_slice(),
            roots,
            &versions,
            &ALPN_PROTOCOL,
            false,
        ) {
            Err(detail) => Err(TrustFailure::Cryptography { detail }),
            Ok(config) => Ok(PinnedTlsClient { config, expected_peer, timeout }),
        }
    }

    /// How long one try to connect may take: no longer than any connection may.
    pub fn attempt_timeout(&self, timeout: u64) -> (result: Result<u64, Failure>)
        ensures
            result == if timeout == 0 {
                Err::<u64, Failure>(Failure::invalid("TLS connection timeout must be non-zero"))
            } else if timeout < self.timeout {
                Ok(timeout)
            } else {
                Ok(self.timeout)
            },
    {
        if timeout == 0 {
            return Err(Failure::invalid("TLS connection timeout must be non-zero"));
        }
        if timeout < self.timeout {
            Ok(timeout)
        } else {
            Ok(self.timeout)
        }
    }
}

impl PinnedTlsServer {
    /// The accepting side of connections from the device with a certificate, which must have the
    /// expected fingerprint; that certificate is the only one that is trusted.
    pub fn new(
        identity: &TlsIdentity,
        peer_certificate: Vec<u8>,
        expected_peer: CertificateFingerprint,
        timeout: u64,
    ) -> (result: Result<Self, TrustFailure>)
        ensures
            match result {
                Ok(server) => {
                    &&& has_fingerprint(peer_certificate@, expected_peer)
                    &&& anchor_of(peer_certificate@) matches Some(anchor)
                        && server_config_accepted(
                        identity.spec_certificate(),
                        identity.spec_private_key(),
                        seq![anchor],
                        seq![TLS13_NUMBER],
                    )
                    &&& server_settings(server.config) == identity.settings(
                        seq![anchor_of(peer_certificate@)->0],
                    )
                    &&& server.expected_peer == expected_peer
                    &&& server.timeout == timeout
                },
                Err(failure) => if !has_fingerprint(peer_certificate@, expected_peer) {
                    &&& failure matches TrustFailure::WrongPeer { expected, actual }
                    &&& expected == expected_peer
                    &&& has_fingerprint(peer_certificate@, actual)
                } else {
                    &&& failure matches TrustFailure::Cryptography { detail }
                    &&& match anchor_of(peer_certificate@) {
                        Some(anchor) => server_refused(identity.settings(seq![anchor]), detail),
                        None => anchor_refused(peer_certificate@, detail),
                    }
                },
            },
    {
        match verify_peer_pin(peer_certificate.as_slice(), expected_peer) {
            Err(failure) => {
                return Err(failure);
            },
            Ok(_) => {},
        }
        let none = empty_roots();
        assert(anchors(none) == Seq::<Seq<u8>>::empty());
        let extend = add_root;
        let roots = match extend(none, peer_certificate.as_slice()) {
            Err(detail) => {
                return Err(TrustFailure::Cryptography { detail });
            },
            Ok(roots) => roots,
        };
        assert(anchors(roots) =~= seq![anchor_of(peer_certificate@)->0]);
        let versions = [tls13()];
        assert(version_numbers(versions@) =~= seq![TLS13_NUMBER]);
        let configure = server_config;
        match configure(
            identity.certificate.as_slice(),
            identity.private_key.as_slice(),
            roots,
            &versions,
            &ALPN_PROTOCOL,
            0,
        ) {
            Err(detail) => Err(TrustFailure::Cryptography { detail }),
            Ok(config) => Ok(PinnedTlsServer { config, expected_peer, timeout }),
        }
    }

    pub fn expected_peer(&self) -> (peer: CertificateFingerprint)
        ensures
            peer == self.expected_peer,
    {
        self.expected_peer
    }
}

/// What two sides agreed on, and the certificates that the other side showed.
#[derive(Debug)]
pub struct Negotiated {
    pub tls13: bool,
    pub alpn: Option<Vec<u8>>,
    pub certificates: Option<Vec<Vec<u8>>>,
}

impl Negotiated {
    /// Whether both sides agreed on the application protocol.
    pub open spec fn agreed(&self) -> bool {
        match self.alpn {
            Some(alpn) => alpn@ == ALPN_PROTOCOL@,
            None => false,
        }
    }

    /// Why a connection is refused whoever is on its other side.
    pub open spec fn refusal(&self) -> Option<&'static str> {
        if !self.tls13 {
            Some("TLS 1.3 was not negotiated")
        } else if !self.agreed() {
            Some("ClipFerry ALPN was not negotiated")
        } else {
            match self.certificates {
                None => Some("peer did not provide a certificate"),
                Some(certificates) => if certificates@.len() != 1 {
                    Some("peer certificate chain must contain exactly the pinned certificate")
                } else {
                    None
                },
            }
        }
    }
}

/// The fingerprint of the one certificate that the other side showed.
pub fn negotiated_peer_fingerprint(negotiated: &Negotiated) -> (result: Result<
    CertificateFingerprint,
    TrustFailure,
>)
    ensures
        match result {
            Ok(fingerprint) => negotiated.refusal() is None && has_fingerprint(
                negotiated.certificates->0@[0]@,
                fingerprint,
            ),
            Err(failure) => negotiated.refusal() matches Some(message) && failure == (
            TrustFailure::Refused { failure: Failure::invalid(message) }),
        },
{
    if !negotiated.tls13 {
        return Err(refused("TLS 1.3 was not negotiated"));
    }
    let agreed = match &negotiated.alpn {
        Some(alpn) => bytes::bytes_equal(alpn.as_slice(), &ALPN_PROTOCOL),
        None => false,
    };
    if !agreed {
        return Err(refused("ClipFerry ALPN was not negotiated"));
    }
    match &negotiated.certificates {
        None => Err(refused("peer did not provide a certificate")),
        Some(certificates) => {
            if certificates.len() != 1 {
                return Err(
                    refused("peer certificate chain must contain exactly the pinned certificate"),
                );
            }
            Ok(CertificateFingerprint::from_certificate(certificates[0].as_slice()))
        },
    }
}

/// Checks that the other side of a connection is the expected device.
pub fn verify_negotiated_connection(
    negotiated: &Negotiated,
    expected_peer: CertificateFingerprint,
) -> (result: Result<(), TrustFailure>)
    ensures
        match result {
            Ok(_) => negotiated.refusal() is None && has_fingerprint(
                negotiated.certificates->0@[0]@,
                expected_peer,
            ),
            Err(failure) => match negotiated.refusal() {
                Some(message) => failure == (TrustFailure::Refused {
                    failure: Failure::invalid(message),
                }),
                None => {
                    &&& !has_fingerprint(negotiated.certificates->0@[0]@, expected_peer)
                    &&& failure matches TrustFailure::WrongPeer { expected, actual }
                    &&& expected == expected_peer
                    &&& has_fingerprint(negotiated.certificates->0@[0]@, actual)
                },
            },
        },
{
    let actual = match negotiated_peer_fingerprint(negotiated) {
        Err(failure) => {
            return Err(failure);
        },
        Ok(actual) => actual,
    };
    if actual != expected_peer {
        proof {
            if has_fingerprint(negotiated.certificates->0@[0]@, expected_peer) {
                assert(actual.0 =~= expected_peer.0);
            }
        }
        return Err(TrustFailure::WrongPeer { expected: expected_peer, actual });
    }
    Ok(())
}

/// The accepting side of connections from every trusted device. Times are in nanoseconds.
#[derive(Debug)]
pub struct TrustedTlsServer {
    pub identity: TlsIdentity,
    pub timeout: u64,
}

impl TrustedTlsServer {
    /// Checks how long a step of a connection may take.
    pub fn check_timeout(timeout: u64) -> (result: Result<(), Failure>)
        ensures
            result == if timeout == 0 {
                Err::<(), Failure>(Failure::invalid("TLS timeout must be greater than zero"))
            } else {
                Ok(())
            },
    {
        if timeout == 0 {
            return Err(Failure::invalid("TLS timeout must be greater than zero"));
        }
        Ok(())
    }

    /// The accepting side of a device, whose stored identity must be its own.
    pub fn new(identity: TlsIdentity, stored: CertificateFingerprint, timeout: u64) -> (result:
        Result<Self, Failure>)
        ensures
            match result {
                Ok(server) => {
                    &&& timeout > 0 && stored == identity.spec_fingerprint()
                    &&& server.identity == identity && server.timeout == timeout
                },
                Err(failure) => if timeout == 0 {
                    failure == Failure::invalid("TLS timeout must be greater than zero")
                } else {
                    stored != identity.spec_fingerprint() && failure == Failure::invalid(
                        "TLS identity does not match the device trust store",
                    )
                },
            },
    {
        match Self::check_timeout(timeout) {
            Err(failure) => {
                return Err(failure);
            },
            Ok(_) => {},
        }
        if stored != identity.fingerprint() {
            return Err(Failure::invalid("TLS identity does not match the device trust store"));
        }
        Ok(TrustedTlsServer { identity, timeout })
    }

    /// The settings for one connection: it is trusted by the certificates of the devices that are
    /// trusted now.
    pub fn accept_settings(&self, peers: &[Vec<u8>]) -> (result: Result<
        rustls::ServerConfig,
        TrustFailure,
    >)
        ensures
            match result {
                Ok(config) => {
                    &&& peers@.len() > 0
                    &&& server_settings(config) == self.identity.settings(anchors_of(peers@))
                    &&& forall|k: int| 0 <= k < peers@.len() ==> anchor_of(#[trigger] peers@[k]@) is Some
                    &&& server_config_accepted(
                        self.identity.spec_certificate(),
                        self.identity.spec_private_key(),
                        anchors_of(peers@),
                        seq![TLS13_NUMBER],
                    )
                },
                Err(failure) => if peers@.len() == 0 {
                    failure == (TrustFailure::Refused {
                        failure: Failure::new(
                            FailureKind::PermissionDenied,
                            "no trusted peer is authorized for mutual TLS",
                        ),
                    })
                } else {
                    let first = first_without_anchor(peers@) as int;
                    &&& failure matches TrustFailure::Cryptography { detail }
                    &&& if first < peers@.len() {
                        anchor_refused(peers@[first]@, detail)
                    } else {
                        server_refused(self.identity.settings(anchors_of(peers@)), detail)
                    }
                },
            },
    {
        if peers.len() == 0 {
            return Err(
                TrustFailure::Refused {
                    failure: Failure::new(
                        FailureKind::PermissionDenied,
                        "no trusted peer is authorized for mutual TLS",
                    ),
                },
            );
        }
        let mut roots = empty_roots();
        let mut index: usize = 0;
        assert(anchors_of(peers@.take(0)) =~= Seq::<Seq<u8>>::empty());
        assert(peers@.skip(0) =~= peers@);
        while index < peers.len()
            invariant
                index <= peers@.len(),
                peers@.len() > 0,
                forall|k: int| 0 <= k < index ==> anchor_of(#[trigger] peers@[k]@) is Some,
                anchors(roots) =~= anchors_of(peers@.take(index as int)),
                first_without_anchor(peers@) == index + first_without_anchor(
                    peers@.skip(index as int),
                ),
            decreases peers@.len() - index,
        {
            let extend = add_root;
            match extend(roots, peers[index].as_slice()) {
                Err(detail) => {
                    return Err(TrustFailure::Cryptography { detail });
                },
                Ok(more) => {
                    roots = more;
                },
            }
            assert(peers@.skip(index as int).skip(1) =~= peers@.skip(index + 1));
            assert(anchors_of(peers@.take(index + 1)) =~= anchors_of(
                peers@.take(index as int),
            ).push(anchor_of(peers@[index as int]@)->0));
            index += 1;
        }
        assert(peers@.take(index as int) =~= peers@);
        let versions = [tls13()];
        assert(version_numbers(versions@) =~= seq![TLS13_NUMBER]);
        let configure = server_config;
        match configure(
            self.identity.certificate.as_slice(),
            self.identity.private_key.as_slice(),
            roots,
            &versions,
            &ALPN_PROTOCOL,
            0,
        ) {
            Err(detail) => Err(TrustFailure::Cryptography { detail }),
            Ok(config) => Ok(config),
        }
    }

    /// Checks, after both sides have proved their identities, that the record of the other device
    /// is still there with the certificate that it showed.
    pub fn check_current(shown: &[u8], recorded: &[u8]) -> (result: Result<(), Failure>)
        ensures
            result == if shown@ == recorded@ {
                Ok::<(), Failure>(())
            } else {
                Err(Failure::invalid("trusted peer certificate changed during the TLS handshake"))
            },
    {
        if !bytes::bytes_equal(shown, recorded) {
            return Err(
                Failure::invalid("trusted peer certificate changed during the TLS handshake"),
            );
        }
        Ok(())
    }
}

/// The first of some certificates that gives no trust anchor; past the end where each gives one.
pub open spec fn first_without_anchor(certificates: Seq<Vec<u8>>) -> nat
    decreases certificates.len(),
{
    if certificates.len() == 0 || anchor_of(certificates[0]@) is None {
        0
    } else {
        1 + first_without_anchor(certificates.skip(1))
    }
}

/// The trust anchors of certificates.
pub open spec fn anchors_of(certificates: Seq<Vec<u8>>) -> Seq<Seq<u8>> {
    certificates.map_values(|certificate: Vec<u8>| anchor_of(certificate@)->0)
}

/// A connection is the expected device's exactly where both speak TLS 1.3 and the protocol of this
/// application, and the other side showed one certificate, which has the expected fingerprint.
pub proof fn lemma_connections_that_are_taken(
    negotiated: &Negotiated,
    expected: CertificateFingerprint,
    result: Result<(), TrustFailure>,
)
    requires
        call_ensures(verify_negotiated_connection, (negotiated, expected), result),
    ensures
        result is Ok <==> {
            &&& negotiated.tls13
            &&& negotiated.alpn is Some
            &&& negotiated.alpn->0@ == seq![
                99u8, 108u8, 105u8, 112u8, 102u8, 101u8, 114u8, 114u8, 121u8, 47u8, 49u8,
            ]
            &&& negotiated.certificates is Some
            &&& negotiated.certificates->0@.len() == 1
            &&& security::sha256(negotiated.certificates->0@[0]@) == expected.0@
        },
{
    assert(ALPN_PROTOCOL@ =~= seq![
        99u8, 108u8, 105u8, 112u8, 102u8, 101u8, 114u8, 114u8, 121u8, 47u8, 49u8,
    ]);
}

/// A device that connects is known by the digest of the one certificate that it showed.
pub proof fn lemma_connected_devices_are_known(
    negotiated: &Negotiated,
    result: Result<CertificateFingerprint, TrustFailure>,
)
    requires
        call_ensures(negotiated_peer_fingerprint, (negotiated,), result),
    ensures
        result is Ok <==> negotiated.tls13 && negotiated.alpn is Some && negotiated.alpn->0@ == seq![
            99u8, 108u8, 105u8, 112u8, 102u8, 101u8, 114u8, 114u8, 121u8, 47u8, 49u8,
        ] && negotiated.certificates is Some && negotiated.certificates->0@.len() == 1,
        result matches Ok(peer) ==> peer.0@ == security::sha256(negotiated.certificates->0@[0]@),
{
    assert(ALPN_PROTOCOL@ =~= seq![
        99u8, 108u8, 105u8, 112u8, 102u8, 101u8, 114u8, 114u8, 121u8, 47u8, 49u8,
    ]);
}

/// A device connects as itself, with TLS 1.3 alone, the protocol of this application and no data ahead
/// of the handshake, and trusts nobody but the device that it expects.
pub proof fn lemma_clients_trust_one_device(
    identity: &TlsIdentity,
    certificate: Vec<u8>,
    expected: CertificateFingerprint,
    timeout: u64,
    result: Result<PinnedTlsClient, TrustFailure>,
)
    requires
        call_ensures(PinnedTlsClient::new, (identity, certificate, expected, timeout), result),
    ensures
        result is Ok ==> security::sha256(certificate@) == expected.0@,
        security::sha256(certificate@) != expected.0@ ==> (result matches Err(failure)
            && failure is WrongPeer),
        result matches Ok(client) ==> {
            let settings = client_settings(client.config);
            &&& settings.certificate == identity.spec_certificate()
            &&& settings.private_key == identity.spec_private_key()
            &&& settings.anchors.len() == 1
            &&& Some(settings.anchors[0]) == anchor_of(certificate@)
            &&& settings.versions == seq![0x304u16]
            &&& !settings.early_data
            &&& client.expected_peer == expected
            &&& client.timeout == timeout
        },
{
}

/// A device that is connected to shows itself, takes TLS 1.3 alone and no data ahead of the handshake,
/// and trusts nobody but the device that it expects.
pub proof fn lemma_servers_trust_one_device(
    identity: &TlsIdentity,
    certificate: Vec<u8>,
    expected: CertificateFingerprint,
    timeout: u64,
    result: Result<PinnedTlsServer, TrustFailure>,
)
    requires
        call_ensures(PinnedTlsServer::new, (identity, certificate, expected, timeout), result),
    ensures
        result is Ok ==> security::sha256(certificate@) == expected.0@,
        security::sha256(certificate@) != expected.0@ ==> (result matches Err(failure)
            && failure is WrongPeer),
        result matches Ok(server) ==> {
            let settings = server_settings(server.config);
            &&& settings.certificate == identity.spec_certificate()
            &&& settings.private_key == identity.spec_private_key()
            &&& settings.anchors.len() == 1
            &&& Some(settings.anchors[0]) == anchor_of(certificate@)
            &&& settings.versions == seq![0x304u16]
            &&& !settings.early_data
            &&& server.expected_peer == expected
            &&& server.timeout == timeout
        },
{
}

/// A device that serves those that it trusts holds each connection to one of their certificates; where
/// it trusts nobody, nobody is let in.
pub proof fn lemma_servers_trust_all_of_some(
    server: &TrustedTlsServer,
    peers: &[Vec<u8>],
    result: Result<rustls::ServerConfig, TrustFailure>,
)
    requires
        call_ensures(TrustedTlsServer::accept_settings, (server, peers), result),
    ensures
        peers@.len() == 0 ==> (result matches Err(TrustFailure::Refused { failure })
            && failure.kind is PermissionDenied),
        result matches Ok(config) ==> {
            let settings = server_settings(config);
            &&& settings.anchors.len() == peers@.len()
            &&& forall|k: int|
                0 <= k < peers@.len() ==> Some(#[trigger] settings.anchors[k]) == anchor_of(peers@[k]@)
            &&& settings.versions == seq![0x304u16]
            &&& !settings.early_data
            &&& settings.certificate == server.identity.spec_certificate()
        },
{
    if let Ok(config) = result {
        let settings = server_settings(config);
        assert forall|k: int| 0 <= k < peers@.len() implies Some(#[trigger] settings.anchors[k])
            == anchor_of(peers@[k]@) by {
            assert(anchor_of(peers@[k]@) is Some);
        }
    }
}

/// A certificate from a file is taken where it has 1 to 65536 bytes and the expected fingerprint.
pub proof fn lemma_certificates_that_are_taken(
    certificate: Vec<u8>,
    expected: CertificateFingerprint,
    result: Result<Vec<u8>, TrustFailure>,
)
    requires
        call_ensures(load_and_verify_peer_certificate, (certificate, expected), result),
    ensures
        result is Ok <==> 1 <= certificate@.len() <= 65_536 && security::sha256(certificate@)
            == expected.0@,
        result matches Ok(same) ==> same@ == certificate@,
{
}

/// A connection is tried for as long as is asked for, but no longer than any may take; not at all for
/// no time.
pub proof fn lemma_attempts_end(client: &PinnedTlsClient, timeout: u64, result: Result<u64, Failure>)
    requires
        call_ensures(PinnedTlsClient::attempt_timeout, (client, timeout), result),
    ensures
        result is Ok <==> timeout > 0,
        result matches Ok(time) ==> time <= timeout && time <= client.timeout && (time == timeout || time
            == client.timeout),
{
}

/// A server is set up with time for its connections, and with the identity that the device keeps.
pub proof fn lemma_servers_are_set_up(
    identity: TlsIdentity,
    stored: CertificateFingerprint,
    timeout: u64,
    result: Result<TrustedTlsServer, Failure>,
)
    requires
        call_ensures(TrustedTlsServer::new, (identity, stored, timeout), result),
    ensures
        result is Ok <==> timeout > 0 && stored == identity.spec_fingerprint(),
        result matches Ok(server) ==> server.identity == identity && server.timeout == timeout,
{
}

/// A certificate that was replaced while a connection was made is noticed.
pub proof fn lemma_replaced_certificates(shown: &[u8], recorded: &[u8], result: Result<(), Failure>)
    requires
        call_ensures(TrustedTlsServer::check_current, (shown, recorded), result),
    ensures
        result is Ok <==> shown@ == recorded@,
{
}

/// A certificate and a private key take at most 64 KiB each, and connections are of TLS 1.3.
pub proof fn lemma_limits_of_certificates()
    ensures
        CERTIFICATE_LIMIT == 64 * 1024,
        PRIVATE_KEY_LIMIT == 64 * 1024,
        TLS13_NUMBER == 3 * 256 + 4,
{
}

} // verus!
