use std::io::{Read, Write};
use std::sync::Arc;

use clipferry::address::{Endpoint, IpAddress};
use clipferry::failure::FailureKind;
use clipferry::pairing::{Hello, PendingPairing, Role};
use clipferry::security::CertificateFingerprint;
use clipferry::tls::{
    check_bounded, generate_identity_der, load_and_verify_peer_certificate,
    negotiated_peer_fingerprint, verify_negotiated_connection, verify_peer_pin, Negotiated,
    PinnedTlsClient, PinnedTlsServer, TlsIdentity, TrustFailure, TrustedTlsServer, ALPN_PROTOCOL,
    CERTIFICATE_LIMIT, SERVER_NAME,
};
use rustls::pki_types::ServerName;
use rustls::{ClientConfig, ClientConnection, ProtocolVersion, ServerConfig, ServerConnection};

const TIMEOUT: u64 = 5_000_000_000;

fn generated_identity() -> TlsIdentity {
    let (certificate, private_key) = generate_identity_der().unwrap();
    TlsIdentity::from_der(certificate, private_key).unwrap()
}

struct Pair {
    client: ClientConnection,
    server: ServerConnection,
}

impl Pair {
    fn new(client: ClientConfig, server: ServerConfig) -> Self {
        let name = ServerName::try_from(SERVER_NAME).unwrap();
        Self {
            client: ClientConnection::new(Arc::new(client), name).unwrap(),
            server: ServerConnection::new(Arc::new(server)).unwrap(),
        }
    }

    fn exchange(&mut self) -> (Result<(), rustls::Error>, Result<(), rustls::Error>) {
        let mut client_result = Ok(());
        let mut server_result = Ok(());
        for _ in 0..8 {
            let mut sent = Vec::new();
            while self.client.wants_write() {
                self.client.write_tls(&mut sent).unwrap();
            }
            let mut unread = sent.as_slice();
            while !unread.is_empty() && server_result.is_ok() {
                self.server.read_tls(&mut unread).unwrap();
                server_result = self.server.process_new_packets().map(|_| ());
            }
            let mut answered = Vec::new();
            while self.server.wants_write() {
                self.server.write_tls(&mut answered).unwrap();
            }
            let mut unread = answered.as_slice();
            while !unread.is_empty() && client_result.is_ok() {
                self.client.read_tls(&mut unread).unwrap();
                client_result = self.client.process_new_packets().map(|_| ());
            }
        }
        (client_result, server_result)
    }
}

fn seen_by_client(connection: &ClientConnection) -> Negotiated {
    Negotiated {
        tls13: connection.protocol_version() == Some(ProtocolVersion::TLSv1_3),
        alpn: connection.alpn_protocol().map(<[u8]>::to_vec),
        certificates: connection
            .peer_certificates()
            .map(|chain| chain.iter().map(|certificate| certificate.as_ref().to_vec()).collect()),
    }
}

fn seen_by_server(connection: &ServerConnection) -> Negotiated {
    Negotiated {
        tls13: connection.protocol_version() == Some(ProtocolVersion::TLSv1_3),
        alpn: connection.alpn_protocol().map(<[u8]>::to_vec),
        certificates: connection
            .peer_certificates()
            .map(|chain| chain.iter().map(|certificate| certificate.as_ref().to_vec()).collect()),
    }
}

fn client_to(identity: &TlsIdentity, peer: &TlsIdentity) -> PinnedTlsClient {
    PinnedTlsClient::new(identity, peer.certificate_der().to_vec(), peer.fingerprint(), TIMEOUT)
        .unwrap_or_else(|failure| panic!("{}", failure.message()))
}

fn server_for(identity: &TlsIdentity, peer: &TlsIdentity) -> PinnedTlsServer {
    PinnedTlsServer::new(identity, peer.certificate_der().to_vec(), peer.fingerprint(), TIMEOUT)
        .unwrap_or_else(|failure| panic!("{}", failure.message()))
}

#[test]
fn mutual_tls_is_tls13_only_and_exchanges_application_data() {
    let server_identity = generated_identity();
    let client_identity = generated_identity();
    let server = server_for(&server_identity, &client_identity);
    let client = client_to(&client_identity, &server_identity);
    assert_eq!(server.expected_peer(), client_identity.fingerprint());
    let mut pair = Pair::new(client.config, server.config);
    let (client_result, server_result) = pair.exchange();
    client_result.unwrap();
    server_result.unwrap();
    assert_eq!(pair.client.protocol_version(), Some(ProtocolVersion::TLSv1_3));
    let heard = seen_by_client(&pair.client);
    assert_eq!(heard.alpn.as_deref(), Some(&ALPN_PROTOCOL[..]));
    verify_negotiated_connection(&heard, server_identity.fingerprint()).unwrap();
    verify_negotiated_connection(&seen_by_server(&pair.server), client_identity.fingerprint())
        .unwrap();
    assert!(verify_negotiated_connection(&heard, client_identity.fingerprint()).is_err());

    pair.client.writer().write_all(b"PING").unwrap();
    pair.exchange().1.unwrap();
    let mut request = [0_u8; 4];
    pair.server.reader().read_exact(&mut request).unwrap();
    assert_eq!(&request, b"PING");
    pair.server.writer().write_all(b"PONG").unwrap();
    pair.exchange().0.unwrap();
    let mut response = [0_u8; 4];
    pair.client.reader().read_exact(&mut response).unwrap();
    assert_eq!(&response, b"PONG");
}

#[test]
fn certificate_pin_mismatch_fails_before_network_use() {
    let server_identity = generated_identity();
    let client_identity = generated_identity();
    let unrelated = generated_identity();
    let result = PinnedTlsClient::new(
        &client_identity,
        server_identity.certificate_der().to_vec(),
        unrelated.fingerprint(),
        TIMEOUT,
    );
    assert!(result.is_err());
}

#[test]
fn a_mismatch_names_both_fingerprints() {
    let expected = CertificateFingerprint::from_bytes([0xab; 32]);
    let failure = verify_peer_pin(b"other", expected).unwrap_err();
    let actual = CertificateFingerprint::from_certificate(b"other");
    assert_eq!(
        failure.message(),
        format!(
            "peer certificate fingerprint mismatch: expected {}, got {}",
            expected.to_text(),
            actual.to_text()
        )
    );
    assert_eq!(failure.kind(), FailureKind::InvalidData);
    assert!(verify_peer_pin(b"other", actual).is_ok());
    assert_eq!(
        TrustFailure::WrongVersion { version: 7 }.message(),
        "unsupported pairing version 7"
    );
}

#[test]
fn unpinned_client_identity_is_rejected_by_mutual_tls() {
    let server_identity = generated_identity();
    let expected_client = generated_identity();
    let untrusted_client = generated_identity();
    let server = server_for(&server_identity, &expected_client);
    let client = client_to(&untrusted_client, &server_identity);
    let mut pair = Pair::new(client.config, server.config);
    let (client_result, server_result) = pair.exchange();
    assert!(client_result.is_err() || server_result.is_err());
    assert!(server_result.is_err());
}

#[test]
fn advertising_a_certificate_without_its_private_key_fails_before_confirmation() {
    let listener = generated_identity();
    let advertised = generated_identity();
    let unrelated = generated_identity();
    let said = Hello::create(Role::Listener, listener.certificate_der().to_vec()).unwrap();
    let asked = Hello::create(Role::Connector, advertised.certificate_der().to_vec()).unwrap();
    let heard = Hello::read_from(&asked.encode(), Role::Connector).unwrap();
    let address = Endpoint::new(IpAddress::V4(0x7f00_0001), 50_000);
    let pending = PendingPairing::begin(&said, heard, address).unwrap();
    let server = PinnedTlsServer::new(
        &listener,
        pending.peer_certificate().to_vec(),
        pending.peer_fingerprint(),
        TIMEOUT,
    )
    .unwrap_or_else(|failure| panic!("{}", failure.message()));
    let client = client_to(&unrelated, &listener);
    let mut pair = Pair::new(client.config, server.config);
    let (client_result, server_result) = pair.exchange();
    assert!(client_result.is_err());
    assert!(server_result.is_err());
}

#[test]
fn a_server_that_is_not_pinned_is_rejected_by_the_client() {
    let server_identity = generated_identity();
    let expected_server = generated_identity();
    let client_identity = generated_identity();
    let server = server_for(&server_identity, &client_identity);
    let client = client_to(&client_identity, &expected_server);
    let mut pair = Pair::new(client.config, server.config);
    assert!(pair.exchange().0.is_err());
}

#[test]
fn another_protocol_is_not_negotiated() {
    let server_identity = generated_identity();
    let client_identity = generated_identity();
    let server = server_for(&server_identity, &client_identity);
    let mut client = client_to(&client_identity, &server_identity).config;
    client.alpn_protocols = vec![b"other/1".to_vec()];
    let mut pair = Pair::new(client, server.config);
    assert!(pair.exchange().1.is_err());
}

#[test]
fn settings_need_a_certificate_with_its_own_key() {
    let server_identity = generated_identity();
    let (certificate, _) = generate_identity_der().unwrap();
    let (_, other_key) = generate_identity_der().unwrap();
    let mixed = TlsIdentity::from_der(certificate, other_key).unwrap();
    let client = PinnedTlsClient::new(
        &mixed,
        server_identity.certificate_der().to_vec(),
        server_identity.fingerprint(),
        TIMEOUT,
    );
    assert!(matches!(client, Err(TrustFailure::Cryptography { .. })));
    let noise = b"not a certificate".to_vec();
    let pin = CertificateFingerprint::from_certificate(&noise);
    let server = PinnedTlsServer::new(&server_identity, noise, pin, TIMEOUT);
    assert!(matches!(server, Err(TrustFailure::Cryptography { .. })));
    assert!(TlsIdentity::from_der(Vec::new(), vec![1]).is_err());
    assert!(TlsIdentity::from_der(vec![1], Vec::new()).is_err());
}

#[test]
fn every_trusted_device_is_accepted_and_no_other() {
    let server_identity = generated_identity();
    let first = generated_identity();
    let second = generated_identity();
    let stranger = generated_identity();
    let certificates =
        [first.certificate_der().to_vec(), second.certificate_der().to_vec()];
    let own = server_identity.fingerprint();
    let server_certificate = server_identity.certificate_der().to_vec();
    let server = TrustedTlsServer::new(server_identity, own, TIMEOUT).unwrap();
    for (identity, accepted) in [(&first, true), (&second, true), (&stranger, false)] {
        let config = match server.accept_settings(&certificates) {
            Ok(config) => config,
            Err(failure) => panic!("{}", failure.message()),
        };
        let client = PinnedTlsClient::new(identity, server_certificate.clone(), own, TIMEOUT)
            .unwrap_or_else(|failure| panic!("{}", failure.message()));
        let mut pair = Pair::new(client.config, config);
        assert_eq!(pair.exchange().1.is_ok(), accepted);
        if accepted {
            assert_eq!(
                negotiated_peer_fingerprint(&seen_by_server(&pair.server)).unwrap(),
                identity.fingerprint()
            );
        }
    }
    match server.accept_settings(&[]) {
        Ok(_) => panic!("nobody is trusted"),
        Err(failure) => {
            assert_eq!(failure.kind(), FailureKind::PermissionDenied);
            assert_eq!(failure.message(), "no trusted peer is authorized for mutual TLS");
        }
    }
    assert!(server.accept_settings(&[b"noise".to_vec()]).is_err());
    assert!(TrustedTlsServer::check_current(b"same", b"same").is_ok());
    assert!(TrustedTlsServer::check_current(b"same", b"other").is_err());
    let other = generated_identity();
    let fingerprint = other.fingerprint();
    assert!(TrustedTlsServer::new(generated_identity(), fingerprint, TIMEOUT).is_err());
    assert!(TrustedTlsServer::new(other, fingerprint, 0).is_err());
}

#[test]
fn every_refusal_of_a_connection_is_told() {
    let good = || Negotiated {
        tls13: true,
        alpn: Some(ALPN_PROTOCOL.to_vec()),
        certificates: Some(vec![b"peer".to_vec()]),
    };
    let told = |negotiated: Negotiated| {
        negotiated_peer_fingerprint(&negotiated).map_err(|failure| failure.message())
    };
    assert_eq!(told(good()).unwrap(), CertificateFingerprint::from_certificate(b"peer"));
    assert_eq!(
        told(Negotiated { tls13: false, ..good() }).unwrap_err(),
        "TLS 1.3 was not negotiated"
    );
    assert_eq!(
        told(Negotiated { alpn: None, ..good() }).unwrap_err(),
        "ClipFerry ALPN was not negotiated"
    );
    assert_eq!(
        told(Negotiated { certificates: None, ..good() }).unwrap_err(),
        "peer did not provide a certificate"
    );
    assert_eq!(
        told(Negotiated { certificates: Some(Vec::new()), ..good() }).unwrap_err(),
        "peer certificate chain must contain exactly the pinned certificate"
    );
}

#[test]
fn certificate_files_are_bounded_and_pinned() {
    let fingerprint = CertificateFingerprint::from_certificate(b"peer");
    assert_eq!(load_and_verify_peer_certificate(b"peer".to_vec(), fingerprint).unwrap(), b"peer");
    assert!(load_and_verify_peer_certificate(b"other".to_vec(), fingerprint).is_err());
    let huge = vec![0; CERTIFICATE_LIMIT + 1];
    let pin = CertificateFingerprint::from_certificate(&huge);
    assert_eq!(
        load_and_verify_peer_certificate(huge, pin).unwrap_err().message(),
        "peer certificate length must be between 1 and 65536 bytes"
    );
    assert!(!check_bounded(0, 5) && check_bounded(5, 5) && !check_bounded(6, 5));
}

#[test]
fn attempts_take_no_longer_than_connections() {
    let first = generated_identity();
    let client = client_to(&first, &generated_identity());
    assert_eq!(client.attempt_timeout(7), Ok(7));
    assert_eq!(client.attempt_timeout(TIMEOUT + 1), Ok(TIMEOUT));
    assert!(client.attempt_timeout(0).is_err());
}
