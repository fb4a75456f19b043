use clipferry::address::{Endpoint, IpAddress};
use clipferry::device_store::{create_identity_bundle, DeviceStore, PeerList};
use clipferry::failure::FailureKind;
use clipferry::pairing::{
    accept_deadline, after_accept, pairing_code, pairing_transcript, validate_endpoint,
    validate_listener_endpoint, validate_timeout, AcceptStep, Hello, PairingCode, PendingPairing,
    Role, ACCEPT_POLL_INTERVAL, CONFIRM_LENGTH, HELLO_HEADER_LENGTH, HELLO_MAGIC,
    MAX_PAIRING_TIMEOUT, PAIRING_VERSION, PROOF_LENGTH,
};
use clipferry::tls::{TlsIdentity, CERTIFICATE_LIMIT};

fn endpoint(address: u32, port: u16) -> Endpoint {
    Endpoint::new(IpAddress::V4(address), port)
}

const LOOPBACK: u32 = 0x7f00_0001;

struct Device {
    store: DeviceStore,
    identity: TlsIdentity,
}

impl Device {
    fn new() -> Self {
        let store = DeviceStore::new("unused".to_owned());
        let identity = store.load_identity(&create_identity_bundle().unwrap()).unwrap();
        Self { store, identity }
    }

    fn hello(&self, role: Role) -> Hello {
        Hello::create(role, self.identity.certificate_der().to_vec()).unwrap()
    }
}

fn pair(listener: &Device, connector: &Device) -> (PendingPairing, PendingPairing) {
    let said = listener.hello(Role::Listener);
    let asked = connector.hello(Role::Connector);
    let heard_by_listener = Hello::read_from(&asked.encode(), Role::Connector).unwrap();
    let heard_by_connector = Hello::read_from(&said.encode(), Role::Listener).unwrap();
    let address = endpoint(LOOPBACK, 50_000);
    let first = PendingPairing::begin(&said, heard_by_listener, address).unwrap();
    let second = PendingPairing::begin(&asked, heard_by_connector, address).unwrap();
    first.check_tls_proof(&second.tls_proof()).unwrap();
    second.check_tls_proof(&first.tls_proof()).unwrap();
    (first, second)
}

#[test]
fn wildcard_is_allowed_only_for_the_local_listener() {
    let wildcard = endpoint(0, 45_232);
    assert!(validate_listener_endpoint(wildcard).is_ok());
    assert!(validate_endpoint(wildcard).is_err());
    assert!(validate_listener_endpoint(endpoint(0, 0)).is_err());
}

#[test]
fn both_approved_pairing_persists_exact_mutual_trust() {
    let first = Device::new();
    let second = Device::new();
    let (listener, client) = pair(&first, &second);
    assert_eq!(listener.code(), client.code());
    assert_eq!(listener.local_fingerprint(), client.peer_fingerprint());
    assert_eq!(listener.peer_fingerprint(), client.local_fingerprint());
    assert_eq!(listener.peer_certificate(), second.identity.certificate_der());
    assert_eq!(listener.peer_address(), endpoint(LOOPBACK, 50_000));

    let from_listener = listener.confirmation(true);
    let from_client = client.confirmation(true);
    let server_peer = listener
        .confirm(&first.store, true, &from_client, first.identity.fingerprint(), "Second PC", &PeerList::new())
        .unwrap();
    let client_peer = client
        .confirm(&second.store, true, &from_listener, second.identity.fingerprint(), "First PC", &PeerList::new())
        .unwrap();
    assert_eq!(server_peer.label, "Second PC");
    assert_eq!(server_peer.fingerprint, second.identity.fingerprint());
    assert_eq!(client_peer.label, "First PC");
    assert_eq!(client_peer.fingerprint, first.identity.fingerprint());
}

#[test]
fn either_side_rejecting_persists_no_trust() {
    let first = Device::new();
    let second = Device::new();
    let (listener, client) = pair(&first, &second);
    let from_listener = listener.confirmation(false);
    let from_client = client.confirmation(true);
    let refused = client
        .confirm(&second.store, true, &from_listener, second.identity.fingerprint(), "First PC", &PeerList::new())
        .unwrap_err();
    assert_eq!(refused.kind(), FailureKind::PermissionDenied);
    assert_eq!(refused.message(), "pairing was not approved on both devices");
    assert!(listener
        .confirm(&first.store, false, &from_client, first.identity.fingerprint(), "Second PC", &PeerList::new())
        .is_err());
}

#[test]
fn fresh_pairing_sessions_have_distinct_transcript_codes() {
    let first = Device::new();
    let second = Device::new();
    assert_ne!(pair(&first, &second).0.code(), pair(&first, &second).0.code());
}

#[test]
fn active_terminating_mitm_produces_different_codes_and_no_trust_when_rejected() {
    let listener = Device::new();
    let connector = Device::new();
    let attacker = Device::new();
    let (real_listener, attacker_as_connector) = pair(&listener, &attacker);
    let (attacker_as_listener, real_connector) = pair(&attacker, &connector);
    assert_ne!(real_listener.code(), real_connector.code());
    let own = listener.identity.fingerprint();
    let approved = attacker_as_connector.confirmation(true);
    assert!(real_listener.check_confirmation(false, &approved, own).is_err());
    let other = attacker_as_listener.confirmation(true);
    assert_eq!(
        real_listener.check_confirmation(true, &other, own).unwrap_err().message,
        "pairing confirmation transcript mismatch"
    );
    assert_eq!(
        real_listener.check_tls_proof(&real_connector.tls_proof()).unwrap_err().message,
        "pairing TLS proof transcript mismatch"
    );
}

#[test]
fn oversized_certificate_is_rejected_before_allocation() {
    let mut header = [0_u8; HELLO_HEADER_LENGTH];
    header[..8].copy_from_slice(&HELLO_MAGIC);
    header[8..10].copy_from_slice(&PAIRING_VERSION.to_le_bytes());
    header[10] = Role::Connector.number();
    header[43..47].copy_from_slice(&u32::try_from(CERTIFICATE_LIMIT + 1).unwrap().to_le_bytes());
    assert!(Hello::read_header(&header, Role::Connector).is_err());
    assert!(Hello::read_from(&header, Role::Connector).is_err());
}

#[test]
fn pairing_hello_parser_rejects_bounded_malformed_corpus() {
    let mut corpus = Vec::new();
    for length in 0..HELLO_HEADER_LENGTH {
        corpus.push(vec![0_u8; length]);
    }

    let mut invalid_magic = [0_u8; HELLO_HEADER_LENGTH];
    invalid_magic[..8].copy_from_slice(b"NOTPAIR!");
    invalid_magic[8..10].copy_from_slice(&PAIRING_VERSION.to_le_bytes());
    invalid_magic[10] = Role::Connector.number();
    invalid_magic[43..47].copy_from_slice(&1_u32.to_le_bytes());
    corpus.push(invalid_magic.to_vec());

    let mut invalid_version = invalid_magic;
    invalid_version[..8].copy_from_slice(&HELLO_MAGIC);
    invalid_version[8..10].copy_from_slice(&PAIRING_VERSION.wrapping_add(1).to_le_bytes());
    corpus.push(invalid_version.to_vec());

    let mut invalid_role = invalid_magic;
    invalid_role[..8].copy_from_slice(&HELLO_MAGIC);
    invalid_role[10] = 0xFF;
    corpus.push(invalid_role.to_vec());

    let mut wrong_role = invalid_magic;
    wrong_role[..8].copy_from_slice(&HELLO_MAGIC);
    wrong_role[10] = Role::Listener.number();
    corpus.push(wrong_role.to_vec());

    let mut empty_certificate = invalid_magic;
    empty_certificate[..8].copy_from_slice(&HELLO_MAGIC);
    empty_certificate[43..47].copy_from_slice(&0_u32.to_le_bytes());
    corpus.push(empty_certificate.to_vec());

    let mut oversized = empty_certificate;
    oversized[43..47]
        .copy_from_slice(&(u32::try_from(CERTIFICATE_LIMIT).unwrap() + 1).to_le_bytes());
    corpus.push(oversized.to_vec());

    let mut missing_certificate = empty_certificate;
    missing_certificate[43..47].copy_from_slice(&16_u32.to_le_bytes());
    corpus.push(missing_certificate.to_vec());

    for bytes in corpus {
        let error = Hello::read_from(&bytes, Role::Connector).unwrap_err();
        assert!(matches!(error.kind(), FailureKind::InvalidData | FailureKind::UnexpectedEof));
    }
}

#[test]
fn hellos_are_encoded_in_one_way_and_every_fault_is_told() {
    let hello = Hello::with_nonce(Role::Connector, b"cert".to_vec(), [7; 32]).unwrap();
    let mut expected = b"CFPAIR01\x01\x00\x02".to_vec();
    expected.extend_from_slice(&[7; 32]);
    expected.extend_from_slice(b"\x04\0\0\0cert");
    let encoded = hello.encode();
    assert_eq!(encoded, expected);
    let mut longer = encoded.clone();
    longer.extend_from_slice(b"more");
    let heard = Hello::read_from(&longer, Role::Connector).unwrap();
    assert_eq!((heard.nonce, heard.certificate), ([7; 32], b"cert".to_vec()));
    assert_eq!(Hello::read_header(&encoded, Role::Connector).unwrap(), 4);
    let told = |at: usize, value: u8| {
        let mut bad = encoded.clone();
        bad[at] = value;
        Hello::read_from(&bad, Role::Connector).unwrap_err().message()
    };
    assert_eq!(told(0, b'X'), "pairing hello magic mismatch");
    assert_eq!(told(9, 1), "unsupported pairing version 257");
    assert_eq!(told(10, 3), "pairing hello contains an unknown role");
    assert_eq!(told(10, 1), "pairing hello role mismatch");
    assert_eq!(told(43, 0), "pairing certificate length must be between 1 and 65536 bytes");
    assert_eq!(told(43, 5), "failed to fill whole buffer");
    assert!(Hello::with_nonce(Role::Listener, Vec::new(), [0; 32]).is_err());
    assert!(Hello::create(Role::Listener, vec![0; CERTIFICATE_LIMIT + 1]).is_err());
}

#[test]
fn transcripts_bind_both_hellos_in_order() {
    let listener = Hello::with_nonce(Role::Listener, b"one".to_vec(), [1; 32]).unwrap();
    let connector = Hello::with_nonce(Role::Connector, b"two".to_vec(), [2; 32]).unwrap();
    let hash = pairing_transcript(&listener, &connector).unwrap();
    assert_ne!(hash, [0; 32]);
    assert_eq!(hash, pairing_transcript(&listener, &connector).unwrap());
    assert_eq!(
        pairing_transcript(&connector, &listener).unwrap_err().message(),
        "pairing transcript roles are not canonical"
    );
    let code = pairing_code(hash);
    assert_eq!(code.0, hash[..8]);
    assert_eq!(
        PairingCode([0x01, 0x23, 0x45, 0x67, 0x89, 0xab, 0xcd, 0xef]).to_text(),
        "0123-4567-89AB-CDEF"
    );
    let address = endpoint(LOOPBACK, 1);
    let same_side = Hello::with_nonce(Role::Listener, b"two".to_vec(), [2; 32]).unwrap();
    assert!(PendingPairing::begin(&listener, same_side, address).is_err());
}

#[test]
fn confirmations_are_checked_in_order() {
    let first = Device::new();
    let second = Device::new();
    let (listener, client) = pair(&first, &second);
    assert_eq!(listener.tls_proof().len(), PROOF_LENGTH);
    let own = first.identity.fingerprint();
    let mut message = client.confirmation(true);
    assert_eq!(message.len(), CONFIRM_LENGTH);
    assert!(listener.check_confirmation(true, &message, own).is_ok());
    assert_eq!(
        listener
            .check_confirmation(true, &message, second.identity.fingerprint())
            .unwrap_err()
            .message,
        "local device identity changed during pairing"
    );
    message[40] = 2;
    assert_eq!(
        listener.check_confirmation(true, &message, own).unwrap_err().message,
        "pairing confirmation decision is invalid"
    );
    assert!(listener.check_confirmation(true, &message[..40], own).is_err());
}

#[test]
fn pairing_is_bounded_in_time_and_place() {
    assert!(validate_timeout(0).is_err());
    assert!(validate_timeout(1).is_ok());
    assert!(validate_timeout(MAX_PAIRING_TIMEOUT).is_ok());
    assert!(validate_timeout(MAX_PAIRING_TIMEOUT + 1).is_err());
    assert_eq!(
        validate_endpoint(endpoint(LOOPBACK, 0)).unwrap_err().message,
        "pairing endpoint port must not be zero"
    );
    assert_eq!(
        validate_endpoint(endpoint(0x0808_0808, 1)).unwrap_err().message,
        "pairing is restricted to loopback or private unicast addresses"
    );
    assert!(validate_listener_endpoint(endpoint(0x0808_0808, 1)).is_err());
    assert_eq!(accept_deadline(3, 4), Ok(7));
    assert!(accept_deadline(u64::MAX, 1).is_err());
    assert!(matches!(
        after_accept(FailureKind::WouldBlock, 6, 7),
        AcceptStep::Wait { pause: ACCEPT_POLL_INTERVAL }
    ));
    assert!(matches!(
        after_accept(FailureKind::WouldBlock, 7, 7),
        AcceptStep::TimedOut { failure } if failure.kind == FailureKind::TimedOut
    ));
    assert!(matches!(after_accept(FailureKind::Other, 0, 7), AcceptStep::Fail));
}
