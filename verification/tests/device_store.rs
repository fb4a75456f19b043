use clipferry::device_store::{
    after_load, after_publish, after_temporary, check_file, compact_fingerprint,
    create_identity_bundle, decode_identity_bundle, encode_identity_bundle, encode_trust_record,
    parse_compact_fingerprint, temporary_name, validate_label, DeviceStore, IdentityStep, PeerFile,
    PeerList, TemporaryStep, TrustedPeer, IDENTITY_MAGIC, TRUSTED_PEER_LIMIT,
};
use clipferry::failure::FailureKind;
use clipferry::security::CertificateFingerprint;
use clipferry::tls::{generate_identity_der, TlsIdentity, TrustFailure};

fn local_identity(store: &DeviceStore) -> TlsIdentity {
    store.load_identity(&create_identity_bundle().unwrap()).unwrap()
}

fn generated_peer() -> (Vec<u8>, CertificateFingerprint) {
    let (certificate, _) = generate_identity_der().unwrap();
    let fingerprint = CertificateFingerprint::from_certificate(&certificate);
    (certificate, fingerprint)
}

/// The file that a device is kept in.
fn file_of(store: &DeviceStore, peer: &TrustedPeer) -> PeerFile {
    let name = store.peer_file(peer.fingerprint);
    PeerFile {
        name: Some(name.strip_suffix(".peer").unwrap().to_owned()),
        record: encode_trust_record(peer).unwrap(),
    }
}

fn none() -> PeerList {
    PeerList::new()
}

fn listed(peers: Vec<TrustedPeer>) -> PeerList {
    let mut list = PeerList::new();
    for peer in peers {
        list.add(peer).unwrap();
    }
    list
}

#[test]
fn trust_registry_imports_lists_loads_and_revokes_exact_peer() {
    let store = DeviceStore::new("unused".to_owned());
    let local = local_identity(&store);
    let (certificate, fingerprint) = generated_peer();
    let mut files: Vec<PeerFile> = Vec::new();
    let known = store.list_peers(&files).unwrap();
    assert_eq!(known.len(), 0);
    let imported = store
        .trust_peer(
            local.fingerprint(),
            certificate.clone(),
            fingerprint,
            "  Living room PC  ",
            &known,
        )
        .unwrap();
    assert_eq!(imported.label, "Living room PC");
    files.push(file_of(&store, &imported));
    let known = store.list_peers(&files).unwrap();
    assert_eq!(known.len(), 1);
    assert_eq!(known.peers()[0].fingerprint, fingerprint);
    assert_eq!(known.peers()[0].label, imported.label);
    assert_eq!(known.peers()[0].certificate_der(), certificate);
    let loaded = store.load_peer(fingerprint, &files[0].record).unwrap();
    assert_eq!(loaded.label, imported.label);
    assert_eq!(loaded.fingerprint, fingerprint);
    assert_eq!(loaded.certificate_der(), certificate);
    assert!(store
        .trust_peer(local.fingerprint(), certificate.clone(), fingerprint, "duplicate", &known)
        .is_err());
    assert_eq!(imported.into_certificate_der(), certificate);

    files.retain(|file| file.name != Some(compact_fingerprint(fingerprint)));
    assert!(store.list_peers(&files).unwrap().peers().is_empty());
}

#[test]
fn trust_registry_rejects_wrong_pin_self_and_unsafe_labels() {
    let store = DeviceStore::new("unused".to_owned());
    let local = local_identity(&store);
    let (certificate, fingerprint) = generated_peer();
    assert!(store
        .trust_peer(local.fingerprint(), certificate.clone(), local.fingerprint(), "peer", &none())
        .is_err());
    assert!(store
        .trust_peer(
            local.fingerprint(),
            local.certificate_der().to_vec(),
            local.fingerprint(),
            "self",
            &none()
        )
        .is_err());
    assert!(store
        .trust_peer(local.fingerprint(), certificate, fingerprint, "unsafe\nlabel", &none())
        .is_err());
}

#[test]
fn tampered_trust_record_is_rejected() {
    let store = DeviceStore::new("unused".to_owned());
    let local = local_identity(&store);
    let (certificate, fingerprint) = generated_peer();
    let peer = store
        .trust_peer(local.fingerprint(), certificate, fingerprint, "peer", &none())
        .unwrap();
    let mut file = file_of(&store, &peer);
    file.record[14] ^= 0x01;
    assert!(matches!(
        store.load_peer(fingerprint, &file.record),
        Err(TrustFailure::WrongRecord { .. })
    ));
    assert!(matches!(store.list_peers(&vec![file]), Err(TrustFailure::WrongRecord { .. })));
}

#[test]
fn identities_are_encoded_in_one_way() {
    let encoded = encode_identity_bundle(b"cert", b"key").unwrap();
    assert_eq!(encoded, b"CFID\x01\0\0\0\x04\0\0\0\x03\0\0\0certkey");
    assert_eq!(&encoded[..8], &IDENTITY_MAGIC);
    assert_eq!(decode_identity_bundle(&encoded).unwrap(), (b"cert".to_vec(), b"key".to_vec()));
    let told = |bytes: &[u8]| decode_identity_bundle(bytes).unwrap_err().message;
    assert_eq!(told(&encoded[..15]), "unsupported or corrupt device identity");
    let mut wrong = encoded.clone();
    wrong[4] = 2;
    assert_eq!(told(&wrong), "unsupported or corrupt device identity");
    assert_eq!(told(&encoded[..22]), "device identity length mismatch");
    assert_eq!(
        told(b"CFID\x01\0\0\0\0\0\0\0\x03\0\0\0key"),
        "certificate length must be between 1 and 65536 bytes"
    );
    assert_eq!(
        told(b"CFID\x01\0\0\0\x04\0\0\0\0\0\0\0cert"),
        "private key length is outside the allowed bounds"
    );
    assert_eq!(
        encode_identity_bundle(b"", b"key").unwrap_err().message,
        "certificate length must be between 1 and 65536 bytes"
    );
    assert_eq!(
        encode_identity_bundle(b"cert", &vec![0; 65_537]).unwrap_err().message,
        "private key length must be between 1 and 65536 bytes"
    );
}

#[test]
fn fresh_identities_differ_and_export_their_certificate_alone() {
    let store = DeviceStore::new("C:\\data".to_owned());
    assert_eq!(store.root(), "C:\\data");
    let first = local_identity(&store);
    let second = local_identity(&store);
    assert_ne!(first.fingerprint(), second.fingerprint());
    let (certificate, fingerprint) = store.export_certificate(&first);
    assert_eq!(certificate, first.certificate_der());
    assert_eq!(fingerprint, CertificateFingerprint::from_certificate(&certificate));
}

#[test]
fn every_fault_of_a_record_is_told() {
    let store = DeviceStore::new("unused".to_owned());
    let fingerprint = CertificateFingerprint::from_certificate(b"cert");
    let good = b"CFPR\x01\0\0\0\x04\0\0\0\x02\0certPC";
    assert_eq!(store.load_peer(fingerprint, good).unwrap().label, "PC");
    let told = |bytes: &[u8]| store.load_peer(fingerprint, bytes).unwrap_err().message();
    assert_eq!(told(&good[..13]), "unsupported or corrupt trusted peer record");
    assert_eq!(told(&good[..19]), "trusted peer record length mismatch");
    assert_eq!(
        told(b"CFPR\x01\0\0\0\0\0\0\0\x02\0PC"),
        "certificate length must be between 1 and 65536 bytes"
    );
    assert_eq!(
        told(b"CFPR\x01\0\0\0\x04\0\0\0\x02\0cert\xff\xfe"),
        "trusted peer label is not valid UTF-8"
    );
    assert_eq!(
        told(b"CFPR\x01\0\0\0\x04\0\0\0\x02\0cert  "),
        "peer label must contain 1 to 128 UTF-8 bytes without control characters"
    );
    assert!(told(b"CFPR\x01\0\0\0\x04\0\0\0\x02\0CertPC")
        .starts_with("trusted peer record fingerprint mismatch: filename "));
}

#[test]
fn trusting_is_bounded_and_checks_in_order() {
    let store = DeviceStore::new("unused".to_owned());
    let own = CertificateFingerprint::from_certificate(b"own");
    let fingerprint = CertificateFingerprint::from_certificate(b"cert");
    let trust = |certificate: &[u8], label: &str, known: &PeerList| {
        store
            .trust_peer(own, certificate.to_vec(), fingerprint, label, known)
            .map_err(|failure| failure.message())
    };
    let peer = |byte: u8| TrustedPeer {
        fingerprint: CertificateFingerprint::from_bytes([byte; 32]),
        label: "PC".to_owned(),
        certificate: vec![byte],
    };
    let mut known = listed((1..TRUSTED_PEER_LIMIT as u8).map(peer).collect());
    assert!(trust(b"cert", "PC", &known).is_ok());
    known.add(peer(0)).unwrap();
    assert_eq!(
        trust(b"cert", "PC", &known).unwrap_err(),
        "trusted peer limit of 64 has been reached"
    );
    assert_eq!(
        trust(b"", "PC", &none()).unwrap_err(),
        "certificate length must be between 1 and 65536 bytes"
    );
    assert!(trust(b"other", "PC", &none()).unwrap_err().starts_with("peer certificate fingerprint"));
    assert!(trust(b"cert", " ", &none()).unwrap_err().starts_with("peer label must contain"));
    assert_eq!(
        store.trust_peer(own, b"own".to_vec(), own, "PC", &none()).unwrap_err().message(),
        "the local device cannot trust itself as a peer"
    );
    assert_eq!(store.check_peer(own, b"cert", fingerprint, " PC ").unwrap(), "PC");
    assert!(store.check_peer(own, b"own", own, "PC").is_err());
    let trusted = trust(b"cert", "PC", &none()).unwrap();
    let again = store
        .trust_peer(own, b"cert".to_vec(), fingerprint, "PC", &listed(vec![trusted]))
        .unwrap_err();
    assert_eq!(again.kind(), FailureKind::AlreadyExists);
    assert_eq!(again.message(), "trusted peer record already exists");
    assert_eq!(
        store.trust_peer_file(own, Vec::new(), own, "PC", &none()).unwrap_err().message(),
        "peer certificate must be a regular file between 1 and 65536 bytes"
    );
    assert!(store.trust_peer_file(own, b"cert".to_vec(), fingerprint, "PC", &none()).is_ok());
}

#[test]
fn identities_that_do_not_parse_are_refused() {
    let store = DeviceStore::new("unused".to_owned());
    let (certificate, key) = generate_identity_der().unwrap();
    let load = |certificate: &[u8], key: &[u8]| {
        store.load_identity(&encode_identity_bundle(certificate, key).unwrap())
    };
    assert_eq!(load(&certificate, &key).unwrap().certificate_der(), certificate);
    assert!(matches!(load(b"cert", &key), Err(TrustFailure::Cryptography { .. })));
    assert!(matches!(load(&certificate, b"key"), Err(TrustFailure::Cryptography { .. })));
    assert_eq!(
        store.load_identity(b"nothing").unwrap_err().message(),
        "unsupported or corrupt device identity"
    );
}

#[test]
fn every_file_of_the_registry_must_be_a_record_of_its_own() {
    let store = DeviceStore::new("unused".to_owned());
    let kept = |certificate: &[u8], label: &str| {
        let peer = TrustedPeer {
            fingerprint: CertificateFingerprint::from_certificate(certificate),
            label: label.to_owned(),
            certificate: certificate.to_vec(),
        };
        file_of(&store, &peer)
    };
    let named = |name: &str| PeerFile { name: Some(name.to_owned()), ..kept(b"first", "PC") };
    let told = |files: Vec<PeerFile>| store.list_peers(&files).unwrap_err().message();
    let list = store.list_peers(&vec![kept(b"first", "a"), kept(b"second", "b")]).unwrap();
    assert_eq!(list.len(), 2);
    assert!(list.peers()[0].fingerprint.bytes() < list.peers()[1].fingerprint.bytes());
    let unnamed = PeerFile { name: None, ..kept(b"first", "PC") };
    assert_eq!(told(vec![unnamed]), "trusted peer filename is not valid Unicode");
    assert_eq!(told(vec![named("first")]), "trusted peer filename is not a fingerprint");
    let other = compact_fingerprint(CertificateFingerprint::from_certificate(b"second"));
    assert!(told(vec![named(&other)]).starts_with("trusted peer record fingerprint mismatch"));
    let corrupt = PeerFile { record: b"CFPR".to_vec(), ..kept(b"first", "PC") };
    assert_eq!(
        told(vec![kept(b"second", "b"), corrupt]),
        "unsupported or corrupt trusted peer record"
    );
    let upper = compact_fingerprint(CertificateFingerprint::from_certificate(b"first"))
        .to_uppercase();
    assert_eq!(store.list_peers(&vec![named(&upper)]).unwrap().len(), 1);
    assert_eq!(
        told(vec![kept(b"first", "a"), kept(b"second", "b"), named(&upper)]),
        "trusted peer registry holds a device more than once"
    );
    let many = |count: u8| (0..count).map(|byte| kept(&[byte], "PC")).collect::<Vec<_>>();
    assert_eq!(store.list_peers(&many(64)).unwrap().len(), 64);
    assert_eq!(told(many(65)), "trusted peer registry exceeds the limit of 64");
}

#[test]
fn labels_are_trimmed_and_bounded() {
    assert_eq!(validate_label(" \u{a0}PC\n").unwrap(), "PC");
    assert_eq!(validate_label(&"é".repeat(64)).unwrap().len(), 128);
    assert!(validate_label(&"a".repeat(129)).is_err());
    assert!(validate_label("  ").is_err());
    assert!(validate_label("a\u{85}b").is_err());
}

#[test]
fn peers_are_listed_by_fingerprint_up_to_a_limit() {
    let peer = |byte: u8| TrustedPeer {
        fingerprint: CertificateFingerprint::from_bytes([byte; 32]),
        label: "PC".to_owned(),
        certificate: vec![byte],
    };
    let mut list = listed(vec![peer(9), peer(200), peer(1)]);
    assert_eq!(
        list.add(peer(9)).unwrap_err().message,
        "trusted peer registry holds a device more than once"
    );
    assert!(list.knows(peer(9).fingerprint));
    assert!(!list.knows(peer(8).fingerprint));
    let order: Vec<u8> = list.peers().iter().map(|peer| peer.certificate[0]).collect();
    assert_eq!(order, [1, 9, 200]);
    let mut full = listed((0..64).map(peer).collect());
    assert_eq!(
        full.add(peer(64)).unwrap_err().message,
        "trusted peer registry exceeds the limit of 64"
    );
}

#[test]
fn names_of_files_are_spelled_out() {
    let store = DeviceStore::new("unused".to_owned());
    let fingerprint = CertificateFingerprint::from_bytes([0xa5; 32]);
    let name = compact_fingerprint(fingerprint);
    assert_eq!(name, "a5".repeat(32));
    assert_eq!(parse_compact_fingerprint(&name).unwrap(), fingerprint);
    assert_eq!(parse_compact_fingerprint(&name.to_uppercase()).unwrap(), fingerprint);
    assert!(parse_compact_fingerprint(&name[1..]).is_err());
    assert!(parse_compact_fingerprint(&fingerprint.to_text()).is_err());
    assert_eq!(store.peer_file(fingerprint), format!("{name}.peer"));
    assert_eq!(
        temporary_name("identity.dpapi", 42, 0xabc),
        ".identity.dpapi.42.0000000000000abc.tmp"
    );
}

#[test]
fn an_identity_is_created_only_where_there_is_none() {
    assert_eq!(after_load(None), IdentityStep::Use { created: false });
    assert_eq!(after_load(Some(FailureKind::NotFound)), IdentityStep::Create);
    assert_eq!(after_load(Some(FailureKind::InvalidData)), IdentityStep::Fail);
    assert_eq!(after_publish(None), IdentityStep::Use { created: true });
    assert_eq!(
        after_publish(Some(FailureKind::AlreadyExists)),
        IdentityStep::Use { created: false }
    );
    assert_eq!(after_publish(Some(FailureKind::PermissionDenied)), IdentityStep::Fail);
    assert!(matches!(after_temporary(1, None), TemporaryStep::Write));
    assert!(matches!(
        after_temporary(7, Some(FailureKind::AlreadyExists)),
        TemporaryStep::Retry
    ));
    assert!(matches!(
        after_temporary(8, Some(FailureKind::AlreadyExists)),
        TemporaryStep::GiveUp { failure }
            if failure.message == "could not allocate a unique temporary filename"
    ));
    assert!(matches!(
        after_temporary(1, Some(FailureKind::PermissionDenied)),
        TemporaryStep::Fail
    ));
    assert!(check_file(true, 5, 5) && !check_file(false, 5, 5) && !check_file(true, 0, 5));
}
