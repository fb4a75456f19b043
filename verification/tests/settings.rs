use clipferry::address::{Endpoint, IpAddress};
use clipferry::app_settings::{
    check_length, decode, validate_private_endpoint, AppSettings, SettingsText, SETTINGS_HEADER,
    SETTINGS_LIMIT,
};
use clipferry::failure::Failure;
use clipferry::security::CertificateFingerprint;

fn endpoint(text: &str) -> Option<Endpoint> {
    let (host, port) = text.rsplit_once(':')?;
    let mut value: u32 = 0;
    let mut parts = 0;
    for part in host.split('.') {
        value = (value << 8) | u32::from(part.parse::<u8>().ok()?);
        parts += 1;
    }
    if parts != 4 {
        return None;
    }
    Some(Endpoint::new(IpAddress::V4(value), port.parse().ok()?))
}

fn resolved(text: &SettingsText) -> Result<AppSettings, Failure> {
    text.resolve(endpoint(&text.local_endpoint), endpoint(&text.peer_endpoint))
}

fn load(text: &str) -> Result<AppSettings, Failure> {
    decode(text).and_then(|fields| resolved(&fields))
}

fn base() -> String {
    let fingerprint = CertificateFingerprint::from_certificate(b"peer").to_text();
    format!(
        "{SETTINGS_HEADER}\nlocal_endpoint=192.168.1.10:45233\nactive_peer={fingerprint}\npeer_endpoint=192.168.1.11:45233\nauto_receive=0\n"
    )
}

#[test]
fn settings_text_round_trip_is_strict() {
    let fingerprint = CertificateFingerprint::from_certificate(b"peer");
    let settings = AppSettings {
        local_endpoint: endpoint("192.168.1.10:45233").unwrap(),
        active_peer: fingerprint,
        peer_endpoint: endpoint("192.168.1.11:45233").unwrap(),
        auto_receive: true,
    };
    let file = settings.encode("192.168.1.10:45233", "192.168.1.11:45233");
    assert!(load(&file).unwrap().same(&settings));
}

#[test]
fn settings_reject_unknown_duplicate_and_public_endpoints() {
    let base = base();
    assert!(load(&base).is_ok());
    assert!(load(&format!("{base}unknown=1\n")).is_err());
    assert!(load(&format!("{base}auto_receive=1\n")).is_err());
    assert!(load(&base.replace("192.168.1.10", "8.8.8.8")).is_err());
    assert!(load(&base.replace(":45233", ":0")).is_err());
}

#[test]
fn settings_require_matching_loopback_scope() {
    let fingerprint = CertificateFingerprint::from_certificate(b"peer");
    let settings = AppSettings {
        local_endpoint: endpoint("127.0.0.1:45233").unwrap(),
        active_peer: fingerprint,
        peer_endpoint: endpoint("192.168.1.11:45233").unwrap(),
        auto_receive: false,
    };
    assert!(settings.validate().is_err());
}

#[test]
fn settings_files_have_one_spelling() {
    let fingerprint = CertificateFingerprint::from_certificate(b"peer");
    let settings = AppSettings {
        local_endpoint: endpoint("10.0.0.1:1").unwrap(),
        active_peer: fingerprint,
        peer_endpoint: endpoint("10.0.0.2:2").unwrap(),
        auto_receive: false,
    };
    assert_eq!(
        settings.encode("10.0.0.1:1", "10.0.0.2:2"),
        format!(
            "ClipFerrySettingsV1\nlocal_endpoint=10.0.0.1:1\nactive_peer={}\npeer_endpoint=10.0.0.2:2\nauto_receive=0\n",
            fingerprint.to_text()
        )
    );
}

#[test]
fn every_fault_of_a_settings_file_is_told() {
    let base = base();
    for text in [
        "",
        "Other\n",
        &base.replace("local_endpoint=", "local_endpoint"),
        &base.replace("auto_receive=0\n", ""),
        &base.replace("auto_receive=0", "auto_receive=2"),
        &base.replace("active_peer=", "active_peer=zz"),
        &base.replace("192.168.1.11:45233", "not an endpoint"),
    ] {
        assert!(load(text).is_err(), "{text}");
    }
    let windows = base.replace('\n', "\r\n");
    assert!(load(&windows).is_ok());
    let fields = decode(&base).unwrap();
    assert_eq!(fields.local_endpoint, "192.168.1.10:45233");
    assert_eq!(fields.auto_receive, "0");
    assert_eq!(
        resolved(&SettingsText { auto_receive: "yes".to_owned(), ..decode(&base).unwrap() })
            .unwrap_err()
            .message,
        "auto_receive must be 0 or 1"
    );
}

#[test]
fn settings_files_are_bounded_and_peers_must_match() {
    assert!(check_length(0).is_err());
    assert!(check_length(1).is_ok());
    assert!(check_length(SETTINGS_LIMIT).is_ok());
    assert!(check_length(SETTINGS_LIMIT + 1).is_err());
    let settings = load(&base()).unwrap();
    assert!(settings.check_peer(CertificateFingerprint::from_certificate(b"peer")).is_ok());
    assert!(settings.check_peer(CertificateFingerprint::from_certificate(b"other")).is_err());
}

#[test]
fn only_private_endpoints_with_a_port_are_taken() {
    for (text, taken) in [
        ("127.0.0.1:1", true),
        ("10.255.255.255:65535", true),
        ("172.16.0.1:80", true),
        ("172.32.0.1:80", false),
        ("192.168.0.1:0", false),
        ("192.169.0.1:80", false),
    ] {
        assert_eq!(validate_private_endpoint(endpoint(text).unwrap()).is_ok(), taken, "{text}");
    }
    let unique_local = Endpoint::new(IpAddress::V6(0xfd00 << 112), 80);
    assert!(validate_private_endpoint(unique_local).is_ok());
    let global = Endpoint::new(IpAddress::V6(0x2001 << 112), 80);
    assert!(validate_private_endpoint(global).is_err());
}
