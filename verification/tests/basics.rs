use clipferry::security::CertificateFingerprint;
use clipferry::{validation_banner, APP_NAME};

#[test]
fn validation_banner_identifies_the_application() {
    assert!(validation_banner().starts_with(APP_NAME));
}

#[test]
fn banner_is_spelled_out() {
    assert_eq!(validation_banner(), "ClipFerry technical validation");
}

#[test]
fn fingerprint_round_trip_is_full_length_and_unambiguous() {
    let fingerprint = CertificateFingerprint::from_certificate(b"certificate");
    let displayed = fingerprint.to_text();
    assert_eq!(displayed.len(), 95);
    assert_eq!(CertificateFingerprint::parse(&displayed).unwrap(), fingerprint);
    assert_eq!(
        CertificateFingerprint::parse(&displayed.replace(':', "").to_ascii_lowercase()).unwrap(),
        fingerprint
    );
    assert!(CertificateFingerprint::parse("00:11").is_err());
}

#[test]
fn fingerprints_are_digests() {
    let empty = CertificateFingerprint::from_certificate(b"");
    assert_eq!(
        empty.to_text(),
        "E3:B0:C4:42:98:FC:1C:14:9A:FB:F4:C8:99:6F:B9:24:27:AE:41:E4:64:9B:93:4C:A4:95:99:1B:78:52:B8:55"
    );
    assert_eq!(CertificateFingerprint::from_bytes(empty.bytes()), empty);
    assert_eq!(
        CertificateFingerprint::parse("xy").unwrap_err().message,
        "certificate fingerprint must contain exactly 32 hexadecimal bytes"
    );
}
