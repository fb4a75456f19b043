use clipferry::address::{is_private_or_loopback, Endpoint, IpAddress};
use clipferry::app_settings::AppSettings;
use clipferry::discovery::network::{
    activate_discovered_peer, collect_private_ipv4_interfaces, directed_broadcast,
    discovery_broadcast_targets, discovery_endpoint, reconcile_trusted_endpoint, route_local_ip,
    Interface,
};
use clipferry::discovery::packet::{
    bounded_label, Packet, ANNOUNCEMENT, HEADER_LENGTH, LABEL_LIMIT, RESPONSE,
};
use clipferry::discovery::peers::{
    receive_pause, DiscoveredPeer, DiscoveryRuntime, DiscoveryView, ANNOUNCE_INTERVAL, PEER_TTL,
    RECEIVE_PAUSE,
};
use clipferry::discovery::{DISCOVERY_PORT, PAIRING_PORT, SERVICE_PORT};
use clipferry::failure::FailureKind;
use clipferry::security::CertificateFingerprint;

fn v4(text: &str) -> u32 {
    text.split('.').fold(0, |value, part| (value << 8) | part.parse::<u32>().unwrap())
}

fn ip(text: &str) -> IpAddress {
    IpAddress::V4(v4(text))
}

fn peer(name: &[u8], label: &str) -> DiscoveredPeer {
    DiscoveredPeer {
        fingerprint: CertificateFingerprint::from_certificate(name),
        label: label.to_owned(),
        service_endpoint: Endpoint::new(ip("192.168.1.2"), SERVICE_PORT),
        pairing_endpoint: Endpoint::new(ip("192.168.1.2"), PAIRING_PORT),
    }
}

#[test]
fn packet_round_trip_is_strict() {
    let fingerprint = CertificateFingerprint::from_certificate(b"peer");
    let packet = Packet::new(ANNOUNCEMENT, fingerprint, "测试电脑-🚢");
    let encoded = packet.encode().unwrap();
    let decoded = Packet::decode(&encoded).unwrap();
    assert_eq!(decoded.kind, packet.kind);
    assert_eq!(decoded.fingerprint, packet.fingerprint);
    assert_eq!(decoded.service_port, packet.service_port);
    assert_eq!(decoded.pairing_port, packet.pairing_port);
    assert_eq!(decoded.label, packet.label);

    let mut trailing = encoded.clone();
    trailing.push(0);
    assert!(Packet::decode(&trailing).is_err());
    assert!(Packet::decode(&encoded[..HEADER_LENGTH - 1]).is_err());

    let mut wrong_port = encoded;
    wrong_port[43..45].copy_from_slice(&45_999_u16.to_le_bytes());
    assert!(Packet::decode(&wrong_port).is_err());
}

#[test]
fn bounded_label_preserves_utf8_boundaries() {
    let label = bounded_label(&format!("{}🚢", "a".repeat(LABEL_LIMIT - 1)));
    assert!(label.len() <= LABEL_LIMIT);
    assert!(label.is_char_boundary(label.len()));
}

#[test]
fn labels_are_cleaned_and_cut() {
    assert_eq!(bounded_label("  my\tPC \r\n"), "myPC");
    assert_eq!(bounded_label(" \u{7} "), "Windows 设备");
    assert_eq!(bounded_label(&"é".repeat(40)), "é".repeat(31));
    assert_eq!(bounded_label(&format!("{}🚢", "a".repeat(62))), "a".repeat(62));
}

#[test]
fn every_fault_of_a_packet_is_told() {
    let fingerprint = CertificateFingerprint::from_certificate(b"peer");
    let good = Packet::new(RESPONSE, fingerprint, "ab").encode().unwrap();
    assert_eq!(good.len(), HEADER_LENGTH + 2);
    assert_eq!(&good[..11], b"CFDISC01\x01\x00\x02");
    let cases: [(usize, u8, &str); 7] = [
        (0, b'X', "discovery packet magic mismatch"),
        (8, 2, "unsupported discovery packet version"),
        (10, 3, "unknown discovery packet kind"),
        (45, 0, "discovery packet contains unsupported service ports"),
        (47, 0, "invalid discovery device label length"),
        (48, 0xff, "discovery device label is not UTF-8"),
        (49, 0x07, "discovery device label contains control characters"),
    ];
    for (at, value, message) in cases {
        let mut bad = good.clone();
        bad[at] = value;
        assert_eq!(Packet::decode(&bad).unwrap_err().message, message);
    }
    assert_eq!(
        Packet::decode(&[0; 200]).unwrap_err().message,
        "invalid discovery packet length"
    );
    let mut packet = Packet::new(ANNOUNCEMENT, fingerprint, "ab");
    packet.label = String::new();
    assert_eq!(packet.encode().unwrap_err().message, "invalid discovery device label");
    packet.kind = 9;
    assert_eq!(packet.encode().unwrap_err().message, "invalid discovery packet fields");
}

#[test]
fn discovery_rejects_public_sources() {
    assert!(is_private_or_loopback(ip("127.0.0.1")));
    assert!(is_private_or_loopback(ip("192.168.1.2")));
    assert!(!is_private_or_loopback(ip("8.8.8.8")));
}

#[test]
fn directed_broadcast_uses_each_interface_prefix() {
    assert_eq!(directed_broadcast(v4("192.168.137.1"), 24), Some(v4("192.168.137.255")));
    assert_eq!(directed_broadcast(v4("172.20.144.1"), 20), Some(v4("172.20.159.255")));
    assert_eq!(directed_broadcast(v4("8.8.8.8"), 24), None);
    assert_eq!(directed_broadcast(v4("192.168.137.1"), 31), None);
}

#[test]
fn broadcast_targets_are_ordered_and_distinct() {
    assert_eq!(directed_broadcast(v4("10.1.2.3"), 0), None);
    assert_eq!(directed_broadcast(v4("10.1.2.3"), 1), Some(v4("127.255.255.255")));
    assert_eq!(directed_broadcast(v4("10.1.2.3"), 30), Some(v4("10.1.2.3")));
    let interface = |address: &str, prefix_length| Interface { address: v4(address), prefix_length };
    let found = [
        interface("192.168.1.9", 24),
        interface("10.0.0.7", 8),
        interface("192.168.1.5", 24),
        interface("8.8.8.8", 24),
        interface("10.0.0.7", 8),
        interface("10.0.0.7", 33),
    ];
    assert_eq!(
        discovery_broadcast_targets(&found),
        vec![v4("10.255.255.255"), v4("192.168.1.255"), u32::MAX]
    );
    assert_eq!(discovery_broadcast_targets(&[]), vec![u32::MAX]);
    assert_eq!(
        collect_private_ipv4_interfaces(&found),
        vec![
            interface("10.0.0.7", 8),
            interface("192.168.1.5", 24),
            interface("192.168.1.9", 24)
        ]
    );
    assert_eq!(discovery_endpoint(7), Endpoint::new(IpAddress::V4(7), DISCOVERY_PORT));
}

#[test]
fn devices_are_listed_in_order_until_they_fall_silent() {
    let mut view = DiscoveryView::new();
    view.note(peer(b"b", "beta"), 0);
    view.note(peer(b"a", "alpha"), 5);
    view.note(peer(b"c", "alpha"), 5);
    let labels = |view: &mut DiscoveryView, now| {
        view.peers(now).iter().map(|peer| peer.label.clone()).collect::<Vec<_>>()
    };
    assert_eq!(labels(&mut view, 6), ["alpha", "alpha", "beta"]);
    let listed = view.peers(6);
    assert!(listed[0].fingerprint.to_text() < listed[1].fingerprint.to_text());
    view.note(peer(b"a", "zeta"), PEER_TTL);
    assert_eq!(labels(&mut view, PEER_TTL), ["alpha", "beta", "zeta"]);
    assert_eq!(labels(&mut view, PEER_TTL + 1), ["alpha", "zeta"]);
    assert_eq!(labels(&mut view, PEER_TTL + 6), ["zeta"]);
    let known = CertificateFingerprint::from_certificate(b"a");
    assert_eq!(view.peer(known, PEER_TTL + 6).unwrap().label, "zeta");
    assert!(view.peer(CertificateFingerprint::from_certificate(b"b"), PEER_TTL + 6).is_none());
}

#[test]
fn a_device_announces_itself_and_answers_others() {
    let own = CertificateFingerprint::from_certificate(b"own");
    let other = CertificateFingerprint::from_certificate(b"other");
    let mut runtime = DiscoveryRuntime::start(own, "Own", 10 * ANNOUNCE_INTERVAL);
    assert!(runtime.announcement_due(10 * ANNOUNCE_INTERVAL));
    assert!(!runtime.announcement_due(11 * ANNOUNCE_INTERVAL - 1));
    assert!(runtime.announcement_due(11 * ANNOUNCE_INTERVAL));
    assert_eq!(Packet::decode(runtime.announcement()).unwrap().kind, ANNOUNCEMENT);
    assert_eq!(Packet::decode(runtime.response()).unwrap().kind, RESPONSE);
    let near = Endpoint::new(ip("192.168.1.20"), 50_000);
    let far = Endpoint::new(ip("8.8.8.8"), 50_000);
    let asked = Packet::new(ANNOUNCEMENT, other, "Other").encode().unwrap();
    let answered = Packet::new(RESPONSE, other, "Other").encode().unwrap();
    let own_announcement = runtime.announcement().to_vec();
    assert!(runtime.receive(&own_announcement, near, 1).is_none());
    assert!(runtime.receive(&asked, far, 1).is_none());
    assert!(runtime.receive(&asked[1..], near, 1).is_none());
    assert!(runtime.peers(1).is_empty());
    let sighting = runtime.receive(&asked, near, 1).unwrap();
    assert!(sighting.reply);
    assert_eq!(sighting.peer.service_endpoint, Endpoint::new(ip("192.168.1.20"), SERVICE_PORT));
    assert_eq!(sighting.peer.pairing_endpoint, Endpoint::new(ip("192.168.1.20"), PAIRING_PORT));
    assert!(!runtime.receive(&answered, near, 2).unwrap().reply);
    assert_eq!(runtime.peers(3).len(), 1);
    assert_eq!(runtime.peer(other, 3).unwrap().label, "Other");
    assert_eq!(receive_pause(FailureKind::TimedOut), 0);
    assert_eq!(receive_pause(FailureKind::WouldBlock), 0);
    assert_eq!(receive_pause(FailureKind::Other), RECEIVE_PAUSE);
}

#[test]
fn only_the_active_trusted_device_changes_the_settings() {
    let found = peer(b"peer", "Peer");
    let local = ip("192.168.1.1");
    let fresh = reconcile_trusted_endpoint(true, None, &found, Some(local)).unwrap();
    assert!(fresh.same(&activate_discovered_peer(&found, local)));
    assert!(fresh.auto_receive);
    assert_eq!(fresh.local_endpoint, Endpoint::new(local, SERVICE_PORT));
    assert!(reconcile_trusted_endpoint(false, None, &found, Some(local)).is_none());
    assert!(reconcile_trusted_endpoint(true, None, &found, None).is_none());
    assert!(reconcile_trusted_endpoint(true, Some(fresh), &found, Some(local)).is_none());
    let quiet = AppSettings { auto_receive: false, ..fresh };
    let moved = reconcile_trusted_endpoint(true, Some(quiet), &found, Some(ip("10.0.0.1"))).unwrap();
    assert!(!moved.auto_receive);
    let other = AppSettings {
        active_peer: CertificateFingerprint::from_certificate(b"other"),
        ..fresh
    };
    assert!(reconcile_trusted_endpoint(true, Some(other), &found, Some(local)).is_none());
    assert_eq!(route_local_ip(local), Ok(local));
    assert_eq!(
        route_local_ip(ip("8.8.8.8")).unwrap_err().message,
        "the discovered peer has no private local route"
    );
}
