//! What devices on the local network learn of each other: who is heard and listed, for how long,
//! under which name, and how a device is reached from then on.

use super::network;
use super::network::Interface;
use super::packet;
use super::packet::PacketView;
use super::peers;
use super::peers::{DiscoveredPeer, DiscoveredPeerView, DiscoveryRuntime, SeenPeerView, Sighting};
use crate::address;
use crate::address::{Endpoint, IpAddress};
use crate::app_settings::AppSettings;
use crate::bytes;
use crate::failure::Failure;
use crate::security;
use crate::security::CertificateFingerprint;
use crate::text;
use vstd::arithmetic::power2;
use vstd::prelude::*;
use vstd::utf8;

verus! {

/// What a device says of itself: that it is there, or that it heard another.
pub open spec fn said(kind: u8, fingerprint: Seq<u8>, label: Seq<char>) -> PacketView {
    PacketView { kind, fingerprint, service_port: 45_233, pairing_port: 45_232, label }
}

/// Whether a label is one that a device may send: one to 63 bytes of UTF-8, and no control codes.
pub open spec fn is_label(label: Seq<char>) -> bool {
    &&& 1 <= utf8::encode_utf8(label).len() <= 63
    &&& forall|k: int|
        0 <= k < label.len() ==> 32 <= #[trigger] (label[k] as u32) && !(127 <= label[k] as u32 <= 159)
}

proof fn lemma_label_has_no_control(label: Seq<char>)
    requires
        is_label(label),
    ensures
        !text::has_control(label),
{
    if text::has_control(label) {
        let k = choose|k: int| 0 <= k < label.len() && text::is_control(#[trigger] label[k]);
        assert(32 <= label[k] as u32 && !(127 <= label[k] as u32 <= 159));
    }
}

/// Whoever says on the local network that it is there is heard, with its name, at the address
/// from which it speaks, and is answered; whoever answers is heard and not answered. What was known
/// of other devices stays.
pub proof fn lemma_devices_are_heard(
    own: CertificateFingerprint,
    seen: Seq<SeenPeerView>,
    kind: u8,
    fingerprint: CertificateFingerprint,
    label: Seq<char>,
    source: Endpoint,
    now: u64,
    sighted: Option<Sighting>,
    after: Seq<SeenPeerView>,
)
    requires
        kind == 1 || kind == 2,
        fingerprint.0@ != own.0@,
        is_label(label),
        address::local_by_bytes(source.ip),
        peers::hearing(
            own,
            seen,
            packet::packet_bytes(said(kind, fingerprint.0@, label)),
            source,
            now,
            sighted,
            after,
        ),
    ensures
        ({
            let peer = DiscoveredPeerView {
                fingerprint,
                label,
                service_endpoint: Endpoint { ip: source.ip, port: 45_233, scope: 0 },
                pairing_endpoint: Endpoint { ip: source.ip, port: 45_232, scope: 0 },
            };
            &&& sighted matches Some(sighting)
            &&& sighting.peer@ == peer
            &&& sighting.reply == (kind == 1)
            &&& after.contains((SeenPeerView { peer, last_seen: now }))
        }),
        forall|k: int|
            0 <= k < seen.len() && (#[trigger] seen[k]).peer.fingerprint != fingerprint
                ==> after.contains(seen[k]),
        peers::distinct(seen) ==> forall|k: int|
            0 <= k < after.len() ==> (#[trigger] after[k]).peer.fingerprint == fingerprint || seen.contains(
                after[k],
            ),
{
    lemma_label_has_no_control(label);
    let packet = said(kind, fingerprint.0@, label);
    packet::lemma_packet_round_trip(packet);
    address::lemma_near_addresses(source.ip);
    let heard = sighted->0;
    assert(heard.peer.fingerprint.0 =~= fingerprint.0);
    let latest = SeenPeerView { peer: heard.peer@, last_seen: now };
    lemma_noting(seen, latest);
}

proof fn lemma_noting(seen: Seq<SeenPeerView>, latest: SeenPeerView)
    ensures
        peers::noted(seen, latest).contains(latest),
        forall|k: int|
            0 <= k < seen.len() && (#[trigger] seen[k]).peer.fingerprint != latest.peer.fingerprint
                ==> peers::noted(seen, latest).contains(seen[k]),
        forall|k: int|
            0 <= k < peers::noted(seen, latest).len() ==> (#[trigger] peers::noted(
                seen,
                latest,
            )[k]) == latest || seen.contains(peers::noted(seen, latest)[k]),
{
    peers::lemma_place_of(seen, latest.peer.fingerprint);
    let place = peers::place_of(seen, latest.peer.fingerprint) as int;
    let after = peers::noted(seen, latest);
    assert(after[place] == latest);
    assert forall|k: int|
        0 <= k < seen.len() && (#[trigger] seen[k]).peer.fingerprint
            != latest.peer.fingerprint implies after.contains(seen[k]) by {
        assert(after[k] == seen[k]);
    }
    assert forall|k: int| 0 <= k < after.len() implies (#[trigger] after[k]) == latest || seen.contains(
        after[k],
    ) by {
        if k != place {
            assert(after[k] == seen[k]);
        }
    }
}

/// Whoever speaks from outside the local network, or with the identity of the device itself, is not
/// heard; nor is anything that is no packet. Nothing changes then.
pub proof fn lemma_others_are_not_heard(
    own: CertificateFingerprint,
    seen: Seq<SeenPeerView>,
    encoded: Seq<u8>,
    source: Endpoint,
    now: u64,
    sighted: Option<Sighting>,
    after: Seq<SeenPeerView>,
)
    requires
        peers::hearing(own, seen, encoded, source, now, sighted, after),
        !address::local_by_bytes(source.ip) || forall|kind: u8, fingerprint: Seq<u8>, label: Seq<char>|
            encoded == #[trigger] packet::packet_bytes(said(kind, fingerprint, label)) ==> !is_label(label)
                || fingerprint == own.0@ || fingerprint.len() != 32 || (kind != 1 && kind != 2),
    ensures
        sighted is None,
        after == seen,
{
    address::lemma_near_addresses(source.ip);
    packet::lemma_packet_is_strict(encoded);
    if let Ok(packet) = packet::packet_outcome(encoded) {
        assert(packet == said(packet.kind, packet.fingerprint, packet.label));
        assert forall|k: int| 0 <= k < packet.label.len() implies 32 <= #[trigger] (
        packet.label[k] as u32) && !(127 <= packet.label[k] as u32 <= 159) by {
            assert(!text::is_control(packet.label[k]));
        }
        assert(encoded == packet::packet_bytes(
            said(packet.kind, packet.fingerprint, packet.label),
        ));
    }
}

/// A packet starts with eight letters and a version, then holds a kind, a fingerprint, two ports
/// with the lower byte first, and a label with its length before it.
pub proof fn lemma_packet_layout(kind: u8, fingerprint: Seq<u8>, label: Seq<char>)
    requires
        fingerprint.len() == 32,
        is_label(label),
    ensures
        ({
            let sent = packet::packet_bytes(said(kind, fingerprint, label));
            let letters = utf8::encode_utf8(label);
            &&& sent.len() == 48 + letters.len()
            &&& sent.take(8) == seq![67u8, 70u8, 68u8, 73u8, 83u8, 67u8, 48u8, 49u8]
            &&& sent[8] == 1 && sent[9] == 0
            &&& sent[10] == kind
            &&& sent.subrange(11, 43) == fingerprint
            &&& sent[43] == 0xb1 && sent[44] == 0xb0
            &&& sent[45] == 0xb0 && sent[46] == 0xb0
            &&& sent[47] == letters.len()
            &&& sent.skip(48) == letters
        }),
{
    let letters = utf8::encode_utf8(label);
    bytes::lemma_two_bytes(1);
    bytes::lemma_two_bytes(45_233);
    bytes::lemma_two_bytes(45_232);
    let sent = packet::packet_bytes(said(kind, fingerprint, label));
    assert(sent.take(8) =~= seq![67u8, 70u8, 68u8, 73u8, 83u8, 67u8, 48u8, 49u8]);
    assert(sent.subrange(11, 43) =~= fingerprint);
    assert(sent.skip(48) =~= letters);
}

/// Two devices that look for each other on a local network hear what the other says as it starts,
/// under the name that it was given.
pub proof fn lemma_devices_find_each_other(
    fingerprint: CertificateFingerprint,
    name: &str,
    started: u64,
    other: DiscoveryRuntime,
    own: CertificateFingerprint,
    seen: Seq<SeenPeerView>,
    source: Endpoint,
    now: u64,
    asked: Option<Sighting>,
    after_asking: Seq<SeenPeerView>,
    answered: Option<Sighting>,
    after_answering: Seq<SeenPeerView>,
)
    requires
        call_ensures(DiscoveryRuntime::start, (fingerprint, name, started), other),
        fingerprint.0@ != own.0@,
        address::local_by_bytes(source.ip),
        peers::hearing(own, seen, other.spec_announcement(), source, now, asked, after_asking),
        peers::hearing(own, seen, other.spec_response(), source, now, answered, after_answering),
    ensures
        asked matches Some(sighting) && sighting.reply && sighting.peer.fingerprint == fingerprint
            && sighting.peer.label@ == packet::label_of(name@) && sighting.peer.service_endpoint == (
        Endpoint { ip: source.ip, port: 45_233, scope: 0 }),
        answered matches Some(sighting) && !sighting.reply && sighting.peer.fingerprint == fingerprint
            && sighting.peer.label@ == packet::label_of(name@) && sighting.peer.pairing_endpoint == (
        Endpoint { ip: source.ip, port: 45_232, scope: 0 }),
        other.seen().len() == 0,
        started >= 2_000_000_000 ==> peers::is_due(other.spec_last_announcement(), started),
{
    packet::lemma_label_is_sendable(name@);
    let label = packet::label_of(name@);
    assert forall|k: int| 0 <= k < label.len() implies 32 <= #[trigger] (label[k] as u32) && !(127
        <= label[k] as u32 <= 159) by {
        assert(!text::is_control(label[k]));
    }
    lemma_devices_are_heard(own, seen, 1, fingerprint, label, source, now, asked, after_asking);
    lemma_devices_are_heard(own, seen, 2, fingerprint, label, source, now, answered, after_answering);
}

/// A device announces itself again as soon as two seconds went by since it last did.
pub proof fn lemma_announcements_repeat(last: u64, now: u64)
    ensures
        peers::is_due(last, now) <==> now >= last + 2_000_000_000,
{
}

/// Whoever was heard of within the last twelve seconds is listed, and nobody else is.
pub proof fn lemma_devices_are_listed(seen: Seq<SeenPeerView>, now: u64)
    ensures
        forall|k: int|
            0 <= k < seen.len() && now <= (#[trigger] seen[k]).last_seen + 12_000_000_000
                ==> peers::listing(peers::kept(seen, now)).contains(seen[k].peer),
        forall|k: int|
            0 <= k < peers::listing(peers::kept(seen, now)).len() ==> exists|j: int|
                0 <= j < seen.len() && now <= (#[trigger] seen[j]).last_seen + 12_000_000_000
                    && #[trigger] peers::listing(peers::kept(seen, now))[k] == seen[j].peer,
{
    let kept = peers::kept(seen, now);
    let listed = peers::listing(kept);
    let devices = peers::devices(kept);
    peers::lemma_silent_devices_vanish(seen, now);
    peers::lemma_kept_comes_from(seen, now);
    peers::lemma_listing_is_complete(kept);
    broadcast use vstd::seq_lib::group_to_multiset_ensures;

    assert forall|k: int|
        0 <= k < seen.len() && now <= (#[trigger] seen[k]).last_seen + 12_000_000_000 implies listed.contains(
        seen[k].peer,
    ) by {
        assert(peers::fresh(seen[k], now));
        assert(kept.contains(seen[k]));
        let j = choose|j: int| 0 <= j < kept.len() && kept[j] == seen[k];
        assert(devices[j] == seen[k].peer);
        assert(devices.contains(seen[k].peer));
        assert(devices.to_multiset().count(seen[k].peer) > 0);
        assert(listed.to_multiset().count(seen[k].peer) > 0);
    }
    assert forall|k: int| 0 <= k < listed.len() implies exists|j: int|
        0 <= j < seen.len() && now <= (#[trigger] seen[j]).last_seen + 12_000_000_000
            && #[trigger] listed[k] == seen[j].peer by {
        assert(listed.contains(listed[k]));
        assert(listed.to_multiset().count(listed[k]) > 0);
        assert(devices.to_multiset().count(listed[k]) > 0);
        assert(devices.contains(listed[k]));
        let i = choose|i: int| 0 <= i < devices.len() && devices[i] == listed[k];
        assert(devices[i] == kept[i].peer);
        assert(peers::fresh(kept[i], now));
        let j = choose|j: int| 0 <= j < seen.len() && kept[i] == seen[j];
        assert(seen[j].peer == listed[k]);
    }
}

/// Devices are listed in the order of their names; those with one name, in that of their
/// fingerprints.
pub proof fn lemma_devices_are_sorted(seen: Seq<SeenPeerView>, j: int, k: int)
    requires
        0 <= j < k < peers::listing(seen).len(),
    ensures
        ({
            let first = peers::listing(seen)[j];
            let second = peers::listing(seen)[k];
            ||| text::text_before(first.label, second.label)
            ||| first.label == second.label && !text::text_before(
                security::fingerprint_text(second.fingerprint.0@),
                security::fingerprint_text(first.fingerprint.0@),
            )
        }),
{
    peers::lemma_listing_is_in_order(seen);
    let first = peers::listing(seen)[j];
    let second = peers::listing(seen)[k];
    assert(!peers::before(second, first));
    if first.label != second.label {
        peers::lemma_text_before_is_total(first.label, second.label);
    }
}

/// A name that fits, that has no control codes and no whitespace around it, is sent as it is.
pub proof fn lemma_plain_names_are_kept(name: Seq<char>)
    requires
        is_label(name),
        name.len() > 0,
        !text::is_whitespace(name[0]),
        !text::is_whitespace(name.last()),
    ensures
        packet::label_of(name) == name,
{
    lemma_label_has_no_control(name);
    assert(text::trimmed(name) == name);
    lemma_nothing_to_clean(name);
}

proof fn lemma_nothing_to_clean(name: Seq<char>)
    requires
        !text::has_control(name),
    ensures
        packet::without_control(name) == name,
    decreases name.len(),
{
    if name.len() > 0 {
        assert(!text::is_control(name.last())) by {
            assert(name.last() == name[name.len() - 1]);
        }
        let rest = name.drop_last();
        assert forall|k: int| 0 <= k < rest.len() implies !text::is_control(#[trigger] rest[k]) by {
            assert(rest[k] == name[k]);
        }
        lemma_nothing_to_clean(rest);
        assert(rest.push(name.last()) =~= name);
    }
}

/// Control codes are left out of a name; every other character stays, where it stood.
pub proof fn lemma_names_are_cleaned(name: Seq<char>, next: char)
    ensures
        packet::without_control(Seq::empty()) == Seq::<char>::empty(),
        packet::without_control(name.push(next)) == if (next as u32) < 32 || 127 <= next as u32 <= 159 {
            packet::without_control(name)
        } else {
            packet::without_control(name).push(next)
        },
{
    assert(name.push(next).drop_last() =~= name);
}

/// A longer name is cut behind the last character that still fits into 63 bytes; a name of
/// nothing but whitespace becomes the default one.
pub proof fn lemma_long_names_are_cut(name: Seq<char>)
    ensures
        ({
            let whole = packet::without_control(text::trimmed(name));
            let label = packet::label_of(name);
            &&& whole.len() > 0 ==> {
                &&& label.len() <= whole.len()
                &&& label == whole.take(label.len() as int)
                &&& label.len() < whole.len() ==> utf8::encode_utf8(
                    whole.take(label.len() as int + 1),
                ).len() > 63
            }
            &&& whole.len() == 0 ==> label == "Windows 设备"@
        }),
        1 <= utf8::encode_utf8(packet::label_of(name)).len() <= 63,
{
    packet::lemma_label_is_sendable(name);
    let whole = packet::without_control(text::trimmed(name));
    if whole.len() > 0 {
        packet::lemma_fitting_keeps(whole, 63);
        lemma_fitting_is_longest(whole, 63);
    } else {
        reveal_strlit("Windows 设备");
        packet::lemma_utf8_is_bounded("Windows 设备"@);
    }
}

proof fn lemma_fitting_is_longest(text: Seq<char>, limit: nat)
    ensures
        ({
            let kept = packet::fitting(text, limit);
            kept.len() < text.len() ==> utf8::encode_utf8(text.take(kept.len() as int + 1)).len() > limit
        }),
    decreases text.len(),
{
    if text.len() > 0 && utf8::encode_utf8(text).len() > limit {
        let rest = text.drop_last();
        packet::lemma_fitting_keeps(rest, limit);
        lemma_fitting_is_longest(rest, limit);
        let kept = packet::fitting(rest, limit);
        if kept.len() < rest.len() {
            assert(rest.take(kept.len() as int + 1) =~= text.take(kept.len() as int + 1));
        } else {
            assert(text.take(kept.len() as int + 1) =~= text);
        }
    }
}

/// An announcement to a private network goes to its last address: that of the same network with all
/// of its other bits set.
pub proof fn lemma_networks_are_reached(interface: Interface)
    ensures
        ({
            let private = address::local_by_bytes(IpAddress::V4(interface.address)) && interface.address as int
                / 0x100_0000 != 127;
            match network::broadcast_of(interface) {
                None => !private || !(1 <= interface.prefix_length <= 30),
                Some(target) => {
                    let size = power2::pow2((32 - interface.prefix_length) as nat) as int;
                    &&& private
                    &&& 1 <= interface.prefix_length <= 30
                    &&& target as int / size == interface.address as int / size
                    &&& target as int % size == size - 1
                },
            }
        }),
{
    address::lemma_near_addresses(IpAddress::V4(interface.address));
    if let Some(target) = network::broadcast_of(interface) {
        let bits = (32 - interface.prefix_length) as nat;
        let size = power2::pow2(bits) as int;
        network::lemma_last_of_network(interface.address as int, bits);
        let number = interface.address as int / size;
        vstd::arithmetic::div_mod::lemma_fundamental_div_mod_converse(
            number * size + size - 1,
            size,
            number,
            size - 1,
        );
    }
}

/// Announcements always go to everyone on the network at hand, and to each private network.
pub proof fn lemma_targets(interfaces: Seq<Interface>, target: u32)
    ensures
        network::is_target(interfaces, target) <==> target == 0xffff_ffff || exists|k: int|
            0 <= k < interfaces.len() && network::broadcast_of(#[trigger] interfaces[k]) == Some(target),
        forall|k: int|
            0 <= k < interfaces.len() ==> (network::usable(#[trigger] interfaces[k]) <==> (
            interfaces[k].prefix_length <= 32 && address::local_by_bytes(
                IpAddress::V4(interfaces[k].address),
            ) && interfaces[k].address as int / 0x100_0000 != 127)),
{
    assert forall|k: int| 0 <= k < interfaces.len() implies (network::usable(#[trigger] interfaces[k])
        <==> (interfaces[k].prefix_length <= 32 && address::local_by_bytes(
        IpAddress::V4(interfaces[k].address),
    ) && interfaces[k].address as int / 0x100_0000 != 127)) by {
        address::lemma_near_addresses(IpAddress::V4(interfaces[k].address));
    }
}

/// A trusted device to which there is a route becomes the active one where there was none; where it
/// was the active one already, where it is reached is brought up to date and nothing else. Another
/// device, and one that is not trusted, never change the settings.
pub proof fn lemma_trusted_devices_are_followed(
    trusted: bool,
    existing: Option<AppSettings>,
    peer: &DiscoveredPeer,
    local: Option<IpAddress>,
    settings: Option<AppSettings>,
)
    requires
        call_ensures(network::reconcile_trusted_endpoint, (trusted, existing, peer, local), settings),
    ensures
        !trusted || local is None ==> settings is None,
        existing matches Some(before) && before.active_peer != peer.fingerprint ==> settings is None,
        trusted && existing is None && local is Some ==> settings is Some && settings->0.auto_receive,
        settings matches Some(after) ==> {
            &&& after.active_peer == peer.fingerprint
            &&& after.peer_endpoint == peer.service_endpoint
            &&& after.local_endpoint == (Endpoint { ip: local->0, port: 45_233, scope: 0 })
            &&& existing matches Some(before) ==> after.auto_receive == before.auto_receive && after != before
        },
        trusted && local is Some && settings is None ==> (existing matches Some(before)
            && (before.active_peer != peer.fingerprint || (before.peer_endpoint == peer.service_endpoint
            && before.local_endpoint == (Endpoint { ip: local->0, port: 45_233, scope: 0 })))),
{
}

/// Choosing a device makes it the active one, and has files received from it without asking.
pub proof fn lemma_chosen_devices_are_active(
    peer: &DiscoveredPeer,
    local: IpAddress,
    settings: AppSettings,
)
    requires
        call_ensures(network::activate_discovered_peer, (peer, local), settings),
    ensures
        settings.active_peer == peer.fingerprint,
        settings.peer_endpoint == peer.service_endpoint,
        settings.local_endpoint == (Endpoint { ip: local, port: 45_233, scope: 0 }),
        settings.auto_receive,
{
}

/// A device is reached only from this device itself or from the local network.
pub proof fn lemma_routes_are_local(local: IpAddress, result: Result<IpAddress, Failure>)
    requires
        call_ensures(network::route_local_ip, (local,), result),
    ensures
        result is Ok <==> address::local_by_bytes(local),
        result matches Ok(route) ==> route == local,
{
    address::lemma_near_addresses(local);
}

/// Announcements go to each network once, in the order of their addresses, and so do the networks
/// themselves come; of two prefixes of one address the shorter comes first.
pub proof fn lemma_networks_come_once(
    found: &[Interface],
    interfaces: Vec<Interface>,
    targets: Vec<u32>,
    j: int,
    k: int,
)
    requires
        call_ensures(network::collect_private_ipv4_interfaces, (found,), interfaces),
        call_ensures(network::discovery_broadcast_targets, (found,), targets),
        0 <= j < k,
    ensures
        k < targets@.len() ==> targets@[j] < targets@[k],
        k < interfaces@.len() ==> interfaces@[j].address <= interfaces@[k].address,
        k < interfaces@.len() && interfaces@[j].address == interfaces@[k].address
            ==> interfaces@[j].prefix_length < interfaces@[k].prefix_length,
{
    if k < interfaces@.len() {
        assert(network::interface_key(interfaces@[j]) < network::interface_key(interfaces@[k]));
    }
}

} // verus!
