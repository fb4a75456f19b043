//! The devices that were seen on the local network, for as long as they are heard of.

use super::packet;
use super::packet::{Packet, ANNOUNCEMENT, RESPONSE};
use super::{PAIRING_PORT, SERVICE_PORT};
use crate::address::{is_private_or_loopback, Endpoint};
use crate::failure::FailureKind;
use crate::security;
use crate::security::CertificateFingerprint;
use crate::text;
use vstd::prelude::*;

verus! {

/// How long a device counts as seen, in nanoseconds.
pub const PEER_TTL: u64 = 12_000_000_000;

/// How often a device announces itself, in nanoseconds.
pub const ANNOUNCE_INTERVAL: u64 = 2_000_000_000;

/// How long a device waits for packets at a time, in nanoseconds.
pub const RECEIVE_TIMEOUT: u64 = 400_000_000;

/// How long a device waits after the network failed, in nanoseconds.
pub const RECEIVE_PAUSE: u64 = 100_000_000;

/// A device on the local network.
#[derive(Debug)]
pub struct DiscoveredPeer {
    pub fingerprint: CertificateFingerprint,
    pub label: String,
    pub service_endpoint: Endpoint,
    pub pairing_endpoint: Endpoint,
}

pub struct DiscoveredPeerView {
    pub fingerprint: CertificateFingerprint,
    pub label: Seq<char>,
    pub service_endpoint: Endpoint,
    pub pairing_endpoint: Endpoint,
}

impl View for DiscoveredPeer {
    type V = DiscoveredPeerView;

    open spec fn view(&self) -> DiscoveredPeerView {
        DiscoveredPeerView {
            fingerprint: self.fingerprint,
            label: self.label@,
            service_endpoint: self.service_endpoint,
            pairing_endpoint: self.pairing_endpoint,
        }
    }
}

impl DiscoveredPeer {
    pub fn duplicate(&self) -> (copy: DiscoveredPeer)
        ensures
            copy@ == self@,
    {
        let mut label = String::new();
        text::push_text(&mut label, self.label.as_str());
        assert(label@ =~= self.label@);
        DiscoveredPeer {
            fingerprint: self.fingerprint,
            label,
            service_endpoint: self.service_endpoint,
            pairing_endpoint: self.pairing_endpoint,
        }
    }
}

/// A device and when it was last heard of, in nanoseconds.
#[derive(Debug)]
pub struct SeenPeer {
    pub peer: DiscoveredPeer,
    pub last_seen: u64,
}

pub struct SeenPeerView {
    pub peer: DiscoveredPeerView,
    pub last_seen: u64,
}

impl View for SeenPeer {
    type V = SeenPeerView;

    open spec fn view(&self) -> SeenPeerView {
        SeenPeerView { peer: self.peer@, last_seen: self.last_seen }
    }
}

/// Where a device stands among those that were seen; behind the last one where it does not.
pub open spec fn place_of(seen: Seq<SeenPeerView>, fingerprint: CertificateFingerprint) -> nat
    decreases seen.len(),
{
    if seen.len() == 0 {
        0
    } else if seen[0].peer.fingerprint == fingerprint {
        0
    } else {
        1 + place_of(seen.skip(1), fingerprint)
    }
}

/// Those that were seen once a device is heard of.
pub open spec fn noted(seen: Seq<SeenPeerView>, latest: SeenPeerView) -> Seq<SeenPeerView> {
    let place = place_of(seen, latest.peer.fingerprint) as int;
    if place < seen.len() {
        seen.update(place, latest)
    } else {
        seen.push(latest)
    }
}

/// Whether a device still counts as seen.
pub open spec fn fresh(peer: SeenPeerView, now: u64) -> bool {
    now <= peer.last_seen + PEER_TTL
}

/// Those that still count as seen.
pub open spec fn kept(seen: Seq<SeenPeerView>, now: u64) -> Seq<SeenPeerView>
    decreases seen.len(),
{
    if seen.len() == 0 {
        Seq::empty()
    } else if fresh(seen.last(), now) {
        kept(seen.drop_last(), now).push(seen.last())
    } else {
        kept(seen.drop_last(), now)
    }
}

/// Whether a device is listed before another: by label, then by fingerprint.
pub open spec fn before(left: DiscoveredPeerView, right: DiscoveredPeerView) -> bool {
    if left.label != right.label {
        text::text_before(left.label, right.label)
    } else {
        text::text_before(
            security::fingerprint_text(left.fingerprint.0@),
            security::fingerprint_text(right.fingerprint.0@),
        )
    }
}

/// Where a device goes in a list: behind all those that it does not come before.
pub open spec fn rank(listed: Seq<DiscoveredPeerView>, peer: DiscoveredPeerView) -> nat
    decreases listed.len(),
{
    if listed.len() == 0 || !before(peer, listed.last()) {
        listed.len()
    } else {
        rank(listed.drop_last(), peer)
    }
}

/// Those that were seen, in the order in which they are listed.
pub open spec fn listing(seen: Seq<SeenPeerView>) -> Seq<DiscoveredPeerView>
    decreases seen.len(),
{
    if seen.len() == 0 {
        Seq::empty()
    } else {
        let rest = listing(seen.drop_last());
        rest.insert(rank(rest, seen.last().peer) as int, seen.last().peer)
    }
}

/// Whether no device occurs twice.
pub open spec fn distinct(seen: Seq<SeenPeerView>) -> bool {
    forall|j: int, k: int|
        0 <= j < k < seen.len() ==> (#[trigger] seen[j]).peer.fingerprint != (
        #[trigger] seen[k]).peer.fingerprint
}

/// Whether devices are listed in order.
pub open spec fn in_order(listed: Seq<DiscoveredPeerView>) -> bool {
    forall|j: int, k: int|
        0 <= j < k < listed.len() ==> !before(#[trigger] listed[k], #[trigger] listed[j])
}

pub proof fn lemma_place_of(seen: Seq<SeenPeerView>, fingerprint: CertificateFingerprint)
    ensures
        place_of(seen, fingerprint) <= seen.len(),
        place_of(seen, fingerprint) < seen.len() ==> seen[place_of(
            seen,
            fingerprint,
        ) as int].peer.fingerprint == fingerprint,
        forall|k: int|
            0 <= k < place_of(seen, fingerprint) ==> (#[trigger] seen[k]).peer.fingerprint
                != fingerprint,
    decreases seen.len(),
{
    if seen.len() > 0 && seen[0].peer.fingerprint != fingerprint {
        let rest = seen.skip(1);
        lemma_place_of(rest, fingerprint);
        assert forall|k: int| 0 <= k < place_of(seen, fingerprint) implies (
        #[trigger] seen[k]).peer.fingerprint != fingerprint by {
            if k > 0 {
                assert(rest[k - 1] == seen[k]);
            }
        }
    }
}

proof fn lemma_place_is(seen: Seq<SeenPeerView>, fingerprint: CertificateFingerprint, at: int)
    requires
        0 <= at <= seen.len(),
        at < seen.len() ==> seen[at].peer.fingerprint == fingerprint,
        forall|k: int| 0 <= k < at ==> (#[trigger] seen[k]).peer.fingerprint != fingerprint,
    ensures
        place_of(seen, fingerprint) == at,
{
    lemma_place_of(seen, fingerprint);
    let found = place_of(seen, fingerprint) as int;
    if found < at {
        assert(seen[found].peer.fingerprint == fingerprint);
    }
    if at < found {
        assert(seen[at].peer.fingerprint != fingerprint);
    }
}

proof fn lemma_noted_is_distinct(seen: Seq<SeenPeerView>, latest: SeenPeerView)
    requires
        distinct(seen),
    ensures
        distinct(noted(seen, latest)),
{
    lemma_place_of(seen, latest.peer.fingerprint);
    let place = place_of(seen, latest.peer.fingerprint) as int;
    let longer = noted(seen, latest);
    assert forall|j: int, k: int| 0 <= j < k < longer.len() implies (
    #[trigger] longer[j]).peer.fingerprint != (#[trigger] longer[k]).peer.fingerprint by {
        if place < seen.len() {
            assert(longer[j].peer.fingerprint == seen[j].peer.fingerprint);
            assert(longer[k].peer.fingerprint == seen[k].peer.fingerprint);
        } else {
            assert(longer[j] == seen[j]);
            if k < seen.len() {
                assert(longer[k] == seen[k]);
            }
        }
    }
}

pub proof fn lemma_kept_comes_from(seen: Seq<SeenPeerView>, now: u64)
    ensures
        kept(seen, now).len() <= seen.len(),
        forall|k: int|
            0 <= k < kept(seen, now).len() ==> exists|j: int|
                0 <= j < seen.len() && #[trigger] kept(seen, now)[k] == #[trigger] seen[j],
    decreases seen.len(),
{
    if seen.len() > 0 {
        let rest = seen.drop_last();
        lemma_kept_comes_from(rest, now);
        assert forall|k: int| 0 <= k < kept(seen, now).len() implies exists|j: int|
            0 <= j < seen.len() && #[trigger] kept(seen, now)[k] == #[trigger] seen[j] by {
            if k < kept(rest, now).len() {
                let j = choose|j: int| 0 <= j < rest.len() && kept(rest, now)[k] == rest[j];
                assert(seen[j] == rest[j]);
                assert(kept(seen, now)[k] == seen[j]);
            } else {
                assert(kept(seen, now)[k] == seen[seen.len() - 1]);
            }
        }
    }
}

proof fn lemma_kept_is_distinct(seen: Seq<SeenPeerView>, now: u64)
    requires
        distinct(seen),
    ensures
        distinct(kept(seen, now)),
    decreases seen.len(),
{
    if seen.len() > 0 {
        let rest = seen.drop_last();
        assert(distinct(rest)) by {
            assert forall|j: int, k: int| 0 <= j < k < rest.len() implies (
            #[trigger] rest[j]).peer.fingerprint != (#[trigger] rest[k]).peer.fingerprint by {
                assert(rest[j] == seen[j] && rest[k] == seen[k]);
            }
        }
        lemma_kept_is_distinct(rest, now);
        lemma_kept_comes_from(rest, now);
        let shorter = kept(rest, now);
        let longer = kept(seen, now);
        assert forall|j: int, k: int| 0 <= j < k < longer.len() implies (
        #[trigger] longer[j]).peer.fingerprint != (#[trigger] longer[k]).peer.fingerprint by {
            assert(longer[j] == shorter[j]);
            if k < shorter.len() {
                assert(longer[k] == shorter[k]);
            } else {
                let m = choose|m: int| 0 <= m < rest.len() && shorter[j] == rest[m];
                assert(seen[m] == rest[m]);
                assert(longer[k] == seen[seen.len() - 1]);
            }
        }
    }
}

proof fn lemma_text_before_is_asymmetric(left: Seq<char>, right: Seq<char>)
    requires
        text::text_before(left, right),
    ensures
        !text::text_before(right, left),
        left != right,
    decreases left.len(),
{
    if left.len() > 0 && right.len() > 0 && left[0] == right[0] {
        lemma_text_before_is_asymmetric(left.skip(1), right.skip(1));
    }
}

proof fn lemma_text_not_before_is_transitive(first: Seq<char>, second: Seq<char>, third: Seq<char>)
    requires
        !text::text_before(second, first),
        !text::text_before(third, second),
    ensures
        !text::text_before(third, first),
    decreases first.len(),
{
    if first.len() > 0 && third.len() > 0 && second.len() > 0 {
        if first[0] == second[0] && second[0] == third[0] {
            lemma_text_not_before_is_transitive(first.skip(1), second.skip(1), third.skip(1));
        }
    }
}

pub proof fn lemma_text_before_is_total(left: Seq<char>, right: Seq<char>)
    requires
        left != right,
    ensures
        text::text_before(left, right) || text::text_before(right, left),
    decreases left.len(),
{
    if left.len() > 0 && right.len() > 0 {
        if left[0] == right[0] {
            assert(left =~= seq![left[0]] + left.skip(1));
            assert(right =~= seq![right[0]] + right.skip(1));
            lemma_text_before_is_total(left.skip(1), right.skip(1));
        }
    } else {
        assert(left.len() == 0 && right.len() == 0 ==> left =~= right);
    }
}

proof fn lemma_before_is_asymmetric(left: DiscoveredPeerView, right: DiscoveredPeerView)
    requires
        before(left, right),
    ensures
        !before(right, left),
{
    if left.label != right.label {
        lemma_text_before_is_asymmetric(left.label, right.label);
    } else {
        lemma_text_before_is_asymmetric(
            security::fingerprint_text(left.fingerprint.0@),
            security::fingerprint_text(right.fingerprint.0@),
        );
    }
}

proof fn lemma_not_before_is_transitive(
    first: DiscoveredPeerView,
    second: DiscoveredPeerView,
    third: DiscoveredPeerView,
)
    requires
        !before(second, first),
        !before(third, second),
    ensures
        !before(third, first),
{
    if first.label == second.label && second.label == third.label {
        lemma_text_not_before_is_transitive(
            security::fingerprint_text(first.fingerprint.0@),
            security::fingerprint_text(second.fingerprint.0@),
            security::fingerprint_text(third.fingerprint.0@),
        );
    } else {
        if first.label != second.label {
            lemma_text_before_is_total(first.label, second.label);
        }
        if second.label != third.label {
            lemma_text_before_is_total(second.label, third.label);
        }
        if first.label == third.label {
            lemma_text_before_is_asymmetric(first.label, second.label);
        } else if first.label != second.label && second.label != third.label {
            lemma_text_before_is_asymmetric(first.label, second.label);
            lemma_text_before_is_asymmetric(second.label, third.label);
            lemma_text_not_before_is_transitive(first.label, second.label, third.label);
        } else if first.label == second.label {
            lemma_text_before_is_asymmetric(second.label, third.label);
        } else {
            lemma_text_before_is_asymmetric(first.label, second.label);
        }
    }
}

proof fn lemma_rank(listed: Seq<DiscoveredPeerView>, peer: DiscoveredPeerView)
    ensures
        rank(listed, peer) <= listed.len(),
        forall|k: int|
            rank(listed, peer) <= k < listed.len() ==> before(peer, #[trigger] listed[k]),
        rank(listed, peer) > 0 ==> !before(peer, listed[rank(listed, peer) - 1]),
    decreases listed.len(),
{
    if listed.len() > 0 && before(peer, listed.last()) {
        let rest = listed.drop_last();
        lemma_rank(rest, peer);
        assert forall|k: int| rank(listed, peer) <= k < listed.len() implies before(
            peer,
            #[trigger] listed[k],
        ) by {
            if k < rest.len() {
                assert(rest[k] == listed[k]);
            }
        }
    }
}

proof fn lemma_insertion_keeps_order(listed: Seq<DiscoveredPeerView>, peer: DiscoveredPeerView)
    requires
        in_order(listed),
    ensures
        in_order(listed.insert(rank(listed, peer) as int, peer)),
{
    let place = rank(listed, peer) as int;
    lemma_rank(listed, peer);
    let longer = listed.insert(place, peer);
    assert forall|j: int, k: int| 0 <= j < k < longer.len() implies !before(
        #[trigger] longer[k],
        #[trigger] longer[j],
    ) by {
        let earlier = |m: int| if m < place { m } else { m - 1 };
        if j != place && k != place {
            assert(longer[j] == listed[earlier(j)]);
            assert(longer[k] == listed[earlier(k)]);
        } else if j == place {
            assert(longer[k] == listed[k - 1]);
            lemma_before_is_asymmetric(peer, listed[k - 1]);
        } else {
            assert(longer[j] == listed[j]);
            if j < place - 1 {
                assert(!before(listed[place - 1], listed[j]));
                lemma_not_before_is_transitive(listed[j], listed[place - 1], peer);
            }
        }
    }
}

/// Devices are listed by label, and those with one label by fingerprint.
pub proof fn lemma_listing_is_in_order(seen: Seq<SeenPeerView>)
    ensures
        in_order(listing(seen)),
    decreases seen.len(),
{
    if seen.len() > 0 {
        lemma_listing_is_in_order(seen.drop_last());
        lemma_insertion_keeps_order(listing(seen.drop_last()), seen.last().peer);
    }
}

/// The devices among those that were seen.
pub open spec fn devices(seen: Seq<SeenPeerView>) -> Seq<DiscoveredPeerView> {
    seen.map_values(|entry: SeenPeerView| entry.peer)
}

/// A listing holds each device that was seen as often as it was seen, and no other.
pub proof fn lemma_listing_is_complete(seen: Seq<SeenPeerView>)
    ensures
        listing(seen).to_multiset() == devices(seen).to_multiset(),
    decreases seen.len(),
{
    broadcast use vstd::seq_lib::group_to_multiset_ensures;

    if seen.len() > 0 {
        let rest = listing(seen.drop_last());
        lemma_listing_is_complete(seen.drop_last());
        lemma_rank(rest, seen.last().peer);
        assert(devices(seen) =~= devices(seen.drop_last()).push(seen.last().peer));
        vstd::seq_lib::to_multiset_insert(rest, rank(rest, seen.last().peer) as int, seen.last().peer);
    } else {
        assert(listing(seen) =~= devices(seen));
    }
}

/// The devices that were seen on the local network.
#[derive(Debug)]
pub struct DiscoveryView {
    peers: Vec<SeenPeer>,
}

impl View for DiscoveryView {
    type V = Seq<SeenPeerView>;

    closed spec fn view(&self) -> Seq<SeenPeerView> {
        self.peers@.map_values(|entry: SeenPeer| entry@)
    }
}

impl DiscoveryView {
    /// Whether no device occurs twice.
    pub open spec fn wf(&self) -> bool {
        distinct(self@)
    }

    pub fn new() -> (view: Self)
        ensures
            view.wf(),
            view@ == Seq::<SeenPeerView>::empty(),
    {
        let view = DiscoveryView { peers: Vec::new() };
        assert(view@ =~= Seq::<SeenPeerView>::empty());
        view
    }

    /// Takes note of a device that was heard of; what was known of it before is forgotten.
    pub fn note(&mut self, peer: DiscoveredPeer, now: u64)
        requires
            old(self).wf(),
        ensures
            final(self).wf(),
            final(self)@ == noted(old(self)@, (SeenPeerView { peer: peer@, last_seen: now })),
    {
        proof {
            lemma_noted_is_distinct(self@, SeenPeerView { peer: peer@, last_seen: now });
        }
        let latest = SeenPeer { peer, last_seen: now };
        let mut place: usize = 0;
        while place < self.peers.len() && self.peers[place].peer.fingerprint
            != latest.peer.fingerprint
            invariant
                place <= self.peers@.len(),
                self@ == old(self)@,
                self@.len() == self.peers@.len(),
                forall|k: int| 0 <= k < self@.len() ==> #[trigger] self@[k] == self.peers@[k]@,
                forall|k: int|
                    0 <= k < place ==> (#[trigger] self@[k]).peer.fingerprint
                        != latest.peer.fingerprint,
            decreases self.peers@.len() - place,
        {
            place += 1;
        }
        proof {
            lemma_place_is(self@, latest.peer.fingerprint, place as int);
        }
        let ghost expected = noted(self@, latest@);
        if place < self.peers.len() {
            self.peers.set(place, latest);
        } else {
            self.peers.push(latest);
        }
        assert(self@ =~= expected);
    }

    fn forget(&mut self, now: u64)
        requires
            old(self).wf(),
        ensures
            final(self).wf(),
            final(self)@ == kept(old(self)@, now),
    {
        let mut remaining: Vec<SeenPeer> = Vec::new();
        let ghost seen = self@;
        let mut index: usize = 0;
        let ghost count = self.peers@.len();
        proof {
            lemma_kept_is_distinct(seen, now);
            assert(remaining@.map_values(|entry: SeenPeer| entry@) =~= kept(seen.take(0), now));
        }
        while index < self.peers.len()
            invariant
                index <= self.peers@.len(),
                seen == self.peers@.map_values(|entry: SeenPeer| entry@),
                remaining@.map_values(|entry: SeenPeer| entry@) == kept(
                    seen.take(index as int),
                    now,
                ),
            decreases self.peers@.len() - index,
        {
            let last_seen: u64 = self.peers[index].last_seen;
            let ghost before = remaining@.map_values(|entry: SeenPeer| entry@);
            if now.saturating_sub(last_seen) <= PEER_TTL {
                let copy = SeenPeer { peer: self.peers[index].peer.duplicate(), last_seen };
                assert(copy@ == seen[index as int]);
                remaining.push(copy);
                assert(remaining@.map_values(|entry: SeenPeer| entry@) =~= before.push(
                    seen[index as int],
                ));
            }
            index += 1;
            assert(seen.take(index as int).drop_last() =~= seen.take(index - 1));
            assert(seen.take(index as int).last() == seen[index - 1]);
        }
        assert(seen.take(index as int) =~= seen);
        self.peers = remaining;
    }

    /// Forgets those that were not heard of for too long, and lists the others.
    pub fn peers(&mut self, now: u64) -> (listed: Vec<DiscoveredPeer>)
        requires
            old(self).wf(),
        ensures
            final(self).wf(),
            final(self)@ == kept(old(self)@, now),
            listed@.map_values(|peer: DiscoveredPeer| peer@) == listing(final(self)@),
    {
        self.forget(now);
        let mut listed: Vec<DiscoveredPeer> = Vec::new();
        let ghost seen = self@;
        let mut index: usize = 0;
        proof {
            assert(listed@.map_values(|peer: DiscoveredPeer| peer@) =~= listing(seen.take(0)));
        }
        while index < self.peers.len()
            invariant
                index <= self.peers@.len(),
                seen == self.peers@.map_values(|entry: SeenPeer| entry@),
                listed@.map_values(|peer: DiscoveredPeer| peer@) == listing(
                    seen.take(index as int),
                ),
            decreases self.peers@.len() - index,
        {
            let ghost views = listed@.map_values(|peer: DiscoveredPeer| peer@);
            let peer = self.peers[index].peer.duplicate();
            let ghost added = peer@;
            assert(added == seen[index as int].peer);
            let place: usize = place_for(&listed, &peer);
            proof {
                lemma_rank(views, added);
            }
            listed.insert(place, peer);
            assert(listed@.map_values(|peer: DiscoveredPeer| peer@) =~= views.insert(
                place as int,
                added,
            ));
            index += 1;
            assert(seen.take(index as int).drop_last() =~= seen.take(index - 1));
            assert(seen.take(index as int).last() == seen[index - 1]);
        }
        assert(seen.take(index as int) =~= seen);
        listed
    }

    /// Forgets those that were not heard of for too long, and finds one of the others.
    pub fn peer(&mut self, fingerprint: CertificateFingerprint, now: u64) -> (found: Option<
        DiscoveredPeer,
    >)
        requires
            old(self).wf(),
        ensures
            final(self).wf(),
            final(self)@ == kept(old(self)@, now),
            match found {
                Some(peer) => {
                    let place = place_of(final(self)@, fingerprint) as int;
                    place < final(self)@.len() && peer@ == final(self)@[place].peer
                },
                None => place_of(final(self)@, fingerprint) == final(self)@.len(),
            },
    {
        self.forget(now);
        let mut place: usize = 0;
        while place < self.peers.len() && self.peers[place].peer.fingerprint != fingerprint
            invariant
                place <= self.peers@.len(),
                self@.len() == self.peers@.len(),
                forall|k: int| 0 <= k < self@.len() ==> #[trigger] self@[k] == self.peers@[k]@,
                forall|k: int|
                    0 <= k < place ==> (#[trigger] self@[k]).peer.fingerprint != fingerprint,
            decreases self.peers@.len() - place,
        {
            place += 1;
        }
        proof {
            lemma_place_is(self@, fingerprint, place as int);
        }
        if place < self.peers.len() {
            Some(self.peers[place].peer.duplicate())
        } else {
            None
        }
    }
}

/// Whether a device is listed before another.
fn listed_before(left: &DiscoveredPeer, right: &DiscoveredPeer) -> (result: bool)
    ensures
        result == before(left@, right@),
{
    if !text::same_text(left.label.as_str(), right.label.as_str()) {
        let left_label = text::characters(left.label.as_str());
        let right_label = text::characters(right.label.as_str());
        return text::comes_before(left_label.as_slice(), right_label.as_slice());
    }
    let left_text = left.fingerprint.to_text();
    let right_text = right.fingerprint.to_text();
    text::comes_before(
        text::characters(left_text.as_str()).as_slice(),
        text::characters(right_text.as_str()).as_slice(),
    )
}

/// Where a device goes in a list.
fn place_for(listed: &Vec<DiscoveredPeer>, peer: &DiscoveredPeer) -> (place: usize)
    ensures
        place == rank(listed@.map_values(|peer: DiscoveredPeer| peer@), peer@),
        place <= listed@.len(),
{
    let ghost views = listed@.map_values(|peer: DiscoveredPeer| peer@);
    let mut place: usize = listed.len();
    assert(views.take(place as int) =~= views);
    while place > 0 && listed_before(peer, &listed[place - 1])
        invariant
            place <= listed@.len(),
            views == listed@.map_values(|peer: DiscoveredPeer| peer@),
            rank(views, peer@) == rank(views.take(place as int), peer@),
        decreases place,
    {
        place -= 1;
        assert(views.take(place + 1).drop_last() =~= views.take(place as int));
        assert(views.take(place + 1).last() == views[place as int]);
    }
    assert(place > 0 ==> views.take(place as int).last() == views[place - 1]);
    place
}

/// A device that was heard of, and whether it is to be answered.
#[derive(Debug)]
pub struct Sighting {
    pub peer: DiscoveredPeer,
    pub reply: bool,
}

/// The device that a packet from an address tells of, and whether it is to be answered. A device
/// does not hear itself, nor anyone from outside the local network.
pub open spec fn sighting(
    own: CertificateFingerprint,
    encoded: Seq<u8>,
    source: Endpoint,
) -> Option<(Seq<u8>, Seq<char>, bool)> {
    match packet::packet_outcome(encoded) {
        Err(_) => None,
        Ok(heard) => if heard.fingerprint == own.0@ || !source.ip.spec_near() {
            None
        } else {
            Some((heard.fingerprint, heard.label, heard.kind == ANNOUNCEMENT))
        },
    }
}

/// What a device makes of a packet from an address: what it tells of, and those that were seen
/// thereafter.
pub open spec fn hearing(
    own: CertificateFingerprint,
    seen: Seq<SeenPeerView>,
    encoded: Seq<u8>,
    source: Endpoint,
    now: u64,
    sighted: Option<Sighting>,
    after: Seq<SeenPeerView>,
) -> bool {
    match sighting(own, encoded, source) {
        None => sighted is None && after == seen,
        Some((fingerprint, label, reply)) => {
            &&& sighted matches Some(sighted)
            &&& sighted.peer.fingerprint.0@ == fingerprint
            &&& sighted.peer.label@ == label
            &&& sighted.peer.service_endpoint == (Endpoint {
                ip: source.ip,
                port: SERVICE_PORT,
                scope: 0,
            })
            &&& sighted.peer.pairing_endpoint == (Endpoint {
                ip: source.ip,
                port: PAIRING_PORT,
                scope: 0,
            })
            &&& sighted.reply == reply
            &&& after == noted(seen, (SeenPeerView { peer: sighted.peer@, last_seen: now }))
        },
    }
}

/// Whether an announcement is due, once one was sent.
pub open spec fn is_due(last: u64, now: u64) -> bool {
    now - last >= ANNOUNCE_INTERVAL
}

/// A device that looks for others: what it says, whom it has heard, and when it spoke last.
#[derive(Debug)]
pub struct DiscoveryRuntime {
    fingerprint: CertificateFingerprint,
    announcement: Vec<u8>,
    response: Vec<u8>,
    last_announcement: u64,
    view: DiscoveryView,
}

impl DiscoveryRuntime {
    pub closed spec fn spec_fingerprint(&self) -> CertificateFingerprint {
        self.fingerprint
    }

    pub closed spec fn spec_announcement(&self) -> Seq<u8> {
        self.announcement@
    }

    pub closed spec fn spec_response(&self) -> Seq<u8> {
        self.response@
    }

    pub closed spec fn spec_last_announcement(&self) -> u64 {
        self.last_announcement
    }

    pub closed spec fn seen(&self) -> Seq<SeenPeerView> {
        self.view@
    }

    pub closed spec fn wf(&self) -> bool {
        self.view.wf()
    }

    /// A device with an identity and a name starts to look for others. Its first announcement is
    /// due at once, where the clock has run for as long as lies between two of them.
    pub fn start(fingerprint: CertificateFingerprint, name: &str, now: u64) -> (runtime: Self)
        ensures
            runtime.wf(),
            runtime.spec_fingerprint() == fingerprint,
            runtime.seen() == Seq::<SeenPeerView>::empty(),
            runtime.spec_last_announcement() == if now >= ANNOUNCE_INTERVAL {
                (now - ANNOUNCE_INTERVAL) as u64
            } else {
                now
            },
            runtime.spec_announcement() == packet::packet_bytes(
                (packet::PacketView {
                    kind: ANNOUNCEMENT,
                    fingerprint: fingerprint.0@,
                    service_port: SERVICE_PORT,
                    pairing_port: PAIRING_PORT,
                    label: packet::label_of(name@),
                }),
            ),
            runtime.spec_response() == packet::packet_bytes(
                (packet::PacketView {
                    kind: RESPONSE,
                    fingerprint: fingerprint.0@,
                    service_port: SERVICE_PORT,
                    pairing_port: PAIRING_PORT,
                    label: packet::label_of(name@),
                }),
            ),
    {
        let announcement = match Packet::new(ANNOUNCEMENT, fingerprint, name).encode() {
            Ok(encoded) => encoded,
            Err(_) => {
                assert(false);
                Vec::new()
            },
        };
        let response = match Packet::new(RESPONSE, fingerprint, name).encode() {
            Ok(encoded) => encoded,
            Err(_) => {
                assert(false);
                Vec::new()
            },
        };
        let last_announcement: u64 = if now >= ANNOUNCE_INTERVAL {
            now - ANNOUNCE_INTERVAL
        } else {
            now
        };
        DiscoveryRuntime {
            fingerprint,
            announcement,
            response,
            last_announcement,
            view: DiscoveryView::new(),
        }
    }

    /// The devices that were heard of.
    pub fn view(&self) -> (view: &DiscoveryView)
        ensures
            view@ == self.seen(),
            view.wf() == self.wf(),
    {
        &self.view
    }

    /// What to send to everyone.
    pub fn announcement(&self) -> (message: &[u8])
        ensures
            message@ == self.spec_announcement(),
    {
        self.announcement.as_slice()
    }

    /// What to send to a device that asks.
    pub fn response(&self) -> (message: &[u8])
        ensures
            message@ == self.spec_response(),
    {
        self.response.as_slice()
    }

    /// Whether an announcement is due; where it is, it counts as sent.
    pub fn announcement_due(&mut self, now: u64) -> (due: bool)
        ensures
            due == is_due(old(self).spec_last_announcement(), now),
            final(self).spec_last_announcement() == if due {
                now
            } else {
                old(self).spec_last_announcement()
            },
            final(self).wf() == old(self).wf(),
            final(self).spec_fingerprint() == old(self).spec_fingerprint(),
            final(self).spec_announcement() == old(self).spec_announcement(),
            final(self).spec_response() == old(self).spec_response(),
            final(self).seen() == old(self).seen(),
    {
        let due = now.saturating_sub(self.last_announcement) >= ANNOUNCE_INTERVAL;
        if due {
            self.last_announcement = now;
        }
        due
    }

    /// Takes a packet from an address.
    pub fn receive(&mut self, encoded: &[u8], source: Endpoint, now: u64) -> (sighted: Option<
        Sighting,
    >)
        requires
            old(self).wf(),
        ensures
            final(self).wf(),
            final(self).spec_fingerprint() == old(self).spec_fingerprint(),
            final(self).spec_announcement() == old(self).spec_announcement(),
            final(self).spec_response() == old(self).spec_response(),
            final(self).spec_last_announcement() == old(self).spec_last_announcement(),
            hearing(
                old(self).spec_fingerprint(),
                old(self).seen(),
                encoded@,
                source,
                now,
                sighted,
                final(self).seen(),
            ),
    {
        let heard = match Packet::decode(encoded) {
            Err(_) => {
                return None;
            },
            Ok(heard) => heard,
        };
        if heard.fingerprint == self.fingerprint || !is_private_or_loopback(source.ip) {
            return None;
        }
        proof {
            if heard.fingerprint.0@ == self.fingerprint.0@ {
                assert(heard.fingerprint.0 =~= self.fingerprint.0);
            }
        }
        let reply = heard.kind == ANNOUNCEMENT;
        let peer = DiscoveredPeer {
            fingerprint: heard.fingerprint,
            label: heard.label,
            service_endpoint: Endpoint::new(source.ip, heard.service_port),
            pairing_endpoint: Endpoint::new(source.ip, heard.pairing_port),
        };
        self.view.note(peer.duplicate(), now);
        Some(Sighting { peer, reply })
    }

    /// Forgets those that were not heard of for too long, and lists the others.
    pub fn peers(&mut self, now: u64) -> (listed: Vec<DiscoveredPeer>)
        requires
            old(self).wf(),
        ensures
            final(self).wf(),
            final(self).spec_fingerprint() == old(self).spec_fingerprint(),
            final(self).spec_announcement() == old(self).spec_announcement(),
            final(self).spec_response() == old(self).spec_response(),
            final(self).spec_last_announcement() == old(self).spec_last_announcement(),
            final(self).seen() == kept(old(self).seen(), now),
            listed@.map_values(|peer: DiscoveredPeer| peer@) == listing(final(self).seen()),
    {
        self.view.peers(now)
    }

    /// Forgets those that were not heard of for too long, and finds one of the others.
    pub fn peer(&mut self, fingerprint: CertificateFingerprint, now: u64) -> (found: Option<
        DiscoveredPeer,
    >)
        requires
            old(self).wf(),
        ensures
            final(self).wf(),
            final(self).spec_fingerprint() == old(self).spec_fingerprint(),
            final(self).spec_announcement() == old(self).spec_announcement(),
            final(self).spec_response() == old(self).spec_response(),
            final(self).spec_last_announcement() == old(self).spec_last_announcement(),
            final(self).seen() == kept(old(self).seen(), now),
            match found {
                Some(peer) => {
                    let place = place_of(final(self).seen(), fingerprint) as int;
                    place < final(self).seen().len() && peer@ == final(self).seen()[place].peer
                },
                None => place_of(final(self).seen(), fingerprint) == final(self).seen().len(),
            },
    {
        self.view.peer(fingerprint, now)
    }
}

/// How long to wait after no packet came, for the given reason, in nanoseconds.
pub fn receive_pause(reason: FailureKind) -> (pause: u64)
    ensures
        pause == if reason == FailureKind::WouldBlock || reason == FailureKind::TimedOut {
            0
        } else {
            RECEIVE_PAUSE
        },
{
    if reason == FailureKind::WouldBlock || reason == FailureKind::TimedOut {
        0
    } else {
        RECEIVE_PAUSE
    }
}

/// Whoever was heard of within the time for which a device counts as seen is listed; whoever was
/// not is not.
pub proof fn lemma_silent_devices_vanish(seen: Seq<SeenPeerView>, now: u64)
    ensures
        forall|k: int| 0 <= k < kept(seen, now).len() ==> fresh(#[trigger] kept(seen, now)[k], now),
        forall|k: int|
            0 <= k < seen.len() && fresh(#[trigger] seen[k], now) ==> kept(seen, now).contains(
                seen[k],
            ),
    decreases seen.len(),
{
    if seen.len() > 0 {
        let rest = seen.drop_last();
        lemma_silent_devices_vanish(rest, now);
        assert forall|k: int| 0 <= k < kept(seen, now).len() implies fresh(
            #[trigger] kept(seen, now)[k],
            now,
        ) by {
            if k < kept(rest, now).len() {
                assert(kept(seen, now)[k] == kept(rest, now)[k]);
            }
        }
        assert forall|k: int|
            0 <= k < seen.len() && fresh(#[trigger] seen[k], now) implies kept(seen, now).contains(
            seen[k],
        ) by {
            if k < rest.len() {
                assert(rest[k] == seen[k]);
                let m = choose|m: int|
                    0 <= m < kept(rest, now).len() && kept(rest, now)[m] == seen[k];
                assert(kept(seen, now)[m] == seen[k]);
            } else {
                assert(kept(seen, now)[kept(rest, now).len() as int] == seen[k]);
            }
        }
    }
}

/// A device is announced every two seconds and forgotten after twelve; packets are waited for 400
/// milliseconds, and after a failure for 100.
pub proof fn lemma_times_of_discovery()
    ensures
        PEER_TTL == 12 * 1_000_000_000,
        ANNOUNCE_INTERVAL == 2 * 1_000_000_000,
        RECEIVE_TIMEOUT == 400 * 1_000_000,
        RECEIVE_PAUSE == 100 * 1_000_000,
{
}

} // verus!
