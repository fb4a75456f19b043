//! Where a device looks for others, and how it reaches those that it found.

use super::peers::DiscoveredPeer;
use super::{DISCOVERY_PORT, SERVICE_PORT};
use crate::address;
use crate::address::{is_private_or_loopback, is_private_v4, Endpoint, IpAddress};
use crate::app_settings::AppSettings;
use crate::failure::Failure;
use vstd::arithmetic::power2;
use vstd::prelude::*;

verus! {

/// An address of this device, and how many bits of it name its network.
#[derive(Clone, Copy, Debug, PartialEq, Eq, Structural)]
pub struct Interface {
    pub address: u32,
    pub prefix_length: u8,
}

/// The last address of the network of an interface, which reaches everyone there. Only private
/// networks with room for others have one.
pub open spec fn broadcast_of(interface: Interface) -> Option<u32> {
    if !address::v4_private(interface.address) || interface.prefix_length > 30
        || interface.prefix_length == 0 {
        None
    } else {
        let size = power2::pow2((32 - interface.prefix_length) as nat) as int;
        Some((interface.address as int / size * size + size - 1) as u32)
    }
}

/// The last address of a network, which reaches everyone there.
pub fn directed_broadcast(address: u32, prefix_length: u8) -> (target: Option<u32>)
    ensures
        target == broadcast_of((Interface { address, prefix_length })),
{
    if !is_private_v4(address) || prefix_length > 30 || prefix_length == 0 {
        return None;
    }
    let bits: u8 = 32 - prefix_length;
    let mut size: u64 = 1;
    let mut counted: u8 = 0;
    proof {
        power2::lemma2_to64();
    }
    while counted < bits
        invariant
            counted <= bits <= 31,
            size == power2::pow2(counted as nat),
            power2::pow2(31) == 0x8000_0000,
        decreases bits - counted,
    {
        proof {
            power2::lemma_pow2_unfold((counted + 1) as nat);
            if counted + 1 < 31 {
                power2::lemma_pow2_strictly_increases((counted + 1) as nat, 31);
            }
        }
        size = 2 * size;
        counted += 1;
    }
    let address: u64 = address as u64;
    proof {
        lemma_last_of_network(address as int, counted as nat);
    }
    Some((address / size * size + (size - 1)) as u32)
}

pub proof fn lemma_last_of_network(address: int, bits: nat)
    requires
        0 <= address <= u32::MAX,
        2 <= bits <= 31,
    ensures
        0 < power2::pow2(bits) <= 0x8000_0000,
        0 <= address / (power2::pow2(bits) as int) * power2::pow2(bits) <= address,
        address <= address / (power2::pow2(bits) as int) * power2::pow2(bits) + power2::pow2(bits) - 1 <= u32::MAX,
{
    power2::lemma2_to64();
    let size = power2::pow2(bits) as int;
    power2::lemma_pow2_pos(bits);
    if bits < 31 {
        power2::lemma_pow2_strictly_increases(bits, 31);
    }
    power2::lemma_pow2_adds(bits, (32 - bits) as nat);
    let others = power2::pow2((32 - bits) as nat) as int;
    power2::lemma_pow2_pos((32 - bits) as nat);
    assert(size * others == 0x1_0000_0000);
    let network = address / size;
    assert(0 <= network * size <= address < network * size + size) by (nonlinear_arith)
        requires
            network == address / size,
            size > 0,
            address >= 0,
    ;
    assert(network < others) by (nonlinear_arith)
        requires
            network * size <= address,
            address < size * others,
            size > 0,
    ;
    assert(network * size + size <= size * others) by (nonlinear_arith)
        requires
            network + 1 <= others,
            size > 0,
    ;
}

/// Whether numbers stand in order, none twice.
pub open spec fn increasing(numbers: Seq<u64>) -> bool {
    forall|j: int, k: int| 0 <= j < k < numbers.len() ==> #[trigger] numbers[j] < #[trigger] numbers[k]
}

/// Puts a number in its place among others, unless it is there already.
fn put_in_order(numbers: &mut Vec<u64>, number: u64)
    requires
        increasing(old(numbers)@),
    ensures
        increasing(final(numbers)@),
        forall|x: u64|
            #[trigger] final(numbers)@.contains(x) <==> old(numbers)@.contains(x) || x == number,
{
    let ghost before = numbers@;
    let mut place: usize = numbers.len();
    while place > 0 && numbers[place - 1] > number
        invariant
            place <= numbers@.len(),
            numbers@ == before,
            forall|k: int| place <= k < numbers@.len() ==> number < #[trigger] numbers@[k],
        decreases place,
    {
        place -= 1;
    }
    if place > 0 && numbers[place - 1] == number {
        proof {
            assert(before[place - 1] == number);
            assert(before.contains(number));
        }
        return ;
    }
    numbers.insert(place, number);
    proof {
        let after = numbers@;
        assert forall|x: u64| #[trigger] after.contains(x) <==> before.contains(x) || x
            == number by {
            if before.contains(x) {
                let k = choose|k: int| 0 <= k < before.len() && before[k] == x;
                if k < place {
                    assert(after[k] == x);
                } else {
                    assert(after[k + 1] == x);
                }
            }
            if x == number {
                assert(after[place as int] == x);
            }
            if after.contains(x) && x != number {
                let k = choose|k: int| 0 <= k < after.len() && after[k] == x;
                if k < place {
                    assert(before[k] == x);
                } else {
                    assert(before[k - 1] == x);
                }
            }
        }
        assert forall|j: int, k: int| 0 <= j < k < after.len() implies #[trigger] after[j]
            < #[trigger] after[k] by {
            if k == place as int {
                assert(after[j] == before[j]);
                if j < place - 1 {
                    assert(before[j] < before[place - 1]);
                }
            } else if j == place as int {
                assert(after[k] == before[k - 1]);
            } else {
                let old_j = if j < place { j } else { j - 1 };
                let old_k = if k < place { k } else { k - 1 };
                assert(after[j] == before[old_j]);
                assert(after[k] == before[old_k]);
            }
        }
    }
}

/// Whether an address is one of those that announcements go to.
pub open spec fn is_target(interfaces: Seq<Interface>, target: u32) -> bool {
    target == u32::MAX || exists|k: int|
        0 <= k < interfaces.len() && broadcast_of(#[trigger] interfaces[k]) == Some(target)
}

spec fn reaches(interface: Interface, target: u64) -> bool {
    target <= u32::MAX && broadcast_of(interface) == Some(target as u32)
}

/// Whether addresses stand in order, none twice.
pub open spec fn addresses_increase(addresses: Seq<u32>) -> bool {
    forall|j: int, k: int|
        0 <= j < k < addresses.len() ==> #[trigger] addresses[j] < #[trigger] addresses[k]
}

/// The addresses that announcements go to: one for each network, and one for all of them, in
/// order and none twice. All are reached at the discovery port.
pub fn discovery_broadcast_targets(interfaces: &[Interface]) -> (targets: Vec<u32>)
    ensures
        addresses_increase(targets@),
        forall|target: u32| #[trigger] targets@.contains(target) <==> is_target(interfaces@, target),
{
    let mut numbers: Vec<u64> = Vec::new();
    let mut index: usize = 0;
    while index < interfaces.len()
        invariant
            index <= interfaces@.len(),
            increasing(numbers@),
            forall|x: u64|
                #[trigger] numbers@.contains(x) <==> exists|k: int|
                    0 <= k < index && reaches(#[trigger] interfaces@[k], x),
        decreases interfaces@.len() - index,
    {
        let ghost before = numbers@;
        let target = directed_broadcast(interfaces[index].address, interfaces[index].prefix_length);
        match target {
            None => {},
            Some(target) => {
                put_in_order(&mut numbers, target as u64);
            },
        }
        proof {
            assert forall|x: u64| #[trigger] numbers@.contains(x) <==> exists|k: int|
                0 <= k < index + 1 && reaches(#[trigger] interfaces@[k], x) by {
                if before.contains(x) {
                    let k = choose|k: int|
                        0 <= k < index && reaches(#[trigger] interfaces@[k], x);
                    assert(0 <= k < index + 1 && reaches(interfaces@[k], x));
                }
                if numbers@.contains(x) && !before.contains(x) {
                    assert(reaches(interfaces@[index as int], x));
                }
            }
        }
        index += 1;
    }
    put_in_order(&mut numbers, u32::MAX as u64);
    let mut targets: Vec<u32> = Vec::new();
    let mut copied: usize = 0;
    assert forall|x: u64| numbers@.contains(x) implies x <= u32::MAX && is_target(
        interfaces@,
        x as u32,
    ) by {
        if x != u32::MAX as u64 {
            let k = choose|k: int|
                0 <= k < index && reaches(#[trigger] interfaces@[k], x);
            assert(broadcast_of(interfaces@[k]) == Some(x as u32));
        }
    }
    while copied < numbers.len()
        invariant
            copied <= numbers@.len(),
            targets@.len() == copied,
            increasing(numbers@),
            forall|x: u64| #[trigger] numbers@.contains(x) ==> x <= u32::MAX,
            forall|k: int| 0 <= k < copied ==> #[trigger] targets@[k] == numbers@[k],
        decreases numbers@.len() - copied,
    {
        assert(numbers@.contains(numbers@[copied as int]));
        targets.push(numbers[copied] as u32);
        copied += 1;
    }
    proof {
        assert forall|target: u32| #[trigger] targets@.contains(target) <==> is_target(
            interfaces@,
            target,
        ) by {
            let x = target as u64;
            if targets@.contains(target) {
                let k = choose|k: int| 0 <= k < targets@.len() && targets@[k] == target;
                assert(numbers@[k] == x);
                assert(numbers@.contains(x));
            }
            if is_target(interfaces@, target) {
                if target != u32::MAX {
                    let k = choose|k: int|
                        0 <= k < interfaces@.len() && broadcast_of(#[trigger] interfaces@[k]) == Some(
                            target,
                        );
                    assert(reaches(interfaces@[k], x));
                }
                assert(numbers@.contains(x));
                let k = choose|k: int| 0 <= k < numbers@.len() && numbers@[k] == x;
                assert(targets@[k] == target);
            }
        }
        assert forall|j: int, k: int| 0 <= j < k < targets@.len() implies #[trigger] targets@[j]
            < #[trigger] targets@[k] by {
            assert(numbers@[j] < numbers@[k]);
        }
    }
    targets
}

/// Whether an interface is of use: private, with a prefix that an address can have.
pub open spec fn usable(interface: Interface) -> bool {
    address::v4_private(interface.address) && interface.prefix_length <= 32
}

/// The number by which interfaces are ordered: by address, then by prefix.
pub open spec fn interface_key(interface: Interface) -> int {
    256 * interface.address + interface.prefix_length
}

/// The interfaces that are of use, in order, none twice.
pub fn collect_private_ipv4_interfaces(found: &[Interface]) -> (interfaces: Vec<Interface>)
    ensures
        forall|j: int, k: int|
            0 <= j < k < interfaces@.len() ==> interface_key(#[trigger] interfaces@[j])
                < interface_key(#[trigger] interfaces@[k]),
        forall|interface: Interface| #[trigger]
            interfaces@.contains(interface) <==> usable(interface) && found@.contains(interface),
{
    let mut numbers: Vec<u64> = Vec::new();
    let mut index: usize = 0;
    while index < found.len()
        invariant
            index <= found@.len(),
            increasing(numbers@),
            forall|x: u64|
                #[trigger] numbers@.contains(x) <==> exists|k: int|
                    0 <= k < index && usable(#[trigger] found@[k]) && interface_key(found@[k]) == x,
        decreases found@.len() - index,
    {
        let ghost before = numbers@;
        let interface = found[index];
        if is_private_v4(interface.address) && interface.prefix_length <= 32 {
            put_in_order(
                &mut numbers,
                256 * (interface.address as u64) + interface.prefix_length as u64,
            );
        }
        proof {
            assert forall|x: u64| #[trigger] numbers@.contains(x) <==> exists|k: int|
                0 <= k < index + 1 && usable(#[trigger] found@[k]) && interface_key(found@[k])
                    == x by {
                if before.contains(x) {
                    let k = choose|k: int|
                        0 <= k < index && usable(#[trigger] found@[k]) && interface_key(found@[k])
                            == x;
                    assert(0 <= k < index + 1 && usable(found@[k]) && interface_key(found@[k])
                        == x);
                }
                if numbers@.contains(x) && !before.contains(x) {
                    assert(usable(found@[index as int]) && interface_key(found@[index as int])
                        == x);
                }
            }
        }
        index += 1;
    }
    let mut interfaces: Vec<Interface> = Vec::new();
    let mut copied: usize = 0;
    while copied < numbers.len()
        invariant
            copied <= numbers@.len(),
            interfaces@.len() == copied,
            increasing(numbers@),
            index == found@.len(),
            forall|x: u64|
                #[trigger] numbers@.contains(x) <==> exists|k: int|
                    0 <= k < index && usable(#[trigger] found@[k]) && interface_key(found@[k]) == x,
            forall|k: int|
                0 <= k < copied ==> interface_key(#[trigger] interfaces@[k]) == numbers@[k],
        decreases numbers@.len() - copied,
    {
        let number: u64 = numbers[copied];
        proof {
            assert(numbers@.contains(numbers@[copied as int]));
            let k = choose|k: int|
                0 <= k < index && usable(#[trigger] found@[k]) && interface_key(found@[k])
                    == number;
            assert(number == 256 * found@[k].address + found@[k].prefix_length);
        }
        interfaces.push(
            Interface { address: (number / 256) as u32, prefix_length: (number % 256) as u8 },
        );
        copied += 1;
    }
    proof {
        assert forall|interface: Interface| #[trigger]
            interfaces@.contains(interface) <==> usable(interface) && found@.contains(
            interface,
        ) by {
            let x = interface_key(interface) as u64;
            if interfaces@.contains(interface) {
                let k = choose|k: int| 0 <= k < interfaces@.len() && interfaces@[k] == interface;
                assert(interface_key(interfaces@[k]) == numbers@[k]);
                assert(numbers@.contains(x));
                let m = choose|m: int|
                    0 <= m < index && usable(#[trigger] found@[m]) && interface_key(found@[m]) == x;
                assert(found@[m] == interface);
            }
            if usable(interface) && found@.contains(interface) {
                let m = choose|m: int| 0 <= m < found@.len() && found@[m] == interface;
                assert(usable(found@[m]) && interface_key(found@[m]) == x);
                assert(numbers@.contains(x));
                let k = choose|k: int| 0 <= k < numbers@.len() && numbers@[k] == x;
                assert(interface_key(interfaces@[k]) == x);
                assert(interfaces@[k] == interface);
            }
        }
        assert forall|j: int, k: int| 0 <= j < k < interfaces@.len() implies interface_key(
            #[trigger] interfaces@[j],
        ) < interface_key(#[trigger] interfaces@[k]) by {
            assert(numbers@[j] < numbers@[k]);
        }
    }
    interfaces
}

/// The discovery port of an address.
pub fn discovery_endpoint(target: u32) -> (endpoint: Endpoint)
    ensures
        endpoint == Endpoint::new(IpAddress::V4(target), DISCOVERY_PORT),
{
    Endpoint::new(IpAddress::V4(target), DISCOVERY_PORT)
}

/// Checks the address from which this device reaches another.
pub fn route_local_ip(address: IpAddress) -> (result: Result<IpAddress, Failure>)
    ensures
        result == if address.spec_near() {
            Ok::<IpAddress, Failure>(address)
        } else {
            Err(Failure::invalid("the discovered peer has no private local route"))
        },
{
    if is_private_or_loopback(address) {
        Ok(address)
    } else {
        Err(Failure::invalid("the discovered peer has no private local route"))
    }
}

/// The settings that reach a device.
pub open spec fn settings_for(peer: DiscoveredPeer, local: IpAddress, auto_receive: bool) -> AppSettings {
    AppSettings {
        local_endpoint: Endpoint::new(local, SERVICE_PORT),
        active_peer: peer.fingerprint,
        peer_endpoint: peer.service_endpoint,
        auto_receive,
    }
}

/// The settings to save once a device was heard of, if any: only for a trusted device to which
/// there is a route, never in place of another device, and only where they are news. `existing`
/// are the settings as they are, `local` is the private address from which the device is reached.
pub fn reconcile_trusted_endpoint(
    trusted: bool,
    existing: Option<AppSettings>,
    peer: &DiscoveredPeer,
    local: Option<IpAddress>,
) -> (settings: Option<AppSettings>)
    ensures
        settings == (match local {
            Some(local) if trusted => match existing {
                None => Some(settings_for(*peer, local, true)),
                Some(before) => if before.active_peer == peer.fingerprint && before != settings_for(
                    *peer,
                    local,
                    before.auto_receive,
                ) {
                    Some(settings_for(*peer, local, before.auto_receive))
                } else {
                    None
                },
            },
            _ => None,
        }),
{
    if !trusted {
        return None;
    }
    let local = match local {
        None => {
            return None;
        },
        Some(local) => local,
    };
    match existing {
        None => Some(
            AppSettings {
                local_endpoint: Endpoint::new(local, SERVICE_PORT),
                active_peer: peer.fingerprint,
                peer_endpoint: peer.service_endpoint,
                auto_receive: true,
            },
        ),
        Some(before) => {
            if before.active_peer != peer.fingerprint {
                return None;
            }
            let settings = AppSettings {
                local_endpoint: Endpoint::new(local, SERVICE_PORT),
                active_peer: peer.fingerprint,
                peer_endpoint: peer.service_endpoint,
                auto_receive: before.auto_receive,
            };
            if before.same(&settings) {
                return None;
            }
            Some(settings)
        },
    }
}

/// The settings that make a device the active one, reached from a private address.
pub fn activate_discovered_peer(peer: &DiscoveredPeer, local: IpAddress) -> (settings: AppSettings)
    ensures
        settings == settings_for(*peer, local, true),
{
    AppSettings {
        local_endpoint: Endpoint::new(local, SERVICE_PORT),
        active_peer: peer.fingerprint,
        peer_endpoint: peer.service_endpoint,
        auto_receive: true,
    }
}

} // verus!
