//! Internet addresses as numbers, and which of them are private.

use vstd::prelude::*;

verus! {

/// An address of the Internet protocol, as the number that its bytes spell, most significant
/// byte first.
#[derive(Clone, Copy, Debug, PartialEq, Eq, Structural)]
pub enum IpAddress {
    V4(u32),
    V6(u128),
}

/// Where a service listens. The scope tells interfaces apart and is zero where it does not
/// matter.
#[derive(Clone, Copy, Debug, PartialEq, Eq, Structural)]
pub struct Endpoint {
    pub ip: IpAddress,
    pub port: u16,
    pub scope: u32,
}

/// Whether an address lies in 10.0.0.0/8, 172.16.0.0/12 or 192.168.0.0/16.
pub open spec fn v4_private(ip: u32) -> bool {
    ||| 0x0A00_0000 <= ip <= 0x0AFF_FFFF
    ||| 0xAC10_0000 <= ip <= 0xAC1F_FFFF
    ||| 0xC0A8_0000 <= ip <= 0xC0A8_FFFF
}

/// Whether an address lies in fc00::/7.
pub open spec fn v6_unique_local(ip: u128) -> bool {
    0xFC00_0000_0000_0000_0000_0000_0000_0000 <= ip
        <= 0xFDFF_FFFF_FFFF_FFFF_FFFF_FFFF_FFFF_FFFF
}

impl IpAddress {
    /// Whether the address is one of the device itself: 127.0.0.0/8 or ::1.
    pub open spec fn spec_loopback(self) -> bool {
        match self {
            IpAddress::V4(ip) => 0x7F00_0000 <= ip <= 0x7FFF_FFFF,
            IpAddress::V6(ip) => ip == 1,
        }
    }

    /// Whether the address is one of the device itself, or private to the local network.
    pub open spec fn spec_near(self) -> bool {
        self.spec_loopback() || match self {
            IpAddress::V4(ip) => v4_private(ip),
            IpAddress::V6(ip) => v6_unique_local(ip),
        }
    }

    /// Whether the address stands for every address of the device.
    pub open spec fn spec_unspecified(self) -> bool {
        self == IpAddress::V4(0) || self == IpAddress::V6(0)
    }

    pub fn is_loopback(self) -> (loopback: bool)
        ensures
            loopback == self.spec_loopback(),
    {
        match self {
            IpAddress::V4(ip) => 0x7F00_0000 <= ip && ip <= 0x7FFF_FFFF,
            IpAddress::V6(ip) => ip == 1,
        }
    }

    pub fn is_unspecified(self) -> (unspecified: bool)
        ensures
            unspecified == self.spec_unspecified(),
    {
        match self {
            IpAddress::V4(ip) => ip == 0,
            IpAddress::V6(ip) => ip == 0,
        }
    }
}

/// Whether an address is private to the local network.
pub fn is_private_v4(ip: u32) -> (private: bool)
    ensures
        private == v4_private(ip),
{
    (0x0A00_0000 <= ip && ip <= 0x0AFF_FFFF) || (0xAC10_0000 <= ip && ip <= 0xAC1F_FFFF) || (
    0xC0A8_0000 <= ip && ip <= 0xC0A8_FFFF)
}

/// Whether an address is one of the device itself, or private to the local network.
pub fn is_private_or_loopback(address: IpAddress) -> (near: bool)
    ensures
        near == address.spec_near(),
{
    if address.is_loopback() {
        return true;
    }
    match address {
        IpAddress::V4(ip) => is_private_v4(ip),
        IpAddress::V6(ip) => 0xFC00_0000_0000_0000_0000_0000_0000_0000 <= ip && ip
            <= 0xFDFF_FFFF_FFFF_FFFF_FFFF_FFFF_FFFF_FFFF,
    }
}

impl Endpoint {
    /// The endpoint of an address and a port, on no particular interface.
    pub open spec fn spec_new(ip: IpAddress, port: u16) -> Endpoint {
        Endpoint { ip, port, scope: 0 }
    }

    #[verifier::when_used_as_spec(spec_new)]
    pub fn new(ip: IpAddress, port: u16) -> (endpoint: Self)
        ensures
            endpoint == Endpoint::spec_new(ip, port),
    {
        Endpoint { ip, port, scope: 0 }
    }
}

/// Whether an address, by its leading bytes, is one of this device or of the local network: 127,
/// 10, 172 and 16 to 31, 192 and 168; `::1`, and what starts with the byte 252 or 253.
pub open spec fn local_by_bytes(address: IpAddress) -> bool {
    match address {
        IpAddress::V4(ip) => {
            let first = ip as int / 0x100_0000;
            let second = ip as int / 0x1_0000 % 0x100;
            ||| first == 127
            ||| first == 10
            ||| first == 172 && 16 <= second < 32
            ||| first == 192 && second == 168
        },
        IpAddress::V6(ip) => {
            let first = ip as int / 0x100_0000_0000_0000_0000_0000_0000_0000;
            ||| ip == 1
            ||| first == 252
            ||| first == 253
        },
    }
}

/// Which addresses are near shows in their leading bytes, and those are all of them.
pub proof fn lemma_near_addresses(address: IpAddress)
    ensures
        address.spec_near() <==> local_by_bytes(address),
        address.spec_loopback() <==> match address {
            IpAddress::V4(ip) => ip as int / 0x100_0000 == 127,
            IpAddress::V6(ip) => ip == 1,
        },
        address matches IpAddress::V4(ip) ==> (v4_private(ip) <==> local_by_bytes(address) && ip as int
            / 0x100_0000 != 127),
        address.spec_unspecified() <==> match address {
            IpAddress::V4(ip) => ip == 0,
            IpAddress::V6(ip) => ip == 0,
        },
{
}

} // verus!
