//! IP addresses as plain values, and their address families.

use vstd::prelude::*;

verus! {

/// The address family of an IP address.
#[derive(Clone, Copy, Debug, PartialEq, Eq, Structural)]
pub enum AddressFamily {
    V4,
    V6,
}

/// An IP address: the four octets of an IPv4 address, or the eight 16-bit
/// segments of an IPv6 address, most significant first.
#[derive(Clone, Copy, Debug, PartialEq, Eq)]
pub enum IpAddress {
    V4([u8; 4]),
    V6([u16; 8]),
}

impl IpAddress {
    /// The family that the address belongs to.
    pub open spec fn spec_family(&self) -> AddressFamily {
        match self {
            IpAddress::V4(_) => AddressFamily::V4,
            IpAddress::V6(_) => AddressFamily::V6,
        }
    }

    /// The family that the address belongs to.
    #[verifier::when_used_as_spec(spec_family)]
    pub fn family(&self) -> (f: AddressFamily)
        ensures
            f == self.spec_family(),
    {
        match self {
            IpAddress::V4(_) => AddressFamily::V4,
            IpAddress::V6(_) => AddressFamily::V6,
        }
    }

    /// Whether this is an IPv4 address.
    pub fn is_ipv4(&self) -> (b: bool)
        ensures
            b == (self.spec_family() == AddressFamily::V4),
    {
        match self {
            IpAddress::V4(_) => true,
            IpAddress::V6(_) => false,
        }
    }

    /// Whether this is an IPv6 address.
    pub fn is_ipv6(&self) -> (b: bool)
        ensures
            b == (self.spec_family() == AddressFamily::V6),
    {
        match self {
            IpAddress::V4(_) => false,
            IpAddress::V6(_) => true,
        }
    }

    /// Whether both addresses belong to one family.
    pub fn same_family(&self, other: &IpAddress) -> (b: bool)
        ensures
            b == (self.spec_family() == other.spec_family()),
    {
        match self {
            IpAddress::V4(_) => other.is_ipv4(),
            IpAddress::V6(_) => other.is_ipv6(),
        }
    }
}

} // verus!
