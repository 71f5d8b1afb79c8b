//! IPv4 addresses and endpoints as plain values.

use vstd::prelude::*;

verus! {

/// An IPv4 address, held as its four octets in network order.
#[derive(Clone, Copy, Debug, PartialEq, Eq, Structural, Hash)]
pub struct Ipv4Address {
    pub a: u8,
    pub b: u8,
    pub c: u8,
    pub d: u8,
}

impl Ipv4Address {
    /// The octets of the address, first octet first.
    pub open spec fn spec_octets(self) -> Seq<u8> {
        seq![self.a, self.b, self.c, self.d]
    }

    /// The address `0.0.0.0`.
    pub open spec fn spec_unspecified() -> Ipv4Address {
        Ipv4Address { a: 0, b: 0, c: 0, d: 0 }
    }

    /// The address `a.b.c.d`.
    pub fn new(a: u8, b: u8, c: u8, d: u8) -> (address: Ipv4Address)
        ensures
            address == (Ipv4Address { a, b, c, d }),
    {
        Ipv4Address { a, b, c, d }
    }

    /// The address `0.0.0.0`, which stands for "any" when binding and for
    /// "unknown" in a received origin.
    #[verifier::when_used_as_spec(spec_unspecified)]
    pub fn unspecified() -> (address: Ipv4Address)
        ensures
            address == Self::spec_unspecified(),
    {
        Ipv4Address { a: 0, b: 0, c: 0, d: 0 }
    }

    /// The four octets in network order.
    pub fn octets(&self) -> (octets: [u8; 4])
        ensures
            octets@ == self.spec_octets(),
    {
        [self.a, self.b, self.c, self.d]
    }

    /// The address whose octets in network order are `octets`.
    pub fn from_octets(octets: [u8; 4]) -> (address: Ipv4Address)
        ensures
            address.spec_octets() == octets@,
    {
        Ipv4Address { a: octets[0], b: octets[1], c: octets[2], d: octets[3] }
    }

    /// Whether this is `0.0.0.0`.
    pub fn is_unspecified(&self) -> (unspecified: bool)
        ensures
            unspecified == (*self == Self::spec_unspecified()),
    {
        self.a == 0 && self.b == 0 && self.c == 0 && self.d == 0
    }

    /// Whether the address is in the multicast range `224.0.0.0/4`.
    pub fn is_multicast(&self) -> (multicast: bool)
        ensures
            multicast == (224 <= self.a <= 239),
    {
        self.a >= 224 && self.a <= 239
    }
}

/// An IPv4 address and a UDP port.
#[derive(Clone, Copy, Debug, PartialEq, Eq, Structural, Hash)]
pub struct SocketAddressV4 {
    pub ip: Ipv4Address,
    pub port: u16,
}

impl SocketAddressV4 {
    /// The endpoint `0.0.0.0:0`, reported as the origin of a datagram whose
    /// sender is not an IPv4 endpoint.
    pub open spec fn spec_unknown() -> SocketAddressV4 {
        SocketAddressV4 { ip: Ipv4Address::spec_unspecified(), port: 0 }
    }

    /// The endpoint `ip:port`.
    pub fn new(ip: Ipv4Address, port: u16) -> (endpoint: SocketAddressV4)
        ensures
            endpoint == (SocketAddressV4 { ip, port }),
    {
        SocketAddressV4 { ip, port }
    }

    /// The endpoint `0.0.0.0:0`.
    #[verifier::when_used_as_spec(spec_unknown)]
    pub fn unknown() -> (endpoint: SocketAddressV4)
        ensures
            endpoint == Self::spec_unknown(),
    {
        SocketAddressV4 { ip: Ipv4Address::unspecified(), port: 0 }
    }
}

} // verus!
