//! Link-layer and IPv4 addresses as plain octets.
use vstd::prelude::*;

verus! {

/// A 48-bit Ethernet hardware address.
#[derive(Clone, Copy, Debug, PartialEq, Eq, Structural)]
pub struct MacAddr(pub u8, pub u8, pub u8, pub u8, pub u8, pub u8);

/// An IPv4 address, most significant octet first.
#[derive(Clone, Copy, Debug, PartialEq, Eq, Structural)]
pub struct Ipv4(pub u8, pub u8, pub u8, pub u8);

impl MacAddr {
    /// The six octets in the order in which they travel on the wire.
    pub open spec fn octets(self) -> Seq<u8> {
        seq![self.0, self.1, self.2, self.3, self.4, self.5]
    }

    /// The address every station on the link listens to, `ff:ff:ff:ff:ff:ff`.
    pub fn broadcast() -> (m: MacAddr)
        ensures
            m.octets() == seq![0xffu8, 0xffu8, 0xffu8, 0xffu8, 0xffu8, 0xffu8],
    {
        MacAddr(0xff, 0xff, 0xff, 0xff, 0xff, 0xff)
    }

    /// The all-zero address, `00:00:00:00:00:00`.
    pub fn zero() -> (m: MacAddr)
        ensures
            m.octets() == seq![0u8, 0u8, 0u8, 0u8, 0u8, 0u8],
    {
        MacAddr(0, 0, 0, 0, 0, 0)
    }
}

impl Ipv4 {
    /// The four octets in network order.
    pub open spec fn octets(self) -> Seq<u8> {
        seq![self.0, self.1, self.2, self.3]
    }
}

/// The hardware address stored at `at..at + 6`.
pub open spec fn mac_at(s: Seq<u8>, at: int) -> MacAddr {
    MacAddr(s[at], s[at + 1], s[at + 2], s[at + 3], s[at + 4], s[at + 5])
}

/// The IPv4 address stored at `at..at + 4`.
pub open spec fn ipv4_at(s: Seq<u8>, at: int) -> Ipv4 {
    Ipv4(s[at], s[at + 1], s[at + 2], s[at + 3])
}

} // verus!
