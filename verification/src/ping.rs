//! Options of a ping through a gateway, the choice of the source addresses
//! on the named interface, and the result.
use crate::addr::{Ipv4, MacAddr};
use crate::entropy::random_u16;
use crate::error::Error;
use crate::span::Span;
use vstd::prelude::*;

verus! {

/// How to ping through the gateway.
#[derive(Debug, Clone)]
pub struct PingOpts {
    /// How long to wait for the gateway's ARP reply.
    pub arp_timeout: Span,
    /// How long to wait for the echo reply.
    pub reply_timeout: Span,
    /// Bytes of echo payload after the ICMP echo header.
    pub payload_size: usize,
    /// TTL of the outgoing IPv4 packet.
    pub ttl: u8,
    /// ICMP identifier; a random one when absent.
    pub identifier: Option<u16>,
    /// ICMP sequence number.
    pub sequence: u16,
}

impl Default for PingOpts {
    /// One second for ARP, two for the reply, 56 bytes of payload, TTL 64,
    /// a random identifier and sequence number 1.
    fn default() -> (o: Self)
        ensures
            o.arp_timeout == (Span { secs: 1, nanos: 0 }),
            o.reply_timeout == (Span { secs: 2, nanos: 0 }),
            o.payload_size == 56,
            o.ttl == 64,
            o.identifier is None,
            o.sequence == 1,
    {
        PingOpts {
            arp_timeout: Span::from_secs(1),
            reply_timeout: Span::from_secs(2),
            payload_size: 56,
            ttl: 64,
            identifier: None,
            sequence: 1,
        }
    }
}

impl PingOpts {
    /// The identifier to use when `fallback` stands for an absent one.
    pub fn identifier_or(&self, fallback: u16) -> (id: u16)
        ensures
            id == match self.identifier {
                Some(i) => i,
                None => fallback,
            },
    {
        match self.identifier {
            Some(i) => i,
            None => fallback,
        }
    }

    /// The identifier to use: the one given, else a random one.
    pub fn choose_identifier(&self) -> (id: u16)
        ensures
            self.identifier matches Some(i) ==> id == i,
    {
        match self.identifier {
            Some(i) => i,
            None => random_u16(),
        }
    }
}

/// An address of an interface, as far as a ping needs it.
#[derive(Debug, Clone, Copy)]
pub enum IpAddress {
    V4(Ipv4),
    V6,
}

/// A network interface of the host: its name, its hardware address if it
/// has one, and its addresses.
#[derive(Debug, Clone)]
pub struct Interface {
    pub name: String,
    pub mac: Option<MacAddr>,
    pub ips: Vec<IpAddress>,
}

/// Where the ping leaves from: the interface (its position in the list)
/// with its hardware address and its first IPv4 address.
#[derive(Debug, Clone, Copy)]
pub struct Source {
    pub index: usize,
    pub mac: MacAddr,
    pub ip: Ipv4,
}

/// `k` is the first position in `ifaces` of an interface named `name`.
pub open spec fn first_named(ifaces: Seq<Interface>, name: Seq<char>, k: int) -> bool {
    &&& 0 <= k < ifaces.len()
    &&& ifaces[k].name@ == name
    &&& forall|j: int| 0 <= j < k ==> ifaces[j].name@ != name
}

/// `k` is the first position in `ips` of an IPv4 address.
pub open spec fn first_v4(ips: Seq<IpAddress>, k: int) -> bool {
    &&& 0 <= k < ips.len()
    &&& ips[k] is V4
    &&& forall|j: int| 0 <= j < k ==> !(ips[j] is V4)
}

/// The interface named `name` among `ifaces`, its hardware address and
/// its first IPv4 address; if there is no such interface, or it has no
/// hardware address, or no IPv4 address, the error that says so, naming it.
pub fn select_source(ifaces: &[Interface], name: &str) -> (r: Result<Source, Error>)
    ensures
        match r {
            Ok(s) => {
                &&& first_named(ifaces@, name@, s.index as int)
                &&& ifaces@[s.index as int].mac == Some(s.mac)
                &&& exists|k: int|
                    first_v4(ifaces@[s.index as int].ips@, k) && ifaces@[s.index as int].ips@[k]
                        == IpAddress::V4(s.ip)
            },
            Err(Error::InterfaceNotFound(n)) => {
                &&& n@ == name@
                &&& forall|j: int| 0 <= j < ifaces@.len() ==> ifaces@[j].name@ != name@
            },
            Err(Error::NoMacAddress(n)) => {
                &&& n@ == name@
                &&& exists|k: int| first_named(ifaces@, name@, k) && ifaces@[k].mac is None
            },
            Err(Error::NoIpv4Address(n)) => {
                &&& n@ == name@
                &&& exists|k: int|
                    first_named(ifaces@, name@, k) && ifaces@[k].mac is Some && forall|j: int|
                        0 <= j < ifaces@[k].ips@.len() ==> !(ifaces@[k].ips@[j] is V4)
            },
            Err(_) => false,
        },
{
    let wanted = name.to_owned();
    let mut i: usize = 0;
    while i < ifaces.len()
        invariant
            wanted@ == name@,
            i <= ifaces@.len(),
            forall|j: int| 0 <= j < i ==> ifaces@[j].name@ != name@,
        ensures
            i <= ifaces@.len(),
            forall|j: int| 0 <= j < i ==> ifaces@[j].name@ != name@,
            i < ifaces@.len() ==> ifaces@[i as int].name@ == name@,
        decreases ifaces@.len() - i,
    {
        if ifaces[i].name == wanted {
            break;
        }
        i = i + 1;
    }
    if i == ifaces.len() {
        return Err(Error::InterfaceNotFound(wanted));
    }
    assert(first_named(ifaces@, name@, i as int));
    let iface = &ifaces[i];
    let mac = match iface.mac {
        Some(m) => m,
        None => return Err(Error::NoMacAddress(wanted)),
    };
    let mut k: usize = 0;
    while k < iface.ips.len()
        invariant
            first_named(ifaces@, name@, i as int),
            *iface == ifaces@[i as int],
            iface.mac == Some(mac),
            k <= iface.ips@.len(),
            forall|j: int| 0 <= j < k ==> !(iface.ips@[j] is V4),
        decreases iface.ips@.len() - k,
    {
        if let IpAddress::V4(ip) = iface.ips[k] {
            assert(first_v4(iface.ips@, k as int));
            assert(iface.ips@[k as int] == IpAddress::V4(ip));
            return Ok(Source { index: i, mac, ip });
        }
        k = k + 1;
    }
    Err(Error::NoIpv4Address(wanted))
}

/// The answer of a ping through the gateway.
#[derive(Debug, Clone, Copy)]
pub struct PingResult {
    /// The gateway's hardware address, learnt by ARP.
    pub gateway_mac: MacAddr,
    /// The TTL of the echo reply.
    pub reply_ttl: u8,
    /// The time from sending the request to receiving the reply.
    pub rtt: core::time::Duration,
    /// The length of the ICMP echo reply as its IPv4 header states it.
    pub bytes: usize,
    /// The ICMP identifier used.
    pub identifier: u16,
    /// The ICMP sequence number used.
    pub sequence: u16,
}

} // verus!
