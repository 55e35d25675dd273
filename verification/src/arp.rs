//! Address resolution: the request that asks the link for the hardware
//! address of an IPv4 address, and the recognition of the reply to it.
use crate::addr::{ipv4_at, mac_at, Ipv4, MacAddr};
use crate::bytes::{be16, get_be16, get_ipv4, get_mac, put_be16, put_ipv4, put_mac, splice};
use crate::error::Error;
use crate::span::{timed_out, Span};
use vstd::prelude::*;

verus! {

/// Length of the Ethernet header.
pub const ETH_HDR: usize = 14;

/// Length of an ARP packet for IPv4 over Ethernet.
pub const ARP_LEN: usize = 28;

/// EtherType of ARP.
pub const ETHERTYPE_ARP: u16 = 0x0806;

/// EtherType of IPv4.
pub const ETHERTYPE_IPV4: u16 = 0x0800;

/// ARP hardware type of Ethernet.
pub const HARDWARE_ETHERNET: u16 = 1;

/// ARP operation: request.
pub const OP_REQUEST: u16 = 1;

/// ARP operation: reply.
pub const OP_REPLY: u16 = 2;

/// The ARP request frame, broadcast on the link, in which `src_mac` with
/// address `src_ip` asks who has `target_ip`.
pub open spec fn arp_request(src_mac: MacAddr, src_ip: Ipv4, target_ip: Ipv4) -> Seq<u8> {
    seq![0xffu8, 0xffu8, 0xffu8, 0xffu8, 0xffu8, 0xffu8] + src_mac.octets()
        + seq![0x08u8, 0x06u8, 0x00u8, 0x01u8, 0x08u8, 0x00u8, 6u8, 4u8, 0x00u8, 0x01u8]
        + src_mac.octets() + src_ip.octets() + seq![0u8, 0u8, 0u8, 0u8, 0u8, 0u8]
        + target_ip.octets()
}

/// The ARP reply frame in which `sender_mac`, the owner of `sender_ip`,
/// answers `target_mac` at `target_ip`.
pub open spec fn arp_reply(
    sender_mac: MacAddr,
    sender_ip: Ipv4,
    target_mac: MacAddr,
    target_ip: Ipv4,
) -> Seq<u8> {
    target_mac.octets() + sender_mac.octets()
        + seq![0x08u8, 0x06u8, 0x00u8, 0x01u8, 0x08u8, 0x00u8, 6u8, 4u8, 0x00u8, 0x02u8]
        + sender_mac.octets() + sender_ip.octets() + target_mac.octets() + target_ip.octets()
}

/// The hardware address that `frame` announces for `target_ip` to us at
/// `our_ip`: the frame carries ARP, its operation is a reply, its sender
/// protocol address is `target_ip` and its target protocol address is
/// `our_ip`. Every other frame announces nothing.
pub open spec fn arp_reply_sender(frame: Seq<u8>, our_ip: Ipv4, target_ip: Ipv4) -> Option<
    MacAddr,
> {
    if frame.len() >= ETH_HDR + ARP_LEN && be16(frame, 12) == ETHERTYPE_ARP && be16(frame, 20)
        == OP_REPLY && ipv4_at(frame, 28) == target_ip && ipv4_at(frame, 38) == our_ip {
        Some(mac_at(frame, 22))
    } else {
        None
    }
}

/// Writes into the first 42 bytes of `buf` the ARP request in which
/// `src_mac` at `src_ip` asks for the hardware address of `target_ip`.
pub fn build_request(buf: &mut [u8], src_mac: MacAddr, src_ip: Ipv4, target_ip: Ipv4)
    requires
        old(buf)@.len() >= ETH_HDR + ARP_LEN,
    ensures
        final(buf)@ == splice(old(buf)@, 0, arp_request(src_mac, src_ip, target_ip)),
{
    put_mac(buf, 0, MacAddr::broadcast());
    put_mac(buf, 6, src_mac);
    put_be16(buf, 12, ETHERTYPE_ARP);
    put_be16(buf, 14, HARDWARE_ETHERNET);
    put_be16(buf, 16, ETHERTYPE_IPV4);
    buf[18] = 6;
    buf[19] = 4;
    put_be16(buf, 20, OP_REQUEST);
    put_mac(buf, 22, src_mac);
    put_ipv4(buf, 28, src_ip);
    put_mac(buf, 32, MacAddr::zero());
    put_ipv4(buf, 38, target_ip);
    let ghost want = splice(old(buf)@, 0, arp_request(src_mac, src_ip, target_ip));
    assert forall|k: int| 0 <= k < buf@.len() implies buf@[k] == want[k] by {
        if k < 42 {
            assert(want[k] == arp_request(src_mac, src_ip, target_ip)[k]);
        }
    }
    assert(buf@ =~= want);
}

/// The hardware address that `frame` announces for `target_ip` to us at
/// `our_ip`, if it is such a reply.
pub fn reply_sender(frame: &[u8], our_ip: Ipv4, target_ip: Ipv4) -> (r: Option<MacAddr>)
    ensures
        r == arp_reply_sender(frame@, our_ip, target_ip),
{
    if frame.len() < ETH_HDR {
        return None;
    }
    if get_be16(frame, 12) != ETHERTYPE_ARP {
        return None;
    }
    if frame.len() - ETH_HDR < ARP_LEN {
        return None;
    }
    if get_be16(frame, 20) != OP_REPLY {
        return None;
    }
    if get_ipv4(frame, 28) != target_ip {
        return None;
    }
    if get_ipv4(frame, 38) != our_ip {
        return None;
    }
    Some(get_mac(frame, 22))
}

/// Waiting for the hardware address of `target_ip`, asked for by us at
/// `src_ip`, for at most `timeout`.
pub struct ArpWait {
    pub src_ip: Ipv4,
    pub target_ip: Ipv4,
    pub timeout: Span,
}

impl ArpWait {
    /// Checked before each frame is read: the wait fails with
    /// `ArpTimeout(target_ip, timeout)` exactly when `elapsed` has reached
    /// the timeout.
    pub fn check_deadline(&self, elapsed: Span) -> (r: Result<(), Error>)
        ensures
            timed_out(self.timeout, elapsed) ==> (r matches Err(Error::ArpTimeout(ip, t)) && ip
                == self.target_ip && t == self.timeout),
            !timed_out(self.timeout, elapsed) ==> r is Ok,
    {
        if elapsed.is_at_least(&self.timeout) {
            Err(Error::ArpTimeout(self.target_ip, self.timeout))
        } else {
            Ok(())
        }
    }

    /// The hardware address of the target if `frame` is the reply awaited;
    /// any other frame is passed over.
    pub fn accept(&self, frame: &[u8]) -> (r: Option<MacAddr>)
        ensures
            r == arp_reply_sender(frame@, self.src_ip, self.target_ip),
    {
        reply_sender(frame, self.src_ip, self.target_ip)
    }
}

/// Our own request, seen again on the link, is never taken for the reply,
/// whatever addresses are awaited.
pub proof fn lemma_request_is_not_reply(
    src_mac: MacAddr,
    src_ip: Ipv4,
    target_ip: Ipv4,
    our_ip: Ipv4,
    awaited_ip: Ipv4,
)
    ensures
        arp_reply_sender(arp_request(src_mac, src_ip, target_ip), our_ip, awaited_ip) is None,
{
    let f = arp_request(src_mac, src_ip, target_ip);
    assert(f[20] == 0 && f[21] == 1);
}

/// The reply of the owner of `target_ip` to us at `our_ip` yields the
/// owner's hardware address, wherever on the link it is addressed.
pub proof fn lemma_reply_yields_sender(
    owner_mac: MacAddr,
    target_ip: Ipv4,
    our_mac: MacAddr,
    our_ip: Ipv4,
)
    ensures
        arp_reply_sender(arp_reply(owner_mac, target_ip, our_mac, our_ip), our_ip, target_ip)
            == Some(owner_mac),
{
    let f = arp_reply(owner_mac, target_ip, our_mac, our_ip);
    assert(f.len() == 42);
    assert(f[12] == 8 && f[13] == 6 && f[20] == 0 && f[21] == 2);
    assert(ipv4_at(f, 28) == target_ip);
    assert(ipv4_at(f, 38) == our_ip);
    assert(mac_at(f, 22) == owner_mac);
}

/// The hardware address taken from an ARP reply is its sender hardware
/// address (bytes 22..28), and only a frame that is an ARP reply about
/// `target_ip` to `our_ip` yields one, whatever its Ethernet addresses.
pub proof fn lemma_sender_is_arp_field(frame: Seq<u8>, our_ip: Ipv4, target_ip: Ipv4)
    ensures
        arp_reply_sender(frame, our_ip, target_ip) matches Some(m) ==> {
            &&& frame.len() >= 42
            &&& frame[12] == 0x08 && frame[13] == 0x06
            &&& frame[20] == 0x00 && frame[21] == 0x02
            &&& m.octets() =~= frame.subrange(22, 28)
            &&& target_ip.octets() =~= frame.subrange(28, 32)
            &&& our_ip.octets() =~= frame.subrange(38, 42)
        },
{
    if let Some(m) = arp_reply_sender(frame, our_ip, target_ip) {
        assert(frame[20] * 256 + frame[21] == 2);
        assert(frame[12] * 256 + frame[13] == 0x0806);
    }
}

/// The reply of the owner of `target_ip` yields the owner's hardware
/// address even when a bridge has rewritten its Ethernet source to `relay`.
pub proof fn lemma_relayed_reply_yields_sender(
    owner_mac: MacAddr,
    target_ip: Ipv4,
    our_mac: MacAddr,
    our_ip: Ipv4,
    relay: MacAddr,
)
    ensures
        arp_reply_sender(
            splice(arp_reply(owner_mac, target_ip, our_mac, our_ip), 6, relay.octets()),
            our_ip,
            target_ip,
        ) == Some(owner_mac),
{
    let f = splice(arp_reply(owner_mac, target_ip, our_mac, our_ip), 6, relay.octets());
    assert(f.len() == 42);
    assert(f[12] == 8 && f[13] == 6 && f[20] == 0 && f[21] == 2);
    assert(ipv4_at(f, 28) == target_ip);
    assert(ipv4_at(f, 38) == our_ip);
    assert(mac_at(f, 22) == owner_mac);
}

} // verus!
