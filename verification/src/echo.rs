//! ICMP echo: the request frame sent through the gateway, and the
//! recognition of the reply to it.
use crate::addr::{ipv4_at, mac_at, Ipv4, MacAddr};
use crate::arp::{ETHERTYPE_IPV4, ETH_HDR};
use crate::bytes::{be16, be16_bytes, get_be16, get_ipv4, put_be16, put_ipv4, put_mac, splice};
use crate::checksum::{
    checksum_verifies, control_msg_checksum, control_msg_checksum_of, ipv4_checksum, ipv4_checksum_of,
    internet_checksum, ipv4_header_span, lemma_checksum_verifies, lemma_words_sum_grows, word_at, word_sum, words_sum,
};
use crate::entropy::random_u16;
use crate::error::Error;
use crate::span::{timed_out, Span};
use vstd::prelude::*;
use vstd::slice::slice_subrange;

verus! {

/// Length of an IPv4 header without options.
pub const IPV4_HDR: usize = 20;

/// Length of the ICMP echo header.
pub const ICMP_ECHO_HDR: usize = 8;

/// Offset of the IPv4 header in the frame.
pub const IP_OFF: usize = 14;

/// Offset of the ICMP message in the frame.
pub const ICMP_OFF: usize = 34;

/// Length of all headers of an echo frame.
pub const ECHO_HDRS: usize = 42;

/// IP protocol number of ICMP.
pub const PROTO_ICMP: u8 = 1;

/// ICMP type of an echo request.
pub const ICMP_ECHO_REQUEST: u8 = 8;

/// ICMP type of an echo reply.
pub const ICMP_ECHO_REPLY: u8 = 0;


/// `n` zero bytes.
pub open spec fn zeros(n: nat) -> Seq<u8> {
    Seq::new(n, |i: int| 0u8)
}

/// The echo payload of `n` bytes: byte `i` is `i` modulo 256.
pub open spec fn echo_payload(n: nat) -> Seq<u8> {
    Seq::new(n, |i: int| (i % 256) as u8)
}

/// `f` with the Ethernet header from `src` to `dst` for IPv4.
pub open spec fn eth_written(f: Seq<u8>, src: MacAddr, dst: MacAddr) -> Seq<u8> {
    splice(f, 0, dst.octets() + src.octets() + seq![0x08u8, 0x00u8])
}

/// `f` with the fields of an IPv4 header set and its checksum zero:
/// version 4, header length 5 words, the type of service kept, the total
/// length (everything after the Ethernet header, truncated to 16 bits),
/// `ident`, the don't-fragment flag set with the fragment offset kept,
/// `ttl`, protocol ICMP, `src` and `dst`.
pub open spec fn ipv4_fields(f: Seq<u8>, src: Ipv4, dst: Ipv4, ttl: u8, ident: u16) -> Seq<u8> {
    splice(
        f,
        14,
        seq![0x45u8, f[15]] + be16_bytes((f.len() - 14) as u16) + be16_bytes(ident) + seq![
            ((f[20] & 0x1fu8) | 0x40u8),
            f[21],
            ttl,
            PROTO_ICMP,
            0u8,
            0u8,
        ] + src.octets() + dst.octets(),
    )
}

/// `f` with the IPv4 header of `ipv4_fields` and its checksum filled in.
pub open spec fn ipv4_written(f: Seq<u8>, src: Ipv4, dst: Ipv4, ttl: u8, ident: u16) -> Seq<u8> {
    let g = ipv4_fields(f, src, dst, ttl, ident);
    splice(g, 24, be16_bytes(ipv4_checksum_of(g.subrange(14, g.len() as int))))
}

/// The ICMP echo request with identifier `id`, sequence number `seq`, a
/// zero checksum and the payload of `n` bytes.
pub open spec fn echo_request_msg(id: u16, seq: u16, n: nat) -> Seq<u8> {
    seq![ICMP_ECHO_REQUEST, 0u8, 0u8, 0u8] + be16_bytes(id) + be16_bytes(seq) + echo_payload(n)
}

/// The echo request message, checksum zero, that fills the frame `f` after
/// its headers.
pub open spec fn echo_msg_for(f: Seq<u8>, id: u16, seq: u16) -> Seq<u8> {
    echo_request_msg(id, seq, (f.len() - 42) as nat)
}

/// The echo request with identifier `id`, sequence number `seq` and `n`
/// bytes of payload is short enough for pnet to add up its words: their
/// sum, the checksum word left out, fits in a `u32`.
pub open spec fn echo_msg_summable(id: u16, seq: u16, n: usize) -> bool {
    word_sum(echo_request_msg(id, seq, n as nat), 1) <= u32::MAX
}

/// `f` with its ICMP part made the echo request of `echo_msg_for`,
/// checksum filled in.
pub open spec fn echo_msg_written(f: Seq<u8>, id: u16, seq: u16) -> Seq<u8> {
    let m = echo_msg_for(f, id, seq);
    splice(f, 34, splice(m, 2, be16_bytes(control_msg_checksum_of(m))))
}

/// The echo request frame from `src_mac`/`src_ip` through `dst_mac` to
/// `dst_ip`, with the IPv4 identification `ident`, the ICMP identifier `id`,
/// the sequence number `seq` and a payload of `n` bytes.
pub open spec fn echo_request_frame(
    src_mac: MacAddr,
    dst_mac: MacAddr,
    src_ip: Ipv4,
    dst_ip: Ipv4,
    ttl: u8,
    ident: u16,
    id: u16,
    seq: u16,
    n: usize,
) -> Seq<u8> {
    echo_msg_written(
        ipv4_written(eth_written(zeros((42 + n) as nat), src_mac, dst_mac), src_ip, dst_ip, ttl, ident),
        id,
        seq,
    )
}

/// Byte `i` of the echo payload.
pub fn payload_byte(i: usize) -> (b: u8)
    ensures
        b == (i % 256) as u8,
{
    assert((i & 0xff) == i % 256) by (bit_vector);
    (i & 0xff) as u8
}

/// Whether pnet can add up the words of the echo request with identifier
/// `id`, sequence number `seq` and `n` bytes of payload without overflowing
/// its 32-bit sum.
pub fn echo_request_summable(id: u16, seq: u16, n: usize) -> (r: bool)
    ensures
        r == echo_msg_summable(id, seq, n),
{
    let ghost m = echo_request_msg(id, seq, n as nat);
    let words: usize = n / 2;
    let mut acc: u64 = 0x0800 + id as u64 + seq as u64;
    proof {
        reveal_with_fuel(words_sum, 5);
        assert(word_at(m, 0) == 0x0800);
        assert(word_at(m, 2) == id);
        assert(word_at(m, 3) == seq);
    }
    assert(acc == words_sum(m, 1, 4));
    let mut k: usize = 0;
    while k < words
        invariant
            k <= words,
            words == n / 2,
            m == echo_request_msg(id, seq, n as nat),
            acc == words_sum(m, 1, (4 + k) as nat),
            acc <= u32::MAX,
        decreases words - k,
    {
        let w: u64 = payload_byte(2 * k) as u64 * 256 + payload_byte(2 * k + 1) as u64;
        assert(m[8 + 2 * k] == ((2 * k) % 256) as u8);
        assert(m[8 + 2 * k + 1] == ((2 * k + 1) % 256) as u8);
        assert(word_at(m, 4 + k) == w);
        acc = acc + w;
        k = k + 1;
        assert(acc == words_sum(m, 1, (4 + k) as nat));
        if acc > 0xffff_ffff {
            proof {
                lemma_words_sum_grows(m, 1, (4 + k) as nat, (m.len() / 2) as nat);
            }
            return false;
        }
    }
    assert(m.len() / 2 == 4 + words);
    if n % 2 == 1 {
        assert(m[m.len() - 1] == ((n - 1) % 256) as u8);
        acc = acc + payload_byte(n - 1) as u64 * 256;
    }
    acc <= 0xffff_ffff
}

/// The IPv4 identification of the frame `f`.
pub open spec fn ip_ident(f: Seq<u8>) -> u16 {
    be16(f, 18) as u16
}

/// A frame being built for an ICMP echo request: the Ethernet header, the
/// IPv4 header and the ICMP echo message with its payload.
pub struct EchoFrame {
    buf: Vec<u8>,
}

impl View for EchoFrame {
    type V = Seq<u8>;

    closed spec fn view(&self) -> Seq<u8> {
        self.buf@
    }
}

impl EchoFrame {
    /// Large enough for all three headers.
    pub open spec fn wf(&self) -> bool {
        self@.len() >= ECHO_HDRS
    }

    /// An all-zero frame with room for the headers and `payload_size` bytes
    /// of payload.
    pub fn with_payload(payload_size: usize) -> (f: Self)
        requires
            payload_size <= usize::MAX - ECHO_HDRS,
        ensures
            f.wf(),
            f@ == zeros((ECHO_HDRS + payload_size) as nat),
    {
        let buf = vec![0u8; ICMP_OFF + ICMP_ECHO_HDR + payload_size];
        assert(buf@ =~= zeros((ECHO_HDRS + payload_size) as nat));
        EchoFrame { buf }
    }

    /// Writes the Ethernet header: from `src` to `dst`, carrying IPv4.
    pub fn write_ethernet(&mut self, src: MacAddr, dst: MacAddr)
        requires
            old(self).wf(),
        ensures
            final(self).wf(),
            final(self)@ == eth_written(old(self)@, src, dst),
    {
        let b = self.buf.as_mut_slice();
        put_mac(b, 6, src);
        put_mac(b, 0, dst);
        put_be16(b, 12, ETHERTYPE_IPV4);
        assert(b@ =~= eth_written(old(self)@, src, dst));
    }

    /// Writes the IPv4 header from `src` to `dst` with `ttl` and the
    /// identification `ident`, then its checksum.
    pub fn write_ipv4_ident(&mut self, src: Ipv4, dst: Ipv4, ttl: u8, ident: u16)
        requires
            old(self).wf(),
        ensures
            final(self).wf(),
            final(self)@ == ipv4_written(old(self)@, src, dst, ttl, ident),
            checksum_verifies(final(self)@.subrange(14, 34)),
    {
        proof {
            lemma_ipv4_header_verifies(old(self)@, src, dst, ttl, ident);
        }
        let total_len = (self.buf.len() - IP_OFF) as u16;
        let ghost f = self.buf@;
        let ghost h = ipv4_fields(f, src, dst, ttl, ident);
        {
            let b = self.buf.as_mut_slice();
            b[14] = 0x45;
            put_be16(b, 16, total_len);
            put_be16(b, 18, ident);
            b[20] = (b[20] & 0x1f) | 0x40;
            b[22] = ttl;
            b[23] = PROTO_ICMP;
            put_be16(b, 24, 0);
            put_ipv4(b, 26, src);
            put_ipv4(b, 30, dst);
            assert(b@.len() == f.len());
            assert forall|k: int| 0 <= k < f.len() implies b@[k] == h[k] by {
                if 14 <= k < 34 {
                    assert(h[k] == (seq![0x45u8, f[15]] + be16_bytes(total_len) + be16_bytes(ident)
                        + seq![((f[20] & 0x1fu8) | 0x40u8), f[21], ttl, PROTO_ICMP, 0u8, 0u8]
                        + src.octets() + dst.octets())[k - 14]);
                }
            }
        }
        assert(self.buf@ =~= h);
        let len = self.buf.len();
        let ck = ipv4_checksum(slice_subrange(self.buf.as_slice(), IP_OFF, len));
        put_be16(self.buf.as_mut_slice(), 24, ck);
    }

    /// Writes the IPv4 header from `src` to `dst` with `ttl` and a random
    /// identification, then its checksum.
    pub fn write_ipv4(&mut self, src: Ipv4, dst: Ipv4, ttl: u8)
        requires
            old(self).wf(),
        ensures
            final(self).wf(),
            final(self)@ == ipv4_written(old(self)@, src, dst, ttl, ip_ident(final(self)@)),
    {
        let ident = random_u16();
        self.write_ipv4_ident(src, dst, ttl, ident);
        proof {
            let g = ipv4_fields(old(self)@, src, dst, ttl, ident);
            assert(be16(self@, 18) == be16(g, 18));
            assert(be16(g, 18) == ident);
        }
    }

    /// Writes the ICMP echo request with identifier `id` and sequence number
    /// `seq`, fills the rest of the frame with the payload and writes the
    /// checksum.
    pub fn write_icmp_echo(&mut self, id: u16, seq: u16)
        requires
            old(self).wf(),
            word_sum(echo_msg_for(old(self)@, id, seq), 1) <= u32::MAX,
        ensures
            final(self).wf(),
            final(self)@ == echo_msg_written(old(self)@, id, seq),
            checksum_verifies(final(self)@.skip(34)),
    {
        proof {
            lemma_echo_msg_verifies(old(self)@, id, seq);
        }
        let len = self.buf.len();
        let payload_size = len - ICMP_OFF - ICMP_ECHO_HDR;
        let ghost m = echo_msg_for(old(self)@, id, seq);
        {
            let b = self.buf.as_mut_slice();
            b[34] = ICMP_ECHO_REQUEST;
            b[35] = 0;
            put_be16(b, 36, 0);
            put_be16(b, 38, id);
            put_be16(b, 40, seq);
        }
        let mut i: usize = 0;
        while i < payload_size
            invariant
                len == self.buf@.len(),
                len == old(self)@.len(),
                payload_size == len - ECHO_HDRS,
                m == echo_msg_for(old(self)@, id, seq),
                i <= payload_size,
                forall|k: int| 0 <= k < ICMP_OFF ==> self.buf@[k] == old(self)@[k],
                forall|k: int| ICMP_OFF <= k < ECHO_HDRS + i ==> self.buf@[k] == m[k - ICMP_OFF],
            decreases payload_size - i,
        {
            self.buf.set(ECHO_HDRS + i, payload_byte(i));
            i = i + 1;
        }
        assert(self.buf@.skip(34) =~= m);
        assert(self.buf@ =~= splice(old(self)@, 34, m));
        let ck = control_msg_checksum(slice_subrange(self.buf.as_slice(), ICMP_OFF, len));
        put_be16(self.buf.as_mut_slice(), 36, ck);
        assert(self.buf@ =~= echo_msg_written(old(self)@, id, seq));
    }

    /// The echo request frame from `src_mac`/`src_ip` through `dst_mac` to
    /// `dst_ip` with `ttl`, the IPv4 identification `ident`, the ICMP
    /// `identifier` and `sequence`, and `payload_size` bytes of payload.
    pub fn request_with_ident(
        src_mac: MacAddr,
        dst_mac: MacAddr,
        src_ip: Ipv4,
        dst_ip: Ipv4,
        ttl: u8,
        ident: u16,
        identifier: u16,
        sequence: u16,
        payload_size: usize,
    ) -> (f: Self)
        requires
            payload_size <= usize::MAX - ECHO_HDRS,
            echo_msg_summable(identifier, sequence, payload_size),
        ensures
            f.wf(),
            f@ == echo_request_frame(
                src_mac,
                dst_mac,
                src_ip,
                dst_ip,
                ttl,
                ident,
                identifier,
                sequence,
                payload_size,
            ),
    {
        let mut frame = EchoFrame::with_payload(payload_size);
        frame.write_ethernet(src_mac, dst_mac);
        frame.write_ipv4_ident(src_ip, dst_ip, ttl, ident);
        frame.write_icmp_echo(identifier, sequence);
        frame
    }

    /// The echo request frame of `request_with_ident`, with a random IPv4
    /// identification.
    pub fn request(
        src_mac: MacAddr,
        dst_mac: MacAddr,
        src_ip: Ipv4,
        dst_ip: Ipv4,
        ttl: u8,
        identifier: u16,
        sequence: u16,
        payload_size: usize,
    ) -> (f: Self)
        requires
            payload_size <= usize::MAX - ECHO_HDRS,
            echo_msg_summable(identifier, sequence, payload_size),
        ensures
            f.wf(),
            f@ == echo_request_frame(
                src_mac,
                dst_mac,
                src_ip,
                dst_ip,
                ttl,
                ip_ident(f@),
                identifier,
                sequence,
                payload_size,
            ),
    {
        let mut frame = EchoFrame::with_payload(payload_size);
        frame.write_ethernet(src_mac, dst_mac);
        frame.write_ipv4(src_ip, dst_ip, ttl);
        let ghost ident = ip_ident(frame@);
        frame.write_icmp_echo(identifier, sequence);
        proof {
            assert(ip_ident(frame@) == ident);
        }
        frame
    }

    /// The bytes of the frame.
    pub fn as_bytes(&self) -> (b: &[u8])
        ensures
            b@ == self@,
    {
        self.buf.as_slice()
    }
}

/// What is read from an echo reply: the TTL left in its IPv4 header, and the
/// length of its ICMP message as the header states it (total length less
/// header length).
#[derive(Clone, Copy, Debug, PartialEq, Eq, Structural)]
pub struct EchoReply {
    pub ttl: u8,
    pub bytes: usize,
}

/// The header length that the IPv4 packet `ip` states, in bytes.
pub open spec fn ip_header_len(ip: Seq<u8>) -> int {
    (ip[0] % 16) * 4
}

/// The payload length that the IPv4 packet `ip` states: its total length
/// less its header length, or zero.
pub open spec fn ip_payload_len(ip: Seq<u8>) -> int {
    if be16(ip, 2) > ip_header_len(ip) {
        be16(ip, 2) - ip_header_len(ip)
    } else {
        0
    }
}

/// Where the payload of the IPv4 packet `ip` starts: after the stated
/// header, and never inside the fixed 20 bytes.
pub open spec fn ip_payload_start(ip: Seq<u8>) -> int {
    if ip_header_len(ip) > 20 {
        ip_header_len(ip)
    } else {
        20
    }
}

/// The payload of the IPv4 packet `ip`: from its start, as many bytes as the
/// header states and the packet holds.
pub open spec fn ip_payload(ip: Seq<u8>) -> Seq<u8> {
    let start = ip_payload_start(ip);
    let end = if start + ip_payload_len(ip) < ip.len() {
        start + ip_payload_len(ip)
    } else {
        ip.len() as int
    };
    if ip.len() <= start {
        Seq::empty()
    } else {
        ip.subrange(start, end)
    }
}

/// The echo reply that `frame` brings to us at `our_ip` from `peer_ip` for
/// the request with `identifier` and `sequence`: an IPv4 frame carrying
/// ICMP from `peer_ip` to `our_ip`, whose ICMP message is an echo reply of
/// at least 8 bytes with that identifier and sequence number. Every other
/// frame brings none.
pub open spec fn echo_reply_of(
    frame: Seq<u8>,
    our_ip: Ipv4,
    peer_ip: Ipv4,
    identifier: u16,
    sequence: u16,
) -> Option<EchoReply> {
    if frame.len() >= ETH_HDR + IPV4_HDR && be16(frame, 12) == ETHERTYPE_IPV4 && frame[23]
        == PROTO_ICMP && ipv4_at(frame, 26) == peer_ip && ipv4_at(frame, 30) == our_ip {
        let ip = frame.skip(14);
        let m = ip_payload(ip);
        if m.len() >= ICMP_ECHO_HDR && m[0] == ICMP_ECHO_REPLY && be16(m, 4) == identifier
            && be16(m, 6) == sequence {
            Some(EchoReply { ttl: frame[22], bytes: ip_payload_len(ip) as usize })
        } else {
            None
        }
    } else {
        None
    }
}

/// The echo reply that `frame` brings to us at `our_ip` from `peer_ip` for
/// the request with `identifier` and `sequence`, if it is one.
pub fn match_reply(
    frame: &[u8],
    our_ip: Ipv4,
    peer_ip: Ipv4,
    identifier: u16,
    sequence: u16,
) -> (r: Option<EchoReply>)
    ensures
        r == echo_reply_of(frame@, our_ip, peer_ip, identifier, sequence),
{
    if frame.len() < ETH_HDR {
        return None;
    }
    if get_be16(frame, 12) != ETHERTYPE_IPV4 {
        return None;
    }
    if frame.len() - ETH_HDR < IPV4_HDR {
        return None;
    }
    if frame[23] != PROTO_ICMP {
        return None;
    }
    if get_ipv4(frame, 26) != peer_ip {
        return None;
    }
    if get_ipv4(frame, 30) != our_ip {
        return None;
    }
    let ghost ip = frame@.skip(14);
    let ihl: usize = (frame[14] % 16) as usize * 4;
    let total: usize = get_be16(frame, 16) as usize;
    assert(ihl == ip_header_len(ip) && total == be16(ip, 2));
    let msg_len: usize = if total > ihl {
        total - ihl
    } else {
        0
    };
    let start: usize = if ihl > IPV4_HDR {
        ihl
    } else {
        IPV4_HDR
    };
    if frame.len() - ETH_HDR <= start {
        return None;
    }
    let end: usize = if start + msg_len < frame.len() - ETH_HDR {
        start + msg_len
    } else {
        frame.len() - ETH_HDR
    };
    let ghost m = ip_payload(ip);
    assert(m =~= frame@.subrange(ETH_HDR + start, ETH_HDR + end));
    if end - start < ICMP_ECHO_HDR {
        return None;
    }
    let at = ETH_HDR + start;
    if frame[at] != ICMP_ECHO_REPLY {
        return None;
    }
    if get_be16(frame, at + 4) != identifier {
        return None;
    }
    if get_be16(frame, at + 6) != sequence {
        return None;
    }
    Some(EchoReply { ttl: frame[22], bytes: msg_len })
}

/// Waiting, at `our_ip`, for the reply of `peer_ip` to the echo request
/// with `identifier` and `sequence`, for at most `timeout`.
pub struct EchoWait {
    pub our_ip: Ipv4,
    pub peer_ip: Ipv4,
    pub identifier: u16,
    pub sequence: u16,
    pub timeout: Span,
}

impl EchoWait {
    /// Checked before each frame is read: the wait fails with
    /// `EchoTimeout(peer_ip, timeout)` exactly when `elapsed` has reached
    /// the timeout.
    pub fn check_deadline(&self, elapsed: Span) -> (r: Result<(), Error>)
        ensures
            timed_out(self.timeout, elapsed) ==> (r matches Err(Error::EchoTimeout(ip, t)) && ip
                == self.peer_ip && t == self.timeout),
            !timed_out(self.timeout, elapsed) ==> r is Ok,
    {
        if elapsed.is_at_least(&self.timeout) {
            Err(Error::EchoTimeout(self.peer_ip, self.timeout))
        } else {
            Ok(())
        }
    }

    /// The reply if `frame` is the one awaited; any other frame is passed
    /// over.
    pub fn accept(&self, frame: &[u8]) -> (r: Option<EchoReply>)
        ensures
            r == echo_reply_of(frame@, self.our_ip, self.peer_ip, self.identifier, self.sequence),
    {
        match_reply(frame, self.our_ip, self.peer_ip, self.identifier, self.sequence)
    }
}

/// What the echo request frame carries where: its length, the Ethernet
/// header, the IPv4 fields that a receiver reads, the ICMP echo header and
/// the payload.
pub proof fn lemma_echo_request_layout(
    src_mac: MacAddr,
    dst_mac: MacAddr,
    src_ip: Ipv4,
    dst_ip: Ipv4,
    ttl: u8,
    ident: u16,
    id: u16,
    seq: u16,
    n: usize,
)
    ensures
        ({
            let f = echo_request_frame(src_mac, dst_mac, src_ip, dst_ip, ttl, ident, id, seq, n);
            &&& f.len() == ECHO_HDRS + n
            &&& mac_at(f, 0) == dst_mac
            &&& mac_at(f, 6) == src_mac
            &&& be16(f, 12) == ETHERTYPE_IPV4
            &&& f[14] == 0x45
            &&& be16(f, 16) == (28 + n) as u16
            &&& ip_ident(f) == ident
            &&& f[20] == 0x40
            &&& f[21] == 0x00
            &&& f[22] == ttl
            &&& f[23] == PROTO_ICMP
            &&& ipv4_at(f, 26) == src_ip
            &&& ipv4_at(f, 30) == dst_ip
            &&& f[34] == ICMP_ECHO_REQUEST
            &&& f[35] == 0
            &&& be16(f, 38) == id
            &&& be16(f, 40) == seq
            &&& forall|k: int| 0 <= k < n ==> #[trigger] f[ECHO_HDRS + k] == (k % 256) as u8
        }),
{
    let z = zeros((42 + n) as nat);
    let e = eth_written(z, src_mac, dst_mac);
    let g = ipv4_fields(e, src_ip, dst_ip, ttl, ident);
    let h = ipv4_written(e, src_ip, dst_ip, ttl, ident);
    let m = echo_msg_for(h, id, seq);
    let f = echo_msg_written(h, id, seq);
    let ck = be16_bytes(ipv4_checksum_of(g.subrange(14, g.len() as int)));
    let mm = splice(m, 2, be16_bytes(control_msg_checksum_of(m)));
    assert(f == echo_request_frame(src_mac, dst_mac, src_ip, dst_ip, ttl, ident, id, seq, n));
    assert(e.len() == 42 + n);
    assert(mac_at(e, 0) == dst_mac && mac_at(e, 6) == src_mac);
    assert(e[12] == 8 && e[13] == 0);
    assert(g.len() == e.len());
    assert(mac_at(g, 0) == dst_mac && mac_at(g, 6) == src_mac);
    assert(g[12] == 8 && g[13] == 0 && g[14] == 0x45 && g[22] == ttl && g[23] == PROTO_ICMP);
    assert(e[20] == 0 && e[21] == 0);
    assert(((0u8 & 0x1fu8) | 0x40u8) == 0x40u8) by (bit_vector);
    assert(g[20] == 0x40 && g[21] == 0);
    assert(be16(g, 16) == (28 + n) as u16);
    assert(be16(g, 18) == ident);
    assert(ipv4_at(g, 26) == src_ip && ipv4_at(g, 30) == dst_ip);
    assert(h.len() == g.len());
    assert(forall|k: int| 0 <= k < h.len() && (k < 24 || k >= 26) ==> h[k] == g[k]);
    assert(m.len() == 8 + n);
    assert(mm.len() == m.len());
    assert(f.len() == h.len());
    assert(forall|k: int| 0 <= k < 34 ==> f[k] == h[k]);
    assert(forall|k: int| 34 <= k < f.len() ==> f[k] == mm[k - 34]);
    assert(forall|k: int| 0 <= k < mm.len() && (k < 2 || k >= 4) ==> mm[k] == m[k]);
    assert(m[0] == ICMP_ECHO_REQUEST && m[1] == 0);
    assert(be16(m, 4) == id && be16(m, 6) == seq);
    assert forall|k: int| 0 <= k < n implies #[trigger] f[ECHO_HDRS + k] == (k % 256) as u8 by {
        assert(f[ECHO_HDRS + k] == mm[8 + k]);
        assert(m[8 + k] == echo_payload(n as nat)[k]);
    }
}

/// Our own echo request, seen again on the link, is never taken for the
/// reply, whatever reply is awaited.
pub proof fn lemma_request_is_not_reply(
    src_mac: MacAddr,
    dst_mac: MacAddr,
    src_ip: Ipv4,
    dst_ip: Ipv4,
    ttl: u8,
    ident: u16,
    id: u16,
    seq: u16,
    n: usize,
    our_ip: Ipv4,
    peer_ip: Ipv4,
    identifier: u16,
    sequence: u16,
)
    ensures
        echo_reply_of(
            echo_request_frame(src_mac, dst_mac, src_ip, dst_ip, ttl, ident, id, seq, n),
            our_ip,
            peer_ip,
            identifier,
            sequence,
        ) is None,
{
    lemma_echo_request_layout(src_mac, dst_mac, src_ip, dst_ip, ttl, ident, id, seq, n);
    let f = echo_request_frame(src_mac, dst_mac, src_ip, dst_ip, ttl, ident, id, seq, n);
    let ip = f.skip(14);
    assert(ip[0] == 0x45);
    assert(ip_header_len(ip) == 20);
    let m = ip_payload(ip);
    if m.len() >= ICMP_ECHO_HDR {
        assert(m[0] == f[34]);
    }
}

/// The echo reply that a host sends back for the frame `req`: hardware and
/// IP addresses swapped, the TTL `ttl`, the type echo reply, the checksums
/// `ip_check` and `msg_check`, everything else as in the request.
pub open spec fn echo_reflection(req: Seq<u8>, ttl: u8, ip_check: u16, msg_check: u16) -> Seq<
    u8,
> {
    Seq::new(
        req.len(),
        |i: int|
            if i < 6 {
                req[i + 6]
            } else if i < 12 {
                req[i - 6]
            } else if i == 22 {
                ttl
            } else if i == 24 {
                (ip_check / 256) as u8
            } else if i == 25 {
                (ip_check % 256) as u8
            } else if 26 <= i < 30 {
                req[i + 4]
            } else if 30 <= i < 34 {
                req[i - 4]
            } else if i == 34 {
                ICMP_ECHO_REPLY
            } else if i == 36 {
                (msg_check / 256) as u8
            } else if i == 37 {
                (msg_check % 256) as u8
            } else {
                req[i]
            },
    )
}

/// The reply that the peer sends back for our echo request is recognised,
/// with the TTL it arrives with and the length of the ICMP message: 8 bytes
/// of header and the payload. The total length of the request must fit its
/// 16-bit field.
pub proof fn lemma_reflected_request_is_reply(
    src_mac: MacAddr,
    dst_mac: MacAddr,
    src_ip: Ipv4,
    dst_ip: Ipv4,
    ttl: u8,
    ident: u16,
    id: u16,
    seq: u16,
    n: usize,
    reply_ttl: u8,
    ip_check: u16,
    msg_check: u16,
)
    requires
        28 + n <= 0xffff,
    ensures
        echo_reply_of(
            echo_reflection(
                echo_request_frame(src_mac, dst_mac, src_ip, dst_ip, ttl, ident, id, seq, n),
                reply_ttl,
                ip_check,
                msg_check,
            ),
            src_ip,
            dst_ip,
            id,
            seq,
        ) == Some(EchoReply { ttl: reply_ttl, bytes: (8 + n) as usize }),
{
    lemma_echo_request_layout(src_mac, dst_mac, src_ip, dst_ip, ttl, ident, id, seq, n);
    let req = echo_request_frame(src_mac, dst_mac, src_ip, dst_ip, ttl, ident, id, seq, n);
    let f = echo_reflection(req, reply_ttl, ip_check, msg_check);
    assert(f.len() == 42 + n);
    assert(f[12] == req[12] && f[13] == req[13] && f[23] == req[23]);
    assert(ipv4_at(f, 26) == ipv4_at(req, 30));
    assert(ipv4_at(f, 30) == ipv4_at(req, 26));
    let ip = f.skip(14);
    assert(ip[0] == 0x45 && ip[2] == req[16] && ip[3] == req[17]);
    assert(ip_header_len(ip) == 20);
    assert(be16(ip, 2) == 28 + n);
    assert(ip_payload_len(ip) == 8 + n);
    let m = ip_payload(ip);
    assert(m =~= f.subrange(34, 42 + n));
    assert(m[0] == ICMP_ECHO_REPLY);
    assert(m[4] == req[38] && m[5] == req[39] && m[6] == req[40] && m[7] == req[41]);
}

/// The IPv4 header that `write_ipv4_ident` writes verifies: its words,
/// the checksum among them, add up to `0xffff`.
pub proof fn lemma_ipv4_header_verifies(f: Seq<u8>, src: Ipv4, dst: Ipv4, ttl: u8, ident: u16)
    requires
        f.len() >= ICMP_OFF,
    ensures
        checksum_verifies(ipv4_written(f, src, dst, ttl, ident).subrange(14, 34)),
{
    let g = ipv4_fields(f, src, dst, ttl, ident);
    let p = g.subrange(14, g.len() as int);
    assert(p[0] == 0x45);
    assert(ipv4_header_span(p) == 20);
    let hdr = p.subrange(0, 20);
    let c = internet_checksum(hdr, 5);
    assert(ipv4_checksum_of(p) == c);
    lemma_checksum_verifies(hdr, 5);
    let h = ipv4_written(f, src, dst, ttl, ident);
    assert(h.subrange(14, 34) =~= hdr.subrange(0, 10) + seq![(c / 256) as u8, (c % 256) as u8]
        + hdr.subrange(12, 20));
}

/// The ICMP echo request that `write_icmp_echo` writes verifies: its
/// words, the checksum among them, add up to `0xffff`.
pub proof fn lemma_echo_msg_verifies(f: Seq<u8>, id: u16, seq: u16)
    requires
        f.len() >= ECHO_HDRS,
    ensures
        checksum_verifies(echo_msg_written(f, id, seq).skip(34)),
{
    let m = echo_msg_for(f, id, seq);
    let c = internet_checksum(m, 1);
    assert(control_msg_checksum_of(m) == c);
    lemma_checksum_verifies(m, 1);
    let w = echo_msg_written(f, id, seq);
    assert(w.skip(34) =~= m.subrange(0, 2) + seq![(c / 256) as u8, (c % 256) as u8] + m.subrange(
        4,
        m.len() as int,
    ));
}

/// Both checksums of the echo request frame verify.
pub proof fn lemma_echo_request_verifies(
    src_mac: MacAddr,
    dst_mac: MacAddr,
    src_ip: Ipv4,
    dst_ip: Ipv4,
    ttl: u8,
    ident: u16,
    id: u16,
    seq: u16,
    n: usize,
)
    ensures
        ({
            let f = echo_request_frame(src_mac, dst_mac, src_ip, dst_ip, ttl, ident, id, seq, n);
            checksum_verifies(f.subrange(14, 34)) && checksum_verifies(f.skip(34))
        }),
{
    let e = eth_written(zeros((42 + n) as nat), src_mac, dst_mac);
    let h = ipv4_written(e, src_ip, dst_ip, ttl, ident);
    let f = echo_msg_written(h, id, seq);
    assert(f == echo_request_frame(src_mac, dst_mac, src_ip, dst_ip, ttl, ident, id, seq, n));
    lemma_ipv4_header_verifies(e, src_ip, dst_ip, ttl, ident);
    lemma_echo_msg_verifies(h, id, seq);
    assert(f.subrange(14, 34) =~= h.subrange(14, 34));
}

/// Every echo request is a whole datagram: the don't-fragment flag set,
/// no other flag, and fragment offset zero, whatever the payload size.
pub proof fn lemma_echo_request_unfragmented(
    src_mac: MacAddr,
    dst_mac: MacAddr,
    src_ip: Ipv4,
    dst_ip: Ipv4,
    ttl: u8,
    ident: u16,
    id: u16,
    seq: u16,
    n: usize,
)
    ensures
        ({
            let f = echo_request_frame(src_mac, dst_mac, src_ip, dst_ip, ttl, ident, id, seq, n);
            f[20] == 0x40 && f[21] == 0x00
        }),
{
    lemma_echo_request_layout(src_mac, dst_mac, src_ip, dst_ip, ttl, ident, id, seq, n);
}

/// A frame taken for the reply is an IPv4 frame carrying ICMP from
/// `peer_ip` to `our_ip`, whose ICMP message is an echo reply carrying the
/// awaited identifier and sequence number, both bytes of each.
pub proof fn lemma_reply_carries_awaited_numbers(
    frame: Seq<u8>,
    our_ip: Ipv4,
    peer_ip: Ipv4,
    identifier: u16,
    sequence: u16,
)
    ensures
        echo_reply_of(frame, our_ip, peer_ip, identifier, sequence) is Some ==> {
            let m = ip_payload(frame.skip(14));
            &&& frame.len() >= 34
            &&& frame[12] == 0x08 && frame[13] == 0x00
            &&& frame[23] == PROTO_ICMP
            &&& peer_ip.octets() =~= frame.subrange(26, 30)
            &&& our_ip.octets() =~= frame.subrange(30, 34)
            &&& m.len() >= 8
            &&& m[0] == ICMP_ECHO_REPLY
            &&& m[4] == (identifier / 256) as u8 && m[5] == (identifier % 256) as u8
            &&& m[6] == (sequence / 256) as u8 && m[7] == (sequence % 256) as u8
        },
{
    if echo_reply_of(frame, our_ip, peer_ip, identifier, sequence) is Some {
        let m = ip_payload(frame.skip(14));
        assert(m[4] * 256 + m[5] == identifier);
        assert(m[6] * 256 + m[7] == sequence);
        assert(frame[12] * 256 + frame[13] == 0x0800);
    }
}

/// The peer's reply to a request with another identifier or another
/// sequence number is not taken for the reply awaited.
#[verifier::rlimit(50)]
pub proof fn lemma_reply_to_other_request_is_not_ours(
    src_mac: MacAddr,
    dst_mac: MacAddr,
    src_ip: Ipv4,
    dst_ip: Ipv4,
    ttl: u8,
    ident: u16,
    other_id: u16,
    other_seq: u16,
    n: usize,
    reply_ttl: u8,
    ip_check: u16,
    msg_check: u16,
    identifier: u16,
    sequence: u16,
)
    requires
        other_id != identifier || other_seq != sequence,
    ensures
        echo_reply_of(
            echo_reflection(
                echo_request_frame(
                    src_mac,
                    dst_mac,
                    src_ip,
                    dst_ip,
                    ttl,
                    ident,
                    other_id,
                    other_seq,
                    n,
                ),
                reply_ttl,
                ip_check,
                msg_check,
            ),
            src_ip,
            dst_ip,
            identifier,
            sequence,
        ) is None,
{
    lemma_echo_request_layout(src_mac, dst_mac, src_ip, dst_ip, ttl, ident, other_id, other_seq, n);
    let req = echo_request_frame(src_mac, dst_mac, src_ip, dst_ip, ttl, ident, other_id, other_seq, n);
    let f = echo_reflection(req, reply_ttl, ip_check, msg_check);
    let ip = f.skip(14);
    if echo_reply_of(f, src_ip, dst_ip, identifier, sequence) is Some {
        assert(ip[0] == 0x45);
        assert(ip_header_len(ip) == 20);
        let m = ip_payload(ip);
        assert(m[4] == f[38] && m[5] == f[39] && m[6] == f[40] && m[7] == f[41]);
        assert(f[38] == req[38] && f[39] == req[39] && f[40] == req[40] && f[41] == req[41]);
        assert(false);
    }
}

} // verus!
