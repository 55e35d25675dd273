//! A ping through a gateway as a sequence of decisions: resolve the
//! gateway's hardware address, send one echo request framed for it, and
//! wait for the reply. The caller does the sending, receiving and timing,
//! and hands every received frame and the time elapsed to the session.
use crate::addr::{Ipv4, MacAddr};
use crate::arp::{arp_reply_sender, arp_request, build_request, ArpWait, ARP_LEN, ETH_HDR};
use crate::echo::{
    echo_msg_summable, echo_reflection, echo_reply_of, echo_request_frame, echo_request_summable,
    ip_ident, ip_payload, lemma_reflected_request_is_reply, lemma_reply_carries_awaited_numbers,
    EchoFrame, EchoReply, EchoWait, ECHO_HDRS, ICMP_ECHO_REPLY,
};
use crate::error::Error;
use crate::span::{timed_out, Span};
use crate::ping::{PingOpts, PingResult, Source};
use vstd::prelude::*;

verus! {

/// A ping through `gateway` to `target` from `source`, with `opts` and the
/// ICMP `identifier`. While `gateway_mac` is absent the session waits for
/// the gateway's ARP reply; once it is known, for the echo reply.
pub struct PingSession {
    pub source: Source,
    pub gateway: Ipv4,
    pub target: Ipv4,
    pub opts: PingOpts,
    pub identifier: u16,
    pub gateway_mac: Option<MacAddr>,
}

/// What the caller does after handing a frame to the session.
pub enum Step {
    /// Keep reading frames.
    Wait,
    /// Send this echo request, and time the wait for its reply from now.
    Send(EchoFrame),
    /// The echo reply has come: the ping is over.
    Replied(EchoReply),
    /// The gateway is resolved, but the echo request cannot be framed: its
    /// length does not fit a `usize`, or pnet's 32-bit sum of its words
    /// would overflow.
    Oversized,
}

/// What a frame makes the session do, as far as its state goes.
pub enum StepKind {
    Wait,
    SendEcho(MacAddr),
    Replied(EchoReply),
}

/// What `frame` makes the session `s` do: before the gateway is resolved,
/// its ARP reply makes the session send the echo request to it; after, the
/// echo reply ends the ping; every other frame is passed over.
pub open spec fn step_of(s: PingSession, frame: Seq<u8>) -> StepKind {
    match s.gateway_mac {
        None => match arp_reply_sender(frame, s.source.ip, s.gateway) {
            Some(m) => StepKind::SendEcho(m),
            None => StepKind::Wait,
        },
        Some(_) => match echo_reply_of(
            frame,
            s.source.ip,
            s.target,
            s.identifier,
            s.opts.sequence,
        ) {
            Some(r) => StepKind::Replied(r),
            None => StepKind::Wait,
        },
    }
}

/// The session after `frame`: the gateway is resolved by its ARP reply,
/// and nothing else changes.
pub open spec fn after_step(s: PingSession, frame: Seq<u8>) -> PingSession {
    match step_of(s, frame) {
        StepKind::SendEcho(m) => PingSession { gateway_mac: Some(m), ..s },
        _ => s,
    }
}

/// What the session `s` does on each of `frames`, received in turn.
pub open spec fn steps(s: PingSession, frames: Seq<Seq<u8>>) -> Seq<StepKind>
    decreases frames.len(),
{
    if frames.len() == 0 {
        Seq::empty()
    } else {
        seq![step_of(s, frames[0])] + steps(after_step(s, frames[0]), frames.drop_first())
    }
}

/// The session's echo request can be framed: its length fits a `usize`
/// and pnet can add up its words.
pub open spec fn framable(s: PingSession) -> bool {
    &&& s.opts.payload_size <= usize::MAX - ECHO_HDRS
    &&& echo_msg_summable(s.identifier, s.opts.sequence, s.opts.payload_size)
}

impl PingSession {
    /// A session that has not resolved the gateway yet.
    pub fn new(source: Source, gateway: Ipv4, target: Ipv4, opts: PingOpts, identifier: u16) -> (s:
        Self)
        ensures
            s == (PingSession { source, gateway, target, opts, identifier, gateway_mac: None }),
    {
        PingSession { source, gateway, target, opts, identifier, gateway_mac: None }
    }

    /// The wait for the gateway's ARP reply.
    pub fn arp_wait(&self) -> (w: ArpWait)
        ensures
            w == (ArpWait {
                src_ip: self.source.ip,
                target_ip: self.gateway,
                timeout: self.opts.arp_timeout,
            }),
    {
        ArpWait { src_ip: self.source.ip, target_ip: self.gateway, timeout: self.opts.arp_timeout }
    }

    /// The wait for the echo reply.
    pub fn echo_wait(&self) -> (w: EchoWait)
        ensures
            w == (EchoWait {
                our_ip: self.source.ip,
                peer_ip: self.target,
                identifier: self.identifier,
                sequence: self.opts.sequence,
                timeout: self.opts.reply_timeout,
            }),
    {
        EchoWait {
            our_ip: self.source.ip,
            peer_ip: self.target,
            identifier: self.identifier,
            sequence: self.opts.sequence,
            timeout: self.opts.reply_timeout,
        }
    }

    /// The ARP request that asks for the gateway's hardware address.
    pub fn arp_request(&self) -> (f: Vec<u8>)
        ensures
            f@ == arp_request(self.source.mac, self.source.ip, self.gateway),
    {
        let mut f = vec![0u8; ETH_HDR + ARP_LEN];
        build_request(f.as_mut_slice(), self.source.mac, self.source.ip, self.gateway);
        assert(f@ =~= arp_request(self.source.mac, self.source.ip, self.gateway));
        f
    }

    /// Checked before each frame is read, with the time elapsed since
    /// the last frame was sent: while resolving, the wait for the
    /// ARP reply times out with `ArpTimeout(gateway, arp_timeout)`; after,
    /// the wait for the echo reply with `EchoTimeout(target, reply_timeout)`.
    pub fn check_deadline(&self, elapsed: Span) -> (r: Result<(), Error>)
        ensures
            self.gateway_mac is None ==> {
                &&& timed_out(self.opts.arp_timeout, elapsed) ==> (r matches Err(
                    Error::ArpTimeout(ip, t),
                ) && ip == self.gateway && t == self.opts.arp_timeout)
                &&& !timed_out(self.opts.arp_timeout, elapsed) ==> r is Ok
            },
            self.gateway_mac is Some ==> {
                &&& timed_out(self.opts.reply_timeout, elapsed) ==> (r matches Err(
                    Error::EchoTimeout(ip, t),
                ) && ip == self.target && t == self.opts.reply_timeout)
                &&& !timed_out(self.opts.reply_timeout, elapsed) ==> r is Ok
            },
    {
        match self.gateway_mac {
            None => self.arp_wait().check_deadline(elapsed),
            Some(_) => self.echo_wait().check_deadline(elapsed),
        }
    }

    /// Hands a received frame to the session: see `step_of` and
    /// `after_step`. The echo request sent goes from the source to the
    /// resolved gateway and carries the target, the options' TTL, payload
    /// size and sequence number, and the identifier; its IPv4
    /// identification is random. A request that cannot be framed is
    /// `Oversized` instead.
    pub fn on_frame(&mut self, frame: &[u8]) -> (step: Step)
        ensures
            *final(self) == after_step(*old(self), frame@),
            match step_of(*old(self), frame@) {
                StepKind::Wait => step is Wait,
                StepKind::Replied(r) => step == Step::Replied(r),
                StepKind::SendEcho(m) => if !framable(*old(self)) {
                    step is Oversized
                } else {
                    step matches Step::Send(f) && f.wf() && f@ == echo_request_frame(
                    old(self).source.mac,
                    m,
                    old(self).source.ip,
                    old(self).target,
                    old(self).opts.ttl,
                    ip_ident(f@),
                    old(self).identifier,
                    old(self).opts.sequence,
                    old(self).opts.payload_size,
                )
                },
            },
    {
        match self.gateway_mac {
            None => match self.arp_wait().accept(frame) {
                Some(m) => {
                    self.gateway_mac = Some(m);
                    if self.opts.payload_size > usize::MAX - ECHO_HDRS || !echo_request_summable(
                        self.identifier,
                        self.opts.sequence,
                        self.opts.payload_size,
                    ) {
                        return Step::Oversized;
                    }
                    let f = EchoFrame::request(
                        self.source.mac,
                        m,
                        self.source.ip,
                        self.target,
                        self.opts.ttl,
                        self.identifier,
                        self.opts.sequence,
                        self.opts.payload_size,
                    );
                    Step::Send(f)
                },
                None => Step::Wait,
            },
            Some(_) => match self.echo_wait().accept(frame) {
                Some(r) => Step::Replied(r),
                None => Step::Wait,
            },
        }
    }

    /// The answer of the ping, once the echo reply `reply` has come after
    /// `rtt`.
    pub fn result(&self, reply: EchoReply, rtt: core::time::Duration) -> (r: PingResult)
        requires
            self.gateway_mac is Some,
        ensures
            r.gateway_mac == self.gateway_mac.unwrap(),
            r.reply_ttl == reply.ttl,
            r.rtt == rtt,
            r.bytes == reply.bytes,
            r.identifier == self.identifier,
            r.sequence == self.opts.sequence,
    {
        PingResult {
            gateway_mac: self.gateway_mac.unwrap(),
            reply_ttl: reply.ttl,
            rtt,
            bytes: reply.bytes,
            identifier: self.identifier,
            sequence: self.opts.sequence,
        }
    }
}

/// Whatever frames arrive, a session sends at most one echo request; it
/// sends none once the gateway is resolved; and, started unresolved, it
/// reports a reply only after it has sent its request.
pub proof fn lemma_one_request_before_reply(s: PingSession, frames: Seq<Seq<u8>>)
    ensures
        steps(s, frames).len() == frames.len(),
        s.gateway_mac is Some ==> forall|i: int|
            0 <= i < frames.len() ==> !(#[trigger] steps(s, frames)[i] is SendEcho),
        forall|i: int, j: int|
            0 <= i < j < frames.len() ==> !(#[trigger] steps(s, frames)[i] is SendEcho
                && #[trigger] steps(s, frames)[j] is SendEcho),
        s.gateway_mac is None ==> forall|j: int|
            0 <= j < frames.len() && #[trigger] steps(s, frames)[j] is Replied ==> exists|i: int|
                0 <= i < j && #[trigger] steps(s, frames)[i] is SendEcho,
    decreases frames.len(),
{
    if frames.len() > 0 {
        let t = after_step(s, frames[0]);
        let rest = frames.drop_first();
        lemma_one_request_before_reply(t, rest);
        let all = steps(s, frames);
        assert(all == seq![step_of(s, frames[0])] + steps(t, rest));
        assert forall|i: int| 0 < i < frames.len() implies all[i] == steps(t, rest)[i - 1] by {}
        if step_of(s, frames[0]) is SendEcho {
            assert(t.gateway_mac is Some);
        } else {
            assert(t == s);
        }
        if s.gateway_mac is None {
            assert forall|j: int|
                0 <= j < frames.len() && #[trigger] all[j] is Replied implies exists|i: int|
                    0 <= i < j && #[trigger] all[i] is SendEcho by {
                if step_of(s, frames[0]) is SendEcho {
                    assert(all[0] is SendEcho);
                } else {
                    assert(j > 0);
                    assert(steps(t, rest)[j - 1] is Replied);
                    let i0 = choose|i: int| 0 <= i < j - 1 && #[trigger] steps(t, rest)[i] is SendEcho;
                    assert(all[i0 + 1] is SendEcho);
                }
            }
        }
    }
}

/// Once the gateway's ARP reply has made the session send its echo
/// request, the peer's reply to that very request ends the ping, with the
/// TTL it arrives with and 8 bytes of header plus the payload: the
/// identifier and sequence number awaited are the ones sent, whatever the
/// options say. The request's total length must fit its 16-bit field.
pub proof fn lemma_session_takes_reply_to_its_request(
    s: PingSession,
    arp_frame: Seq<u8>,
    ident: u16,
    reply_ttl: u8,
    ip_check: u16,
    msg_check: u16,
)
    requires
        s.gateway_mac is None,
        arp_reply_sender(arp_frame, s.source.ip, s.gateway) is Some,
        28 + s.opts.payload_size <= 0xffff,
    ensures
        ({
            let m = arp_reply_sender(arp_frame, s.source.ip, s.gateway).unwrap();
            let sent = echo_request_frame(
                s.source.mac,
                m,
                s.source.ip,
                s.target,
                s.opts.ttl,
                ident,
                s.identifier,
                s.opts.sequence,
                s.opts.payload_size,
            );
            &&& step_of(s, arp_frame) == StepKind::SendEcho(m)
            &&& step_of(
                after_step(s, arp_frame),
                echo_reflection(sent, reply_ttl, ip_check, msg_check),
            ) == StepKind::Replied(
                EchoReply { ttl: reply_ttl, bytes: (8 + s.opts.payload_size) as usize },
            )
        }),
{
    let m = arp_reply_sender(arp_frame, s.source.ip, s.gateway).unwrap();
    lemma_reflected_request_is_reply(
        s.source.mac,
        m,
        s.source.ip,
        s.target,
        s.opts.ttl,
        ident,
        s.identifier,
        s.opts.sequence,
        s.opts.payload_size,
        reply_ttl,
        ip_check,
        msg_check,
    );
}

/// A resolved session ends the ping only on an echo reply from the target
/// to the source that carries its identifier and its options' sequence
/// number, both bytes of each.
pub proof fn lemma_session_reply_is_awaited(s: PingSession, frame: Seq<u8>)
    requires
        s.gateway_mac is Some,
    ensures
        step_of(s, frame) is Replied ==> {
            let msg = ip_payload(frame.skip(14));
            &&& s.target.octets() =~= frame.subrange(26, 30)
            &&& s.source.ip.octets() =~= frame.subrange(30, 34)
            &&& msg.len() >= 8
            &&& msg[0] == ICMP_ECHO_REPLY
            &&& msg[4] == (s.identifier / 256) as u8 && msg[5] == (s.identifier % 256) as u8
            &&& msg[6] == (s.opts.sequence / 256) as u8 && msg[7] == (s.opts.sequence % 256) as u8
        },
{
    lemma_reply_carries_awaited_numbers(
        frame,
        s.source.ip,
        s.target,
        s.identifier,
        s.opts.sequence,
    );
}

} // verus!
