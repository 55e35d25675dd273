//! The Internet checksum as `pnet` computes it for IPv4 headers and ICMP
//! messages, the calls into `pnet` that compute it, and why a checksum
//! written into its place makes the data verify.
use pnet::packet::icmp::IcmpPacket;
use pnet::packet::ipv4::Ipv4Packet;
use vstd::arithmetic::div_mod::{lemma_fundamental_div_mod, lemma_mod_multiples_vanish};
use vstd::prelude::*;

verus! {

/// The big-endian 16-bit word number `i` of `d`.
pub open spec fn word_at(d: Seq<u8>, i: int) -> int {
    d[2 * i] * 256 + d[2 * i + 1]
}

/// The sum of the first `n` words of `d`, leaving out word number `skip`.
pub open spec fn words_sum(d: Seq<u8>, skip: int, n: nat) -> int
    decreases n,
{
    if n == 0 {
        0
    } else {
        words_sum(d, skip, (n - 1) as nat) + if n - 1 == skip {
            0
        } else {
            word_at(d, n - 1)
        }
    }
}

/// The sum of all words of `d` but word number `skip`; an odd last byte
/// counts as the high byte of a word, unless that word is the one left out.
pub open spec fn word_sum(d: Seq<u8>, skip: int) -> int {
    words_sum(d, skip, (d.len() / 2) as nat) + if d.len() % 2 == 1 && d.len() / 2 != skip {
        d[d.len() - 1] * 256
    } else {
        0
    }
}

/// `s` with the carries out of the low 16 bits added back in, until none
/// is left.
pub open spec fn fold_carries(s: nat) -> nat
    decreases s,
{
    if s < 0x10000 {
        s
    } else {
        proof {
            lemma_fundamental_div_mod(s as int, 0x10000);
        }
        fold_carries((s / 0x10000 + s % 0x10000) as nat)
    }
}

/// The checksum of `d` with word number `skip` taken as zero: the ones'
/// complement of the folded word sum; zero for no data.
pub open spec fn internet_checksum(d: Seq<u8>, skip: int) -> u16 {
    if d.len() == 0 {
        0
    } else {
        (0xffff - fold_carries(word_sum(d, skip) as nat)) as u16
    }
}

/// The header of the IPv4 packet `p` that its checksum covers: as many
/// bytes as the header length states, but no fewer than 20 and no more than
/// the packet holds.
pub open spec fn ipv4_header_span(p: Seq<u8>) -> int {
    let h = (p[0] % 16) * 4;
    if h < 20 {
        20
    } else if h > p.len() {
        p.len() as int
    } else {
        h
    }
}

/// The checksum that `pnet::packet::ipv4::checksum` computes for the IPv4
/// packet `p`: over its header, the checksum field (word 5) taken as zero.
pub open spec fn ipv4_checksum_of(p: Seq<u8>) -> u16 {
    internet_checksum(p.subrange(0, ipv4_header_span(p)), 5)
}

/// The checksum that `pnet::packet::icmp::checksum` computes for the ICMP
/// packet `p`: over all of it, the checksum field (word 1) taken as zero.
pub open spec fn control_msg_checksum_of(p: Seq<u8>) -> u16 {
    internet_checksum(p, 1)
}

/// `d` verifies: all its words, folded, add up to `0xffff`.
pub open spec fn checksum_verifies(d: Seq<u8>) -> bool {
    fold_carries(word_sum(d, -1) as nat) == 0xffff
}

/// Calls `pnet::packet::ipv4::checksum` on `packet` seen as an IPv4 packet
/// (`Ipv4Packet::new` accepts 20 bytes or more). pnet sums at most the 60
/// bytes of the header, so its 32-bit sum cannot overflow.
#[verifier::external_body]
pub(crate) fn ipv4_checksum(packet: &[u8]) -> (c: u16)
    requires
        packet@.len() >= 20,
    ensures
        c == ipv4_checksum_of(packet@),
{
    pnet::packet::ipv4::checksum(&Ipv4Packet::new(packet).unwrap())
}

/// Calls `pnet::packet::icmp::checksum` on `packet` seen as an ICMP packet
/// (`IcmpPacket::new` accepts 4 bytes or more). pnet adds the words in an
/// unchecked `u32`, which must not overflow.
#[verifier::external_body]
pub(crate) fn control_msg_checksum(packet: &[u8]) -> (c: u16)
    requires
        packet@.len() >= 4,
        word_sum(packet@, 1) <= u32::MAX,
    ensures
        c == control_msg_checksum_of(packet@),
{
    pnet::packet::icmp::checksum(&IcmpPacket::new(packet).unwrap())
}

/// Folding keeps the remainder modulo `0xffff`, ends below `0x10000`, and
/// leaves a positive sum positive.
pub proof fn lemma_fold_carries(s: nat)
    ensures
        fold_carries(s) < 0x10000,
        fold_carries(s) % 0xffff == s % 0xffff,
        s > 0 ==> fold_carries(s) > 0,
    decreases s,
{
    if s >= 0x10000 {
        let q = s as int / 0x10000;
        let r = s as int % 0x10000;
        lemma_fundamental_div_mod(s as int, 0x10000);
        assert(s == 0x10000 * q + r);
        lemma_mod_multiples_vanish(q, q + r, 0xffff);
        assert(0xffff * q + (q + r) == s);
        lemma_fold_carries((q + r) as nat);
    }
}

/// A word sum no larger than its counterpart over more words.
pub proof fn lemma_words_sum_grows(d: Seq<u8>, skip: int, a: nat, b: nat)
    requires
        a <= b,
        2 * b <= d.len(),
    ensures
        words_sum(d, skip, a) <= words_sum(d, skip, b),
    decreases b,
{
    if a < b {
        lemma_words_sum_grows(d, skip, a, (b - 1) as nat);
    }
}

/// Leaving out a word beyond the first `n` leaves them all in.
proof fn lemma_words_sum_skip_beyond(d: Seq<u8>, skip: int, n: nat)
    requires
        skip < 0 || skip >= n,
    ensures
        words_sum(d, skip, n) == words_sum(d, -1, n),
    decreases n,
{
    if n > 0 {
        lemma_words_sum_skip_beyond(d, skip, (n - 1) as nat);
    }
}

/// Putting the word left out back in gives the sum of all words.
proof fn lemma_words_sum_skip(d: Seq<u8>, k: int, n: nat)
    requires
        0 <= k < n,
    ensures
        words_sum(d, k, n) + word_at(d, k) == words_sum(d, -1, n),
    decreases n,
{
    if k == n - 1 {
        lemma_words_sum_skip_beyond(d, k, (n - 1) as nat);
    } else {
        lemma_words_sum_skip(d, k, (n - 1) as nat);
    }
}

/// The sum leaving out word `k` does not depend on the bytes of word `k`.
proof fn lemma_words_sum_other_bytes(d1: Seq<u8>, d2: Seq<u8>, k: int, n: nat)
    requires
        2 * n <= d1.len(),
        2 * n <= d2.len(),
        forall|i: int| 0 <= i < 2 * n && i != 2 * k && i != 2 * k + 1 ==> d1[i] == d2[i],
    ensures
        words_sum(d1, k, n) == words_sum(d2, k, n),
    decreases n,
{
    if n > 0 {
        lemma_words_sum_other_bytes(d1, d2, k, (n - 1) as nat);
        if n - 1 != k {
            let j = n - 1;
            assert(d1[2 * j] == d2[2 * j]);
            assert(d1[2 * j + 1] == d2[2 * j + 1]);
        }
    }
}

/// Writing the checksum of `d`, taken with word `k` as zero, into word `k`
/// makes the data verify.
pub proof fn lemma_checksum_verifies(d: Seq<u8>, k: int)
    requires
        0 <= k,
        2 * k + 2 <= d.len(),
    ensures
        checksum_verifies(
            d.subrange(0, 2 * k) + seq![
                (internet_checksum(d, k) / 256) as u8,
                (internet_checksum(d, k) % 256) as u8,
            ] + d.subrange(2 * k + 2, d.len() as int),
        ),
{
    let c = internet_checksum(d, k);
    let e = d.subrange(0, 2 * k) + seq![(c / 256) as u8, (c % 256) as u8] + d.subrange(
        2 * k + 2,
        d.len() as int,
    );
    let n = (d.len() / 2) as nat;
    assert(e.len() == d.len());
    assert forall|i: int| 0 <= i < e.len() && i != 2 * k && i != 2 * k + 1 implies e[i]
        == d[i] by {}
    assert(word_at(e, k) == c);
    lemma_words_sum_other_bytes(e, d, k, n);
    lemma_words_sum_skip(e, k, n);
    let tail = if d.len() % 2 == 1 {
        d[d.len() - 1] * 256
    } else {
        0
    };
    if d.len() % 2 == 1 {
        assert(e[e.len() - 1] == d[d.len() - 1]);
    }
    let s = word_sum(d, k);
    assert(s == words_sum(d, k, n) + tail);
    lemma_words_sum_grows(d, k, 0, n);
    assert(s >= 0);
    assert(word_sum(e, -1) == s + c);
    lemma_fold_carries(s as nat);
    let f = fold_carries(s as nat);
    assert(c == 0xffff - f);
    let t = (s + c) as nat;
    lemma_fold_carries(t);
    if s == 0 {
        assert(f == 0);
    } else {
        assert(f > 0);
        lemma_mod_multiples_vanish(1, 0, 0xffff);
        assert(t == s - f + 0xffff);
        assert((s - f) % 0xffff == 0) by {
            lemma_fundamental_div_mod(s as int, 0xffff);
            lemma_fundamental_div_mod(f as int, 0xffff);
            lemma_mod_multiples_vanish(s as int / 0xffff - f as int / 0xffff, 0, 0xffff);
        }
        assert(t % 0xffff == 0) by {
            lemma_fundamental_div_mod(s - f, 0xffff);
            lemma_mod_multiples_vanish((s - f) / 0xffff + 1, 0, 0xffff);
        }
    }
}

} // verus!
