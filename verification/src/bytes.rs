//! Reading and writing big-endian fields of a byte buffer.
use crate::addr::{ipv4_at, mac_at, Ipv4, MacAddr};
use vstd::prelude::*;

verus! {

/// `s` with the bytes from `at` on replaced by `t`.
pub open spec fn splice(s: Seq<u8>, at: int, t: Seq<u8>) -> Seq<u8> {
    s.subrange(0, at) + t + s.subrange(at + t.len(), s.len() as int)
}

/// The big-endian 16-bit number stored at `at..at + 2`.
pub open spec fn be16(s: Seq<u8>, at: int) -> int {
    s[at] * 256 + s[at + 1]
}

/// The two bytes of `v`, most significant first.
pub open spec fn be16_bytes(v: u16) -> Seq<u8> {
    seq![(v / 256) as u8, (v % 256) as u8]
}

/// A 16-bit number stored big-endian at `at` reads back as itself.
pub proof fn lemma_be16_read_back(s: Seq<u8>, at: int, v: u16)
    requires
        0 <= at,
        at + 2 <= s.len(),
    ensures
        be16(splice(s, at, be16_bytes(v)), at) == v,
        splice(s, at, be16_bytes(v)).len() == s.len(),
{
    let t = splice(s, at, be16_bytes(v));
    assert(t[at] == (v / 256) as u8 && t[at + 1] == (v % 256) as u8);
}

/// A hardware address stored at `at` reads back as itself.
pub proof fn lemma_mac_read_back(s: Seq<u8>, at: int, m: MacAddr)
    requires
        0 <= at,
        at + 6 <= s.len(),
    ensures
        mac_at(splice(s, at, m.octets()), at) == m,
        splice(s, at, m.octets()).len() == s.len(),
{
    let t = splice(s, at, m.octets());
    assert(t[at] == m.0 && t[at + 1] == m.1 && t[at + 2] == m.2);
    assert(t[at + 3] == m.3 && t[at + 4] == m.4 && t[at + 5] == m.5);
}

/// An IPv4 address stored at `at` reads back as itself.
pub proof fn lemma_ipv4_read_back(s: Seq<u8>, at: int, a: Ipv4)
    requires
        0 <= at,
        at + 4 <= s.len(),
    ensures
        ipv4_at(splice(s, at, a.octets()), at) == a,
        splice(s, at, a.octets()).len() == s.len(),
{
    let t = splice(s, at, a.octets());
    assert(t[at] == a.0 && t[at + 1] == a.1 && t[at + 2] == a.2 && t[at + 3] == a.3);
}

/// Stores `v` big-endian at `at..at + 2`.
pub fn put_be16(buf: &mut [u8], at: usize, v: u16)
    requires
        at + 2 <= old(buf)@.len(),
    ensures
        final(buf)@ == splice(old(buf)@, at as int, be16_bytes(v)),
{
    buf[at] = (v / 256) as u8;
    buf[at + 1] = (v % 256) as u8;
    assert(buf@ =~= splice(old(buf)@, at as int, be16_bytes(v)));
}

/// Stores the six octets of `m` at `at..at + 6`.
pub fn put_mac(buf: &mut [u8], at: usize, m: MacAddr)
    requires
        at + 6 <= old(buf)@.len(),
    ensures
        final(buf)@ == splice(old(buf)@, at as int, m.octets()),
{
    buf[at] = m.0;
    buf[at + 1] = m.1;
    buf[at + 2] = m.2;
    buf[at + 3] = m.3;
    buf[at + 4] = m.4;
    buf[at + 5] = m.5;
    assert(buf@ =~= splice(old(buf)@, at as int, m.octets()));
}

/// Stores the four octets of `a` at `at..at + 4`.
pub fn put_ipv4(buf: &mut [u8], at: usize, a: Ipv4)
    requires
        at + 4 <= old(buf)@.len(),
    ensures
        final(buf)@ == splice(old(buf)@, at as int, a.octets()),
{
    buf[at] = a.0;
    buf[at + 1] = a.1;
    buf[at + 2] = a.2;
    buf[at + 3] = a.3;
    assert(buf@ =~= splice(old(buf)@, at as int, a.octets()));
}

/// The big-endian 16-bit number at `at..at + 2`.
pub fn get_be16(s: &[u8], at: usize) -> (v: u16)
    requires
        at + 2 <= s@.len(),
    ensures
        v == be16(s@, at as int),
{
    (s[at] as u16) * 256 + s[at + 1] as u16
}

/// The hardware address at `at..at + 6`.
pub fn get_mac(s: &[u8], at: usize) -> (m: MacAddr)
    requires
        at + 6 <= s@.len(),
    ensures
        m == mac_at(s@, at as int),
{
    MacAddr(s[at], s[at + 1], s[at + 2], s[at + 3], s[at + 4], s[at + 5])
}

/// The IPv4 address at `at..at + 4`.
pub fn get_ipv4(s: &[u8], at: usize) -> (a: Ipv4)
    requires
        at + 4 <= s@.len(),
    ensures
        a == ipv4_at(s@, at as int),
{
    Ipv4(s[at], s[at + 1], s[at + 2], s[at + 3])
}

} // verus!
