//! Lengths of time, held as std's `Duration` holds them, and the test
//! whether a wait is over.
use vstd::prelude::*;

verus! {

/// A length of time: whole seconds and the nanoseconds beyond them, the two
/// numbers of which a `Duration` is made.
#[derive(Clone, Copy, Debug, PartialEq, Eq, Structural)]
pub struct Span {
    pub secs: u64,
    pub nanos: u32,
}

impl Span {
    /// `self` is no shorter than `other`, in the order of `Duration`:
    /// seconds first, then nanoseconds.
    pub open spec fn at_least(self, other: Span) -> bool {
        self.secs > other.secs || (self.secs == other.secs && self.nanos >= other.nanos)
    }

    /// A whole number of seconds.
    pub fn from_secs(secs: u64) -> (s: Span)
        ensures
            s == (Span { secs, nanos: 0 }),
    {
        Span { secs, nanos: 0 }
    }

    /// Whether `self` is no shorter than `other`.
    pub fn is_at_least(&self, other: &Span) -> (r: bool)
        ensures
            r == self.at_least(*other),
    {
        self.secs > other.secs || (self.secs == other.secs && self.nanos >= other.nanos)
    }
}

/// Whether a wait limited to `timeout` is over once `elapsed` has passed.
pub open spec fn timed_out(timeout: Span, elapsed: Span) -> bool {
    elapsed.at_least(timeout)
}

/// Once a wait is over, it stays over.
pub proof fn lemma_timed_out_stays(timeout: Span, earlier: Span, later: Span)
    requires
        timed_out(timeout, earlier),
        later.at_least(earlier),
    ensures
        timed_out(timeout, later),
{
}

/// The whole length of `s` in nanoseconds.
pub open spec fn span_nanos(s: Span) -> int {
    s.secs * 1_000_000_000 + s.nanos
}

/// For spans as `Duration` keeps them (fewer than 10^9 nanoseconds beyond
/// the seconds), one is at least the other exactly when its whole length in
/// nanoseconds is.
pub proof fn lemma_at_least_is_longer(a: Span, b: Span)
    requires
        a.nanos < 1_000_000_000,
        b.nanos < 1_000_000_000,
    ensures
        a.at_least(b) <==> span_nanos(a) >= span_nanos(b),
{
    let (x, y, p, q) = (a.secs as int, b.secs as int, a.nanos as int, b.nanos as int);
    if x > y {
        assert(x * 1_000_000_000 >= y * 1_000_000_000 + 1_000_000_000) by (nonlinear_arith)
            requires
                x > y,
        ;
    } else if x < y {
        assert(y * 1_000_000_000 >= x * 1_000_000_000 + 1_000_000_000) by (nonlinear_arith)
            requires
                x < y,
        ;
    }
}

/// A wait is over exactly when the time elapsed, in nanoseconds, has
/// reached the timeout, in nanoseconds.
pub proof fn lemma_timed_out_by_length(timeout: Span, elapsed: Span)
    requires
        timeout.nanos < 1_000_000_000,
        elapsed.nanos < 1_000_000_000,
    ensures
        timed_out(timeout, elapsed) <==> span_nanos(elapsed) >= span_nanos(timeout),
{
    lemma_at_least_is_longer(elapsed, timeout);
}

} // verus!
