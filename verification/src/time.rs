//! Points and lengths of time, as the operations take them.

use vstd::prelude::*;
use crate::text::{fixed_text, lemma_fixed_text_injective, pow10, push_fixed};

verus! {

/// Nanoseconds in one second.
pub const NANOS_PER_SEC: u32 = 1_000_000_000;

/// A non-negative length of time: whole seconds and the nanoseconds beyond
/// them. The nanoseconds always stay under one second.
#[derive(Clone, Copy, Debug, PartialEq, Eq)]
pub struct TimeSpan {
    secs: u64,
    nanos: u32,
}

impl TimeSpan {
    /// Holds of every span the library hands out or accepts.
    #[verifier::type_invariant]
    pub closed spec fn wf(self) -> bool {
        self.nanos < NANOS_PER_SEC
    }

    /// The whole seconds.
    pub closed spec fn secs(self) -> nat {
        self.secs as nat
    }

    /// The nanoseconds beyond the whole seconds.
    pub closed spec fn subsec(self) -> nat {
        self.nanos as nat
    }

    /// The whole span in nanoseconds.
    pub open spec fn total_nanos(self) -> nat {
        self.secs() * 1_000_000_000 + self.subsec()
    }

    /// The whole milliseconds of the span; what is left under a millisecond
    /// is cut off.
    pub open spec fn millis(self) -> nat {
        self.secs() * 1000 + self.subsec() / 1_000_000
    }

    /// The span in seconds as decimal text, to the nanosecond: `2`, `1.5`,
    /// `0.001`.
    pub open spec fn seconds_text(self) -> Seq<char> {
        fixed_text(self.secs(), self.subsec(), 9)
    }

    /// What `wf` says, over the two parts.
    pub proof fn lemma_wf(self)
        ensures
            self.wf() <==> self.subsec() < 1_000_000_000,
    {
    }

    /// Spans that read the same in seconds are the same span.
    pub proof fn lemma_seconds_text_injective(self, other: TimeSpan)
        requires
            self.wf(),
            other.wf(),
            self.seconds_text() == other.seconds_text(),
        ensures
            self == other,
    {
        assert(pow10(9) == 1_000_000_000) by {
            reveal_with_fuel(pow10, 10);
        }
        lemma_fixed_text_injective(
            self.secs(),
            self.subsec(),
            9,
            other.secs(),
            other.subsec(),
            9,
        );
    }

    /// A span of `secs` seconds and `nanos` nanoseconds, if `nanos` is under
    /// one second.
    pub fn new(secs: u64, nanos: u32) -> (r: Option<TimeSpan>)
        ensures
            r is Some <==> nanos < 1_000_000_000,
            r matches Some(t) ==> t.wf() && t.secs() == secs && t.subsec() == nanos,
    {
        if nanos < NANOS_PER_SEC {
            Some(TimeSpan { secs, nanos })
        } else {
            None
        }
    }

    /// A span of whole seconds.
    pub fn from_secs(secs: u64) -> (t: TimeSpan)
        ensures
            t.wf(),
            t.secs() == secs,
            t.subsec() == 0,
    {
        TimeSpan { secs, nanos: 0 }
    }

    /// A span of whole milliseconds.
    pub fn from_millis(millis: u64) -> (t: TimeSpan)
        ensures
            t.wf(),
            t.secs() == millis / 1000,
            t.subsec() == (millis % 1000) * 1_000_000,
            t.millis() == millis,
    {
        let sub: u32 = (millis % 1000) as u32;
        TimeSpan { secs: millis / 1000, nanos: sub * 1_000_000 }
    }

    /// The whole seconds of the span.
    pub fn as_secs(&self) -> (s: u64)
        ensures
            s == self.secs(),
    {
        self.secs
    }

    /// The nanoseconds beyond the whole seconds.
    pub fn subsec_nanos(&self) -> (n: u32)
        ensures
            n == self.subsec(),
            n < 1_000_000_000,
    {
        proof {
            use_type_invariant(self);
        }
        self.nanos
    }

    /// The whole milliseconds of the span.
    pub fn as_millis(&self) -> (m: u128)
        ensures
            m == self.millis(),
    {
        let secs: u128 = self.secs as u128;
        let sub: u128 = (self.nanos / 1_000_000) as u128;
        secs * 1000 + sub
    }

    /// Whether this span is no longer than `other`.
    pub fn is_at_most(&self, other: &TimeSpan) -> (b: bool)
        ensures
            b == (self.total_nanos() <= other.total_nanos()),
    {
        proof {
            use_type_invariant(self);
            use_type_invariant(other);
        }
        self.secs < other.secs || (self.secs == other.secs && self.nanos <= other.nanos)
    }

    /// Appends the span in seconds, as `seconds_text` writes it.
    pub fn push_seconds(&self, out: &mut String)
        ensures
            final(out)@ == old(out)@ + self.seconds_text(),
    {
        proof {
            use_type_invariant(self);
            reveal_with_fuel(pow10, 10);
        }
        push_fixed(out, self.secs as u128, self.nanos as u128, 1_000_000_000u128, Ghost(9nat));
    }
}

} // verus!
