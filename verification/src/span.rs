//! Lengths of time, kept as whole seconds and a rest in nanoseconds.

use vstd::prelude::*;

verus! {

/// Nanoseconds in one second.
pub const NANOS_PER_SEC: u32 = 1_000_000_000;

/// Nanoseconds in one millisecond.
pub const NANOS_PER_MILLI: u32 = 1_000_000;

/// Milliseconds in one second.
pub const MILLIS_PER_SEC: u64 = 1_000;

/// The longest length a [`Span`] can hold, in nanoseconds.
pub open spec fn max_nanos() -> nat {
    (u64::MAX as nat) * 1_000_000_000 + 999_999_999
}

/// The sum of two lengths, held at [`max_nanos`].
pub open spec fn add_capped(a: nat, b: nat) -> nat {
    if a + b <= max_nanos() {
        a + b
    } else {
        max_nanos()
    }
}

/// The difference of two lengths, held at zero.
pub open spec fn sub_floored(a: nat, b: nat) -> nat {
    if a >= b {
        (a - b) as nat
    } else {
        0
    }
}

/// A length of time. Its view is the length in nanoseconds.
#[derive(Clone, Copy, Debug, PartialEq, Eq, Structural)]
pub struct Span {
    secs: u64,
    nanos: u32,
}

impl View for Span {
    type V = nat;

    closed spec fn view(&self) -> nat {
        (self.secs as nat) * 1_000_000_000 + (self.nanos as nat)
    }
}

impl Span {
    /// The rest in nanoseconds stays under one second.
    #[verifier::type_invariant]
    pub closed spec fn wf(self) -> bool {
        self.nanos < NANOS_PER_SEC
    }

    /// The empty length.
    pub fn zero() -> (r: Span)
        ensures
            r@ == 0,
    {
        Span { secs: 0, nanos: 0 }
    }

    /// The length of `secs` seconds and `nanos` nanoseconds. Whole seconds in
    /// `nanos` are carried over; the result is held at [`max_nanos`].
    pub fn new(secs: u64, nanos: u32) -> (r: Span)
        ensures
            r@ == add_capped((secs as nat) * 1_000_000_000, nanos as nat),
    {
        let carry: u64 = (nanos / NANOS_PER_SEC) as u64;
        let rest: u32 = nanos % NANOS_PER_SEC;
        if secs <= u64::MAX - carry {
            Span { secs: secs + carry, nanos: rest }
        } else {
            Span { secs: u64::MAX, nanos: NANOS_PER_SEC - 1 }
        }
    }

    /// The length of `ms` milliseconds.
    pub fn from_millis(ms: u64) -> (r: Span)
        ensures
            r@ == (ms as nat) * 1_000_000,
    {
        let rest: u64 = ms % MILLIS_PER_SEC;
        Span { secs: ms / MILLIS_PER_SEC, nanos: (rest as u32) * NANOS_PER_MILLI }
    }

    /// The whole seconds of the length.
    pub fn secs(&self) -> (s: u64)
        ensures
            s as nat == self@ / 1_000_000_000,
    {
        proof {
            use_type_invariant(self);
        }
        self.secs
    }

    /// What is left of the length beside its whole seconds, in nanoseconds.
    pub fn subsec_nanos(&self) -> (n: u32)
        ensures
            n as nat == self@ % 1_000_000_000,
            n < NANOS_PER_SEC,
    {
        proof {
            use_type_invariant(self);
        }
        self.nanos
    }

    /// Whether the length is empty.
    pub fn is_zero(&self) -> (z: bool)
        ensures
            z == (self@ == 0),
    {
        self.secs == 0 && self.nanos == 0
    }

    /// The sum of the two lengths, held at [`max_nanos`].
    pub fn saturating_add(self, other: Span) -> (r: Span)
        ensures
            r@ == add_capped(self@, other@),
            r@ <= max_nanos(),
    {
        proof {
            use_type_invariant(self);
            use_type_invariant(other);
        }
        let sum: u32 = self.nanos + other.nanos;
        let carry: u64 = if sum >= NANOS_PER_SEC { 1 } else { 0 };
        let rest: u32 = if sum >= NANOS_PER_SEC { sum - NANOS_PER_SEC } else { sum };
        if self.secs <= u64::MAX - other.secs && self.secs + other.secs <= u64::MAX - carry {
            Span { secs: self.secs + other.secs + carry, nanos: rest }
        } else {
            Span { secs: u64::MAX, nanos: NANOS_PER_SEC - 1 }
        }
    }

    /// The first length less the second, held at zero.
    pub fn saturating_sub(self, other: Span) -> (r: Span)
        ensures
            r@ == sub_floored(self@, other@),
            r@ <= self@,
    {
        proof {
            use_type_invariant(self);
            use_type_invariant(other);
        }
        if self.secs < other.secs || (self.secs == other.secs && self.nanos < other.nanos) {
            Span { secs: 0, nanos: 0 }
        } else if self.nanos >= other.nanos {
            Span { secs: self.secs - other.secs, nanos: self.nanos - other.nanos }
        } else {
            Span {
                secs: self.secs - other.secs - 1,
                nanos: self.nanos + (NANOS_PER_SEC - other.nanos),
            }
        }
    }
}

} // verus!
