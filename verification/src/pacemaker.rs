//! The Pacemaker owns the round-timeout duration.
//!
//! The actual timer runs in the surrounding process; this component only
//! decides how long the timer should be armed for.  Starting from a
//! configured base delay, every timeout that fires without round
//! progress doubles the delay, up to a configured cap; any round
//! advancement resets it.  After `k` fruitless timeouts in a row the
//! delay is exactly `min(base * 2^k, cap)` — an approximation of
//! relative synchrony after an unknown global stabilization time.

use vstd::prelude::*;

verus! {

/// `2^k` as a mathematical integer.
pub open spec fn pow2(k: nat) -> int
    decreases k,
{
    if k == 0 {
        1
    } else {
        2 * pow2((k - 1) as nat)
    }
}

/// The smaller of two integers.
pub open spec fn min_int(a: int, b: int) -> int {
    if a <= b {
        a
    } else {
        b
    }
}

pub proof fn lemma_pow2_pos(k: nat)
    ensures
        pow2(k) >= 1,
    decreases k,
{
    if k > 0 {
        lemma_pow2_pos((k - 1) as nat);
    }
}

/// Governs the round-timeout duration.
pub struct Pacemaker {
    /// The configured base delay, in milliseconds.
    pub base: u64,
    /// The configured maximum delay, in milliseconds.
    pub cap: u64,
    /// The delay to arm the next round timer with.
    pub delay: u64,
    /// How many timeouts have fired since the last round advancement.
    pub strikes: Ghost<nat>,
}

impl Pacemaker {
    /// The escalation invariant: the current delay is exactly
    /// `min(base * 2^strikes, cap)`.
    pub open spec fn wf(self) -> bool {
        &&& self.base >= 1
        &&& self.base <= self.cap
        &&& self.delay == min_int(self.base * pow2(self.strikes@), self.cap as int)
    }

    /// A fresh pacemaker, armed with the base delay.
    pub fn new(base: u64, cap: u64) -> (p: Pacemaker)
        requires
            1 <= base <= cap,
        ensures
            p.wf(),
            p.base == base,
            p.cap == cap,
            p.delay == base,
            p.strikes@ == 0,
    {
        Pacemaker { base, cap, delay: base, strikes: Ghost(0) }
    }

    /// The delay to arm the next timer with.
    pub fn delay(&self) -> (d: u64)
        ensures
            d == self.delay,
    {
        self.delay
    }

    /// A local timeout fired without round progress: double the delay,
    /// capped at the configured maximum.
    pub fn on_timeout(&mut self)
        requires
            old(self).wf(),
        ensures
            final(self).wf(),
            final(self).base == old(self).base,
            final(self).cap == old(self).cap,
            final(self).strikes@ == old(self).strikes@ + 1,
            final(self).delay == min_int(
                old(self).base * pow2(old(self).strikes@ + 1),
                old(self).cap as int,
            ),
    {
        proof {
            lemma_pow2_pos(self.strikes@);
            assert(self.base * pow2(self.strikes@ + 1) == 2 * (self.base * pow2(self.strikes@)))
                by (nonlinear_arith)
                requires
                    pow2(self.strikes@ + 1) == 2 * pow2(self.strikes@),
            ;
        }
        if self.delay > self.cap / 2 {
            self.delay = self.cap;
        } else {
            self.delay = 2 * self.delay;
        }
        self.strikes = Ghost(self.strikes@ + 1);
    }

    /// The round advanced: rearm with the base delay.
    pub fn reset(&mut self)
        requires
            old(self).wf(),
        ensures
            final(self).wf(),
            final(self).base == old(self).base,
            final(self).cap == old(self).cap,
            final(self).strikes@ == 0,
            final(self).delay == old(self).base,
    {
        self.delay = self.base;
        self.strikes = Ghost(0);
    }
}

/// Timeout escalation law: after `k` consecutive non-progressing rounds
/// the pacemaker delay equals `min(base * 2^k, cap)`.
pub proof fn theorem_timeout_escalation(p: Pacemaker)
    requires
        p.wf(),
    ensures
        p.delay == min_int(p.base * pow2(p.strikes@), p.cap as int),
{
}

} // verus!
