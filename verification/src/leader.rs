//! Leader election.
//!
//! A pure, deterministic function from round to committee member,
//! identical on every node without communication.  The rotation walks
//! the committee list in order, round modulo committee size; the fixed
//! permutation that seeds the rotation is the order of the committee
//! descriptor itself.

use vstd::prelude::*;

use crate::committee::Committee;

verus! {

/// The member designated to propose in `round`.
pub open spec fn leader_spec(c: Committee, round: u64) -> u64 {
    c.names@[round as int % c.names@.len() as int]
}

/// Looks the leader of `round` up in the rotation.
pub fn elect(c: &Committee, round: u64) -> (l: u64)
    requires
        c.wf(),
    ensures
        l == leader_spec(*c, round),
        c.is_member(l),
{
    let n = c.names.len();
    let i = (round % (n as u64)) as usize;
    let l = c.names[i];
    proof {
        assert(c.names@[i as int] == l);
        assert(c.is_member(l));
    }
    l
}

/// Elects the leader of each round.
pub struct LeaderElector {
    pub committee: Committee,
}

impl LeaderElector {
    pub fn new(committee: Committee) -> (e: LeaderElector)
        ensures
            e.committee.names@ == committee.names@,
    {
        LeaderElector { committee }
    }

    /// The member designated to propose in `round`.
    pub fn leader(&self, round: u64) -> (l: u64)
        requires
            self.committee.wf(),
        ensures
            l == leader_spec(self.committee, round),
            self.committee.is_member(l),
    {
        elect(&self.committee, round)
    }
}

} // verus!
