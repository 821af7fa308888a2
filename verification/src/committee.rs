//! The validator committee.
//!
//! A committee is a fixed list of `n = 3f + 1` distinct validator
//! identities.  A quorum is any `2f + 1` of them: two quorums always
//! intersect in at least `f + 1` members, so at least one correct member
//! stands in both.

use vstd::prelude::*;

use crate::error::ConfigError;

verus! {

/// The fixed set of validator identities participating in consensus.
pub struct Committee {
    /// The identities, pairwise distinct, `3f + 1` of them.
    pub names: Vec<u64>,
}

impl Committee {
    /// The committee is well formed: at least four members, size of the
    /// form `3f + 1`, and no identity listed twice.
    pub open spec fn wf(self) -> bool {
        &&& self.names@.len() >= 4
        &&& self.names@.len() % 3 == 1
        &&& self.names@.no_duplicates()
    }

    pub open spec fn size(self) -> int {
        self.names@.len() as int
    }

    /// The fault threshold `f`, from `n = 3f + 1`.
    pub open spec fn f(self) -> int {
        (self.size() - 1) / 3
    }

    /// The quorum threshold `2f + 1`.
    pub open spec fn quorum(self) -> int {
        2 * self.f() + 1
    }

    /// The members as a set.
    pub open spec fn members(self) -> Set<u64> {
        self.names@.to_set()
    }

    pub open spec fn is_member(self, name: u64) -> bool {
        self.names@.contains(name)
    }

    /// Builds a committee after checking its shape.  Returns an error
    /// exactly when the list is not a well-formed committee.
    pub fn new(names: Vec<u64>) -> (r: Result<Committee, ConfigError>)
        ensures
            match r {
                Ok(c) => c.names@ == names@ && c.wf(),
                Err(ConfigError::BadCommitteeSize) => names@.len() < 4 || names@.len() % 3 != 1,
                Err(ConfigError::DuplicateMember) => names@.len() >= 4 && names@.len() % 3 == 1
                    && !names@.no_duplicates(),
                Err(_) => false,
            },
    {
        if names.len() < 4 || names.len() % 3 != 1 {
            return Err(ConfigError::BadCommitteeSize);
        }
        let n = names.len();
        let mut i: usize = 0;
        while i < n
            invariant
                n == names@.len(),
                names@.len() >= 4,
                names@.len() % 3 == 1,
                i <= n,
                forall|p: int, q: int| 0 <= p < q < names@.len() && p < i ==> names@[p] != names@[q],
            decreases n - i,
        {
            let mut j: usize = i + 1;
            while j < n
                invariant
                    n == names@.len(),
                    names@.len() >= 4,
                    names@.len() % 3 == 1,
                    i < j <= n,
                    forall|q: int| i < q < j ==> names@[i as int] != names@[q],
                decreases n - j,
            {
                if names[i] == names[j] {
                    proof {
                        assert(0 <= i < j < names@.len());
                        assert(names@[i as int] == names@[j as int]);
                        assert(!names@.no_duplicates());
                    }
                    return Err(ConfigError::DuplicateMember);
                }
                j = j + 1;
            }
            i = i + 1;
        }
        Ok(Committee { names })
    }

    /// The number of members.
    pub fn len(&self) -> (n: usize)
        ensures
            n == self.size(),
    {
        self.names.len()
    }

    /// The quorum threshold `2f + 1` as a count.
    pub fn quorum_threshold(&self) -> (q: usize)
        requires
            self.wf(),
        ensures
            q == self.quorum(),
    {
        2 * ((self.names.len() - 1) / 3) + 1
    }

    /// Whether `name` is a committee member.
    pub fn contains(&self, name: u64) -> (b: bool)
        ensures
            b == self.is_member(name),
    {
        let n = self.names.len();
        let mut i: usize = 0;
        while i < n
            invariant
                n == self.names@.len(),
                i <= n,
                forall|p: int| 0 <= p < i ==> self.names@[p] != name,
            decreases n - i,
        {
            if self.names[i] == name {
                return true;
            }
            i = i + 1;
        }
        false
    }

    /// A well-formed committee has exactly `3f + 1` distinct members.
    pub proof fn lemma_members_count(self)
        requires
            self.wf(),
        ensures
            self.members().finite(),
            self.members().len() == 3 * self.f() + 1,
            self.size() == 3 * self.f() + 1,
    {
        self.names@.unique_seq_to_set();
    }
}

impl Clone for Committee {
    fn clone(&self) -> (r: Self)
        ensures
            r.names@ == self.names@,
    {
        Committee { names: self.names.clone() }
    }
}

} // verus!
