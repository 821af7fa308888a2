//! The safety argument.
//!
//! Consensus safety rests on two facts.  First, any two quorums of a
//! `3f + 1` committee intersect in at least `f + 1` members, so at least
//! one member beyond the up-to-`f` faulty ones stands in both.  Second, a
//! correct member signs at most one vote per round, so that common
//! correct member pins both certificates to the same block hash.
//! Together: two valid quorum certificates for the same round always
//! certify the same block — at most one block can ever be committed at
//! any round, by any correct node, in any execution.

use vstd::prelude::*;

use vstd::set_lib::lemma_len_intersect;
use vstd::set_lib::lemma_len_subset;
use vstd::set_lib::lemma_len_union;

use crate::committee::Committee;
use crate::messages::QC;

verus! {

/// Inclusion-exclusion for finite sets:
/// `|a ∩ b| + |a ∪ b| == |a| + |b|`.
pub proof fn lemma_inclusion_exclusion<A>(a: Set<A>, b: Set<A>)
    requires
        a.finite(),
        b.finite(),
    ensures
        a.intersect(b).len() + a.union(b).len() == a.len() + b.len(),
    decreases a.len(),
{
    if a.is_empty() {
        assert(a.intersect(b) =~= Set::empty());
        assert(a.union(b) =~= b);
    } else {
        let x = a.choose();
        let a1 = a.remove(x);
        lemma_inclusion_exclusion(a1, b);
        if b.contains(x) {
            assert(a1.intersect(b) =~= a.intersect(b).remove(x));
            assert(a1.union(b) =~= a.union(b));
            assert(a.intersect(b).contains(x));
            lemma_len_intersect(a, b);
        } else {
            assert(a1.intersect(b) =~= a.intersect(b));
            assert(a1.union(b) =~= a.union(b).remove(x));
            assert(a.union(b).contains(x));
            lemma_len_union(a, b);
        }
    }
}

/// Quorum intersection: two sets of at least `2f + 1` members of a
/// `3f + 1` committee share at least `f + 1` members.
pub proof fn lemma_quorum_intersection(members: Set<u64>, f: int, s1: Set<u64>, s2: Set<u64>)
    requires
        members.finite(),
        members.len() == 3 * f + 1,
        f >= 1,
        s1.subset_of(members),
        s2.subset_of(members),
        s1.len() >= 2 * f + 1,
        s2.len() >= 2 * f + 1,
    ensures
        s1.intersect(s2).len() >= f + 1,
        s1.intersect(s2).finite(),
{
    lemma_len_subset(s1, members);
    lemma_len_subset(s2, members);
    lemma_len_subset(s1.union(s2), members);
    lemma_inclusion_exclusion(s1, s2);
    lemma_len_intersect(s1, s2);
}

/// In a set of at least `f + 1` members, with at most `f` faulty ones,
/// some member is correct.
pub proof fn lemma_exists_correct_member(s: Set<u64>, faulty: Set<u64>, f: int) -> (m: u64)
    requires
        s.finite(),
        faulty.finite(),
        s.len() >= f + 1,
        faulty.len() <= f,
        f >= 0,
    ensures
        s.contains(m),
        !faulty.contains(m),
{
    if s.subset_of(faulty) {
        lemma_len_subset(s, faulty);
        assert(false);
    }
    let m = choose|m: u64| s.contains(m) && !faulty.contains(m);
    m
}

/// The signer identities of a certificate as a set.
pub open spec fn signer_set(qc: QC) -> Set<u64> {
    qc.signers().to_set()
}

/// Quorum validity, set-level: a valid non-genesis certificate carries
/// at least `2f + 1` distinct committee signers — never fewer.
pub proof fn theorem_quorum_validity(c: Committee, qc: QC)
    requires
        c.wf(),
        qc.valid(c),
        !qc.is_genesis(),
    ensures
        signer_set(qc).finite(),
        signer_set(qc).len() >= c.quorum(),
        signer_set(qc).subset_of(c.members()),
{
    qc.signers().unique_seq_to_set();
    assert forall|m: u64| signer_set(qc).contains(m) implies c.members().contains(m) by {
        let i = choose|i: int| 0 <= i < qc.signers().len() && qc.signers()[i] == m;
        assert(qc.votes@[i].signer == m);
        assert(c.is_member(m));
        let j = choose|j: int| 0 <= j < c.names@.len() && c.names@[j] == m;
        assert(c.names@.to_set().contains(m));
    }
}

/// Safety, the core theorem: two valid quorum certificates for the same
/// round certify the same block hash, provided at most `f` committee
/// members are faulty and every correct member votes for at most one
/// block hash per round.
///
/// `vote_of` records the single vote each correct member cast for this
/// round; that a certificate's signature from a correct member matches
/// that member's recorded vote is exactly what signature unforgeability
/// and the vote-uniqueness rule of a correct node guarantee.
pub proof fn theorem_safety(
    c: Committee,
    faulty: Set<u64>,
    vote_of: Map<u64, u64>,
    qc1: QC,
    qc2: QC,
)
    requires
        c.wf(),
        qc1.valid(c),
        qc2.valid(c),
        !qc1.is_genesis(),
        !qc2.is_genesis(),
        qc1.round == qc2.round,
        faulty.subset_of(c.members()),
        faulty.len() <= c.f(),
        // a correct signer of a certificate voted for that certificate's hash
        forall|m: u64|
            signer_set(qc1).contains(m) && !faulty.contains(m) ==> vote_of.contains_key(m)
                && vote_of[m] == qc1.hash,
        forall|m: u64|
            signer_set(qc2).contains(m) && !faulty.contains(m) ==> vote_of.contains_key(m)
                && vote_of[m] == qc2.hash,
    ensures
        qc1.hash == qc2.hash,
{
    c.lemma_members_count();
    theorem_quorum_validity(c, qc1);
    theorem_quorum_validity(c, qc2);
    lemma_quorum_intersection(c.members(), c.f(), signer_set(qc1), signer_set(qc2));
    lemma_len_subset(faulty, c.members());
    let common = signer_set(qc1).intersect(signer_set(qc2));
    let m = lemma_exists_correct_member(common, faulty, c.f());
    assert(signer_set(qc1).contains(m));
    assert(signer_set(qc2).contains(m));
    assert(vote_of[m] == qc1.hash);
    assert(vote_of[m] == qc2.hash);
}

} // verus!
