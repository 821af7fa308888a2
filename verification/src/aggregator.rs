//! Vote and timeout aggregation into certificates.
//!
//! The aggregator keeps, per `(round, block hash)` key, the set of
//! distinct signers seen so far.  A second contribution from the same
//! signer for the same key is ignored — idempotent, not an error.  The
//! instant the signer count first reaches the quorum of `2f + 1`, and
//! only then, a certificate is emitted, exactly once per key.

use vstd::prelude::*;

use crate::committee::Committee;
use crate::crypto::{signed, SigKind, Signature};
use crate::messages::{clone_signatures, TimeoutMessage, Vote, QC, TC};

verus! {

/// Partial signer set for one `(round, block hash)` vote key.
pub struct VotesEntry {
    pub hash: u64,
    pub round: u64,
    pub sigs: Vec<Signature>,
    /// A certificate for this key has already been emitted.
    pub done: bool,
}

/// Partial signer set for one timeout round.
pub struct TimeoutEntry {
    pub round: u64,
    pub sigs: Vec<Signature>,
    /// A certificate for this round has already been emitted.
    pub done: bool,
}

/// Whether one of the signatures of `s` was issued by `signer`.
pub open spec fn has_signer(s: Seq<Signature>, signer: u64) -> bool {
    exists|i: int| 0 <= i < s.len() && s[i].signer == signer
}

/// Pairwise-distinct signers.
pub open spec fn distinct_signers(s: Seq<Signature>) -> bool {
    forall|i: int, j: int| 0 <= i < j < s.len() ==> s[i].signer != s[j].signer
}


/// The vote entries of `s`, in order, for rounds at or above `r`.
pub open spec fn live_votes(s: Seq<VotesEntry>, r: u64) -> Seq<VotesEntry>
    decreases s.len(),
{
    if s.len() == 0 {
        Seq::empty()
    } else if s[0].round >= r {
        Seq::empty().push(s[0]) + live_votes(s.drop_first(), r)
    } else {
        live_votes(s.drop_first(), r)
    }
}

/// The timeout entries of `s`, in order, for rounds at or above `r`.
pub open spec fn live_timeouts(s: Seq<TimeoutEntry>, r: u64) -> Seq<TimeoutEntry>
    decreases s.len(),
{
    if s.len() == 0 {
        Seq::empty()
    } else if s[0].round >= r {
        Seq::empty().push(s[0]) + live_timeouts(s.drop_first(), r)
    } else {
        live_timeouts(s.drop_first(), r)
    }
}

proof fn lemma_live_votes_sub(s: Seq<VotesEntry>, r: u64, j: int)
    requires
        0 <= j < live_votes(s, r).len(),
    ensures
        exists|i: int| 0 <= i < s.len() && s[i] == live_votes(s, r)[j],
    decreases s.len(),
{
    if s.len() > 0 {
        if s[0].round >= r {
            if j > 0 {
                lemma_live_votes_sub(s.drop_first(), r, j - 1);
                let i = choose|i: int|
                    0 <= i < s.drop_first().len() && s.drop_first()[i] == live_votes(
                        s.drop_first(),
                        r,
                    )[j - 1];
                assert(s[i + 1] == live_votes(s, r)[j]);
            } else {
                assert(s[0] == live_votes(s, r)[0]);
            }
        } else {
            lemma_live_votes_sub(s.drop_first(), r, j);
            let i = choose|i: int|
                0 <= i < s.drop_first().len() && s.drop_first()[i] == live_votes(
                    s.drop_first(),
                    r,
                )[j];
            assert(s[i + 1] == live_votes(s, r)[j]);
        }
    }
}

proof fn lemma_live_timeouts_sub(s: Seq<TimeoutEntry>, r: u64, j: int)
    requires
        0 <= j < live_timeouts(s, r).len(),
    ensures
        exists|i: int| 0 <= i < s.len() && s[i] == live_timeouts(s, r)[j],
    decreases s.len(),
{
    if s.len() > 0 {
        if s[0].round >= r {
            if j > 0 {
                lemma_live_timeouts_sub(s.drop_first(), r, j - 1);
                let i = choose|i: int|
                    0 <= i < s.drop_first().len() && s.drop_first()[i] == live_timeouts(
                        s.drop_first(),
                        r,
                    )[j - 1];
                assert(s[i + 1] == live_timeouts(s, r)[j]);
            } else {
                assert(s[0] == live_timeouts(s, r)[0]);
            }
        } else {
            lemma_live_timeouts_sub(s.drop_first(), r, j);
            let i = choose|i: int|
                0 <= i < s.drop_first().len() && s.drop_first()[i] == live_timeouts(
                    s.drop_first(),
                    r,
                )[j];
            assert(s[i + 1] == live_timeouts(s, r)[j]);
        }
    }
}


proof fn lemma_live_votes_distinct(s: Seq<VotesEntry>, r: u64)
    requires
        forall|i: int, j: int| 0 <= i < j < s.len() ==> !(s[i].hash == s[j].hash && s[i].round == s[j].round),
    ensures
        forall|i: int, j: int|
            0 <= i < j < live_votes(s, r).len() ==> !(live_votes(s, r)[i].hash == live_votes(s, r)[j].hash && live_votes(s, r)[i].round == live_votes(s, r)[j].round),
    decreases s.len(),
{
    if s.len() > 0 {
        let rest = s.drop_first();
        assert forall|i: int, j: int| 0 <= i < j < rest.len() implies !(rest[i].hash == rest[j].hash && rest[i].round == rest[j].round) by {
            assert(rest[i] == s[i + 1] && rest[j] == s[j + 1]);
        }
        lemma_live_votes_distinct(rest, r);
        if s[0].round >= r {
            assert forall|i: int, j: int|
                0 <= i < j < live_votes(s, r).len() implies !(live_votes(s, r)[i].hash == live_votes(s, r)[j].hash && live_votes(s, r)[i].round == live_votes(s, r)[j].round) by {
                if i == 0 {
                    assert(live_votes(s, r)[0] == s[0]);
                    assert(live_votes(s, r)[j] == live_votes(rest, r)[j - 1]);
                    lemma_live_votes_sub(rest, r, j - 1);
                    let w = choose|w: int|
                        0 <= w < rest.len() && rest[w] == live_votes(rest, r)[j - 1];
                    assert(rest[w] == s[w + 1]);
                } else {
                    assert(live_votes(s, r)[i] == live_votes(rest, r)[i - 1]);
                    assert(live_votes(s, r)[j] == live_votes(rest, r)[j - 1]);
                }
            }
        }
    }
}

proof fn lemma_live_timeouts_distinct(s: Seq<TimeoutEntry>, r: u64)
    requires
        forall|i: int, j: int| 0 <= i < j < s.len() ==> !(s[i].round == s[j].round),
    ensures
        forall|i: int, j: int|
            0 <= i < j < live_timeouts(s, r).len() ==> !(live_timeouts(s, r)[i].round == live_timeouts(s, r)[j].round),
    decreases s.len(),
{
    if s.len() > 0 {
        let rest = s.drop_first();
        assert forall|i: int, j: int| 0 <= i < j < rest.len() implies !(rest[i].round == rest[j].round) by {
            assert(rest[i] == s[i + 1] && rest[j] == s[j + 1]);
        }
        lemma_live_timeouts_distinct(rest, r);
        if s[0].round >= r {
            assert forall|i: int, j: int|
                0 <= i < j < live_timeouts(s, r).len() implies !(live_timeouts(s, r)[i].round == live_timeouts(s, r)[j].round) by {
                if i == 0 {
                    assert(live_timeouts(s, r)[0] == s[0]);
                    assert(live_timeouts(s, r)[j] == live_timeouts(rest, r)[j - 1]);
                    lemma_live_timeouts_sub(rest, r, j - 1);
                    let w = choose|w: int|
                        0 <= w < rest.len() && rest[w] == live_timeouts(rest, r)[j - 1];
                    assert(rest[w] == s[w + 1]);
                } else {
                    assert(live_timeouts(s, r)[i] == live_timeouts(rest, r)[i - 1]);
                    assert(live_timeouts(s, r)[j] == live_timeouts(rest, r)[j - 1]);
                }
            }
        }
    }
}

/// Collects partial signatures until a quorum is reached.  The committee
/// it counts against is handed in by the caller, which owns it.
pub struct Aggregator {
    pub votes: Vec<VotesEntry>,
    pub timeouts: Vec<TimeoutEntry>,
}

/// One vote entry is internally consistent: distinct committee signers
/// over exactly this `(hash, round)`, below quorum until the certificate
/// went out.
pub open spec fn vote_entry_wf(c: Committee, e: VotesEntry) -> bool {
    &&& e.round >= 1
    &&& distinct_signers(e.sigs@)
    &&& forall|i: int|
        0 <= i < e.sigs@.len() ==> c.is_member(#[trigger] e.sigs@[i].signer) && e.sigs@[i]
            == signed(e.sigs@[i].signer, SigKind::VoteSig, e.hash, e.round)
    &&& if e.done {
        e.sigs@.len() == c.quorum()
    } else {
        e.sigs@.len() < c.quorum()
    }
}

/// One timeout entry is internally consistent.
pub open spec fn timeout_entry_wf(c: Committee, e: TimeoutEntry) -> bool {
    &&& e.round >= 1
    &&& distinct_signers(e.sigs@)
    &&& forall|i: int|
        0 <= i < e.sigs@.len() ==> c.is_member(#[trigger] e.sigs@[i].signer) && e.sigs@[i].kind
            == SigKind::TimeoutSig && e.sigs@[i].round == e.round
    &&& if e.done {
        e.sigs@.len() == c.quorum()
    } else {
        e.sigs@.len() < c.quorum()
    }
}

impl Aggregator {
    pub open spec fn wf(self, c: Committee) -> bool {
        &&& forall|i: int| 0 <= i < self.votes@.len() ==> vote_entry_wf(c, #[trigger] self.votes@[i])
        &&& forall|i: int, j: int|
            0 <= i < j < self.votes@.len() ==> !(self.votes@[i].hash == self.votes@[j].hash
                && self.votes@[i].round == self.votes@[j].round)
        &&& forall|i: int|
            0 <= i < self.timeouts@.len() ==> timeout_entry_wf(c, #[trigger] self.timeouts@[i])
        &&& forall|i: int, j: int|
            0 <= i < j < self.timeouts@.len() ==> self.timeouts@[i].round != self.timeouts@[j].round
    }

    /// The signers already collected for the vote key `(hash, round)`.
    pub open spec fn vote_sigs(self, hash: u64, round: u64) -> Seq<Signature> {
        if exists|i: int|
            0 <= i < self.votes@.len() && self.votes@[i].hash == hash && self.votes@[i].round
                == round {
            let i = choose|i: int|
                0 <= i < self.votes@.len() && self.votes@[i].hash == hash && self.votes@[i].round
                    == round;
            self.votes@[i].sigs@
        } else {
            Seq::empty()
        }
    }

    /// A certificate for the vote key `(hash, round)` already went out.
    pub open spec fn vote_done(self, hash: u64, round: u64) -> bool {
        exists|i: int|
            0 <= i < self.votes@.len() && self.votes@[i].hash == hash && self.votes@[i].round
                == round && self.votes@[i].done
    }

    /// The signers already collected for the timeout round.
    pub open spec fn timeout_sigs(self, round: u64) -> Seq<Signature> {
        if exists|i: int| 0 <= i < self.timeouts@.len() && self.timeouts@[i].round == round {
            let i = choose|i: int|
                0 <= i < self.timeouts@.len() && self.timeouts@[i].round == round;
            self.timeouts@[i].sigs@
        } else {
            Seq::empty()
        }
    }

    /// A certificate for the timeout round already went out.
    pub open spec fn timeout_done(self, round: u64) -> bool {
        exists|i: int|
            0 <= i < self.timeouts@.len() && self.timeouts@[i].round == round
                && self.timeouts@[i].done
    }

    pub fn new() -> (a: Aggregator)
        ensures
            forall|c: Committee| a.wf(c),
            a.votes@.len() == 0,
            a.timeouts@.len() == 0,
    {
        Aggregator { votes: Vec::new(), timeouts: Vec::new() }
    }

    fn find_vote_index(&self, hash: u64, round: u64) -> (r: Option<usize>)
        ensures
            match r {
                Some(i) => i < self.votes@.len() && self.votes@[i as int].hash == hash
                    && self.votes@[i as int].round == round,
                None => forall|p: int|
                    0 <= p < self.votes@.len() ==> !(self.votes@[p].hash == hash
                        && self.votes@[p].round == round),
            },
    {
        let n = self.votes.len();
        let mut i: usize = 0;
        while i < n
            invariant
                n == self.votes@.len(),
                i <= n,
                forall|p: int|
                    0 <= p < i ==> !(self.votes@[p].hash == hash && self.votes@[p].round == round),
            decreases n - i,
        {
            if self.votes[i].hash == hash && self.votes[i].round == round {
                return Some(i);
            }
            i = i + 1;
        }
        None
    }

    fn find_timeout_index(&self, round: u64) -> (r: Option<usize>)
        ensures
            match r {
                Some(i) => i < self.timeouts@.len() && self.timeouts@[i as int].round == round,
                None => forall|p: int|
                    0 <= p < self.timeouts@.len() ==> self.timeouts@[p].round != round,
            },
    {
        let n = self.timeouts.len();
        let mut i: usize = 0;
        while i < n
            invariant
                n == self.timeouts@.len(),
                i <= n,
                forall|p: int| 0 <= p < i ==> self.timeouts@[p].round != round,
            decreases n - i,
        {
            if self.timeouts[i].round == round {
                return Some(i);
            }
            i = i + 1;
        }
        None
    }

    /// Adds one verified vote.  A duplicate signer for the key is
    /// ignored; the quorum certificate is returned exactly when the
    /// signer count first reaches `2f + 1`.
    #[verifier::rlimit(60)]
    pub fn add_vote(&mut self, vote: Vote, c: &Committee) -> (r: Option<QC>)
        requires
            old(self).wf(*c),
            c.wf(),
            vote.valid(),
            vote.round >= 1,
            c.is_member(vote.author),
        ensures
            final(self).wf(*c),
            final(self).timeouts@ == old(self).timeouts@,
            // the certificate goes out exactly when this vote is the one
            // that completes the quorum
            (r is Some) <==> (!old(self).vote_done(vote.hash, vote.round) && !has_signer(
                old(self).vote_sigs(vote.hash, vote.round),
                vote.author,
            ) && old(self).vote_sigs(vote.hash, vote.round).len() + 1
                == c.quorum()),
            // a new signer below quorum is recorded; duplicates change nothing
            (!old(self).vote_done(vote.hash, vote.round) && !has_signer(
                old(self).vote_sigs(vote.hash, vote.round),
                vote.author,
            )) ==> final(self).vote_sigs(vote.hash, vote.round) == old(self).vote_sigs(
                vote.hash,
                vote.round,
            ).push(signed(vote.author, SigKind::VoteSig, vote.hash, vote.round)),
            (old(self).vote_done(vote.hash, vote.round) || has_signer(
                old(self).vote_sigs(vote.hash, vote.round),
                vote.author,
            )) ==> final(self).votes@ == old(self).votes@,
            // the emitted certificate is valid and certifies this vote's key
            r is Some ==> r->Some_0.valid(*c) && r->Some_0.hash == vote.hash
                && r->Some_0.round == vote.round && !r->Some_0.is_genesis(),
    {
        let quorum = c.quorum_threshold();
        let found = self.find_vote_index(vote.hash, vote.round);
        if found.is_none() {
            // no entry yet for this key: open one
            proof {
                assert(!exists|p: int|
                    0 <= p < self.votes@.len() && self.votes@[p].hash == vote.hash
                        && self.votes@[p].round == vote.round);
                assert(self.vote_sigs(vote.hash, vote.round) =~= Seq::<Signature>::empty());
            }
            let mut sigs: Vec<Signature> = Vec::new();
            sigs.push(vote.signature);
            let done = quorum == 1;
            let e = VotesEntry { hash: vote.hash, round: vote.round, sigs, done };
            self.votes.push(e);
            proof {
                                let k = self.votes@.len() - 1;
                assert(c.names@.len() >= 4);
                assert(c.quorum() >= 3);
                assert(self.votes@[k].hash == vote.hash && self.votes@[k].round == vote.round);
                assert(self.votes@[k].sigs@ =~= Seq::<Signature>::empty().push(vote.signature));
                assert(self.votes@[k].sigs@[0] == vote.signature);
                assert(distinct_signers(self.votes@[k].sigs@));
                assert(vote_entry_wf(*c, self.votes@[k]));
                assert forall|p: int|
                    0 <= p < self.votes@.len() implies vote_entry_wf(*c, #[trigger] self.votes@[p]) by {
                    if p < k {
                        assert(self.votes@[p] == old(self).votes@[p]);
                        assert(vote_entry_wf(*c, old(self).votes@[p]));
                        assert(vote_entry_wf(*c, self.votes@[p]));
                    }
                }
                assert forall|p: int, q: int|
                    0 <= p < q < self.votes@.len() implies !(self.votes@[p].hash == self.votes@[q].hash && self.votes@[p].round
                    == self.votes@[q].round) by {
                    if q < k {
                        assert(self.votes@[p] == old(self).votes@[p] && self.votes@[q] == old(self).votes@[q]);
                    } else {
                        assert(self.votes@[p] == old(self).votes@[p]);
                    }
                }
                assert(self.wf(*c));
                let w = choose|w: int|
                    0 <= w < self.votes@.len() && self.votes@[w].hash == vote.hash && self.votes@[w].round == vote.round;
                if w != k {
                    assert(!(self.votes@[w].hash == self.votes@[k].hash && self.votes@[w].round == self.votes@[k].round));
                    assert(false);
                }
                assert(self.vote_sigs(vote.hash, vote.round) =~= Seq::<Signature>::empty().push(
                    vote.signature,
                ));
                assert(vote.signature == signed(
                    vote.author,
                    SigKind::VoteSig,
                    vote.hash,
                    vote.round,
                ));
                assert(!self.vote_done(vote.hash, vote.round));
            }
            return None;
        }
        // the entry exists; `idx` points at it
        let idx = found.unwrap();
        proof {
            let w = choose|w: int|
                0 <= w < self.votes@.len() && self.votes@[w].hash == vote.hash
                    && self.votes@[w].round == vote.round;
            assert(w == idx as int);
        }
        if self.votes[idx].done {
            return None;
        }
        // drop a duplicate signer
        let m = self.votes[idx].sigs.len();
        let mut j: usize = 0;
        while j < m
            invariant
                *self == *old(self),
                self.wf(*c),
                idx < self.votes@.len(),
                self.votes@[idx as int].hash == vote.hash,
                self.votes@[idx as int].round == vote.round,
                !self.votes@[idx as int].done,
                m == self.votes@[idx as int].sigs@.len(),
                j <= m,
                forall|p: int| 0 <= p < j ==> self.votes@[idx as int].sigs@[p].signer != vote.author,
            decreases m - j,
        {
            if self.votes[idx].sigs[j].signer == vote.author {
                proof {
                    let w = choose|w: int|
                        0 <= w < self.votes@.len() && self.votes@[w].hash == vote.hash
                            && self.votes@[w].round == vote.round;
                    assert(w == idx as int);
                    assert(has_signer(self.vote_sigs(vote.hash, vote.round), vote.author));
                }
                return None;
            }
            j = j + 1;
        }
        // a fresh signer: record it
        let ghost old_entry = self.votes@[idx as int];
        let mut sigs = clone_signatures(&self.votes[idx].sigs);
        sigs.push(vote.signature);
        let full = sigs.len() == quorum;
        let e = VotesEntry { hash: vote.hash, round: vote.round, sigs, done: full };
        let ghost new_sigs = e.sigs@;
        self.votes.set(idx, e);
        proof {
                        let k = idx as int;
            assert(old_entry == old(self).votes@[k]);
            assert(vote_entry_wf(*c, old_entry));
            assert(new_sigs =~= old_entry.sigs@.push(vote.signature));
            assert forall|p: int, q: int|
                0 <= p < q < new_sigs.len() implies new_sigs[p].signer != new_sigs[q].signer by {
                if q == new_sigs.len() - 1 {
                    assert(new_sigs[p] == old_entry.sigs@[p]);
                    assert(old_entry.sigs@[p].signer != vote.author);
                    assert(new_sigs[q] == vote.signature);
                } else {
                    assert(new_sigs[p] == old_entry.sigs@[p]);
                    assert(new_sigs[q] == old_entry.sigs@[q]);
                }
            }
            assert(distinct_signers(new_sigs));
            assert forall|p: int|
                0 <= p < new_sigs.len() implies c.is_member(
                #[trigger] new_sigs[p].signer) && new_sigs[p] == signed(
                new_sigs[p].signer,
                SigKind::VoteSig,
                e.hash,
                e.round,
            ) by {
                if p < new_sigs.len() - 1 {
                    assert(new_sigs[p] == old_entry.sigs@[p]);
                } else {
                    assert(new_sigs[p] == vote.signature);
                }
            }
            assert(vote_entry_wf(*c, e));
            assert forall|p: int|
                0 <= p < self.votes@.len() implies vote_entry_wf(*c, #[trigger] self.votes@[p]) by {
                if p != k {
                    assert(self.votes@[p] == old(self).votes@[p]);
                    assert(vote_entry_wf(*c, old(self).votes@[p]));
                }
            }
            assert forall|p: int, q: int|
                0 <= p < q < self.votes@.len() implies !(self.votes@[p].hash == self.votes@[q].hash && self.votes@[p].round
                == self.votes@[q].round) by {
                assert(self.votes@[p].hash == old(self).votes@[p].hash && self.votes@[p].round == old(
                    self,
                ).votes@[p].round);
                assert(self.votes@[q].hash == old(self).votes@[q].hash && self.votes@[q].round == old(
                    self,
                ).votes@[q].round);
            }
            assert(self.wf(*c));
            assert(self.votes@[k].hash == vote.hash && self.votes@[k].round == vote.round);
            let w = choose|w: int|
                0 <= w < self.votes@.len() && self.votes@[w].hash == vote.hash && self.votes@[w].round == vote.round;
            if w != k {
                assert(!(self.votes@[w].hash == self.votes@[k].hash && self.votes@[w].round == self.votes@[k].round));
                assert(false);
            }
            assert(self.vote_sigs(vote.hash, vote.round) == new_sigs);
            let ow = choose|w: int|
                0 <= w < old(self).votes@.len() && old(self).votes@[w].hash == vote.hash
                    && old(self).votes@[w].round == vote.round;
            if ow != k {
                assert(!(old(self).votes@[ow].hash == old(self).votes@[k].hash && old(
                    self,
                ).votes@[ow].round == old(self).votes@[k].round));
                assert(false);
            }
            assert(old(self).vote_sigs(vote.hash, vote.round) == old_entry.sigs@);
            assert(!old(self).vote_done(vote.hash, vote.round));
            assert(!has_signer(old_entry.sigs@, vote.author));
            assert(vote.signature == signed(vote.author, SigKind::VoteSig, vote.hash, vote.round));
        }
        if full {
            let qc_votes = clone_signatures(&self.votes[idx].sigs);
            let qc = QC { hash: vote.hash, round: vote.round, votes: qc_votes };
            proof {
                assert(qc.votes@ == new_sigs);
                assert(vote_entry_wf(*c, self.votes@[idx as int]));
                assert forall|p: int, q: int|
                    0 <= p < q < qc.signers().len() implies #[trigger] qc.signers()[p]
                    != #[trigger] qc.signers()[q] by {
                    assert(qc.votes@[p].signer != qc.votes@[q].signer);
                }
                assert(qc.signers().no_duplicates());
                assert(qc.round >= 1);
                assert(qc.votes@.len() >= c.quorum());
                assert(qc.valid(*c));
            }
            Some(qc)
        } else {
            None
        }
    }

    /// Adds one verified timeout.  A duplicate signer for the round is
    /// ignored; the timeout certificate is returned exactly when the
    /// signer count first reaches `2f + 1`.
    #[verifier::rlimit(60)]
    pub fn add_timeout(&mut self, timeout: &TimeoutMessage, c: &Committee) -> (r: Option<TC>)
        requires
            old(self).wf(*c),
            c.wf(),
            timeout.signature == signed(
                timeout.author,
                SigKind::TimeoutSig,
                timeout.high_qc.round,
                timeout.round,
            ),
            timeout.round >= 1,
            c.is_member(timeout.author),
        ensures
            final(self).wf(*c),
            final(self).votes@ == old(self).votes@,
            (r is Some) <==> (!old(self).timeout_done(timeout.round) && !has_signer(
                old(self).timeout_sigs(timeout.round),
                timeout.author,
            ) && old(self).timeout_sigs(timeout.round).len() + 1 == c.quorum()),
            (!old(self).timeout_done(timeout.round) && !has_signer(
                old(self).timeout_sigs(timeout.round),
                timeout.author,
            )) ==> final(self).timeout_sigs(timeout.round) == old(self).timeout_sigs(
                timeout.round,
            ).push(timeout.signature),
            (old(self).timeout_done(timeout.round) || has_signer(
                old(self).timeout_sigs(timeout.round),
                timeout.author,
            )) ==> final(self).timeouts@ == old(self).timeouts@,
            r is Some ==> r->Some_0.valid(*c) && r->Some_0.round == timeout.round,
    {
        let quorum = c.quorum_threshold();
        let found = self.find_timeout_index(timeout.round);
        if found.is_none() {
            proof {
                assert(!exists|p: int|
                    0 <= p < self.timeouts@.len() && self.timeouts@[p].round == timeout.round);
                assert(self.timeout_sigs(timeout.round) =~= Seq::<Signature>::empty());
            }
            let mut sigs: Vec<Signature> = Vec::new();
            sigs.push(timeout.signature);
            let done = quorum == 1;
            let e = TimeoutEntry { round: timeout.round, sigs, done };
            self.timeouts.push(e);
            proof {
                                let k = self.timeouts@.len() - 1;
                assert(c.names@.len() >= 4);
                assert(c.quorum() >= 3);
                assert(self.timeouts@[k].round == timeout.round);
                assert(self.timeouts@[k].sigs@ =~= Seq::<Signature>::empty().push(timeout.signature));
                assert(self.timeouts@[k].sigs@[0] == timeout.signature);
                assert(distinct_signers(self.timeouts@[k].sigs@));
                assert(timeout_entry_wf(*c, self.timeouts@[k]));
                assert forall|p: int|
                    0 <= p < self.timeouts@.len() implies timeout_entry_wf(*c, #[trigger] self.timeouts@[p]) by {
                    if p < k {
                        
                        assert(self.timeouts@[p] == old(self).timeouts@[p]);
                        assert(timeout_entry_wf(*c, old(self).timeouts@[p]));
                    }
                }
                assert forall|p: int, q: int|
                    0 <= p < q < self.timeouts@.len() implies self.timeouts@[p].round != self.timeouts@[q].round by {
                    if q < k {
                        assert(self.timeouts@[p] == old(self).timeouts@[p] && self.timeouts@[q] == old(self).timeouts@[q]);
                    } else {
                        assert(self.timeouts@[p] == old(self).timeouts@[p]);
                    }
                }
                assert(self.wf(*c));
                let w = choose|w: int| 0 <= w < self.timeouts@.len() && self.timeouts@[w].round == timeout.round;
                if w != k {
                    assert(self.timeouts@[w].round != self.timeouts@[k].round);
                    assert(false);
                }
                assert(self.timeout_sigs(timeout.round) =~= Seq::<Signature>::empty().push(
                    timeout.signature,
                ));
                assert(!self.timeout_done(timeout.round));
            }
            return None;
        }
        let idx = found.unwrap();
        proof {
            let w = choose|w: int|
                0 <= w < self.timeouts@.len() && self.timeouts@[w].round == timeout.round;
            assert(w == idx as int);
        }
        if self.timeouts[idx].done {
            return None;
        }
        let m = self.timeouts[idx].sigs.len();
        let mut j: usize = 0;
        while j < m
            invariant
                *self == *old(self),
                self.wf(*c),
                idx < self.timeouts@.len(),
                self.timeouts@[idx as int].round == timeout.round,
                !self.timeouts@[idx as int].done,
                m == self.timeouts@[idx as int].sigs@.len(),
                j <= m,
                forall|p: int|
                    0 <= p < j ==> self.timeouts@[idx as int].sigs@[p].signer != timeout.author,
            decreases m - j,
        {
            if self.timeouts[idx].sigs[j].signer == timeout.author {
                proof {
                    let w = choose|w: int|
                        0 <= w < self.timeouts@.len() && self.timeouts@[w].round == timeout.round;
                    assert(w == idx as int);
                    assert(has_signer(self.timeout_sigs(timeout.round), timeout.author));
                }
                return None;
            }
            j = j + 1;
        }
        let ghost old_entry = self.timeouts@[idx as int];
        let mut sigs = clone_signatures(&self.timeouts[idx].sigs);
        sigs.push(timeout.signature);
        let full = sigs.len() == quorum;
        let e = TimeoutEntry { round: timeout.round, sigs, done: full };
        let ghost new_sigs = e.sigs@;
        self.timeouts.set(idx, e);
        proof {
                        let k = idx as int;
            assert(old_entry == old(self).timeouts@[k]);
            assert(timeout_entry_wf(*c, old_entry));
            assert(new_sigs =~= old_entry.sigs@.push(timeout.signature));
            assert forall|p: int, q: int|
                0 <= p < q < new_sigs.len() implies new_sigs[p].signer != new_sigs[q].signer by {
                if q == new_sigs.len() - 1 {
                    assert(new_sigs[p] == old_entry.sigs@[p]);
                    assert(old_entry.sigs@[p].signer != timeout.author);
                    assert(new_sigs[q] == timeout.signature);
                } else {
                    assert(new_sigs[p] == old_entry.sigs@[p]);
                    assert(new_sigs[q] == old_entry.sigs@[q]);
                }
            }
            assert(distinct_signers(new_sigs));
            assert forall|p: int|
                0 <= p < new_sigs.len() implies c.is_member(
                #[trigger] new_sigs[p].signer) && new_sigs[p].kind == SigKind::TimeoutSig
                && new_sigs[p].round == e.round by {
                if p < new_sigs.len() - 1 {
                    assert(new_sigs[p] == old_entry.sigs@[p]);
                } else {
                    assert(new_sigs[p] == timeout.signature);
                }
            }
            assert(timeout_entry_wf(*c, e));
            assert forall|p: int|
                0 <= p < self.timeouts@.len() implies timeout_entry_wf(*c, #[trigger] self.timeouts@[p]) by {
                if p != k {
                    assert(self.timeouts@[p] == old(self).timeouts@[p]);
                    assert(timeout_entry_wf(*c, old(self).timeouts@[p]));
                }
            }
            assert forall|p: int, q: int|
                0 <= p < q < self.timeouts@.len() implies self.timeouts@[p].round != self.timeouts@[q].round by {
                assert(self.timeouts@[p].round == old(self).timeouts@[p].round);
                assert(self.timeouts@[q].round == old(self).timeouts@[q].round);
            }
            assert(self.wf(*c));
            assert(self.timeouts@[k].round == timeout.round);
            let w = choose|w: int| 0 <= w < self.timeouts@.len() && self.timeouts@[w].round == timeout.round;
            if w != k {
                assert(self.timeouts@[w].round != self.timeouts@[k].round);
                assert(false);
            }
            assert(self.timeout_sigs(timeout.round) == new_sigs);
            let ow = choose|w: int|
                0 <= w < old(self).timeouts@.len() && old(self).timeouts@[w].round
                    == timeout.round;
            if ow != k {
                assert(old(self).timeouts@[ow].round != old(self).timeouts@[k].round);
                assert(false);
            }
            assert(old(self).timeout_sigs(timeout.round) == old_entry.sigs@);
            assert(!old(self).timeout_done(timeout.round));
            assert(!has_signer(old_entry.sigs@, timeout.author));
        }
        if full {
            let tc_votes = clone_signatures(&self.timeouts[idx].sigs);
            let tc = TC { round: timeout.round, votes: tc_votes };
            proof {
                assert(tc.votes@ == new_sigs);
                assert(timeout_entry_wf(*c, self.timeouts@[idx as int]));
                assert forall|p: int, q: int|
                    0 <= p < q < tc.signers().len() implies #[trigger] tc.signers()[p]
                    != #[trigger] tc.signers()[q] by {
                    assert(tc.votes@[p].signer != tc.votes@[q].signer);
                }
                assert(tc.signers().no_duplicates());
                assert(tc.round >= 1);
                assert(tc.votes@.len() >= c.quorum());
                assert(tc.valid(*c));
            }
            Some(tc)
        } else {
            None
        }
    }

    /// Purges every entry for a round below `round`: once the protocol
    /// has moved past a round, its partial signer sets can never reach a
    /// quorum first, so they are dropped to bound memory.
    pub fn cleanup(&mut self, round: u64, c: &Committee)
        requires
            old(self).wf(*c),
        ensures
            final(self).wf(*c),
            final(self).votes@ == live_votes(old(self).votes@, round),
            final(self).timeouts@ == live_timeouts(old(self).timeouts@, round),
    {
        let ghost fullv = self.votes@;
        let mut restv: Vec<VotesEntry> = Vec::new();
        core::mem::swap(&mut self.votes, &mut restv);
        let mut keptv: Vec<VotesEntry> = Vec::new();
        while restv.len() > 0
            invariant
                restv@.len() <= fullv.len(),
                restv@ == fullv.subrange(0, restv@.len() as int),
                keptv@ == live_votes(
                    fullv.subrange(restv@.len() as int, fullv.len() as int),
                    round,
                ),
            decreases restv@.len(),
        {
            let ghost j = restv@.len() - 1;
            let e = restv.pop().unwrap();
            proof {
                assert(e == fullv[j]);
                let suffix = fullv.subrange(j, fullv.len() as int);
                assert(suffix[0] == fullv[j]);
                assert(suffix.drop_first() =~= fullv.subrange(j + 1, fullv.len() as int));
                assert(restv@ =~= fullv.subrange(0, j));
            }
            if e.round >= round {
                keptv.insert(0, e);
                proof {
                    assert(keptv@ =~= live_votes(fullv.subrange(j, fullv.len() as int), round));
                }
            } else {
                proof {
                    assert(keptv@ =~= live_votes(fullv.subrange(j, fullv.len() as int), round));
                }
            }
        }
        proof {
            assert(fullv.subrange(0, fullv.len() as int) =~= fullv);
        }
        self.votes = keptv;
        let ghost fullt = self.timeouts@;
        let mut restt: Vec<TimeoutEntry> = Vec::new();
        core::mem::swap(&mut self.timeouts, &mut restt);
        let mut keptt: Vec<TimeoutEntry> = Vec::new();
        while restt.len() > 0
            invariant
                restt@.len() <= fullt.len(),
                restt@ == fullt.subrange(0, restt@.len() as int),
                keptt@ == live_timeouts(
                    fullt.subrange(restt@.len() as int, fullt.len() as int),
                    round,
                ),
            decreases restt@.len(),
        {
            let ghost j = restt@.len() - 1;
            let e = restt.pop().unwrap();
            proof {
                assert(e == fullt[j]);
                let suffix = fullt.subrange(j, fullt.len() as int);
                assert(suffix[0] == fullt[j]);
                assert(suffix.drop_first() =~= fullt.subrange(j + 1, fullt.len() as int));
                assert(restt@ =~= fullt.subrange(0, j));
            }
            if e.round >= round {
                keptt.insert(0, e);
                proof {
                    assert(keptt@ =~= live_timeouts(
                        fullt.subrange(j, fullt.len() as int),
                        round,
                    ));
                }
            } else {
                proof {
                    assert(keptt@ =~= live_timeouts(
                        fullt.subrange(j, fullt.len() as int),
                        round,
                    ));
                }
            }
        }
        proof {
            assert(fullt.subrange(0, fullt.len() as int) =~= fullt);
        }
        self.timeouts = keptt;
        proof {
            assert(fullv == old(self).votes@);
            assert(fullt == old(self).timeouts@);
            assert forall|i: int|
                0 <= i < self.votes@.len() implies vote_entry_wf(
                *c,
                #[trigger] self.votes@[i],
            ) by {
                lemma_live_votes_sub(fullv, round, i);
                let w = choose|w: int| 0 <= w < fullv.len() && fullv[w] == self.votes@[i];
                assert(vote_entry_wf(*c, old(self).votes@[w]));
            }
            assert forall|i: int|
                0 <= i < self.timeouts@.len() implies timeout_entry_wf(
                *c,
                #[trigger] self.timeouts@[i],
            ) by {
                lemma_live_timeouts_sub(fullt, round, i);
                let w = choose|w: int| 0 <= w < fullt.len() && fullt[w] == self.timeouts@[i];
                assert(timeout_entry_wf(*c, old(self).timeouts@[w]));
            }
            lemma_live_votes_distinct(fullv, round);
            lemma_live_timeouts_distinct(fullt, round);
            assert(self.wf(*c));
        }
    }
}

} // verus!
