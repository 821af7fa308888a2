//! The consensus state machine.
//!
//! Core owns all mutable protocol state — current round, highest and
//! locked certificates, last voted round, last committed round and the
//! local block store — and mutates it while processing one event at a
//! time.  The surrounding process feeds it proposals, votes, timeouts
//! and synchronizer replies from a single ordered stream and performs
//! the outbound sends, persistence and timers that each returned
//! outcome asks for.
//!
//! Two rules the contracts pin down precisely:
//!
//! * **Voting rule** — a node votes for a block only if the block's
//!   round is beyond its last voted round and the block extends the
//!   chain anchored by the locked certificate.
//! * **Commit rule** — a block is committed once three consecutively
//!   certified rounds sit on top of it: its own certificate plus two
//!   chained successors.  The lock moves to the parent certificate of
//!   any newly certified block.

use vstd::prelude::*;

use crate::aggregator::{has_signer, Aggregator};
use crate::committee::Committee;
use crate::crypto::{Secret, SigKind, SignatureService};
use crate::error::{ConfigError, ProtocolError};
use crate::leader::{elect, leader_spec};
use crate::messages::{
    block_eq, compute_digest, digest, qc_eq, Block, TimeoutMessage, Vote, QC, TC,
};
use crate::node::Parameters;
use crate::pacemaker::Pacemaker;
use crate::synchronizer::{still_waiting, waiting_for, PendingFetch, Synchronizer};

verus! {


/// The first position in `s` of a block with hash `h`; negative when
/// there is none.  Lookups resolve a hash to its first stored block.
pub open spec fn first_index(s: Seq<Block>, h: u64) -> int
    decreases s.len(),
{
    if s.len() == 0 {
        -1
    } else if s[0].hash == h {
        0
    } else if first_index(s.drop_first(), h) < 0 {
        -1
    } else {
        first_index(s.drop_first(), h) + 1
    }
}

/// `first_index` finds a block exactly when one exists, and then points
/// at the first of them.
pub proof fn lemma_first_index(s: Seq<Block>, h: u64)
    ensures
        first_index(s, h) >= 0 <==> exists|i: int| 0 <= i < s.len() && s[i].hash == h,
        first_index(s, h) >= 0 ==> first_index(s, h) < s.len() && s[first_index(s, h)].hash == h,
        forall|p: int| 0 <= p < first_index(s, h) ==> s[p].hash != h,
    decreases s.len(),
{
    if s.len() > 0 && s[0].hash != h {
        let rest = s.drop_first();
        lemma_first_index(rest, h);
        if exists|i: int| 0 <= i < s.len() && s[i].hash == h {
            let i = choose|i: int| 0 <= i < s.len() && s[i].hash == h;
            assert(rest[i - 1] == s[i]);
            assert(first_index(rest, h) >= 0);
        }
        if first_index(rest, h) >= 0 {
            let j = first_index(rest, h);
            assert(s[j + 1] == rest[j]);
            assert forall|p: int| 0 <= p < first_index(s, h) implies s[p].hash != h by {
                if p > 0 {
                    assert(s[p] == rest[p - 1]);
                }
            }
        }
    }
}

/// The block the store resolves `h` to: the first one with that hash.
pub open spec fn block_at(s: Seq<Block>, h: u64) -> Block {
    s[first_index(s, h)]
}

/// The commit rule fires for a certificate `(anchor_hash, anchor_round)`
/// over the store `s`: the certified block and its two ancestors close
/// three consecutively certified rounds, and the lowest of them is not
/// yet committed.
pub open spec fn commit_trigger(s: Seq<Block>, last: u64, anchor_hash: u64, anchor_round: u64) -> bool {
    let i3 = first_index(s, anchor_hash);
    i3 >= 0 && {
        let b3 = s[i3];
        let i2 = first_index(s, b3.qc.hash);
        b3.round == anchor_round && b3.round >= 1 && i2 >= 0 && {
            let b2 = s[i2];
            let i1 = first_index(s, b2.qc.hash);
            b2.round == b3.round - 1 && b2.round >= 1 && i1 >= 0 && {
                let b1 = s[i1];
                b1.round == b2.round - 1 && b1.round > last
            }
        }
    }
}

/// The block the commit rule commits when it fires: the lowest of the
/// three consecutively certified rounds under `anchor_hash`.
pub open spec fn commit_target(s: Seq<Block>, anchor_hash: u64) -> Block {
    let b3 = block_at(s, anchor_hash);
    let b2 = block_at(s, b3.qc.hash);
    block_at(s, b2.qc.hash)
}

/// The pacemaker cap the engine is built with: sixty-four base delays,
/// saturating.
pub open spec fn delay_cap(base: u64) -> u64 {
    if base > u64::MAX / 64 {
        u64::MAX
    } else {
        (base * 64) as u64
    }
}

/// The first round whose aggregation state outlives a purge at a given
/// locked round.
pub open spec fn purge_bound(locked: u64) -> u64 {
    if locked == u64::MAX {
        u64::MAX
    } else {
        (locked + 1) as u64
    }
}

/// What the process must do after a proposal was handled.
pub struct ProposalOutcome {
    /// The vote to send to the next round's leader, if the node voted.
    pub vote: Option<Vote>,
    /// The recipient of that vote.
    pub next_leader: u64,
    /// A missing ancestor to fetch from the peers.
    pub sync_request: Option<u64>,
    /// The block was accepted into the store and must be persisted.
    pub stored: bool,
    /// Buffered descendants unblocked by this block, to be replayed
    /// through the proposal handler in order.
    pub replay: Vec<Block>,
    /// Newly committed blocks, in ascending round order.
    pub committed: Vec<Block>,
}

/// What the process must do after a vote was handled.
pub struct VoteOutcome {
    /// A quorum certificate formed by this vote.
    pub qc: Option<QC>,
    /// The block to broadcast if this node leads the new round.
    pub proposal: Option<Block>,
    /// Newly committed blocks, in ascending round order.
    pub committed: Vec<Block>,
}

/// What the process must do after a timeout message was handled.
pub struct TimeoutOutcome {
    /// A timeout certificate formed by this message.
    pub tc: Option<TC>,
    /// The block to broadcast if this node leads the new round.
    pub proposal: Option<Block>,
    /// Newly committed blocks, in ascending round order.
    pub committed: Vec<Block>,
}

/// The protocol state machine of one node.
pub struct Core {
    /// This node's identity.
    pub name: u64,
    pub committee: Committee,
    pub signatures: SignatureService,
    /// The round this node currently works in.
    pub round: u64,
    /// The last round this node voted in; never vote twice at or below it.
    pub last_voted_round: u64,
    /// The safety floor: blocks must extend the chain this anchors.
    pub locked_qc: QC,
    /// The highest certificate seen.
    pub highest_qc: QC,
    /// The round of the last committed block.
    pub last_committed_round: u64,
    /// Every block accepted so far, genesis included; append-only.
    pub store: Vec<Block>,
    pub aggregator: Aggregator,
    pub pacemaker: Pacemaker,
    pub synchronizer: Synchronizer,
    /// History of every `(round, hash)` this node voted for.
    pub voted: Ghost<Seq<(u64, u64)>>,
    /// History of every `(round, hash)` this node emitted as committed.
    pub committed: Ghost<Seq<(u64, u64)>>,
}

impl Core {
    /// The state-machine invariant.
    pub open spec fn wf(self) -> bool {
        &&& self.committee.wf()
        &&& self.committee.is_member(self.name)
        &&& self.signatures.secret.name == self.name
        &&& self.locked_qc.valid(self.committee)
        &&& self.highest_qc.valid(self.committee)
        &&& self.round >= 1
        &&& self.highest_qc.round < self.round
        &&& self.aggregator.wf(self.committee)
        &&& self.pacemaker.wf()
        &&& self.synchronizer.wf()
        // stored non-genesis blocks strictly follow their parent certificate
        &&& forall|i: int|
            0 <= i < self.store@.len() ==> (#[trigger] self.store@[i]).round >= 1
                ==> self.store@[i].qc.round < self.store@[i].round
        // stored blocks carry valid parent certificates
        &&& forall|i: int|
            0 <= i < self.store@.len() ==> (#[trigger] self.store@[i]).qc.valid(self.committee)
        // the vote history has strictly increasing rounds, none beyond the marker
        &&& forall|i: int, j: int|
            0 <= i < j < self.voted@.len() ==> self.voted@[i].0 < self.voted@[j].0
        &&& forall|i: int|
            0 <= i < self.voted@.len() ==> (#[trigger] self.voted@[i]).0 <= self.last_voted_round
        // the commit history has strictly increasing rounds, none beyond the marker
        &&& forall|i: int, j: int|
            0 <= i < j < self.committed@.len() ==> self.committed@[i].0 < self.committed@[j].0
        &&& forall|i: int|
            0 <= i < self.committed@.len() ==> (#[trigger] self.committed@[i]).0
                <= self.last_committed_round
    }

    /// A block with this hash is in the local store.
    pub open spec fn knows_block(self, h: u64) -> bool {
        exists|i: int| 0 <= i < self.store@.len() && self.store@[i].hash == h
    }

    /// The voting rule: vote for `b` exactly when its round is past the
    /// last voted round and it extends the locked certificate.  The vote
    /// goes to the leader of the following round, so the round must
    /// still have one.
    pub open spec fn should_vote(self, b: Block) -> bool {
        &&& b.round > self.last_voted_round
        &&& b.qc.round >= self.locked_qc.round
        &&& b.round < u64::MAX
    }

    /// Builds the state machine.  Fails exactly when this node's
    /// identity is not in the committee.
    pub fn new(secret: Secret, committee: Committee, parameters: &Parameters) -> (r: Result<
        Core,
        ConfigError,
    >)
        requires
            committee.wf(),
            parameters.timeout_delay >= 1,
        ensures
            match r {
                Ok(c) => {
                    &&& committee.is_member(secret.name)
                    &&& c.wf()
                    &&& c.name == secret.name
                    &&& c.committee == committee
                    &&& c.round == 1
                    &&& c.last_voted_round == 0
                    &&& c.last_committed_round == 0
                    &&& c.highest_qc.is_genesis()
                    &&& c.locked_qc.is_genesis()
                    &&& c.voted@.len() == 0
                    &&& c.committed@.len() == 0
                    &&& c.pacemaker.delay == parameters.timeout_delay
                    &&& c.pacemaker.base == parameters.timeout_delay
                    &&& c.pacemaker.cap == delay_cap(parameters.timeout_delay)
                    &&& c.pacemaker.strikes@ == 0
                    &&& c.synchronizer.retry_delay == parameters.sync_retry_delay
                    &&& c.synchronizer.pending@.len() == 0
                    &&& c.synchronizer.buffered@.len() == 0
                },
                Err(e) => e == ConfigError::NotInCommittee && !committee.is_member(secret.name),
            },
    {
        if !committee.contains(secret.name) {
            return Err(ConfigError::NotInCommittee);
        }
        let cap = if parameters.timeout_delay > u64::MAX / 64 {
            u64::MAX
        } else {
            parameters.timeout_delay * 64
        };
        let mut store: Vec<Block> = Vec::new();
        store.push(Block::genesis());
        let core = Core {
            name: secret.name,
            committee,
            signatures: SignatureService::new(secret),
            round: 1,
            last_voted_round: 0,
            locked_qc: QC::genesis(),
            highest_qc: QC::genesis(),
            last_committed_round: 0,
            store,
            aggregator: Aggregator::new(),
            pacemaker: Pacemaker::new(parameters.timeout_delay, cap),
            synchronizer: Synchronizer::new(parameters.sync_retry_delay, 3),
            voted: Ghost(Seq::empty()),
            committed: Ghost(Seq::empty()),
        };
        Ok(core)
    }

    /// Looks a block up by hash.
    fn find_block(&self, h: u64) -> (r: Option<Block>)
        ensures
            match r {
                Some(b) => self.knows_block(h) && b.hash == h && first_index(self.store@, h) >= 0
                    && block_eq(b, block_at(self.store@, h)) && exists|i: int|
                    0 <= i < self.store@.len() && block_eq(b, #[trigger] self.store@[i]),
                None => !self.knows_block(h) && first_index(self.store@, h) < 0,
            },
    {
        let n = self.store.len();
        let mut i: usize = 0;
        while i < n
            invariant
                n == self.store@.len(),
                i <= n,
                forall|p: int| 0 <= p < i ==> self.store@[p].hash != h,
            decreases n - i,
        {
            if self.store[i].hash == h {
                let b = self.store[i].clone();
                proof {
                    assert(block_eq(b, self.store@[i as int]));
                    lemma_first_index(self.store@, h);
                    let fi = first_index(self.store@, h);
                    assert(fi >= 0);
                    if fi < i as int {
                        assert(self.store@[fi].hash != h);
                        assert(false);
                    }
                    if fi > i as int {
                        assert(self.store@[i as int].hash != h);
                        assert(false);
                    }
                }
                return Some(b);
            }
            i = i + 1;
        }
        proof {
            lemma_first_index(self.store@, h);
        }
        None
    }

    /// The leader of `round`, by the committee rotation.
    pub fn leader_of(&self, round: u64) -> (l: u64)
        requires
            self.wf(),
        ensures
            l == leader_spec(self.committee, round),
            self.committee.is_member(l),
    {
        elect(&self.committee, round)
    }

    /// Builds the block this node proposes for its current round: the
    /// freshest payload digest on top of the highest certificate, with
    /// `justify` carried along when the round was reached by timeout.
    /// Returns nothing exactly when this node is not the round's leader
    /// or the justification does not line up with the round.
    pub fn make_proposal(&self, payload: u64, justify: Option<TC>) -> (r: Option<Block>)
        requires
            self.wf(),
            match justify {
                Some(tc) => tc.valid(self.committee),
                None => true,
            },
        ensures
            match r {
                Some(b) => {
                    &&& leader_spec(self.committee, self.round) == self.name
                    &&& b.round == self.round
                    &&& b.author == self.name
                    &&& b.payload == payload
                    &&& qc_eq(b.qc, self.highest_qc)
                    &&& b.valid(self.committee)
                    &&& b.hash == digest(self.round, self.name, payload, self.highest_qc.hash)
                },
                None => leader_spec(self.committee, self.round) != self.name || !(self.round
                    == self.highest_qc.round + 1 || (justify is Some && justify->Some_0.round + 1
                    == self.round && self.highest_qc.round < self.round)),
            },
    {
        let l = self.leader_of(self.round);
        if l != self.name {
            return None;
        }
        let direct = self.round - 1 == self.highest_qc.round;
        let linked = if direct {
            true
        } else {
            match &justify {
                Some(tc) => tc.round == self.round - 1 && self.highest_qc.round < self.round,
                None => false,
            }
        };
        if !linked {
            return None;
        }
        let tc = match &justify {
            Some(tc) => {
                if direct {
                    None
                } else {
                    Some(tc.clone())
                }
            },
            None => None,
        };
        let hash = compute_digest(self.round, self.name, payload, self.highest_qc.hash);
        let signature = self.signatures.sign(SigKind::BlockSig, hash, self.round);
        let b = Block {
            round: self.round,
            author: self.name,
            payload,
            qc: self.highest_qc.clone(),
            tc,
            hash,
            signature,
        };
        proof {
            crate::messages::lemma_qc_eq_valid(b.qc, self.highest_qc, self.committee);
            if b.tc is Some {
                crate::messages::lemma_tc_eq_valid(
                    b.tc->Some_0,
                    justify->Some_0,
                    self.committee,
                );
            }
            assert(b.valid(self.committee));
        }
        Some(b)
    }


    /// The pairs `(round, hash)` of a block sequence, oldest first.
    pub open spec fn round_hashes(s: Seq<Block>) -> Seq<(u64, u64)> {
        s.map_values(|b: Block| (b.round, b.hash))
    }

    /// Runs the commit rule for a newly seen certificate `anchor`: if it
    /// tops three consecutively certified rounds, the block two rounds
    /// below it and that block's uncommitted ancestors are emitted, in
    /// ascending round order, and the commit marker advances.
    fn try_commit(&mut self, anchor: &QC) -> (out: Vec<Block>)
        requires
            old(self).wf(),
        ensures
            final(self).wf(),
            final(self).name == old(self).name,
            final(self).committee == old(self).committee,
            final(self).signatures == old(self).signatures,
            final(self).round == old(self).round,
            final(self).last_voted_round == old(self).last_voted_round,
            final(self).locked_qc == old(self).locked_qc,
            final(self).highest_qc == old(self).highest_qc,
            final(self).store@ == old(self).store@,
            final(self).aggregator == old(self).aggregator,
            final(self).pacemaker == old(self).pacemaker,
            final(self).synchronizer == old(self).synchronizer,
            final(self).voted@ == old(self).voted@,
            final(self).last_committed_round >= old(self).last_committed_round,
            // the emitted blocks are exactly what the history gained
            final(self).committed@ == old(self).committed@ + Core::round_hashes(out@),
            forall|i: int|
                0 <= i < out@.len() ==> (#[trigger] out@[i]).round > old(self).last_committed_round,
            forall|i: int, j: int| 0 <= i < j < out@.len() ==> out@[i].round < out@[j].round,
            // the rule fires exactly on three consecutively certified
            // rounds: then the lowest block is emitted last and becomes
            // the new commit marker; otherwise nothing is emitted
            commit_trigger(
                old(self).store@,
                old(self).last_committed_round,
                anchor.hash,
                anchor.round,
            ) ==> out@.len() >= 1 && out@.last().round == commit_target(
                old(self).store@,
                anchor.hash,
            ).round && out@.last().hash == commit_target(old(self).store@, anchor.hash).hash
                && final(self).last_committed_round == commit_target(
                old(self).store@,
                anchor.hash,
            ).round,
            !commit_trigger(
                old(self).store@,
                old(self).last_committed_round,
                anchor.hash,
                anchor.round,
            ) ==> out@.len() == 0 && final(self).last_committed_round == old(self).last_committed_round,
    {
        let ghost old_committed = self.committed@;
        proof {
            assert(self.committed@ =~= old_committed + Core::round_hashes(Seq::empty()));
        }
        let ghost s0 = self.store@;
        let ghost last0 = self.last_committed_round;
        let b3 = match self.find_block(anchor.hash) {
            Some(b) => b,
            None => {
                let out: Vec<Block> = Vec::new();
                proof {
                    assert(self.committed@ =~= old_committed + Core::round_hashes(out@));
                    assert(!commit_trigger(s0, last0, anchor.hash, anchor.round));
                }
                return out;
            },
        };
        proof {
            assert(b3.qc.hash == block_at(s0, anchor.hash).qc.hash);
            assert(b3.round == block_at(s0, anchor.hash).round);
        }
        let b2 = match self.find_block(b3.qc.hash) {
            Some(b) => b,
            None => {
                let out: Vec<Block> = Vec::new();
                proof {
                    assert(self.committed@ =~= old_committed + Core::round_hashes(out@));
                    assert(!commit_trigger(s0, last0, anchor.hash, anchor.round));
                }
                return out;
            },
        };
        proof {
            assert(b2.qc.hash == block_at(s0, b3.qc.hash).qc.hash);
            assert(b2.round == block_at(s0, b3.qc.hash).round);
        }
        let b1 = match self.find_block(b2.qc.hash) {
            Some(b) => b,
            None => {
                let out: Vec<Block> = Vec::new();
                proof {
                    assert(self.committed@ =~= old_committed + Core::round_hashes(out@));
                    assert(!commit_trigger(s0, last0, anchor.hash, anchor.round));
                }
                return out;
            },
        };
        proof {
            assert(b1.hash == commit_target(s0, anchor.hash).hash);
            assert(b1.round == commit_target(s0, anchor.hash).round);
        }
        // three consecutively certified rounds commit the lowest
        let chained = b3.round == anchor.round && b3.round >= 1 && b3.round - 1 == b2.round
            && b2.round >= 1 && b2.round - 1 == b1.round;
        if !chained || b1.round <= self.last_committed_round {
            let out: Vec<Block> = Vec::new();
            proof {
                assert(self.committed@ =~= old_committed + Core::round_hashes(out@));
                assert(!commit_trigger(s0, last0, anchor.hash, anchor.round));
            }
            return out;
        }
        proof {
            assert(commit_trigger(s0, last0, anchor.hash, anchor.round));
        }
        // collect the uncommitted chain below (and including) b1,
        // newest first
        let mut chain: Vec<Block> = Vec::new();
        let target = b1.round;
        let ghost target_hash = b1.hash;
        let mut cur = b1;
        chain.push(cur.clone());
        proof {
            assert(chain@[0].round == target);
            assert(chain@[0].hash == target_hash);
        }
        while cur.round > self.last_committed_round + 1 && cur.round >= 1
            invariant
                self.wf(),
                *self == *old(self),
                chain@.len() >= 1,
                self.last_committed_round < cur.round <= target,
                block_eq(chain@[chain@.len() - 1], cur),
                chain@[0].round == target,
                chain@[0].hash == target_hash,
                forall|i: int, j: int| 0 <= i < j < chain@.len() ==> chain@[i].round > chain@[j].round,
                forall|i: int|
                    0 <= i < chain@.len() ==> self.last_committed_round < (
                    #[trigger] chain@[i]).round <= target,
            decreases cur.round,
        {
            let parent = match self.find_block(cur.qc.hash) {
                Some(p) => p,
                None => { break },
            };
            if parent.round >= cur.round || parent.round <= self.last_committed_round {
                break ;
            }
            chain.push(parent.clone());
            cur = parent;
        }
        // emit oldest first, extending the commit history in step
        self.last_committed_round = target;
        proof {
            assert forall|i: int|
                0 <= i < self.committed@.len() implies (#[trigger] self.committed@[i]).0
                <= self.last_committed_round by {
                assert(old(self).committed@[i].0 <= old(self).last_committed_round);
            }
        }
        let n = chain.len();
        let mut out: Vec<Block> = Vec::new();
        proof {
            assert(Core::round_hashes(out@) =~= Seq::empty());
            assert(self.committed@ =~= old(self).committed@ + Core::round_hashes(out@));
        }
        let mut k: usize = 0;
        while k < n
            invariant
                old(self).wf(),
                n == chain@.len(),
                n >= 1,
                k <= n,
                out@.len() == k,
                self.wf(),
                self.name == old(self).name,
                self.committee == old(self).committee,
                self.signatures == old(self).signatures,
                self.round == old(self).round,
                self.last_voted_round == old(self).last_voted_round,
                self.locked_qc == old(self).locked_qc,
                self.highest_qc == old(self).highest_qc,
                self.store@ == old(self).store@,
                self.aggregator == old(self).aggregator,
                self.pacemaker == old(self).pacemaker,
                self.synchronizer == old(self).synchronizer,
                self.voted@ == old(self).voted@,
                self.last_committed_round == target,
                target > old(self).last_committed_round,
                old(self).last_committed_round < target,
                chain@[0].round == target,
                chain@[0].hash == target_hash,
                target == commit_target(old(self).store@, anchor.hash).round,
                target_hash == commit_target(old(self).store@, anchor.hash).hash,
                forall|i: int, j: int| 0 <= i < j < n ==> chain@[i].round > chain@[j].round,
                forall|i: int|
                    0 <= i < n ==> old(self).last_committed_round < (#[trigger] chain@[i]).round
                        <= target,
                forall|i: int| 0 <= i < k ==> block_eq(#[trigger] out@[i], chain@[n - 1 - i]),
                self.committed@ == old(self).committed@ + Core::round_hashes(out@),
                forall|i: int|
                    0 <= i < out@.len() ==> old(self).last_committed_round < (
                    #[trigger] out@[i]).round <= target,
                forall|i: int, j: int| 0 <= i < j < out@.len() ==> out@[i].round < out@[j].round,
            decreases n - k,
        {
            let b = chain[n - 1 - k].clone();
            let ghost prev_out = out@;
            out.push(b);
            self.committed = Ghost(self.committed@.push((out@[out@.len() - 1].round, out@[out@.len() - 1].hash)));
            proof {
                assert(out@ == prev_out.push(out@[out@.len() - 1]));
                assert(Core::round_hashes(out@) =~= Core::round_hashes(prev_out).push(
                    (out@[out@.len() - 1].round, out@[out@.len() - 1].hash),
                ));
                assert(self.committed@ =~= old(self).committed@ + Core::round_hashes(out@));
                assert(block_eq(out@[k as int], chain@[n - 1 - k]));
                assert forall|i: int, j: int|
                    0 <= i < j < out@.len() implies out@[i].round < out@[j].round by {
                    if j == out@.len() - 1 {
                        assert(block_eq(out@[i], chain@[n - 1 - i]));
                        assert(chain@[n - 1 - j].round > chain@[n - 1 - i].round);
                    }
                }
                assert forall|i: int, j: int|
                    0 <= i < j < self.committed@.len() implies self.committed@[i].0
                    < self.committed@[j].0 by {
                    let ol = old(self).committed@.len() as int;
                    if j < ol {
                        assert(old(self).committed@[i].0 < old(self).committed@[j].0);
                    } else if i >= ol {
                        assert(self.committed@[i].1 == out@[i - ol].hash);
                        assert(self.committed@[i].0 == out@[i - ol].round);
                        assert(self.committed@[j].0 == out@[j - ol].round);
                        assert(out@[i - ol].round < out@[j - ol].round);
                    } else {
                        assert(old(self).committed@[i].0 <= old(self).last_committed_round);
                        assert(self.committed@[j].0 == out@[j - ol].round);
                        assert(out@[j - ol].round > old(self).last_committed_round);
                    }
                }
                assert forall|i: int|
                    0 <= i < self.committed@.len() implies (#[trigger] self.committed@[i]).0
                    <= self.last_committed_round by {
                    let ol = old(self).committed@.len() as int;
                    if i < ol {
                        assert(old(self).committed@[i].0 <= old(self).last_committed_round);
                    } else {
                        assert(self.committed@[i].0 == out@[i - ol].round);
                    }
                }
            }
            k = k + 1;
        }
        out
    }


    /// Handles an inbound proposal.  Rejects — dropping the block and
    /// reporting the violation — exactly when the block is malformed or
    /// its author is not the round's elected leader.  If the parent is
    /// missing, buffers the block and asks the synchronizer; otherwise
    /// stores the block, adopts its certificate, runs the commit rule,
    /// and votes exactly when the voting rule allows.
    pub fn handle_proposal(&mut self, block: &Block) -> (r: Result<
        ProposalOutcome,
        ProtocolError,
    >)
        requires
            old(self).wf(),
        ensures
            final(self).wf(),
            final(self).name == old(self).name,
            final(self).committee == old(self).committee,
            final(self).last_committed_round >= old(self).last_committed_round,
            final(self).round >= old(self).round,
            match r {
                Err(_) => *final(self) == *old(self) && !(block.valid(old(self).committee)
                    && block.author == leader_spec(old(self).committee, block.round)),
                Ok(o) => {
                    &&& block.valid(old(self).committee)
                    &&& block.author == leader_spec(old(self).committee, block.round)
                    // the voting rule, against the state the block met
                    &&& (o.vote is Some <==> old(self).knows_block(block.qc.hash) && old(self).should_vote(*block))
                    &&& match o.vote {
                        Some(v) => {
                            &&& v.hash == block.hash
                            &&& v.round == block.round
                            &&& v.author == old(self).name
                            &&& v.valid()
                            &&& final(self).last_voted_round == block.round
                            &&& final(self).voted@ == old(self).voted@.push(
                                (block.round, block.hash),
                            )
                            &&& o.next_leader == leader_spec(
                                old(self).committee,
                                (block.round + 1) as u64,
                            )
                        },
                        None => final(self).voted@ == old(self).voted@
                            && final(self).last_voted_round == old(self).last_voted_round,
                    }
                    // gap repair: fetch the missing parent exactly once
                    &&& (o.stored <==> old(self).knows_block(block.qc.hash))
                    &&& (o.sync_request is Some <==> !old(self).knows_block(block.qc.hash) && !old(self).synchronizer.is_pending(block.qc.hash) && !old(self).synchronizer.is_resolved(
                        block.qc.hash,
                    ))
                    &&& (o.sync_request is Some ==> o.sync_request->Some_0 == block.qc.hash)
                    &&& (!o.stored ==> final(self).store@ == old(self).store@ && o.committed@.len()
                        == 0 && o.replay@.len() == 0 && final(self).committed@ == old(self).committed@)
                    &&& (o.stored ==> final(self).store@.len() == old(self).store@.len() + 1
                        && block_eq(final(self).store@.last(), *block) && o.replay@ == waiting_for(
                        old(self).synchronizer.buffered@,
                        block.hash,
                    ))
                    // an orphan changes nothing but the synchronizer:
                    // the block is buffered (once per hash) and the
                    // fetch recorded per the deduplication rule
                    &&& (!o.stored ==> {
                        &&& final(self).round == old(self).round
                        &&& final(self).highest_qc == old(self).highest_qc
                        &&& final(self).locked_qc == old(self).locked_qc
                        &&& final(self).pacemaker == old(self).pacemaker
                        &&& final(self).aggregator == old(self).aggregator
                        &&& final(self).last_committed_round == old(self).last_committed_round
                        &&& (old(self).synchronizer.has_buffered(block.hash) ==> final(self).synchronizer.buffered@ == old(self).synchronizer.buffered@)
                        &&& (!old(self).synchronizer.has_buffered(block.hash) ==> final(self).synchronizer.buffered@.len() == old(self).synchronizer.buffered@.len()
                            + 1 && block_eq(final(self).synchronizer.buffered@.last(), *block)
                            && (forall|i: int|
                            0 <= i < old(self).synchronizer.buffered@.len() ==> final(self).synchronizer.buffered@[i] == old(self).synchronizer.buffered@[i]))
                        &&& (o.sync_request is Some ==> final(self).synchronizer.pending@ == old(self).synchronizer.pending@.push(
                            PendingFetch { hash: block.qc.hash, retries: 0 },
                        ))
                        &&& (o.sync_request is None ==> final(self).synchronizer.pending@ == old(self).synchronizer.pending@)
                        &&& final(self).synchronizer.resolved@ == old(self).synchronizer.resolved@
                    })
                    // an accepted block resolves its own hash and frees
                    // exactly its buffered descendants
                    &&& (o.stored ==> {
                        &&& final(self).synchronizer.is_resolved(block.hash)
                        &&& !final(self).synchronizer.is_pending(block.hash)
                        &&& final(self).synchronizer.buffered@ == still_waiting(
                            old(self).synchronizer.buffered@,
                            block.hash,
                        )
                        &&& (forall|x: u64|
                            old(self).synchronizer.is_resolved(x) ==> final(self).synchronizer.is_resolved(x))
                    })
                    // certificate adoption, lock movement and round
                    // advancement, all against the state the block met
                    &&& (o.stored ==> {
                        &&& qc_eq(
                            final(self).highest_qc,
                            if block.qc.round > old(self).highest_qc.round {
                                block.qc
                            } else {
                                old(self).highest_qc
                            },
                        )
                        &&& final(self).round == (if block.qc.round >= old(self).round {
                            (block.qc.round + 1) as u64
                        } else {
                            old(self).round
                        })
                        &&& (block.qc.round >= old(self).round ==> final(self).pacemaker.delay
                            == old(self).pacemaker.base && final(self).pacemaker.strikes@ == 0)
                        &&& (block.qc.round < old(self).round ==> final(self).pacemaker == old(self).pacemaker)
                        &&& ((first_index(final(self).store@, block.qc.hash) >= 0 && block_at(
                            final(self).store@,
                            block.qc.hash,
                        ).qc.round > old(self).locked_qc.round) ==> qc_eq(
                            final(self).locked_qc,
                            block_at(final(self).store@, block.qc.hash).qc,
                        ))
                        &&& (!(first_index(final(self).store@, block.qc.hash) >= 0 && block_at(
                            final(self).store@,
                            block.qc.hash,
                        ).qc.round > old(self).locked_qc.round) ==> final(self).locked_qc == old(self).locked_qc)
                    })
                    &&& final(self).pacemaker.base == old(self).pacemaker.base
                    &&& final(self).pacemaker.cap == old(self).pacemaker.cap
                    // the commit rule, surfaced over the store as this
                    // block left it
                    &&& (o.stored ==> {
                        &&& (commit_trigger(
                            final(self).store@,
                            old(self).last_committed_round,
                            block.qc.hash,
                            block.qc.round,
                        ) ==> o.committed@.len() >= 1 && o.committed@.last().round
                            == commit_target(final(self).store@, block.qc.hash).round
                            && o.committed@.last().hash == commit_target(
                            final(self).store@,
                            block.qc.hash,
                        ).hash && final(self).last_committed_round == commit_target(
                            final(self).store@,
                            block.qc.hash,
                        ).round)
                        &&& (!commit_trigger(
                            final(self).store@,
                            old(self).last_committed_round,
                            block.qc.hash,
                            block.qc.round,
                        ) ==> o.committed@.len() == 0 && final(self).last_committed_round == old(self).last_committed_round)
                    })
                    // the emitted blocks are exactly what the history gained
                    &&& final(self).committed@ == old(self).committed@ + Core::round_hashes(
                        o.committed@,
                    )
                    &&& forall|i: int|
                        0 <= i < o.committed@.len() ==> (#[trigger] o.committed@[i]).round > old(self).last_committed_round
                    &&& forall|i: int, j: int|
                        0 <= i < j < o.committed@.len() ==> o.committed@[i].round
                            < o.committed@[j].round
                },
            },
    {
        // validation: drop-and-report on any malformation
        if !self.committee.contains(block.author) {
            return Err(ProtocolError::UnknownAuthor);
        }
        if block.round == 0 {
            return Err(ProtocolError::BadRound);
        }
        if !block.qc.check(&self.committee) {
            return Err(ProtocolError::InvalidCertificate);
        }
        if block.qc.round >= block.round {
            return Err(ProtocolError::BadRound);
        }
        if block.round - 1 != block.qc.round {
            match &block.tc {
                Some(tc) => {
                    if !tc.check(&self.committee) {
                        return Err(ProtocolError::InvalidCertificate);
                    }
                    if tc.round != block.round - 1 {
                        return Err(ProtocolError::BadRound);
                    }
                },
                None => {
                    return Err(ProtocolError::BadRound);
                },
            }
        }
        let h = compute_digest(block.round, block.author, block.payload, block.qc.hash);
        if block.hash != h {
            return Err(ProtocolError::BadDigest);
        }
        if !crate::crypto::verify(
            &block.signature,
            block.author,
            SigKind::BlockSig,
            block.hash,
            block.round,
        ) {
            return Err(ProtocolError::BadSignature);
        }
        if self.leader_of(block.round) != block.author {
            return Err(ProtocolError::NotLeader);
        }
        proof {
            assert(block.valid(self.committee));
        }
        // unknown parent: buffer the block and repair the gap
        if self.find_block(block.qc.hash).is_none() {
            self.synchronizer.buffer(block.clone());
            let fetch = self.synchronizer.request(block.qc.hash);
            return Ok(
                ProposalOutcome {
                    vote: None,
                    next_leader: 0,
                    sync_request: if fetch {
                        Some(block.qc.hash)
                    } else {
                        None
                    },
                    stored: false,
                    replay: Vec::new(),
                    committed: Vec::new(),
                },
            );
        }
        // decide the vote against the state the block met
        let voting = block.round > self.last_voted_round && block.qc.round
            >= self.locked_qc.round && block.round < u64::MAX;
        // accept the block
        self.store.push(block.clone());
        proof {
            assert forall|i: int|
                0 <= i < self.store@.len() implies (#[trigger] self.store@[i]).qc.valid(
                self.committee,
            ) by {
                if i < self.store@.len() - 1 {
                    assert(old(self).store@[i].qc.valid(self.committee));
                } else {
                    crate::messages::lemma_qc_eq_valid(
                        self.store@[i].qc,
                        block.qc,
                        self.committee,
                    );
                }
            }
            assert forall|i: int|
                0 <= i < self.store@.len() && (#[trigger] self.store@[i]).round
                >= 1 implies self.store@[i].qc.round < self.store@[i].round by {
                if i < self.store@.len() - 1 {
                    assert(old(self).store@[i].round >= 1 ==> old(self).store@[i].qc.round < old(self).store@[i].round);
                }
            }
        }
        // release any buffered descendants for replay
        let replay = self.synchronizer.deliver(block.hash);
        // adopt the certificate, move the lock, advance the round and
        // run the commit rule
        let committed = self.process_qc(&block.qc);
        // vote if the rules allow, to the next round's leader
        if voting {
            let signature = self.signatures.sign(SigKind::VoteSig, block.hash, block.round);
            let vote = Vote {
                hash: block.hash,
                round: block.round,
                author: self.name,
                signature,
            };
            let next_leader = self.leader_of(block.round + 1);
            self.last_voted_round = block.round;
            self.voted = Ghost(self.voted@.push((block.round, block.hash)));
            proof {
                assert forall|i: int, j: int|
                    0 <= i < j < self.voted@.len() implies self.voted@[i].0 < self.voted@[j].0 by {
                    if j < self.voted@.len() - 1 {
                        assert(old(self).voted@[i].0 < old(self).voted@[j].0);
                    } else {
                        assert(old(self).voted@[i].0 <= old(self).last_voted_round);
                    }
                }
                assert forall|i: int|
                    0 <= i < self.voted@.len() implies (#[trigger] self.voted@[i]).0
                    <= self.last_voted_round by {
                    if i < self.voted@.len() - 1 {
                        assert(old(self).voted@[i].0 <= old(self).last_voted_round);
                        assert(old(self).last_voted_round < block.round);
                    }
                }
            }
            Ok(
                ProposalOutcome {
                    vote: Some(vote),
                    next_leader,
                    sync_request: None,
                    stored: true,
                    replay,
                    committed,
                },
            )
        } else {
            Ok(
                ProposalOutcome {
                    vote: None,
                    next_leader: 0,
                    sync_request: None,
                    stored: true,
                    replay,
                    committed,
                },
            )
        }
    }


    /// Adopts a freshly seen valid certificate: the highest certificate
    /// moves up, the lock moves to the certified block's own parent
    /// certificate, the round advances past the certified one and the
    /// commit rule runs.
    fn process_qc(&mut self, qc: &QC) -> (committed: Vec<Block>)
        requires
            old(self).wf(),
            qc.valid(old(self).committee),
            qc.round < u64::MAX,
        ensures
            final(self).wf(),
            final(self).name == old(self).name,
            final(self).committee == old(self).committee,
            final(self).signatures == old(self).signatures,
            final(self).last_voted_round == old(self).last_voted_round,
            final(self).voted@ == old(self).voted@,
            final(self).store@ == old(self).store@,
            final(self).aggregator == old(self).aggregator,
            final(self).synchronizer == old(self).synchronizer,
            qc_eq(
                final(self).highest_qc,
                if qc.round > old(self).highest_qc.round {
                    *qc
                } else {
                    old(self).highest_qc
                },
            ),
            final(self).round == if qc.round >= old(self).round {
                (qc.round + 1) as u64
            } else {
                old(self).round
            },
            final(self).locked_qc.round >= old(self).locked_qc.round,
            // the lock moves to the certified block's own parent
            // certificate exactly when that is higher
            (first_index(old(self).store@, qc.hash) >= 0 && block_at(
                old(self).store@,
                qc.hash,
            ).qc.round > old(self).locked_qc.round) ==> qc_eq(
                final(self).locked_qc,
                block_at(old(self).store@, qc.hash).qc,
            ),
            !(first_index(old(self).store@, qc.hash) >= 0 && block_at(
                old(self).store@,
                qc.hash,
            ).qc.round > old(self).locked_qc.round) ==> final(self).locked_qc == old(self).locked_qc,
            // the round timer rearms at the base exactly on advancement
            final(self).pacemaker.base == old(self).pacemaker.base,
            final(self).pacemaker.cap == old(self).pacemaker.cap,
            qc.round >= old(self).round ==> final(self).pacemaker.delay == old(self).pacemaker.base && final(self).pacemaker.strikes@ == 0,
            qc.round < old(self).round ==> final(self).pacemaker == old(self).pacemaker,
            final(self).last_committed_round >= old(self).last_committed_round,
            final(self).committed@ == old(self).committed@ + Core::round_hashes(committed@),
            forall|i: int|
                0 <= i < committed@.len() ==> (#[trigger] committed@[i]).round > old(self).last_committed_round,
            forall|i: int, j: int|
                0 <= i < j < committed@.len() ==> committed@[i].round < committed@[j].round,
            // the commit rule, surfaced: it fires iff the certificate
            // tops three consecutively certified rounds
            commit_trigger(
                old(self).store@,
                old(self).last_committed_round,
                qc.hash,
                qc.round,
            ) ==> committed@.len() >= 1 && committed@.last().round == commit_target(
                old(self).store@,
                qc.hash,
            ).round && committed@.last().hash == commit_target(old(self).store@, qc.hash).hash
                && final(self).last_committed_round == commit_target(
                old(self).store@,
                qc.hash,
            ).round,
            !commit_trigger(
                old(self).store@,
                old(self).last_committed_round,
                qc.hash,
                qc.round,
            ) ==> committed@.len() == 0 && final(self).last_committed_round == old(self).last_committed_round,
    {
        if qc.round > self.highest_qc.round {
            self.highest_qc = qc.clone();
            proof {
                crate::messages::lemma_qc_eq_valid(self.highest_qc, *qc, self.committee);
            }
        }
        match self.find_block(qc.hash) {
            Some(certified) => {
                if certified.qc.round > self.locked_qc.round {
                    self.locked_qc = certified.qc.clone();
                    proof {
                        let i = choose|i: int|
                            0 <= i < self.store@.len() && block_eq(certified, self.store@[i]);
                        assert(self.store@[i].qc.valid(self.committee));
                        crate::messages::lemma_qc_eq_valid(
                            certified.qc,
                            self.store@[i].qc,
                            self.committee,
                        );
                        crate::messages::lemma_qc_eq_valid(
                            self.locked_qc,
                            certified.qc,
                            self.committee,
                        );
                    }
                }
            },
            None => {},
        }
        if qc.round >= self.round {
            self.round = qc.round + 1;
            self.pacemaker.reset();
        }
        self.try_commit(qc)
    }

    /// Handles an inbound vote.  Rejects — dropping the vote and
    /// reporting the violation — exactly when the signature does not
    /// verify or the voter is no committee member.  A stale vote (for a
    /// round already passed, or with no round after it) is dropped
    /// silently; a duplicate signer changes nothing.  The instant the
    /// vote completes a quorum, the certificate is returned, the round
    /// advances, and — if this node leads the new round — a fresh block
    /// on top of the new certificate comes back for broadcast.
    pub fn handle_vote(&mut self, vote: &Vote, payload: u64) -> (r: Result<
        VoteOutcome,
        ProtocolError,
    >)
        requires
            old(self).wf(),
        ensures
            final(self).wf(),
            final(self).name == old(self).name,
            final(self).committee == old(self).committee,
            final(self).voted@ == old(self).voted@,
            final(self).last_voted_round == old(self).last_voted_round,
            final(self).store@ == old(self).store@,
            final(self).last_committed_round >= old(self).last_committed_round,
            match r {
                Err(e) => {
                    &&& *final(self) == *old(self)
                    &&& (e == ProtocolError::BadSignature <==> !vote.valid())
                    &&& (e == ProtocolError::UnknownAuthor ==> !old(self).committee.is_member(
                        vote.author,
                    ))
                    &&& (e == ProtocolError::BadSignature || e == ProtocolError::UnknownAuthor)
                },
                Ok(o) => {
                    &&& vote.valid()
                    &&& old(self).committee.is_member(vote.author)
                    // a stale vote changes nothing
                    &&& ((vote.round < old(self).round || vote.round == u64::MAX) ==> *final(self)
                        == *old(self) && o.qc is None && o.proposal is None)
                    // the certificate forms exactly when this vote
                    // completes the quorum
                    &&& (o.qc is Some <==> vote.round >= old(self).round && vote.round < u64::MAX
                        && !old(self).aggregator.vote_done(vote.hash, vote.round) && !has_signer(
                        old(self).aggregator.vote_sigs(vote.hash, vote.round),
                        vote.author,
                    ) && old(self).aggregator.vote_sigs(vote.hash, vote.round).len() + 1 == old(self).committee.quorum())
                    &&& match o.qc {
                        Some(qc) => {
                            &&& qc.valid(old(self).committee)
                            &&& qc.hash == vote.hash
                            &&& qc.round == vote.round
                            &&& !qc.is_genesis()
                            &&& final(self).round == vote.round + 1
                            &&& final(self).highest_qc.round == vote.round
                            // the round advanced, so the timer rearms at
                            // the base delay
                            &&& final(self).pacemaker.delay == old(self).pacemaker.base
                            &&& final(self).pacemaker.strikes@ == 0
                            // the lock moves to the certified block's
                            // parent certificate exactly when higher
                            &&& ((first_index(old(self).store@, vote.hash) >= 0 && block_at(
                                old(self).store@,
                                vote.hash,
                            ).qc.round > old(self).locked_qc.round) ==> qc_eq(
                                final(self).locked_qc,
                                block_at(old(self).store@, vote.hash).qc,
                            ))
                            &&& (!(first_index(old(self).store@, vote.hash) >= 0 && block_at(
                                old(self).store@,
                                vote.hash,
                            ).qc.round > old(self).locked_qc.round) ==> final(self).locked_qc
                                == old(self).locked_qc)
                            // the commit rule, surfaced for the freshly
                            // formed certificate
                            &&& (commit_trigger(
                                old(self).store@,
                                old(self).last_committed_round,
                                vote.hash,
                                vote.round,
                            ) ==> o.committed@.len() >= 1 && o.committed@.last().round
                                == commit_target(old(self).store@, vote.hash).round
                                && o.committed@.last().hash == commit_target(
                                old(self).store@,
                                vote.hash,
                            ).hash && final(self).last_committed_round == commit_target(
                                old(self).store@,
                                vote.hash,
                            ).round)
                            &&& (!commit_trigger(
                                old(self).store@,
                                old(self).last_committed_round,
                                vote.hash,
                                vote.round,
                            ) ==> o.committed@.len() == 0 && final(self).last_committed_round
                                == old(self).last_committed_round)
                        },
                        None => {
                            &&& final(self).round == old(self).round
                            &&& final(self).committed@ == old(self).committed@
                            &&& final(self).pacemaker == old(self).pacemaker
                            &&& final(self).locked_qc == old(self).locked_qc
                            &&& final(self).highest_qc == old(self).highest_qc
                        },
                    }
                    &&& final(self).pacemaker.base == old(self).pacemaker.base
                    &&& final(self).pacemaker.cap == old(self).pacemaker.cap
                    // the new leader proposes at once
                    &&& (o.proposal is Some <==> o.qc is Some && leader_spec(
                        old(self).committee,
                        final(self).round,
                    ) == old(self).name)
                    &&& match o.proposal {
                        Some(b) => {
                            &&& b.valid(old(self).committee)
                            &&& b.round == final(self).round
                            &&& b.author == old(self).name
                            &&& b.payload == payload
                        },
                        None => true,
                    }
                    // the emitted blocks are exactly what the history gained
                    &&& final(self).committed@ == old(self).committed@ + Core::round_hashes(
                        o.committed@,
                    )
                    &&& forall|i: int|
                        0 <= i < o.committed@.len() ==> (#[trigger] o.committed@[i]).round > old(self).last_committed_round
                    &&& forall|i: int, j: int|
                        0 <= i < j < o.committed@.len() ==> o.committed@[i].round
                            < o.committed@[j].round
                },
            },
    {
        if !vote.check() {
            return Err(ProtocolError::BadSignature);
        }
        if !self.committee.contains(vote.author) {
            return Err(ProtocolError::UnknownAuthor);
        }
        if vote.round < self.round || vote.round == u64::MAX {
            return Ok(VoteOutcome { qc: None, proposal: None, committed: Vec::new() });
        }
        let formed = self.aggregator.add_vote(*vote, &self.committee);
        match formed {
            Some(qc) => {
                let committed = self.process_qc(&qc);
                let proposal = self.make_proposal(payload, None);
                Ok(VoteOutcome { qc: Some(qc), proposal, committed })
            },
            None => {
                proof {
                    assert(self.committed@ =~= old(self).committed@ + Core::round_hashes(
                        Seq::empty(),
                    ));
                }
                Ok(VoteOutcome { qc: None, proposal: None, committed: Vec::new() })
            },
        }
    }

    /// Handles an inbound timeout declaration.  Rejects exactly when the
    /// signature or the carried certificate does not verify or the
    /// author is no committee member.  A stale timeout is dropped
    /// silently.  The carried certificate is adopted; the instant the
    /// timeout completes a quorum, the timeout certificate is returned,
    /// the round advances regardless of any proposal, and — if this node
    /// leads the new round — a block justified by that certificate comes
    /// back for broadcast.
    pub fn handle_timeout_message(&mut self, tm: &TimeoutMessage, payload: u64) -> (r: Result<
        TimeoutOutcome,
        ProtocolError,
    >)
        requires
            old(self).wf(),
        ensures
            final(self).wf(),
            final(self).name == old(self).name,
            final(self).committee == old(self).committee,
            final(self).voted@ == old(self).voted@,
            final(self).last_voted_round == old(self).last_voted_round,
            final(self).store@ == old(self).store@,
            final(self).last_committed_round >= old(self).last_committed_round,
            match r {
                Err(e) => {
                    &&& *final(self) == *old(self)
                    &&& (e == ProtocolError::UnknownAuthor ==> !old(self).committee.is_member(
                        tm.author,
                    ))
                    &&& (e == ProtocolError::BadRound <==> tm.valid(old(self).committee) && old(self).committee.is_member(tm.author) && tm.high_qc.round >= tm.round)
                    &&& (e == ProtocolError::BadSignature || e == ProtocolError::InvalidCertificate
                        || e == ProtocolError::UnknownAuthor || e == ProtocolError::BadRound)
                    &&& !(tm.valid(old(self).committee) && old(self).committee.is_member(tm.author)
                        && tm.high_qc.round < tm.round)
                },
                Ok(o) => {
                    &&& tm.valid(old(self).committee)
                    &&& old(self).committee.is_member(tm.author)
                    &&& tm.high_qc.round < tm.round
                    // a stale or unusable timeout changes nothing
                    &&& ((tm.round < old(self).round || tm.round == u64::MAX) ==> *final(self)
                        == *old(self) && o.tc is None && o.proposal is None)
                    // the certificate forms exactly when this timeout
                    // completes the quorum
                    &&& (o.tc is Some <==> tm.round >= old(self).round && tm.round < u64::MAX
                        && !old(self).aggregator.timeout_done(
                        tm.round,
                    ) && !has_signer(old(self).aggregator.timeout_sigs(tm.round), tm.author) && old(self).aggregator.timeout_sigs(tm.round).len() + 1 == old(self).committee.quorum())
                    &&& match o.tc {
                        Some(tc) => {
                            &&& tc.valid(old(self).committee)
                            &&& tc.round == tm.round
                            &&& final(self).round == tm.round + 1
                        },
                        None => true,
                    }
                    // the carried certificate is adopted when higher
                    &&& ((tm.round >= old(self).round && tm.round < u64::MAX) ==> qc_eq(
                        final(self).highest_qc,
                        if tm.high_qc.round > old(self).highest_qc.round {
                            tm.high_qc
                        } else {
                            old(self).highest_qc
                        },
                    ))
                    // the round timer rearms at the base exactly on
                    // round advancement
                    &&& final(self).pacemaker.base == old(self).pacemaker.base
                    &&& final(self).pacemaker.cap == old(self).pacemaker.cap
                    &&& (final(self).round > old(self).round ==> final(self).pacemaker.delay
                        == old(self).pacemaker.base && final(self).pacemaker.strikes@ == 0)
                    &&& (final(self).round == old(self).round ==> final(self).pacemaker == old(self).pacemaker)
                    // the commit rule, surfaced for the adopted
                    // certificate
                    &&& ((tm.round >= old(self).round && tm.round < u64::MAX) ==> {
                        &&& (commit_trigger(
                            old(self).store@,
                            old(self).last_committed_round,
                            tm.high_qc.hash,
                            tm.high_qc.round,
                        ) ==> o.committed@.len() >= 1 && final(self).last_committed_round
                            == commit_target(old(self).store@, tm.high_qc.hash).round)
                        &&& (!commit_trigger(
                            old(self).store@,
                            old(self).last_committed_round,
                            tm.high_qc.hash,
                            tm.high_qc.round,
                        ) ==> o.committed@.len() == 0 && final(self).last_committed_round == old(self).last_committed_round)
                    })
                    &&& (o.proposal is Some ==> o.tc is Some && leader_spec(
                        old(self).committee,
                        final(self).round,
                    ) == old(self).name)
                    &&& (o.tc is Some && leader_spec(old(self).committee, final(self).round) == old(self).name ==> o.proposal is Some)
                    &&& match o.proposal {
                        Some(b) => {
                            &&& b.valid(old(self).committee)
                            &&& b.round == final(self).round
                            &&& b.author == old(self).name
                            &&& b.payload == payload
                        },
                        None => true,
                    }
                    &&& final(self).committed@ == old(self).committed@ + Core::round_hashes(
                        o.committed@,
                    )
                    &&& forall|i: int|
                        0 <= i < o.committed@.len() ==> (#[trigger] o.committed@[i]).round > old(self).last_committed_round
                    &&& forall|i: int, j: int|
                        0 <= i < j < o.committed@.len() ==> o.committed@[i].round
                            < o.committed@[j].round
                },
            },
    {
        if !crate::crypto::verify(
            &tm.signature,
            tm.author,
            SigKind::TimeoutSig,
            tm.high_qc.round,
            tm.round,
        ) {
            return Err(ProtocolError::BadSignature);
        }
        if !tm.high_qc.check(&self.committee) {
            return Err(ProtocolError::InvalidCertificate);
        }
        if !self.committee.contains(tm.author) {
            return Err(ProtocolError::UnknownAuthor);
        }
        // a correct node's highest certificate always trails its round
        if tm.high_qc.round >= tm.round {
            return Err(ProtocolError::BadRound);
        }
        if tm.round < self.round || tm.round == u64::MAX {
            return Ok(TimeoutOutcome { tc: None, proposal: None, committed: Vec::new() });
        }
        // catch up on the certificate the sender reports
        let committed = self.process_qc(&tm.high_qc);
        let formed = self.aggregator.add_timeout(tm, &self.committee);
        match formed {
            Some(tc) => {
                if tc.round >= self.round {
                    self.round = tc.round + 1;
                    self.pacemaker.reset();
                }
                proof {
                    assert(self.round == tm.round + 1);
                }
                let proposal = self.make_proposal(payload, Some(tc.clone()));
                proof {
                    crate::messages::lemma_tc_eq_valid(tc, tc, self.committee);
                }
                Ok(TimeoutOutcome { tc: Some(tc), proposal, committed })
            },
            None => Ok(TimeoutOutcome { tc: None, proposal: None, committed }),
        }
    }

    /// The local round timer fired: escalate the pacemaker delay and
    /// broadcast a timeout carrying this node's highest certificate.
    pub fn local_timeout(&mut self) -> (tm: TimeoutMessage)
        requires
            old(self).wf(),
        ensures
            final(self).wf(),
            tm.round == old(self).round,
            tm.author == old(self).name,
            qc_eq(tm.high_qc, old(self).highest_qc),
            tm.valid(old(self).committee),
            // only the pacemaker moved: the delay doubled, capped
            final(self).pacemaker.strikes@ == old(self).pacemaker.strikes@ + 1,
            final(self).pacemaker.base == old(self).pacemaker.base,
            final(self).pacemaker.cap == old(self).pacemaker.cap,
            final(self).round == old(self).round,
            final(self).last_voted_round == old(self).last_voted_round,
            final(self).voted@ == old(self).voted@,
            final(self).committed@ == old(self).committed@,
            final(self).last_committed_round == old(self).last_committed_round,
            final(self).store@ == old(self).store@,
            final(self).highest_qc == old(self).highest_qc,
            final(self).locked_qc == old(self).locked_qc,
            final(self).name == old(self).name,
            final(self).committee == old(self).committee,
    {
        self.pacemaker.on_timeout();
        let high_qc = self.highest_qc.clone();
        let signature = self.signatures.sign(SigKind::TimeoutSig, high_qc.round, self.round);
        let tm = TimeoutMessage { round: self.round, high_qc, author: self.name, signature };
        proof {
            crate::messages::lemma_qc_eq_valid(tm.high_qc, self.highest_qc, self.committee);
        }
        tm
    }

    /// Purges aggregation state for rounds at or below the locked round:
    /// the protocol can never again form a first quorum there, so the
    /// partial signer sets are dropped to bound memory.
    pub fn purge(&mut self)
        requires
            old(self).wf(),
        ensures
            final(self).wf(),
            final(self).name == old(self).name,
            final(self).committee == old(self).committee,
            final(self).signatures == old(self).signatures,
            final(self).round == old(self).round,
            final(self).last_voted_round == old(self).last_voted_round,
            final(self).locked_qc == old(self).locked_qc,
            final(self).highest_qc == old(self).highest_qc,
            final(self).last_committed_round == old(self).last_committed_round,
            final(self).store@ == old(self).store@,
            final(self).pacemaker == old(self).pacemaker,
            final(self).synchronizer == old(self).synchronizer,
            final(self).voted@ == old(self).voted@,
            final(self).committed@ == old(self).committed@,
            final(self).aggregator.votes@ == crate::aggregator::live_votes(
                old(self).aggregator.votes@,
                purge_bound(old(self).locked_qc.round),
            ),
            final(self).aggregator.timeouts@ == crate::aggregator::live_timeouts(
                old(self).aggregator.timeouts@,
                purge_bound(old(self).locked_qc.round),
            ),
    {
        let bound = if self.locked_qc.round == u64::MAX {
            u64::MAX
        } else {
            self.locked_qc.round + 1
        };
        self.aggregator.cleanup(bound, &self.committee);
    }


    /// The stored chain starting at `first`, newest first, following
    /// parent certificates down to (but not including) genesis.
    fn collect_ancestors(&self, first: Block) -> (chain: Vec<Block>)
        ensures
            chain@.len() >= 1,
            chain@[0] == first,
            forall|i: int, j: int|
                0 <= i < j < chain@.len() ==> (#[trigger] chain@[i]).round > (
                #[trigger] chain@[j]).round,
            forall|i: int|
                0 <= i && i + 1 < chain@.len() ==> (#[trigger] chain@[i + 1]).hash
                    == chain@[i].qc.hash,
    {
        let mut chain: Vec<Block> = Vec::new();
        let mut cur = first.clone();
        let ghost f0 = first;
        chain.push(first);
        while cur.round >= 1
            invariant
                chain@.len() >= 1,
                chain@[0] == f0,
                block_eq(chain@[chain@.len() - 1], cur),
                forall|i: int, j: int| 0 <= i < j < chain@.len() ==> chain@[i].round > chain@[j].round,
                forall|i: int|
                    0 <= i && i + 1 < chain@.len() ==> (#[trigger] chain@[i + 1]).hash
                        == chain@[i].qc.hash,
                cur.round <= chain@[chain@.len() - 1].round,
            decreases cur.round,
        {
            let parent = match self.find_block(cur.qc.hash) {
                Some(p) => p,
                None => { break },
            };
            if parent.round >= cur.round || parent.round == 0 {
                break ;
            }
            proof {
                assert(parent.hash == cur.qc.hash);
            }
            chain.push(parent.clone());
            cur = parent;
        }
        chain
    }

    /// Serves a peer's ancestor fetch: the stored chain starting at the
    /// block with hash `h`, newest first, each block followed by its
    /// parent, down to (but not including) genesis.  Empty exactly when
    /// `h` is unknown here.  The requester replays it back to front, in
    /// causal parent-before-child order.
    pub fn ancestor_chain(&self, h: u64) -> (out: Vec<Block>)
        ensures
            out@.len() >= 1 <==> self.knows_block(h),
            out@.len() >= 1 ==> out@[0].hash == h,
            forall|i: int, j: int|
                0 <= i < j < out@.len() ==> (#[trigger] out@[i]).round > (#[trigger] out@[j]).round,
            forall|i: int|
                0 <= i && i + 1 < out@.len() ==> (#[trigger] out@[i + 1]).hash
                    == out@[i].qc.hash,
    {
        let first = match self.find_block(h) {
            Some(b) => b,
            None => {
                let out: Vec<Block> = Vec::new();
                return out;
            },
        };
        self.collect_ancestors(first)
    }

    /// The retry timer for the fetch of `h` fired: re-send it while the
    /// bounded retry budget lasts, per the synchronizer's rule.
    pub fn retry_ancestor(&mut self, h: u64) -> (again: bool)
        requires
            old(self).wf(),
        ensures
            final(self).wf(),
            again == (old(self).synchronizer.is_pending(h) && exists|i: int|
                0 <= i < old(self).synchronizer.pending@.len()
                    && old(self).synchronizer.pending@[i].hash == h
                    && old(self).synchronizer.pending@[i].retries < old(self).synchronizer.max_retries),
            final(self).synchronizer.resolved@ == old(self).synchronizer.resolved@,
            final(self).synchronizer.buffered@ == old(self).synchronizer.buffered@,
            final(self).name == old(self).name,
            final(self).committee == old(self).committee,
            final(self).round == old(self).round,
            final(self).voted@ == old(self).voted@,
            final(self).committed@ == old(self).committed@,
            final(self).store@ == old(self).store@,
    {
        self.synchronizer.retry(h)
    }

    /// The configured ancestor-fetch retry interval, for the process
    /// timer.
    pub fn sync_retry_delay(&self) -> (d: u64)
        ensures
            d == self.synchronizer.retry_delay,
    {
        self.synchronizer.retry_delay
    }

    /// The round this node currently works in.
    pub fn current_round(&self) -> (r: u64)
        ensures
            r == self.round,
    {
        self.round
    }

    /// The round of the last committed block.
    pub fn committed_round(&self) -> (r: u64)
        ensures
            r == self.last_committed_round,
    {
        self.last_committed_round
    }

    /// The delay the round timer must be armed with.
    pub fn timeout_delay(&self) -> (d: u64)
        ensures
            d == self.pacemaker.delay,
    {
        self.pacemaker.delay
    }
}

/// An inbound event, dispatched in one place: the process's event loop
/// merges network messages, synchronizer replies and timer expirations
/// into a single ordered stream of these.
pub enum Event {
    /// A proposal, or an ancestor arriving through the synchronizer.
    Proposal(Block),
    Vote(Vote),
    Timeout(TimeoutMessage),
    /// The local round timer expired.
    TimerExpired,
}

/// What the process must do after any event.
pub struct Effect {
    /// The block to persist before anything is sent: crash safety
    /// demands the write completes before a dependent message goes out.
    pub persist: Option<Block>,
    /// The vote to send, and to whom.
    pub vote: Option<(u64, Vote)>,
    /// The block to broadcast.
    pub proposal: Option<Block>,
    /// The timeout declaration to broadcast.
    pub timeout: Option<TimeoutMessage>,
    /// The ancestor to fetch from the peers.
    pub sync_request: Option<u64>,
    /// Blocks to replay through the proposal handler, in order.
    pub replay: Vec<Block>,
    /// Newly committed blocks for the output sink, ascending.
    pub committed: Vec<Block>,
    /// The protocol violation to log, if the event was rejected.
    pub violation: Option<ProtocolError>,
}

impl Core {
    /// Dispatches one event.  Every protocol anomaly is absorbed here:
    /// the effect reports it for the log, and the state machine stays
    /// well formed whatever arrives.
    pub fn on_event(&mut self, event: &Event, payload: u64) -> (e: Effect)
        requires
            old(self).wf(),
        ensures
            final(self).wf(),
            final(self).name == old(self).name,
            final(self).committee == old(self).committee,
            final(self).last_committed_round >= old(self).last_committed_round,
            old(self).voted@.is_prefix_of(final(self).voted@),
            old(self).committed@.is_prefix_of(final(self).committed@),
            final(self).committed@ == old(self).committed@ + Core::round_hashes(e.committed@),
            forall|i: int|
                0 <= i < e.committed@.len() ==> (#[trigger] e.committed@[i]).round > old(self).last_committed_round,
            forall|i: int, j: int|
                0 <= i < j < e.committed@.len() ==> e.committed@[i].round < e.committed@[j].round,
            e.violation is Some ==> *final(self) == *old(self),
            // the effect corresponds to the event, clause for clause
            // with the handler that served it
            match event {
                Event::Proposal(b) => {
                    &&& e.timeout is None
                    &&& e.proposal is None
                    &&& (e.violation is Some <==> !(b.valid(old(self).committee) && b.author
                        == leader_spec(old(self).committee, b.round)))
                    &&& (e.violation is None ==> {
                        // the voting rule
                        &&& ((e.vote is Some) <==> old(self).knows_block(b.qc.hash) && old(self).should_vote(*b))
                        &&& match e.vote {
                            Some((to, v)) => {
                                &&& v.hash == b.hash
                                &&& v.round == b.round
                                &&& v.author == old(self).name
                                &&& v.valid()
                                &&& to == leader_spec(old(self).committee, (b.round + 1) as u64)
                                &&& final(self).last_voted_round == b.round
                                &&& final(self).voted@ == old(self).voted@.push((b.round, b.hash))
                            },
                            None => final(self).voted@ == old(self).voted@,
                        }
                        // persistence before anything is sent
                        &&& ((e.persist is Some) <==> old(self).knows_block(b.qc.hash))
                        &&& (e.persist is Some ==> block_eq(e.persist->Some_0, *b))
                        // gap repair: one deduplicated fetch
                        &&& ((e.sync_request is Some) <==> !old(self).knows_block(b.qc.hash)
                            && !old(self).synchronizer.is_pending(b.qc.hash) && !old(self).synchronizer.is_resolved(b.qc.hash))
                        &&& (e.sync_request is Some ==> e.sync_request->Some_0 == b.qc.hash)
                        // replay of the unblocked descendants, in order
                        &&& (old(self).knows_block(b.qc.hash) ==> e.replay@ == waiting_for(
                            old(self).synchronizer.buffered@,
                            b.hash,
                        ))
                        &&& (!old(self).knows_block(b.qc.hash) ==> e.replay@.len() == 0
                            && e.committed@.len() == 0)
                        // the commit rule over the store as the block
                        // left it
                        &&& (old(self).knows_block(b.qc.hash) ==> {
                            &&& (commit_trigger(
                                final(self).store@,
                                old(self).last_committed_round,
                                b.qc.hash,
                                b.qc.round,
                            ) ==> e.committed@.len() >= 1 && e.committed@.last().round
                                == commit_target(final(self).store@, b.qc.hash).round
                                && e.committed@.last().hash == commit_target(
                                final(self).store@,
                                b.qc.hash,
                            ).hash && final(self).last_committed_round == commit_target(
                                final(self).store@,
                                b.qc.hash,
                            ).round)
                            &&& (!commit_trigger(
                                final(self).store@,
                                old(self).last_committed_round,
                                b.qc.hash,
                                b.qc.round,
                            ) ==> e.committed@.len() == 0 && final(self).last_committed_round
                                == old(self).last_committed_round)
                        })
                    })
                },
                Event::Vote(v) => {
                    &&& e.vote is None
                    &&& e.timeout is None
                    &&& e.persist is None
                    &&& e.sync_request is None
                    &&& e.replay@.len() == 0
                    &&& (e.violation is Some <==> !(v.valid() && old(self).committee.is_member(
                        v.author,
                    )))
                    &&& (e.violation is None ==> {
                        &&& final(self).voted@ == old(self).voted@
                        // a stale vote changes nothing
                        &&& ((v.round < old(self).round || v.round == u64::MAX) ==> *final(self)
                            == *old(self) && e.proposal is None)
                        // the new leader proposes the instant the quorum
                        // completes
                        &&& ((e.proposal is Some) <==> (v.round >= old(self).round && v.round
                            < u64::MAX && !old(self).aggregator.vote_done(v.hash, v.round)
                            && !has_signer(
                            old(self).aggregator.vote_sigs(v.hash, v.round),
                            v.author,
                        ) && old(self).aggregator.vote_sigs(v.hash, v.round).len() + 1 == old(self).committee.quorum() && leader_spec(old(self).committee, final(self).round)
                            == old(self).name))
                        &&& match e.proposal {
                            Some(nb) => {
                                &&& nb.valid(old(self).committee)
                                &&& nb.round == final(self).round
                                &&& nb.round == v.round + 1
                                &&& nb.author == old(self).name
                                &&& nb.payload == payload
                            },
                            None => true,
                        }
                    })
                },
                Event::Timeout(tm) => {
                    &&& e.vote is None
                    &&& e.timeout is None
                    &&& e.persist is None
                    &&& e.sync_request is None
                    &&& e.replay@.len() == 0
                    &&& (e.violation is Some <==> !(tm.valid(old(self).committee) && old(self).committee.is_member(tm.author) && tm.high_qc.round < tm.round))
                    &&& (e.violation is None ==> {
                        &&& final(self).voted@ == old(self).voted@
                        // a stale timeout changes nothing
                        &&& ((tm.round < old(self).round || tm.round == u64::MAX) ==> *final(self)
                            == *old(self) && e.proposal is None)
                        // the new leader proposes the instant the quorum
                        // completes
                        &&& ((e.proposal is Some) <==> (tm.round >= old(self).round && tm.round
                            < u64::MAX && !old(self).aggregator.timeout_done(tm.round)
                            && !has_signer(old(self).aggregator.timeout_sigs(tm.round), tm.author)
                            && old(self).aggregator.timeout_sigs(tm.round).len() + 1 == old(self).committee.quorum() && leader_spec(old(self).committee, final(self).round)
                            == old(self).name))
                        &&& match e.proposal {
                            Some(nb) => {
                                &&& nb.valid(old(self).committee)
                                &&& nb.round == final(self).round
                                &&& nb.round == tm.round + 1
                                &&& nb.author == old(self).name
                                &&& nb.payload == payload
                            },
                            None => true,
                        }
                        // the round timer rearms exactly on advancement
                        &&& (final(self).round > old(self).round ==> final(self).pacemaker.delay
                            == old(self).pacemaker.base && final(self).pacemaker.strikes@ == 0)
                        &&& (final(self).round == old(self).round ==> final(self).pacemaker
                            == old(self).pacemaker)
                    })
                },
                Event::TimerExpired => {
                    &&& e.violation is None
                    &&& e.vote is None
                    &&& e.proposal is None
                    &&& e.persist is None
                    &&& e.sync_request is None
                    &&& e.replay@.len() == 0
                    &&& e.committed@.len() == 0
                    &&& e.timeout is Some
                    &&& e.timeout->Some_0.round == old(self).round
                    &&& e.timeout->Some_0.author == old(self).name
                    &&& e.timeout->Some_0.valid(old(self).committee)
                    &&& qc_eq(e.timeout->Some_0.high_qc, old(self).highest_qc)
                    // the delay escalated: one more strike, doubled and
                    // capped per the pacemaker law
                    &&& final(self).pacemaker.strikes@ == old(self).pacemaker.strikes@ + 1
                    &&& final(self).pacemaker.base == old(self).pacemaker.base
                    &&& final(self).pacemaker.cap == old(self).pacemaker.cap
                    &&& final(self).round == old(self).round
                    &&& final(self).voted@ == old(self).voted@
                    &&& final(self).store@ == old(self).store@
                },
            },
    {
        match event {
            Event::Proposal(block) => {
                match self.handle_proposal(block) {
                    Ok(o) => {
                        proof {
                            if o.vote is Some {
                                assert(old(self).voted@.is_prefix_of(final(self).voted@));
                            }
                        }
                        Effect {
                            persist: if o.stored {
                                Some(block.clone())
                            } else {
                                None
                            },
                            vote: match o.vote {
                                Some(v) => Some((o.next_leader, v)),
                                None => None,
                            },
                            proposal: None,
                            timeout: None,
                            sync_request: o.sync_request,
                            replay: o.replay,
                            committed: o.committed,
                            violation: None,
                        }
                    },
                    Err(e) => {
                        proof {
                            assert(self.committed@ =~= old(self).committed@ + Core::round_hashes(
                                Seq::empty(),
                            ));
                        }
                        Effect {
                            persist: None,
                            vote: None,
                            proposal: None,
                            timeout: None,
                            sync_request: None,
                            replay: Vec::new(),
                            committed: Vec::new(),
                            violation: Some(e),
                        }
                    },
                }
            },
            Event::Vote(vote) => {
                match self.handle_vote(vote, payload) {
                    Ok(o) => Effect {
                        persist: None,
                        vote: None,
                        proposal: o.proposal,
                        timeout: None,
                        sync_request: None,
                        replay: Vec::new(),
                        committed: o.committed,
                        violation: None,
                    },
                    Err(e) => {
                        proof {
                            assert(self.committed@ =~= old(self).committed@ + Core::round_hashes(
                                Seq::empty(),
                            ));
                        }
                        Effect {
                            persist: None,
                            vote: None,
                            proposal: None,
                            timeout: None,
                            sync_request: None,
                            replay: Vec::new(),
                            committed: Vec::new(),
                            violation: Some(e),
                        }
                    },
                }
            },
            Event::Timeout(tm) => {
                match self.handle_timeout_message(tm, payload) {
                    Ok(o) => Effect {
                        persist: None,
                        vote: None,
                        proposal: o.proposal,
                        timeout: None,
                        sync_request: None,
                        replay: Vec::new(),
                        committed: o.committed,
                        violation: None,
                    },
                    Err(e) => {
                        proof {
                            assert(self.committed@ =~= old(self).committed@ + Core::round_hashes(
                                Seq::empty(),
                            ));
                        }
                        Effect {
                            persist: None,
                            vote: None,
                            proposal: None,
                            timeout: None,
                            sync_request: None,
                            replay: Vec::new(),
                            committed: Vec::new(),
                            violation: Some(e),
                        }
                    },
                }
            },
            Event::TimerExpired => {
                let tm = self.local_timeout();
                proof {
                    assert(self.committed@ =~= old(self).committed@ + Core::round_hashes(
                        Seq::empty(),
                    ));
                }
                Effect {
                    persist: None,
                    vote: None,
                    proposal: None,
                    timeout: Some(tm),
                    sync_request: None,
                    replay: Vec::new(),
                    committed: Vec::new(),
                    violation: None,
                }
            },
        }
    }
}

/// Vote uniqueness law: the vote history of a well-formed node never
/// holds two votes for the same round — in particular it never signs
/// two different votes for one round.
pub proof fn theorem_vote_uniqueness(c: Core, i: int, j: int)
    requires
        c.wf(),
        0 <= i < c.voted@.len(),
        0 <= j < c.voted@.len(),
        i != j,
    ensures
        c.voted@[i].0 != c.voted@[j].0,
{
    if i < j {
        assert(c.voted@[i].0 < c.voted@[j].0);
    } else {
        assert(c.voted@[j].0 < c.voted@[i].0);
    }
}

/// The vote history of a well-formed node defines a function from round
/// to the single block hash voted for in that round: exactly the shape
/// of correct-member vote record that
/// [`crate::safety::theorem_safety`] takes as its hypothesis.
pub proof fn theorem_votes_form_a_function(c: Core) -> (m: Map<u64, u64>)
    requires
        c.wf(),
    ensures
        forall|i: int|
            0 <= i < c.voted@.len() ==> m.contains_key((#[trigger] c.voted@[i]).0)
                && m[c.voted@[i].0] == c.voted@[i].1,
{
    let m = Map::new(
        |r: u64| exists|i: int| 0 <= i < c.voted@.len() && (#[trigger] c.voted@[i]).0 == r,
        |r: u64|
            {
                let i = choose|i: int| 0 <= i < c.voted@.len() && (#[trigger] c.voted@[i]).0 == r;
                c.voted@[i].1
            },
    );
    assert forall|i: int|
        0 <= i < c.voted@.len() implies m.contains_key((#[trigger] c.voted@[i]).0)
        && m[c.voted@[i].0] == c.voted@[i].1 by {
        let r = c.voted@[i].0;
        assert(m.contains_key(r));
        let j = choose|j: int| 0 <= j < c.voted@.len() && (#[trigger] c.voted@[j]).0 == r;
        if i != j {
            theorem_vote_uniqueness(c, i, j);
        }
    }
    m
}

/// Commit monotonicity law: the emitted commit history of a well-formed
/// node is strictly increasing in round — a committed block is never
/// revised, and no later emission reuses an earlier round.
pub proof fn theorem_commit_monotonicity(c: Core, i: int, j: int)
    requires
        c.wf(),
        0 <= i < j < c.committed@.len(),
    ensures
        c.committed@[i].0 < c.committed@[j].0,
{
}

} // verus!
