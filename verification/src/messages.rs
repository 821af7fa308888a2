//! Blocks, votes, timeouts and certificates.
//!
//! A block justifies its place in the chain with a quorum certificate
//! (QC) over its parent and, when its round was reached through a
//! timeout, a timeout certificate (TC) as well.  Both certificates carry
//! `2f + 1` signatures from distinct committee members; their validity
//! predicates are the heart of the protocol's trust in any message it
//! receives from the network.

use vstd::prelude::*;

use crate::committee::Committee;
use crate::crypto::{signed, SigKind, Signature};

verus! {

/// The hash of the genesis block, fixed by convention.
pub const GENESIS_HASH: u64 = 0;

/// The content hash of a block: a deterministic digest over all fields
/// that make the block what it is.  Collisions are assumed away, as for
/// any cryptographic digest; the protocol only ever compares digests.
pub open spec fn digest(round: u64, author: u64, payload: u64, parent: u64) -> u64 {
    (round << 1) ^ (round >> 63) ^ (author << 17) ^ (author >> 47) ^ (payload << 31) ^ (payload
        >> 33) ^ (parent << 47) ^ (parent >> 17) ^ 0x9e3779b97f4a7c15
}

/// Computes the content hash of a block over its fields.
pub fn compute_digest(round: u64, author: u64, payload: u64, parent: u64) -> (h: u64)
    ensures
        h == digest(round, author, payload, parent),
{
    (round << 1u64) ^ (round >> 63u64) ^ (author << 17u64) ^ (author >> 47u64) ^ (payload
        << 31u64) ^ (payload >> 33u64) ^ (parent << 47u64) ^ (parent >> 17u64)
        ^ 0x9e3779b97f4a7c15u64
}

/// A quorum certificate: proof that `2f + 1` distinct committee members
/// voted for the block `hash` at `round`.
#[verifier::ext_equal]
pub struct QC {
    pub hash: u64,
    pub round: u64,
    pub votes: Vec<Signature>,
}

/// The signer identities of a signature list, in order.
pub open spec fn signers_of(votes: Seq<Signature>) -> Seq<u64> {
    votes.map_values(|s: Signature| s.signer)
}

/// Validity of a quorum certificate, over its plain content: either the
/// genesis certificate, or at least `2f + 1` signatures from distinct
/// committee members, every one of them over the same `(hash, round)`
/// vote.
pub open spec fn qc_valid_spec(c: Committee, hash: u64, round: u64, votes: Seq<Signature>) -> bool {
    (round == 0 && hash == GENESIS_HASH && votes.len() == 0) || {
        &&& round >= 1
        &&& votes.len() >= c.quorum()
        &&& signers_of(votes).no_duplicates()
        &&& forall|i: int|
            0 <= i < votes.len() ==> c.is_member(#[trigger] votes[i].signer) && votes[i] == signed(
                votes[i].signer,
                SigKind::VoteSig,
                hash,
                round,
            )
    }
}

/// Validity of a timeout certificate, over its plain content: at least
/// `2f + 1` distinct committee members signed a timeout for this round.
pub open spec fn tc_valid_spec(c: Committee, round: u64, votes: Seq<Signature>) -> bool {
    &&& round >= 1
    &&& votes.len() >= c.quorum()
    &&& signers_of(votes).no_duplicates()
    &&& forall|i: int|
        0 <= i < votes.len() ==> c.is_member(#[trigger] votes[i].signer) && votes[i].kind
            == SigKind::TimeoutSig && votes[i].round == round
}

impl QC {
    /// The genesis certificate anchors the chain at round zero and needs
    /// no signatures.
    pub open spec fn is_genesis(self) -> bool {
        &&& self.round == 0
        &&& self.hash == GENESIS_HASH
        &&& self.votes@.len() == 0
    }

    /// The signer identities, in certificate order.
    pub open spec fn signers(self) -> Seq<u64> {
        signers_of(self.votes@)
    }

    /// A certificate is valid iff it is the genesis certificate or it
    /// carries at least `2f + 1` signatures from distinct committee
    /// members, every one of them over the same `(hash, round)` vote.
    pub open spec fn valid(self, c: Committee) -> bool {
        qc_valid_spec(c, self.hash, self.round, self.votes@)
    }

    /// The genesis certificate.
    pub fn genesis() -> (q: QC)
        ensures
            q.is_genesis(),
            q.hash == GENESIS_HASH,
            q.round == 0,
            q.votes@.len() == 0,
            forall|c: Committee| q.valid(c),
    {
        QC { hash: GENESIS_HASH, round: 0, votes: Vec::new() }
    }

    /// Verifies the certificate against the committee.
    pub fn check(&self, c: &Committee) -> (b: bool)
        requires
            c.wf(),
        ensures
            b == self.valid(*c),
    {
        if self.round == 0 {
            return self.hash == GENESIS_HASH && self.votes.len() == 0;
        }
        let n = self.votes.len();
        if n < c.quorum_threshold() {
            return false;
        }
        let mut i: usize = 0;
        while i < n
            invariant
                n == self.votes@.len(),
                i <= n,
                forall|p: int, q: int|
                    0 <= p < q < n && p < i ==> self.votes@[p].signer != self.votes@[q].signer,
                forall|p: int|
                    0 <= p < i ==> c.is_member(#[trigger] self.votes@[p].signer)
                        && self.votes@[p] == signed(
                        self.votes@[p].signer,
                        SigKind::VoteSig,
                        self.hash,
                        self.round,
                    ),
            decreases n - i,
        {
            let s = self.votes[i];
            if !(c.contains(s.signer) && s.kind == SigKind::VoteSig && s.hash == self.hash
                && s.round == self.round) {
                return false;
            }
            let mut j: usize = i + 1;
            while j < n
                invariant
                    n == self.votes@.len(),
                    i < j <= n,
                    s == self.votes@[i as int],
                    forall|q: int| i < q < j ==> s.signer != self.votes@[q].signer,
                decreases n - j,
            {
                if self.votes[j].signer == s.signer {
                    proof {
                        assert(self.signers()[i as int] == self.signers()[j as int]);
                        assert(!self.signers().no_duplicates());
                    }
                    return false;
                }
                j = j + 1;
            }
            i = i + 1;
        }
        proof {
            assert forall|p: int, q: int|
                0 <= p < q < self.signers().len() implies #[trigger] self.signers()[p]
                != #[trigger] self.signers()[q] by {
                assert(self.votes@[p].signer != self.votes@[q].signer);
            }
            assert(self.signers().no_duplicates());
            assert(self.valid(*c));
        }
        true
    }
}

impl Clone for QC {
    fn clone(&self) -> (r: Self)
        ensures
            qc_eq(r, *self),
    {
        let votes = clone_signatures(&self.votes);
        QC { hash: self.hash, round: self.round, votes }
    }
}

/// Two certificates with the same content.
pub open spec fn qc_eq(a: QC, b: QC) -> bool {
    &&& a.hash == b.hash
    &&& a.round == b.round
    &&& a.votes@ == b.votes@
}

/// Two timeout certificates with the same content.
pub open spec fn tc_eq(a: TC, b: TC) -> bool {
    &&& a.round == b.round
    &&& a.votes@ == b.votes@
}

/// Two blocks with the same content.
pub open spec fn block_eq(a: Block, b: Block) -> bool {
    &&& a.round == b.round
    &&& a.author == b.author
    &&& a.payload == b.payload
    &&& qc_eq(a.qc, b.qc)
    &&& (a.tc is Some <==> b.tc is Some)
    &&& (a.tc is Some ==> tc_eq(a.tc->Some_0, b.tc->Some_0))
    &&& a.hash == b.hash
    &&& a.signature == b.signature
}

/// Content equality carries certificate validity.
pub proof fn lemma_qc_eq_valid(a: QC, b: QC, c: Committee)
    requires
        qc_eq(a, b),
        b.valid(c),
    ensures
        a.valid(c),
{
}

/// Content equality carries timeout-certificate validity.
pub proof fn lemma_tc_eq_valid(a: TC, b: TC, c: Committee)
    requires
        tc_eq(a, b),
        b.valid(c),
    ensures
        a.valid(c),
{
}

/// Copies a signature list element by element.
pub(crate) fn clone_signatures(v: &Vec<Signature>) -> (r: Vec<Signature>)
    ensures
        r@ == v@,
{
    let mut r: Vec<Signature> = Vec::new();
    let n = v.len();
    let mut i: usize = 0;
    while i < n
        invariant
            n == v@.len(),
            i <= n,
            r@ == v@.subrange(0, i as int),
        decreases n - i,
    {
        r.push(v[i]);
        proof {
            assert(r@ =~= v@.subrange(0, i + 1));
        }
        i = i + 1;
    }
    proof {
        assert(r@ =~= v@);
    }
    r
}

/// A timeout certificate: proof that `2f + 1` distinct committee members
/// gave up on `round`.  Each signer's report of its highest quorum
/// certificate travels in its [`TimeoutMessage`] and is adopted when the
/// message is handled, before aggregation; the certificate itself keeps
/// only the signatures, not the per-signer report map.
#[verifier::ext_equal]
pub struct TC {
    pub round: u64,
    pub votes: Vec<Signature>,
}

impl TC {
    pub open spec fn signers(self) -> Seq<u64> {
        signers_of(self.votes@)
    }

    /// Valid iff at least `2f + 1` distinct committee members signed a
    /// timeout for this round.
    pub open spec fn valid(self, c: Committee) -> bool {
        tc_valid_spec(c, self.round, self.votes@)
    }

    /// Verifies the certificate against the committee.
    pub fn check(&self, c: &Committee) -> (b: bool)
        requires
            c.wf(),
        ensures
            b == self.valid(*c),
    {
        if self.round == 0 {
            return false;
        }
        let n = self.votes.len();
        if n < c.quorum_threshold() {
            return false;
        }
        let mut i: usize = 0;
        while i < n
            invariant
                n == self.votes@.len(),
                i <= n,
                forall|p: int, q: int|
                    0 <= p < q < n && p < i ==> self.votes@[p].signer != self.votes@[q].signer,
                forall|p: int|
                    0 <= p < i ==> c.is_member(#[trigger] self.votes@[p].signer)
                        && self.votes@[p].kind == SigKind::TimeoutSig && self.votes@[p].round
                        == self.round,
            decreases n - i,
        {
            let s = self.votes[i];
            if !(c.contains(s.signer) && s.kind == SigKind::TimeoutSig && s.round == self.round) {
                return false;
            }
            let mut j: usize = i + 1;
            while j < n
                invariant
                    n == self.votes@.len(),
                    i < j <= n,
                    s == self.votes@[i as int],
                    forall|q: int| i < q < j ==> s.signer != self.votes@[q].signer,
                decreases n - j,
            {
                if self.votes[j].signer == s.signer {
                    proof {
                        assert(self.signers()[i as int] == self.signers()[j as int]);
                        assert(!self.signers().no_duplicates());
                    }
                    return false;
                }
                j = j + 1;
            }
            i = i + 1;
        }
        proof {
            assert forall|p: int, q: int|
                0 <= p < q < self.signers().len() implies #[trigger] self.signers()[p]
                != #[trigger] self.signers()[q] by {
                assert(self.votes@[p].signer != self.votes@[q].signer);
            }
            assert(self.signers().no_duplicates());
            assert(self.valid(*c));
        }
        true
    }
}

impl Clone for TC {
    fn clone(&self) -> (r: Self)
        ensures
            tc_eq(r, *self),
    {
        let votes = clone_signatures(&self.votes);
        TC { round: self.round, votes }
    }
}

/// A single validator's vote for the block `hash` at `round`.
#[derive(Clone, Copy, Debug, PartialEq, Eq, Structural)]
pub struct Vote {
    pub hash: u64,
    pub round: u64,
    pub author: u64,
    pub signature: Signature,
}

impl Vote {
    /// The signature binds the author to exactly this `(hash, round)`.
    pub open spec fn valid(self) -> bool {
        self.signature == signed(self.author, SigKind::VoteSig, self.hash, self.round)
    }

    /// Verifies the vote's signature.
    pub fn check(&self) -> (b: bool)
        ensures
            b == self.valid(),
    {
        crate::crypto::verify(
            &self.signature,
            self.author,
            SigKind::VoteSig,
            self.hash,
            self.round,
        )
    }
}

/// A validator's declaration that `round` timed out, carrying its
/// highest known certificate so the next leader can catch up.
#[verifier::ext_equal]
pub struct TimeoutMessage {
    pub round: u64,
    pub high_qc: QC,
    pub author: u64,
    pub signature: Signature,
}

impl TimeoutMessage {
    /// The signature binds the author to the round and to the round of
    /// the certificate it reports.
    pub open spec fn valid(self, c: Committee) -> bool {
        &&& self.signature == signed(
            self.author,
            SigKind::TimeoutSig,
            self.high_qc.round,
            self.round,
        )
        &&& self.high_qc.valid(c)
    }

    /// Verifies the timeout's signature and the certificate it carries.
    pub fn check(&self, c: &Committee) -> (b: bool)
        requires
            c.wf(),
        ensures
            b == self.valid(*c),
    {
        crate::crypto::verify(
            &self.signature,
            self.author,
            SigKind::TimeoutSig,
            self.high_qc.round,
            self.round,
        ) && self.high_qc.check(c)
    }
}

impl Clone for TimeoutMessage {
    fn clone(&self) -> (r: Self)
        ensures
            r.round == self.round,
            qc_eq(r.high_qc, self.high_qc),
            r.author == self.author,
            r.signature == self.signature,
    {
        TimeoutMessage {
            round: self.round,
            high_qc: self.high_qc.clone(),
            author: self.author,
            signature: self.signature,
        }
    }
}

/// A block of the chain: a payload digest proposed by the leader of
/// `round`, chained to its parent through `qc`.
#[verifier::ext_equal]
pub struct Block {
    pub round: u64,
    pub author: u64,
    /// Opaque digest of the batched transactions, supplied by the
    /// mempool collaborator.
    pub payload: u64,
    /// Certificate for the parent block.
    pub qc: QC,
    /// Present iff the round was reached through a timeout.
    pub tc: Option<TC>,
    /// Content hash over `(round, author, payload, parent hash)`.
    pub hash: u64,
    /// The author's signature over the content hash.
    pub signature: Signature,
}

impl Block {
    /// The genesis block: round zero, fixed hash, no real certificate.
    pub open spec fn is_genesis(self) -> bool {
        &&& self.round == 0
        &&& self.hash == GENESIS_HASH
        &&& self.qc.is_genesis()
        &&& self.tc is None
    }

    /// The hash field matches the block's content.
    pub open spec fn wf_hash(self) -> bool {
        self.hash == digest(self.round, self.author, self.payload, self.qc.hash)
    }

    /// A block is valid iff its certificates verify, its round strictly
    /// follows its justification (directly on the parent certificate, or
    /// through a timeout certificate for the round before it), its hash
    /// matches its content and its author signed that hash.
    pub open spec fn valid(self, c: Committee) -> bool {
        &&& self.round >= 1
        &&& c.is_member(self.author)
        &&& self.qc.valid(c)
        &&& self.qc.round < self.round
        &&& (self.round == self.qc.round + 1 || (self.tc is Some
            && self.tc->Some_0.valid(c)
            && self.tc->Some_0.round + 1 == self.round))
        &&& self.wf_hash()
        &&& self.signature == signed(self.author, SigKind::BlockSig, self.hash, self.round)
    }

    /// Verifies everything about the block except leader election, which
    /// needs the elector and is checked by the state machine.
    pub fn check(&self, c: &Committee) -> (b: bool)
        requires
            c.wf(),
        ensures
            b == self.valid(*c),
    {
        if self.round == 0 {
            return false;
        }
        if !c.contains(self.author) {
            return false;
        }
        if !self.qc.check(c) {
            return false;
        }
        if self.qc.round >= self.round {
            return false;
        }
        let linked = if self.round == self.qc.round + 1 {
            true
        } else {
            match &self.tc {
                Some(tc) => tc.check(c) && self.round >= 1 && tc.round == self.round - 1,
                None => false,
            }
        };
        if !linked {
            return false;
        }
        let h = compute_digest(self.round, self.author, self.payload, self.qc.hash);
        if self.hash != h {
            return false;
        }
        crate::crypto::verify(
            &self.signature,
            self.author,
            SigKind::BlockSig,
            self.hash,
            self.round,
        )
    }

    /// The genesis block.
    pub fn genesis() -> (b: Block)
        ensures
            b.is_genesis(),
            b.author == 0,
            b.payload == 0,
    {
        Block {
            round: 0,
            author: 0,
            payload: 0,
            qc: QC::genesis(),
            tc: None,
            hash: GENESIS_HASH,
            signature: Signature {
                signer: 0,
                kind: SigKind::BlockSig,
                hash: GENESIS_HASH,
                round: 0,
            },
        }
    }
}

impl Clone for Block {
    fn clone(&self) -> (r: Self)
        ensures
            block_eq(r, *self),
    {
        let tc = match &self.tc {
            Some(t) => Some(t.clone()),
            None => None,
        };
        Block {
            round: self.round,
            author: self.author,
            payload: self.payload,
            qc: self.qc.clone(),
            tc,
            hash: self.hash,
            signature: self.signature,
        }
    }
}

} // verus!
