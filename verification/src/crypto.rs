//! Idealized signatures.
//!
//! Key custody and the raw signing primitive live outside the engine; the
//! protocol logic only ever asks two things of a signature: who issued it,
//! and over which content.  A signature is therefore modeled as an
//! unforgeable attestation binding a signer to the signed content — a
//! kind tag, a hash and a round — and verification checks that binding.

use vstd::prelude::*;

verus! {

/// What a signature is over: a block's own hash, a vote, or a timeout.
/// The tag keeps the three signing domains apart, so a signature issued
/// in one role can never be replayed in another.
#[derive(Clone, Copy, Debug, PartialEq, Eq, Structural)]
pub enum SigKind {
    /// The author's signature over a block's content hash.
    BlockSig,
    /// A vote over a `(block hash, round)` pair.
    VoteSig,
    /// A timeout over a round.
    TimeoutSig,
}

/// An attestation by `signer` over `(kind, hash, round)`.
#[derive(Clone, Copy, Debug, PartialEq, Eq, Structural)]
pub struct Signature {
    pub signer: u64,
    pub kind: SigKind,
    pub hash: u64,
    pub round: u64,
}

/// This node's identity and private key material, as read from the key
/// file by the surrounding process.
#[derive(Clone, Copy, Debug, PartialEq, Eq, Structural)]
pub struct Secret {
    /// The public identity of this node.
    pub name: u64,
    /// The private key material; never leaves the signature service.
    pub secret: u64,
}

/// The signature that a correct holder of `name`'s key issues over
/// `(kind, hash, round)`.
pub open spec fn signed(name: u64, kind: SigKind, hash: u64, round: u64) -> Signature {
    Signature { signer: name, kind, hash, round }
}

/// Issues and verifies signatures on behalf of one node.
pub struct SignatureService {
    pub secret: Secret,
}

impl SignatureService {
    pub fn new(secret: Secret) -> (s: SignatureService)
        ensures
            s.secret == secret,
    {
        SignatureService { secret }
    }

    /// Signs `(kind, hash, round)` with this node's identity.
    pub fn sign(&self, kind: SigKind, hash: u64, round: u64) -> (s: Signature)
        ensures
            s == signed(self.secret.name, kind, hash, round),
    {
        Signature { signer: self.secret.name, kind, hash, round }
    }
}

/// Checks that `sig` is `author`'s attestation over `(kind, hash, round)`.
pub fn verify(sig: &Signature, author: u64, kind: SigKind, hash: u64, round: u64) -> (b: bool)
    ensures
        b == (*sig == signed(author, kind, hash, round)),
{
    sig.signer == author && sig.kind == kind && sig.hash == hash && sig.round == round
}

} // verus!
