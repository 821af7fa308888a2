//! Error taxonomy of the engine.
//!
//! Configuration problems are fatal at startup; protocol-level anomalies
//! are expected under Byzantine or asynchronous conditions, so handlers
//! report them to the caller, which drops and logs the offending message.

use vstd::prelude::*;

verus! {

/// A fatal startup error: the committee or the key material handed to the
/// engine is malformed or inconsistent.
#[derive(Clone, Copy, Debug, PartialEq, Eq, Structural)]
pub enum ConfigError {
    /// The committee size is not of the form `3f + 1` with `f >= 1`.
    BadCommitteeSize,
    /// Two committee entries carry the same identity.
    DuplicateMember,
    /// This node's identity is absent from the committee.
    NotInCommittee,
}

/// A non-fatal protocol violation: the offending message is dropped.
#[derive(Clone, Copy, Debug, PartialEq, Eq, Structural)]
pub enum ProtocolError {
    /// A certificate carried by the message does not verify.
    InvalidCertificate,
    /// A block's round does not follow from its justification.
    BadRound,
    /// A signature does not verify against the claimed author.
    BadSignature,
    /// The author of the message is not a committee member.
    UnknownAuthor,
    /// The block author is not the elected leader of its round.
    NotLeader,
    /// A block's content hash does not match its fields.
    BadDigest,
}

} // verus!
