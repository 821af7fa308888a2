//! A Byzantine-fault-tolerant state-machine-replication engine.
//!
//! A committee of `n = 3f + 1` validators agrees on a single, ever-growing
//! chain of blocks despite up to `f` arbitrarily faulty members and a
//! partially synchronous network.  The crate contains the consensus logic
//! itself: round and leader progression, proposal validation, vote and
//! timeout aggregation into certificates, the locking rule that protects
//! safety, the chained commit rule, and the synchronizer that repairs gaps
//! in a node's local view of the chain.  Key custody, durable storage and
//! the network transport are collaborators that live outside this crate;
//! they exchange plain values with the state machine defined here.

pub mod aggregator;
pub mod committee;
pub mod consensus;
pub mod crypto;
pub mod error;
pub mod messages;
pub mod leader;
pub mod node;
pub mod pacemaker;
pub mod safety;
pub mod synchronizer;
