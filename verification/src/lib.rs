//! A bounded model checker for a three-phase quorum consensus protocol.
//!
//! A small cluster of replicas runs a Propose -> Prepare -> Commit -> Decide
//! protocol; each replica is a pure state machine ([`node::ConsensusActor`]).
//! The global model composes the replicas with a bag of in-flight messages
//! ([`global`]), and the exploration engine ([`engine`]) enumerates every
//! reachable global state up to a depth bound, evaluating safety and liveness
//! properties on each one.

pub mod engine;
pub mod global;
pub mod node;
pub mod props;
pub mod value;
