//! The value and message algebra: the closed set of proposable values, the
//! protocol phases, the four message kinds, and the in-flight envelope.

use vstd::prelude::*;

verus! {

/// Identifier of a replica, in `[0, num_nodes)`.
pub type NodeId = usize;

/// The closed domain of proposable values.
#[derive(Clone, Copy, Debug, PartialEq, Eq, Structural, Hash, PartialOrd, Ord)]
pub enum Value {
    V1,
    V2,
    V3,
}

/// Protocol phase of a replica. Non-faulty replicas progress linearly along
/// `Init -> Prepared -> Committed -> Decided`; `Failed` is assigned only at
/// construction time (crash-at-start) and is absorbing.
#[derive(Clone, Copy, Debug, PartialEq, Eq, Structural, Hash)]
pub enum NodeState {
    Init,
    Prepared,
    Committed,
    Decided,
    Failed,
}

/// The four message kinds of the protocol, each carrying the value it is
/// about.
#[derive(Clone, Copy, Debug, PartialEq, Eq, Structural, Hash, PartialOrd, Ord)]
pub enum MessageType {
    Propose(Value),
    Prepare(Value),
    Commit(Value),
    Decide(Value),
}

/// Timers let a non-proposer spontaneously propose a value.
#[derive(Clone, Copy, Debug, PartialEq, Eq, Structural, Hash, PartialOrd, Ord)]
pub enum ConsensusTimer {
    ProposeValue(Value),
}

/// A message in flight, addressed to its destination replica.
#[derive(Clone, Copy, Debug, PartialEq, Eq, Structural, Hash)]
pub struct Envelope {
    pub to: NodeId,
    pub msg: MessageType,
}

/// Position of a value in the (ordered) value domain.
pub open spec fn value_index(v: Value) -> int {
    match v {
        Value::V1 => 0,
        Value::V2 => 1,
        Value::V3 => 2,
    }
}

/// A total order key on messages: message kind first, carried value second.
pub open spec fn msg_code(m: MessageType) -> int {
    match m {
        MessageType::Propose(v) => 0 + value_index(v),
        MessageType::Prepare(v) => 3 + value_index(v),
        MessageType::Commit(v) => 6 + value_index(v),
        MessageType::Decide(v) => 9 + value_index(v),
    }
}

/// The canonical order on envelopes: destination first, then message code.
/// Two envelopes compare equal under this order only if they are equal,
/// so a sorted message bag is a canonical form of its multiset.
pub open spec fn env_le(a: Envelope, b: Envelope) -> bool {
    a.to < b.to || (a.to == b.to && msg_code(a.msg) <= msg_code(b.msg))
}

/// Rank of a phase along the linear progression; `Failed` sits outside the
/// progression and gets the top rank.
pub open spec fn phase_rank(p: NodeState) -> int {
    match p {
        NodeState::Init => 0,
        NodeState::Prepared => 1,
        NodeState::Committed => 2,
        NodeState::Decided => 3,
        NodeState::Failed => 4,
    }
}

/// Executable value index, matching [`value_index`].
pub fn value_index_ex(v: Value) -> (r: usize)
    ensures
        r as int == value_index(v),
{
    match v {
        Value::V1 => 0,
        Value::V2 => 1,
        Value::V3 => 2,
    }
}

/// Executable message code, matching [`msg_code`].
pub fn msg_code_ex(m: MessageType) -> (r: usize)
    ensures
        r as int == msg_code(m),
{
    match m {
        MessageType::Propose(v) => 0 + value_index_ex(v),
        MessageType::Prepare(v) => 3 + value_index_ex(v),
        MessageType::Commit(v) => 6 + value_index_ex(v),
        MessageType::Decide(v) => 9 + value_index_ex(v),
    }
}

/// Executable envelope order, matching [`env_le`].
pub fn env_le_ex(a: &Envelope, b: &Envelope) -> (r: bool)
    ensures
        r == env_le(*a, *b),
{
    a.to < b.to || (a.to == b.to && msg_code_ex(a.msg) <= msg_code_ex(b.msg))
}

/// Equal order keys imply equal envelopes, so sorting the bag by
/// [`env_le`] yields one canonical sequence per multiset of envelopes.
pub proof fn lemma_env_le_antisymmetric(a: Envelope, b: Envelope)
    ensures
        env_le(a, b) && env_le(b, a) ==> a == b,
{
}

} // verus!
