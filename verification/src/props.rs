//! Safety and liveness predicates over node states, and the model-level
//! property checkers.

use vstd::prelude::*;

use crate::node::ConsensusNodeState;
use crate::value::NodeState;

verus! {

/// A replica that counts for agreement: non-faulty, decided, with a value.
pub open spec fn participates(s: ConsensusNodeState) -> bool {
    s.decided && !s.is_faulty && s.value is Some
}

/// Agreement: all non-faulty decided replicas hold the same value.
pub open spec fn spec_agreement(nodes: Seq<ConsensusNodeState>) -> bool {
    forall|i: int, j: int|
        0 <= i < nodes.len() && 0 <= j < nodes.len() && participates(nodes[i]) && participates(
            nodes[j],
        ) ==> nodes[i].value == nodes[j].value
}

/// No premature decision: a decided replica holds a value whose commit tally
/// reached its quorum.
pub open spec fn spec_no_premature(s: ConsensusNodeState) -> bool {
    s.state == NodeState::Decided ==> match s.value {
        Some(v) => s.commit_count.spec_count(v) >= s.quorum_size,
        None => false,
    }
}

/// Whether one property of the closed property set holds of a vector of
/// replica states.
pub open spec fn spec_eval_prop(p: PropertyKind, nodes: Seq<ConsensusNodeState>) -> bool {
    match p {
        PropertyKind::Agreement => spec_agreement(nodes),
        PropertyKind::NoPrematureDecision => forall|k: int|
            0 <= k < nodes.len() ==> spec_no_premature(nodes[k]),
        PropertyKind::SomeNodeDecided => exists|k: int|
            0 <= k < nodes.len() && !nodes[k].is_faulty && nodes[k].decided,
        PropertyKind::FailedOnlyIfFaulty => forall|k: int|
            0 <= k < nodes.len() ==> (nodes[k].state == NodeState::Failed ==> nodes[k].is_faulty),
    }
}

/// Whether a property must hold of every reachable state or of at least one.
#[derive(Clone, Copy, Debug, PartialEq, Eq, Structural)]
pub enum Expectation {
    Always,
    Sometimes,
}

/// The closed set of state predicates the checker evaluates.
#[derive(Clone, Copy, Debug, PartialEq, Eq, Structural)]
pub enum PropertyKind {
    /// [`spec_agreement`] over the replica states.
    Agreement,
    /// [`spec_no_premature`] at every replica.
    NoPrematureDecision,
    /// Some non-faulty replica has decided.
    SomeNodeDecided,
    /// Only replicas marked faulty are in the `Failed` phase.
    FailedOnlyIfFaulty,
}

/// One property to check: a predicate and the expectation placed on it.
#[derive(Clone, Copy, Debug, PartialEq, Eq, Structural)]
pub struct PropertySpec {
    pub kind: Expectation,
    pub prop: PropertyKind,
}

/// Agreement over a vector of replica states.
pub fn agreement_holds(history: &[ConsensusNodeState]) -> (r: bool)
    ensures
        r == spec_agreement(history@),
{
    let mut i: usize = 0;
    let mut witness: Option<crate::value::Value> = None;
    while i < history.len()
        invariant
            i <= history.len(),
            match witness {
                None => forall|k: int| 0 <= k < i ==> !participates(history@[k]),
                Some(w) => (exists|k: int|
                    0 <= k < i && participates(history@[k]) && history@[k].value == Some(w))
                    && (forall|k: int|
                    0 <= k < i && participates(history@[k]) ==> history@[k].value == Some(w)),
            },
        decreases history.len() - i,
    {
        let s = history[i];
        if s.decided && !s.is_faulty {
            match s.value {
                Some(v) => {
                    match witness {
                        None => {
                            witness = Some(v);
                        },
                        Some(w) => {
                            if w != v {
                                proof {
                                    let k0 = choose|k: int|
                                        0 <= k < i && participates(history@[k]) && history@[k].value
                                            == Some(w);
                                    assert(participates(history@[i as int]));
                                    assert(!spec_agreement(history@)) by {
                                        assert(history@[k0].value != history@[i as int].value);
                                    }
                                }
                                return false;
                            }
                        },
                    }
                },
                None => {},
            }
        }
        i += 1;
    }
    proof {
        assert(spec_agreement(history@));
    }
    true
}

/// Model configuration for property checking over explored states.
#[derive(Clone, Copy, Debug, PartialEq, Eq, Structural)]
pub struct ConsensusModel {
    pub num_nodes: usize,
    pub max_faults: usize,
}

impl ConsensusModel {
    pub fn new(num_nodes: usize, max_faults: usize) -> (r: ConsensusModel)
        ensures
            r.num_nodes == num_nodes,
            r.max_faults == max_faults,
    {
        ConsensusModel { num_nodes, max_faults }
    }

    /// Check the agreement safety property over a vector of replica states.
    pub fn check_agreement(&self, history: &[ConsensusNodeState]) -> (r: bool)
        ensures
            r == spec_agreement(history@),
    {
        agreement_holds(history)
    }

    /// Check that a replica did not decide before its commit tally for the
    /// decided value reached its quorum.
    pub fn check_no_premature_decision(&self, state: &ConsensusNodeState) -> (r: bool)
        ensures
            r == spec_no_premature(*state),
    {
        if state.state == NodeState::Decided {
            match state.value {
                Some(v) => state.commit_count.get(v) >= state.quorum_size,
                None => false,
            }
        } else {
            true
        }
    }
}

/// Evaluate one property of the closed set on a vector of replica states.
pub fn eval_prop(p: PropertyKind, nodes: &Vec<ConsensusNodeState>) -> (r: bool)
    ensures
        r == spec_eval_prop(p, nodes@),
{
    match p {
        PropertyKind::Agreement => agreement_holds(nodes.as_slice()),
        PropertyKind::NoPrematureDecision => {
            let mut i: usize = 0;
            while i < nodes.len()
                invariant
                    p == PropertyKind::NoPrematureDecision,
                    i <= nodes.len(),
                    forall|k: int| 0 <= k < i ==> spec_no_premature(nodes@[k]),
                decreases nodes.len() - i,
            {
                let s = &nodes[i];
                if s.state == NodeState::Decided {
                    let ok = match s.value {
                        Some(v) => s.commit_count.get(v) >= s.quorum_size,
                        None => false,
                    };
                    if !ok {
                        proof {
                            assert(!spec_eval_prop(p, nodes@)) by {
                                assert(!spec_no_premature(nodes@[i as int]));
                            }
                        }
                        return false;
                    }
                }
                i += 1;
            }
            true
        },
        PropertyKind::SomeNodeDecided => {
            let mut i: usize = 0;
            while i < nodes.len()
                invariant
                    p == PropertyKind::SomeNodeDecided,
                    i <= nodes.len(),
                    forall|k: int| 0 <= k < i ==> !(!nodes@[k].is_faulty && nodes@[k].decided),
                decreases nodes.len() - i,
            {
                if !nodes[i].is_faulty && nodes[i].decided {
                    proof {
                        assert(spec_eval_prop(p, nodes@)) by {
                            assert((i as int) < nodes@.len() && !nodes@[i as int].is_faulty
                                && nodes@[i as int].decided);
                        }
                    }
                    return true;
                }
                i += 1;
            }
            false
        },
        PropertyKind::FailedOnlyIfFaulty => {
            let mut i: usize = 0;
            while i < nodes.len()
                invariant
                    p == PropertyKind::FailedOnlyIfFaulty,
                    i <= nodes.len(),
                    forall|k: int|
                        0 <= k < i ==> (nodes@[k].state == NodeState::Failed
                            ==> nodes@[k].is_faulty),
                decreases nodes.len() - i,
            {
                if nodes[i].state == NodeState::Failed && !nodes[i].is_faulty {
                    proof {
                        assert(!spec_eval_prop(p, nodes@)) by {
                            assert(nodes@[i as int].state == NodeState::Failed
                                && !nodes@[i as int].is_faulty);
                        }
                    }
                    return false;
                }
                i += 1;
            }
            true
        },
    }
}

} // verus!
