//! The per-replica protocol state machine: a pure transition function from
//! (local state, event) to (new local state, outgoing messages), enforcing a
//! quorum gate between phases.

use vstd::prelude::*;

use crate::value::{
    ConsensusTimer, Envelope, MessageType, NodeId, NodeState, Value, phase_rank,
};

verus! {

/// A per-value tally of received messages over the closed value domain.
#[derive(Clone, Copy, Debug, PartialEq, Eq, Structural, Hash)]
pub struct Tally {
    pub n1: usize,
    pub n2: usize,
    pub n3: usize,
}

impl Tally {
    /// The tally with every count zero.
    pub open spec fn spec_empty() -> Tally {
        Tally { n1: 0, n2: 0, n3: 0 }
    }

    /// The count recorded for `v`.
    pub open spec fn spec_count(self, v: Value) -> usize {
        match v {
            Value::V1 => self.n1,
            Value::V2 => self.n2,
            Value::V3 => self.n3,
        }
    }

    /// The tally with the count for `v` replaced by `c`.
    pub open spec fn spec_insert(self, v: Value, c: usize) -> Tally {
        match v {
            Value::V1 => Tally { n1: c, ..self },
            Value::V2 => Tally { n2: c, ..self },
            Value::V3 => Tally { n3: c, ..self },
        }
    }

    pub fn new() -> (r: Tally)
        ensures
            r == Tally::spec_empty(),
    {
        Tally { n1: 0, n2: 0, n3: 0 }
    }

    /// The count recorded for `v` (zero if never set).
    pub fn get(&self, v: Value) -> (r: usize)
        ensures
            r == self.spec_count(v),
    {
        match v {
            Value::V1 => self.n1,
            Value::V2 => self.n2,
            Value::V3 => self.n3,
        }
    }

    /// Replace the count recorded for `v` by `c`.
    pub fn insert(&mut self, v: Value, c: usize)
        ensures
            *final(self) == old(self).spec_insert(v, c),
    {
        match v {
            Value::V1 => self.n1 = c,
            Value::V2 => self.n2 = c,
            Value::V3 => self.n3 = c,
        }
    }
}

/// A count incremented by one, saturating at the machine limit so that the
/// transition function is total; protocol runs keep counts far below it.
pub open spec fn bump(c: usize) -> usize {
    if c < usize::MAX {
        (c + 1) as usize
    } else {
        c
    }
}

pub fn bump_ex(c: usize) -> (r: usize)
    ensures
        r == bump(c),
{
    if c < usize::MAX {
        c + 1
    } else {
        c
    }
}

/// The local state of one replica.
#[derive(Clone, Copy, Debug, PartialEq, Eq, Structural, Hash)]
pub struct ConsensusNodeState {
    pub id: NodeId,
    pub state: NodeState,
    pub value: Option<Value>,
    pub prepare_count: Tally,
    pub commit_count: Tally,
    pub decided: bool,
    pub quorum_size: usize,
    pub is_faulty: bool,
    pub has_proposed: bool,
}

impl ConsensusNodeState {
    /// The fresh state a non-faulty replica starts from.
    pub open spec fn spec_new(id: NodeId, quorum_size: usize) -> ConsensusNodeState {
        ConsensusNodeState {
            id,
            state: NodeState::Init,
            value: None,
            prepare_count: Tally::spec_empty(),
            commit_count: Tally::spec_empty(),
            decided: false,
            quorum_size,
            is_faulty: false,
            has_proposed: false,
        }
    }

    pub fn new(id: NodeId, quorum_size: usize) -> (r: ConsensusNodeState)
        ensures
            r == ConsensusNodeState::spec_new(id, quorum_size),
    {
        ConsensusNodeState {
            id,
            state: NodeState::Init,
            value: None,
            prepare_count: Tally::new(),
            commit_count: Tally::new(),
            decided: false,
            quorum_size,
            is_faulty: false,
            has_proposed: false,
        }
    }

    /// Whether `count` matching messages reach this replica's quorum.
    pub fn has_quorum(&self, count: usize) -> (r: bool)
        ensures
            r == (count >= self.quorum_size),
    {
        count >= self.quorum_size
    }
}

/// One copy of `m` addressed to every peer (the sender included).
pub open spec fn spec_broadcast(peers: Seq<NodeId>, m: MessageType) -> Seq<Envelope> {
    Seq::new(peers.len(), |i: int| Envelope { to: peers[i], msg: m })
}

/// The proposals the designated proposer seeds the network with: one
/// `Propose(v)` per peer for each value in `values`.
pub open spec fn spec_initial_sends(peers: Seq<NodeId>, values: Seq<Value>) -> Seq<Envelope>
    decreases values.len(),
{
    if values.len() == 0 {
        Seq::empty()
    } else {
        spec_broadcast(peers, MessageType::Propose(values[0])) + spec_initial_sends(
            peers,
            values.drop_first(),
        )
    }
}

pub proof fn lemma_initial_sends_push(peers: Seq<NodeId>, values: Seq<Value>, v: Value)
    ensures
        spec_initial_sends(peers, values.push(v)) == spec_initial_sends(peers, values)
            + spec_broadcast(peers, MessageType::Propose(v)),
    decreases values.len(),
{
    if values.len() == 0 {
        let vp = values.push(v);
        assert(vp[0] == v);
        assert(vp.drop_first() =~= Seq::<Value>::empty());
        assert(spec_initial_sends(peers, Seq::<Value>::empty()) == Seq::<Envelope>::empty());
        assert(spec_initial_sends(peers, vp) == spec_broadcast(peers, MessageType::Propose(v))
            + Seq::<Envelope>::empty());
        assert(spec_initial_sends(peers, vp) =~= spec_initial_sends(peers, values)
            + spec_broadcast(peers, MessageType::Propose(v)));
    } else {
        let vp = values.push(v);
        assert(vp.drop_first() =~= values.drop_first().push(v));
        assert(vp[0] == values[0]);
        lemma_initial_sends_push(peers, values.drop_first(), v);
        assert(spec_initial_sends(peers, vp) == spec_broadcast(
            peers,
            MessageType::Propose(values[0]),
        ) + (spec_initial_sends(peers, values.drop_first()) + spec_broadcast(
            peers,
            MessageType::Propose(v),
        )));
        assert(spec_initial_sends(peers, vp) =~= spec_initial_sends(peers, values)
            + spec_broadcast(peers, MessageType::Propose(v)));
    }
}

/// Broadcast `m` to every peer in order.
pub fn broadcast(peers: &Vec<NodeId>, m: MessageType) -> (r: Vec<Envelope>)
    ensures
        r@ == spec_broadcast(peers@, m),
{
    let mut r: Vec<Envelope> = Vec::new();
    let mut i: usize = 0;
    while i < peers.len()
        invariant
            i <= peers.len(),
            r@.len() == i,
            forall|k: int| 0 <= k < i ==> r@[k] == (Envelope { to: peers@[k], msg: m }),
        decreases peers.len() - i,
    {
        r.push(Envelope { to: peers[i], msg: m });
        i += 1;
    }
    proof {
        assert(r@ =~= spec_broadcast(peers@, m));
    }
    r
}

/// Whether `x` occurs in `ids`.
pub fn contains_id(ids: &Vec<NodeId>, x: NodeId) -> (r: bool)
    ensures
        r == ids@.contains(x),
{
    let mut i: usize = 0;
    while i < ids.len()
        invariant
            i <= ids.len(),
            forall|k: int| 0 <= k < i ==> ids@[k] != x,
        decreases ids.len() - i,
    {
        if ids[i] == x {
            return true;
        }
        i += 1;
    }
    false
}

/// The immutable configuration a replica runs under: its peers, the set of
/// crash-at-start replicas, the quorum threshold, and the values the
/// designated proposer seeds the network with.
#[derive(Clone, Debug)]
pub struct ConsensusActor {
    pub peers: Vec<NodeId>,
    pub faulty_nodes: Vec<NodeId>,
    pub quorum_size: usize,
    pub proposal_values: Vec<Value>,
}

/// The guard of the transition table for an incoming message: when it is
/// false the message leaves the replica unchanged and nothing is sent.
pub open spec fn msg_guard(s: ConsensusNodeState, m: MessageType) -> bool {
    !s.is_faulty && match m {
        MessageType::Propose(_) => s.state == NodeState::Init && s.value is None,
        MessageType::Prepare(v) => s.value == Some(v),
        MessageType::Commit(v) => s.state == NodeState::Prepared && s.value == Some(v),
        MessageType::Decide(v) => s.value == Some(v) && !s.decided,
    }
}

impl ConsensusActor {
    pub fn new(peers: Vec<NodeId>, quorum_size: usize) -> (r: ConsensusActor)
        ensures
            r.peers@ == peers@,
            r.faulty_nodes@ == Seq::<NodeId>::empty(),
            r.quorum_size == quorum_size,
            r.proposal_values@ == seq![Value::V1, Value::V2, Value::V3],
    {
        let r = ConsensusActor {
            peers,
            faulty_nodes: Vec::new(),
            quorum_size,
            proposal_values: vec![Value::V1, Value::V2, Value::V3],
        };
        proof {
            assert(r.proposal_values@ =~= seq![Value::V1, Value::V2, Value::V3]);
        }
        r
    }

    pub fn with_faults(peers: Vec<NodeId>, faulty_nodes: Vec<NodeId>, quorum_size: usize) -> (r:
        ConsensusActor)
        ensures
            r.peers@ == peers@,
            r.faulty_nodes@ == faulty_nodes@,
            r.quorum_size == quorum_size,
            r.proposal_values@ == seq![Value::V1, Value::V2, Value::V3],
    {
        let r = ConsensusActor {
            peers,
            faulty_nodes,
            quorum_size,
            proposal_values: vec![Value::V1, Value::V2, Value::V3],
        };
        proof {
            assert(r.proposal_values@ =~= seq![Value::V1, Value::V2, Value::V3]);
        }
        r
    }

    /// The same configuration with the proposer seeding `values` instead of
    /// the whole value domain.
    pub fn with_proposals(self, values: Vec<Value>) -> (r: ConsensusActor)
        ensures
            r.peers@ == self.peers@,
            r.faulty_nodes@ == self.faulty_nodes@,
            r.quorum_size == self.quorum_size,
            r.proposal_values@ == values@,
    {
        ConsensusActor { proposal_values: values, ..self }
    }

    /// The start transition: a crashed replica begins `Failed` and silent; a
    /// designated proposer (id 0) seeds one proposal per configured value per
    /// peer; every other replica begins `Init` and silent.
    pub open spec fn spec_on_start(self, id: NodeId) -> (ConsensusNodeState, Seq<Envelope>) {
        let base = ConsensusNodeState::spec_new(id, self.quorum_size);
        if self.faulty_nodes@.contains(id) {
            (
                ConsensusNodeState { is_faulty: true, state: NodeState::Failed, ..base },
                Seq::empty(),
            )
        } else if id == 0 {
            (base, spec_initial_sends(self.peers@, self.proposal_values@))
        } else {
            (base, Seq::empty())
        }
    }

    /// The message transition table. A false guard is a no-op; otherwise:
    /// a first `Propose(v)` latches `v` and broadcasts `Prepare(v)` with a
    /// self-credit of one; a matching `Prepare(v)` raises the prepare tally
    /// and, at quorum from `Init`, moves to `Prepared` and broadcasts
    /// `Commit(v)` with a self-credit; a matching `Commit(v)` in `Prepared`
    /// raises the commit tally and, at quorum, moves to `Committed` and
    /// broadcasts `Decide(v)`; a matching first `Decide(v)` finalises.
    pub open spec fn spec_on_msg(self, s: ConsensusNodeState, m: MessageType) -> (
        ConsensusNodeState,
        Seq<Envelope>,
    ) {
        if !msg_guard(s, m) {
            (s, Seq::empty())
        } else {
            match m {
                MessageType::Propose(v) => (
                    ConsensusNodeState {
                        value: Some(v),
                        prepare_count: s.prepare_count.spec_insert(v, 1),
                        ..s
                    },
                    spec_broadcast(self.peers@, MessageType::Prepare(v)),
                ),
                MessageType::Prepare(v) => {
                    let t = bump(s.prepare_count.spec_count(v));
                    let s1 = ConsensusNodeState {
                        prepare_count: s.prepare_count.spec_insert(v, t),
                        ..s
                    };
                    if t >= s.quorum_size && s.state == NodeState::Init {
                        (
                            ConsensusNodeState {
                                state: NodeState::Prepared,
                                commit_count: s.commit_count.spec_insert(v, 1),
                                ..s1
                            },
                            spec_broadcast(self.peers@, MessageType::Commit(v)),
                        )
                    } else {
                        (s1, Seq::empty())
                    }
                },
                MessageType::Commit(v) => {
                    let t = bump(s.commit_count.spec_count(v));
                    let s1 = ConsensusNodeState {
                        commit_count: s.commit_count.spec_insert(v, t),
                        ..s
                    };
                    if t >= s.quorum_size {
                        (
                            ConsensusNodeState { state: NodeState::Committed, ..s1 },
                            spec_broadcast(self.peers@, MessageType::Decide(v)),
                        )
                    } else {
                        (s1, Seq::empty())
                    }
                },
                MessageType::Decide(_) => (
                    ConsensusNodeState { decided: true, state: NodeState::Decided, ..s },
                    Seq::empty(),
                ),
            }
        }
    }

    /// The timer transition: a replica still in `Init` that has not proposed
    /// yet marks itself as having proposed and broadcasts `Propose(v)`.
    pub open spec fn spec_on_timeout(self, s: ConsensusNodeState, timer: ConsensusTimer) -> (
        ConsensusNodeState,
        Seq<Envelope>,
    ) {
        if s.is_faulty {
            (s, Seq::empty())
        } else {
            match timer {
                ConsensusTimer::ProposeValue(v) => {
                    if s.state == NodeState::Init && !s.has_proposed {
                        (
                            ConsensusNodeState { has_proposed: true, ..s },
                            spec_broadcast(self.peers@, MessageType::Propose(v)),
                        )
                    } else {
                        (s, Seq::empty())
                    }
                },
            }
        }
    }

    pub fn on_start(&self, id: NodeId) -> (r: (ConsensusNodeState, Vec<Envelope>))
        ensures
            r.0 == self.spec_on_start(id).0,
            r.1@ == self.spec_on_start(id).1,
    {
        let mut state = ConsensusNodeState::new(id, self.quorum_size);
        if contains_id(&self.faulty_nodes, id) {
            state.is_faulty = true;
            state.state = NodeState::Failed;
            return (state, Vec::new());
        }
        if id == 0 {
            let mut sends: Vec<Envelope> = Vec::new();
            let mut vi: usize = 0;
            while vi < self.proposal_values.len()
                invariant
                    vi <= self.proposal_values.len(),
                    sends@ == spec_initial_sends(
                        self.peers@,
                        self.proposal_values@.take(vi as int),
                    ),
                decreases self.proposal_values.len() - vi,
            {
                let mut b = broadcast(&self.peers, MessageType::Propose(self.proposal_values[vi]));
                proof {
                    lemma_initial_sends_push(
                        self.peers@,
                        self.proposal_values@.take(vi as int),
                        self.proposal_values@[vi as int],
                    );
                    assert(self.proposal_values@.take(vi + 1 as int) =~= self.proposal_values@.take(
                        vi as int,
                    ).push(self.proposal_values@[vi as int]));
                }
                sends.append(&mut b);
                vi += 1;
            }
            proof {
                assert(self.proposal_values@.take(self.proposal_values@.len() as int)
                    =~= self.proposal_values@);
            }
            (state, sends)
        } else {
            (state, Vec::new())
        }
    }

    /// Whether the transition table fires for `(state, msg)`.
    pub fn msg_enabled(&self, state: &ConsensusNodeState, msg: &MessageType) -> (r: bool)
        ensures
            r == msg_guard(*state, *msg),
    {
        if state.is_faulty {
            return false;
        }
        match msg {
            MessageType::Propose(_) => state.state == NodeState::Init && state.value.is_none(),
            MessageType::Prepare(v) => state.value == Some(*v),
            MessageType::Commit(v) => state.state == NodeState::Prepared && state.value == Some(
                *v,
            ),
            MessageType::Decide(v) => state.value == Some(*v) && !state.decided,
        }
    }

    pub fn on_msg(&self, state: &ConsensusNodeState, msg: &MessageType) -> (r: (
        ConsensusNodeState,
        Vec<Envelope>,
    ))
        ensures
            r.0 == self.spec_on_msg(*state, *msg).0,
            r.1@ == self.spec_on_msg(*state, *msg).1,
            state.is_faulty ==> r.0 == *state && r.1@ == Seq::<Envelope>::empty(),
            state.value is Some ==> r.0.value == state.value,
            state.state != NodeState::Failed ==> phase_rank(state.state) <= phase_rank(r.0.state)
                && r.0.state != NodeState::Failed,
    {
        if !self.msg_enabled(state, msg) {
            return (*state, Vec::new());
        }
        match msg {
            MessageType::Propose(v) => {
                let mut s1 = *state;
                s1.value = Some(*v);
                s1.prepare_count.insert(*v, 1);
                (s1, broadcast(&self.peers, MessageType::Prepare(*v)))
            },
            MessageType::Prepare(v) => {
                let t = bump_ex(state.prepare_count.get(*v));
                let mut s1 = *state;
                s1.prepare_count.insert(*v, t);
                if t >= state.quorum_size && state.state == NodeState::Init {
                    s1.state = NodeState::Prepared;
                    s1.commit_count.insert(*v, 1);
                    (s1, broadcast(&self.peers, MessageType::Commit(*v)))
                } else {
                    (s1, Vec::new())
                }
            },
            MessageType::Commit(v) => {
                let t = bump_ex(state.commit_count.get(*v));
                let mut s1 = *state;
                s1.commit_count.insert(*v, t);
                if t >= state.quorum_size {
                    s1.state = NodeState::Committed;
                    (s1, broadcast(&self.peers, MessageType::Decide(*v)))
                } else {
                    (s1, Vec::new())
                }
            },
            MessageType::Decide(_) => {
                let mut s1 = *state;
                s1.decided = true;
                s1.state = NodeState::Decided;
                (s1, Vec::new())
            },
        }
    }

    pub fn on_timeout(&self, state: &ConsensusNodeState, timer: &ConsensusTimer) -> (r: (
        ConsensusNodeState,
        Vec<Envelope>,
    ))
        ensures
            r.0 == self.spec_on_timeout(*state, *timer).0,
            r.1@ == self.spec_on_timeout(*state, *timer).1,
            state.is_faulty ==> r.0 == *state && r.1@ == Seq::<Envelope>::empty(),
            state.value is Some ==> r.0.value == state.value,
            phase_rank(state.state) <= phase_rank(r.0.state),
    {
        if state.is_faulty {
            return (*state, Vec::new());
        }
        match timer {
            ConsensusTimer::ProposeValue(v) => {
                if state.state == NodeState::Init && !state.has_proposed {
                    let mut s1 = *state;
                    s1.has_proposed = true;
                    (s1, broadcast(&self.peers, MessageType::Propose(*v)))
                } else {
                    (*state, Vec::new())
                }
            },
        }
    }
}

/// Law: a faulty replica is inert. Messages and timers leave its state
/// unchanged and it emits nothing.
pub proof fn lemma_faulty_inert(a: ConsensusActor, s: ConsensusNodeState, m: MessageType, t: ConsensusTimer)
    requires
        s.is_faulty,
    ensures
        a.spec_on_msg(s, m) == (s, Seq::<Envelope>::empty()),
        a.spec_on_timeout(s, t) == (s, Seq::<Envelope>::empty()),
{
}

/// Law: once a replica has latched a value, no message or timer changes it.
pub proof fn lemma_value_monotonic(a: ConsensusActor, s: ConsensusNodeState, m: MessageType, t: ConsensusTimer)
    requires
        s.value is Some,
    ensures
        a.spec_on_msg(s, m).0.value == s.value,
        a.spec_on_timeout(s, t).0.value == s.value,
{
}

/// Law: the phase never regresses along
/// `Init < Prepared < Committed < Decided`, and a replica outside `Failed`
/// never enters it by a message or timer.
pub proof fn lemma_phase_monotonic(a: ConsensusActor, s: ConsensusNodeState, m: MessageType, t: ConsensusTimer)
    requires
        s.state != NodeState::Failed,
    ensures
        phase_rank(s.state) <= phase_rank(a.spec_on_msg(s, m).0.state),
        a.spec_on_msg(s, m).0.state != NodeState::Failed,
        phase_rank(s.state) <= phase_rank(a.spec_on_timeout(s, t).0.state),
        a.spec_on_timeout(s, t).0.state != NodeState::Failed,
{
}

/// A replica whose phase is past `Init` has latched a value.
pub open spec fn phase_implies_value(s: ConsensusNodeState) -> bool {
    (s.state == NodeState::Prepared || s.state == NodeState::Committed || s.state
        == NodeState::Decided) ==> s.value is Some
}

/// Law: fresh replicas satisfy [`phase_implies_value`] and every message and
/// timer transition preserves it.
pub proof fn lemma_phase_implies_value(
    a: ConsensusActor,
    id: NodeId,
    s: ConsensusNodeState,
    m: MessageType,
    t: ConsensusTimer,
)
    ensures
        phase_implies_value(a.spec_on_start(id).0),
        phase_implies_value(s) ==> phase_implies_value(a.spec_on_msg(s, m).0),
        phase_implies_value(s) ==> phase_implies_value(a.spec_on_timeout(s, t).0),
{
}

/// Law: a message whose guard is false leaves the replica unchanged and
/// emits nothing.
pub proof fn lemma_msg_noop_when_guard_false(a: ConsensusActor, s: ConsensusNodeState, m: MessageType)
    requires
        !msg_guard(s, m),
    ensures
        a.spec_on_msg(s, m) == (s, Seq::<Envelope>::empty()),
{
}

/// Law: the message transition is idempotent on messages whose guard is
/// false: delivering such a message twice equals delivering it once.
pub proof fn lemma_msg_idempotent_when_guard_false(a: ConsensusActor, s: ConsensusNodeState, m: MessageType)
    requires
        !msg_guard(s, m),
    ensures
        a.spec_on_msg(a.spec_on_msg(s, m).0, m) == a.spec_on_msg(s, m),
{
}

} // verus!
