use consensus_mc::node::{ConsensusActor, ConsensusNodeState, Tally};
use consensus_mc::props::ConsensusModel;
use consensus_mc::value::{ConsensusTimer, Envelope, MessageType, NodeState, Value};

#[test]
fn test_initial_state() {
    let state = ConsensusNodeState::new(0, 3);
    assert_eq!(state.state, NodeState::Init);
    assert_eq!(state.value, None);
    assert!(!state.decided);
}

#[test]
fn test_quorum_logic() {
    let state = ConsensusNodeState::new(0, 3);
    assert!(!state.has_quorum(2));
    assert!(state.has_quorum(3));
    assert!(state.has_quorum(4));
}

#[test]
fn test_agreement_property() {
    let model = ConsensusModel::new(5, 2);

    let mut state1 = ConsensusNodeState::new(0, 3);
    state1.value = Some(Value::V1);
    state1.decided = true;

    let mut state2 = ConsensusNodeState::new(1, 3);
    state2.value = Some(Value::V1);
    state2.decided = true;

    assert!(model.check_agreement(&[state1.clone(), state2.clone()]));

    state2.value = Some(Value::V2);
    assert!(!model.check_agreement(&[state1, state2]));
}

#[test]
fn test_consensus_model() {
    let model = ConsensusModel::new(5, 2);

    let mut state1 = ConsensusNodeState::new(0, 3);
    state1.decided = true;
    state1.value = Some(Value::V1);

    let mut state2 = ConsensusNodeState::new(1, 3);
    state2.decided = true;
    state2.value = Some(Value::V1);

    assert!(model.check_agreement(&[state1, state2]));
}

#[test]
fn test_no_premature_decision() {
    let model = ConsensusModel::new(5, 2);

    let mut state = ConsensusNodeState::new(0, 3);
    state.state = NodeState::Decided;
    state.value = Some(Value::V1);
    state.commit_count.insert(Value::V1, 2);

    assert!(!model.check_no_premature_decision(&state));

    state.commit_count.insert(Value::V1, 3);
    assert!(model.check_no_premature_decision(&state));
}

#[test]
fn test_tally_counts_per_value() {
    let mut t = Tally::new();
    assert_eq!(t.get(Value::V1), 0);
    assert_eq!(t.get(Value::V2), 0);
    assert_eq!(t.get(Value::V3), 0);
    t.insert(Value::V2, 4);
    assert_eq!(t.get(Value::V1), 0);
    assert_eq!(t.get(Value::V2), 4);
    assert_eq!(t.get(Value::V3), 0);
}

#[test]
fn test_on_start_proposer_seeds_all_values() {
    let actor = ConsensusActor::new(vec![0, 1, 2], 3);
    let (state, sends) = actor.on_start(0);
    assert_eq!(state.state, NodeState::Init);
    assert!(!state.is_faulty);
    // one Propose per value per peer, peer-by-peer for each value
    assert_eq!(sends.len(), 9);
    for (vi, v) in [Value::V1, Value::V2, Value::V3].into_iter().enumerate() {
        for p in 0..3usize {
            assert_eq!(sends[vi * 3 + p], Envelope { to: p, msg: MessageType::Propose(v) });
        }
    }
}

#[test]
fn test_on_start_non_proposer_is_silent() {
    let actor = ConsensusActor::new(vec![0, 1, 2], 3);
    let (state, sends) = actor.on_start(1);
    assert_eq!(state.state, NodeState::Init);
    assert!(sends.is_empty());
}

#[test]
fn test_on_start_faulty_node_fails_silently() {
    let actor = ConsensusActor::with_faults(vec![0, 1, 2], vec![2], 3);
    let (state, sends) = actor.on_start(2);
    assert_eq!(state.state, NodeState::Failed);
    assert!(state.is_faulty);
    assert!(sends.is_empty());
}

#[test]
fn test_propose_latches_and_broadcasts_prepare() {
    let actor = ConsensusActor::new(vec![0, 1], 2);
    let state = ConsensusNodeState::new(0, 2);
    let (s2, sends) = actor.on_msg(&state, &MessageType::Propose(Value::V2));
    assert_eq!(s2.value, Some(Value::V2));
    assert_eq!(s2.state, NodeState::Init);
    assert_eq!(s2.prepare_count.get(Value::V2), 1);
    assert_eq!(
        sends,
        vec![
            Envelope { to: 0, msg: MessageType::Prepare(Value::V2) },
            Envelope { to: 1, msg: MessageType::Prepare(Value::V2) },
        ]
    );
    // a second proposal is refused: the value is latched
    let (s3, sends2) = actor.on_msg(&s2, &MessageType::Propose(Value::V1));
    assert_eq!(s3, s2);
    assert!(sends2.is_empty());
}

#[test]
fn test_prepare_quorum_moves_to_prepared() {
    let actor = ConsensusActor::new(vec![0, 1], 2);
    let state = ConsensusNodeState::new(0, 2);
    let (s1, _) = actor.on_msg(&state, &MessageType::Propose(Value::V1));
    // second PREPARE for the latched value reaches the quorum of two
    let (s2, sends) = actor.on_msg(&s1, &MessageType::Prepare(Value::V1));
    assert_eq!(s2.state, NodeState::Prepared);
    assert_eq!(s2.prepare_count.get(Value::V1), 2);
    assert_eq!(s2.commit_count.get(Value::V1), 1);
    assert_eq!(
        sends,
        vec![
            Envelope { to: 0, msg: MessageType::Commit(Value::V1) },
            Envelope { to: 1, msg: MessageType::Commit(Value::V1) },
        ]
    );
    // a PREPARE for another value is ignored
    let (s3, sends2) = actor.on_msg(&s2, &MessageType::Prepare(Value::V3));
    assert_eq!(s3, s2);
    assert!(sends2.is_empty());
}

#[test]
fn test_commit_quorum_moves_to_committed_then_decide() {
    let actor = ConsensusActor::new(vec![0, 1], 2);
    let state = ConsensusNodeState::new(0, 2);
    let (s1, _) = actor.on_msg(&state, &MessageType::Propose(Value::V1));
    let (s2, _) = actor.on_msg(&s1, &MessageType::Prepare(Value::V1));
    let (s3, sends) = actor.on_msg(&s2, &MessageType::Commit(Value::V1));
    assert_eq!(s3.state, NodeState::Committed);
    assert_eq!(s3.commit_count.get(Value::V1), 2);
    assert_eq!(
        sends,
        vec![
            Envelope { to: 0, msg: MessageType::Decide(Value::V1) },
            Envelope { to: 1, msg: MessageType::Decide(Value::V1) },
        ]
    );
    let (s4, sends2) = actor.on_msg(&s3, &MessageType::Decide(Value::V1));
    assert_eq!(s4.state, NodeState::Decided);
    assert!(s4.decided);
    assert!(sends2.is_empty());
    // a repeated DECIDE is ignored once decided
    let (s5, sends3) = actor.on_msg(&s4, &MessageType::Decide(Value::V1));
    assert_eq!(s5, s4);
    assert!(sends3.is_empty());
}

#[test]
fn test_on_msg_idempotent_when_guard_false() {
    let actor = ConsensusActor::new(vec![0, 1], 2);
    let state = ConsensusNodeState::new(0, 2);
    let (s1, _) = actor.on_msg(&state, &MessageType::Propose(Value::V1));
    // a PREPARE for a value the node never latched: guard false, no-op
    let (once, sends1) = actor.on_msg(&s1, &MessageType::Prepare(Value::V2));
    assert_eq!(once, s1);
    assert!(sends1.is_empty());
    let (twice, sends2) = actor.on_msg(&once, &MessageType::Prepare(Value::V2));
    assert_eq!(twice, once);
    assert!(sends2.is_empty());
    // a COMMIT outside the Prepared phase: guard false, no-op twice
    let (c1, _) = actor.on_msg(&s1, &MessageType::Commit(Value::V1));
    let (c2, _) = actor.on_msg(&c1, &MessageType::Commit(Value::V1));
    assert_eq!(c1, s1);
    assert_eq!(c2, c1);
}

#[test]
fn test_faulty_node_ignores_messages_and_timers() {
    let actor = ConsensusActor::with_faults(vec![0, 1], vec![1], 2);
    let (state, _) = actor.on_start(1);
    for msg in [
        MessageType::Propose(Value::V1),
        MessageType::Prepare(Value::V1),
        MessageType::Commit(Value::V1),
        MessageType::Decide(Value::V1),
    ] {
        let (s2, sends) = actor.on_msg(&state, &msg);
        assert_eq!(s2, state);
        assert!(sends.is_empty());
    }
    let (s3, sends) = actor.on_timeout(&state, &ConsensusTimer::ProposeValue(Value::V2));
    assert_eq!(s3, state);
    assert!(sends.is_empty());
}

#[test]
fn test_timer_proposes_once_from_init() {
    let actor = ConsensusActor::new(vec![0, 1], 2);
    let state = ConsensusNodeState::new(1, 2);
    let (s1, sends) = actor.on_timeout(&state, &ConsensusTimer::ProposeValue(Value::V3));
    assert!(s1.has_proposed);
    assert_eq!(
        sends,
        vec![
            Envelope { to: 0, msg: MessageType::Propose(Value::V3) },
            Envelope { to: 1, msg: MessageType::Propose(Value::V3) },
        ]
    );
    // firing again is a no-op: the node already proposed
    let (s2, sends2) = actor.on_timeout(&s1, &ConsensusTimer::ProposeValue(Value::V3));
    assert_eq!(s2, s1);
    assert!(sends2.is_empty());
}

#[test]
fn test_no_premature_decision_without_value() {
    let model = ConsensusModel::new(3, 0);
    let mut state = ConsensusNodeState::new(0, 2);
    state.state = NodeState::Decided;
    // decided with no latched value is always premature
    assert!(!model.check_no_premature_decision(&state));
    // and a non-decided node is never premature
    let idle = ConsensusNodeState::new(1, 2);
    assert!(model.check_no_premature_decision(&idle));
}

#[test]
fn test_agreement_ignores_faulty_and_undecided() {
    let model = ConsensusModel::new(3, 1);
    let mut a = ConsensusNodeState::new(0, 3);
    a.decided = true;
    a.value = Some(Value::V1);
    let mut b = ConsensusNodeState::new(1, 3);
    b.decided = true;
    b.value = Some(Value::V2);
    b.is_faulty = true;
    let mut c = ConsensusNodeState::new(2, 3);
    c.value = Some(Value::V2);
    // the faulty node and the undecided node do not break agreement
    assert!(model.check_agreement(&[a, b, c]));
}

#[test]
fn test_phase_never_regresses_on_late_messages() {
    let actor = ConsensusActor::new(vec![0, 1], 2);
    let state = ConsensusNodeState::new(0, 2);
    let (s1, _) = actor.on_msg(&state, &MessageType::Propose(Value::V1));
    let (s2, _) = actor.on_msg(&s1, &MessageType::Prepare(Value::V1));
    let (s3, _) = actor.on_msg(&s2, &MessageType::Commit(Value::V1));
    let (s4, _) = actor.on_msg(&s3, &MessageType::Decide(Value::V1));
    assert_eq!(s4.state, NodeState::Decided);
    // late messages raise tallies at most; the phase stays Decided
    let (s5, _) = actor.on_msg(&s4, &MessageType::Prepare(Value::V1));
    assert_eq!(s5.state, NodeState::Decided);
    assert_eq!(s5.prepare_count.get(Value::V1), 3);
    let (s6, _) = actor.on_msg(&s5, &MessageType::Propose(Value::V2));
    assert_eq!(s6.state, NodeState::Decided);
    assert_eq!(s6.value, Some(Value::V1));
}
