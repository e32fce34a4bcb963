use consensus_mc::engine::{check, replay_trace, ConfigError, ModelConfig, Verdict};
use consensus_mc::global::{add_sends, global_eq, init_state, NetworkMode};
use consensus_mc::node::ConsensusActor;
use consensus_mc::props::{eval_prop, Expectation, PropertyKind, PropertySpec};
use consensus_mc::value::{Envelope, MessageType, NodeState, Value};

fn agreement_and_liveness() -> Vec<PropertySpec> {
    vec![
        PropertySpec { kind: Expectation::Always, prop: PropertyKind::Agreement },
        PropertySpec { kind: Expectation::Always, prop: PropertyKind::FailedOnlyIfFaulty },
        PropertySpec { kind: Expectation::Sometimes, prop: PropertyKind::SomeNodeDecided },
    ]
}

#[test]
fn test_config_error_quorum_impossible() {
    let cfg = ModelConfig {
        actor: ConsensusActor::new(vec![0, 1, 2], 4),
        network: NetworkMode::UnorderedNonduplicating,
        properties: agreement_and_liveness(),
        depth_bound: 5,
        state_limit: 100,
    };
    assert!(matches!(check(&cfg), Err(ConfigError::QuorumImpossible)));
}

#[test]
fn test_config_error_empty_value_domain() {
    let cfg = ModelConfig {
        actor: ConsensusActor::new(vec![0, 1], 2).with_proposals(vec![]),
        network: NetworkMode::UnorderedNonduplicating,
        properties: agreement_and_liveness(),
        depth_bound: 5,
        state_limit: 100,
    };
    assert!(matches!(check(&cfg), Err(ConfigError::EmptyValueDomain)));
}

#[test]
fn test_config_error_no_proposer() {
    let cfg = ModelConfig {
        actor: ConsensusActor::with_faults(vec![0, 1, 2], vec![0], 3),
        network: NetworkMode::UnorderedNonduplicating,
        properties: agreement_and_liveness(),
        depth_bound: 5,
        state_limit: 100,
    };
    assert!(matches!(check(&cfg), Err(ConfigError::NoProposer)));
}

#[test]
fn test_init_state_seeds_bag() {
    let actor = ConsensusActor::new(vec![0, 1], 2);
    let g = init_state(&actor);
    assert_eq!(g.nodes.len(), 2);
    assert_eq!(g.nodes[0].state, NodeState::Init);
    assert_eq!(g.nodes[1].state, NodeState::Init);
    // the proposer seeds one Propose per value per peer
    assert_eq!(g.bag.len(), 6);
    // the bag is in canonical order: destination first, then message code
    for w in g.bag.windows(2) {
        assert!(w[0].to <= w[1].to);
    }
}

#[test]
fn test_canonical_bag_is_order_independent() {
    // seeding the same multiset of envelopes in two different orders yields
    // the same canonical bag
    let e1 = Envelope { to: 1, msg: MessageType::Prepare(Value::V1) };
    let e2 = Envelope { to: 0, msg: MessageType::Commit(Value::V2) };
    let e3 = Envelope { to: 0, msg: MessageType::Propose(Value::V1) };
    let mut bag1: Vec<Envelope> = Vec::new();
    add_sends(&mut bag1, &vec![e1, e2, e3]);
    let mut bag2: Vec<Envelope> = Vec::new();
    add_sends(&mut bag2, &vec![e3, e1, e2]);
    assert_eq!(bag1, bag2);
    assert_eq!(bag1, vec![e3, e2, e1]);
}

#[test]
fn test_reliable_two_nodes_reach_decision() {
    // a strict-quorum two-replica cluster with one seeded value: every
    // safety property holds over the whole space and a decision is witnessed
    let cfg = ModelConfig {
        actor: ConsensusActor::new(vec![0, 1], 2).with_proposals(vec![Value::V1]),
        network: NetworkMode::UnorderedNonduplicating,
        properties: agreement_and_liveness(),
        depth_bound: 30,
        state_limit: 100_000,
    };
    let report = check(&cfg).unwrap();
    assert_eq!(report.verdicts.len(), 3);
    assert!(matches!(report.verdicts[0], Verdict::Holds));
    assert!(matches!(report.verdicts[1], Verdict::Holds));
    assert!(matches!(report.verdicts[2], Verdict::Holds));
    assert!(report.states_explored > 1);
}

#[test]
fn test_crash_with_majority_quorum_still_decides() {
    // three replicas, one crashed, quorum two: the two live replicas decide
    let cfg = ModelConfig {
        actor: ConsensusActor::with_faults(vec![0, 1, 2], vec![2], 2)
            .with_proposals(vec![Value::V1]),
        network: NetworkMode::UnorderedNonduplicating,
        properties: agreement_and_liveness(),
        depth_bound: 40,
        state_limit: 300_000,
    };
    let report = check(&cfg).unwrap();
    assert!(matches!(report.verdicts[0], Verdict::Holds));
    assert!(matches!(report.verdicts[1], Verdict::Holds));
    assert!(matches!(report.verdicts[2], Verdict::Holds));
}

#[test]
fn test_crash_under_strict_quorum_unwitnessed_within_bound() {
    // five replicas, strict quorum of five, one crashed: within this depth
    // bound no explored trajectory reaches a decision
    let cfg = ModelConfig {
        actor: ConsensusActor::with_faults(vec![0, 1, 2, 3, 4], vec![4], 5),
        network: NetworkMode::UnorderedNonduplicating,
        properties: vec![
            PropertySpec { kind: Expectation::Always, prop: PropertyKind::Agreement },
            PropertySpec { kind: Expectation::Sometimes, prop: PropertyKind::SomeNodeDecided },
        ],
        depth_bound: 6,
        state_limit: 20_000,
    };
    let report = check(&cfg).unwrap();
    assert!(!matches!(report.verdicts[0], Verdict::Violated { .. }));
    assert!(matches!(report.verdicts[1], Verdict::InsufficientlyWitnessed));
}

#[test]
fn test_two_seeded_values_violate_agreement_and_replay() {
    // with quorum two, a replica's own vote is counted twice (the self-credit
    // plus the delivery of its own broadcast), so two replicas that latch
    // different seeded values decide alone and disagree
    let cfg = ModelConfig {
        actor: ConsensusActor::new(vec![0, 1], 2).with_proposals(vec![Value::V1, Value::V2]),
        network: NetworkMode::UnorderedNonduplicating,
        properties: vec![
            PropertySpec { kind: Expectation::Always, prop: PropertyKind::Agreement },
        ],
        depth_bound: 40,
        state_limit: 500_000,
    };
    let report = check(&cfg).unwrap();
    let trace = match &report.verdicts[0] {
        Verdict::Violated { trace } => trace.clone(),
        other => panic!("expected a violation, got {:?}", other),
    };
    // replaying the counterexample trace on a fresh initial state reproduces
    // the violating final state exactly
    let bad = replay_trace(&cfg.actor, cfg.network, &trace).expect("trace must replay");
    assert!(!eval_prop(PropertyKind::Agreement, &bad.nodes));
    let bad_again = replay_trace(&cfg.actor, cfg.network, &trace).expect("trace must replay");
    assert!(global_eq(&bad, &bad_again));
}

#[test]
fn test_lossy_network_keeps_safety() {
    // dropping envelopes never breaks a safety property; with every message
    // droppable a decision still exists on some branch
    let cfg = ModelConfig {
        actor: ConsensusActor::new(vec![0, 1], 2).with_proposals(vec![Value::V1]),
        network: NetworkMode::Lossy,
        properties: agreement_and_liveness(),
        depth_bound: 30,
        state_limit: 200_000,
    };
    let report = check(&cfg).unwrap();
    assert!(matches!(report.verdicts[0], Verdict::Holds));
    assert!(matches!(report.verdicts[1], Verdict::Holds));
    assert!(matches!(report.verdicts[2], Verdict::Holds));
}

#[test]
fn test_forwarded_decide_violates_premature_decision_check() {
    // a replica that receives a forwarded DECIDE finalises before its own
    // commit tally reaches the quorum, so this invariant is violated and the
    // counterexample trace replays to the violating state
    let cfg = ModelConfig {
        actor: ConsensusActor::new(vec![0, 1], 2).with_proposals(vec![Value::V1]),
        network: NetworkMode::UnorderedNonduplicating,
        properties: vec![
            PropertySpec { kind: Expectation::Always, prop: PropertyKind::NoPrematureDecision },
        ],
        depth_bound: 30,
        state_limit: 100_000,
    };
    let report = check(&cfg).unwrap();
    let trace = match &report.verdicts[0] {
        Verdict::Violated { trace } => trace.clone(),
        other => panic!("expected a violation, got {:?}", other),
    };
    let bad = replay_trace(&cfg.actor, cfg.network, &trace).expect("trace must replay");
    assert!(!eval_prop(PropertyKind::NoPrematureDecision, &bad.nodes));
}

#[test]
fn test_state_limit_yields_inconclusive() {
    let cfg = ModelConfig {
        actor: ConsensusActor::new(vec![0, 1, 2], 3),
        network: NetworkMode::UnorderedNonduplicating,
        properties: vec![
            PropertySpec { kind: Expectation::Always, prop: PropertyKind::Agreement },
        ],
        depth_bound: 30,
        state_limit: 10,
    };
    let report = check(&cfg).unwrap();
    assert_eq!(report.states_explored, 10);
    assert!(matches!(report.verdicts[0], Verdict::Inconclusive));
}

#[test]
fn test_single_replica_cluster_decides() {
    // the smallest cluster: one replica, quorum one
    let cfg = ModelConfig {
        actor: ConsensusActor::new(vec![0], 1).with_proposals(vec![Value::V3]),
        network: NetworkMode::UnorderedNonduplicating,
        properties: agreement_and_liveness(),
        depth_bound: 10,
        state_limit: 1_000,
    };
    let report = check(&cfg).unwrap();
    assert!(matches!(report.verdicts[0], Verdict::Holds));
    assert!(matches!(report.verdicts[1], Verdict::Holds));
    assert!(matches!(report.verdicts[2], Verdict::Holds));
}
