//! The exploration engine: a breadth-first traversal of the global-state
//! graph up to a depth bound, with deduplication of visited states and
//! property evaluation on every visited state.
//!
//! Every state the engine stores carries the trace of scheduler steps that
//! leads to it from the initial state, so a `Violated` verdict hands back a
//! trace whose replay provably reaches a state falsifying the property, and a
//! `Holds` verdict on an existential property is provably witnessed.

use vstd::prelude::*;

use crate::global::{
    apply_event, init_state, spec_apply_event, spec_init, spec_replay, successors, vec_dup, Event,
    GlobalState, GlobalView, NetworkMode,
};
use crate::node::{contains_id, ConsensusActor, ConsensusNodeState};
use crate::props::{eval_prop, spec_eval_prop, Expectation, PropertySpec};
use crate::value::{msg_code, msg_code_ex, phase_rank, value_index, value_index_ex, NodeState, Value};

verus! {

/// Why a run cannot start.
#[derive(Clone, Copy, Debug, PartialEq, Eq, Structural)]
pub enum ConfigError {
    /// The quorum threshold exceeds the number of replicas.
    QuorumImpossible,
    /// The proposer has no values to seed the network with.
    EmptyValueDomain,
    /// The designated proposer is in the faulty set, so no replica proposes.
    NoProposer,
}

/// The outcome of one property over one exploration.
#[derive(Clone, Debug)]
pub enum Verdict {
    /// An `Always` property that no visited state falsified, with the whole
    /// bounded space drained; or a `Sometimes` property with a witness.
    Holds,
    /// An `Always` property falsified by the state this trace leads to.
    Violated { trace: Vec<Event> },
    /// The depth or state limit cut exploration short, so an unviolated
    /// `Always` property is not confirmed.
    Inconclusive,
    /// No visited state satisfied this `Sometimes` property.
    InsufficientlyWitnessed,
}

/// What one exploration found.
#[derive(Clone, Debug)]
pub struct Report {
    pub states_explored: u64,
    pub max_depth: usize,
    pub verdicts: Vec<Verdict>,
}

/// One checker run: the cluster configuration, the scheduler's network mode,
/// the properties to evaluate, and the exploration bounds.
#[derive(Clone, Debug)]
pub struct ModelConfig {
    pub actor: ConsensusActor,
    pub network: NetworkMode,
    pub properties: Vec<PropertySpec>,
    pub depth_bound: usize,
    pub state_limit: usize,
}

/// The quorum threshold cannot be met by any set of replicas.
pub open spec fn quorum_impossible(cfg: ModelConfig) -> bool {
    cfg.actor.quorum_size > cfg.actor.peers@.len()
}

/// The proposer would seed nothing.
pub open spec fn empty_value_domain(cfg: ModelConfig) -> bool {
    cfg.actor.proposal_values@.len() == 0
}

/// The designated proposer (id 0) is crashed at start.
pub open spec fn no_proposer(cfg: ModelConfig) -> bool {
    cfg.actor.faulty_nodes@.contains(0usize)
}

/// Replaying `t` from the initial state of `a` reaches a state satisfying
/// property `p`.
pub open spec fn reaches_witness(
    a: ConsensusActor,
    mode: NetworkMode,
    p: crate::props::PropertyKind,
    t: Seq<Event>,
) -> bool {
    match spec_replay(a, mode, spec_init(a), t) {
        Some(w) => spec_eval_prop(p, w.nodes),
        None => false,
    }
}

/// What each verdict guarantees about the run it came from.
pub open spec fn verdict_sound(cfg: ModelConfig, ps: PropertySpec, v: Verdict) -> bool {
    match v {
        Verdict::Violated { trace } => {
            &&& ps.kind == Expectation::Always
            &&& match spec_replay(cfg.actor, cfg.network, spec_init(cfg.actor), trace@) {
                Some(bad) => !spec_eval_prop(ps.prop, bad.nodes),
                None => false,
            }
        },
        Verdict::Holds => ps.kind == Expectation::Sometimes ==> exists|t: Seq<Event>|
            #[trigger] reaches_witness(cfg.actor, cfg.network, ps.prop, t),
        _ => true,
    }
}

/// One rotate-and-xor step of the state fingerprint.
pub open spec fn spec_mix(h: u64, x: u64) -> u64 {
    ((h << 7) | (h >> 57)) ^ x
}

fn mix(h: u64, x: u64) -> (r: u64)
    ensures
        r == spec_mix(h, x),
{
    ((h << 7) | (h >> 57)) ^ x
}

pub open spec fn b2u(b: bool) -> u64 {
    if b {
        1
    } else {
        0
    }
}

pub open spec fn spec_opt_code(v: Option<Value>) -> u64 {
    match v {
        None => 0,
        Some(x) => (1 + value_index(x)) as u64,
    }
}

fn opt_code(v: Option<Value>) -> (r: u64)
    ensures
        r == spec_opt_code(v),
{
    match v {
        None => 0,
        Some(x) => 1 + (value_index_ex(x) as u64),
    }
}

/// A replica state folded into the fingerprint, every field included, so the
/// fingerprint does not depend on anything but the state's value.
pub open spec fn spec_node_mix(h: u64, s: ConsensusNodeState) -> u64 {
    let h1 = spec_mix(h, s.id as u64);
    let h2 = spec_mix(h1, phase_rank(s.state) as u64);
    let h3 = spec_mix(h2, spec_opt_code(s.value));
    let h4 = spec_mix(h3, s.prepare_count.n1 as u64);
    let h5 = spec_mix(h4, s.prepare_count.n2 as u64);
    let h6 = spec_mix(h5, s.prepare_count.n3 as u64);
    let h7 = spec_mix(h6, s.commit_count.n1 as u64);
    let h8 = spec_mix(h7, s.commit_count.n2 as u64);
    let h9 = spec_mix(h8, s.commit_count.n3 as u64);
    let h10 = spec_mix(h9, b2u(s.decided));
    let h11 = spec_mix(h10, s.quorum_size as u64);
    let h12 = spec_mix(h11, b2u(s.is_faulty));
    spec_mix(h12, b2u(s.has_proposed))
}

fn phase_code(p: NodeState) -> (r: u64)
    ensures
        r as int == phase_rank(p),
{
    match p {
        NodeState::Init => 0,
        NodeState::Prepared => 1,
        NodeState::Committed => 2,
        NodeState::Decided => 3,
        NodeState::Failed => 4,
    }
}

fn node_mix(h: u64, s: &ConsensusNodeState) -> (r: u64)
    ensures
        r == spec_node_mix(h, *s),
{
    let h1 = mix(h, s.id as u64);
    let h2 = mix(h1, phase_code(s.state));
    let h3 = mix(h2, opt_code(s.value));
    let h4 = mix(h3, s.prepare_count.n1 as u64);
    let h5 = mix(h4, s.prepare_count.n2 as u64);
    let h6 = mix(h5, s.prepare_count.n3 as u64);
    let h7 = mix(h6, s.commit_count.n1 as u64);
    let h8 = mix(h7, s.commit_count.n2 as u64);
    let h9 = mix(h8, s.commit_count.n3 as u64);
    let h10 = mix(h9, if s.decided { 1 } else { 0 });
    let h11 = mix(h10, s.quorum_size as u64);
    let h12 = mix(h11, if s.is_faulty { 1 } else { 0 });
    mix(h12, if s.has_proposed { 1 } else { 0 })
}

pub open spec fn spec_env_mix(h: u64, e: crate::value::Envelope) -> u64 {
    spec_mix(spec_mix(h, e.to as u64), msg_code(e.msg) as u64)
}

fn env_mix(h: u64, e: &crate::value::Envelope) -> (r: u64)
    ensures
        r == spec_env_mix(h, *e),
{
    mix(mix(h, e.to as u64), msg_code_ex(e.msg) as u64)
}

pub open spec fn spec_fp_nodes(h0: u64, nodes: Seq<ConsensusNodeState>, k: int) -> u64
    decreases k,
{
    if k <= 0 {
        h0
    } else {
        spec_node_mix(spec_fp_nodes(h0, nodes, k - 1), nodes[k - 1])
    }
}

pub open spec fn spec_fp_bag(h0: u64, bag: Seq<crate::value::Envelope>, k: int) -> u64
    decreases k,
{
    if k <= 0 {
        h0
    } else {
        spec_env_mix(spec_fp_bag(h0, bag, k - 1), bag[k - 1])
    }
}

/// A deterministic fingerprint of a global state, used only to bucket the
/// visited set; equality of states is always re-checked in full.
pub open spec fn spec_fingerprint(g: GlobalView) -> u64 {
    spec_fp_bag(
        spec_fp_nodes(0xcbf29ce484222325u64, g.nodes, g.nodes.len() as int),
        g.bag,
        g.bag.len() as int,
    )
}

fn fingerprint(g: &GlobalState) -> (r: u64)
    ensures
        r == spec_fingerprint(g@),
{
    let mut h: u64 = 0xcbf29ce484222325u64;
    let mut i: usize = 0;
    while i < g.nodes.len()
        invariant
            i <= g@.nodes.len(),
            h == spec_fp_nodes(0xcbf29ce484222325u64, g@.nodes, i as int),
        decreases g@.nodes.len() - i,
    {
        h = node_mix(h, &g.nodes[i]);
        i += 1;
    }
    let ghost hn = h;
    let mut j: usize = 0;
    while j < g.bag.len()
        invariant
            j <= g@.bag.len(),
            h == spec_fp_bag(hn, g@.bag, j as int),
            hn == spec_fp_nodes(0xcbf29ce484222325u64, g@.nodes, g@.nodes.len() as int),
        decreases g@.bag.len() - j,
    {
        h = env_mix(h, &g.bag[j]);
        j += 1;
    }
    h
}

/// One visited state, at the depth it was first reached, with the trace of
/// scheduler steps that leads to it from the initial state.
struct Entry {
    state: GlobalState,
    depth: usize,
    trace: Vec<Event>,
}

/// Every stored entry's trace replays from the initial state to exactly the
/// stored state.
spec fn entries_sound(
    a: ConsensusActor,
    mode: NetworkMode,
    initv: GlobalView,
    entries: Seq<Entry>,
) -> bool {
    forall|k: int|
        0 <= k < entries.len() ==> spec_replay(a, mode, initv, (#[trigger] entries[k]).trace@)
            == Some(entries[k].state@)
}

/// Every recorded witness points at a stored state satisfying its property.
spec fn witnesses_sound(
    props: Seq<PropertySpec>,
    witnessed: Seq<Option<usize>>,
    entries: Seq<Entry>,
) -> bool {
    &&& witnessed.len() == props.len()
    &&& forall|p: int|
        0 <= p < props.len() ==> match #[trigger] witnessed[p] {
            Some(j) => (j as int) < entries.len() && spec_eval_prop(
                props[p].prop,
                entries[j as int].state@.nodes,
            ),
            None => true,
        }
}

/// Every bucket index points into the entry vector.
spec fn buckets_ok(buckets: Seq<Vec<usize>>, n: int) -> bool {
    forall|b: int, jj: int|
        0 <= b < buckets.len() && 0 <= jj < buckets[b]@.len() ==> (#[trigger] buckets[b]@[jj] as int)
            < n
}

/// A found violation: the property index and the trace to the bad state.
spec fn violation_sound(
    a: ConsensusActor,
    mode: NetworkMode,
    initv: GlobalView,
    props: Seq<PropertySpec>,
    violation: Option<(usize, Vec<Event>)>,
) -> bool {
    match violation {
        Some(v) => {
            &&& (v.0 as int) < props.len()
            &&& props[v.0 as int].kind == Expectation::Always
            &&& match spec_replay(a, mode, initv, v.1@) {
                Some(bad) => !spec_eval_prop(props[v.0 as int].prop, bad.nodes),
                None => false,
            }
        },
        None => true,
    }
}

/// The first `Always` property that `nodes` falsifies, if any.
fn find_violation(props: &Vec<PropertySpec>, nodes: &Vec<ConsensusNodeState>) -> (r: Option<usize>)
    ensures
        match r {
            Some(p) => (p as int) < props@.len() && props@[p as int].kind == Expectation::Always
                && !spec_eval_prop(props@[p as int].prop, nodes@),
            None => forall|p: int|
                0 <= p < props@.len() && props@[p].kind == Expectation::Always ==> spec_eval_prop(
                    #[trigger] props@[p].prop,
                    nodes@,
                ),
        },
{
    let mut p: usize = 0;
    while p < props.len()
        invariant
            p <= props@.len(),
            forall|k: int|
                0 <= k < p && props@[k].kind == Expectation::Always ==> spec_eval_prop(
                    #[trigger] props@[k].prop,
                    nodes@,
                ),
        decreases props@.len() - p,
    {
        if props[p].kind == Expectation::Always {
            if !eval_prop(props[p].prop, nodes) {
                return Some(p);
            }
        }
        p += 1;
    }
    None
}

/// Record the entry index `k` as a witness for every property that `nodes`
/// satisfies and that has no witness yet.
fn update_witnessed(
    props: &Vec<PropertySpec>,
    witnessed: &mut Vec<Option<usize>>,
    nodes: &Vec<ConsensusNodeState>,
    k: usize,
)
    requires
        old(witnessed)@.len() == props@.len(),
    ensures
        final(witnessed)@.len() == props@.len(),
        forall|p: int|
            0 <= p < props@.len() ==> match #[trigger] final(witnessed)@[p] {
                Some(j) => old(witnessed)@[p] == Some(j) || (j == k && spec_eval_prop(
                    props@[p].prop,
                    nodes@,
                )),
                None => old(witnessed)@[p] is None,
            },
{
    let mut p: usize = 0;
    while p < props.len()
        invariant
            p <= props@.len(),
            witnessed@.len() == props@.len(),
            forall|q: int| p <= q < props@.len() ==> witnessed@[q] == old(witnessed)@[q],
            forall|q: int|
                0 <= q < p ==> match #[trigger] witnessed@[q] {
                    Some(j) => old(witnessed)@[q] == Some(j) || (j == k && spec_eval_prop(
                        props@[q].prop,
                        nodes@,
                    )),
                    None => old(witnessed)@[q] is None,
                },
        decreases props@.len() - p,
    {
        let mut hit = false;
        if witnessed[p].is_none() {
            if eval_prop(props[p].prop, nodes) {
                hit = true;
            }
        }
        if hit {
            witnessed[p] = Some(k);
        }
        p += 1;
    }
}

/// Whether some entry named by `bucket` holds exactly the state `s`.
fn bucket_lookup(entries: &Vec<Entry>, bucket: &Vec<usize>, s: &GlobalState) -> (r: bool)
    requires
        forall|j: int| 0 <= j < bucket@.len() ==> (#[trigger] bucket@[j] as int) < entries@.len(),
    ensures
        r == exists|j: int|
            0 <= j < bucket@.len() && (#[trigger] entries@[bucket@[j] as int].state@ =~= s@),
{
    let mut j: usize = 0;
    while j < bucket.len()
        invariant
            j <= bucket@.len(),
            forall|jj: int| 0 <= jj < bucket@.len() ==> (#[trigger] bucket@[jj] as int)
                < entries@.len(),
            forall|jj: int| 0 <= jj < j ==> !(#[trigger] entries@[bucket@[jj] as int].state@
                =~= s@),
        decreases bucket@.len() - j,
    {
        if crate::global::global_eq(&entries[bucket[j]].state, s) {
            return true;
        }
        j += 1;
    }
    false
}

fn bucket_of(fp: u64) -> (b: usize)
    ensures
        b < 4096,
{
    let m = fp & 4095;
    proof {
        assert(fp & 4095 < 4096) by (bit_vector);
    }
    m as usize
}

/// Replay a trace of scheduler steps from the initial state of `a`, or
/// `None` where some step is not enabled at the state it is taken from.
pub fn replay_trace(a: &ConsensusActor, mode: NetworkMode, trace: &Vec<Event>) -> (r: Option<
    GlobalState,
>)
    ensures
        match r {
            Some(g) => spec_replay(*a, mode, spec_init(*a), trace@) == Some(g@),
            None => spec_replay(*a, mode, spec_init(*a), trace@) is None,
        },
{
    let mut cur = init_state(a);
    let mut i: usize = 0;
    while i < trace.len()
        invariant
            i <= trace@.len(),
            spec_replay(*a, mode, spec_init(*a), trace@.take(i as int)) == Some(cur@),
        decreases trace@.len() - i,
    {
        let next = apply_event(a, mode, &cur, &trace[i]);
        proof {
            crate::global::lemma_replay_push(
                *a,
                mode,
                spec_init(*a),
                trace@.take(i as int),
                trace@[i as int],
            );
            assert(trace@.take(i + 1 as int) =~= trace@.take(i as int).push(trace@[i as int]));
        }
        match next {
            Some(g2) => {
                cur = g2;
            },
            None => {
                proof {
                    crate::global::lemma_replay_append(
                        *a,
                        mode,
                        spec_init(*a),
                        trace@.take(i + 1 as int),
                        trace@.skip(i + 1 as int),
                    );
                    assert(trace@.take(i + 1 as int) + trace@.skip(i + 1 as int) =~= trace@);
                }
                return None;
            },
        }
        i += 1;
    }
    proof {
        assert(trace@.take(trace@.len() as int) =~= trace@);
    }
    Some(cur)
}

/// Explore the reachable global states of `cfg`'s model breadth first, up to
/// the depth and state bounds, and report one verdict per property.
///
/// A `Violated` verdict carries a trace whose replay from the initial state
/// provably reaches a state falsifying that `Always` property; a `Holds`
/// verdict on a `Sometimes` property guarantees a reachable witness exists.
pub fn check(cfg: &ModelConfig) -> (r: Result<Report, ConfigError>)
    ensures
        (r is Err) == (quorum_impossible(*cfg) || empty_value_domain(*cfg) || no_proposer(*cfg)),
        (r == Err::<Report, ConfigError>(ConfigError::QuorumImpossible)) == quorum_impossible(
            *cfg,
        ),
        (r == Err::<Report, ConfigError>(ConfigError::EmptyValueDomain)) == (!quorum_impossible(
            *cfg,
        ) && empty_value_domain(*cfg)),
        (r == Err::<Report, ConfigError>(ConfigError::NoProposer)) == (!quorum_impossible(*cfg)
            && !empty_value_domain(*cfg) && no_proposer(*cfg)),
        match r {
            Ok(report) => {
                &&& report.verdicts@.len() == cfg.properties@.len()
                &&& forall|p: int|
                    0 <= p < cfg.properties@.len() ==> verdict_sound(
                        *cfg,
                        cfg.properties@[p],
                        #[trigger] report.verdicts@[p],
                    )
            },
            Err(_) => true,
        },
{
    if cfg.actor.quorum_size > cfg.actor.peers.len() {
        return Err(ConfigError::QuorumImpossible);
    }
    if cfg.actor.proposal_values.len() == 0 {
        return Err(ConfigError::EmptyValueDomain);
    }
    if contains_id(&cfg.actor.faulty_nodes, 0) {
        return Err(ConfigError::NoProposer);
    }
    let ghost initv = spec_init(cfg.actor);
    let nprops = cfg.properties.len();
    let cap: usize = if cfg.state_limit == 0 {
        1
    } else {
        cfg.state_limit
    };

    let init = init_state(&cfg.actor);

    let mut entries: Vec<Entry> = Vec::new();
    let mut buckets: Vec<Vec<usize>> = Vec::new();
    let mut bi: usize = 0;
    while bi < 4096
        invariant
            buckets@.len() == bi,
            bi <= 4096,
            forall|b: int| 0 <= b < bi ==> (#[trigger] buckets@[b])@.len() == 0,
        decreases 4096 - bi,
    {
        buckets.push(Vec::new());
        bi += 1;
    }

    let mut witnessed: Vec<Option<usize>> = Vec::new();
    let mut wi: usize = 0;
    while wi < nprops
        invariant
            witnessed@.len() == wi,
            wi <= nprops,
            forall|p: int| 0 <= p < wi ==> (#[trigger] witnessed@[p]) is None,
        decreases nprops - wi,
    {
        witnessed.push(None);
        wi += 1;
    }

    let mut max_depth: usize = 0;
    let mut truncated: bool = false;
    let mut violation: Option<(usize, Vec<Event>)> = None;

    let fp0 = fingerprint(&init);
    let b0 = bucket_of(fp0);
    entries.push(Entry { state: init, depth: 0, trace: Vec::new() });
    proof {
        assert(entries@[0].trace@ =~= Seq::<Event>::empty());
        assert(spec_replay(cfg.actor, cfg.network, initv, entries@[0].trace@) == Some(
            entries@[0].state@,
        ));
        assert(entries_sound(cfg.actor, cfg.network, initv, entries@));
        assert(witnesses_sound(cfg.properties@, witnessed@, entries@));
        assert(buckets_ok(buckets@, entries@.len() as int));
    }
    buckets[b0].push(0);
    proof {
        assert(buckets_ok(buckets@, entries@.len() as int));
    }
    match find_violation(&cfg.properties, &entries[0].state.nodes) {
        Some(p) => {
            violation = Some((p, Vec::new()));
            proof {
                assert(violation_sound(cfg.actor, cfg.network, initv, cfg.properties@, violation));
            }
        },
        None => {
            update_witnessed(&cfg.properties, &mut witnessed, &entries[0].state.nodes, 0);
            proof {
                assert(witnesses_sound(cfg.properties@, witnessed@, entries@));
            }
        },
    }

    let mut head: usize = 0;
    while head < entries.len() && violation.is_none()
        invariant
            head <= entries@.len(),
            1 <= entries@.len() <= cap,
            buckets@.len() == 4096,
            nprops == cfg.properties@.len(),
            initv == spec_init(cfg.actor),
            entries_sound(cfg.actor, cfg.network, initv, entries@),
            witnesses_sound(cfg.properties@, witnessed@, entries@),
            buckets_ok(buckets@, entries@.len() as int),
            violation_sound(cfg.actor, cfg.network, initv, cfg.properties@, violation),
        decreases cap - head,
    {
        let depth = entries[head].depth;
        if depth >= cfg.depth_bound {
            if entries[head].state.bag.len() > 0 {
                truncated = true;
            }
            head += 1;
        } else {
            let mut succs = successors(&cfg.actor, cfg.network, &entries[head].state);
            let ghost snap = entries@[head as int].state@;
            while succs.len() > 0 && violation.is_none()
                invariant
                    head < entries@.len(),
                    1 <= entries@.len() <= cap,
                    buckets@.len() == 4096,
                    nprops == cfg.properties@.len(),
                    initv == spec_init(cfg.actor),
                    entries_sound(cfg.actor, cfg.network, initv, entries@),
                    witnesses_sound(cfg.properties@, witnessed@, entries@),
                    buckets_ok(buckets@, entries@.len() as int),
                    violation_sound(cfg.actor, cfg.network, initv, cfg.properties@, violation),
                    snap == entries@[head as int].state@,
                    entries@[head as int].depth < cfg.depth_bound,
                    forall|k: int|
                        0 <= k < succs@.len() ==> spec_apply_event(
                            cfg.actor,
                            cfg.network,
                            snap,
                            (#[trigger] succs@[k]).0,
                        ) == Some(succs@[k].1@),
                decreases succs@.len(),
            {
                let ghost succs0 = succs@;
                let popped = succs.pop().unwrap();
                let ev = popped.0;
                let s2 = popped.1;
                proof {
                    assert(succs0[succs0.len() - 1].0 == ev);
                    assert(succs0[succs0.len() - 1].1 == s2);
                    assert(spec_apply_event(cfg.actor, cfg.network, snap, ev) == Some(s2@));
                }
                let fp = fingerprint(&s2);
                let b = bucket_of(fp);
                let seen = bucket_lookup(&entries, &buckets[b], &s2);
                if !seen {
                    if entries.len() >= cap {
                        truncated = true;
                    } else {
                        let d2 = entries[head].depth + 1;
                        if d2 > max_depth {
                            max_depth = d2;
                        }
                        let mut tr = vec_dup(&entries[head].trace);
                        tr.push(ev);
                        proof {
                            crate::global::lemma_replay_push(
                                cfg.actor,
                                cfg.network,
                                initv,
                                entries@[head as int].trace@,
                                ev,
                            );
                            assert(spec_replay(cfg.actor, cfg.network, initv, tr@) == Some(s2@));
                        }
                        let ghost s2_v = s2@;
                        let ghost tr_v = tr@;
                        let ghost entries0 = entries@;
                        let k = entries.len();
                        entries.push(Entry { state: s2, depth: d2, trace: tr });
                        proof {
                            assert(entries@[k as int].state@ == s2_v);
                            assert(entries@[k as int].trace@ == tr_v);
                            assert forall|kk: int| 0 <= kk < entries@.len() implies spec_replay(
                                cfg.actor,
                                cfg.network,
                                initv,
                                (#[trigger] entries@[kk]).trace@,
                            ) == Some(entries@[kk].state@) by {
                                if kk < entries0.len() {
                                    assert(entries@[kk] == entries0[kk]);
                                }
                            }
                            assert(entries_sound(cfg.actor, cfg.network, initv, entries@));
                            assert(witnesses_sound(cfg.properties@, witnessed@, entries@));
                            assert(buckets_ok(buckets@, entries@.len() as int));
                        }
                        let ghost buckets0 = buckets@;
                        buckets[b].push(k);
                        proof {
                            assert forall|bb: int, jj: int|
                                0 <= bb < buckets@.len() && 0 <= jj < buckets@[bb]@.len() implies (
                            #[trigger] buckets@[bb]@[jj] as int) < entries@.len() by {
                                if bb == b as int {
                                    if jj < buckets0[bb]@.len() {
                                        assert(buckets@[bb]@[jj] == buckets0[bb]@[jj]);
                                    } else {
                                        assert(buckets@[bb]@[jj] == k);
                                    }
                                } else {
                                    assert(buckets@[bb] == buckets0[bb]);
                                }
                            }
                            assert(buckets_ok(buckets@, entries@.len() as int));
                        }
                        match find_violation(&cfg.properties, &entries[k].state.nodes) {
                            Some(vp) => {
                                let vt = vec_dup(&entries[k].trace);
                                violation = Some((vp, vt));
                                proof {
                                    assert(violation_sound(
                                        cfg.actor,
                                        cfg.network,
                                        initv,
                                        cfg.properties@,
                                        violation,
                                    ));
                                }
                            },
                            None => {
                                update_witnessed(
                                    &cfg.properties,
                                    &mut witnessed,
                                    &entries[k].state.nodes,
                                    k,
                                );
                                proof {
                                    assert(witnesses_sound(cfg.properties@, witnessed@, entries@));
                                }
                            },
                        }
                    }
                }
            }
            head += 1;
        }
    }

    let states_explored = entries.len();
    let mut verdicts: Vec<Verdict> = Vec::new();
    match violation {
        Some(found) => {
            let vp = found.0;
            let vtrace = found.1;
            let mut p: usize = 0;
            while p < nprops
                invariant
                    p <= nprops,
                    nprops == cfg.properties@.len(),
                    verdicts@.len() == p,
                    (vp as int) < cfg.properties@.len(),
                    cfg.properties@[vp as int].kind == Expectation::Always,
                    match spec_replay(cfg.actor, cfg.network, spec_init(cfg.actor), vtrace@) {
                        Some(bad) => !spec_eval_prop(cfg.properties@[vp as int].prop, bad.nodes),
                        None => false,
                    },
                    entries_sound(cfg.actor, cfg.network, spec_init(cfg.actor), entries@),
                    witnesses_sound(cfg.properties@, witnessed@, entries@),
                    forall|q: int|
                        0 <= q < p ==> verdict_sound(
                            *cfg,
                            cfg.properties@[q],
                            #[trigger] verdicts@[q],
                        ),
                decreases nprops - p,
            {
                if p == vp {
                    let t2 = vec_dup(&vtrace);
                    verdicts.push(Verdict::Violated { trace: t2 });
                } else {
                    match cfg.properties[p].kind {
                        Expectation::Always => {
                            verdicts.push(Verdict::Inconclusive);
                        },
                        Expectation::Sometimes => {
                            match witnessed[p] {
                                Some(j) => {
                                    proof {
                                        assert(reaches_witness(
                                            cfg.actor,
                                            cfg.network,
                                            cfg.properties@[p as int].prop,
                                            entries@[j as int].trace@,
                                        ));
                                    }
                                    verdicts.push(Verdict::Holds);
                                },
                                None => {
                                    verdicts.push(Verdict::InsufficientlyWitnessed);
                                },
                            }
                        },
                    }
                }
                p += 1;
            }
        },
        None => {
            let mut p: usize = 0;
            while p < nprops
                invariant
                    p <= nprops,
                    nprops == cfg.properties@.len(),
                    verdicts@.len() == p,
                    entries_sound(cfg.actor, cfg.network, spec_init(cfg.actor), entries@),
                    witnesses_sound(cfg.properties@, witnessed@, entries@),
                    forall|q: int|
                        0 <= q < p ==> verdict_sound(
                            *cfg,
                            cfg.properties@[q],
                            #[trigger] verdicts@[q],
                        ),
                decreases nprops - p,
            {
                match cfg.properties[p].kind {
                    Expectation::Always => {
                        if truncated {
                            verdicts.push(Verdict::Inconclusive);
                        } else {
                            verdicts.push(Verdict::Holds);
                        }
                    },
                    Expectation::Sometimes => {
                        match witnessed[p] {
                            Some(j) => {
                                proof {
                                    assert(reaches_witness(
                                        cfg.actor,
                                        cfg.network,
                                        cfg.properties@[p as int].prop,
                                        entries@[j as int].trace@,
                                    ));
                                }
                                verdicts.push(Verdict::Holds);
                            },
                            None => {
                                verdicts.push(Verdict::InsufficientlyWitnessed);
                            },
                        }
                    },
                }
                p += 1;
            }
        },
    }
    Ok(Report { states_explored: states_explored as u64, max_depth, verdicts })
}

} // verus!
