//! The global model: the composition of all replica states with the bag of
//! in-flight envelopes, the single-step transitions a scheduler may take from
//! a global state, and trace replay.
//!
//! The bag is kept sorted in the canonical envelope order, so two global
//! states whose bags hold the same multiset of envelopes are equal as values
//! and deduplicate during exploration.

use vstd::prelude::*;

use crate::node::ConsensusActor;
use crate::node::ConsensusNodeState;
use crate::value::{env_le, lemma_env_le_antisymmetric, phase_rank, Envelope, NodeState};
use vstd::multiset::Multiset;

verus! {

/// How the scheduler may treat in-flight envelopes.
#[derive(Clone, Copy, Debug, PartialEq, Eq, Structural)]
pub enum NetworkMode {
    /// Every envelope may be delivered in any order, at most once.
    UnorderedNonduplicating,
    /// Unordered, and any envelope may also be dropped undelivered.
    Lossy,
}

/// A global state: one local state per replica, plus the in-flight envelopes
/// in canonical (sorted) order.
#[derive(Clone, Debug)]
pub struct GlobalState {
    pub nodes: Vec<ConsensusNodeState>,
    pub bag: Vec<Envelope>,
}

/// The mathematical value of a [`GlobalState`].
#[verifier::ext_equal]
pub struct GlobalView {
    pub nodes: Seq<ConsensusNodeState>,
    pub bag: Seq<Envelope>,
}

impl View for GlobalState {
    type V = GlobalView;

    open spec fn view(&self) -> GlobalView {
        GlobalView { nodes: self.nodes@, bag: self.bag@ }
    }
}

/// A single scheduler step: deliver one in-flight envelope to its
/// destination, or (under a lossy network) drop it undelivered.
#[derive(Clone, Copy, Debug, PartialEq, Eq, Structural)]
pub enum Event {
    Deliver { index: usize, env: Envelope },
    Discard { index: usize, env: Envelope },
}

/// `e` inserted into `s` at the first position that keeps the canonical
/// envelope order.
pub open spec fn spec_insert_env(e: Envelope, s: Seq<Envelope>) -> Seq<Envelope>
    decreases s.len(),
{
    if s.len() == 0 {
        seq![e]
    } else if env_le(e, s[0]) {
        seq![e] + s
    } else {
        seq![s[0]] + spec_insert_env(e, s.drop_first())
    }
}

/// Every send inserted into the bag, in send order.
pub open spec fn spec_add_sends(bag: Seq<Envelope>, sends: Seq<Envelope>) -> Seq<Envelope>
    decreases sends.len(),
{
    if sends.len() == 0 {
        bag
    } else {
        spec_add_sends(spec_insert_env(sends[0], bag), sends.drop_first())
    }
}

pub proof fn lemma_insert_env_at(e: Envelope, s: Seq<Envelope>, i: int)
    requires
        0 <= i <= s.len(),
        forall|k: int| 0 <= k < i ==> !env_le(e, s[k]),
        i < s.len() ==> env_le(e, s[i]),
    ensures
        spec_insert_env(e, s) == s.take(i) + seq![e] + s.skip(i),
    decreases i,
{
    if i == 0 {
        if s.len() == 0 {
            assert(spec_insert_env(e, s) =~= s.take(0) + seq![e] + s.skip(0));
        } else {
            assert(env_le(e, s[0]));
            assert(spec_insert_env(e, s) =~= s.take(0) + seq![e] + s.skip(0));
        }
    } else {
        assert(!env_le(e, s[0]));
        assert(s.len() > 0);
        let d = s.drop_first();
        assert(forall|k: int| 0 <= k < i - 1 ==> !env_le(e, #[trigger] d[k]));
        assert(i - 1 < d.len() ==> env_le(e, d[i - 1]));
        lemma_insert_env_at(e, d, i - 1);
        assert(spec_insert_env(e, s) == seq![s[0]] + (d.take(i - 1) + seq![e] + d.skip(i - 1)));
        assert(seq![s[0]] + (d.take(i - 1) + seq![e] + d.skip(i - 1)) =~= s.take(i) + seq![e]
            + s.skip(i));
    }
}

pub proof fn lemma_add_sends_push(bag: Seq<Envelope>, sends: Seq<Envelope>, e: Envelope)
    ensures
        spec_add_sends(bag, sends.push(e)) == spec_insert_env(e, spec_add_sends(bag, sends)),
    decreases sends.len(),
{
    if sends.len() == 0 {
        let sp = sends.push(e);
        assert(sp[0] == e);
        assert(sp.drop_first() =~= Seq::<Envelope>::empty());
        assert(spec_add_sends(spec_insert_env(e, bag), Seq::<Envelope>::empty())
            == spec_insert_env(e, bag));
    } else {
        let sp = sends.push(e);
        assert(sp[0] == sends[0]);
        assert(sp.drop_first() =~= sends.drop_first().push(e));
        lemma_add_sends_push(spec_insert_env(sends[0], bag), sends.drop_first(), e);
    }
}

/// A copy of a vector of plain values.
pub fn vec_dup<T: Copy>(v: &Vec<T>) -> (r: Vec<T>)
    ensures
        r@ == v@,
{
    let mut r: Vec<T> = Vec::new();
    let mut i: usize = 0;
    while i < v.len()
        invariant
            i <= v.len(),
            r@ == v@.take(i as int),
        decreases v.len() - i,
    {
        r.push(v[i]);
        proof {
            assert(v@.take(i + 1 as int) =~= v@.take(i as int).push(v@[i as int]));
        }
        i += 1;
    }
    proof {
        assert(v@.take(v@.len() as int) =~= v@);
    }
    r
}

/// The first position in `bag` where `e` may stand without breaking the
/// canonical order.
fn lower_pos(bag: &Vec<Envelope>, e: &Envelope) -> (i: usize)
    ensures
        i <= bag@.len(),
        forall|k: int| 0 <= k < i ==> !env_le(*e, bag@[k]),
        i < bag@.len() ==> env_le(*e, bag@[i as int]),
{
    let mut i: usize = 0;
    while i < bag.len()
        invariant
            i <= bag.len(),
            forall|k: int| 0 <= k < i ==> !env_le(*e, bag@[k]),
        decreases bag.len() - i,
    {
        if crate::value::env_le_ex(e, &bag[i]) {
            return i;
        }
        i += 1;
    }
    i
}

/// Insert one envelope into the bag at its canonical position.
pub fn insert_env(bag: &mut Vec<Envelope>, e: Envelope)
    ensures
        final(bag)@ == spec_insert_env(e, old(bag)@),
{
    let i = lower_pos(bag, &e);
    proof {
        lemma_insert_env_at(e, bag@, i as int);
    }
    bag.insert(i, e);
    proof {
        assert(bag@ =~= old(bag)@.take(i as int) + seq![e] + old(bag)@.skip(i as int));
    }
}

/// Insert every send into the bag, in send order.
pub fn add_sends(bag: &mut Vec<Envelope>, sends: &Vec<Envelope>)
    ensures
        final(bag)@ == spec_add_sends(old(bag)@, sends@),
{
    let mut j: usize = 0;
    while j < sends.len()
        invariant
            j <= sends.len(),
            bag@ == spec_add_sends(old(bag)@, sends@.take(j as int)),
        decreases sends.len() - j,
    {
        insert_env(bag, sends[j]);
        proof {
            lemma_add_sends_push(old(bag)@, sends@.take(j as int), sends@[j as int]);
            assert(sends@.take(j + 1 as int) =~= sends@.take(j as int).push(sends@[j as int]));
        }
        j += 1;
    }
    proof {
        assert(sends@.take(sends@.len() as int) =~= sends@);
    }
}

/// The global state after delivering the envelope at `index`: the destination
/// replica takes its message step and the replies join the bag.
pub open spec fn spec_deliver(a: ConsensusActor, g: GlobalView, index: int) -> GlobalView {
    let env = g.bag[index];
    let step = a.spec_on_msg(g.nodes[env.to as int], env.msg);
    GlobalView {
        nodes: g.nodes.update(env.to as int, step.0),
        bag: spec_add_sends(g.bag.remove(index), step.1),
    }
}

/// The global state after one scheduler step, or `None` if the event is not
/// enabled in `g` under `mode`.
pub open spec fn spec_apply_event(
    a: ConsensusActor,
    mode: NetworkMode,
    g: GlobalView,
    e: Event,
) -> Option<GlobalView> {
    match e {
        Event::Deliver { index, env } => {
            if (index as int) < g.bag.len() && g.bag[index as int] == env && (env.to as int)
                < g.nodes.len() {
                Some(spec_deliver(a, g, index as int))
            } else {
                None
            }
        },
        Event::Discard { index, env } => {
            if mode == NetworkMode::Lossy && (index as int) < g.bag.len() && g.bag[index as int]
                == env {
                Some(GlobalView { nodes: g.nodes, bag: g.bag.remove(index as int) })
            } else {
                None
            }
        },
    }
}

/// The global state a trace of scheduler steps leads to from `g`, or `None`
/// if some step of the trace is not enabled where it is taken.
pub open spec fn spec_replay(
    a: ConsensusActor,
    mode: NetworkMode,
    g: GlobalView,
    t: Seq<Event>,
) -> Option<GlobalView>
    decreases t.len(),
{
    if t.len() == 0 {
        Some(g)
    } else {
        match spec_apply_event(a, mode, g, t[0]) {
            Some(g2) => spec_replay(a, mode, g2, t.drop_first()),
            None => None,
        }
    }
}

/// Replaying a concatenation replays the first part, then the second.
pub proof fn lemma_replay_append(
    a: ConsensusActor,
    mode: NetworkMode,
    g: GlobalView,
    s: Seq<Event>,
    t: Seq<Event>,
)
    ensures
        spec_replay(a, mode, g, s + t) == match spec_replay(a, mode, g, s) {
            Some(x) => spec_replay(a, mode, x, t),
            None => None,
        },
    decreases s.len(),
{
    if s.len() == 0 {
        assert(s + t =~= t);
    } else {
        assert((s + t)[0] == s[0]);
        assert((s + t).drop_first() =~= s.drop_first() + t);
        match spec_apply_event(a, mode, g, s[0]) {
            Some(g2) => {
                lemma_replay_append(a, mode, g2, s.drop_first(), t);
            },
            None => {},
        }
    }
}

/// Replaying one more step applies that step to where the trace led.
pub proof fn lemma_replay_push(
    a: ConsensusActor,
    mode: NetworkMode,
    g: GlobalView,
    s: Seq<Event>,
    e: Event,
)
    ensures
        spec_replay(a, mode, g, s.push(e)) == match spec_replay(a, mode, g, s) {
            Some(x) => spec_apply_event(a, mode, x, e),
            None => None,
        },
{
    assert(s.push(e) =~= s + seq![e]);
    lemma_replay_append(a, mode, g, s, seq![e]);
    assert(seq![e].drop_first() =~= Seq::<Event>::empty());
    match spec_replay(a, mode, g, s) {
        Some(x) => {
            match spec_apply_event(a, mode, x, e) {
                Some(y) => {
                    assert(spec_replay(a, mode, x, seq![e]) == spec_replay(
                        a,
                        mode,
                        y,
                        Seq::<Event>::empty(),
                    ));
                },
                None => {},
            }
        },
        None => {},
    }
}

/// Take one scheduler step from `g`, if `e` is enabled under `mode`.
pub fn apply_event(a: &ConsensusActor, mode: NetworkMode, g: &GlobalState, e: &Event) -> (r:
    Option<GlobalState>)
    ensures
        match r {
            Some(g2) => spec_apply_event(*a, mode, g@, *e) == Some(g2@),
            None => spec_apply_event(*a, mode, g@, *e) is None,
        },
{
    match e {
        Event::Deliver { index, env } => {
            let index = *index;
            let env = *env;
            if index < g.bag.len() && g.bag[index] == env && env.to < g.nodes.len() {
                let mut nodes = vec_dup(&g.nodes);
                let mut bag = vec_dup(&g.bag);
                bag.remove(index);
                let step = a.on_msg(&nodes[env.to], &env.msg);
                nodes[env.to] = step.0;
                add_sends(&mut bag, &step.1);
                let g2 = GlobalState { nodes, bag };
                proof {
                    assert(g2@.nodes =~= spec_deliver(*a, g@, index as int).nodes);
                    assert(g2@.bag =~= spec_deliver(*a, g@, index as int).bag);
                    assert(g2@ =~= spec_deliver(*a, g@, index as int));
                }
                Some(g2)
            } else {
                None
            }
        },
        Event::Discard { index, env } => {
            let index = *index;
            let env = *env;
            if mode == NetworkMode::Lossy && index < g.bag.len() && g.bag[index] == env {
                let nodes = vec_dup(&g.nodes);
                let mut bag = vec_dup(&g.bag);
                bag.remove(index);
                let g2 = GlobalState { nodes, bag };
                proof {
                    assert(g2@ =~= (GlobalView { nodes: g@.nodes, bag: g@.bag.remove(index as int) }));
                }
                Some(g2)
            } else {
                None
            }
        },
    }
}

/// The replica states every exploration starts from: one `on_start` result
/// per identifier below `n`.
pub open spec fn spec_init_nodes(a: ConsensusActor, n: nat) -> Seq<ConsensusNodeState> {
    Seq::new(n, |i: int| a.spec_on_start(i as usize).0)
}

/// The initial bag: every start-up send of every replica below `k`, in
/// canonical order.
pub open spec fn spec_init_bag(a: ConsensusActor, k: nat) -> Seq<Envelope>
    decreases k,
{
    if k == 0 {
        Seq::empty()
    } else {
        spec_add_sends(spec_init_bag(a, (k - 1) as nat), a.spec_on_start((k - 1) as usize).1)
    }
}

/// The initial global state of a cluster of `peers.len()` replicas.
pub open spec fn spec_init(a: ConsensusActor) -> GlobalView {
    GlobalView { nodes: spec_init_nodes(a, a.peers@.len()), bag: spec_init_bag(a, a.peers@.len()) }
}

/// Build the initial global state: start every replica and seed the bag with
/// all start-up sends.
pub fn init_state(a: &ConsensusActor) -> (r: GlobalState)
    ensures
        r@ == spec_init(*a),
{
    let n = a.peers.len();
    let mut nodes: Vec<ConsensusNodeState> = Vec::new();
    let mut bag: Vec<Envelope> = Vec::new();
    let mut i: usize = 0;
    while i < n
        invariant
            i <= n,
            n == a.peers@.len(),
            nodes@.len() == i,
            forall|k: int| 0 <= k < i ==> nodes@[k] == a.spec_on_start(k as usize).0,
            bag@ == spec_init_bag(*a, i as nat),
        decreases n - i,
    {
        let (s, sends) = a.on_start(i);
        nodes.push(s);
        add_sends(&mut bag, &sends);
        i += 1;
    }
    proof {
        assert(nodes@ =~= spec_init_nodes(*a, a.peers@.len()));
        assert(GlobalState { nodes: nodes, bag: bag }@ =~= spec_init(*a));
    }
    GlobalState { nodes, bag }
}

/// Whether some pair of `r` takes the step `e`.
pub open spec fn contains_event(r: Seq<(Event, GlobalState)>, e: Event) -> bool {
    exists|k: int| 0 <= k < r.len() && r[k].0 == e
}

proof fn lemma_contains_event_push(r: Seq<(Event, GlobalState)>, x: (Event, GlobalState), e: Event)
    ensures
        contains_event(r, e) ==> contains_event(r.push(x), e),
        contains_event(r.push(x), x.0),
{
    if contains_event(r, e) {
        let k = choose|k: int| 0 <= k < r.len() && r[k].0 == e;
        assert(r.push(x)[k].0 == e);
    }
    assert(r.push(x)[r.len() as int].0 == x.0);
}

/// Every enabled single step out of `g`: one deliver per in-flight envelope,
/// and under a lossy network also one drop per envelope. Each returned pair
/// carries the state that step leads to, and every enabled step is returned.
pub fn successors(a: &ConsensusActor, mode: NetworkMode, g: &GlobalState) -> (r: Vec<
    (Event, GlobalState),
>)
    ensures
        forall|k: int|
            0 <= k < r@.len() ==> spec_apply_event(*a, mode, g@, (#[trigger] r@[k]).0) == Some(
                r@[k].1@,
            ),
        forall|i: int|
            0 <= i < g@.bag.len() && spec_apply_event(
                *a,
                mode,
                g@,
                Event::Deliver { index: i as usize, env: #[trigger] g@.bag[i] },
            ) is Some ==> contains_event(
                r@,
                Event::Deliver { index: i as usize, env: g@.bag[i] },
            ),
        forall|i: int|
            0 <= i < g@.bag.len() && spec_apply_event(
                *a,
                mode,
                g@,
                Event::Discard { index: i as usize, env: #[trigger] g@.bag[i] },
            ) is Some ==> contains_event(
                r@,
                Event::Discard { index: i as usize, env: g@.bag[i] },
            ),
{
    let mut r: Vec<(Event, GlobalState)> = Vec::new();
    let mut i: usize = 0;
    while i < g.bag.len()
        invariant
            i <= g@.bag.len(),
            forall|k: int|
                0 <= k < r@.len() ==> spec_apply_event(*a, mode, g@, (#[trigger] r@[k]).0) == Some(
                    r@[k].1@,
                ),
            forall|ii: int|
                0 <= ii < i && spec_apply_event(
                    *a,
                    mode,
                    g@,
                    Event::Deliver { index: ii as usize, env: #[trigger] g@.bag[ii] },
                ) is Some ==> contains_event(
                    r@,
                    Event::Deliver { index: ii as usize, env: g@.bag[ii] },
                ),
            forall|ii: int|
                0 <= ii < i && spec_apply_event(
                    *a,
                    mode,
                    g@,
                    Event::Discard { index: ii as usize, env: #[trigger] g@.bag[ii] },
                ) is Some ==> contains_event(
                    r@,
                    Event::Discard { index: ii as usize, env: g@.bag[ii] },
                ),
        decreases g@.bag.len() - i,
    {
        let env = g.bag[i];
        let ev = Event::Deliver { index: i, env };
        match apply_event(a, mode, g, &ev) {
            Some(g2) => {
                let ghost r0 = r@;
                let ghost p = (ev, g2);
                r.push((ev, g2));
                proof {
                    assert(r@ == r0.push(p));
                    assert forall|e2: Event| #[trigger] contains_event(r0, e2) implies
                        contains_event(r@, e2) by {
                        lemma_contains_event_push(r0, p, e2);
                    }
                    lemma_contains_event_push(r0, p, p.0);
                }
            },
            None => {},
        }
        if mode == NetworkMode::Lossy {
            let ev2 = Event::Discard { index: i, env };
            match apply_event(a, mode, g, &ev2) {
                Some(g2) => {
                    let ghost r0 = r@;
                    let ghost p = (ev2, g2);
                    r.push((ev2, g2));
                    proof {
                        assert(r@ == r0.push(p));
                        assert forall|e2: Event| #[trigger] contains_event(r0, e2) implies
                            contains_event(r@, e2) by {
                            lemma_contains_event_push(r0, p, e2);
                        }
                        lemma_contains_event_push(r0, p, p.0);
                    }
                },
                None => {},
            }
        }
        i += 1;
    }
    r
}

/// Whether two global states are equal as values.
pub fn global_eq(x: &GlobalState, y: &GlobalState) -> (r: bool)
    ensures
        r == (x@ =~= y@),
{
    if x.nodes.len() != y.nodes.len() || x.bag.len() != y.bag.len() {
        return false;
    }
    let mut i: usize = 0;
    while i < x.nodes.len()
        invariant
            i <= x@.nodes.len(),
            x@.nodes.len() == y@.nodes.len(),
            x@.bag.len() == y@.bag.len(),
            forall|k: int| 0 <= k < i ==> x@.nodes[k] == y@.nodes[k],
        decreases x@.nodes.len() - i,
    {
        if x.nodes[i] != y.nodes[i] {
            return false;
        }
        i += 1;
    }
    let mut j: usize = 0;
    while j < x.bag.len()
        invariant
            j <= x@.bag.len(),
            x@.nodes.len() == y@.nodes.len(),
            x@.bag.len() == y@.bag.len(),
            forall|k: int| 0 <= k < x@.nodes.len() ==> x@.nodes[k] == y@.nodes[k],
            forall|k: int| 0 <= k < j ==> x@.bag[k] == y@.bag[k],
        decreases x@.bag.len() - j,
    {
        if x.bag[j] != y.bag[j] {
            return false;
        }
        j += 1;
    }
    proof {
        assert(x@.nodes =~= y@.nodes);
        assert(x@.bag =~= y@.bag);
    }
    true
}

/// The canonical order on a bag of in-flight envelopes.
pub open spec fn bag_sorted(s: Seq<Envelope>) -> bool {
    forall|i: int, j: int| 0 <= i <= j < s.len() ==> env_le(s[i], s[j])
}

/// Inserting at the canonical position keeps the bag sorted and adds exactly
/// the inserted envelope to its contents.
pub proof fn lemma_insert_env_sorted(e: Envelope, s: Seq<Envelope>)
    requires
        bag_sorted(s),
    ensures
        bag_sorted(spec_insert_env(e, s)),
        spec_insert_env(e, s).to_multiset() =~= s.to_multiset().insert(e),
    decreases s.len(),
{
    broadcast use vstd::seq_lib::group_to_multiset_ensures;
    broadcast use vstd::multiset::group_multiset_axioms;

    if s.len() == 0 {
        assert(spec_insert_env(e, s) =~= s.push(e));
        assert(s.push(e).to_multiset() =~= s.to_multiset().insert(e));
    } else if env_le(e, s[0]) {
        let r = seq![e] + s;
        assert forall|i: int, j: int| 0 <= i <= j < r.len() implies env_le(r[i], r[j]) by {
            if i == 0 && j > 0 {
                assert(env_le(e, s[0]));
                assert(env_le(s[0], s[j - 1]));
            }
        }
        vstd::seq_lib::lemma_multiset_commutative(seq![e], s);
        assert(seq![e] =~= Seq::<Envelope>::empty().push(e));
        assert(seq![e].to_multiset() =~= Multiset::<Envelope>::empty().insert(e));
        assert(r.to_multiset() =~= s.to_multiset().insert(e));
    } else {
        let d = s.drop_first();
        assert forall|i: int, j: int| 0 <= i <= j < d.len() implies env_le(d[i], d[j]) by {
            assert(env_le(s[i + 1], s[j + 1]));
        }
        lemma_insert_env_sorted(e, d);
        let rest = spec_insert_env(e, d);
        let r = seq![s[0]] + rest;
        assert(spec_insert_env(e, s) == r);
        vstd::seq_lib::lemma_multiset_commutative(seq![s[0]], rest);
        assert(s =~= seq![s[0]] + d);
        vstd::seq_lib::lemma_multiset_commutative(seq![s[0]], d);
        assert(r.to_multiset() =~= s.to_multiset().insert(e));
        assert forall|i: int, j: int| 0 <= i <= j < r.len() implies env_le(r[i], r[j]) by {
            if i == 0 && j > 0 {
                let x = rest[j - 1];
                assert(rest.contains(x));
                assert(rest.to_multiset().count(x) > 0);
                if x == e {
                    assert(env_le(s[0], e));
                } else {
                    assert(d.to_multiset().count(x) > 0);
                    assert(d.contains(x));
                    let k = choose|k: int| 0 <= k < d.len() && d[k] == x;
                    assert(env_le(s[0], s[k + 1]));
                }
            }
        }
    }
}

/// Adding sends keeps the bag sorted and adds exactly those envelopes.
pub proof fn lemma_add_sends_sorted(bag: Seq<Envelope>, sends: Seq<Envelope>)
    requires
        bag_sorted(bag),
    ensures
        bag_sorted(spec_add_sends(bag, sends)),
        spec_add_sends(bag, sends).to_multiset() =~= bag.to_multiset().add(sends.to_multiset()),
    decreases sends.len(),
{
    broadcast use vstd::seq_lib::group_to_multiset_ensures;
    broadcast use vstd::multiset::group_multiset_axioms;

    if sends.len() == 0 {
        assert(sends.to_multiset().len() == 0);
        assert(sends.to_multiset() =~= Multiset::<Envelope>::empty());
        assert(bag.to_multiset().add(Multiset::<Envelope>::empty()) =~= bag.to_multiset());
    } else {
        lemma_insert_env_sorted(sends[0], bag);
        lemma_add_sends_sorted(spec_insert_env(sends[0], bag), sends.drop_first());
        assert(sends =~= seq![sends[0]] + sends.drop_first());
        vstd::seq_lib::lemma_multiset_commutative(seq![sends[0]], sends.drop_first());
        assert(seq![sends[0]] =~= Seq::<Envelope>::empty().push(sends[0]));
        assert(seq![sends[0]].to_multiset() =~= Multiset::<Envelope>::empty().insert(sends[0]));
        assert(spec_add_sends(bag, sends).to_multiset() =~= bag.to_multiset().add(
            sends.to_multiset(),
        ));
    }
}

/// Removing an envelope keeps the bag sorted.
pub proof fn lemma_remove_sorted(s: Seq<Envelope>, i: int)
    requires
        bag_sorted(s),
        0 <= i < s.len(),
    ensures
        bag_sorted(s.remove(i)),
{
    let r = s.remove(i);
    assert forall|x: int, y: int| 0 <= x <= y < r.len() implies env_le(r[x], r[y]) by {
        let x0 = if x < i {
            x
        } else {
            x + 1
        };
        let y0 = if y < i {
            y
        } else {
            y + 1
        };
        assert(r[x] == s[x0]);
        assert(r[y] == s[y0]);
        assert(env_le(s[x0], s[y0]));
    }
}

/// Law, canonical form: two sorted bags holding the same multiset of
/// envelopes are equal, so global states that differ only in the order their
/// in-flight messages were produced compare and deduplicate as equal.
pub proof fn lemma_sorted_bags_equal(s1: Seq<Envelope>, s2: Seq<Envelope>)
    requires
        bag_sorted(s1),
        bag_sorted(s2),
        s1.to_multiset() == s2.to_multiset(),
    ensures
        s1 == s2,
    decreases s1.len(),
{
    broadcast use vstd::seq_lib::group_to_multiset_ensures;
    broadcast use vstd::multiset::group_multiset_axioms;

    if s1.len() == 0 {
        assert(s2.to_multiset().len() == 0);
        assert(s1 =~= s2);
    } else {
        assert(s1.to_multiset().len() == s1.len());
        assert(s2.to_multiset().len() == s2.len());
        assert(s2.len() == s1.len());
        assert(s1.contains(s1[0]));
        assert(s2.to_multiset().count(s1[0]) > 0);
        assert(s2.contains(s1[0]));
        let j2 = choose|j: int| 0 <= j < s2.len() && s2[j] == s1[0];
        assert(env_le(s2[0], s2[j2]));
        assert(s2.contains(s2[0]));
        assert(s1.to_multiset().count(s2[0]) > 0);
        assert(s1.contains(s2[0]));
        let j1 = choose|j: int| 0 <= j < s1.len() && s1[j] == s2[0];
        assert(env_le(s1[0], s1[j1]));
        lemma_env_le_antisymmetric(s1[0], s2[0]);
        assert(s1[0] == s2[0]);
        assert(s1.remove(0).to_multiset() =~= s1.to_multiset().remove(s1[0]));
        assert(s2.remove(0).to_multiset() =~= s2.to_multiset().remove(s2[0]));
        lemma_remove_sorted(s1, 0);
        lemma_remove_sorted(s2, 0);
        lemma_sorted_bags_equal(s1.remove(0), s2.remove(0));
        assert forall|i: int| 0 <= i < s1.len() implies s1[i] == s2[i] by {
            if i > 0 {
                assert(s1.remove(0)[i - 1] == s1[i]);
                assert(s2.remove(0)[i - 1] == s2[i]);
            }
        }
        assert(s1 =~= s2);
    }
}

/// The initial bag is in canonical order.
pub proof fn lemma_init_bag_sorted(a: ConsensusActor, k: nat)
    ensures
        bag_sorted(spec_init_bag(a, k)),
    decreases k,
{
    if k == 0 {
    } else {
        lemma_init_bag_sorted(a, (k - 1) as nat);
        lemma_add_sends_sorted(spec_init_bag(a, (k - 1) as nat), a.spec_on_start((k - 1) as usize).1);
    }
}

/// Every scheduler step keeps the bag in canonical order.
pub proof fn lemma_step_keeps_bag_sorted(
    a: ConsensusActor,
    mode: NetworkMode,
    g: GlobalView,
    e: Event,
    g2: GlobalView,
)
    requires
        spec_apply_event(a, mode, g, e) == Some(g2),
        bag_sorted(g.bag),
    ensures
        bag_sorted(g2.bag),
{
    match e {
        Event::Deliver { index, env } => {
            lemma_remove_sorted(g.bag, index as int);
            let step = a.spec_on_msg(g.nodes[env.to as int], env.msg);
            lemma_add_sends_sorted(g.bag.remove(index as int), step.1);
        },
        Event::Discard { index, .. } => {
            lemma_remove_sorted(g.bag, index as int);
        },
    }
}

/// Law, one step: a scheduler step keeps the replica count, never changes a
/// latched value, never regresses a phase along the linear progression, and
/// leaves faulty replicas untouched.
pub proof fn lemma_step_monotonic(
    a: ConsensusActor,
    mode: NetworkMode,
    g: GlobalView,
    e: Event,
    g2: GlobalView,
)
    requires
        spec_apply_event(a, mode, g, e) == Some(g2),
    ensures
        g2.nodes.len() == g.nodes.len(),
        forall|n: int|
            0 <= n < g.nodes.len() && g.nodes[n].value is Some ==> g2.nodes[n].value
                == g.nodes[n].value,
        forall|n: int|
            0 <= n < g.nodes.len() && g.nodes[n].state != NodeState::Failed ==> phase_rank(
                g.nodes[n].state,
            ) <= phase_rank(g2.nodes[n].state) && g2.nodes[n].state != NodeState::Failed,
        forall|n: int| 0 <= n < g.nodes.len() && g.nodes[n].is_faulty ==> g2.nodes[n] == g.nodes[n],
        match e {
            Event::Deliver { index, env } => g.nodes[env.to as int].is_faulty ==> g2.bag
                == g.bag.remove(index as int),
            Event::Discard { .. } => true,
        },
{
    match e {
        Event::Deliver { index, env } => {
            let step = a.spec_on_msg(g.nodes[env.to as int], env.msg);
            assert(g2.nodes == g.nodes.update(env.to as int, step.0));
            if g.nodes[env.to as int].is_faulty {
                crate::node::lemma_faulty_inert(
                    a,
                    g.nodes[env.to as int],
                    env.msg,
                    crate::value::ConsensusTimer::ProposeValue(crate::value::Value::V1),
                );
                assert(step.1 =~= Seq::<Envelope>::empty());
                assert(spec_add_sends(g.bag.remove(index as int), step.1) == g.bag.remove(
                    index as int,
                ));
            }
            assert forall|n: int|
                0 <= n < g.nodes.len() && g.nodes[n].value is Some implies g2.nodes[n].value
                == g.nodes[n].value by {
                if n == env.to as int {
                    crate::node::lemma_value_monotonic(
                        a,
                        g.nodes[n],
                        env.msg,
                        crate::value::ConsensusTimer::ProposeValue(crate::value::Value::V1),
                    );
                }
            }
            assert forall|n: int|
                0 <= n < g.nodes.len() && g.nodes[n].state != NodeState::Failed implies phase_rank(
                g.nodes[n].state,
            ) <= phase_rank(g2.nodes[n].state) && g2.nodes[n].state != NodeState::Failed by {
                if n == env.to as int {
                    crate::node::lemma_phase_monotonic(
                        a,
                        g.nodes[n],
                        env.msg,
                        crate::value::ConsensusTimer::ProposeValue(crate::value::Value::V1),
                    );
                }
            }
            assert forall|n: int|
                0 <= n < g.nodes.len() && g.nodes[n].is_faulty implies g2.nodes[n]
                == g.nodes[n] by {
                if n == env.to as int {
                    crate::node::lemma_faulty_inert(
                        a,
                        g.nodes[n],
                        env.msg,
                        crate::value::ConsensusTimer::ProposeValue(crate::value::Value::V1),
                    );
                }
            }
        },
        Event::Discard { .. } => {},
    }
}

/// One scheduler step preserves "a replica past `Init` has latched a value"
/// at every replica.
pub proof fn lemma_step_phase_value(
    a: ConsensusActor,
    mode: NetworkMode,
    g: GlobalView,
    e: Event,
    g2: GlobalView,
)
    requires
        spec_apply_event(a, mode, g, e) == Some(g2),
        forall|n: int| 0 <= n < g.nodes.len() ==> crate::node::phase_implies_value(#[trigger] g.nodes[n]),
    ensures
        forall|n: int|
            0 <= n < g2.nodes.len() ==> crate::node::phase_implies_value(#[trigger] g2.nodes[n]),
{
    match e {
        Event::Deliver { index, env } => {
            assert forall|n: int| 0 <= n < g2.nodes.len() implies crate::node::phase_implies_value(
                g2.nodes[n],
            ) by {
                if n == env.to as int {
                    crate::node::lemma_phase_implies_value(
                        a,
                        0,
                        g.nodes[n],
                        env.msg,
                        crate::value::ConsensusTimer::ProposeValue(crate::value::Value::V1),
                    );
                }
            }
        },
        Event::Discard { .. } => {},
    }
}

/// Law, every reachable state: a replica whose phase is past `Init` has
/// latched a value, at the initial state and along any replayable trace.
pub proof fn lemma_replay_phase_value(
    a: ConsensusActor,
    mode: NetworkMode,
    g: GlobalView,
    t: Seq<Event>,
    g2: GlobalView,
)
    requires
        spec_replay(a, mode, g, t) == Some(g2),
        forall|n: int| 0 <= n < g.nodes.len() ==> crate::node::phase_implies_value(#[trigger] g.nodes[n]),
    ensures
        forall|n: int|
            0 <= n < g2.nodes.len() ==> crate::node::phase_implies_value(#[trigger] g2.nodes[n]),
    decreases t.len(),
{
    if t.len() == 0 {
    } else {
        match spec_apply_event(a, mode, g, t[0]) {
            Some(gm) => {
                lemma_step_phase_value(a, mode, g, t[0], gm);
                lemma_replay_phase_value(a, mode, gm, t.drop_first(), g2);
            },
            None => {
                assert(false);
            },
        }
    }
}

/// The initial state satisfies the phase/value invariant at every replica.
pub proof fn lemma_init_phase_value(a: ConsensusActor)
    ensures
        forall|n: int|
            0 <= n < spec_init(a).nodes.len() ==> crate::node::phase_implies_value(
                #[trigger] spec_init(a).nodes[n],
            ),
{
    assert forall|n: int| 0 <= n < spec_init(a).nodes.len() implies crate::node::phase_implies_value(
        spec_init(a).nodes[n],
    ) by {
        crate::node::lemma_phase_implies_value(
            a,
            n as usize,
            spec_init(a).nodes[n],
            crate::value::MessageType::Propose(crate::value::Value::V1),
            crate::value::ConsensusTimer::ProposeValue(crate::value::Value::V1),
        );
    }
}

/// Law, whole trace: along any replayable trace the replica count is
/// constant, a latched value never changes, phases never regress, and faulty
/// replicas never move.
pub proof fn lemma_replay_monotonic(
    a: ConsensusActor,
    mode: NetworkMode,
    g: GlobalView,
    t: Seq<Event>,
    g2: GlobalView,
)
    requires
        spec_replay(a, mode, g, t) == Some(g2),
    ensures
        g2.nodes.len() == g.nodes.len(),
        forall|n: int|
            0 <= n < g.nodes.len() && g.nodes[n].value is Some ==> g2.nodes[n].value
                == g.nodes[n].value,
        forall|n: int|
            0 <= n < g.nodes.len() && g.nodes[n].state != NodeState::Failed ==> phase_rank(
                g.nodes[n].state,
            ) <= phase_rank(g2.nodes[n].state) && g2.nodes[n].state != NodeState::Failed,
        forall|n: int| 0 <= n < g.nodes.len() && g.nodes[n].is_faulty ==> g2.nodes[n] == g.nodes[n],
    decreases t.len(),
{
    if t.len() == 0 {
    } else {
        match spec_apply_event(a, mode, g, t[0]) {
            Some(gm) => {
                lemma_step_monotonic(a, mode, g, t[0], gm);
                lemma_replay_monotonic(a, mode, gm, t.drop_first(), g2);
            },
            None => {
                assert(false);
            },
        }
    }
}

} // verus!
