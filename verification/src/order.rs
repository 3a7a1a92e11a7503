//! The tick does not depend on the order in which the flock is listed: the
//! steering rules add up what the neighbours contribute, and a sum of
//! integer vectors is the same in any order.

use vstd::prelude::*;
use crate::agent::{
    is_neighbor, neighbors, neighbors_among, position_sum, repulsion_sum, step, tick,
    velocity_sum, Agent, Bounds, BoundaryPolicy,
};
use crate::settings::{BoidSettings, Weight};
use crate::vector::Vector;

verus! {

/// The sum of the first `k` vectors.
pub open spec fn vector_sum(vectors: Seq<Vector>, k: int) -> Vector
    decreases k,
{
    if k <= 0 {
        Vector::zero()
    } else {
        vector_sum(vectors, k - 1).plus(vectors[k - 1])
    }
}

/// `to` and `back` are a one-to-one renumbering of the indices below their
/// length, and its inverse.
pub open spec fn is_permutation(to: Seq<int>, back: Seq<int>) -> bool {
    &&& to.len() == back.len()
    &&& forall|i: int| 0 <= i < to.len() ==> 0 <= #[trigger] to[i] < to.len() && back[to[i]] == i
    &&& forall|j: int|
        0 <= j < back.len() ==> 0 <= #[trigger] back[j] < back.len() && to[back[j]] == j
}

/// `other` lists the agents of `flock` in another order: the agent at index
/// `i` of `flock` stands at index `to[i]` of `other`.
pub open spec fn reordered(
    flock: Seq<Agent>,
    other: Seq<Agent>,
    to: Seq<int>,
    back: Seq<int>,
) -> bool {
    &&& flock.len() == other.len()
    &&& flock.len() == to.len()
    &&& is_permutation(to, back)
    &&& forall|i: int| 0 <= i < flock.len() ==> other[#[trigger] to[i]] == flock[i]
}

/// What an agent contributes to the rule that `kind` names, as a neighbour
/// of `me`.
pub open spec fn term(kind: Weight, me: Agent, other: Agent) -> Vector {
    match kind {
        Weight::Alignment => other.velocity,
        Weight::Cohesion => other.position,
        Weight::Separation => me.repulsion(other),
    }
}

/// The contributions of the agents of a list, one by one.
pub open spec fn terms(kind: Weight, me: Agent, agents: Seq<Agent>) -> Seq<Vector> {
    Seq::new(agents.len(), |j: int| term(kind, me, agents[j]))
}

/// The contributions of the agents of a flock, one by one, with zero for
/// those that are no neighbours of `me`.
pub open spec fn neighbor_terms(
    kind: Weight,
    me: Agent,
    own: Option<int>,
    flock: Seq<Agent>,
) -> Seq<Vector> {
    Seq::new(
        flock.len(),
        |j: int|
            if is_neighbor(flock, me, own, j) {
                term(kind, me, flock[j])
            } else {
                Vector::zero()
            },
    )
}

/// One for every neighbour of `me` in the flock, zero for the others.
pub open spec fn neighbor_marks(me: Agent, own: Option<int>, flock: Seq<Agent>) -> Seq<Vector> {
    Seq::new(
        flock.len(),
        |j: int|
            if is_neighbor(flock, me, own, j) {
                Vector { x: 1, y: 0 }
            } else {
                Vector::zero()
            },
    )
}

/// The sum that the rule that `kind` names takes over the first `k` agents
/// of a list.
pub open spec fn rule_sum(kind: Weight, me: Agent, agents: Seq<Agent>, k: int) -> Vector {
    match kind {
        Weight::Alignment => velocity_sum(agents, k),
        Weight::Cohesion => position_sum(agents, k),
        Weight::Separation => repulsion_sum(me, agents, k),
    }
}

/// The sum of a prefix depends on the prefix alone.
proof fn lemma_sum_of_prefix(a: Seq<Vector>, b: Seq<Vector>, k: int)
    requires
        0 <= k <= a.len(),
        k <= b.len(),
        forall|j: int| 0 <= j < k ==> a[j] == b[j],
    ensures
        vector_sum(a, k) == vector_sum(b, k),
    decreases k,
{
    if k > 0 {
        lemma_sum_of_prefix(a, b, k - 1);
    }
}

/// A sum is the sum without one of its vectors, plus that vector.
proof fn lemma_sum_without(a: Seq<Vector>, at: int, k: int)
    requires
        0 <= at < k <= a.len(),
    ensures
        vector_sum(a, k) == vector_sum(a.remove(at), k - 1).plus(a[at]),
    decreases k,
{
    if k - 1 == at {
        lemma_sum_of_prefix(a, a.remove(at), k - 1);
    } else {
        lemma_sum_without(a, at, k - 1);
        assert(a.remove(at)[k - 2] == a[k - 1]);
    }
}

/// A sum of vectors is the same in any order.
pub proof fn lemma_sum_reindexed(a: Seq<Vector>, b: Seq<Vector>, to: Seq<int>, back: Seq<int>)
    requires
        a.len() == b.len(),
        a.len() == to.len(),
        is_permutation(to, back),
        forall|i: int| 0 <= i < a.len() ==> b[#[trigger] to[i]] == a[i],
    ensures
        vector_sum(a, a.len() as int) == vector_sum(b, b.len() as int),
    decreases a.len(),
{
    let n = a.len() as int;
    if n > 0 {
        let at = back[n - 1];
        assert(to[at] == n - 1);
        let a1 = a.remove(at);
        let b1 = b.drop_last();
        let to1 = Seq::new((n - 1) as nat, |j: int| to[if j < at { j } else { j + 1 }]);
        let back1 = Seq::new(
            (n - 1) as nat,
            |m: int|
                if back[m] < at {
                    back[m]
                } else {
                    back[m] - 1
                },
        );
        assert forall|j: int| 0 <= j < n - 1 implies 0 <= #[trigger] to1[j] < n - 1
            && back1[to1[j]] == j && b1[to1[j]] == a1[j] by {
            let src = if j < at { j } else { j + 1 };
            assert(back[to[src]] == src);
            assert(to1[j] == to[src]);
            assert(b[to[src]] == a[src]);
        }
        assert forall|m: int| 0 <= m < n - 1 implies 0 <= #[trigger] back1[m] < n - 1
            && to1[back1[m]] == m by {
            assert(to[back[m]] == m);
        }
        assert(is_permutation(to1, back1));
        lemma_sum_reindexed(a1, b1, to1, back1);
        lemma_sum_without(a, at, n);
        lemma_sum_of_prefix(b, b1, n - 1);
        assert(b[n - 1] == a[at]);
    }
}

/// The sum that a rule takes over a list of agents is the sum of their
/// contributions.
proof fn lemma_rule_sum_of_terms(kind: Weight, me: Agent, agents: Seq<Agent>, k: int)
    requires
        0 <= k <= agents.len(),
    ensures
        rule_sum(kind, me, agents, k) == vector_sum(terms(kind, me, agents), k),
    decreases k,
{
    if k > 0 {
        lemma_rule_sum_of_terms(kind, me, agents, k - 1);
    }
}

/// Summed over the neighbours of `me`, or over the whole flock with zero
/// for those that are no neighbours, the contributions come to the same;
/// and there are as many neighbours as marks.
proof fn lemma_sum_over_neighbors(
    kind: Weight,
    me: Agent,
    own: Option<int>,
    flock: Seq<Agent>,
    k: int,
)
    requires
        0 <= k <= flock.len(),
    ensures
        ({
            let found = neighbors_among(flock, me, own, k);
            &&& rule_sum(kind, me, found, found.len() as int) == vector_sum(
                neighbor_terms(kind, me, own, flock),
                k,
            )
            &&& vector_sum(neighbor_marks(me, own, flock), k) == (Vector {
                x: found.len() as int,
                y: 0,
            })
        }),
    decreases k,
{
    if k > 0 {
        lemma_sum_over_neighbors(kind, me, own, flock, k - 1);
        let before = neighbors_among(flock, me, own, k - 1);
        let found = neighbors_among(flock, me, own, k);
        if is_neighbor(flock, me, own, k - 1) {
            let len = before.len() as int;
            assert(found == before.push(flock[k - 1]));
            lemma_rule_sum_of_terms(kind, me, found, len + 1);
            lemma_rule_sum_of_terms(kind, me, before, len);
            lemma_sum_of_prefix(terms(kind, me, found), terms(kind, me, before), len);
        }
    }
}

/// An agent's steering rule comes to the same however the flock is listed.
pub proof fn lemma_rule_reordered(
    flock: Seq<Agent>,
    other: Seq<Agent>,
    to: Seq<int>,
    back: Seq<int>,
    i: int,
    kind: Weight,
)
    requires
        reordered(flock, other, to, back),
        0 <= i < flock.len(),
    ensures
        flock[i].rule(kind, neighbors(flock, flock[i], Some(i))) == other[to[i]].rule(
            kind,
            neighbors(other, other[to[i]], Some(to[i])),
        ),
{
    let me = flock[i];
    let n = flock.len() as int;
    assert(other[to[i]] == me);
    let here = neighbors(flock, me, Some(i));
    let there = neighbors(other, me, Some(to[i]));
    lemma_sum_over_neighbors(kind, me, Some(i), flock, n);
    lemma_sum_over_neighbors(kind, me, Some(to[i]), other, n);
    let terms_here = neighbor_terms(kind, me, Some(i), flock);
    let terms_there = neighbor_terms(kind, me, Some(to[i]), other);
    let marks_here = neighbor_marks(me, Some(i), flock);
    let marks_there = neighbor_marks(me, Some(to[i]), other);
    assert forall|j: int| 0 <= j < n implies terms_there[#[trigger] to[j]] == terms_here[j]
        && marks_there[to[j]] == marks_here[j] by {
        assert(other[to[j]] == flock[j]);
        assert(back[to[j]] == j && back[to[i]] == i);
        assert((to[j] == to[i]) == (j == i));
        assert(is_neighbor(other, me, Some(to[i]), to[j]) == is_neighbor(flock, me, Some(i), j));
    }
    lemma_sum_reindexed(terms_here, terms_there, to, back);
    lemma_sum_reindexed(marks_here, marks_there, to, back);
    assert(here.len() == there.len());
}

/// The agent at index `i` of a flock, and the same agent in a flock that
/// is listed in another order, are the same after one tick.
pub proof fn lemma_step_reordered(
    flock: Seq<Agent>,
    other: Seq<Agent>,
    to: Seq<int>,
    back: Seq<int>,
    i: int,
    settings: BoidSettings,
    bounds: Bounds,
    policy: BoundaryPolicy,
)
    requires
        reordered(flock, other, to, back),
        0 <= i < flock.len(),
    ensures
        step(other, to[i], settings, bounds, policy) == step(flock, i, settings, bounds, policy),
{
    lemma_rule_reordered(flock, other, to, back, i, Weight::Alignment);
    lemma_rule_reordered(flock, other, to, back, i, Weight::Cohesion);
    lemma_rule_reordered(flock, other, to, back, i, Weight::Separation);
    assert(other[to[i]] == flock[i]);
}

/// A tick does not depend on the order in which the flock is listed: a
/// flock listed in another order is, after the tick, the ticked flock listed
/// in that order.
pub proof fn lemma_tick_reordered(
    flock: Seq<Agent>,
    other: Seq<Agent>,
    to: Seq<int>,
    back: Seq<int>,
    settings: BoidSettings,
    bounds: Bounds,
    policy: BoundaryPolicy,
)
    requires
        reordered(flock, other, to, back),
    ensures
        reordered(
            tick(flock, settings, bounds, policy),
            tick(other, settings, bounds, policy),
            to,
            back,
        ),
{
    let ticked = tick(flock, settings, bounds, policy);
    let ticked_other = tick(other, settings, bounds, policy);
    assert forall|i: int| 0 <= i < flock.len() implies ticked_other[#[trigger] to[i]]
        == ticked[i] by {
        lemma_step_reordered(flock, other, to, back, i, settings, bounds, policy);
    }
}

} // verus!
