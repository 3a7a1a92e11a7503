//! One tick of the whole flock. Every boid is stepped from the same
//! snapshot, taken before the tick, and the results are gathered in a new
//! flock: no boid ever sees what another has become in this tick.

use vstd::prelude::*;
use crate::agent::{step, Bounds, BoundaryPolicy};
use crate::boid::{agents, flock_wf, Boid};
use crate::settings::{BoidSettings, FLOCK_LIMIT};
use crate::timer::GameTimer;
use crate::vector::Vector;

verus! {

/// Every boid of the flock carries an acceleration small enough to take the
/// forces of a tick.
pub open spec fn flock_rested(boids: Seq<Boid>) -> bool {
    forall|i: int| 0 <= i < boids.len() ==> (#[trigger] boids[i])@.rested()
}

/// Every boid of the flock can move by its velocity within
/// `POSITION_LIMIT`.
pub open spec fn flock_can_move(boids: Seq<Boid>) -> bool {
    forall|i: int| 0 <= i < boids.len() ==> (#[trigger] boids[i])@.can_move()
}

/// Whether a flock that is ticked under `policy` within `bounds` is
/// well-formed again afterwards: under the wrap policy where the bounds are
/// well-formed, under the soft-turn policy where no move leaves the range of
/// positions.
pub open spec fn stays_wf(boids: Seq<Boid>, bounds: Bounds, policy: BoundaryPolicy) -> bool {
    match policy {
        BoundaryPolicy::Wrap => bounds.wf(),
        BoundaryPolicy::SoftTurn => flock_can_move(boids),
    }
}

/// Whether `tick` accepts this flock with these settings.
pub open spec fn tickable(boids: Seq<Boid>, settings: BoidSettings) -> bool {
    &&& flock_wf(boids)
    &&& flock_rested(boids)
    &&& boids.len() <= FLOCK_LIMIT
    &&& settings.wf()
}

/// Whether `tick` accepts this flock with these settings.
pub fn is_tickable(boids: &[Boid], settings: &BoidSettings) -> (ok: bool)
    ensures
        ok == tickable(boids@, *settings),
{
    if boids.len() > FLOCK_LIMIT || !settings.is_wf() {
        return false;
    }
    let mut i: usize = 0;
    while i < boids.len()
        invariant
            i <= boids.len(),
            forall|j: int| 0 <= j < i ==> (#[trigger] boids@[j])@.wf() && boids@[j]@.rested(),
        decreases boids.len() - i,
    {
        if !boids[i].is_wf() || !boids[i].is_rested() {
            return false;
        }
        i += 1;
    }
    true
}

/// Whether every boid of a well-formed flock can move by its velocity
/// within `POSITION_LIMIT`.
pub fn all_can_move(boids: &[Boid]) -> (ok: bool)
    requires
        flock_wf(boids@),
    ensures
        ok == flock_can_move(boids@),
{
    let mut i: usize = 0;
    while i < boids.len()
        invariant
            i <= boids.len(),
            flock_wf(boids@),
            forall|j: int| 0 <= j < i ==> (#[trigger] boids@[j])@.can_move(),
        decreases boids.len() - i,
    {
        assert(boids@[i as int]@.wf());
        if !boids[i].can_move() {
            return false;
        }
        i += 1;
    }
    true
}

/// The boid at index `own` of `snapshot` after one tick: its neighbours
/// found in the snapshot, the weighted steering added to its acceleration,
/// then, under the soft-turn policy, the push away from the edges and the
/// integration, or, under the wrap policy, the integration and the wrap.
pub fn step_boid(
    snapshot: &[Boid],
    own: usize,
    settings: &BoidSettings,
    bounds: &Bounds,
    policy: BoundaryPolicy,
) -> (next: Boid)
    requires
        tickable(snapshot@, *settings),
        own < snapshot@.len(),
    ensures
        next@ == step(agents(snapshot@), own as int, *settings, *bounds, policy),
        next@.acceleration == Vector::zero(),
        stays_wf(snapshot@, *bounds, policy) ==> next@.wf(),
{
    let mut boid: Boid = snapshot[own];
    assert(snapshot@[own as int]@.wf() && snapshot@[own as int]@.rested());
    assert(agents(snapshot@)[own as int] == boid@);
    let local_boids = boid.local_boids(snapshot, Some(own));
    let force = boid.steering(local_boids.as_slice(), settings);
    boid.acceleration = boid.acceleration.plus(force);
    assert(flock_can_move(snapshot@) ==> snapshot@[own as int]@.can_move());
    match policy {
        BoundaryPolicy::SoftTurn => {
            boid.contain(bounds.left, bounds.right, bounds.bottom, bounds.top);
            boid.update();
        },
        BoundaryPolicy::Wrap => {
            boid.update();
            boid.wrap(bounds.left, bounds.right, bounds.bottom, bounds.top);
        },
    }
    boid
}

/// One tick of the flock: the boid at each index stepped from `snapshot`.
/// The result depends on the snapshot, the settings, the bounds and the
/// policy alone, and on nothing that the tick itself produces.
pub fn tick(
    snapshot: &[Boid],
    settings: &BoidSettings,
    bounds: &Bounds,
    policy: BoundaryPolicy,
) -> (next: Vec<Boid>)
    requires
        tickable(snapshot@, *settings),
    ensures
        agents(next@) == crate::agent::tick(agents(snapshot@), *settings, *bounds, policy),
        next@.len() == snapshot@.len(),
        forall|i: int|
            0 <= i < next@.len() ==> (#[trigger] next@[i])@.acceleration == Vector::zero(),
        stays_wf(snapshot@, *bounds, policy) ==> tickable(next@, *settings),
{
    let mut next: Vec<Boid> = Vec::new();
    let mut i: usize = 0;
    while i < snapshot.len()
        invariant
            i <= snapshot.len(),
            tickable(snapshot@, *settings),
            next@.len() == i,
            forall|j: int|
                0 <= j < i ==> (#[trigger] next@[j])@ == step(
                    agents(snapshot@),
                    j,
                    *settings,
                    *bounds,
                    policy,
                ),
            forall|j: int| 0 <= j < i ==> (#[trigger] next@[j])@.acceleration == Vector::zero(),
            stays_wf(snapshot@, *bounds, policy) ==> flock_wf(next@),
        decreases snapshot.len() - i,
    {
        let boid = step_boid(snapshot, i, settings, bounds, policy);
        next.push(boid);
        i += 1;
    }
    proof {
        assert(agents(next@) =~= crate::agent::tick(
            agents(snapshot@),
            *settings,
            *bounds,
            policy,
        ));
        assert forall|j: int| 0 <= j < next@.len() implies (#[trigger] next@[j])@.rested() by {
            assert(next@[j]@.acceleration == Vector::zero());
        }
    }
    next
}

/// The gated update of the flock. `delta` nanoseconds are added to `timer`;
/// where that completes at least one step, the flock is ticked once under
/// the soft-turn policy within `window`, however many steps have gathered,
/// and `true` is returned. Otherwise the flock stays as it is.
pub fn update_boids(
    timer: &mut GameTimer,
    delta: u64,
    boids: &mut Vec<Boid>,
    settings: &BoidSettings,
    window: &Bounds,
) -> (ticked: bool)
    requires
        old(timer).wf(),
        tickable(old(boids)@, *settings),
    ensures
        final(timer).wf(),
        final(timer).step == old(timer).step,
        final(timer).elapsed == old(timer).left_after(delta as int),
        ticked == (old(timer).elapsed + delta >= old(timer).step),
        ticked ==> agents(final(boids)@) == crate::agent::tick(
            agents(old(boids)@),
            *settings,
            *window,
            BoundaryPolicy::SoftTurn,
        ),
        !ticked ==> final(boids)@ == old(boids)@,
        final(boids)@.len() == old(boids)@.len(),
        !ticked || flock_can_move(old(boids)@) ==> tickable(final(boids)@, *settings),
{
    let steps = timer.tick(delta);
    if steps >= 1 {
        let next = tick(boids.as_slice(), settings, window, BoundaryPolicy::SoftTurn);
        *boids = next;
        true
    } else {
        false
    }
}

} // verus!
