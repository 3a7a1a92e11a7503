//! The tick as a chain of systems over the flock: three that gather the
//! steering forces, one that integrates, one that wraps the flock into the
//! window. Each steering system reads positions and velocities and writes
//! accelerations only, so the chain comes to the same as stepping every boid
//! from one snapshot.

use vstd::prelude::*;
use crate::agent::{
    lemma_rule_same_motion, same_motion, steered_by, step, Bounds, BoundaryPolicy,
};
use crate::boid::{agents, flock_wf, weighted, Boid};
use crate::flock::tickable;
use crate::settings::{BoidSettings, Weight, ACCUMULATOR_LIMIT, FLOCK_LIMIT, TERM_LIMIT};

verus! {

/// The boid's acceleration can take one more weighted steering term.
pub open spec fn has_room(boid: Boid) -> bool {
    boid@.acceleration.within(ACCUMULATOR_LIMIT - TERM_LIMIT)
}

/// Every boid of the flock can take one more weighted steering term.
pub open spec fn flock_has_room(boids: Seq<Boid>) -> bool {
    forall|i: int| 0 <= i < boids.len() ==> has_room(#[trigger] boids[i])
}

/// `after` is `before` with the weighted steering term of `field` added to
/// the acceleration of every boid, each term found in `before` and no
/// larger than `TERM_LIMIT` along either axis.
pub open spec fn steered(
    before: Seq<Boid>,
    after: Seq<Boid>,
    field: Weight,
    settings: BoidSettings,
) -> bool {
    &&& after.len() == before.len()
    &&& forall|i: int|
        0 <= i < after.len() ==> (#[trigger] after[i])@ == steered_by(
            agents(before),
            i,
            field,
            settings,
        )
    &&& forall|i: int|
        0 <= i < after.len() ==> (#[trigger] after[i])@.acceleration.minus(
            before[i]@.acceleration,
        ).within(TERM_LIMIT as int)
}

/// Adds to every boid's acceleration the steering term of one rule, times
/// its weight. All terms are found in the flock as it stands on entry.
fn steer_system(boids: &mut Vec<Boid>, settings: &BoidSettings, field: Weight)
    requires
        flock_wf(old(boids)@),
        flock_has_room(old(boids)@),
        old(boids)@.len() <= FLOCK_LIMIT,
        settings.wf(),
    ensures
        steered(old(boids)@, final(boids)@, field, *settings),
        flock_wf(final(boids)@),
{
    let mut next: Vec<Boid> = Vec::new();
    let mut i: usize = 0;
    while i < boids.len()
        invariant
            i <= boids.len(),
            *boids == *old(boids),
            flock_wf(boids@),
            flock_has_room(boids@),
            boids@.len() <= FLOCK_LIMIT,
            settings.wf(),
            next@.len() == i,
            flock_wf(next@),
            forall|j: int|
                0 <= j < i ==> (#[trigger] next@[j])@ == steered_by(
                    agents(boids@),
                    j,
                    field,
                    *settings,
                ),
            forall|j: int|
                0 <= j < i ==> (#[trigger] next@[j])@.acceleration.minus(
                    boids@[j]@.acceleration,
                ).within(TERM_LIMIT as int),
        decreases boids.len() - i,
    {
        let mut boid: Boid = boids[i];
        assert(boids@[i as int]@.wf());
        assert(has_room(boids@[i as int]));
        assert(agents(boids@)[i as int] == boid@);
        let local_boids = boid.local_boids(boids.as_slice(), Some(i));
        let steer = match field {
            Weight::Alignment => boid.alignment(local_boids.as_slice()),
            Weight::Cohesion => boid.cohesion(local_boids.as_slice()),
            Weight::Separation => boid.separation(local_boids.as_slice()),
        };
        let term = weighted(steer, settings.get(field));
        boid.acceleration = boid.acceleration.plus(term);
        next.push(boid);
        i += 1;
    }
    *boids = next;
}

/// Adds the weighted cohesion term to every boid's acceleration.
pub fn cohesion_system(boids: &mut Vec<Boid>, settings: &BoidSettings)
    requires
        flock_wf(old(boids)@),
        flock_has_room(old(boids)@),
        old(boids)@.len() <= FLOCK_LIMIT,
        settings.wf(),
    ensures
        steered(old(boids)@, final(boids)@, Weight::Cohesion, *settings),
        flock_wf(final(boids)@),
{
    steer_system(boids, settings, Weight::Cohesion);
}

/// Adds the weighted separation term to every boid's acceleration.
pub fn separation_system(boids: &mut Vec<Boid>, settings: &BoidSettings)
    requires
        flock_wf(old(boids)@),
        flock_has_room(old(boids)@),
        old(boids)@.len() <= FLOCK_LIMIT,
        settings.wf(),
    ensures
        steered(old(boids)@, final(boids)@, Weight::Separation, *settings),
        flock_wf(final(boids)@),
{
    steer_system(boids, settings, Weight::Separation);
}

/// Adds the weighted alignment term to every boid's acceleration.
pub fn alignment_system(boids: &mut Vec<Boid>, settings: &BoidSettings)
    requires
        flock_wf(old(boids)@),
        flock_has_room(old(boids)@),
        old(boids)@.len() <= FLOCK_LIMIT,
        settings.wf(),
    ensures
        steered(old(boids)@, final(boids)@, Weight::Alignment, *settings),
        flock_wf(final(boids)@),
{
    steer_system(boids, settings, Weight::Alignment);
}

/// Integrates every boid: see `Boid::update`.
pub fn move_system(boids: &mut Vec<Boid>)
    requires
        flock_wf(old(boids)@),
    ensures
        final(boids)@.len() == old(boids)@.len(),
        forall|i: int|
            0 <= i < final(boids)@.len() ==> (#[trigger] final(boids)@[i])@ == old(
                boids,
            )@[i]@.updated(),
{
    let mut next: Vec<Boid> = Vec::new();
    let mut i: usize = 0;
    while i < boids.len()
        invariant
            i <= boids.len(),
            *boids == *old(boids),
            flock_wf(boids@),
            next@.len() == i,
            forall|j: int| 0 <= j < i ==> (#[trigger] next@[j])@ == boids@[j]@.updated(),
        decreases boids.len() - i,
    {
        let mut boid: Boid = boids[i];
        assert(boids@[i as int]@.wf());
        boid.update();
        next.push(boid);
        i += 1;
    }
    *boids = next;
}

/// Wraps every boid into `window`: see `Boid::wrap`.
pub fn contain_system(boids: &mut Vec<Boid>, window: &Bounds)
    ensures
        final(boids)@.len() == old(boids)@.len(),
        forall|i: int|
            0 <= i < final(boids)@.len() ==> (#[trigger] final(boids)@[i])@ == old(
                boids,
            )@[i]@.wrapped(*window),
{
    let mut next: Vec<Boid> = Vec::new();
    let mut i: usize = 0;
    while i < boids.len()
        invariant
            i <= boids.len(),
            *boids == *old(boids),
            next@.len() == i,
            forall|j: int| 0 <= j < i ==> (#[trigger] next@[j])@ == boids@[j]@.wrapped(*window),
        decreases boids.len() - i,
    {
        let mut boid: Boid = boids[i];
        boid.wrap(window.left, window.right, window.bottom, window.top);
        next.push(boid);
        i += 1;
    }
    *boids = next;
}

/// The movement of the flock as five systems run in a fixed order.
#[derive(Clone, Copy, Debug, PartialEq, Eq, Structural)]
pub struct MovementPlugin;

impl MovementPlugin {
    /// Runs alignment, cohesion, separation, move and contain, in this
    /// order. The flock ends as one tick under the wrap policy leaves it.
    pub fn update(&self, boids: &mut Vec<Boid>, settings: &BoidSettings, window: &Bounds)
        requires
            tickable(old(boids)@, *settings),
        ensures
            agents(final(boids)@) == crate::agent::tick(
                agents(old(boids)@),
                *settings,
                *window,
                BoundaryPolicy::Wrap,
            ),
            final(boids)@.len() == old(boids)@.len(),
            window.wf() ==> tickable(final(boids)@, *settings),
    {
        let ghost flock0 = boids@;
        assert forall|i: int| 0 <= i < flock0.len() implies has_room(#[trigger] flock0[i]) by {
            assert(flock0[i]@.rested());
        }
        alignment_system(boids, settings);
        let ghost flock1 = boids@;
        assert forall|i: int| 0 <= i < flock1.len() implies has_room(#[trigger] flock1[i]) by {
            assert(flock0[i]@.rested());
            assert(flock1[i]@.acceleration.minus(flock0[i]@.acceleration).within(
                TERM_LIMIT as int,
            ));
        }
        cohesion_system(boids, settings);
        let ghost flock2 = boids@;
        assert forall|i: int| 0 <= i < flock2.len() implies has_room(#[trigger] flock2[i]) by {
            assert(flock0[i]@.rested());
            assert(flock1[i]@.acceleration.minus(flock0[i]@.acceleration).within(
                TERM_LIMIT as int,
            ));
            assert(flock2[i]@.acceleration.minus(flock1[i]@.acceleration).within(
                TERM_LIMIT as int,
            ));
        }
        separation_system(boids, settings);
        let ghost flock3 = boids@;
        move_system(boids);
        let ghost flock4 = boids@;
        contain_system(boids, window);
        proof {
            let a0 = agents(flock0);
            let a1 = agents(flock1);
            let a2 = agents(flock2);
            assert(same_motion(a0, a1)) by {
                assert forall|i: int| 0 <= i < a0.len() implies (#[trigger] a0[i]).position
                    == a1[i].position && a0[i].velocity == a1[i].velocity by {
                    assert(flock1[i]@ == steered_by(a0, i, Weight::Alignment, *settings));
                }
            }
            assert(same_motion(a0, a2)) by {
                assert forall|i: int| 0 <= i < a0.len() implies (#[trigger] a0[i]).position
                    == a2[i].position && a0[i].velocity == a2[i].velocity by {
                    assert(flock1[i]@ == steered_by(a0, i, Weight::Alignment, *settings));
                    assert(flock2[i]@ == steered_by(a1, i, Weight::Cohesion, *settings));
                }
            }
            assert forall|i: int| 0 <= i < boids@.len() implies (#[trigger] boids@[i])@ == step(
                a0,
                i,
                *settings,
                *window,
                BoundaryPolicy::Wrap,
            ) by {
                lemma_rule_same_motion(a0, a1, i, Weight::Cohesion);
                lemma_rule_same_motion(a0, a2, i, Weight::Separation);
                assert(flock1[i]@ == steered_by(a0, i, Weight::Alignment, *settings));
                assert(flock2[i]@ == steered_by(a1, i, Weight::Cohesion, *settings));
                assert(flock3[i]@ == steered_by(a2, i, Weight::Separation, *settings));
                assert(flock4[i]@ == flock3[i]@.updated());
                assert(boids@[i]@ == flock4[i]@.wrapped(*window));
                let me = a0[i];
                let nb = crate::agent::neighbors(a0, me, Some(i));
                assert(flock3[i]@ == me.pushed(me.steering(nb, *settings)));
            }
            assert(agents(boids@) =~= crate::agent::tick(
                a0,
                *settings,
                *window,
                BoundaryPolicy::Wrap,
            ));
            if window.wf() {
                assert forall|i: int| 0 <= i < boids@.len() implies (#[trigger] boids@[i])@.wf()
                    && boids@[i]@.rested() by {
                    assert(flock0[i]@.wf());
                    assert(flock3[i]@.wf());
                    crate::vector::lemma_clamp_length_within(
                        flock3[i]@.velocity.plus(flock3[i]@.applied_acceleration()),
                        flock3[i]@.min_velocity,
                        flock3[i]@.max_velocity,
                    );
                }
            }
        }
    }
}

} // verus!
