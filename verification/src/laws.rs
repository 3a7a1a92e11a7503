//! What holds of the tick for every flock, proved from the model.

use vstd::prelude::*;
use crate::agent::{
    border_push, lemma_rule_same_motion, neighbors, repulsion_sum, same_motion, steered_by, step,
    tick, wrap_coordinate, Agent, Bounds, BoundaryPolicy,
};
use crate::settings::{BoidSettings, Weight, SCALE};
use crate::vector::{
    lemma_clamp_length_bounds, lemma_clamp_length_keeps_direction,
    lemma_clamp_length_max_keeps_direction, lemma_clamp_length_max_shortens,
    lemma_clamp_length_near_band, lemma_norm_sq_zero, lemma_shortened_not_short, lemma_triangle,
    lemma_with_length, Vector,
};

verus! {

/// Without neighbours alignment, cohesion and separation are each the zero
/// vector, and so is the steering force, whatever the weights.
pub proof fn lemma_no_neighbors_no_steering(
    me: Agent,
    neighbors: Seq<Agent>,
    settings: BoidSettings,
)
    requires
        neighbors.len() == 0,
    ensures
        me.alignment(neighbors) == Vector::zero(),
        me.cohesion(neighbors) == Vector::zero(),
        me.separation(neighbors) == Vector::zero(),
        me.steering(neighbors, settings) == Vector::zero(),
{
}

/// After integration the speed lies between `min_velocity` and
/// `max_velocity`, whatever the velocity was before, where the band is at
/// least three sub-units wide. The one exception is a velocity that, with
/// the applied acceleration, comes to the zero vector: it is kept.
pub proof fn lemma_speed_within_limits(a: Agent)
    requires
        a.wf(),
        a.has_wide_band(),
    ensures
        a.raw_velocity() == Vector::zero() ==> a.updated().velocity
            == Vector::zero(),
        a.raw_velocity() != Vector::zero() ==> {
            &&& a.min_velocity * a.min_velocity <= a.updated().velocity.norm_sq()
            &&& a.updated().velocity.norm_sq() <= a.max_velocity * a.max_velocity
        },
{
    let raw = a.raw_velocity();
    lemma_norm_sq_zero(raw);
    if raw != Vector::zero() {
        lemma_clamp_length_bounds(raw, a.min_velocity, a.max_velocity);
    }
}

/// In a band of any width the speed after integration is within rounding
/// of the band: shorter than `max_velocity + 2` and at least
/// `min_velocity - 3`, unless it is zero.
pub proof fn lemma_speed_near_limits(a: Agent)
    requires
        a.wf(),
        a.raw_velocity() != Vector::zero(),
    ensures
        a.updated().velocity.norm_sq() < (a.max_velocity + 2) * (a.max_velocity + 2),
        a.min_velocity >= 3 ==> (a.min_velocity - 3) * (a.min_velocity - 3)
            <= a.updated().velocity.norm_sq(),
{
    let raw = a.raw_velocity();
    lemma_norm_sq_zero(raw);
    lemma_clamp_length_near_band(raw, a.min_velocity, a.max_velocity);
}

/// The speed limits hold of every agent after a tick, under either policy:
/// neither the soft turn nor the wrap touches the velocity that integration
/// leaves.
pub proof fn lemma_tick_speed_within_limits(
    flock: Seq<Agent>,
    i: int,
    settings: BoidSettings,
    bounds: Bounds,
    policy: BoundaryPolicy,
)
    requires
        0 <= i < flock.len(),
        flock[i].wf(),
        flock[i].has_wide_band(),
    ensures
        ({
            let after = tick(flock, settings, bounds, policy)[i];
            after.velocity == Vector::zero() || {
                &&& flock[i].min_velocity * flock[i].min_velocity <= after.velocity.norm_sq()
                &&& after.velocity.norm_sq() <= flock[i].max_velocity * flock[i].max_velocity
            }
        }),
{
    let me = flock[i];
    let steered = me.pushed(me.steering(neighbors(flock, me, Some(i)), settings));
    match policy {
        BoundaryPolicy::SoftTurn => {
            lemma_speed_within_limits(steered.contained(bounds));
        },
        BoundaryPolicy::Wrap => {
            lemma_speed_within_limits(steered);
        },
    }
}

/// The acceleration that integration applies is never longer than
/// `max_force`, however large the gathered force is; it keeps the
/// direction of the gathered force; and the velocity changes by it and by
/// the speed clamp alone.
pub proof fn lemma_applied_acceleration_bounded(a: Agent)
    requires
        a.max_force >= 0,
    ensures
        a.applied_acceleration().norm_sq() <= a.max_force * a.max_force,
        a.acceleration.norm_sq() <= a.max_force * a.max_force ==> a.applied_acceleration()
            == a.acceleration,
        a.acceleration.norm_sq() > a.max_force * a.max_force && a.max_force >= 3 ==> (a.max_force
            - 3) * (a.max_force - 3) <= a.applied_acceleration().norm_sq(),
        a.applied_acceleration().keeps_direction_of(a.acceleration),
        a.updated().velocity == a.raw_velocity().clamp_length(
            a.min_velocity,
            a.max_velocity,
        ),
{
    lemma_clamp_length_max_shortens(a.acceleration, a.max_force);
    lemma_clamp_length_max_keeps_direction(a.acceleration, a.max_force);
    if a.acceleration.norm_sq() > a.max_force * a.max_force && a.max_force >= 3 {
        lemma_shortened_not_short(a.acceleration, a.max_force - 3, a.max_force);
    }
}

/// The speed clamp changes the length of the velocity and keeps its
/// direction.
pub proof fn lemma_speed_clamp_keeps_direction(a: Agent)
    requires
        a.min_velocity >= 0,
        a.max_velocity >= 0,
    ensures
        a.updated().velocity.keeps_direction_of(a.raw_velocity()),
{
    lemma_clamp_length_keeps_direction(
        a.raw_velocity(),
        a.min_velocity,
        a.max_velocity,
    );
}

/// Two agents at the same place do not push each other: the separation
/// term is the zero vector, a value like any other.
pub proof fn lemma_coincident_agents_do_not_push(a: Agent, b: Agent)
    requires
        a.position == b.position,
    ensures
        a.repulsion(b) == Vector::zero(),
{
    let away = a.position.minus(b.position);
    assert(away == Vector::zero());
    lemma_norm_sq_zero(away);
}

/// The push of an agent at another place is the vector from it to here
/// divided by the distance: one world unit long up to rounding, each
/// coordinate the exact one rounded toward zero by less than a sub-unit.
pub proof fn lemma_push_is_a_unit_vector(a: Agent, b: Agent)
    requires
        a.position != b.position,
    ensures
        a.repulsion(b).is_scaled(a.position.minus(b.position), SCALE as int),
        a.repulsion(b).norm_sq() <= SCALE * SCALE,
        (SCALE - 2) * (SCALE - 2) <= a.repulsion(b).norm_sq(),
{
    let away = a.position.minus(b.position);
    lemma_norm_sq_zero(away);
    lemma_with_length(away, SCALE as int);
}

/// The pushes of the first `k` neighbours add up to a vector at most `k`
/// world units long.
pub proof fn lemma_pushes_are_bounded(me: Agent, neighbors: Seq<Agent>, k: int)
    requires
        0 <= k <= neighbors.len(),
    ensures
        repulsion_sum(me, neighbors, k).norm_sq() <= (k * SCALE) * (k * SCALE),
    decreases k,
{
    if k > 0 {
        lemma_pushes_are_bounded(me, neighbors, k - 1);
        let other = neighbors[k - 1];
        let away = me.position.minus(other.position);
        lemma_norm_sq_zero(away);
        if away != Vector::zero() {
            lemma_with_length(away, SCALE as int);
        } else {
            assert(SCALE * SCALE >= 0);
        }
        lemma_triangle(
            repulsion_sum(me, neighbors, k - 1),
            me.repulsion(other),
            (k - 1) * SCALE,
            SCALE as int,
        );
        assert((k - 1) * SCALE + SCALE == k * SCALE) by (nonlinear_arith);
    } else {
        assert(Vector::zero().norm_sq() == 0) by (nonlinear_arith);
    }
}

/// Separation is the sum of the pushes, not divided by their number and
/// blind to velocities; it is at most as many world units long as there are
/// neighbours.
pub proof fn lemma_separation_is_bounded(me: Agent, neighbors: Seq<Agent>)
    ensures
        me.separation(neighbors) == repulsion_sum(me, neighbors, neighbors.len() as int),
        me.separation(neighbors).norm_sq() <= (neighbors.len() * SCALE) * (neighbors.len()
            * SCALE),
{
    lemma_pushes_are_bounded(me, neighbors, neighbors.len() as int);
}

/// The wrap policy: an agent beyond the right edge stands exactly on the
/// left edge afterwards, and likewise for the other three edges of a
/// rectangle that is not empty. Velocity and acceleration are untouched.
pub proof fn lemma_wrap_teleports(a: Agent, bounds: Bounds)
    requires
        bounds.left <= bounds.right,
        bounds.bottom <= bounds.top,
    ensures
        a.position.x > bounds.right ==> a.wrapped(bounds).position.x == bounds.left,
        a.position.x < bounds.left ==> a.wrapped(bounds).position.x == bounds.right,
        a.position.y > bounds.top ==> a.wrapped(bounds).position.y == bounds.bottom,
        a.position.y < bounds.bottom ==> a.wrapped(bounds).position.y == bounds.top,
        bounds.left <= a.wrapped(bounds).position.x <= bounds.right,
        bounds.bottom <= a.wrapped(bounds).position.y <= bounds.top,
        a.wrapped(bounds).velocity == a.velocity,
        a.wrapped(bounds).acceleration == a.acceleration,
{
}

/// Under the wrap policy an agent that its velocity carries beyond the
/// right edge ends the tick exactly on the left edge.
pub proof fn lemma_tick_wraps_right_edge(
    flock: Seq<Agent>,
    i: int,
    settings: BoidSettings,
    bounds: Bounds,
)
    requires
        0 <= i < flock.len(),
        flock[i].position.x + flock[i].velocity.x > bounds.right,
    ensures
        tick(flock, settings, bounds, BoundaryPolicy::Wrap)[i].position.x == bounds.left,
{
}

/// An agent alone in the world, with nothing gathered and a speed within
/// its limits, moves in a straight line at constant velocity: one tick
/// under the wrap policy moves it by its velocity, wrapped into the bounds,
/// and leaves the velocity as it was.
pub proof fn lemma_lone_agent_keeps_course(
    flock: Seq<Agent>,
    i: int,
    settings: BoidSettings,
    bounds: Bounds,
)
    requires
        0 <= i < flock.len(),
        neighbors(flock, flock[i], Some(i)).len() == 0,
        flock[i].acceleration == Vector::zero(),
        flock[i].max_force >= 0,
        flock[i].min_velocity * flock[i].min_velocity <= flock[i].velocity.norm_sq(),
        flock[i].velocity.norm_sq() <= flock[i].max_velocity * flock[i].max_velocity,
    ensures
        ({
            let after = step(flock, i, settings, bounds, BoundaryPolicy::Wrap);
            &&& after.velocity == flock[i].velocity
            &&& after.acceleration == Vector::zero()
            &&& after.position == flock[i].pushed(Vector::zero()).updated().wrapped(
                bounds,
            ).position
            &&& after.position.x == wrap_coordinate(
                flock[i].position.x + flock[i].velocity.x,
                bounds.left as int,
                bounds.right as int,
            )
            &&& after.position.y == wrap_coordinate(
                flock[i].position.y + flock[i].velocity.y,
                bounds.bottom as int,
                bounds.top as int,
            )
        }),
{
    let me = flock[i];
    lemma_no_neighbors_no_steering(me, neighbors(flock, me, Some(i)), settings);
    let steered = me.pushed(Vector::zero());
    assert(steered.acceleration == Vector::zero());
    assert(steered.max_force * steered.max_force >= 0) by (nonlinear_arith);
    assert(Vector::zero().norm_sq() == 0) by (nonlinear_arith);
    assert(steered.applied_acceleration() == Vector::zero());
    assert(steered.velocity.plus(Vector::zero()) == me.velocity);
}

/// Under the soft-turn policy the same holds of a lone agent that is no
/// closer than `BORDER_MARGIN` to any edge: it moves by its velocity and
/// keeps it.
pub proof fn lemma_lone_agent_keeps_course_inside(
    flock: Seq<Agent>,
    i: int,
    settings: BoidSettings,
    bounds: Bounds,
)
    requires
        0 <= i < flock.len(),
        neighbors(flock, flock[i], Some(i)).len() == 0,
        flock[i].acceleration == Vector::zero(),
        flock[i].max_force >= 0,
        flock[i].min_velocity * flock[i].min_velocity <= flock[i].velocity.norm_sq(),
        flock[i].velocity.norm_sq() <= flock[i].max_velocity * flock[i].max_velocity,
        border_push(flock[i].position.x, bounds.left as int, bounds.right as int) == 0,
        border_push(flock[i].position.y, bounds.bottom as int, bounds.top as int) == 0,
    ensures
        ({
            let after = step(flock, i, settings, bounds, BoundaryPolicy::SoftTurn);
            &&& after.velocity == flock[i].velocity
            &&& after.acceleration == Vector::zero()
            &&& after.position == flock[i].position.plus(flock[i].velocity)
        }),
{
    let me = flock[i];
    lemma_no_neighbors_no_steering(me, neighbors(flock, me, Some(i)), settings);
    let steered = me.pushed(Vector::zero()).contained(bounds);
    assert(steered.acceleration == Vector::zero());
    assert(steered.max_force * steered.max_force >= 0) by (nonlinear_arith);
    assert(Vector::zero().norm_sq() == 0) by (nonlinear_arith);
    assert(steered.applied_acceleration() == Vector::zero());
    assert(steered.velocity.plus(Vector::zero()) == me.velocity);
}

/// The flock with one weighted steering term added to every acceleration.
pub open spec fn steered_flock(flock: Seq<Agent>, field: Weight, settings: BoidSettings) -> Seq<
    Agent,
> {
    Seq::new(flock.len(), |i: int| steered_by(flock, i, field, settings))
}

/// The steering systems may run in any order: each reads positions and
/// velocities and adds to the acceleration, so two of them, run one after
/// the other, leave every agent the same whichever came first.
pub proof fn lemma_steering_systems_commute(
    flock: Seq<Agent>,
    first: Weight,
    second: Weight,
    settings: BoidSettings,
)
    ensures
        steered_flock(steered_flock(flock, first, settings), second, settings) == steered_flock(
            steered_flock(flock, second, settings),
            first,
            settings,
        ),
{
    let by_first = steered_flock(flock, first, settings);
    let by_second = steered_flock(flock, second, settings);
    assert(same_motion(flock, by_first));
    assert(same_motion(flock, by_second));
    assert forall|i: int| 0 <= i < flock.len() implies steered_by(by_first, i, second, settings)
        == steered_by(by_second, i, first, settings) by {
        lemma_rule_same_motion(flock, by_first, i, second);
        lemma_rule_same_motion(flock, by_second, i, first);
    }
    assert(steered_flock(by_first, second, settings) =~= steered_flock(
        by_second,
        first,
        settings,
    ));
}

/// A tick is a function of the snapshot, the settings, the bounds and the
/// policy: what it makes of the agent at an index is what `step` makes of
/// it in the snapshot, and the flock keeps its size.
pub proof fn lemma_tick_steps_from_snapshot(
    flock: Seq<Agent>,
    settings: BoidSettings,
    bounds: Bounds,
    policy: BoundaryPolicy,
)
    ensures
        tick(flock, settings, bounds, policy).len() == flock.len(),
        forall|i: int|
            0 <= i < flock.len() ==> #[trigger] tick(flock, settings, bounds, policy)[i] == step(
                flock,
                i,
                settings,
                bounds,
                policy,
            ),
{
}

} // verus!
