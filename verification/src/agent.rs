//! The mathematical model of the flock: an `Agent` is a boid over the
//! integers, a flock is a sequence of agents, and the rules of one tick are
//! functions on them.

use vstd::prelude::*;
use crate::settings::{
    BoidSettings, Weight, ACCEL_LIMIT, ACCUMULATOR_LIMIT, BORDER_MARGIN, BORDER_TURN_FACTOR,
    PERCEPTION_RADIUS, POSITION_LIMIT, SCALE, WEIGHT_ONE,
};
use crate::vector::{Vector, SPEED_LIMIT};

verus! {

/// One boid: where it is, how it moves, the force gathered for the current
/// tick, and its own limits.
pub struct Agent {
    pub position: Vector,
    pub velocity: Vector,
    pub acceleration: Vector,
    pub max_force: int,
    pub min_velocity: int,
    pub max_velocity: int,
}

/// The rectangle that holds the flock, in sub-units.
#[derive(Clone, Copy, Debug, PartialEq, Eq, Structural)]
pub struct Bounds {
    pub left: i64,
    pub right: i64,
    pub bottom: i64,
    pub top: i64,
}

impl Bounds {
    /// The rectangle is not empty and lies within `POSITION_LIMIT` of the
    /// origin.
    pub open spec fn wf(self) -> bool {
        &&& -POSITION_LIMIT <= self.left <= self.right <= POSITION_LIMIT
        &&& -POSITION_LIMIT <= self.bottom <= self.top <= POSITION_LIMIT
    }

    /// Whether the rectangle is not empty and within `POSITION_LIMIT`.
    pub fn is_wf(&self) -> (ok: bool)
        ensures
            ok == self.wf(),
    {
        -POSITION_LIMIT <= self.left && self.left <= self.right && self.right <= POSITION_LIMIT
            && -POSITION_LIMIT <= self.bottom && self.bottom <= self.top && self.top
            <= POSITION_LIMIT
    }
}

/// How a boid that reaches an edge is kept inside.
#[derive(Clone, Copy, Debug, PartialEq, Eq, Structural)]
pub enum BoundaryPolicy {
    /// A boid that crosses an edge reappears at the opposite edge.
    Wrap,
    /// A boid near an edge is pushed inward before its acceleration is
    /// clamped.
    SoftTurn,
}

/// The coordinate `c` after wrapping between `low` and `high`.
pub open spec fn wrap_coordinate(c: int, low: int, high: int) -> int {
    if c > high {
        low
    } else if c < low {
        high
    } else {
        c
    }
}

/// The push along one axis on a boid at coordinate `c`: inward by
/// `BORDER_TURN_FACTOR` within `BORDER_MARGIN` of either edge, else nothing.
pub open spec fn border_push(c: int, low: int, high: int) -> int {
    if c > high - BORDER_MARGIN {
        -BORDER_TURN_FACTOR
    } else if c < low + BORDER_MARGIN {
        BORDER_TURN_FACTOR as int
    } else {
        0
    }
}

/// A steering vector times a weight: the weight is in millionths, and each
/// coordinate of the product is rounded toward zero.
pub open spec fn weighted(rule: Vector, weight: int) -> Vector {
    rule.times(weight).over(WEIGHT_ONE as int)
}

impl Agent {
    /// The agent's position and velocity are small enough for the
    /// arithmetic of the steering rules.
    pub open spec fn in_range(self) -> bool {
        &&& self.position.within(POSITION_LIMIT as int)
        &&& self.velocity.within(SPEED_LIMIT as int)
    }

    /// The agent is in range and its limits make sense: the force limit is
    /// not negative, and the speed band starts at zero or above and does
    /// not end below its start.
    pub open spec fn wf(self) -> bool {
        &&& self.in_range()
        &&& 0 <= self.max_force <= ACCUMULATOR_LIMIT
        &&& 0 <= self.min_velocity <= self.max_velocity <= SPEED_LIMIT
    }

    /// The speed band is at least three sub-units wide, so that a vector of
    /// whole coordinates with a length inside the band exists in every
    /// direction.
    pub open spec fn has_wide_band(self) -> bool {
        self.min_velocity + 3 <= self.max_velocity
    }

    /// The acceleration is small enough to take the forces of a tick.
    pub open spec fn rested(self) -> bool {
        self.acceleration.within(ACCEL_LIMIT as int)
    }

    /// One move by the current velocity stays within `POSITION_LIMIT`.
    pub open spec fn can_move(self) -> bool {
        self.position.plus(self.velocity).within(POSITION_LIMIT as int)
    }

    /// `other` is strictly closer than `PERCEPTION_RADIUS`.
    pub open spec fn sees(self, other: Agent) -> bool {
        other.position.minus(self.position).norm_sq() < PERCEPTION_RADIUS * PERCEPTION_RADIUS
    }

    /// The push that `other` exerts on this agent: the vector from `other` to
    /// here, divided by the distance between them, that is, brought to the
    /// length of one world unit, each coordinate rounded toward zero. Two
    /// agents at the same place are at distance zero; the divisor is then
    /// the least positive one, and the push is the zero vector.
    pub open spec fn repulsion(self, other: Agent) -> Vector {
        self.position.minus(other.position).with_length(SCALE as int)
    }

    /// Average velocity of the neighbours less the agent's own; zero without
    /// neighbours.
    pub open spec fn alignment(self, neighbors: Seq<Agent>) -> Vector {
        if neighbors.len() == 0 {
            Vector::zero()
        } else {
            velocity_sum(neighbors, neighbors.len() as int).over(neighbors.len() as int).minus(
                self.velocity,
            )
        }
    }

    /// Average position of the neighbours less the agent's own; zero without
    /// neighbours.
    pub open spec fn cohesion(self, neighbors: Seq<Agent>) -> Vector {
        if neighbors.len() == 0 {
            Vector::zero()
        } else {
            position_sum(neighbors, neighbors.len() as int).over(neighbors.len() as int).minus(
                self.position,
            )
        }
    }

    /// The sum of the pushes of all neighbours; zero without neighbours.
    pub open spec fn separation(self, neighbors: Seq<Agent>) -> Vector {
        if neighbors.len() == 0 {
            Vector::zero()
        } else {
            repulsion_sum(self, neighbors, neighbors.len() as int)
        }
    }

    /// The steering vector of the rule that `field` names.
    pub open spec fn rule(self, field: Weight, neighbors: Seq<Agent>) -> Vector {
        match field {
            Weight::Alignment => self.alignment(neighbors),
            Weight::Cohesion => self.cohesion(neighbors),
            Weight::Separation => self.separation(neighbors),
        }
    }

    /// The three steering vectors, each times its weight, added up.
    pub open spec fn steering(self, neighbors: Seq<Agent>, settings: BoidSettings) -> Vector {
        weighted(self.alignment(neighbors), settings.alignment as int).plus(
            weighted(self.cohesion(neighbors), settings.cohesion as int),
        ).plus(weighted(self.separation(neighbors), settings.separation as int))
    }

    /// The agent with `force` added to its acceleration.
    pub open spec fn pushed(self, force: Vector) -> Agent {
        Agent { acceleration: self.acceleration.plus(force), ..self }
    }

    /// The acceleration that `updated` applies: the gathered one, no longer
    /// than `max_force`.
    pub open spec fn applied_acceleration(self) -> Vector {
        self.acceleration.clamp_length_max(self.max_force)
    }

    /// The velocity with the applied acceleration added, before the speed
    /// clamp.
    pub open spec fn raw_velocity(self) -> Vector {
        self.velocity.plus(self.applied_acceleration())
    }

    /// The agent after integration: the position moved by the old velocity,
    /// the velocity changed by the applied acceleration and brought between
    /// `min_velocity` and `max_velocity`, the acceleration zero.
    pub open spec fn updated(self) -> Agent {
        Agent {
            position: self.position.plus(self.velocity),
            velocity: self.raw_velocity().clamp_length(self.min_velocity, self.max_velocity),
            acceleration: Vector::zero(),
            ..self
        }
    }

    /// The agent with the inward push of the soft-turn policy added to its
    /// acceleration.
    pub open spec fn contained(self, bounds: Bounds) -> Agent {
        self.pushed(
            Vector {
                x: border_push(self.position.x, bounds.left as int, bounds.right as int),
                y: border_push(self.position.y, bounds.bottom as int, bounds.top as int),
            },
        )
    }

    /// The agent with its position wrapped into `bounds`.
    pub open spec fn wrapped(self, bounds: Bounds) -> Agent {
        Agent {
            position: Vector {
                x: wrap_coordinate(self.position.x, bounds.left as int, bounds.right as int),
                y: wrap_coordinate(self.position.y, bounds.bottom as int, bounds.top as int),
            },
            ..self
        }
    }
}

/// The sum of the velocities of the first `k` agents.
pub open spec fn velocity_sum(agents: Seq<Agent>, k: int) -> Vector
    decreases k,
{
    if k <= 0 {
        Vector::zero()
    } else {
        velocity_sum(agents, k - 1).plus(agents[k - 1].velocity)
    }
}

/// The sum of the positions of the first `k` agents.
pub open spec fn position_sum(agents: Seq<Agent>, k: int) -> Vector
    decreases k,
{
    if k <= 0 {
        Vector::zero()
    } else {
        position_sum(agents, k - 1).plus(agents[k - 1].position)
    }
}

/// The sum of the pushes of the first `k` agents on `me`.
pub open spec fn repulsion_sum(me: Agent, agents: Seq<Agent>, k: int) -> Vector
    decreases k,
{
    if k <= 0 {
        Vector::zero()
    } else {
        repulsion_sum(me, agents, k - 1).plus(me.repulsion(agents[k - 1]))
    }
}

/// Whether the agent at index `j` of `flock` is a neighbour of `me`, which
/// stands at index `own` if it is in the flock at all: another agent, and
/// one that `me` sees.
pub open spec fn is_neighbor(flock: Seq<Agent>, me: Agent, own: Option<int>, j: int) -> bool {
    own != Some(j) && me.sees(flock[j])
}

/// The neighbours of `me` among the first `k` agents of `flock`, in the
/// order of the flock.
pub open spec fn neighbors_among(flock: Seq<Agent>, me: Agent, own: Option<int>, k: int) -> Seq<
    Agent,
>
    decreases k,
{
    if k <= 0 {
        Seq::empty()
    } else if is_neighbor(flock, me, own, k - 1) {
        neighbors_among(flock, me, own, k - 1).push(flock[k - 1])
    } else {
        neighbors_among(flock, me, own, k - 1)
    }
}

/// The neighbours of `me` in `flock`.
pub open spec fn neighbors(flock: Seq<Agent>, me: Agent, own: Option<int>) -> Seq<Agent> {
    neighbors_among(flock, me, own, flock.len() as int)
}

/// The agent at index `i` with one weighted steering term, that of the rule
/// that `field` names, added to its acceleration.
pub open spec fn steered_by(
    flock: Seq<Agent>,
    i: int,
    field: Weight,
    settings: BoidSettings,
) -> Agent {
    let me = flock[i];
    me.pushed(weighted(me.rule(field, neighbors(flock, me, Some(i))), settings.weight(field)))
}

/// Two flocks of the same size whose agents, index by index, are at the same
/// place with the same velocity.
pub open spec fn same_motion(a: Seq<Agent>, b: Seq<Agent>) -> bool {
    &&& a.len() == b.len()
    &&& forall|i: int|
        0 <= i < a.len() ==> (#[trigger] a[i]).position == b[i].position && a[i].velocity
            == b[i].velocity
}

/// Who is whose neighbour is a matter of positions alone.
pub proof fn lemma_neighbors_same_motion(
    a: Seq<Agent>,
    b: Seq<Agent>,
    me_a: Agent,
    me_b: Agent,
    own: Option<int>,
    k: int,
)
    requires
        same_motion(a, b),
        me_a.position == me_b.position,
        0 <= k <= a.len(),
    ensures
        same_motion(neighbors_among(a, me_a, own, k), neighbors_among(b, me_b, own, k)),
    decreases k,
{
    if k > 0 {
        lemma_neighbors_same_motion(a, b, me_a, me_b, own, k - 1);
        assert(a[k - 1].position == b[k - 1].position);
        assert(is_neighbor(a, me_a, own, k - 1) == is_neighbor(b, me_b, own, k - 1));
    }
}

/// The sums that the steering rules take are a matter of positions and
/// velocities alone.
pub proof fn lemma_sums_same_motion(a: Seq<Agent>, b: Seq<Agent>, me_a: Agent, me_b: Agent, k: int)
    requires
        same_motion(a, b),
        me_a.position == me_b.position,
        0 <= k <= a.len(),
    ensures
        velocity_sum(a, k) == velocity_sum(b, k),
        position_sum(a, k) == position_sum(b, k),
        repulsion_sum(me_a, a, k) == repulsion_sum(me_b, b, k),
    decreases k,
{
    if k > 0 {
        lemma_sums_same_motion(a, b, me_a, me_b, k - 1);
        assert(a[k - 1].position == b[k - 1].position);
    }
}

/// The steering rules read positions and velocities and nothing else: in two
/// flocks that agree on both, the agent at index `i` is steered alike.
pub proof fn lemma_rule_same_motion(a: Seq<Agent>, b: Seq<Agent>, i: int, field: Weight)
    requires
        same_motion(a, b),
        0 <= i < a.len(),
    ensures
        a[i].rule(field, neighbors(a, a[i], Some(i))) == b[i].rule(
            field,
            neighbors(b, b[i], Some(i)),
        ),
{
    let na = neighbors(a, a[i], Some(i));
    let nb = neighbors(b, b[i], Some(i));
    lemma_neighbors_same_motion(a, b, a[i], b[i], Some(i), a.len() as int);
    lemma_sums_same_motion(na, nb, a[i], b[i], na.len() as int);
}

/// The agent at index `i` after one tick, decided from `flock` as it stood
/// before the tick.
pub open spec fn step(
    flock: Seq<Agent>,
    i: int,
    settings: BoidSettings,
    bounds: Bounds,
    policy: BoundaryPolicy,
) -> Agent {
    let me = flock[i];
    let steered = me.pushed(me.steering(neighbors(flock, me, Some(i)), settings));
    match policy {
        BoundaryPolicy::SoftTurn => steered.contained(bounds).updated(),
        BoundaryPolicy::Wrap => steered.updated().wrapped(bounds),
    }
}

/// The flock after one tick: every agent stepped from the same snapshot.
pub open spec fn tick(
    flock: Seq<Agent>,
    settings: BoidSettings,
    bounds: Bounds,
    policy: BoundaryPolicy,
) -> Seq<Agent> {
    Seq::new(flock.len(), |i: int| step(flock, i, settings, bounds, policy))
}

} // verus!
