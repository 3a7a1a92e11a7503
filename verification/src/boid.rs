//! The boid and what it does in one tick: find its neighbours, steer by
//! them, integrate, and stay inside the world.

use vstd::prelude::*;
use crate::agent::{
    is_neighbor, neighbors, neighbors_among, position_sum, repulsion_sum, velocity_sum, Agent,
    Bounds,
};
use crate::arith::{lemma_div_trunc_bound, lemma_product_bound};
use crate::settings::{
    BoidSettings, ACCEL_LIMIT, ACCUMULATOR_LIMIT, BORDER_MARGIN, BORDER_TURN_FACTOR, FLOCK_LIMIT,
    PERCEPTION_RADIUS, POSITION_LIMIT, RULE_LIMIT, SCALE, TERM_LIMIT, WEIGHT_LIMIT, WEIGHT_ONE,
};
use crate::vector::{
    lemma_clamp_length_bounds, lemma_clamp_length_near_band, lemma_norm_sq_zero, lemma_triangle,
    Vec2, Vector, SPEED_LIMIT,
};

verus! {

/// A boid in machine form: coordinates and limits in sub-units.
#[derive(Clone, Copy, Debug, PartialEq, Eq, Structural)]
pub struct Boid {
    pub position: Vec2,
    pub velocity: Vec2,
    /// The steering force gathered for the current tick; `update` spends it
    /// and leaves zero.
    pub acceleration: Vec2,
    pub max_force: i64,
    pub min_velocity: i64,
    pub max_velocity: i64,
}

impl View for Boid {
    type V = Agent;

    open spec fn view(&self) -> Agent {
        Agent {
            position: self.position@,
            velocity: self.velocity@,
            acceleration: self.acceleration@,
            max_force: self.max_force as int,
            min_velocity: self.min_velocity as int,
            max_velocity: self.max_velocity as int,
        }
    }
}

/// The agents that a flock of boids stands for.
pub open spec fn agents(boids: Seq<Boid>) -> Seq<Agent> {
    Seq::new(boids.len(), |i: int| boids[i]@)
}

/// The agents that a list of borrowed boids stands for.
pub open spec fn agents_of(boids: Seq<&Boid>) -> Seq<Agent> {
    Seq::new(boids.len(), |i: int| boids[i]@)
}

/// Every boid of the flock is well-formed.
pub open spec fn flock_wf(boids: Seq<Boid>) -> bool {
    forall|i: int| 0 <= i < boids.len() ==> (#[trigger] boids[i])@.wf()
}

/// Every boid of the flock is in range.
pub open spec fn flock_in_range(boids: Seq<Boid>) -> bool {
    forall|i: int| 0 <= i < boids.len() ==> (#[trigger] boids[i])@.in_range()
}

/// Every boid of the list is in range.
pub open spec fn neighbors_in_range(boids: Seq<&Boid>) -> bool {
    forall|i: int| 0 <= i < boids.len() ==> (#[trigger] boids[i])@.in_range()
}

/// The index of a boid in its flock, as the model has it.
pub open spec fn own_index(own: Option<usize>) -> Option<int> {
    match own {
        Some(i) => Some(i as int),
        None => None,
    }
}

/// A steering vector times its weight.
pub(crate) fn weighted(steer: Vec2, weight: i64) -> (v: Vec2)
    requires
        steer@.within(RULE_LIMIT as int),
        -WEIGHT_LIMIT <= weight <= WEIGHT_LIMIT,
    ensures
        v@ == crate::agent::weighted(steer@, weight as int),
        v@.within(TERM_LIMIT as int),
        steer@ == Vector::zero() ==> v@ == Vector::zero(),
{
    proof {
        lemma_product_bound(steer@.x, weight as int, RULE_LIMIT as int, WEIGHT_LIMIT as int);
        lemma_product_bound(steer@.y, weight as int, RULE_LIMIT as int, WEIGHT_LIMIT as int);
        lemma_div_trunc_bound(steer@.x * weight, WEIGHT_ONE as int, TERM_LIMIT as int);
        lemma_div_trunc_bound(steer@.y * weight, WEIGHT_ONE as int, TERM_LIMIT as int);
    }
    let x: i128 = (steer.x as i128 * weight as i128) / (WEIGHT_ONE as i128);
    let y: i128 = (steer.y as i128 * weight as i128) / (WEIGHT_ONE as i128);
    Vec2 { x: x as i64, y: y as i64 }
}

/// The coordinate `c` wrapped between `low` and `high`.
fn wrap_axis(c: i64, low: i64, high: i64) -> (w: i64)
    ensures
        w == crate::agent::wrap_coordinate(c as int, low as int, high as int),
{
    if c > high {
        low
    } else if c < low {
        high
    } else {
        c
    }
}

/// The soft-turn push along one axis on a boid at coordinate `c`.
fn push_axis(c: i64, low: i64, high: i64) -> (p: i64)
    ensures
        p == crate::agent::border_push(c as int, low as int, high as int),
{
    if c as i128 > high as i128 - BORDER_MARGIN as i128 {
        -BORDER_TURN_FACTOR
    } else if (c as i128) < low as i128 + BORDER_MARGIN as i128 {
        BORDER_TURN_FACTOR
    } else {
        0
    }
}

impl Boid {
    /// Whether the boid's position and velocity are in range.
    pub fn is_in_range(&self) -> (ok: bool)
        ensures
            ok == self@.in_range(),
    {
        -POSITION_LIMIT <= self.position.x && self.position.x <= POSITION_LIMIT
            && -POSITION_LIMIT <= self.position.y && self.position.y <= POSITION_LIMIT
            && -SPEED_LIMIT <= self.velocity.x && self.velocity.x <= SPEED_LIMIT && -SPEED_LIMIT
            <= self.velocity.y && self.velocity.y <= SPEED_LIMIT
    }

    /// Whether the boid is in range and its limits make sense.
    pub fn is_wf(&self) -> (ok: bool)
        ensures
            ok == self@.wf(),
    {
        self.is_in_range() && 0 <= self.max_force && self.max_force <= ACCUMULATOR_LIMIT && 0
            <= self.min_velocity && self.min_velocity <= self.max_velocity && self.max_velocity
            <= SPEED_LIMIT
    }

    /// Whether the acceleration is small enough to take the forces of a
    /// tick.
    pub fn is_rested(&self) -> (ok: bool)
        ensures
            ok == self@.rested(),
    {
        -ACCEL_LIMIT <= self.acceleration.x && self.acceleration.x <= ACCEL_LIMIT && -ACCEL_LIMIT
            <= self.acceleration.y && self.acceleration.y <= ACCEL_LIMIT
    }

    /// Whether one move by the current velocity stays within
    /// `POSITION_LIMIT`.
    pub fn can_move(&self) -> (ok: bool)
        requires
            self@.in_range(),
        ensures
            ok == self@.can_move(),
    {
        let x: i64 = self.position.x + self.velocity.x;
        let y: i64 = self.position.y + self.velocity.y;
        -POSITION_LIMIT <= x && x <= POSITION_LIMIT && -POSITION_LIMIT <= y && y <= POSITION_LIMIT
    }

    /// The boids of `boids` strictly closer than `PERCEPTION_RADIUS`, in
    /// their order, without the one at index `own`: the boid itself, where it
    /// is a member of `boids`. A boid at the same place as this one is a
    /// neighbour like any other.
    pub fn local_boids<'a>(&self, boids: &'a [Boid], own: Option<usize>) -> (out: Vec<&'a Boid>)
        requires
            self@.in_range(),
            flock_in_range(boids@),
        ensures
            agents_of(out@) == neighbors(agents(boids@), self@, own_index(own)),
            neighbors_in_range(out@),
            out@.len() <= boids@.len(),
    {
        let mut out: Vec<&'a Boid> = Vec::new();
        let mut i: usize = 0;
        let radius: u128 = PERCEPTION_RADIUS as u128;
        while i < boids.len()
            invariant
                i <= boids.len(),
                self@.in_range(),
                flock_in_range(boids@),
                radius == PERCEPTION_RADIUS,
                agents_of(out@) == neighbors_among(
                    agents(boids@),
                    self@,
                    own_index(own),
                    i as int,
                ),
                neighbors_in_range(out@),
                out@.len() <= i,
            decreases boids.len() - i,
        {
            let other: &'a Boid = &boids[i];
            assert(boids@[i as int]@.in_range());
            let is_self = match own {
                Some(k) => k == i,
                None => false,
            };
            let near = self.position.distance_squared(other.position) < radius * radius;
            proof {
                assert(agents(boids@)[i as int] == other@);
                assert((!is_self && near) == is_neighbor(
                    agents(boids@),
                    self@,
                    own_index(own),
                    i as int,
                ));
            }
            if !is_self && near {
                let ghost before = out@;
                out.push(other);
                proof {
                    assert(agents_of(out@) =~= agents_of(before).push(other@));
                }
            }
            i += 1;
        }
        out
    }

    /// The push of `other` on this boid: the vector from `other` to here,
    /// divided by their distance, that is, brought to the length of one
    /// world unit. Each coordinate is the exact one rounded toward zero by
    /// less than a sub-unit, so the push is at most `SCALE` long and longer
    /// than `SCALE - 2`. Two boids at the same place do not push each other.
    pub fn repulsion(&self, other: &Boid) -> (push: Vec2)
        requires
            self@.in_range(),
            other@.in_range(),
        ensures
            push@ == self@.repulsion(other@),
            self.position == other.position ==> push@ == Vector::zero(),
            self.position != other.position ==> {
                &&& push@.is_scaled(self@.position.minus(other@.position), SCALE as int)
                &&& (SCALE - 2) * (SCALE - 2) <= push@.norm_sq()
            },
            push@.norm_sq() <= SCALE * SCALE,
            push@.within(SCALE as int),
    {
        let away = self.position.minus(other.position);
        proof {
            lemma_norm_sq_zero(away@);
        }
        away.with_length(SCALE)
    }

    /// Steers toward the mean heading of the neighbours: their average
    /// velocity less this boid's own. Zero without neighbours.
    pub fn alignment(&self, local_boids: &[&Boid]) -> (steer: Vec2)
        requires
            self@.in_range(),
            neighbors_in_range(local_boids@),
        ensures
            steer@ == self@.alignment(agents_of(local_boids@)),
            local_boids@.len() == 0 ==> steer@ == Vector::zero(),
            steer@.within(2 * SPEED_LIMIT),
    {
        let len = local_boids.len();
        if len == 0 {
            return Vec2::zero();
        }
        let mut sum_x: i128 = 0;
        let mut sum_y: i128 = 0;
        let mut i: usize = 0;
        while i < len
            invariant
                i <= len,
                len == local_boids@.len(),
                neighbors_in_range(local_boids@),
                (Vector { x: sum_x as int, y: sum_y as int }) == velocity_sum(
                    agents_of(local_boids@),
                    i as int,
                ),
                -(i * SPEED_LIMIT) <= sum_x <= i * SPEED_LIMIT,
                -(i * SPEED_LIMIT) <= sum_y <= i * SPEED_LIMIT,
            decreases len - i,
        {
            let other: &Boid = local_boids[i];
            assert(local_boids@[i as int]@.in_range());
            assert(agents_of(local_boids@)[i as int] == other@);
            sum_x = sum_x + other.velocity.x as i128;
            sum_y = sum_y + other.velocity.y as i128;
            i += 1;
        }
        proof {
            assert(len * SPEED_LIMIT == SPEED_LIMIT * len) by (nonlinear_arith);
            lemma_div_trunc_bound(sum_x as int, len as int, SPEED_LIMIT as int);
            lemma_div_trunc_bound(sum_y as int, len as int, SPEED_LIMIT as int);
        }
        let mean_x: i128 = sum_x / (len as i128);
        let mean_y: i128 = sum_y / (len as i128);
        Vec2 { x: mean_x as i64 - self.velocity.x, y: mean_y as i64 - self.velocity.y }
    }

    /// Steers toward the centroid of the neighbours: their average position
    /// less this boid's own. Zero without neighbours.
    pub fn cohesion(&self, local_boids: &[&Boid]) -> (steer: Vec2)
        requires
            self@.in_range(),
            neighbors_in_range(local_boids@),
        ensures
            steer@ == self@.cohesion(agents_of(local_boids@)),
            local_boids@.len() == 0 ==> steer@ == Vector::zero(),
            steer@.within(2 * POSITION_LIMIT),
    {
        let len = local_boids.len();
        if len == 0 {
            return Vec2::zero();
        }
        let mut sum_x: i128 = 0;
        let mut sum_y: i128 = 0;
        let mut i: usize = 0;
        while i < len
            invariant
                i <= len,
                len == local_boids@.len(),
                neighbors_in_range(local_boids@),
                (Vector { x: sum_x as int, y: sum_y as int }) == position_sum(
                    agents_of(local_boids@),
                    i as int,
                ),
                -(i * POSITION_LIMIT) <= sum_x <= i * POSITION_LIMIT,
                -(i * POSITION_LIMIT) <= sum_y <= i * POSITION_LIMIT,
            decreases len - i,
        {
            let other: &Boid = local_boids[i];
            assert(local_boids@[i as int]@.in_range());
            assert(agents_of(local_boids@)[i as int] == other@);
            sum_x = sum_x + other.position.x as i128;
            sum_y = sum_y + other.position.y as i128;
            i += 1;
        }
        proof {
            assert(len * POSITION_LIMIT == POSITION_LIMIT * len) by (nonlinear_arith);
            lemma_div_trunc_bound(sum_x as int, len as int, POSITION_LIMIT as int);
            lemma_div_trunc_bound(sum_y as int, len as int, POSITION_LIMIT as int);
        }
        let mean_x: i128 = sum_x / (len as i128);
        let mean_y: i128 = sum_y / (len as i128);
        Vec2 { x: mean_x as i64 - self.position.x, y: mean_y as i64 - self.position.y }
    }

    /// Steers away from the neighbours: the sum of their pushes, each the
    /// vector from the neighbour to here divided by their distance. The sum
    /// is not divided by the number of neighbours and reads no velocity; it
    /// is at most as many world units long as there are neighbours. Zero
    /// without neighbours.
    pub fn separation(&self, local_boids: &[&Boid]) -> (steer: Vec2)
        requires
            self@.in_range(),
            neighbors_in_range(local_boids@),
            local_boids@.len() <= FLOCK_LIMIT,
        ensures
            steer@ == self@.separation(agents_of(local_boids@)),
            local_boids@.len() == 0 ==> steer@ == Vector::zero(),
            steer@.norm_sq() <= (local_boids@.len() * SCALE) * (local_boids@.len() * SCALE),
            steer@.within(local_boids@.len() * SCALE),
    {
        let len = local_boids.len();
        let mut sum = Vec2::zero();
        let mut i: usize = 0;
        proof {
            assert(Vector::zero().norm_sq() == 0) by (nonlinear_arith);
        }
        while i < len
            invariant
                i <= len,
                len == local_boids@.len(),
                len <= FLOCK_LIMIT,
                self@.in_range(),
                neighbors_in_range(local_boids@),
                sum@ == repulsion_sum(self@, agents_of(local_boids@), i as int),
                sum@.norm_sq() <= (i * SCALE) * (i * SCALE),
                sum@.within(i * SCALE),
            decreases len - i,
        {
            let other: &Boid = local_boids[i];
            assert(local_boids@[i as int]@.in_range());
            assert(agents_of(local_boids@)[i as int] == other@);
            let push = self.repulsion(other);
            proof {
                lemma_triangle(sum@, push@, i * SCALE, SCALE as int);
                assert(i * SCALE + SCALE == (i + 1) * SCALE) by (nonlinear_arith);
            }
            sum = sum.plus(push);
            i += 1;
        }
        sum
    }

    /// The steering force of one tick: alignment, cohesion and separation,
    /// each times its weight, added up.
    pub fn steering(&self, local_boids: &[&Boid], settings: &BoidSettings) -> (force: Vec2)
        requires
            self@.in_range(),
            neighbors_in_range(local_boids@),
            local_boids@.len() <= FLOCK_LIMIT,
            settings.wf(),
        ensures
            force@ == self@.steering(agents_of(local_boids@), *settings),
            local_boids@.len() == 0 ==> force@ == Vector::zero(),
            force@.within(3 * TERM_LIMIT),
    {
        let a = weighted(self.alignment(local_boids), settings.alignment);
        let c = weighted(self.cohesion(local_boids), settings.cohesion);
        let s = weighted(self.separation(local_boids), settings.separation);
        a.plus(c).plus(s)
    }

    /// Integrates one tick: clamps the gathered acceleration to `max_force`,
    /// moves the position by the old velocity, adds the clamped acceleration
    /// to the velocity, brings the speed between `min_velocity` and
    /// `max_velocity`, and resets the acceleration to zero.
    ///
    /// The applied acceleration is never longer than `max_force`. The new
    /// speed lies within the band where the band is at least three
    /// sub-units wide, unless velocity plus applied acceleration is the zero
    /// vector, which has no direction and is kept. In a narrower band the
    /// speed is at most `max_velocity`.
    pub fn update(&mut self)
        requires
            old(self)@.wf(),
        ensures
            final(self)@ == old(self)@.updated(),
            final(self)@.acceleration == Vector::zero(),
            old(self)@.applied_acceleration().norm_sq()
                <= old(self).max_force * old(self).max_force,
            old(self)@.raw_velocity().norm_sq() == 0 ==> final(self)@.velocity == Vector::zero(),
            old(self)@.raw_velocity().norm_sq() != 0 ==> {
                let speed_sq = final(self)@.velocity.norm_sq();
                let min = old(self).min_velocity as int;
                let max = old(self).max_velocity as int;
                &&& old(self)@.has_wide_band() ==> min * min <= speed_sq <= max * max
                &&& speed_sq < (max + 2) * (max + 2)
                &&& min >= 3 ==> (min - 3) * (min - 3) <= speed_sq
            },
            final(self)@.velocity.within(old(self).max_velocity as int),
            old(self)@.can_move() ==> final(self)@.wf(),
    {
        let applied = self.acceleration.clamp_length_max(self.max_force);
        self.position = self.position.plus(self.velocity);
        let raw = self.velocity.plus(applied);
        proof {
            lemma_norm_sq_zero(raw@);
            if raw@.norm_sq() != 0 {
                lemma_clamp_length_near_band(
                    raw@,
                    self.min_velocity as int,
                    self.max_velocity as int,
                );
            }
            if raw@.norm_sq() != 0 && self.min_velocity + 3 <= self.max_velocity {
                lemma_clamp_length_bounds(
                    raw@,
                    self.min_velocity as int,
                    self.max_velocity as int,
                );
            }
        }
        self.velocity = raw.clamp_length(self.min_velocity, self.max_velocity);
        self.acceleration = Vec2::zero();
    }

    /// The soft-turn policy: within `BORDER_MARGIN` of an edge, adds
    /// `BORDER_TURN_FACTOR` to the acceleration, pointing inward. Position
    /// and velocity stay as they are.
    pub fn contain(&mut self, left: i64, right: i64, bottom: i64, top: i64)
        requires
            old(self)@.acceleration.within(ACCUMULATOR_LIMIT as int),
        ensures
            final(self)@ == old(self)@.contained((Bounds { left, right, bottom, top })),
            final(self)@.acceleration.within(ACCUMULATOR_LIMIT + BORDER_TURN_FACTOR),
    {
        let push = Vec2 {
            x: push_axis(self.position.x, left, right),
            y: push_axis(self.position.y, bottom, top),
        };
        self.acceleration = self.acceleration.plus(push);
    }

    /// The wrap policy: a boid beyond an edge is set onto the opposite edge.
    /// Velocity and acceleration stay as they are.
    pub fn wrap(&mut self, left: i64, right: i64, bottom: i64, top: i64)
        ensures
            final(self)@ == old(self)@.wrapped((Bounds { left, right, bottom, top })),
            old(self).position.x > right ==> final(self).position.x == left,
            old(self).position.x < left <= right ==> final(self).position.x == right,
            old(self).position.y > top ==> final(self).position.y == bottom,
            old(self).position.y < bottom <= top ==> final(self).position.y == top,
    {
        self.position = Vec2 {
            x: wrap_axis(self.position.x, left, right),
            y: wrap_axis(self.position.y, bottom, top),
        };
    }
}

} // verus!
