//! The tunable steering weights and the fixed constants of the simulation.
//! Lengths are in sub-units: `SCALE` of them make one world unit. Weights
//! are in millionths: `WEIGHT_ONE` is the weight 1.

use vstd::prelude::*;

verus! {

/// Sub-units per world unit.
pub const SCALE: i64 = 1_000_000;

/// Number of boids that `setup` spawns.
pub const NO_BOIDS: u16 = 100;

/// The weight 1, in millionths.
pub const WEIGHT_ONE: i64 = 1_000_000;

/// Initial alignment weight (5).
pub const ALIGNMENT: i64 = 5_000_000;

/// Initial cohesion weight (1).
pub const COHESION: i64 = 1_000_000;

/// Initial separation weight (5).
pub const SEPARATION: i64 = 5_000_000;

/// A boid sees the boids strictly closer than this (50 world units).
pub const PERCEPTION_RADIUS: i64 = 50_000_000;

/// Largest acceleration applied in one tick (0.5 world units).
pub const MAX_FORCE: i64 = 500_000;

/// Least speed after a tick (0.5 world units).
pub const MIN_VELOCITY: i64 = 500_000;

/// Greatest speed after a tick (1 world unit).
pub const MAX_VELOCITY: i64 = 1_000_000;

/// Width of the strip along each edge in which a boid is turned back
/// (5 world units).
pub const BORDER_MARGIN: i64 = 5_000_000;

/// The push away from an edge, far above any `max_force`, so that the clamp
/// decides the turn rate (10000 world units).
pub const BORDER_TURN_FACTOR: i64 = 10_000_000_000;

/// Largest magnitude of a steering weight that a tick takes (a million).
pub const WEIGHT_LIMIT: i64 = 1_000_000_000_000;

/// Largest magnitude of a position coordinate (a million world units).
pub const POSITION_LIMIT: i64 = 1_000_000_000_000;

/// Largest number of boids in one flock.
pub const FLOCK_LIMIT: usize = 1_000_000;

/// Largest magnitude of a coordinate of a steering vector before it is
/// weighted.
pub const RULE_LIMIT: i64 = 2_000_000_000_000;

/// Largest magnitude of a coordinate of one weighted steering term:
/// `RULE_LIMIT` times a million, the largest weight.
pub const TERM_LIMIT: i64 = 2_000_000_000_000_000_000;

/// Largest magnitude of an acceleration coordinate that a boid may carry into
/// a tick.
pub const ACCEL_LIMIT: i64 = 1_000_000_000_000_000_000;

/// Largest magnitude of an acceleration coordinate while forces accumulate.
pub const ACCUMULATOR_LIMIT: i64 = 8_000_000_000_000_000_000;

/// One of the three steering weights.
#[derive(Clone, Copy, Debug, PartialEq, Eq, Structural)]
pub enum Weight {
    Alignment,
    Cohesion,
    Separation,
}

/// The steering weights, in millionths. Any weight is a weight: a negative
/// one inverts its rule, a fraction weakens it.
#[derive(Clone, Copy, Debug, PartialEq, Eq, Structural)]
pub struct BoidSettings {
    pub alignment: i64,
    pub cohesion: i64,
    pub separation: i64,
}

impl BoidSettings {
    /// Every weight is small enough for the arithmetic of a tick: it lies
    /// in `[-WEIGHT_LIMIT, WEIGHT_LIMIT]`.
    pub open spec fn wf(self) -> bool {
        &&& -WEIGHT_LIMIT <= self.alignment <= WEIGHT_LIMIT
        &&& -WEIGHT_LIMIT <= self.cohesion <= WEIGHT_LIMIT
        &&& -WEIGHT_LIMIT <= self.separation <= WEIGHT_LIMIT
    }

    /// The weight that `field` names.
    pub open spec fn weight(self, field: Weight) -> int {
        match field {
            Weight::Alignment => self.alignment as int,
            Weight::Cohesion => self.cohesion as int,
            Weight::Separation => self.separation as int,
        }
    }

    /// These settings with the weight that `field` names set to `value`.
    pub open spec fn with_weight(self, field: Weight, value: int) -> BoidSettings {
        match field {
            Weight::Alignment => BoidSettings { alignment: value as i64, ..self },
            Weight::Cohesion => BoidSettings { cohesion: value as i64, ..self },
            Weight::Separation => BoidSettings { separation: value as i64, ..self },
        }
    }

    /// Whether the weight that `field` names, moved by `delta`, is still an
    /// `i64`.
    pub open spec fn can_adjust(self, field: Weight, delta: int) -> bool {
        i64::MIN <= self.weight(field) + delta <= i64::MAX
    }

    /// Whether every weight is small enough for a tick.
    pub fn is_wf(&self) -> (ok: bool)
        ensures
            ok == self.wf(),
    {
        -WEIGHT_LIMIT <= self.alignment && self.alignment <= WEIGHT_LIMIT
            && -WEIGHT_LIMIT <= self.cohesion && self.cohesion <= WEIGHT_LIMIT
            && -WEIGHT_LIMIT <= self.separation && self.separation <= WEIGHT_LIMIT
    }

    /// The weight that `field` names.
    pub fn get(&self, field: Weight) -> (w: i64)
        ensures
            w == self.weight(field),
    {
        match field {
            Weight::Alignment => self.alignment,
            Weight::Cohesion => self.cohesion,
            Weight::Separation => self.separation,
        }
    }

    /// Whether the weight that `field` names, moved by `delta`, is still an
    /// `i64`.
    pub fn fits(&self, field: Weight, delta: i64) -> (ok: bool)
        ensures
            ok == self.can_adjust(field, delta as int),
    {
        self.get(field).checked_add(delta).is_some()
    }

    /// Adds `delta` to the weight that `field` names. The weight moves by
    /// exactly `delta`, wherever it stands; the other two stay as they are.
    pub fn adjust_weight(&mut self, field: Weight, delta: i64)
        requires
            old(self).can_adjust(field, delta as int),
        ensures
            *final(self) == old(self).with_weight(field, old(self).weight(field) + delta),
            final(self).weight(field) == old(self).weight(field) + delta,
    {
        let sum: i64 = self.get(field) + delta;
        match field {
            Weight::Alignment => {
                self.alignment = sum;
            },
            Weight::Cohesion => {
                self.cohesion = sum;
            },
            Weight::Separation => {
                self.separation = sum;
            },
        }
    }
}

impl Default for BoidSettings {
    fn default() -> (s: BoidSettings)
        ensures
            s.alignment == ALIGNMENT,
            s.cohesion == COHESION,
            s.separation == SEPARATION,
            s.wf(),
    {
        BoidSettings { alignment: ALIGNMENT, cohesion: COHESION, separation: SEPARATION }
    }
}

} // verus!
