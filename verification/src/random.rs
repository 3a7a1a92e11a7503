//! Random draws, and what is made of them: new boids and their colours.

use rand::Rng;
use vstd::prelude::*;
use crate::agent::Bounds;
use crate::boid::{flock_wf, Boid};
use crate::flock::flock_rested;
use crate::settings::{MAX_FORCE, MAX_VELOCITY, MIN_VELOCITY, NO_BOIDS, POSITION_LIMIT, SCALE};
use crate::vector::Vec2;

verus! {

/// Number of colours in the palette.
pub const PALETTE_SIZE: usize = 9;

/// A colour, each channel in thousandths of full intensity.
#[derive(Clone, Copy, Debug, PartialEq, Eq, Structural)]
pub struct Rgb {
    pub red: u16,
    pub green: u16,
    pub blue: u16,
}

/// The colour at `index` of the palette.
pub open spec fn palette(index: int) -> Rgb {
    if index == 0 {
        Rgb { red: 400, green: 361, blue: 329 }
    } else if index == 1 {
        Rgb { red: 490, green: 682, blue: 639 }
    } else if index == 2 {
        Rgb { red: 573, green: 514, blue: 455 }
    } else if index == 3 {
        Rgb { red: 537, green: 706, blue: 510 }
    } else if index == 4 {
        Rgb { red: 663, green: 714, blue: 396 }
    } else if index == 5 {
        Rgb { red: 831, green: 745, blue: 596 }
    } else if index == 6 {
        Rgb { red: 827, green: 525, blue: 608 }
    } else if index == 7 {
        Rgb { red: 918, green: 412, blue: 384 }
    } else {
        Rgb { red: 847, green: 651, blue: 341 }
    }
}

/// The colour at `index` of the palette.
pub fn boid_color(index: usize) -> (color: Rgb)
    requires
        index < PALETTE_SIZE,
    ensures
        color == palette(index as int),
{
    if index == 0 {
        Rgb { red: 400, green: 361, blue: 329 }
    } else if index == 1 {
        Rgb { red: 490, green: 682, blue: 639 }
    } else if index == 2 {
        Rgb { red: 573, green: 514, blue: 455 }
    } else if index == 3 {
        Rgb { red: 537, green: 706, blue: 510 }
    } else if index == 4 {
        Rgb { red: 663, green: 714, blue: 396 }
    } else if index == 5 {
        Rgb { red: 831, green: 745, blue: 596 }
    } else if index == 6 {
        Rgb { red: 827, green: 525, blue: 608 }
    } else if index == 7 {
        Rgb { red: 918, green: 412, blue: 384 }
    } else {
        Rgb { red: 847, green: 651, blue: 341 }
    }
}

/// A uniform draw from `min..=max`.
///
/// Trusted: the body calls `rand::Rng::gen_range` on `rand::thread_rng()`
/// with the inclusive range. The contract claims only that the draw lies in
/// the range; `gen_range` panics on an empty range, which `requires` leaves
/// out.
#[verifier::external_body]
pub fn random_range(min: i64, max: i64) -> (draw: i64)
    requires
        min <= max,
    ensures
        min <= draw <= max,
{
    rand::thread_rng().gen_range(min..=max)
}

/// A uniform draw from zero to one world unit.
pub fn random() -> (draw: i64)
    ensures
        0 <= draw <= SCALE,
{
    random_range(0, SCALE)
}

/// A colour of the palette, drawn at random.
pub fn get_random_color() -> (color: Rgb)
    ensures
        exists|index: int| 0 <= index < PALETTE_SIZE && color == palette(index),
{
    let draw = random_range(0, PALETTE_SIZE as i64 - 1);
    boid_color(draw as usize)
}

/// What holds of every new boid: its velocity and acceleration lie within
/// half a world unit of zero along each axis, and its limits are
/// `MAX_FORCE`, `MIN_VELOCITY` and `MAX_VELOCITY`.
pub open spec fn fresh(boid: Boid) -> bool {
    &&& boid@.velocity.within(SCALE / 2)
    &&& boid@.acceleration.within(SCALE / 2)
    &&& boid.max_force == MAX_FORCE
    &&& boid.min_velocity == MIN_VELOCITY
    &&& boid.max_velocity == MAX_VELOCITY
}

impl Boid {
    /// The boid at `(pos_x, pos_y)` that four draws from `random` make: the
    /// first two, less half a world unit, are its velocity, the last two,
    /// less half a world unit, its acceleration. Its limits are `MAX_FORCE`,
    /// `MIN_VELOCITY` and `MAX_VELOCITY`.
    pub open spec fn from_draws_spec(pos_x: i64, pos_y: i64, draws: [i64; 4]) -> Boid {
        Boid {
            position: Vec2 { x: pos_x, y: pos_y },
            velocity: Vec2 { x: (draws[0] - SCALE / 2) as i64, y: (draws[1] - SCALE / 2) as i64 },
            acceleration: Vec2 {
                x: (draws[2] - SCALE / 2) as i64,
                y: (draws[3] - SCALE / 2) as i64,
            },
            max_force: MAX_FORCE,
            min_velocity: MIN_VELOCITY,
            max_velocity: MAX_VELOCITY,
        }
    }

    /// The boid at `(pos_x, pos_y)` that the four `draws` make.
    pub fn from_draws(pos_x: i64, pos_y: i64, draws: [i64; 4]) -> (boid: Boid)
        requires
            forall|i: int| 0 <= i < 4 ==> 0 <= #[trigger] draws[i] <= SCALE,
        ensures
            boid == Self::from_draws_spec(pos_x, pos_y, draws),
            boid.position == (Vec2 { x: pos_x, y: pos_y }),
            fresh(boid),
            boid@.rested(),
            boid@.position.within(POSITION_LIMIT as int) ==> boid@.wf(),
    {
        Boid {
            position: Vec2 { x: pos_x, y: pos_y },
            velocity: Vec2 { x: draws[0] - SCALE / 2, y: draws[1] - SCALE / 2 },
            acceleration: Vec2 { x: draws[2] - SCALE / 2, y: draws[3] - SCALE / 2 },
            max_force: MAX_FORCE,
            min_velocity: MIN_VELOCITY,
            max_velocity: MAX_VELOCITY,
        }
    }

    /// A boid at `(pos_x, pos_y)` whose velocity and acceleration are drawn
    /// at random, each coordinate between minus and plus half a world unit.
    pub fn new(pos_x: i64, pos_y: i64) -> (boid: Boid)
        ensures
            exists|draws: [i64; 4]|
                (forall|i: int| 0 <= i < 4 ==> 0 <= #[trigger] draws[i] <= SCALE) && boid
                    == Self::from_draws_spec(pos_x, pos_y, draws),
            boid.position == (Vec2 { x: pos_x, y: pos_y }),
            fresh(boid),
            boid@.rested(),
            boid@.position.within(POSITION_LIMIT as int) ==> boid@.wf(),
    {
        let draws: [i64; 4] = [random(), random(), random(), random()];
        Boid::from_draws(pos_x, pos_y, draws)
    }
}

/// A boid with random velocity and acceleration at a place drawn uniformly
/// from the rectangle.
pub fn spawn_random_boid(left: i64, right: i64, bottom: i64, top: i64) -> (boid: Boid)
    requires
        left <= right,
        bottom <= top,
    ensures
        left <= boid.position.x <= right,
        bottom <= boid.position.y <= top,
        fresh(boid),
        boid@.rested(),
        boid@.position.within(POSITION_LIMIT as int) ==> boid@.wf(),
{
    Boid::new(random_range(left, right), random_range(bottom, top))
}

/// The flock at the start: `NO_BOIDS` random boids inside `window`.
pub fn setup(window: &Bounds) -> (boids: Vec<Boid>)
    requires
        window.left <= window.right,
        window.bottom <= window.top,
    ensures
        boids@.len() == NO_BOIDS,
        forall|i: int|
            0 <= i < boids@.len() ==> window.left <= (#[trigger] boids@[i]).position.x
                <= window.right && window.bottom <= boids@[i].position.y <= window.top,
        forall|i: int| 0 <= i < boids@.len() ==> fresh(#[trigger] boids@[i]),
        flock_rested(boids@),
        window.wf() ==> flock_wf(boids@),
{
    let mut boids: Vec<Boid> = Vec::new();
    let mut i: u16 = 0;
    while i < NO_BOIDS
        invariant
            i <= NO_BOIDS,
            boids@.len() == i,
            window.left <= window.right,
            window.bottom <= window.top,
            forall|j: int|
                0 <= j < boids@.len() ==> window.left <= (#[trigger] boids@[j]).position.x
                    <= window.right && window.bottom <= boids@[j].position.y <= window.top,
            forall|j: int| 0 <= j < boids@.len() ==> fresh(#[trigger] boids@[j]),
            flock_rested(boids@),
            window.wf() ==> flock_wf(boids@),
        decreases NO_BOIDS - i,
    {
        let boid = spawn_random_boid(window.left, window.right, window.bottom, window.top);
        boids.push(boid);
        i += 1;
    }
    boids
}

} // verus!
