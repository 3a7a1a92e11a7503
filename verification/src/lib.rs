//! Flocking ("boids"): many agents, each of which steers by the agents near
//! it, with no central control. One tick finds every boid's neighbours,
//! steers it by alignment, cohesion and separation, integrates under a force
//! limit and a speed band, and keeps it inside the world.
//!
//! All arithmetic is in integers. Lengths are whole sub-units, a million to
//! the world unit; steering weights are whole millionths. A tick is
//! therefore exact and reproducible: the same snapshot gives the same flock,
//! on every machine and in whatever order the flock is listed.
//!
//! - `arith`: truncating and ceiling quotients, integer square roots.
//! - `vector`: vectors over the integers and their `i64` form; the two
//!   length clamps and what they guarantee.
//! - `settings`: the constants and the steering weights.
//! - `agent`: the mathematical model of a boid, of the rules and of a tick.
//! - `boid`: the boid, its neighbours, the three rules, integration and the
//!   two boundary policies.
//! - `flock`: the tick of the whole flock from one snapshot, and its gated
//!   form.
//! - `movement`: the tick as a chain of systems.
//! - `timer`: the fixed-step gate.
//! - `random`: draws, new boids and their colours.
//! - `input`: what keys and pointer decide.
//! - `ui`: the text of the statistics overlay.
//! - `laws`, `order`: what holds of every tick.

pub mod agent;
pub mod arith;
pub mod boid;
pub mod flock;
pub mod input;
pub mod laws;
pub mod movement;
pub mod order;
pub mod random;
pub mod settings;
pub mod timer;
pub mod ui;
pub mod vector;
