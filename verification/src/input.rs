//! What the keys and the pointer decide: six keys move the three steering
//! weights up and down by one, and a pressed button spawns a boid under the
//! cursor.

use vstd::prelude::*;
use crate::boid::Boid;
use crate::random::fresh;
use crate::settings::{BoidSettings, Weight, WEIGHT_ONE};
use crate::vector::Vec2;

verus! {

/// The keys that were pressed since the last frame.
#[derive(Clone, Copy, Debug, PartialEq, Eq, Structural)]
pub struct KeyPresses {
    /// Alignment up.
    pub q: bool,
    /// Alignment down.
    pub a: bool,
    /// Cohesion up.
    pub w: bool,
    /// Cohesion down.
    pub s: bool,
    /// Separation up.
    pub e: bool,
    /// Separation down.
    pub d: bool,
}

/// By how much two keys move their weight: one up for `up`, one down for
/// `down`, nothing for both or neither.
pub open spec fn nudge(up: bool, down: bool) -> int {
    (if up { WEIGHT_ONE as int } else { 0 }) - (if down { WEIGHT_ONE as int } else { 0 })
}

/// Whether the weights, moved as the keys ask, are still `i64`s.
pub open spec fn keys_fit(keys: KeyPresses, settings: BoidSettings) -> bool {
    &&& settings.can_adjust(Weight::Alignment, nudge(keys.q, keys.a))
    &&& settings.can_adjust(Weight::Cohesion, nudge(keys.w, keys.s))
    &&& settings.can_adjust(Weight::Separation, nudge(keys.e, keys.d))
}

/// By how much two keys move their weight.
fn nudge_of(up: bool, down: bool) -> (by: i64)
    ensures
        by == nudge(up, down),
{
    let raise: i64 = if up { WEIGHT_ONE } else { 0 };
    let lower: i64 = if down { WEIGHT_ONE } else { 0 };
    raise - lower
}

/// Whether the weights, moved as the keys ask, are still `i64`s.
pub fn can_press(keys: &KeyPresses, boid_settings: &BoidSettings) -> (ok: bool)
    ensures
        ok == keys_fit(*keys, *boid_settings),
{
    boid_settings.fits(Weight::Alignment, nudge_of(keys.q, keys.a)) && boid_settings.fits(
        Weight::Cohesion,
        nudge_of(keys.w, keys.s),
    ) && boid_settings.fits(Weight::Separation, nudge_of(keys.e, keys.d))
}

/// Applies the pressed keys to the weights: Q and A raise and lower
/// alignment by one, W and S cohesion, E and D separation. Every press
/// counts, wherever the weight stands; the two keys of one weight, pressed
/// together, leave it as it was.
pub fn keyboard_input_system(keys: &KeyPresses, boid_settings: &mut BoidSettings)
    requires
        keys_fit(*keys, *old(boid_settings)),
    ensures
        final(boid_settings).alignment == old(boid_settings).alignment + nudge(keys.q, keys.a),
        final(boid_settings).cohesion == old(boid_settings).cohesion + nudge(keys.w, keys.s),
        final(boid_settings).separation == old(boid_settings).separation + nudge(
            keys.e,
            keys.d,
        ),
{
    boid_settings.adjust_weight(Weight::Alignment, nudge_of(keys.q, keys.a));
    boid_settings.adjust_weight(Weight::Cohesion, nudge_of(keys.w, keys.s));
    boid_settings.adjust_weight(Weight::Separation, nudge_of(keys.e, keys.d));
}

/// Spawns a boid under the cursor while the left button is down: `Some`
/// exactly where `pressed` holds and the cursor has a place in the world,
/// and then a new boid at that place.
pub fn mouse_button_input_system(pressed: bool, cursor: Option<Vec2>) -> (spawned: Option<Boid>)
    ensures
        spawned.is_some() == (pressed && cursor.is_some()),
        spawned.is_some() ==> spawned.unwrap().position == cursor.unwrap() && fresh(
            spawned.unwrap(),
        ),
{
    if !pressed {
        return None;
    }
    match cursor {
        Some(place) => Some(Boid::new(place.x, place.y)),
        None => None,
    }
}

} // verus!
