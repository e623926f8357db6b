//! The player's movement intent: which way the held keys ask to go.

use vstd::prelude::*;

verus! {

/// The movement keys that are held down.
#[derive(Clone, Copy, Debug, PartialEq, Eq, Structural)]
pub struct MoveKeys {
    pub left: bool,
    pub right: bool,
    pub forward: bool,
    pub back: bool,
}

/// A direction on the ground, each coordinate one of -1, 0 and 1.
#[derive(Clone, Copy, Debug, PartialEq, Eq, Structural)]
pub struct Heading {
    pub x: i8,
    pub z: i8,
}

/// What one axis comes to: one step up for the key that pushes up, one
/// down for the key that pushes down, nothing where both or neither are
/// held.
pub open spec fn axis(up: bool, down: bool) -> int {
    (if up { 1int } else { 0int }) - (if down { 1int } else { 0int })
}

/// The direction that `keys` ask for: left and right along x, forward and
/// back along z.
pub open spec fn heading_of(keys: MoveKeys) -> Heading {
    Heading { x: axis(keys.left, keys.right) as i8, z: axis(keys.forward, keys.back) as i8 }
}

/// Adds up one axis.
fn push(up: bool, down: bool) -> (step: i8)
    ensures
        step == axis(up, down),
{
    let mut step: i8 = 0;
    if up {
        step = step + 1;
    }
    if down {
        step = step - 1;
    }
    step
}

/// Works out the direction that the held keys ask for.
pub fn lateral_direction(keys: MoveKeys) -> (heading: Heading)
    ensures
        heading == heading_of(keys),
{
    Heading { x: push(keys.left, keys.right), z: push(keys.forward, keys.back) }
}

} // verus!
