//! Keyboard intent: the walking direction on deck and the ship's steering axes, as
//! signs per axis.
use vstd::prelude::*;

verus! {

/// `+1` if `pos` is held and `neg` isn't, `-1` for the reverse, else `0`.
pub fn axis(pos: bool, neg: bool) -> (r: i8)
    ensures
        r == (if pos { 1int } else { 0int }) - (if neg { 1int } else { 0int }),
{
    let p: i8 = if pos { 1 } else { 0 };
    let n: i8 = if neg { 1 } else { 0 };
    p - n
}

/// The player's walking direction in the ship's frame, as `(x, y)` signs: up/W is +y,
/// down/S is -y, left/A is -x, right/D is +x. A seated player, or one working at an
/// engineering console, does not walk.
pub fn walk_input(seated: bool, building: bool, up: bool, down: bool, left: bool, right: bool) -> (r: (i8, i8))
    ensures
        seated || building ==> r == (0i8, 0i8),
        !seated && !building ==> r.0 == axis_value(right, left) && r.1 == axis_value(up, down),
{
    if seated || building {
        return (0, 0);
    }
    let mut x: i8 = 0;
    let mut y: i8 = 0;
    if up {
        y = y + 1;
    }
    if down {
        y = y - 1;
    }
    if left {
        x = x - 1;
    }
    if right {
        x = x + 1;
    }
    (x, y)
}

/// The sign an axis takes from its two keys.
pub open spec fn axis_value(pos: bool, neg: bool) -> int {
    (if pos { 1int } else { 0int }) - (if neg { 1int } else { 0int })
}

} // verus!
