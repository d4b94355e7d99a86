//! The simulation bubble: only structures near the player are fully present (active);
//! farther out a structure goes dormant (simulated only) and wakes when the player comes
//! back near. Waking happens well inside the distance at which a structure sleeps, so a
//! structure on the boundary does not flip between the two.
use vstd::prelude::*;

verus! {

/// A structure farther than this from the player goes dormant.
pub const SLEEP_RADIUS: u32 = 5500;

/// A dormant structure this near the player wakes.
pub const WAKE_RADIUS: u32 = 4500;

/// Whether a structure is fully present or dormant.
#[derive(PartialEq, Eq, Structural, Clone, Copy, Debug)]
pub enum BubbleState {
    Active,
    Simulated,
}

/// Where a structure stands relative to the player this frame: at or beyond the sleep
/// radius, within the wake radius, or in the band between (where nothing changes).
#[derive(PartialEq, Eq, Structural, Clone, Copy, Debug)]
pub enum BubbleRange {
    Beyond,
    Between,
    Within,
}

/// The state a structure moves to: an active structure beyond the sleep radius goes
/// dormant, except the player's own ship, which anchors the bubble; a dormant one within
/// the wake radius wakes; otherwise it stays as it is.
pub open spec fn spec_bubble_step(state: BubbleState, player_ship: bool, range: BubbleRange) -> BubbleState {
    match state {
        BubbleState::Active => if range == BubbleRange::Beyond && !player_ship {
            BubbleState::Simulated
        } else {
            BubbleState::Active
        },
        BubbleState::Simulated => if range == BubbleRange::Within {
            BubbleState::Active
        } else {
            BubbleState::Simulated
        },
    }
}

/// Step a structure's bubble state (see [`spec_bubble_step`]).
pub fn bubble_step(state: BubbleState, player_ship: bool, range: BubbleRange) -> (r: BubbleState)
    ensures
        r == spec_bubble_step(state, player_ship, range),
{
    match state {
        BubbleState::Active => if range == BubbleRange::Beyond && !player_ship {
            BubbleState::Simulated
        } else {
            BubbleState::Active
        },
        BubbleState::Simulated => if range == BubbleRange::Within {
            BubbleState::Active
        } else {
            BubbleState::Simulated
        },
    }
}

/// Stepping is settled: a second step at the same range changes nothing, so a structure
/// does not flip back and forth while the player stays put; in the band between the radii
/// no structure changes state; and the player's ship is never put to sleep.
pub proof fn law_bubble_settles(state: BubbleState, player_ship: bool, range: BubbleRange)
    ensures
        spec_bubble_step(spec_bubble_step(state, player_ship, range), player_ship, range)
            == spec_bubble_step(state, player_ship, range),
        range == BubbleRange::Between ==> spec_bubble_step(state, player_ship, range) == state,
        player_ship && state == BubbleState::Active ==> spec_bubble_step(state, player_ship, range)
            == BubbleState::Active,
{
}

} // verus!
