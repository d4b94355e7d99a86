//! Sprite animation decisions: which way a character faces, whether it idles or moves,
//! which named clip plays, and how the frame index steps through a clip.
use vstd::prelude::*;

use crate::action::{ActionDirection, ActionState, ActionType, Character};
use crate::registry::{Registry, RegistryKey};

verus! {

/// Whether a character is standing still or moving.
#[derive(PartialEq, Eq, Structural, Clone, Copy, Debug, Hash)]
pub enum Movement {
    Idle,
    Moving,
}

/// Horizontal facing.
#[derive(PartialEq, Eq, Structural, Clone, Copy, Debug, Hash)]
pub enum HorizontalDirection {
    Right,
    Left,
}

/// Vertical facing.
#[derive(PartialEq, Eq, Structural, Clone, Copy, Debug, Hash)]
pub enum VerticalDirection {
    Down,
    Up,
}

/// A character's facing on both axes.
#[derive(PartialEq, Eq, Structural, Clone, Copy, Debug, Hash)]
pub struct Direction {
    pub h: HorizontalDirection,
    pub v: VerticalDirection,
}

impl Default for Direction {
    fn default() -> (r: Self)
        ensures
            r == (Direction { h: HorizontalDirection::Right, v: VerticalDirection::Down }),
    {
        Direction { h: HorizontalDirection::Right, v: VerticalDirection::Down }
    }
}

impl Direction {
    /// The facing made of a horizontal and a vertical direction.
    pub fn from_parts(h: HorizontalDirection, v: VerticalDirection) -> (r: Direction)
        ensures
            r == (Direction { h, v }),
    {
        Direction { h, v }
    }
}

/// How a velocity component compares with zero (in total order, so `-0.0` is below zero).
#[derive(PartialEq, Eq, Structural, Clone, Copy, Debug)]
pub enum AxisSign {
    Less,
    Equal,
    Greater,
}

/// Face the way the character moves: negative x turns it left, positive right, negative y
/// down, positive up; a zero component keeps that axis' facing.
pub fn face_velocity(direction: Direction, x: AxisSign, y: AxisSign) -> (r: Direction)
    ensures
        r.h == match x {
            AxisSign::Less => HorizontalDirection::Left,
            AxisSign::Equal => direction.h,
            AxisSign::Greater => HorizontalDirection::Right,
        },
        r.v == match y {
            AxisSign::Less => VerticalDirection::Down,
            AxisSign::Equal => direction.v,
            AxisSign::Greater => VerticalDirection::Up,
        },
{
    let h = match x {
        AxisSign::Less => HorizontalDirection::Left,
        AxisSign::Equal => direction.h,
        AxisSign::Greater => HorizontalDirection::Right,
    };
    let v = match y {
        AxisSign::Less => VerticalDirection::Down,
        AxisSign::Equal => direction.v,
        AxisSign::Greater => VerticalDirection::Up,
    };
    Direction { h, v }
}

/// The movement state shown: while no action runs, moving if the character has any
/// speed and idle otherwise; during an action the state is left as it was.
pub fn movement_state(character: &Character, current: Movement, moving: bool) -> (r: Movement)
    ensures
        character.current_action.action_type == ActionType::NoAction ==> r == (if moving {
            Movement::Moving
        } else {
            Movement::Idle
        }),
        character.current_action.action_type != ActionType::NoAction ==> r == current,
{
    if character.current_action.action_type == ActionType::NoAction {
        if moving {
            Movement::Moving
        } else {
            Movement::Idle
        }
    } else {
        current
    }
}

/// The clip name a character plays: idle or walk facing left/right when no action runs,
/// otherwise the attack clip for the action's direction.
pub open spec fn spec_animation_key(character: Character, state: Movement, direction: Direction) -> &'static str {
    match character.current_action.action_type {
        ActionType::NoAction => match (state, direction.h) {
            (Movement::Idle, HorizontalDirection::Left) => "idle-left",
            (Movement::Idle, HorizontalDirection::Right) => "idle-right",
            (Movement::Moving, HorizontalDirection::Left) => "walk-left",
            (Movement::Moving, HorizontalDirection::Right) => "walk-right",
        },
        ActionType::Attack => match character.current_action.direction {
            ActionDirection::Left => "attack-left",
            ActionDirection::Right => "attack-right",
            ActionDirection::Up => "attack-up",
            ActionDirection::Down => "attack-down",
        },
    }
}

/// Pick the clip to play (see [`spec_animation_key`]).
pub fn animation_key(character: &Character, state: Movement, direction: Direction) -> (r: &'static str)
    ensures
        r == spec_animation_key(*character, state, direction),
{
    match character.current_action.action_type {
        ActionType::NoAction => match (state, direction.h) {
            (Movement::Idle, HorizontalDirection::Left) => "idle-left",
            (Movement::Idle, HorizontalDirection::Right) => "idle-right",
            (Movement::Moving, HorizontalDirection::Left) => "walk-left",
            (Movement::Moving, HorizontalDirection::Right) => "walk-right",
        },
        ActionType::Attack => match character.current_action.direction {
            ActionDirection::Left => "attack-left",
            ActionDirection::Right => "attack-right",
            ActionDirection::Up => "attack-up",
            ActionDirection::Down => "attack-down",
        },
    }
}

/// A clip: its first and last atlas frame and whether it is drawn mirrored.
#[derive(PartialEq, Eq, Structural, Clone, Copy, Debug)]
pub struct Clip {
    pub first: usize,
    pub last: usize,
    pub flip_x: bool,
}

/// The last clip registered under `name`, if any.
pub open spec fn clip_lookup(entries: Seq<(Seq<char>, Clip)>, name: Seq<char>) -> Option<Clip>
    decreases entries.len(),
{
    if entries.len() == 0 {
        None
    } else if entries.last().0 == name {
        Some(entries.last().1)
    } else {
        clip_lookup(entries.drop_last(), name)
    }
}

/// Named clips of one sprite sheet. A name registered twice keeps its later clip.
#[derive(Debug)]
pub struct Animations {
    map: Vec<(String, Clip)>,
}

impl Animations {
    /// The clips by name, in registration order.
    pub closed spec fn entries(&self) -> Seq<(Seq<char>, Clip)> {
        self.map@.map_values(|e: (String, Clip)| (e.0@, e.1))
    }

    /// A table of clips from `(name, (first, last, flip_x))` entries.
    pub fn new(entries: Vec<(&'static str, (usize, usize, bool))>) -> (r: Animations)
        ensures
            r.entries() == entries@.map_values(
                |e: (&'static str, (usize, usize, bool))| (e.0@, Clip { first: e.1.0, last: e.1.1, flip_x: e.1.2 }),
            ),
    {
        let mut map: Vec<(String, Clip)> = Vec::new();
        let mut i: usize = 0;
        while i < entries.len()
            invariant
                i <= entries@.len(),
                map@.len() == i,
                forall|j: int| 0 <= j < i ==> #[trigger] map@[j].0@ == entries@[j].0@ && map@[j].1 == (Clip {
                    first: entries@[j].1.0,
                    last: entries@[j].1.1,
                    flip_x: entries@[j].1.2,
                }),
            decreases entries@.len() - i,
        {
            let e = entries[i];
            let ghost before = map@;
            let text = String::from_str(e.0);
            map.push((text, Clip { first: e.1.0, last: e.1.1, flip_x: e.1.2 }));
            assert forall|j: int| 0 <= j < i + 1 implies #[trigger] map@[j].0@ == entries@[j].0@ && map@[j].1 == (Clip {
                first: entries@[j].1.0,
                last: entries@[j].1.1,
                flip_x: entries@[j].1.2,
            }) by {
                if j < i {
                    assert(map@[j] == before[j]);
                }
            }
            i += 1;
        }
        let r = Animations { map };
        assert(r.entries() =~= entries@.map_values(
            |e: (&'static str, (usize, usize, bool))| (e.0@, Clip { first: e.1.0, last: e.1.1, flip_x: e.1.2 }),
        ));
        r
    }

    /// The clip registered under `name`, or `None`.
    pub fn get(&self, name: &str) -> (r: Option<Clip>)
        ensures
            r == clip_lookup(self.entries(), name@),
    {
        let key = String::from_str(name);
        let ghost es = self.entries();
        let mut i = self.map.len();
        assert(es.subrange(0, i as int) == es);
        while i > 0
            invariant
                i <= self.map@.len(),
                es == self.entries(),
                key@ == name@,
                clip_lookup(es, name@) == clip_lookup(es.subrange(0, i as int), name@),
            decreases i,
        {
            assert(es.subrange(0, i as int).drop_last() == es.subrange(0, i - 1));
            if self.map[i - 1].0 == key {
                return Some(self.map[i - 1].1);
            }
            i -= 1;
        }
        None
    }
}

/// Whether two clip names are the same text.
pub fn same_name(a: &str, b: &str) -> (r: bool)
    ensures
        r == (a@ == b@),
{
    String::from_str(a) == String::from_str(b)
}

/// One animation tick: a changed clip restarts at its first frame; at or past the last
/// frame the clip wraps to its first frame (and a running action is marked finished);
/// otherwise the next frame shows. Returns the new frame and whether the action finished.
pub fn next_frame(clip_changed: bool, index: usize, clip: Clip, action: ActionType) -> (r: (usize, bool))
    ensures
        clip_changed ==> r == (clip.first, false),
        !clip_changed && index >= clip.last ==> r == (clip.first, action != ActionType::NoAction),
        !clip_changed && index < clip.last ==> r == ((index + 1) as usize, false),
{
    if clip_changed {
        (clip.first, false)
    } else if index >= clip.last {
        (clip.first, !(action == ActionType::NoAction))
    } else {
        (index + 1, false)
    }
}

/// Advance a character's animation by one tick (see [`next_frame`]): the new frame, and
/// a running action whose clip wrapped is marked finished.
pub fn advance_animation(character: &mut Character, clip_changed: bool, index: usize, clip: Clip) -> (r: usize)
    ensures
        ({
            let (frame, finished) = if clip_changed {
                (clip.first, false)
            } else if index >= clip.last {
                (clip.first, old(character).current_action.action_type != ActionType::NoAction)
            } else {
                ((index + 1) as usize, false)
            };
            &&& r == frame
            &&& finished ==> *final(character) == (Character {
                current_action: crate::action::ActionContainer {
                    state: ActionState::Finished,
                    ..old(character).current_action
                },
                ..*old(character)
            })
            &&& !finished ==> *final(character) == *old(character)
        }),
{
    let (frame, finished) = next_frame(clip_changed, index, clip, character.current_action.action_type);
    if finished {
        character.current_action.state = ActionState::Finished;
    }
    frame
}

/// The key of a clip chosen by movement and facing.
#[derive(PartialEq, Eq, Structural, Clone, Copy, Debug)]
pub struct ClipKey {
    pub movement: Movement,
    pub direction: Direction,
}

impl RegistryKey for ClipKey {
    fn same_key(&self, other: &Self) -> (r: bool) {
        *self == *other
    }
}

/// Clips keyed by movement and facing. A key registered twice keeps its later clip.
pub struct AnimationIndices {
    pub map: Registry<ClipKey, Clip>,
}

impl AnimationIndices {
    /// A table from `(movement, facing) -> clip` entries.
    pub fn new(entries: Vec<(ClipKey, Clip)>) -> (r: AnimationIndices)
        ensures
            r.map.entries() == entries@,
    {
        AnimationIndices { map: Registry::new(entries) }
    }

    /// The clip for `key`, or `None`.
    pub fn get(&self, key: ClipKey) -> (r: Option<Clip>)
        ensures
            r == self.map.spec_get(key),
    {
        match self.map.find(key) {
            Some(c) => Some(*c),
            None => None,
        }
    }
}

/// The word a clip name uses for a horizontal facing.
pub open spec fn facing_word(h: HorizontalDirection) -> Seq<char> {
    match h {
        HorizontalDirection::Left => "left"@,
        HorizontalDirection::Right => "right"@,
    }
}

/// The word a clip name uses for an action's direction.
pub open spec fn action_word(d: ActionDirection) -> Seq<char> {
    match d {
        ActionDirection::Left => "left"@,
        ActionDirection::Right => "right"@,
        ActionDirection::Up => "up"@,
        ActionDirection::Down => "down"@,
    }
}

/// The clip a character plays is named for what it does and which way: with no action
/// running, `walk-` while moving and `idle-` at rest, followed by its horizontal facing
/// (a character facing left never plays a right-facing clip); during an attack,
/// `attack-` followed by the attack's own direction, whatever the character's facing.
pub proof fn law_clip_follows_facing(character: Character, state: Movement, direction: Direction)
    ensures
        character.current_action.action_type == ActionType::NoAction ==> spec_animation_key(character, state, direction)@
            == (if state == Movement::Moving { "walk-"@ } else { "idle-"@ }) + facing_word(direction.h),
        character.current_action.action_type == ActionType::Attack ==> spec_animation_key(character, state, direction)@
            == "attack-"@ + action_word(character.current_action.direction),
{
    reveal_strlit("walk-");
    reveal_strlit("idle-");
    reveal_strlit("attack-");
    reveal_strlit("left");
    reveal_strlit("right");
    reveal_strlit("up");
    reveal_strlit("down");
    reveal_strlit("idle-left");
    reveal_strlit("idle-right");
    reveal_strlit("walk-left");
    reveal_strlit("walk-right");
    reveal_strlit("attack-left");
    reveal_strlit("attack-right");
    reveal_strlit("attack-up");
    reveal_strlit("attack-down");
    let k = spec_animation_key(character, state, direction)@;
    if character.current_action.action_type == ActionType::NoAction {
        assert(k =~= (if state == Movement::Moving { "walk-"@ } else { "idle-"@ }) + facing_word(direction.h));
    } else {
        assert(k =~= "attack-"@ + action_word(character.current_action.direction));
    }
}

} // verus!
