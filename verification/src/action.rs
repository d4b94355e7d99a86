//! Character actions (attacks): a requested action starts when none is running, and a
//! finished action is carried out once and cleared.
use vstd::prelude::*;

verus! {

/// What a character is doing.
#[derive(PartialEq, Eq, Structural, Clone, Copy, Debug, Hash)]
pub enum ActionType {
    NoAction,
    Attack,
}

/// Where an action is in its life.
#[derive(PartialEq, Eq, Structural, Clone, Copy, Debug, Hash)]
pub enum ActionState {
    Init,
    Running,
    Finished,
}

/// The direction an action is aimed.
#[derive(PartialEq, Eq, Structural, Clone, Copy, Debug, Hash)]
pub enum ActionDirection {
    Right,
    Left,
    Up,
    Down,
}

/// One action: its type, state and direction.
#[derive(PartialEq, Eq, Structural, Clone, Copy, Debug, Hash)]
pub struct ActionContainer {
    pub action_type: ActionType,
    pub state: ActionState,
    pub direction: ActionDirection,
}

/// The empty action: no action, initial state, facing right.
pub open spec fn no_action() -> ActionContainer {
    ActionContainer { action_type: ActionType::NoAction, state: ActionState::Init, direction: ActionDirection::Right }
}

impl Default for ActionContainer {
    fn default() -> (r: Self)
        ensures
            r == no_action(),
    {
        ActionContainer { action_type: ActionType::NoAction, state: ActionState::Init, direction: ActionDirection::Right }
    }
}

/// A character's requested, current and previous actions and its facing.
#[derive(PartialEq, Eq, Structural, Clone, Copy, Debug)]
pub struct Character {
    pub requested_action: ActionContainer,
    pub current_action: ActionContainer,
    pub prev_action: ActionContainer,
    pub current_direction: ActionDirection,
}

impl Default for Character {
    fn default() -> (r: Self)
        ensures
            r.requested_action == no_action(),
            r.current_action == no_action(),
            r.prev_action == no_action(),
            r.current_direction == ActionDirection::Right,
    {
        Character {
            requested_action: ActionContainer::default(),
            current_action: ActionContainer::default(),
            prev_action: ActionContainer::default(),
            current_direction: ActionDirection::Right,
        }
    }
}

/// Start a requested action if the character is idle: it becomes the current action,
/// aimed the way the character faces. The request is consumed either way.
pub fn start_action(character: &mut Character)
    ensures
        ({
            let o = *old(character);
            let starts = o.requested_action.action_type != ActionType::NoAction
                && o.current_action.action_type == ActionType::NoAction;
            &&& final(character).requested_action == no_action()
            &&& final(character).prev_action == o.prev_action
            &&& final(character).current_direction == o.current_direction
            &&& final(character).current_action == if starts {
                ActionContainer { direction: o.current_direction, ..o.requested_action }
            } else {
                o.current_action
            }
        }),
{
    if !(character.requested_action.action_type == ActionType::NoAction)
        && character.current_action.action_type == ActionType::NoAction {
        character.current_action = character.requested_action;
        character.current_action.direction = character.current_direction;
    }
    character.requested_action = ActionContainer::default();
}

/// Finish the current action if it has run to completion: clear it and report the
/// attack to carry out (its direction). `None` when nothing finished.
pub fn finish_action(character: &mut Character) -> (attack: Option<ActionDirection>)
    ensures
        ({
            let o = *old(character);
            let done = o.current_action.action_type != ActionType::NoAction
                && o.current_action.state == ActionState::Finished;
            &&& done ==> final(character).current_action == no_action()
                && attack == Some(o.current_action.direction)
            &&& !done ==> final(character).current_action == o.current_action && attack is None
            &&& final(character).requested_action == o.requested_action
            &&& final(character).prev_action == o.prev_action
            &&& final(character).current_direction == o.current_direction
        }),
{
    if !(character.current_action.action_type == ActionType::NoAction)
        && character.current_action.state == ActionState::Finished {
        let attack = match character.current_action.action_type {
            ActionType::NoAction => None,
            ActionType::Attack => Some(character.current_action.direction),
        };
        character.current_action = ActionContainer::default();
        attack
    } else {
        None
    }
}

/// Where an attack area sits next to the character, as unit steps along x and y: right,
/// left, up or down of it.
pub fn attack_offset(direction: ActionDirection) -> (r: (i8, i8))
    ensures
        r == match direction {
            ActionDirection::Right => (1i8, 0i8),
            ActionDirection::Left => (-1i8, 0i8),
            ActionDirection::Up => (0i8, 1i8),
            ActionDirection::Down => (0i8, -1i8),
        },
{
    match direction {
        ActionDirection::Right => (1, 0),
        ActionDirection::Left => (-1, 0),
        ActionDirection::Up => (0, 1),
        ActionDirection::Down => (0, -1),
    }
}

/// Whether an attack goes sideways (left or right), so its area is narrow along x and
/// long along y; an attack up or down has the area turned the other way.
pub fn attack_is_sideways(direction: ActionDirection) -> (r: bool)
    ensures
        r == (direction == ActionDirection::Right || direction == ActionDirection::Left),
{
    match direction {
        ActionDirection::Right | ActionDirection::Left => true,
        ActionDirection::Up | ActionDirection::Down => false,
    }
}

} // verus!
