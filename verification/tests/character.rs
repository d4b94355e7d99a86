use shipcraft::action::{
    attack_is_sideways, attack_offset, finish_action, start_action, ActionContainer, ActionDirection,
    ActionState, ActionType, Character,
};
use shipcraft::animation::{
    advance_animation, animation_key, face_velocity, movement_state, next_frame, same_name, AnimationIndices,
    Animations, AxisSign, Clip, ClipKey, Direction, HorizontalDirection, Movement, VerticalDirection,
};

fn attack_request() -> ActionContainer {
    ActionContainer { action_type: ActionType::Attack, state: ActionState::Init, direction: ActionDirection::Right }
}

#[test]
fn requested_attack_starts_when_idle_facing_the_character() {
    let mut c = Character::default();
    c.requested_action = attack_request();
    c.current_direction = ActionDirection::Up;
    start_action(&mut c);
    assert_eq!(c.current_action.action_type, ActionType::Attack);
    assert_eq!(c.current_action.direction, ActionDirection::Up);
    assert_eq!(c.requested_action, ActionContainer::default());
}

#[test]
fn request_is_dropped_while_an_action_runs() {
    let mut c = Character::default();
    c.current_action = ActionContainer {
        action_type: ActionType::Attack,
        state: ActionState::Running,
        direction: ActionDirection::Left,
    };
    c.requested_action = attack_request();
    start_action(&mut c);
    assert_eq!(c.current_action.direction, ActionDirection::Left);
    assert_eq!(c.current_action.state, ActionState::Running);
    assert_eq!(c.requested_action.action_type, ActionType::NoAction);
}

#[test]
fn finished_attack_is_carried_out_once() {
    let mut c = Character::default();
    c.current_action = ActionContainer {
        action_type: ActionType::Attack,
        state: ActionState::Finished,
        direction: ActionDirection::Down,
    };
    assert_eq!(finish_action(&mut c), Some(ActionDirection::Down));
    assert_eq!(c.current_action, ActionContainer::default());
    assert_eq!(finish_action(&mut c), None);
}

#[test]
fn running_attack_does_not_finish() {
    let mut c = Character::default();
    c.current_action = ActionContainer {
        action_type: ActionType::Attack,
        state: ActionState::Running,
        direction: ActionDirection::Down,
    };
    assert_eq!(finish_action(&mut c), None);
    assert_eq!(c.current_action.state, ActionState::Running);
}

#[test]
fn attack_area_offsets() {
    assert_eq!(attack_offset(ActionDirection::Right), (1, 0));
    assert_eq!(attack_offset(ActionDirection::Left), (-1, 0));
    assert_eq!(attack_offset(ActionDirection::Up), (0, 1));
    assert_eq!(attack_offset(ActionDirection::Down), (0, -1));
    assert!(attack_is_sideways(ActionDirection::Left));
    assert!(!attack_is_sideways(ActionDirection::Up));
}

#[test]
fn facing_follows_velocity_signs() {
    let d = Direction { h: HorizontalDirection::Right, v: VerticalDirection::Down };
    let f = face_velocity(d, AxisSign::Less, AxisSign::Equal);
    assert_eq!(f, Direction { h: HorizontalDirection::Left, v: VerticalDirection::Down });
    let g = face_velocity(f, AxisSign::Equal, AxisSign::Greater);
    assert_eq!(g, Direction { h: HorizontalDirection::Left, v: VerticalDirection::Up });
    assert_eq!(Direction::default(), Direction::from_parts(HorizontalDirection::Right, VerticalDirection::Down));
}

#[test]
fn movement_state_holds_during_an_action() {
    let idle = Character::default();
    assert_eq!(movement_state(&idle, Movement::Idle, true), Movement::Moving);
    assert_eq!(movement_state(&idle, Movement::Moving, false), Movement::Idle);
    let mut busy = Character::default();
    busy.current_action = attack_request();
    assert_eq!(movement_state(&busy, Movement::Moving, false), Movement::Moving);
}

#[test]
fn clip_names() {
    let mut c = Character::default();
    let left = Direction { h: HorizontalDirection::Left, v: VerticalDirection::Down };
    assert_eq!(animation_key(&c, Movement::Idle, left), "idle-left");
    assert_eq!(animation_key(&c, Movement::Moving, Direction::default()), "walk-right");
    c.current_action = ActionContainer { direction: ActionDirection::Up, ..attack_request() };
    assert_eq!(animation_key(&c, Movement::Idle, left), "attack-up");
}

#[test]
fn frames_advance_wrap_and_finish_actions() {
    let clip = Clip { first: 4, last: 7, flip_x: false };
    assert_eq!(next_frame(false, 5, clip, ActionType::NoAction), (6, false));
    assert_eq!(next_frame(false, 7, clip, ActionType::NoAction), (4, false));
    assert_eq!(next_frame(false, 7, clip, ActionType::Attack), (4, true));
    assert_eq!(next_frame(true, 6, clip, ActionType::Attack), (4, false));

    let mut c = Character::default();
    c.current_action = ActionContainer { state: ActionState::Running, ..attack_request() };
    assert_eq!(advance_animation(&mut c, false, 7, clip), 4);
    assert_eq!(c.current_action.state, ActionState::Finished);
}

#[test]
fn named_clips_later_registration_wins() {
    let anims = Animations::new(vec![("walk", (0, 3, false)), ("idle", (4, 4, true)), ("walk", (5, 8, false))]);
    assert_eq!(anims.get("walk"), Some(Clip { first: 5, last: 8, flip_x: false }));
    assert_eq!(anims.get("idle"), Some(Clip { first: 4, last: 4, flip_x: true }));
    assert_eq!(anims.get("run"), None);
    assert!(same_name("walk", "walk"));
    assert!(!same_name("walk", "idle"));
}

#[test]
fn keyed_clips() {
    let key = ClipKey { movement: Movement::Moving, direction: Direction::default() };
    let other = ClipKey { movement: Movement::Idle, direction: Direction::default() };
    let clip = Clip { first: 1, last: 2, flip_x: false };
    let table = AnimationIndices::new(vec![(key, clip)]);
    assert_eq!(table.get(key), Some(clip));
    assert_eq!(table.get(other), None);
}
