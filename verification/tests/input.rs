use opengl_guap::game::GameAction;
use opengl_guap::input::{ActionMap, RawInputState};

const KEY_D: u32 = 3;
const KEY_A: u32 = 4;
const KEY_SPACE: u32 = 9;

#[test]
fn keys_follow_last_event() {
    let mut raw = RawInputState::default();
    assert!(!raw.is_key_held(KEY_D));
    raw.set_key(KEY_D, true);
    raw.set_key(KEY_A, true);
    assert!(raw.is_key_held(KEY_D));
    raw.set_key(KEY_D, false);
    assert!(!raw.is_key_held(KEY_D));
    assert!(raw.is_key_held(KEY_A));
    raw.set_key(KEY_A, true);
    assert!(raw.is_key_held(KEY_A));
    raw.clear();
    assert!(!raw.is_key_held(KEY_A));
}

#[test]
fn held_keys_resolve_to_bound_actions() {
    let mut map = ActionMap::default();
    map.bind(KEY_D, GameAction::MoveRight);
    map.bind(KEY_A, GameAction::MoveLeft);
    map.bind(KEY_SPACE, GameAction::Jump);
    map.bind(KEY_SPACE, GameAction::MoveForward);
    let mut raw = RawInputState::new();
    raw.set_key(KEY_SPACE, true);
    raw.set_key(KEY_D, true);
    let state = map.resolve(&raw);
    assert!(state.is_active(GameAction::MoveRight));
    assert!(state.is_active(GameAction::Jump));
    assert!(state.is_active(GameAction::MoveForward));
    assert!(!state.is_active(GameAction::MoveLeft));
    assert!(!state.is_active(GameAction::RotateLeft));
}

#[test]
fn nothing_held_nothing_active() {
    let mut map = ActionMap::new();
    map.bind(KEY_D, GameAction::MoveRight);
    let state = map.resolve(&RawInputState::new());
    assert!(!state.is_active(GameAction::MoveRight));
}

#[test]
fn unbound_key_does_nothing() {
    let map = ActionMap::new();
    let mut raw = RawInputState::new();
    raw.set_key(KEY_D, true);
    let state = map.resolve(&raw);
    assert!(!state.is_active(GameAction::MoveRight));
}

#[test]
fn chained_bindings_resolve_to_held_pairs() {
    let mut map = ActionMap::new();
    map.bind(KEY_D, GameAction::MoveRight)
        .bind(KEY_A, GameAction::MoveLeft)
        .bind(KEY_D, GameAction::RotateRight);
    let mut raw = RawInputState::new();
    raw.set_key(KEY_D, true);
    let state = map.resolve(&raw);
    assert!(state.is_active(GameAction::MoveRight));
    assert!(state.is_active(GameAction::RotateRight));
    assert!(!state.is_active(GameAction::MoveLeft));
    assert!(!state.is_active(GameAction::Jump));
}
