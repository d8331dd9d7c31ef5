use opengl_guap::game::{
    apply_control_key, movement_direction, release_control_keys, ControlKey, GameAction,
    KeyboardOrbitKeys, KeyboardSceneRootKeys,
};
use opengl_guap::input::{ActionMap, RawInputState};

#[test]
fn action_codes_are_distinct() {
    let all = [
        GameAction::MoveRight,
        GameAction::MoveLeft,
        GameAction::MoveForward,
        GameAction::MoveBackward,
        GameAction::RotateLeft,
        GameAction::RotateRight,
        GameAction::Jump,
    ];
    for (i, a) in all.iter().enumerate() {
        assert_eq!(a.code() as usize, i);
    }
}

#[test]
fn control_keys_set_and_clear_flags() {
    let mut orbit = KeyboardOrbitKeys::default();
    let mut scene = KeyboardSceneRootKeys::default();
    apply_control_key(&mut orbit, &mut scene, ControlKey::KeyD, true);
    apply_control_key(&mut orbit, &mut scene, ControlKey::KeyW, true);
    apply_control_key(&mut orbit, &mut scene, ControlKey::BracketRight, true);
    assert_eq!(orbit, KeyboardOrbitKeys { right: true, left: false, up: true, down: false });
    assert_eq!(scene, KeyboardSceneRootKeys { bracket_left: false, bracket_right: true });
    apply_control_key(&mut orbit, &mut scene, ControlKey::KeyD, false);
    apply_control_key(&mut orbit, &mut scene, ControlKey::Other, true);
    assert_eq!(orbit, KeyboardOrbitKeys { right: false, left: false, up: true, down: false });
    apply_control_key(&mut orbit, &mut scene, ControlKey::KeyA, true);
    apply_control_key(&mut orbit, &mut scene, ControlKey::KeyS, true);
    apply_control_key(&mut orbit, &mut scene, ControlKey::BracketLeft, true);
    assert!(orbit.left && orbit.down && scene.bracket_left);
}

#[test]
fn focus_loss_releases_everything() {
    let mut orbit = KeyboardOrbitKeys { right: true, left: true, up: true, down: true };
    let mut scene = KeyboardSceneRootKeys { bracket_left: true, bracket_right: true };
    release_control_keys(&mut orbit, &mut scene);
    assert_eq!(orbit, KeyboardOrbitKeys::default());
    assert_eq!(scene, KeyboardSceneRootKeys::default());
}

#[test]
fn movement_direction_from_actions() {
    let mut map = ActionMap::new();
    map.bind(1, GameAction::MoveRight);
    map.bind(2, GameAction::MoveLeft);
    map.bind(3, GameAction::MoveForward);
    map.bind(4, GameAction::MoveBackward);
    let mut raw = RawInputState::new();
    assert_eq!(movement_direction(&map.resolve(&raw)), (0, 0));
    raw.set_key(1, true);
    raw.set_key(3, true);
    assert_eq!(movement_direction(&map.resolve(&raw)), (1, -1));
    raw.set_key(2, true);
    raw.set_key(4, true);
    assert_eq!(movement_direction(&map.resolve(&raw)), (0, 0));
    raw.set_key(1, false);
    raw.set_key(3, false);
    assert_eq!(movement_direction(&map.resolve(&raw)), (-1, 1));
}
