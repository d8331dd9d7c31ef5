//! Game-side input: the game's actions and the keys that steer the camera and the scene.
use vstd::prelude::*;

use crate::input::ActionState;

verus! {

/// The actions of the game.
#[derive(Clone, Copy, PartialEq, Eq, Hash, Debug, Structural)]
pub enum GameAction {
    MoveRight,
    MoveLeft,
    MoveForward,
    MoveBackward,
    RotateLeft,
    RotateRight,
    Jump,
}

/// A distinct small number for each action.
pub open spec fn action_code(a: GameAction) -> u8 {
    match a {
        GameAction::MoveRight => 0,
        GameAction::MoveLeft => 1,
        GameAction::MoveForward => 2,
        GameAction::MoveBackward => 3,
        GameAction::RotateLeft => 4,
        GameAction::RotateRight => 5,
        GameAction::Jump => 6,
    }
}

impl GameAction {
    /// The action's number.
    pub fn code(self) -> (c: u8)
        ensures
            c == action_code(self),
    {
        match self {
            GameAction::MoveRight => 0,
            GameAction::MoveLeft => 1,
            GameAction::MoveForward => 2,
            GameAction::MoveBackward => 3,
            GameAction::RotateLeft => 4,
            GameAction::RotateRight => 5,
            GameAction::Jump => 6,
        }
    }
}

/// Different actions have different numbers.
pub proof fn lemma_action_code_injective(a: GameAction, b: GameAction)
    ensures
        action_code(a) == action_code(b) <==> a == b,
{
}


/// Held state of the keys that rotate the scene root around the world Y axis: **[** and **]**.
#[derive(Clone, Copy, Debug, PartialEq, Eq, Structural)]
pub struct KeyboardSceneRootKeys {
    pub bracket_left: bool,
    pub bracket_right: bool,
}

impl Default for KeyboardSceneRootKeys {
    fn default() -> (k: Self)
        ensures
            !k.bracket_left && !k.bracket_right,
    {
        KeyboardSceneRootKeys { bracket_left: false, bracket_right: false }
    }
}

/// Held state of the camera orbit keys (**D**, **A**, **W**, **S**).
#[derive(Clone, Copy, Debug, PartialEq, Eq, Structural)]
pub struct KeyboardOrbitKeys {
    pub right: bool,
    pub left: bool,
    pub up: bool,
    pub down: bool,
}

impl Default for KeyboardOrbitKeys {
    fn default() -> (k: Self)
        ensures
            !k.right && !k.left && !k.up && !k.down,
    {
        KeyboardOrbitKeys { right: false, left: false, up: false, down: false }
    }
}

/// The physical keys the window reacts to.
#[derive(Clone, Copy, Debug, PartialEq, Eq, Structural)]
pub enum ControlKey {
    KeyA,
    KeyD,
    KeyS,
    KeyW,
    BracketLeft,
    BracketRight,
    /// Any other key: ignored.
    Other,
}

/// Records a key going down (`pressed`) or up: **D**/**A** orbit right/left, **W**/**S**
/// up/down, **[**/**]** turn the scene root; other keys change nothing.
pub fn apply_control_key(
    orbit: &mut KeyboardOrbitKeys,
    scene: &mut KeyboardSceneRootKeys,
    key: ControlKey,
    pressed: bool,
)
    ensures
        key_event_effect(*old(orbit), *old(scene), key, pressed, *final(orbit), *final(scene)),
{
    match key {
        ControlKey::KeyD => orbit.right = pressed,
        ControlKey::KeyA => orbit.left = pressed,
        ControlKey::KeyW => orbit.up = pressed,
        ControlKey::KeyS => orbit.down = pressed,
        ControlKey::BracketLeft => scene.bracket_left = pressed,
        ControlKey::BracketRight => scene.bracket_right = pressed,
        ControlKey::Other => {},
    }
}

/// When the window loses focus no key counts as held any more.
pub fn release_control_keys(orbit: &mut KeyboardOrbitKeys, scene: &mut KeyboardSceneRootKeys)
    ensures
        !final(orbit).right && !final(orbit).left && !final(orbit).up && !final(orbit).down,
        !final(scene).bracket_left && !final(scene).bracket_right,
{
    *orbit = KeyboardOrbitKeys::default();
    *scene = KeyboardSceneRootKeys::default();
}

/// Pressing a key and then releasing it leaves every key state as it was before the
/// press, except that the key itself is up.
pub proof fn lemma_press_release_restores(
    orbit: KeyboardOrbitKeys,
    scene: KeyboardSceneRootKeys,
    key: ControlKey,
    pressed_orbit: KeyboardOrbitKeys,
    pressed_scene: KeyboardSceneRootKeys,
    released_orbit: KeyboardOrbitKeys,
    released_scene: KeyboardSceneRootKeys,
)
    requires
        key_event_effect(orbit, scene, key, true, pressed_orbit, pressed_scene),
        key_event_effect(pressed_orbit, pressed_scene, key, false, released_orbit, released_scene),
    ensures
        key_event_effect(orbit, scene, key, false, released_orbit, released_scene),
{
}

/// A key event sets the flag of its own key to whether the key is down and leaves every
/// other flag as it was; a key the window does not use changes nothing.
pub proof fn lemma_key_event_touches_only_its_flag(
    orbit: KeyboardOrbitKeys,
    scene: KeyboardSceneRootKeys,
    key: ControlKey,
    pressed: bool,
    orbit2: KeyboardOrbitKeys,
    scene2: KeyboardSceneRootKeys,
)
    requires
        key_event_effect(orbit, scene, key, pressed, orbit2, scene2),
    ensures
        key == ControlKey::KeyD ==> orbit2.right == pressed,
        key == ControlKey::KeyA ==> orbit2.left == pressed,
        key == ControlKey::KeyW ==> orbit2.up == pressed,
        key == ControlKey::KeyS ==> orbit2.down == pressed,
        key == ControlKey::BracketLeft ==> scene2.bracket_left == pressed,
        key == ControlKey::BracketRight ==> scene2.bracket_right == pressed,
        key != ControlKey::KeyD ==> orbit2.right == orbit.right,
        key != ControlKey::KeyA ==> orbit2.left == orbit.left,
        key != ControlKey::KeyW ==> orbit2.up == orbit.up,
        key != ControlKey::KeyS ==> orbit2.down == orbit.down,
        key != ControlKey::BracketLeft ==> scene2.bracket_left == scene.bracket_left,
        key != ControlKey::BracketRight ==> scene2.bracket_right == scene.bracket_right,
        key == ControlKey::Other ==> orbit2 == orbit && scene2 == scene,
{
}

/// `(orbit2, scene2)` is what a key event makes of `(orbit, scene)`.
pub open spec fn key_event_effect(
    orbit: KeyboardOrbitKeys,
    scene: KeyboardSceneRootKeys,
    key: ControlKey,
    pressed: bool,
    orbit2: KeyboardOrbitKeys,
    scene2: KeyboardSceneRootKeys,
) -> bool {
    &&& orbit2.right == if key == ControlKey::KeyD {
        pressed
    } else {
        orbit.right
    }
    &&& orbit2.left == if key == ControlKey::KeyA {
        pressed
    } else {
        orbit.left
    }
    &&& orbit2.up == if key == ControlKey::KeyW {
        pressed
    } else {
        orbit.up
    }
    &&& orbit2.down == if key == ControlKey::KeyS {
        pressed
    } else {
        orbit.down
    }
    &&& scene2.bracket_left == if key == ControlKey::BracketLeft {
        pressed
    } else {
        scene.bracket_left
    }
    &&& scene2.bracket_right == if key == ControlKey::BracketRight {
        pressed
    } else {
        scene.bracket_right
    }
}

/// +1, 0 or -1.
pub open spec fn axis(positive: bool, negative: bool) -> int {
    (if positive {
        1int
    } else {
        0int
    }) - (if negative {
        1int
    } else {
        0int
    })
}

/// Unnormalized horizontal movement wish from the active actions: `x` is right minus
/// left, `z` is backward minus forward (forward is `-Z`); opposite actions cancel.
pub fn movement_direction(actions: &ActionState) -> (d: (i8, i8))
    ensures
        d.0 == axis(
            actions@.contains(GameAction::MoveRight),
            actions@.contains(GameAction::MoveLeft),
        ),
        d.1 == axis(
            actions@.contains(GameAction::MoveBackward),
            actions@.contains(GameAction::MoveForward),
        ),
{
    let mut ix: i8 = 0;
    let mut iz: i8 = 0;
    if actions.is_active(GameAction::MoveRight) {
        ix = ix + 1;
    }
    if actions.is_active(GameAction::MoveLeft) {
        ix = ix - 1;
    }
    if actions.is_active(GameAction::MoveForward) {
        iz = iz - 1;
    }
    if actions.is_active(GameAction::MoveBackward) {
        iz = iz + 1;
    }
    (ix, iz)
}

} // verus!
