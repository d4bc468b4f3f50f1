//! Camera movement input: the actions, their default keys, and which way a
//! set of pressed actions moves the camera.

use vstd::prelude::*;

verus! {

/// The camera movement actions.
#[derive(Clone, Copy, Debug, PartialEq, Eq)]
pub enum Action {
    Forward,
    Backward,
    Left,
    Right,
    Up,
    Down,
}

/// The keyboard keys bound to movement actions.
#[derive(Clone, Copy, Debug, PartialEq, Eq)]
pub enum KeyCode {
    KeyW,
    KeyS,
    KeyA,
    KeyD,
    KeyE,
    KeyQ,
}

/// The key bound to an action: `W`/`S` forward and back, `A`/`D` left and
/// right, `E`/`Q` up and down.
pub open spec fn spec_default_binding(a: Action) -> KeyCode {
    match a {
        Action::Forward => KeyCode::KeyW,
        Action::Backward => KeyCode::KeyS,
        Action::Left => KeyCode::KeyA,
        Action::Right => KeyCode::KeyD,
        Action::Up => KeyCode::KeyE,
        Action::Down => KeyCode::KeyQ,
    }
}

/// The key bound to an action.
pub fn default_binding(a: Action) -> (k: KeyCode)
    ensures
        k == spec_default_binding(a),
{
    match a {
        Action::Forward => KeyCode::KeyW,
        Action::Backward => KeyCode::KeyS,
        Action::Left => KeyCode::KeyA,
        Action::Right => KeyCode::KeyD,
        Action::Up => KeyCode::KeyE,
        Action::Down => KeyCode::KeyQ,
    }
}

/// All actions, in the order in which they are bound.
pub open spec fn spec_actions() -> Seq<Action> {
    seq![Action::Forward, Action::Backward, Action::Left, Action::Right, Action::Up, Action::Down]
}

/// The input map: every action with its key, in binding order.
pub fn default_input_map() -> (r: Vec<(Action, KeyCode)>)
    ensures
        r@.len() == 6,
        forall|i: int|
            0 <= i < 6 ==> #[trigger] r@[i] == (spec_actions()[i], spec_default_binding(
                spec_actions()[i],
            )),
{
    let r = vec![
        (Action::Forward, default_binding(Action::Forward)),
        (Action::Backward, default_binding(Action::Backward)),
        (Action::Left, default_binding(Action::Left)),
        (Action::Right, default_binding(Action::Right)),
        (Action::Up, default_binding(Action::Up)),
        (Action::Down, default_binding(Action::Down)),
    ];
    r
}

/// Every action has a key of its own, and the map binds every action.
pub proof fn lemma_bindings_distinct(a: Action, b: Action)
    ensures
        a != b ==> spec_default_binding(a) != spec_default_binding(b),
        spec_actions().contains(a),
{
    let s = spec_actions();
    match a {
        Action::Forward => assert(s[0] == a),
        Action::Backward => assert(s[1] == a),
        Action::Left => assert(s[2] == a),
        Action::Right => assert(s[3] == a),
        Action::Up => assert(s[4] == a),
        Action::Down => assert(s[5] == a),
    }
}

/// Which movement actions are held this frame.
#[derive(Clone, Copy, Debug, PartialEq, Eq)]
pub struct PressedActions {
    pub forward: bool,
    pub backward: bool,
    pub left: bool,
    pub right: bool,
    pub up: bool,
    pub down: bool,
}

/// The camera's movement along its own forward, right and up directions,
/// each `-1`, `0` or `1`.
#[derive(Clone, Copy, Debug, PartialEq, Eq)]
pub struct MoveAxes {
    pub forward: i8,
    pub right: i8,
    pub up: i8,
}

/// `1` for a held action, `0` otherwise.
pub open spec fn held(b: bool) -> int {
    if b {
        1
    } else {
        0
    }
}

/// Each held action adds its direction, each opposite one subtracts it.
pub open spec fn spec_move_axes(p: PressedActions) -> MoveAxes {
    MoveAxes {
        forward: (held(p.forward) - held(p.backward)) as i8,
        right: (held(p.right) - held(p.left)) as i8,
        up: (held(p.up) - held(p.down)) as i8,
    }
}

fn axis(plus: bool, minus: bool) -> (r: i8)
    ensures
        r == held(plus) - held(minus),
{
    let mut r: i8 = 0;
    if plus {
        r = r + 1;
    }
    if minus {
        r = r - 1;
    }
    r
}

/// The net movement of a set of held actions.
pub fn move_axes(p: &PressedActions) -> (r: MoveAxes)
    ensures
        r == spec_move_axes(*p),
        r.forward as int == held(p.forward) - held(p.backward),
        r.right as int == held(p.right) - held(p.left),
        r.up as int == held(p.up) - held(p.down),
{
    MoveAxes {
        forward: axis(p.forward, p.backward),
        right: axis(p.right, p.left),
        up: axis(p.up, p.down),
    }
}

impl MoveAxes {
    /// The camera moves unless every axis cancels out.
    pub fn is_moving(&self) -> (r: bool)
        ensures
            r == (self.forward != 0 || self.right != 0 || self.up != 0),
    {
        self.forward != 0 || self.right != 0 || self.up != 0
    }
}

/// Holding both actions of an opposite pair moves the camera along that
/// axis exactly as holding neither; the axes stay within `-1..=1`.
pub proof fn lemma_opposites_cancel(p: PressedActions)
    ensures
        -1 <= spec_move_axes(p).forward <= 1,
        -1 <= spec_move_axes(p).right <= 1,
        -1 <= spec_move_axes(p).up <= 1,
        spec_move_axes(PressedActions { forward: true, backward: true, ..p }) == spec_move_axes(
            PressedActions { forward: false, backward: false, ..p },
        ),
        spec_move_axes(PressedActions { left: true, right: true, ..p }) == spec_move_axes(
            PressedActions { left: false, right: false, ..p },
        ),
        spec_move_axes(PressedActions { up: true, down: true, ..p }) == spec_move_axes(
            PressedActions { up: false, down: false, ..p },
        ),
{
}

/// With nothing held, or only opposite pairs held, the camera stays put.
pub proof fn lemma_balanced_input_stays(p: PressedActions)
    requires
        p.forward == p.backward,
        p.left == p.right,
        p.up == p.down,
    ensures
        spec_move_axes(p) == (MoveAxes { forward: 0, right: 0, up: 0 }),
{
}

} // verus!
