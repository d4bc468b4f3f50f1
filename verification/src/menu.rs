//! The start menu's state machine: the app states and how the menu button
//! answers to interaction.

use vstd::prelude::*;

verus! {

/// The states of the application.
#[derive(Clone, Copy, Debug, PartialEq, Eq)]
pub enum AppState {
    Menu,
    Game,
}

impl Default for AppState {
    /// The application starts in the menu.
    fn default() -> (s: AppState)
        ensures
            s == AppState::Menu,
    {
        AppState::Menu
    }
}

/// How the pointer relates to a button this frame.
#[derive(Clone, Copy, Debug, PartialEq, Eq)]
pub enum Interaction {
    /// The button is being pressed.
    Pressed,
    /// The pointer is over the button.
    Hovered,
    /// Neither pressed nor hovered.
    Idle,
}

/// The look of the menu button; `Normal` is also its look when created.
#[derive(Clone, Copy, Debug, PartialEq, Eq)]
pub enum ButtonShade {
    Pressed,
    Hovered,
    Normal,
}

/// What the menu does for one changed button.
#[derive(Clone, Copy, Debug, PartialEq, Eq)]
pub struct ButtonResponse {
    pub shade: ButtonShade,
    pub next_state: Option<AppState>,
}

/// A press shades the button and asks for the game; hovering and leaving
/// only shade it.
pub open spec fn spec_button_response(i: Interaction) -> ButtonResponse {
    match i {
        Interaction::Pressed => ButtonResponse {
            shade: ButtonShade::Pressed,
            next_state: Some(AppState::Game),
        },
        Interaction::Hovered => ButtonResponse { shade: ButtonShade::Hovered, next_state: None },
        Interaction::Idle => ButtonResponse { shade: ButtonShade::Normal, next_state: None },
    }
}

/// What the menu does for one changed button.
pub fn button_response(i: Interaction) -> (r: ButtonResponse)
    ensures
        r == spec_button_response(i),
{
    match i {
        Interaction::Pressed => ButtonResponse {
            shade: ButtonShade::Pressed,
            next_state: Some(AppState::Game),
        },
        Interaction::Hovered => ButtonResponse { shade: ButtonShade::Hovered, next_state: None },
        Interaction::Idle => ButtonResponse { shade: ButtonShade::Normal, next_state: None },
    }
}

/// The requested state after a frame's changed buttons: the game once any
/// of them was pressed.
pub open spec fn spec_requested_state(interactions: Seq<Interaction>) -> Option<AppState> {
    if exists|i: int| 0 <= i < interactions.len() && #[trigger] interactions[i] == Interaction::Pressed {
        Some(AppState::Game)
    } else {
        None
    }
}

/// The menu's answer to one frame: the new shade of each changed button, in
/// order, and the state requested.
pub fn button_listener(interactions: &Vec<Interaction>) -> (r: (Vec<ButtonShade>, Option<AppState>))
    ensures
        r.0@.len() == interactions@.len(),
        forall|i: int|
            0 <= i < interactions@.len() ==> #[trigger] r.0@[i] == spec_button_response(
                interactions@[i],
            ).shade,
        r.1 == spec_requested_state(interactions@),
{
    let n: usize = interactions.len();
    let mut shades: Vec<ButtonShade> = Vec::new();
    let mut next: Option<AppState> = None;
    let mut i: usize = 0;
    while i < n
        invariant
            n == interactions@.len(),
            i <= n,
            shades@.len() == i,
            forall|j: int|
                0 <= j < i ==> #[trigger] shades@[j] == spec_button_response(interactions@[j]).shade,
            next == spec_requested_state(interactions@.take(i as int)),
        decreases n - i,
    {
        let resp = button_response(interactions[i]);
        shades.push(resp.shade);
        proof {
            let t = interactions@.take(i as int + 1);
            let t0 = interactions@.take(i as int);
            assert(t[i as int] == interactions@[i as int]);
            assert forall|j: int| 0 <= j < t0.len() implies t0[j] == #[trigger] t[j] by {}
            if exists|j: int| 0 <= j < t0.len() && #[trigger] t0[j] == Interaction::Pressed {
                let j = choose|j: int| 0 <= j < t0.len() && #[trigger] t0[j] == Interaction::Pressed;
                assert(t[j] == Interaction::Pressed);
            }
            if exists|j: int| 0 <= j < t.len() && #[trigger] t[j] == Interaction::Pressed {
                let j = choose|j: int| 0 <= j < t.len() && #[trigger] t[j] == Interaction::Pressed;
                if j < i {
                    assert(t0[j] == Interaction::Pressed);
                }
            }
        }
        match resp.next_state {
            Some(s) => {
                next = Some(s);
            },
            None => {},
        }
        i = i + 1;
    }
    assert(interactions@.take(n as int) =~= interactions@);
    (shades, next)
}

/// The state after a frame: the requested one, or the current one when
/// nothing was requested.
pub fn next_app_state(current: AppState, requested: Option<AppState>) -> (s: AppState)
    ensures
        s == (match requested {
            Some(r) => r,
            None => current,
        }),
{
    match requested {
        Some(r) => r,
        None => current,
    }
}

/// The menu only ever leads to the game: whatever the interactions, the
/// requested state is the game or nothing, and the game is never left.
pub proof fn lemma_menu_only_enters_game(interactions: Seq<Interaction>, current: AppState)
    ensures
        spec_requested_state(interactions) != Some(AppState::Menu),
        current == AppState::Game ==> match spec_requested_state(interactions) {
            Some(r) => r,
            None => current,
        } == AppState::Game,
{
}

} // verus!
