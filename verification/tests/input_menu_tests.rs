use gnworld::drivers::find_gl_driver;
use gnworld::input::{default_binding, default_input_map, move_axes, Action, KeyCode, MoveAxes, PressedActions};
use gnworld::menu::{button_listener, button_response, next_app_state, AppState, ButtonResponse, ButtonShade, Interaction};

fn nothing() -> PressedActions {
    PressedActions { forward: false, backward: false, left: false, right: false, up: false, down: false }
}

#[test]
fn default_keys() {
    assert_eq!(default_binding(Action::Forward), KeyCode::KeyW);
    assert_eq!(default_binding(Action::Backward), KeyCode::KeyS);
    assert_eq!(default_binding(Action::Left), KeyCode::KeyA);
    assert_eq!(default_binding(Action::Right), KeyCode::KeyD);
    assert_eq!(default_binding(Action::Up), KeyCode::KeyE);
    assert_eq!(default_binding(Action::Down), KeyCode::KeyQ);
    let map = default_input_map();
    assert_eq!(map.len(), 6);
    assert_eq!(map[0], (Action::Forward, KeyCode::KeyW));
    assert_eq!(map[5], (Action::Down, KeyCode::KeyQ));
    for i in 0..6 {
        for j in 0..6 {
            if i != j {
                assert_ne!(map[i].1, map[j].1);
            }
        }
    }
}

#[test]
fn movement_axes() {
    assert_eq!(move_axes(&nothing()), MoveAxes { forward: 0, right: 0, up: 0 });
    assert!(!move_axes(&nothing()).is_moving());
    let p = PressedActions { forward: true, left: true, down: true, ..nothing() };
    assert_eq!(move_axes(&p), MoveAxes { forward: 1, right: -1, up: -1 });
    assert!(move_axes(&p).is_moving());
    let p = PressedActions { backward: true, right: true, up: true, ..nothing() };
    assert_eq!(move_axes(&p), MoveAxes { forward: -1, right: 1, up: 1 });
}

#[test]
fn opposite_actions_cancel() {
    let p = PressedActions { forward: true, backward: true, left: true, right: true, up: true, down: true };
    assert_eq!(move_axes(&p), MoveAxes { forward: 0, right: 0, up: 0 });
    assert!(!move_axes(&p).is_moving());
    let p = PressedActions { forward: true, backward: true, up: true, ..nothing() };
    assert_eq!(move_axes(&p), MoveAxes { forward: 0, right: 0, up: 1 });
    assert!(move_axes(&p).is_moving());
}

#[test]
fn menu_button_responses() {
    assert_eq!(
        button_response(Interaction::Pressed),
        ButtonResponse { shade: ButtonShade::Pressed, next_state: Some(AppState::Game) }
    );
    assert_eq!(
        button_response(Interaction::Hovered),
        ButtonResponse { shade: ButtonShade::Hovered, next_state: None }
    );
    assert_eq!(
        button_response(Interaction::Idle),
        ButtonResponse { shade: ButtonShade::Normal, next_state: None }
    );
}

#[test]
fn menu_listener_over_a_frame() {
    let (shades, next) = button_listener(&vec![Interaction::Hovered, Interaction::Idle]);
    assert_eq!(shades, vec![ButtonShade::Hovered, ButtonShade::Normal]);
    assert_eq!(next, None);
    let (shades, next) = button_listener(&vec![Interaction::Hovered, Interaction::Pressed, Interaction::Idle]);
    assert_eq!(shades, vec![ButtonShade::Hovered, ButtonShade::Pressed, ButtonShade::Normal]);
    assert_eq!(next, Some(AppState::Game));
    let (shades, next) = button_listener(&Vec::new());
    assert!(shades.is_empty());
    assert_eq!(next, None);
}

#[test]
fn app_states() {
    assert_eq!(AppState::default(), AppState::Menu);
    assert_eq!(next_app_state(AppState::Menu, Some(AppState::Game)), AppState::Game);
    assert_eq!(next_app_state(AppState::Menu, None), AppState::Menu);
    assert_eq!(next_app_state(AppState::Game, None), AppState::Game);
}

#[test]
fn gl_driver_lookup() {
    let names: Vec<String> = vec!["direct3d".into(), "opengl".into(), "opengles2".into(), "opengl".into()];
    assert_eq!(find_gl_driver(&names), Some(1));
    let names: Vec<String> = vec!["opengles2".into(), "software".into(), "OpenGL".into()];
    assert_eq!(find_gl_driver(&names), None);
    assert_eq!(find_gl_driver(&Vec::new()), None);
    let names: Vec<String> = vec!["opengl".into()];
    assert_eq!(find_gl_driver(&names), Some(0));
}
