use gnworld::screens::{
    declaration_closes, declaration_closes_on, declaration_frame, loop_action, page_name,
    quit_requested, start_button, start_menu_frame, start_screen_batch, start_screen_frame,
    start_screen_step, DrawCommand, Event, Keycode, LoopAction, LoopEvent, Page, StartMenu, Step,
};

fn click(x: i32, y: i32) -> Event {
    Event::MouseButtonDown { x, y }
}

#[test]
fn start_screen_buttons() {
    assert_eq!(start_screen_step(&click(200, 200)), Step::Return(Some(Page::OpenGl)));
    assert_eq!(start_screen_step(&click(300, 250)), Step::Return(Some(Page::OpenGl)));
    assert_eq!(start_screen_step(&click(400, 300)), Step::Return(Some(Page::OpenGl)));
    assert_eq!(start_screen_step(&click(401, 250)), Step::Return(Some(Page::Declaration)));
    assert_eq!(start_screen_step(&click(600, 300)), Step::Return(Some(Page::Declaration)));
    assert_eq!(start_screen_step(&click(601, 250)), Step::Continue);
    assert_eq!(start_screen_step(&click(199, 250)), Step::Continue);
    assert_eq!(start_screen_step(&click(300, 199)), Step::Continue);
    assert_eq!(start_screen_step(&click(300, 301)), Step::Continue);
}

#[test]
fn start_screen_shared_column_opens_opengl() {
    // x == 400 is painted green, yet it lies in both hit regions and the
    // OpenGL button is tested first.
    assert_eq!(start_screen_step(&click(400, 250)), Step::Return(Some(Page::OpenGl)));
}

#[test]
fn start_screen_quit_and_other_events() {
    assert_eq!(start_screen_step(&Event::Quit), Step::Return(None));
    assert_eq!(
        start_screen_step(&Event::KeyDown { keycode: Some(Keycode::Escape) }),
        Step::Continue
    );
    assert_eq!(start_screen_step(&Event::Other), Step::Continue);
}

#[test]
fn start_screen_batch_takes_first_decisive_event() {
    let events = vec![Event::Other, click(10, 10), click(500, 250), Event::Quit];
    assert_eq!(start_screen_batch(&events), Step::Return(Some(Page::Declaration)));
    let events = vec![Event::Quit, click(300, 250)];
    assert_eq!(start_screen_batch(&events), Step::Return(None));
    let events = vec![click(10, 10), Event::KeyDown { keycode: None }];
    assert_eq!(start_screen_batch(&events), Step::Continue);
    assert_eq!(start_screen_batch(&Vec::new()), Step::Continue);
}

#[test]
fn page_names() {
    assert_eq!(page_name(Page::OpenGl), "opengl");
    assert_eq!(page_name(Page::Declaration), "declaration");
}

#[test]
fn start_screen_draws_two_buttons() {
    assert_eq!(
        start_screen_frame(),
        vec![
            DrawCommand::SetColor { r: 0, g: 0, b: 0 },
            DrawCommand::Clear,
            DrawCommand::SetColor { r: 255, g: 0, b: 0 },
            DrawCommand::FillRect { x: 200, y: 200, w: 200, h: 100 },
            DrawCommand::SetColor { r: 0, g: 255, b: 0 },
            DrawCommand::FillRect { x: 400, y: 200, w: 200, h: 100 },
            DrawCommand::Present,
        ]
    );
}

#[test]
fn declaration_page_closing() {
    assert!(declaration_closes_on(&Event::Quit));
    assert!(declaration_closes_on(&Event::KeyDown { keycode: Some(Keycode::Escape) }));
    assert!(!declaration_closes_on(&Event::KeyDown { keycode: Some(Keycode::Other) }));
    assert!(!declaration_closes_on(&Event::KeyDown { keycode: None }));
    assert!(!declaration_closes_on(&click(100, 100)));
    assert!(declaration_closes(&vec![Event::Other, Event::KeyDown { keycode: Some(Keycode::Escape) }]));
    assert!(!declaration_closes(&vec![Event::Other, click(1, 1)]));
    assert!(!declaration_closes(&Vec::new()));
}

#[test]
fn declaration_page_draws_a_frame() {
    assert_eq!(
        declaration_frame(),
        vec![
            DrawCommand::SetColor { r: 255, g: 255, b: 255 },
            DrawCommand::Clear,
            DrawCommand::SetColor { r: 0, g: 0, b: 0 },
            DrawCommand::DrawRect { x: 100, y: 100, w: 600, h: 400 },
            DrawCommand::Present,
        ]
    );
}

#[test]
fn quit_detection() {
    assert!(quit_requested(&vec![click(1, 2), Event::Quit]));
    assert!(!quit_requested(&vec![click(1, 2), Event::KeyDown { keycode: Some(Keycode::Escape) }]));
    assert!(!quit_requested(&Vec::new()));
}

#[test]
fn start_menu_button_area() {
    let button = start_button();
    assert_eq!((button.left(), button.top(), button.right(), button.bottom()), (300, 250, 500, 300));
}

#[test]
fn start_menu_click_inside_starts_game() {
    let mut menu = StartMenu::new();
    assert_eq!(menu, StartMenu { running: true, start_game: false });
    menu.handle_events(&vec![click(299, 260), click(500, 260), click(400, 300)]);
    assert_eq!(menu, StartMenu { running: true, start_game: false });
    menu.handle_events(&vec![click(300, 250), Event::Other]);
    assert_eq!(menu, StartMenu { running: false, start_game: true });
}

#[test]
fn start_menu_edges_of_button() {
    let mut menu = StartMenu::new();
    menu.handle_event(&click(499, 299));
    assert_eq!(menu, StartMenu { running: false, start_game: true });
}

#[test]
fn start_menu_quit_stops_without_game() {
    let mut menu = StartMenu::new();
    menu.handle_events(&vec![Event::Quit, click(10, 10)]);
    assert_eq!(menu, StartMenu { running: false, start_game: false });
}

#[test]
fn start_menu_game_survives_later_quit() {
    let mut menu = StartMenu::new();
    menu.handle_events(&vec![click(350, 275), Event::Quit, click(1, 1)]);
    assert_eq!(menu, StartMenu { running: false, start_game: true });
    let mut menu = StartMenu::new();
    menu.handle_events(&vec![Event::Quit, click(350, 275)]);
    assert_eq!(menu, StartMenu { running: false, start_game: true });
}

#[test]
fn start_menu_draws_its_button() {
    assert_eq!(
        start_menu_frame(),
        vec![
            DrawCommand::SetColor { r: 0, g: 0, b: 0 },
            DrawCommand::Clear,
            DrawCommand::SetColor { r: 0, g: 128, b: 255 },
            DrawCommand::FillRect { x: 300, y: 250, w: 200, h: 50 },
            DrawCommand::Present,
        ]
    );
}

#[test]
fn window_loop_actions() {
    assert_eq!(loop_action(LoopEvent::CloseRequested), LoopAction::Exit);
    assert_eq!(loop_action(LoopEvent::RedrawRequested), LoopAction::Draw);
    assert_eq!(
        loop_action(LoopEvent::Resized { width: 640, height: 480 }),
        LoopAction::Resize { width: 640, height: 480 }
    );
    assert_eq!(loop_action(LoopEvent::AboutToWait), LoopAction::RequestRedraw);
    assert_eq!(loop_action(LoopEvent::Other), LoopAction::Nothing);
}
