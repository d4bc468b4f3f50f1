//! The decisions of the SDL screens: what each frame draws, which button a
//! click selects, and when a screen is left.  The application polls the
//! events, hands them over in batches and performs the drawing.

use vstd::prelude::*;
use crate::rect::{Rect, RectView, spec_new_rect};

verus! {

/// The keys that the screens react to.
#[derive(Clone, Copy, Debug, PartialEq, Eq)]
pub enum Keycode {
    Escape,
    Other,
}

/// One input event from the window system.
#[derive(Clone, Copy, Debug, PartialEq, Eq)]
pub enum Event {
    Quit,
    MouseButtonDown { x: i32, y: i32 },
    KeyDown { keycode: Option<Keycode> },
    Other,
}

/// One drawing step on a canvas.
#[derive(Clone, Copy, Debug, PartialEq, Eq)]
pub enum DrawCommand {
    SetColor { r: u8, g: u8, b: u8 },
    Clear,
    FillRect { x: i32, y: i32, w: u32, h: u32 },
    DrawRect { x: i32, y: i32, w: u32, h: u32 },
    Present,
}

/// What an event loop does after an event: keep going or return a value.
#[derive(Debug, PartialEq, Eq)]
pub enum Step<T> {
    Continue,
    Return(T),
}

/// The pages reachable from the start screen.
#[derive(Clone, Copy, Debug, PartialEq, Eq)]
pub enum Page {
    OpenGl,
    Declaration,
}

/// The name under which a page is reported.
pub open spec fn spec_page_name(page: Page) -> Seq<char> {
    match page {
        Page::OpenGl => "opengl"@,
        Page::Declaration => "declaration"@,
    }
}

/// The name under which a page is reported.
pub fn page_name(page: Page) -> (s: &'static str)
    ensures
        s@ == spec_page_name(page),
{
    match page {
        Page::OpenGl => "opengl",
        Page::Declaration => "declaration",
    }
}

// ---------------------------------------------------------------- start screen

/// Clicks in `[200, 400] x [200, 300]` (edges included) open the OpenGL page.
pub open spec fn in_opengl_button(x: int, y: int) -> bool {
    200 <= x <= 400 && 200 <= y <= 300
}

/// Clicks in `[400, 600] x [200, 300]` (edges included) open the declaration page.
pub open spec fn in_declaration_button(x: int, y: int) -> bool {
    400 <= x <= 600 && 200 <= y <= 300
}

/// The start screen's answer to one event: a quit leaves with no page, a
/// click on a button leaves with its page (the OpenGL button is tested
/// first), anything else keeps the screen.
pub open spec fn spec_start_screen_step(e: Event) -> Step<Option<Page>> {
    match e {
        Event::Quit => Step::Return(None),
        Event::MouseButtonDown { x, y } => if in_opengl_button(x as int, y as int) {
            Step::Return(Some(Page::OpenGl))
        } else if in_declaration_button(x as int, y as int) {
            Step::Return(Some(Page::Declaration))
        } else {
            Step::Continue
        },
        _ => Step::Continue,
    }
}

/// The first event of a batch that leaves a screen decides; the rest of the
/// batch is never looked at.
pub open spec fn spec_start_screen_batch(events: Seq<Event>) -> Step<Option<Page>>
    decreases events.len(),
{
    if events.len() == 0 {
        Step::Continue
    } else {
        match spec_start_screen_step(events[0]) {
            Step::Continue => spec_start_screen_batch(events.drop_first()),
            s => s,
        }
    }
}

/// The start screen's answer to one event.
pub fn start_screen_step(e: &Event) -> (r: Step<Option<Page>>)
    ensures
        r == spec_start_screen_step(*e),
{
    match e {
        Event::Quit => Step::Return(None),
        Event::MouseButtonDown { x, y } => {
            let x: i32 = *x;
            let y: i32 = *y;
            if x >= 200 && x <= 400 && y >= 200 && y <= 300 {
                Step::Return(Some(Page::OpenGl))
            } else if x >= 400 && x <= 600 && y >= 200 && y <= 300 {
                Step::Return(Some(Page::Declaration))
            } else {
                Step::Continue
            }
        },
        _ => Step::Continue,
    }
}

/// The start screen's answer to one batch of polled events.
pub fn start_screen_batch(events: &Vec<Event>) -> (r: Step<Option<Page>>)
    ensures
        r == spec_start_screen_batch(events@),
{
    let n: usize = events.len();
    let mut i: usize = 0;
    assert(events@.skip(0) =~= events@);
    while i < n
        invariant
            n == events@.len(),
            i <= n,
            spec_start_screen_batch(events@) == spec_start_screen_batch(events@.skip(i as int)),
        decreases n - i,
    {
        let step = start_screen_step(&events[i]);
        assert(events@.skip(i as int).drop_first() =~= events@.skip(i as int + 1));
        match step {
            Step::Return(p) => {
                return Step::Return(p);
            },
            Step::Continue => {},
        }
        i = i + 1;
    }
    assert(events@.skip(n as int) =~= Seq::<Event>::empty());
    Step::Continue
}

/// The two hit regions of the start screen share only the column `x == 400`,
/// where the OpenGL button wins; outside both regions a click changes nothing.
pub proof fn lemma_start_screen_click(x: i32, y: i32)
    ensures
        (spec_start_screen_step(Event::MouseButtonDown { x, y }) == Step::Return(Some(Page::OpenGl)))
            <==> in_opengl_button(x as int, y as int),
        (spec_start_screen_step(Event::MouseButtonDown { x, y }) == Step::Return(
            Some(Page::Declaration),
        )) <==> (in_declaration_button(x as int, y as int) && !in_opengl_button(x as int, y as int)),
        (spec_start_screen_step(Event::MouseButtonDown { x, y }) == Step::<Option<Page>>::Continue)
            <==> (!in_opengl_button(x as int, y as int) && !in_declaration_button(
            x as int,
            y as int,
        )),
        (in_opengl_button(x as int, y as int) && in_declaration_button(x as int, y as int)) <==> (
        x == 400 && 200 <= y <= 300),
{
}

/// A click on a pixel painted for a button opens that button's page, except
/// on the left edge of the declaration button (`x == 400`), which belongs to
/// the OpenGL button's hit region.
pub proof fn lemma_painted_buttons_select_their_page(x: i32, y: i32)
    ensures
        spec_new_rect(200, 200, 200, 100).contains(x as int, y as int) ==> spec_start_screen_step(
            Event::MouseButtonDown { x, y },
        ) == Step::Return(Some(Page::OpenGl)),
        spec_new_rect(400, 200, 200, 100).contains(x as int, y as int) && x != 400
            ==> spec_start_screen_step(Event::MouseButtonDown { x, y }) == Step::Return(
            Some(Page::Declaration),
        ),
{
}

/// Once a prefix of a batch has left the screen, later events do not matter.
pub proof fn lemma_start_screen_batch_prefix_decides(a: Seq<Event>, b: Seq<Event>)
    requires
        spec_start_screen_batch(a) != Step::<Option<Page>>::Continue,
    ensures
        spec_start_screen_batch(a + b) == spec_start_screen_batch(a),
    decreases a.len(),
{
    assert(a.len() > 0);
    assert((a + b)[0] == a[0]);
    assert((a + b).drop_first() =~= a.drop_first() + b);
    if spec_start_screen_step(a[0]) == Step::<Option<Page>>::Continue {
        lemma_start_screen_batch_prefix_decides(a.drop_first(), b);
    }
}

/// A batch without any decisive event keeps the start screen open.
pub proof fn lemma_start_screen_batch_continue(events: Seq<Event>)
    requires
        forall|i: int|
            0 <= i < events.len() ==> spec_start_screen_step(#[trigger] events[i])
                == Step::<Option<Page>>::Continue,
    ensures
        spec_start_screen_batch(events) == Step::<Option<Page>>::Continue,
    decreases events.len(),
{
    if events.len() > 0 {
        assert(spec_start_screen_step(events[0]) == Step::<Option<Page>>::Continue);
        assert forall|i: int|
            0 <= i < events.drop_first().len() implies spec_start_screen_step(
            #[trigger] events.drop_first()[i],
        ) == Step::<Option<Page>>::Continue by {
            assert(events.drop_first()[i] == events[i + 1]);
        }
        lemma_start_screen_batch_continue(events.drop_first());
    }
}

/// What the start screen draws each frame.
pub open spec fn spec_start_screen_frame() -> Seq<DrawCommand> {
    seq![
        DrawCommand::SetColor { r: 0, g: 0, b: 0 },
        DrawCommand::Clear,
        DrawCommand::SetColor { r: 255, g: 0, b: 0 },
        DrawCommand::FillRect { x: 200, y: 200, w: 200, h: 100 },
        DrawCommand::SetColor { r: 0, g: 255, b: 0 },
        DrawCommand::FillRect { x: 400, y: 200, w: 200, h: 100 },
        DrawCommand::Present,
    ]
}

/// What the start screen draws each frame: a black background, the red
/// OpenGL button and the green declaration button.
pub fn start_screen_frame() -> (r: Vec<DrawCommand>)
    ensures
        r@ == spec_start_screen_frame(),
{
    let r = vec![
        DrawCommand::SetColor { r: 0, g: 0, b: 0 },
        DrawCommand::Clear,
        DrawCommand::SetColor { r: 255, g: 0, b: 0 },
        DrawCommand::FillRect { x: 200, y: 200, w: 200, h: 100 },
        DrawCommand::SetColor { r: 0, g: 255, b: 0 },
        DrawCommand::FillRect { x: 400, y: 200, w: 200, h: 100 },
        DrawCommand::Present,
    ];
    assert(r@ =~= spec_start_screen_frame());
    r
}

// ------------------------------------------------------------ declaration page

/// The declaration page closes on a quit or on the Escape key.
pub open spec fn spec_declaration_closes_on(e: Event) -> bool {
    match e {
        Event::Quit => true,
        Event::KeyDown { keycode: Some(Keycode::Escape) } => true,
        _ => false,
    }
}

/// Whether one event closes the declaration page.
pub fn declaration_closes_on(e: &Event) -> (r: bool)
    ensures
        r == spec_declaration_closes_on(*e),
{
    match e {
        Event::Quit => true,
        Event::KeyDown { keycode: Some(Keycode::Escape) } => true,
        _ => false,
    }
}

/// Whether a batch of polled events closes the declaration page.
pub fn declaration_closes(events: &Vec<Event>) -> (r: bool)
    ensures
        r == exists|i: int| 0 <= i < events@.len() && spec_declaration_closes_on(#[trigger] events@[i]),
{
    let n: usize = events.len();
    let mut i: usize = 0;
    while i < n
        invariant
            n == events@.len(),
            i <= n,
            forall|j: int| 0 <= j < i ==> !spec_declaration_closes_on(#[trigger] events@[j]),
        decreases n - i,
    {
        if declaration_closes_on(&events[i]) {
            return true;
        }
        i = i + 1;
    }
    false
}

/// What the declaration page draws each frame.
pub open spec fn spec_declaration_frame() -> Seq<DrawCommand> {
    seq![
        DrawCommand::SetColor { r: 255, g: 255, b: 255 },
        DrawCommand::Clear,
        DrawCommand::SetColor { r: 0, g: 0, b: 0 },
        DrawCommand::DrawRect { x: 100, y: 100, w: 600, h: 400 },
        DrawCommand::Present,
    ]
}

/// What the declaration page draws each frame: a white background with a
/// black frame.
pub fn declaration_frame() -> (r: Vec<DrawCommand>)
    ensures
        r@ == spec_declaration_frame(),
{
    let r = vec![
        DrawCommand::SetColor { r: 255, g: 255, b: 255 },
        DrawCommand::Clear,
        DrawCommand::SetColor { r: 0, g: 0, b: 0 },
        DrawCommand::DrawRect { x: 100, y: 100, w: 600, h: 400 },
        DrawCommand::Present,
    ];
    assert(r@ =~= spec_declaration_frame());
    r
}

// ------------------------------------------------------------ render loops

/// Whether a batch of polled events holds a quit request.
pub fn quit_requested(events: &Vec<Event>) -> (r: bool)
    ensures
        r == exists|i: int| 0 <= i < events@.len() && #[trigger] events@[i] == Event::Quit,
{
    let n: usize = events.len();
    let mut i: usize = 0;
    while i < n
        invariant
            n == events@.len(),
            i <= n,
            forall|j: int| 0 <= j < i ==> #[trigger] events@[j] != Event::Quit,
        decreases n - i,
    {
        match &events[i] {
            Event::Quit => {
                return true;
            },
            _ => {},
        }
        i = i + 1;
    }
    false
}

// -------------------------------------------------------------- start menu

/// The start menu's button, where a click starts the game.
pub open spec fn spec_start_button() -> RectView {
    spec_new_rect(300, 250, 200, 50)
}

/// The start menu's button.
pub fn start_button() -> (r: Rect)
    ensures
        r@ == spec_start_button(),
{
    Rect::new(300, 250, 200, 50)
}

/// The state of the start menu's event loop.
#[derive(Clone, Copy, Debug, PartialEq, Eq)]
pub struct StartMenu {
    pub running: bool,
    pub start_game: bool,
}

/// One event: a quit stops the loop; a click inside the button stops it
/// and starts the game; nothing else changes the state.
pub open spec fn spec_start_menu_step(m: StartMenu, e: Event) -> StartMenu {
    match e {
        Event::Quit => StartMenu { running: false, start_game: m.start_game },
        Event::MouseButtonDown { x, y } => if spec_start_button().contains(x as int, y as int) {
            StartMenu { running: false, start_game: true }
        } else {
            m
        },
        _ => m,
    }
}

/// All events of a batch, in order.
pub open spec fn spec_start_menu_batch(m: StartMenu, events: Seq<Event>) -> StartMenu
    decreases events.len(),
{
    if events.len() == 0 {
        m
    } else {
        spec_start_menu_batch(spec_start_menu_step(m, events[0]), events.drop_first())
    }
}

/// A click inside the start button.
pub open spec fn is_start_click(e: Event) -> bool {
    match e {
        Event::MouseButtonDown { x, y } => spec_start_button().contains(x as int, y as int),
        _ => false,
    }
}

/// An event that stops the start menu's loop.
pub open spec fn stops_start_menu(e: Event) -> bool {
    e == Event::Quit || is_start_click(e)
}

impl StartMenu {
    /// The loop starts running, with no game started.
    pub fn new() -> (m: StartMenu)
        ensures
            m.running,
            !m.start_game,
    {
        StartMenu { running: true, start_game: false }
    }

    /// Handles one event.
    pub fn handle_event(&mut self, e: &Event)
        ensures
            *final(self) == spec_start_menu_step(*old(self), *e),
    {
        let button = start_button();
        match e {
            Event::Quit => {
                self.running = false;
            },
            Event::MouseButtonDown { x, y } => {
                if button.contains_point((*x, *y)) {
                    self.start_game = true;
                    self.running = false;
                }
            },
            _ => {},
        }
    }

    /// Handles a whole batch of polled events, in order; every event of the
    /// batch is handled, also after one that stopped the loop.
    pub fn handle_events(&mut self, events: &Vec<Event>)
        ensures
            *final(self) == spec_start_menu_batch(*old(self), events@),
    {
        let n: usize = events.len();
        let mut i: usize = 0;
        assert(events@.skip(0) =~= events@);
        while i < n
            invariant
                n == events@.len(),
                i <= n,
                spec_start_menu_batch(*old(self), events@) == spec_start_menu_batch(
                    *self,
                    events@.skip(i as int),
                ),
            decreases n - i,
        {
            assert(events@.skip(i as int).drop_first() =~= events@.skip(i as int + 1));
            self.handle_event(&events[i]);
            i = i + 1;
        }
        assert(events@.skip(n as int) =~= Seq::<Event>::empty());
    }
}

/// After a batch the game is started exactly when it already was or some
/// click of the batch hit the button, and the loop still runs exactly when
/// it ran before and no event of the batch was a quit or such a click.
pub proof fn lemma_start_menu_batch(m: StartMenu, events: Seq<Event>)
    ensures
        spec_start_menu_batch(m, events).start_game == (m.start_game || exists|i: int|
            0 <= i < events.len() && is_start_click(#[trigger] events[i])),
        spec_start_menu_batch(m, events).running == (m.running && !exists|i: int|
            0 <= i < events.len() && stops_start_menu(#[trigger] events[i])),
    decreases events.len(),
{
    if events.len() > 0 {
        let m1 = spec_start_menu_step(m, events[0]);
        let rest = events.drop_first();
        lemma_start_menu_batch(m1, rest);
        if exists|i: int| 0 <= i < events.len() && is_start_click(#[trigger] events[i]) {
            let i = choose|i: int| 0 <= i < events.len() && is_start_click(#[trigger] events[i]);
            if i > 0 {
                assert(rest[i - 1] == events[i]);
            }
        }
        if exists|i: int| 0 <= i < rest.len() && is_start_click(#[trigger] rest[i]) {
            let i = choose|i: int| 0 <= i < rest.len() && is_start_click(#[trigger] rest[i]);
            assert(events[i + 1] == rest[i]);
        }
        if exists|i: int| 0 <= i < events.len() && stops_start_menu(#[trigger] events[i]) {
            let i = choose|i: int| 0 <= i < events.len() && stops_start_menu(#[trigger] events[i]);
            if i > 0 {
                assert(rest[i - 1] == events[i]);
            }
        }
        if exists|i: int| 0 <= i < rest.len() && stops_start_menu(#[trigger] rest[i]) {
            let i = choose|i: int| 0 <= i < rest.len() && stops_start_menu(#[trigger] rest[i]);
            assert(events[i + 1] == rest[i]);
        }
    }
}

/// The loop never restarts and a started game is never withdrawn; a
/// started game always comes with a stopped loop.
pub proof fn lemma_start_menu_monotone(m: StartMenu, events: Seq<Event>)
    requires
        m.start_game ==> !m.running,
    ensures
        spec_start_menu_batch(m, events).running ==> m.running,
        m.start_game ==> spec_start_menu_batch(m, events).start_game,
        spec_start_menu_batch(m, events).start_game ==> !spec_start_menu_batch(m, events).running,
{
    lemma_start_menu_batch(m, events);
    if spec_start_menu_batch(m, events).start_game && !m.start_game {
        let i = choose|i: int| 0 <= i < events.len() && is_start_click(#[trigger] events[i]);
        assert(stops_start_menu(events[i]));
    }
}

/// The button drawn by the start menu is the rectangle that clicks are
/// tested against.
pub proof fn lemma_start_menu_draws_its_button()
    ensures
        spec_start_menu_frame()[3] == (DrawCommand::FillRect {
            x: spec_start_button().x as i32,
            y: spec_start_button().y as i32,
            w: spec_start_button().w as u32,
            h: spec_start_button().h as u32,
        }),
{
}

/// What the start menu draws each frame.
pub open spec fn spec_start_menu_frame() -> Seq<DrawCommand> {
    seq![
        DrawCommand::SetColor { r: 0, g: 0, b: 0 },
        DrawCommand::Clear,
        DrawCommand::SetColor { r: 0, g: 128, b: 255 },
        DrawCommand::FillRect { x: 300, y: 250, w: 200, h: 50 },
        DrawCommand::Present,
    ]
}

/// What the start menu draws each frame: a black background and the blue
/// start button.
pub fn start_menu_frame() -> (r: Vec<DrawCommand>)
    ensures
        r@ == spec_start_menu_frame(),
{
    let r = vec![
        DrawCommand::SetColor { r: 0, g: 0, b: 0 },
        DrawCommand::Clear,
        DrawCommand::SetColor { r: 0, g: 128, b: 255 },
        DrawCommand::FillRect { x: 300, y: 250, w: 200, h: 50 },
        DrawCommand::Present,
    ];
    assert(r@ =~= spec_start_menu_frame());
    r
}

// ------------------------------------------------------- windowed event loop

/// The events of a windowed event loop that the loop reacts to.
#[derive(Clone, Copy, Debug, PartialEq, Eq)]
pub enum LoopEvent {
    CloseRequested,
    RedrawRequested,
    Resized { width: u32, height: u32 },
    AboutToWait,
    Other,
}

/// What the loop does for an event.
#[derive(Clone, Copy, Debug, PartialEq, Eq)]
pub enum LoopAction {
    Exit,
    Draw,
    Resize { width: u32, height: u32 },
    RequestRedraw,
    Nothing,
}

/// A close request ends the loop, a redraw request draws a frame, a resize
/// resizes the display to the new size, and an idle loop asks for a redraw.
pub open spec fn spec_loop_action(e: LoopEvent) -> LoopAction {
    match e {
        LoopEvent::CloseRequested => LoopAction::Exit,
        LoopEvent::RedrawRequested => LoopAction::Draw,
        LoopEvent::Resized { width, height } => LoopAction::Resize { width, height },
        LoopEvent::AboutToWait => LoopAction::RequestRedraw,
        LoopEvent::Other => LoopAction::Nothing,
    }
}

/// What the loop does for an event.
pub fn loop_action(e: LoopEvent) -> (r: LoopAction)
    ensures
        r == spec_loop_action(e),
{
    match e {
        LoopEvent::CloseRequested => LoopAction::Exit,
        LoopEvent::RedrawRequested => LoopAction::Draw,
        LoopEvent::Resized { width, height } => LoopAction::Resize { width, height },
        LoopEvent::AboutToWait => LoopAction::RequestRedraw,
        LoopEvent::Other => LoopAction::Nothing,
    }
}


// ------------------------------------------------------------------- laws

/// Only a quit or a click can leave the start screen: key presses and all
/// other events keep it open, and leaving without a page happens exactly on
/// a quit.
pub proof fn lemma_start_screen_only_quit_or_click_leaves(e: Event)
    ensures
        !(e is Quit) && !(e is MouseButtonDown) ==> spec_start_screen_step(e)
            == Step::<Option<Page>>::Continue,
        (spec_start_screen_step(e) == Step::<Option<Page>>::Return(None)) <==> e == Event::Quit,
        forall|k: Option<Keycode>|
            #[trigger] spec_start_screen_step(Event::KeyDown { keycode: k })
                == Step::<Option<Page>>::Continue,
{
}

/// The declaration page closes exactly on a quit or on the Escape key; no
/// click and no other key closes it.
pub proof fn lemma_declaration_closes_exactly(e: Event)
    ensures
        spec_declaration_closes_on(e) <==> (e == Event::Quit || e == Event::KeyDown {
            keycode: Some(Keycode::Escape),
        }),
        forall|x: i32, y: i32| !#[trigger] spec_declaration_closes_on(Event::MouseButtonDown { x, y }),
        !spec_declaration_closes_on(Event::KeyDown { keycode: Some(Keycode::Other) }),
        !spec_declaration_closes_on(Event::KeyDown { keycode: None }),
{
}

/// Every event has its own action, and a resize passes the new width and
/// height through unchanged.
pub proof fn lemma_loop_actions(width: u32, height: u32)
    ensures
        spec_loop_action(LoopEvent::Resized { width, height }) == (LoopAction::Resize {
            width,
            height,
        }),
        forall|e: LoopEvent|
            #[trigger] spec_loop_action(e) matches LoopAction::Resize { width: w, height: h }
                ==> e == (LoopEvent::Resized { width: w, height: h }),
        spec_loop_action(LoopEvent::CloseRequested) == LoopAction::Exit,
        spec_loop_action(LoopEvent::RedrawRequested) == LoopAction::Draw,
        spec_loop_action(LoopEvent::AboutToWait) == LoopAction::RequestRedraw,
        spec_loop_action(LoopEvent::Other) == LoopAction::Nothing,
{
}
} // verus!
