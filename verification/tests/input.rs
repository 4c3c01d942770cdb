use binaries_ui::components::element::{Attributes, Callback};
use binaries_ui::components::stacks::hstack;
use binaries_ui::components::{rectangle, UIMouseState};
use binaries_ui::context::{ButtonState, MemState};
use binaries_ui::input::{
    cursor_moves, keys, logic_loop_system, mouse_buttons, mouse_motion, origin_of, CursorMoved,
    FrameInput, KeyCode, KeyboardInput, MouseButton, MouseButtonInput,
};
use binaries_ui::layout::{LayoutError, UILayouts};
use binaries_ui::math::{Vec2, Vec3};
use binaries_ui::painter::Painter;
use std::sync::Arc;

struct Times(i64);

impl Callback for Times {
    fn call(&self, _element: &mut Attributes, state: &mut MemState) {
        state.selection_current *= self.0;
    }
}

struct Plus(i64);

impl Callback for Plus {
    fn call(&self, _element: &mut Attributes, state: &mut MemState) {
        state.selection_current += self.0;
    }
}

struct Count;

impl Callback for Count {
    fn call(&self, _element: &mut Attributes, state: &mut MemState) {
        state.selection_current += 1;
    }
}

fn frame() -> FrameInput {
    FrameInput {
        window: Vec2::new(800, 600),
        cursor_moved: vec![],
        mouse_button_input: vec![],
        keyboard_input: vec![],
        mouse_motion: 0,
    }
}

fn moved(x: i32, y: i32) -> CursorMoved {
    CursorMoved { position: Vec2::new(x, y), delta: None }
}

fn left(state: ButtonState) -> MouseButtonInput {
    MouseButtonInput { button: MouseButton::Left, state }
}

#[test]
fn the_state_before_any_input() {
    let cxt = MemState::new();
    assert!(cxt.node.is_empty());
    assert_eq!(cxt.mouse_state, ButtonState::Released);
    assert_eq!(cxt.user_input, UIMouseState::Release);
    assert!(cxt.selection_group.is_empty());
    assert_eq!(cxt.selection_current, -1);
    assert_eq!(cxt.drag_delta, (Vec2::zero(), Vec2::zero(), Vec2::zero()));
    assert_eq!(cxt.mouse_position, Vec2::new(-100, -100));
    assert_eq!(cxt.mouse_delta, Vec2::zero());
}

#[test]
fn the_id_source_starts() {
    assert!(MemState::started(false).is_none());
    assert_eq!(MemState::started(true).unwrap().mouse_position, Vec2::new(-100, -100));
    let cxt = MemState::start().expect("the id source starts");
    assert_eq!(cxt.mouse_position, Vec2::new(-100, -100));
    assert_eq!(cxt.selection_current, -1);
}

#[test]
fn the_origin_is_the_top_left_corner() {
    assert_eq!(origin_of(Vec2::new(800, 600)), Vec3::new(-400, 300, 0));
    assert_eq!(origin_of(Vec2::new(801, 601)), Vec3::new(-400, 300, 0));
    assert_eq!(origin_of(Vec2::new(0, 0)), Vec3::zero());
}

#[test]
fn the_last_move_of_a_frame_counts() {
    let mut cxt = MemState::new();
    cxt.mouse_delta = Vec2::new(9, 9);
    cursor_moves(&mut cxt, &vec![]);
    assert_eq!(cxt.mouse_delta, Vec2::zero());
    assert_eq!(cxt.mouse_position, Vec2::new(-100, -100));
    cursor_moves(
        &mut cxt,
        &vec![
            CursorMoved { position: Vec2::new(1, 2), delta: Some(Vec2::new(1, 1)) },
            CursorMoved { position: Vec2::new(5, 6), delta: Some(Vec2::new(4, 4)) },
        ],
    );
    assert_eq!(cxt.mouse_position, Vec2::new(5, 6));
    assert_eq!(cxt.mouse_delta, Vec2::new(4, 4));
    cursor_moves(&mut cxt, &vec![moved(7, 8)]);
    assert_eq!(cxt.mouse_position, Vec2::new(7, 8));
    assert_eq!(cxt.mouse_delta, Vec2::zero());
}

#[test]
fn the_left_button_starts_and_ends_a_drag() {
    let mut layouts = UILayouts::new().unwrap();
    let mut cxt = MemState::new();
    cxt.mouse_position = Vec2::new(10, 20);
    mouse_buttons(&mut layouts, &mut cxt, &vec![left(ButtonState::Pressed)]);
    assert_eq!(cxt.mouse_state, ButtonState::Pressed);
    assert_eq!(cxt.drag_delta, (Vec2::new(10, 20), Vec2::new(10, 20), Vec2::zero()));
    cxt.mouse_position = Vec2::new(40, 25);
    mouse_motion(&mut cxt, 0);
    assert_eq!(cxt.drag_delta.1, Vec2::new(10, 20));
    mouse_motion(&mut cxt, 2);
    assert_eq!(cxt.drag_delta, (Vec2::new(10, 20), Vec2::new(40, 25), Vec2::zero()));
    mouse_buttons(&mut layouts, &mut cxt, &vec![left(ButtonState::Released)]);
    assert_eq!(cxt.mouse_state, ButtonState::Released);
    assert_eq!(cxt.drag_delta, (Vec2::new(40, 25), Vec2::new(40, 25), Vec2::new(30, 5)));
    cxt.mouse_position = Vec2::new(0, 0);
    mouse_motion(&mut cxt, 1);
    assert_eq!(cxt.drag_delta.1, Vec2::new(40, 25));
}

#[test]
fn other_buttons_say_nothing() {
    let mut layouts = UILayouts::new().unwrap();
    let node = layouts.push_element(rectangle().size(Vec2::new(50, 50))).unwrap();
    let mut cxt = MemState::new();
    cxt.mouse_position = Vec2::new(10, 10);
    layouts.update(&cxt, Vec3::new(-400, 300, 0)).unwrap();
    let events = vec![
        MouseButtonInput { button: MouseButton::Right, state: ButtonState::Pressed },
        MouseButtonInput { button: MouseButton::Middle, state: ButtonState::Pressed },
        MouseButtonInput { button: MouseButton::Other(7), state: ButtonState::Released },
    ];
    mouse_buttons(&mut layouts, &mut cxt, &events);
    assert_eq!(layouts.get(node).unwrap().attributes.action_state, UIMouseState::Release);
    assert_eq!(cxt.mouse_state, ButtonState::Released);
    assert_eq!(cxt.drag_delta.0, Vec2::zero());
    mouse_buttons(&mut layouts, &mut cxt, &vec![left(ButtonState::Pressed)]);
    assert_eq!(layouts.get(node).unwrap().attributes.action_state, UIMouseState::Pressed);
    mouse_buttons(&mut layouts, &mut cxt, &vec![left(ButtonState::Released), left(ButtonState::Pressed)]);
    assert_eq!(layouts.get(node).unwrap().attributes.action_state, UIMouseState::Pressed);
    assert_eq!(cxt.mouse_state, ButtonState::Pressed);
}

#[test]
fn escape_resets_the_input_mode() {
    let mut cxt = MemState::new();
    cxt.user_input = UIMouseState::Selected;
    keys(
        &mut cxt,
        &vec![
            KeyboardInput { key_code: KeyCode::KeyM, state: ButtonState::Pressed },
            KeyboardInput { key_code: KeyCode::Escape, state: ButtonState::Released },
            KeyboardInput { key_code: KeyCode::Other, state: ButtonState::Pressed },
        ],
    );
    assert_eq!(cxt.user_input, UIMouseState::Selected);
    keys(&mut cxt, &vec![KeyboardInput { key_code: KeyCode::Escape, state: ButtonState::Pressed }]);
    assert_eq!(cxt.user_input, UIMouseState::Release);
}

#[test]
fn a_drag_over_three_frames_moves_the_element() {
    let mut layouts = UILayouts::new().unwrap();
    let mut painter = Painter::new();
    let mut cxt = MemState::new();
    let row = hstack((rectangle().size(Vec2::new(50, 50)).drag_enable(true), rectangle().size(Vec2::new(50, 50))))
        .push_to_layout(&mut layouts)
        .unwrap();
    let kids = layouts.children(row).unwrap();
    let mut hover = frame();
    hover.cursor_moved = vec![moved(10, 10)];
    logic_loop_system(&mut painter, &mut layouts, &hover, &mut cxt).unwrap();
    assert_eq!(painter.origin, Some(Vec3::new(-400, 300, 0)));
    let at_rest = layouts.get(kids[0]).unwrap().attributes.layout_anchor;
    assert_eq!(at_rest, Vec3::new(-375, 275, 0));
    let mut press = frame();
    press.mouse_button_input = vec![left(ButtonState::Pressed)];
    logic_loop_system(&mut painter, &mut layouts, &press, &mut cxt).unwrap();
    assert_eq!(layouts.get(kids[0]).unwrap().attributes.action_state, UIMouseState::Pressed);
    assert_eq!(layouts.get(kids[1]).unwrap().attributes.action_state, UIMouseState::Release);
    let mut drag = frame();
    drag.cursor_moved = vec![moved(40, 25)];
    drag.mouse_motion = 1;
    logic_loop_system(&mut painter, &mut layouts, &drag, &mut cxt).unwrap();
    let held = &layouts.get(kids[0]).unwrap().attributes;
    assert_eq!(held.rubber_offset, Vec3::new(30, -15, 0));
    assert_eq!(held.anchor_offset, Vec3::zero());
    assert_eq!(held.layout_anchor, Vec3::new(-375 + 30, 275 - 15, 0));
    assert_eq!(held.render_state, UIMouseState::Hover);
    let mut release = frame();
    release.mouse_button_input = vec![left(ButtonState::Released)];
    logic_loop_system(&mut painter, &mut layouts, &release, &mut cxt).unwrap();
    let done = &layouts.get(kids[0]).unwrap().attributes;
    assert_eq!(done.anchor_offset, Vec3::new(30, -15, 0));
    assert_eq!(done.rubber_offset, Vec3::zero());
    assert_eq!(done.layout_anchor, Vec3::new(-375 + 30, 275 - 15, 0));
    assert_eq!(cxt.drag_delta.2, Vec2::new(30, 15));
    assert_eq!(layouts.get(kids[1]).unwrap().attributes.anchor_offset, Vec3::zero());
    logic_loop_system(&mut painter, &mut layouts, &frame(), &mut cxt).unwrap();
    assert_eq!(layouts.get(kids[0]).unwrap().attributes.anchor_offset, Vec3::new(30, -15, 0));
}

#[test]
fn a_frame_updates_draws_and_acts() {
    let mut layouts = UILayouts::new().unwrap();
    let mut painter = Painter::new();
    let mut cxt = MemState::new();
    let node = layouts.push_element(rectangle().size(Vec2::new(50, 50)).hover(Arc::new(Count))).unwrap();
    let mut input = frame();
    input.cursor_moved = vec![moved(10, 10)];
    let requests = logic_loop_system(&mut painter, &mut layouts, &input, &mut cxt).unwrap();
    assert_eq!(requests.len(), 1);
    assert_eq!(requests[0].0, node);
    assert_eq!(painter.commands.len(), 1);
    assert_eq!(cxt.selection_current, -1);
    layouts.update_input_state(UIMouseState::Hover);
    logic_loop_system(&mut painter, &mut layouts, &frame(), &mut cxt).unwrap();
    assert_eq!(cxt.selection_current, 0);
    assert_eq!(painter.commands.len(), 2);
}

#[test]
fn a_frame_on_a_root_without_a_child_changes_nothing() {
    let mut layouts = UILayouts::new().unwrap();
    let mut painter = Painter::new();
    let mut cxt = MemState::new();
    let mut input = frame();
    input.cursor_moved = vec![moved(10, 10)];
    input.mouse_button_input = vec![left(ButtonState::Pressed)];
    let r = logic_loop_system(&mut painter, &mut layouts, &input, &mut cxt);
    assert_eq!(r.err(), Some(LayoutError::NoContent));
    assert_eq!(cxt.mouse_position, MemState::new().mouse_position);
    assert_eq!(cxt.mouse_state, MemState::new().mouse_state);
    assert_eq!(painter.origin, Painter::new().origin);
    assert!(painter.commands.is_empty());
    assert_eq!(layouts.nodes(), vec![layouts.root()]);
}

#[test]
fn actions_run_in_insertion_order_on_one_shared_state() {
    let mut layouts = UILayouts::new().unwrap();
    hstack(rectangle().size(Vec2::new(20, 20)).hover(Arc::new(Times(3))))
        .hover(Arc::new(Plus(4)))
        .push_to_layout(&mut layouts)
        .unwrap();
    let mut cxt = MemState::new();
    cxt.mouse_position = Vec2::new(5, 5);
    cxt.selection_current = 5;
    layouts.exc_action(&mut cxt);
    assert_eq!(cxt.selection_current, 5);
    layouts.update(&cxt, Vec3::new(-400, 300, 0)).unwrap();
    layouts.update_input_state(UIMouseState::Hover);
    layouts.exc_action(&mut cxt);
    assert_eq!(cxt.selection_current, (5 + 4) * 3);
}
