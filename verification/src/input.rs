//! Input dispatch: what a frame's pointer, button and key events do to the
//! shared state and the elements, and the order of a frame.

use vstd::prelude::*;
use crate::components::UIMouseState;
use crate::components::element::AttributesView;
use crate::context::ButtonState;
use crate::context::MemState;
use crate::layout::LayoutError;
use crate::layout::UILayouts;
use crate::layout::broadcast;
use crate::math::Vec2;
use crate::math::Vec3;
use crate::math::half;
use crate::math::half_i64;
use crate::math::saturate;
use crate::math::saturate_i64;
use crate::painter::Painter;
use crate::painter::PainterView;
use crate::shape::ShapeUpdate;

verus! {

#[derive(Clone, Copy, Debug, PartialEq, Eq, Structural)]
pub enum MouseButton {
    Left,
    Right,
    Middle,
    Back,
    Forward,
    Other(u16),
}

/// The keys the input pass knows; every other key is `Other`.
#[derive(Clone, Copy, Debug, PartialEq, Eq, Structural)]
pub enum KeyCode {
    KeyM,
    Escape,
    Other,
}

/// The pointer has moved to `position`.
#[derive(Clone, Copy, Debug, PartialEq, Eq, Structural)]
pub struct CursorMoved {
    pub position: Vec2,
    pub delta: Option<Vec2>,
}

/// A mouse button has changed its state.
#[derive(Clone, Copy, Debug, PartialEq, Eq, Structural)]
pub struct MouseButtonInput {
    pub button: MouseButton,
    pub state: ButtonState,
}

/// A key has changed its state.
#[derive(Clone, Copy, Debug, PartialEq, Eq, Structural)]
pub struct KeyboardInput {
    pub key_code: KeyCode,
    pub state: ButtonState,
}

/// The events queued for one frame, and the size of the window.
pub struct FrameInput {
    /// Width and height of the window.
    pub window: Vec2,
    pub cursor_moved: Vec<CursorMoved>,
    pub mouse_button_input: Vec<MouseButtonInput>,
    pub keyboard_input: Vec<KeyboardInput>,
    /// The number of raw mouse motion events.
    pub mouse_motion: usize,
}

/// The screen-space origin of the layout in a window of extent `window`:
/// its top-left corner, seen from the centre, y pointing up.
pub open spec fn screen_origin(window: Vec2) -> Vec3 {
    Vec3 {
        x: saturate(-half(window.x as int)) as i32,
        y: half(window.y as int) as i32,
        z: 0,
    }
}

/// The shared state after one pointer move.
pub open spec fn moved(cxt: MemState, event: CursorMoved) -> MemState {
    MemState {
        mouse_position: event.position,
        mouse_delta: match event.delta {
            Some(delta) => delta,
            None => Vec2::spec_zero(),
        },
        ..cxt
    }
}

/// The shared state after the pointer moves of a frame.
pub open spec fn after_moves(cxt: MemState, events: Seq<CursorMoved>) -> MemState
    decreases events.len(),
{
    if events.len() == 0 {
        cxt
    } else {
        moved(after_moves(cxt, events.drop_last()), events.last())
    }
}

/// What a button event broadcasts to the elements, if anything: only the
/// left button speaks.
pub open spec fn spoken(event: MouseButtonInput) -> Option<UIMouseState> {
    match (event.button, event.state) {
        (MouseButton::Left, ButtonState::Pressed) => Some(UIMouseState::Pressed),
        (MouseButton::Left, ButtonState::Released) => Some(UIMouseState::Release),
        _ => None,
    }
}

/// The shared state after one button event. A press of the left button
/// starts a drag where the pointer is; its release records the vector of
/// the drag and parks both ends where the pointer is.
pub open spec fn buttoned(cxt: MemState, event: MouseButtonInput) -> MemState {
    match (event.button, event.state) {
        (MouseButton::Left, ButtonState::Pressed) => MemState {
            drag_delta: (cxt.mouse_position, cxt.mouse_position, cxt.drag_delta.2),
            mouse_state: ButtonState::Pressed,
            ..cxt
        },
        (MouseButton::Left, ButtonState::Released) => MemState {
            drag_delta: (
                cxt.mouse_position,
                cxt.mouse_position,
                cxt.drag_delta.1.spec_sub(cxt.drag_delta.0),
            ),
            mouse_state: ButtonState::Released,
            ..cxt
        },
        _ => cxt,
    }
}

/// The shared state after the button events of a frame.
pub open spec fn after_buttons(cxt: MemState, events: Seq<MouseButtonInput>) -> MemState
    decreases events.len(),
{
    if events.len() == 0 {
        cxt
    } else {
        buttoned(after_buttons(cxt, events.drop_last()), events.last())
    }
}

/// The attributes of the elements after the button events of a frame.
pub open spec fn after_broadcasts(
    attrs: Map<u64, AttributesView>,
    events: Seq<MouseButtonInput>,
) -> Map<u64, AttributesView>
    decreases events.len(),
{
    if events.len() == 0 {
        attrs
    } else {
        let so_far = after_broadcasts(attrs, events.drop_last());
        match spoken(events.last()) {
            Some(state) => broadcast(so_far, state),
            None => so_far,
        }
    }
}

/// The shared state after one key event: escape resets the input mode.
pub open spec fn keyed(cxt: MemState, event: KeyboardInput) -> MemState {
    if event.key_code == KeyCode::Escape && event.state == ButtonState::Pressed {
        MemState { user_input: UIMouseState::Release, ..cxt }
    } else {
        cxt
    }
}

/// The shared state after the key events of a frame.
pub open spec fn after_keys(cxt: MemState, events: Seq<KeyboardInput>) -> MemState
    decreases events.len(),
{
    if events.len() == 0 {
        cxt
    } else {
        keyed(after_keys(cxt, events.drop_last()), events.last())
    }
}

/// The shared state after the raw motion of a frame: while the button is
/// held, the moving end of the drag follows the pointer.
pub open spec fn after_motion(cxt: MemState, count: nat) -> MemState {
    if count > 0 && cxt.mouse_state == ButtonState::Pressed {
        MemState {
            drag_delta: (cxt.drag_delta.0, cxt.mouse_position, cxt.drag_delta.2),
            ..cxt
        }
    } else {
        cxt
    }
}

/// The shared state after all events of a frame, in the order the frame
/// takes them: moves, buttons, keys, motion.
pub open spec fn after_events(cxt: MemState, input: FrameInput) -> MemState {
    after_motion(
        after_keys(
            after_buttons(
                after_moves(
                    MemState { mouse_delta: Vec2::spec_zero(), ..cxt },
                    input.cursor_moved@,
                ),
                input.mouse_button_input@,
            ),
            input.keyboard_input@,
        ),
        input.mouse_motion as nat,
    )
}

/// The screen-space origin of the layout in a window of extent `window`.
pub fn origin_of(window: Vec2) -> (r: Vec3)
    ensures
        r == screen_origin(window),
{
    Vec3 {
        x: saturate_i64(-half_i64(window.x as i64)),
        y: half_i64(window.y as i64) as i32,
        z: 0,
    }
}

/// Takes the pointer moves of a frame.
pub fn cursor_moves(cxt: &mut MemState, events: &Vec<CursorMoved>)
    ensures
        *final(cxt) == after_moves(
            MemState { mouse_delta: Vec2::spec_zero(), ..*old(cxt) },
            events@,
        ),
{
    cxt.mouse_delta = Vec2::zero();
    let mut i: usize = 0;
    while i < events.len()
        invariant
            i <= events@.len(),
            *cxt == after_moves(
                MemState { mouse_delta: Vec2::spec_zero(), ..*old(cxt) },
                events@.take(i as int),
            ),
        decreases events@.len() - i,
    {
        let event = events[i];
        proof {
            let upto = events@.take(i as int + 1);
            assert(upto.drop_last() =~= events@.take(i as int));
        }
        cxt.mouse_position = event.position;
        match event.delta {
            Some(delta) => {
                cxt.mouse_delta = delta;
            },
            None => {
                cxt.mouse_delta = Vec2::zero();
            },
        }
        i += 1;
    }
    assert(events@.take(events@.len() as int) =~= events@);
}

/// Takes the button events of a frame: broadcasts each transition of the
/// left button to the elements and keeps the ends of the drag.
pub fn mouse_buttons(layouts: &mut UILayouts, cxt: &mut MemState, events: &Vec<MouseButtonInput>)
    requires
        old(layouts).wf(),
    ensures
        final(layouts).wf(),
        final(layouts).same_shape(*old(layouts)),
        final(layouts).same_hooks(*old(layouts)),
        final(layouts).all_attributes() == after_broadcasts(
            old(layouts).all_attributes(),
            events@,
        ),
        *final(cxt) == after_buttons(*old(cxt), events@),
{
    let mut i: usize = 0;
    while i < events.len()
        invariant
            i <= events@.len(),
            layouts.wf(),
            layouts.same_shape(*old(layouts)),
            layouts.same_hooks(*old(layouts)),
            layouts.all_attributes() == after_broadcasts(
                old(layouts).all_attributes(),
                events@.take(i as int),
            ),
            *cxt == after_buttons(*old(cxt), events@.take(i as int)),
        decreases events@.len() - i,
    {
        let event = events[i];
        proof {
            let upto = events@.take(i as int + 1);
            assert(upto.drop_last() =~= events@.take(i as int));
        }
        match (event.button, event.state) {
            (MouseButton::Left, ButtonState::Pressed) => {
                layouts.update_input_state(UIMouseState::Pressed);
                cxt.drag_delta.0 = cxt.mouse_position;
                cxt.drag_delta.1 = cxt.mouse_position;
                cxt.mouse_state = ButtonState::Pressed;
            },
            (MouseButton::Left, ButtonState::Released) => {
                layouts.update_input_state(UIMouseState::Release);
                cxt.drag_delta.2 = cxt.drag_delta.1.minus(cxt.drag_delta.0);
                cxt.drag_delta.0 = cxt.mouse_position;
                cxt.drag_delta.1 = cxt.mouse_position;
                cxt.mouse_state = ButtonState::Released;
            },
            _ => {},
        }
        i += 1;
    }
    assert(events@.take(events@.len() as int) =~= events@);
}

/// Takes the key events of a frame.
pub fn keys(cxt: &mut MemState, events: &Vec<KeyboardInput>)
    ensures
        *final(cxt) == after_keys(*old(cxt), events@),
{
    let mut i: usize = 0;
    while i < events.len()
        invariant
            i <= events@.len(),
            *cxt == after_keys(*old(cxt), events@.take(i as int)),
        decreases events@.len() - i,
    {
        let event = events[i];
        proof {
            let upto = events@.take(i as int + 1);
            assert(upto.drop_last() =~= events@.take(i as int));
        }
        if event.key_code == KeyCode::Escape && event.state == ButtonState::Pressed {
            cxt.user_input = UIMouseState::Release;
        }
        i += 1;
    }
    assert(events@.take(events@.len() as int) =~= events@);
}

/// Takes the raw mouse motion of a frame.
pub fn mouse_motion(cxt: &mut MemState, count: usize)
    ensures
        *final(cxt) == after_motion(*old(cxt), count as nat),
{
    if count > 0 && cxt.mouse_state == ButtonState::Pressed {
        cxt.drag_delta.1 = cxt.mouse_position;
    }
}

/// Whether `layouts`, `painter` and `cxt` are what a frame with events
/// `input` makes of `before`, `painter_before` and `cxt_before`: the events
/// are taken, the elements hear the button transitions, the tree is
/// updated in the state the events left, `requests` are made for its
/// shapes, it is drawn, and the actions run.
pub open spec fn framed(
    layouts: UILayouts,
    painter: PainterView,
    cxt: MemState,
    before: UILayouts,
    painter_before: PainterView,
    cxt_before: MemState,
    input: FrameInput,
    requests: Seq<(u64, ShapeUpdate)>,
) -> bool {
    let origin = screen_origin(input.window);
    let heard = after_events(cxt_before, input);
    exists|pressed: UILayouts, updated: UILayouts|
        {
            &&& pressed.same_shape(before)
            &&& pressed.same_hooks(before)
            &&& pressed.all_attributes() == after_broadcasts(
                before.all_attributes(),
                input.mouse_button_input@,
            )
            &&& #[trigger] updated.updated_from(pressed, heard, origin)
            &&& updated.requested(requests, updated.order().len() as int)
            &&& painter == updated.drawn(PainterView { origin: Some(origin), ..painter_before })
            &&& layouts.acted_from(updated, heard, cxt)
        }
}

/// One frame: takes the queued events, updates the tree, draws it on
/// `painter`, and runs the actions. Returns what the renderer must do for
/// the shapes that need it.
///
/// Fails, and changes nothing, exactly when the root has no child.
pub fn logic_loop_system(
    painter: &mut Painter,
    layouts: &mut UILayouts,
    input: &FrameInput,
    cxt: &mut MemState,
) -> (r: Result<Vec<(u64, ShapeUpdate)>, LayoutError>)
    requires
        old(layouts).wf(),
    ensures
        final(layouts).wf(),
        match r {
            Ok(requests) => old(layouts).has_content() && framed(
                *final(layouts),
                final(painter)@,
                *final(cxt),
                *old(layouts),
                old(painter)@,
                *old(cxt),
                *input,
                requests@,
            ),
            Err(e) => !old(layouts).has_content() && e == LayoutError::NoContent && *final(layouts)
                == *old(layouts) && *final(painter) == *old(painter) && *final(cxt) == *old(cxt),
        },
{
    proof {
        layouts.lemma_wf();
    }
    match layouts.children(layouts.root()) {
        Some(kids) => {
            if kids.len() == 0 {
                return Err(LayoutError::NoContent);
            }
        },
        None => {
            return Err(LayoutError::NoContent);
        },
    }
    let origin = origin_of(input.window);
    painter.origin = Some(origin);
    cursor_moves(cxt, &input.cursor_moved);
    mouse_buttons(layouts, cxt, &input.mouse_button_input);
    keys(cxt, &input.keyboard_input);
    mouse_motion(cxt, input.mouse_motion);
    match layouts.update(cxt, origin) {
        Ok(_) => {},
        Err(e) => {
            return Err(e);
        },
    }
    let requests = layouts.update_shape();
    layouts.draw(painter);
    layouts.exc_action(cxt);
    Ok(requests)
}

} // verus!
