//! The state that one frame's input, update and callbacks share.

use vstd::prelude::*;
use std::collections::HashMap;
use crate::components::UIMouseState;
use crate::math::Vec2;
use crate::storage::Node;

verus! {

/// Whether a button is down.
#[derive(Clone, Copy, Debug, PartialEq, Eq, Structural)]
pub enum ButtonState {
    Pressed,
    Released,
}

/// The shared state. The input pass keeps the pointer fields; `node`, the
/// selection and `user_input` belong to the application and its callbacks.
pub struct MemState {
    pub node: HashMap<i64, Node>,
    pub mouse_state: ButtonState,
    pub user_input: UIMouseState,
    pub selection_group: Vec<i64>,
    pub selection_current: i64,
    /// Where the pointer was when the button went down, where it is now,
    /// and the vector of the last finished drag.
    pub drag_delta: (Vec2, Vec2, Vec2),
    pub mouse_position: Vec2,
    pub mouse_delta: Vec2,
}

/// Starts the process-wide source of element ids as worker `worker_id`,
/// with `worker_id_bit_len` bits of every id for the worker.
///
/// Calls `idgenerator::IdInstance::init`, which checks the options, among
/// them the base time against the clock, and sets the shared generator up.
/// Returns whether it did. The generator adds the bit length to the eight
/// bits of its sequence in a byte and shifts by it, so the length is kept
/// within what it can take.
#[verifier::external_body]
fn init_ids(worker_id: u32, worker_id_bit_len: u8) -> (started: bool)
    requires
        1 <= worker_id_bit_len <= 14,
{
    let options = idgenerator::IdGeneratorOptions::new().worker_id(worker_id).worker_id_bit_len(
        worker_id_bit_len,
    );
    idgenerator::IdInstance::init(options).is_ok()
}

impl MemState {
    /// Whether this is the state before any input: no records, no button
    /// down, nothing selected, the pointer outside the viewport.
    pub open spec fn is_initial(&self) -> bool {
        &&& self.node@ == Map::<i64, Node>::empty()
        &&& self.mouse_state == ButtonState::Released
        &&& self.user_input == UIMouseState::Release
        &&& self.selection_group@ == Seq::<i64>::empty()
        &&& self.selection_current == -1
        &&& self.drag_delta == (Vec2::spec_zero(), Vec2::spec_zero(), Vec2::spec_zero())
        &&& self.mouse_position == (Vec2 { x: -100i32, y: -100i32 })
        &&& self.mouse_delta == Vec2::spec_zero()
    }

    /// Starts the source of element ids, as worker one of at most
    /// sixty-four, and makes the state before any input. Returns nothing if
    /// the source could not be started.
    pub fn start() -> (r: Option<MemState>)
        ensures
            r is Some ==> r->0.is_initial(),
    {
        MemState::started(init_ids(1, 6))
    }

    /// The state before any input: no button down, nothing selected, the
    /// pointer outside the viewport.
    pub fn new() -> (r: MemState)
        ensures
            r.is_initial(),
    {
        MemState {
            node: HashMap::new(),
            mouse_state: ButtonState::Released,
            user_input: UIMouseState::Release,
            selection_group: Vec::new(),
            selection_current: -1,
            drag_delta: (Vec2::zero(), Vec2::zero(), Vec2::zero()),
            mouse_position: Vec2::new(-100, -100),
            mouse_delta: Vec2::zero(),
        }
    }

    /// The state to begin with, given whether the source of element ids
    /// has started: the state before any input if it has, nothing if not.
    pub fn started(ids: bool) -> (r: Option<MemState>)
        ensures
            ids ==> r is Some && r->0.is_initial(),
            !ids ==> r is None,
    {
        if ids {
            Some(MemState::new())
        } else {
            None
        }
    }
}

} // verus!
