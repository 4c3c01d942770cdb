//! The record of a persisted, named, positioned node.

use vstd::prelude::*;

verus! {

#[derive(Clone, Debug)]
pub struct Node {
    pub id: u64,
    pub name: String,
    pub offset_x: i32,
    pub offset_y: i32,
}

} // verus!
