//! A retained-mode UI component library: declarative widget builders, a
//! flexbox layout pass through the `taffy` solver, hit-testing, and an input
//! pipeline that routes pointer and key events to a tree of elements.
//!
//! All geometry is held in whole layout units (`i32`); sums that leave the
//! range of `i32` saturate at its ends. Drawing is recorded as a list of
//! primitives on a [`painter::Painter`], which the embedding application
//! replays on its renderer.

pub mod math;

pub mod color;
pub mod utils;
pub mod painter;
pub mod shape;
pub mod style;
pub mod components;
pub mod traits;
pub mod storage;
pub mod context;
pub mod solver;
pub mod forest;
pub mod resolve;
pub mod layout;
pub mod input;
pub mod text;
