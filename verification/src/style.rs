//! The flexbox style record that an element hands to the layout solver.

use vstd::prelude::*;
use crate::components::element::FlexDirection;

verus! {

/// A length along one axis: a number of layout units, or whatever the
/// content needs.
#[derive(Clone, Copy, Debug, PartialEq, Eq, Structural)]
pub enum Dimension {
    Auto,
    Length(i32),
}

#[derive(Clone, Copy, Debug, PartialEq, Eq, Structural)]
pub struct Size {
    pub width: Dimension,
    pub height: Dimension,
}

/// Lengths on the four edges of a box.
#[derive(Clone, Copy, Debug, PartialEq, Eq, Structural)]
pub struct Rect {
    pub left: i32,
    pub right: i32,
    pub top: i32,
    pub bottom: i32,
}

/// Where an absolutely positioned box is pinned; `Auto` leaves an edge free.
#[derive(Clone, Copy, Debug, PartialEq, Eq, Structural)]
pub struct Inset {
    pub left: Dimension,
    pub right: Dimension,
    pub top: Dimension,
    pub bottom: Dimension,
}

#[derive(Clone, Copy, Debug, PartialEq, Eq, Structural)]
pub enum Position {
    /// Laid out in the flow of its parent.
    Relative,
    /// Taken out of the flow and pinned by its inset.
    Absolute,
}

/// How one item is placed across an axis.
#[derive(Clone, Copy, Debug, PartialEq, Eq, Structural)]
pub enum Align {
    Start,
    End,
    FlexStart,
    FlexEnd,
    Center,
    Baseline,
    Stretch,
}

/// How the items of a container are distributed along an axis.
#[derive(Clone, Copy, Debug, PartialEq, Eq, Structural)]
pub enum Distribute {
    Start,
    End,
    FlexStart,
    FlexEnd,
    Center,
    Stretch,
}

/// The style of one node.
#[derive(Clone, Copy, Debug, PartialEq, Eq, Structural)]
pub struct FlexStyle {
    pub size: Size,
    pub margin: Rect,
    pub padding: Rect,
    pub flex_direction: FlexDirection,
    pub align_items: Option<Align>,
    pub justify_content: Option<Distribute>,
    pub align_content: Option<Distribute>,
    pub align_self: Option<Align>,
    pub justify_self: Option<Align>,
    pub position: Position,
    pub inset: Inset,
}

impl Size {
    pub open spec fn spec_auto() -> Size {
        Size { width: Dimension::Auto, height: Dimension::Auto }
    }
}

impl Rect {
    pub open spec fn spec_zero() -> Rect {
        Rect { left: 0, right: 0, top: 0, bottom: 0 }
    }
}

impl Inset {
    pub open spec fn spec_auto() -> Inset {
        Inset {
            left: Dimension::Auto,
            right: Dimension::Auto,
            top: Dimension::Auto,
            bottom: Dimension::Auto,
        }
    }

    /// Pinned to the top right corner.
    pub open spec fn spec_top_right() -> Inset {
        Inset {
            left: Dimension::Auto,
            right: Dimension::Length(0),
            top: Dimension::Length(0),
            bottom: Dimension::Auto,
        }
    }
}

impl FlexStyle {
    /// The style of a node nothing is said about: content-sized, in the flow,
    /// laid out as a row, no alignment.
    pub open spec fn spec_default() -> FlexStyle {
        FlexStyle {
            size: Size::spec_auto(),
            margin: Rect::spec_zero(),
            padding: Rect::spec_zero(),
            flex_direction: FlexDirection::Row,
            align_items: None,
            justify_content: None,
            align_content: None,
            align_self: None,
            justify_self: None,
            position: Position::Relative,
            inset: Inset::spec_auto(),
        }
    }
}

impl Default for FlexStyle {
    fn default() -> (r: FlexStyle)
        ensures
            r == FlexStyle::spec_default(),
    {
        FlexStyle {
            size: Size { width: Dimension::Auto, height: Dimension::Auto },
            margin: Rect { left: 0, right: 0, top: 0, bottom: 0 },
            padding: Rect { left: 0, right: 0, top: 0, bottom: 0 },
            flex_direction: FlexDirection::Row,
            align_items: None,
            justify_content: None,
            align_content: None,
            align_self: None,
            justify_self: None,
            position: Position::Relative,
            inset: Inset {
                left: Dimension::Auto,
                right: Dimension::Auto,
                top: Dimension::Auto,
                bottom: Dimension::Auto,
            },
        }
    }
}

} // verus!
