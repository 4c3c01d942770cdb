//! The widgets: elements, stacks, and the builders that make them.

use vstd::prelude::*;
use crate::color::Srgba;
use crate::components::element::AttributesView;
use crate::components::element::Element;
use crate::shape::Circle;
use crate::shape::Ngon;
use crate::shape::Rectangle;
use crate::shape::ShapeView;
use crate::shape::Text;
use crate::shape::TextView;
use crate::math::Vec4;

pub mod element;
pub mod stacks;
pub mod element_set;
pub mod button;

verus! {

/// What the pointer is doing to an element.
#[derive(Clone, Copy, Debug, PartialEq, Eq, Structural)]
pub enum UIMouseState {
    Hover,
    Click,
    Release,
    DoubleClick,
    Drag,
    Selected,
    Pressed,
    NoneBlock,
}

/// Who resolves the hover and click highlight of a subtree.
#[derive(Clone, Copy, Debug, PartialEq, Eq, Structural)]
pub enum UIRenderMode {
    /// This node and its descendants each resolve their own.
    Individual,
    /// This node resolves it and every descendant shows the same.
    Group,
    /// This node never shows a highlight; its descendants resolve their own.
    WithoutSelf,
}

/// An invisible element.
pub fn element() -> (r: Element)
    ensures
        r.attributes@ == AttributesView::fresh(r.attributes.id),
        r.unbound(),
{
    Element::new().color(Srgba::zero())
}

/// The root of the structure overlay.
pub fn debug_tree() -> (r: Element)
    ensures
        r.attributes@ == (AttributesView { tile: "debuge"@, ..AttributesView::fresh(r.attributes.id) }),
        r.unbound(),
{
    Element::new().title("debuge")
}

/// A line of text.
pub fn text(content: &str) -> (r: Element)
    ensures
        r.attributes@ == (AttributesView {
            tile: "text content"@,
            shape: Some(ShapeView::Text(TextView::fresh(content@))),
            ..AttributesView::fresh(r.attributes.id)
        }),
        r.unbound(),
{
    Element::new().color(Srgba::zero()).shape(Text::new(content.to_string())).title(
        "text content",
    )
}

/// A white rectangle.
pub fn rectangle() -> (r: Element)
    ensures
        r.attributes@ == (AttributesView {
            tile: "rectangle"@,
            color: Srgba::spec_white(),
            shape: Some(ShapeView::Rectangle(Rectangle::spec_default())),
            ..AttributesView::fresh(r.attributes.id)
        }),
        r.unbound(),
{
    Element::new().color(Srgba::white()).shape(Rectangle::default()).title(
        "rectangle",
    )
}

/// A white disc.
pub fn circle(radius: i32) -> (r: Element)
    ensures
        r.attributes@ == (AttributesView {
            tile: "circle"@,
            color: Srgba::spec_white(),
            shape: Some(ShapeView::Circle(Circle { round: Vec4::spec_zero(), radius })),
            ..AttributesView::fresh(r.attributes.id)
        }),
        r.unbound(),
{
    Element::new().color(Srgba::white()).shape(Circle::new(radius)).title("circle")
}

/// A white regular polygon of radius one.
pub fn ngon(sides: i32) -> (r: Element)
    ensures
        r.attributes@ == (AttributesView {
            tile: "ngon"@,
            color: Srgba::spec_white(),
            shape: Some(ShapeView::Ngon(Ngon { sides, ..Ngon::spec_default() })),
            ..AttributesView::fresh(r.attributes.id)
        }),
        r.unbound(),
{
    Element::new().color(Srgba::white()).shape(Ngon::default().sides(sides)).title(
        "ngon",
    )
}

} // verus!
