//! What every widget can do.

use vstd::prelude::*;
use crate::components::element::Element;
use crate::components::stacks::Stack;
use crate::components::stacks::Widget;
use crate::components::stacks::planted;
use crate::layout::LayoutError;
use crate::layout::UILayouts;

verus! {

/// A widget: an element, or something built around one.
pub trait UIElement: Sized {
    /// The widget as a child of a stack.
    spec fn widget(self) -> Widget;

    /// The widget as a child of a stack.
    fn into_widget(self) -> (r: Widget)
        ensures
            r == self.widget(),
    ;

    /// The element of the widget itself.
    fn get_element(&self) -> (r: &Element)
        ensures
            *r == self.widget().head(),
    ;

    /// Plants the widget in the engine, as the last child of the root.
    /// Returns the node it stands at. The engine has one node more for
    /// every widget in it, and keeps every node it had.
    fn add_to_layout(self, layout: &mut UILayouts) -> (r: Result<u64, LayoutError>)
        requires
            old(layout).wf(),
        ensures
            r is Ok,
            final(layout).wf(),
            !old(layout).spec_contains(r->Ok_0),
            planted(*final(layout), self.widget(), r->Ok_0),
            final(layout).order().len() == old(layout).order().len() + self.widget().count(),
            final(layout).keeps(*old(layout)),
            final(layout).relations() == old(layout).relations(),
    ;
}

/// Something widgets can be pushed onto.
pub trait UILayout {
    fn push(&mut self, element: Widget);
}

impl UIElement for Element {
    open spec fn widget(self) -> Widget {
        Widget::Leaf(self)
    }

    fn into_widget(self) -> (r: Widget) {
        Widget::Leaf(self)
    }

    fn get_element(&self) -> (r: &Element) {
        self
    }

    fn add_to_layout(self, layout: &mut UILayouts) -> (r: Result<u64, LayoutError>) {
        let r = layout.push_element(self);
        proof {
            if r is Ok {
                crate::components::stacks::lemma_leaf_planted(*old(layout), *layout, r->Ok_0, self);
            }
        }
        r
    }
}

impl UIElement for Stack {
    open spec fn widget(self) -> Widget {
        Widget::Stack(self)
    }

    fn into_widget(self) -> (r: Widget) {
        Widget::Stack(self)
    }

    fn get_element(&self) -> (r: &Element) {
        &self.element
    }

    fn add_to_layout(self, layout: &mut UILayouts) -> (r: Result<u64, LayoutError>) {
        self.push_to_layout(layout)
    }
}

impl UIElement for Widget {
    open spec fn widget(self) -> Widget {
        self
    }

    fn into_widget(self) -> (r: Widget) {
        self
    }

    fn get_element(&self) -> (r: &Element) {
        match self {
            Widget::Leaf(e) => e,
            Widget::Stack(s) => &s.element,
        }
    }

    fn add_to_layout(self, layout: &mut UILayouts) -> (r: Result<u64, LayoutError>) {
        match self {
            Widget::Leaf(e) => e.add_to_layout(layout),
            Widget::Stack(s) => s.add_to_layout(layout),
        }
    }
}

} // verus!
