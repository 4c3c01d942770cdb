//! Groups of children: one widget, a list of widgets of one kind, or a tuple
//! of widgets of different kinds, all seen as one sequence of widgets.
//!
//! A tuple holds up to twelve widgets. A longer group of different kinds is
//! a `Vec<Widget>`.

use vstd::prelude::*;
use crate::components::element::Element;
use crate::components::stacks::Stack;
use crate::components::stacks::Widget;
use crate::traits::UIElement;

verus! {

/// A group of children: an element, a stack, `()`, a `Vec` of widgets of
/// one kind, or a tuple of one to twelve widgets.
pub trait ElementSet: Sized {
    /// The children in declaration order.
    spec fn widgets(self) -> Seq<Widget>;

    /// The children in declaration order.
    fn views(self) -> (r: Vec<Widget>)
        ensures
            r@ == self.widgets(),
    ;

    fn is_empty(&self) -> (r: bool)
        ensures
            !r,
    {
        false
    }
}

impl ElementSet for Element {
    open spec fn widgets(self) -> Seq<Widget> {
        seq![Widget::Leaf(self)]
    }

    fn views(self) -> (r: Vec<Widget>) {
        let mut out: Vec<Widget> = Vec::new();
        out.push(Widget::Leaf(self));
        out
    }
}

impl ElementSet for Stack {
    open spec fn widgets(self) -> Seq<Widget> {
        seq![Widget::Stack(self)]
    }

    fn views(self) -> (r: Vec<Widget>) {
        let mut out: Vec<Widget> = Vec::new();
        out.push(Widget::Stack(self));
        out
    }
}

impl ElementSet for () {
    open spec fn widgets(self) -> Seq<Widget> {
        Seq::empty()
    }

    fn views(self) -> (r: Vec<Widget>) {
        Vec::new()
    }
}

impl<T: UIElement> ElementSet for Vec<T> {
    open spec fn widgets(self) -> Seq<Widget> {
        self@.map_values(|t: T| t.widget())
    }

    fn views(self) -> (r: Vec<Widget>) {
        let mut out: Vec<Widget> = Vec::new();
        let ghost all = self@;
        for t in it: self
            invariant
                it.seq() == all,
                out@ == all.take(it.index() as int).map_values(|t: T| t.widget()),
        {
            let w = t.into_widget();
            out.push(w);
        }
        out
    }
}

impl<A: UIElement> ElementSet for (A,) {
    open spec fn widgets(self) -> Seq<Widget> {
        seq![self.0.widget()]
    }

    fn views(self) -> (r: Vec<Widget>) {
        let mut out: Vec<Widget> = Vec::new();
        out.push(self.0.into_widget());
        out
    }
}

impl<A: UIElement, B: UIElement> ElementSet for (A, B) {
    open spec fn widgets(self) -> Seq<Widget> {
        seq![self.0.widget(), self.1.widget()]
    }

    fn views(self) -> (r: Vec<Widget>) {
        let mut out: Vec<Widget> = Vec::new();
        out.push(self.0.into_widget());
        out.push(self.1.into_widget());
        out
    }
}

impl<A: UIElement, B: UIElement, C: UIElement> ElementSet for (A, B, C) {
    open spec fn widgets(self) -> Seq<Widget> {
        seq![self.0.widget(), self.1.widget(), self.2.widget()]
    }

    fn views(self) -> (r: Vec<Widget>) {
        let mut out: Vec<Widget> = Vec::new();
        out.push(self.0.into_widget());
        out.push(self.1.into_widget());
        out.push(self.2.into_widget());
        out
    }
}

impl<A: UIElement, B: UIElement, C: UIElement, D: UIElement> ElementSet for (A, B, C, D) {
    open spec fn widgets(self) -> Seq<Widget> {
        seq![self.0.widget(), self.1.widget(), self.2.widget(), self.3.widget()]
    }

    fn views(self) -> (r: Vec<Widget>) {
        let mut out: Vec<Widget> = Vec::new();
        out.push(self.0.into_widget());
        out.push(self.1.into_widget());
        out.push(self.2.into_widget());
        out.push(self.3.into_widget());
        out
    }
}

impl<A: UIElement, B: UIElement, C: UIElement, D: UIElement, E: UIElement> ElementSet for (A, B, C, D, E) {
    open spec fn widgets(self) -> Seq<Widget> {
        seq![
            self.0.widget(),
            self.1.widget(),
            self.2.widget(),
            self.3.widget(),
            self.4.widget(),
        ]
    }

    fn views(self) -> (r: Vec<Widget>) {
        let mut out: Vec<Widget> = Vec::new();
        out.push(self.0.into_widget());
        out.push(self.1.into_widget());
        out.push(self.2.into_widget());
        out.push(self.3.into_widget());
        out.push(self.4.into_widget());
        out
    }
}

impl<A: UIElement, B: UIElement, C: UIElement, D: UIElement, E: UIElement, F: UIElement> ElementSet for (A, B, C, D, E, F) {
    open spec fn widgets(self) -> Seq<Widget> {
        seq![
            self.0.widget(),
            self.1.widget(),
            self.2.widget(),
            self.3.widget(),
            self.4.widget(),
            self.5.widget(),
        ]
    }

    fn views(self) -> (r: Vec<Widget>) {
        let mut out: Vec<Widget> = Vec::new();
        out.push(self.0.into_widget());
        out.push(self.1.into_widget());
        out.push(self.2.into_widget());
        out.push(self.3.into_widget());
        out.push(self.4.into_widget());
        out.push(self.5.into_widget());
        out
    }
}

impl<A: UIElement, B: UIElement, C: UIElement, D: UIElement, E: UIElement, F: UIElement, G: UIElement> ElementSet for (A, B, C, D, E, F, G) {
    open spec fn widgets(self) -> Seq<Widget> {
        seq![
            self.0.widget(),
            self.1.widget(),
            self.2.widget(),
            self.3.widget(),
            self.4.widget(),
            self.5.widget(),
            self.6.widget(),
        ]
    }

    fn views(self) -> (r: Vec<Widget>) {
        let mut out: Vec<Widget> = Vec::new();
        out.push(self.0.into_widget());
        out.push(self.1.into_widget());
        out.push(self.2.into_widget());
        out.push(self.3.into_widget());
        out.push(self.4.into_widget());
        out.push(self.5.into_widget());
        out.push(self.6.into_widget());
        out
    }
}

impl<A: UIElement, B: UIElement, C: UIElement, D: UIElement, E: UIElement, F: UIElement, G: UIElement, H: UIElement> ElementSet for (A, B, C, D, E, F, G, H) {
    open spec fn widgets(self) -> Seq<Widget> {
        seq![
            self.0.widget(),
            self.1.widget(),
            self.2.widget(),
            self.3.widget(),
            self.4.widget(),
            self.5.widget(),
            self.6.widget(),
            self.7.widget(),
        ]
    }

    fn views(self) -> (r: Vec<Widget>) {
        let mut out: Vec<Widget> = Vec::new();
        out.push(self.0.into_widget());
        out.push(self.1.into_widget());
        out.push(self.2.into_widget());
        out.push(self.3.into_widget());
        out.push(self.4.into_widget());
        out.push(self.5.into_widget());
        out.push(self.6.into_widget());
        out.push(self.7.into_widget());
        out
    }
}

impl<A: UIElement, B: UIElement, C: UIElement, D: UIElement, E: UIElement, F: UIElement, G: UIElement, H: UIElement, I: UIElement> ElementSet for (A, B, C, D, E, F, G, H, I) {
    open spec fn widgets(self) -> Seq<Widget> {
        seq![
            self.0.widget(),
            self.1.widget(),
            self.2.widget(),
            self.3.widget(),
            self.4.widget(),
            self.5.widget(),
            self.6.widget(),
            self.7.widget(),
            self.8.widget(),
        ]
    }

    fn views(self) -> (r: Vec<Widget>) {
        let mut out: Vec<Widget> = Vec::new();
        out.push(self.0.into_widget());
        out.push(self.1.into_widget());
        out.push(self.2.into_widget());
        out.push(self.3.into_widget());
        out.push(self.4.into_widget());
        out.push(self.5.into_widget());
        out.push(self.6.into_widget());
        out.push(self.7.into_widget());
        out.push(self.8.into_widget());
        out
    }
}

impl<A: UIElement, B: UIElement, C: UIElement, D: UIElement, E: UIElement, F: UIElement, G: UIElement, H: UIElement, I: UIElement, J: UIElement> ElementSet for (A, B, C, D, E, F, G, H, I, J) {
    open spec fn widgets(self) -> Seq<Widget> {
        seq![
            self.0.widget(),
            self.1.widget(),
            self.2.widget(),
            self.3.widget(),
            self.4.widget(),
            self.5.widget(),
            self.6.widget(),
            self.7.widget(),
            self.8.widget(),
            self.9.widget(),
        ]
    }

    fn views(self) -> (r: Vec<Widget>) {
        let mut out: Vec<Widget> = Vec::new();
        out.push(self.0.into_widget());
        out.push(self.1.into_widget());
        out.push(self.2.into_widget());
        out.push(self.3.into_widget());
        out.push(self.4.into_widget());
        out.push(self.5.into_widget());
        out.push(self.6.into_widget());
        out.push(self.7.into_widget());
        out.push(self.8.into_widget());
        out.push(self.9.into_widget());
        out
    }
}

impl<A: UIElement, B: UIElement, C: UIElement, D: UIElement, E: UIElement, F: UIElement, G: UIElement, H: UIElement, I: UIElement, J: UIElement, K: UIElement> ElementSet for (A, B, C, D, E, F, G, H, I, J, K) {
    open spec fn widgets(self) -> Seq<Widget> {
        seq![
            self.0.widget(),
            self.1.widget(),
            self.2.widget(),
            self.3.widget(),
            self.4.widget(),
            self.5.widget(),
            self.6.widget(),
            self.7.widget(),
            self.8.widget(),
            self.9.widget(),
            self.10.widget(),
        ]
    }

    fn views(self) -> (r: Vec<Widget>) {
        let mut out: Vec<Widget> = Vec::new();
        out.push(self.0.into_widget());
        out.push(self.1.into_widget());
        out.push(self.2.into_widget());
        out.push(self.3.into_widget());
        out.push(self.4.into_widget());
        out.push(self.5.into_widget());
        out.push(self.6.into_widget());
        out.push(self.7.into_widget());
        out.push(self.8.into_widget());
        out.push(self.9.into_widget());
        out.push(self.10.into_widget());
        out
    }
}

impl<A: UIElement, B: UIElement, C: UIElement, D: UIElement, E: UIElement, F: UIElement, G: UIElement, H: UIElement, I: UIElement, J: UIElement, K: UIElement, L: UIElement> ElementSet for (A, B, C, D, E, F, G, H, I, J, K, L) {
    open spec fn widgets(self) -> Seq<Widget> {
        seq![
            self.0.widget(),
            self.1.widget(),
            self.2.widget(),
            self.3.widget(),
            self.4.widget(),
            self.5.widget(),
            self.6.widget(),
            self.7.widget(),
            self.8.widget(),
            self.9.widget(),
            self.10.widget(),
            self.11.widget(),
        ]
    }

    fn views(self) -> (r: Vec<Widget>) {
        let mut out: Vec<Widget> = Vec::new();
        out.push(self.0.into_widget());
        out.push(self.1.into_widget());
        out.push(self.2.into_widget());
        out.push(self.3.into_widget());
        out.push(self.4.into_widget());
        out.push(self.5.into_widget());
        out.push(self.6.into_widget());
        out.push(self.7.into_widget());
        out.push(self.8.into_widget());
        out.push(self.9.into_widget());
        out.push(self.10.into_widget());
        out.push(self.11.into_widget());
        out
    }
}

} // verus!
