//! Stacks: an element with children, and how a stack is planted in the
//! layout engine.

use vstd::prelude::*;
use std::sync::Arc;
use crate::color::Srgba;
use crate::components::UIRenderMode;
use crate::components::element::AlignItems;
use crate::components::element::AttributesView;
use crate::components::element::Callback;
use crate::components::element::Element;
use crate::components::element::FlexDirection;
use crate::components::element_set::ElementSet;
use crate::layout::LayoutError;
use crate::layout::UILayouts;
use crate::solver::held_style;
use crate::math::Vec2;
use crate::math::Vec3;
use crate::math::Vec4;
use crate::shape::ShapeTrait;

verus! {

/// A child of a stack: a plain element or a stack of its own.
pub enum Widget {
    Leaf(Element),
    Stack(Stack),
}

/// An element with children.
pub struct Stack {
    pub children: Vec<Widget>,
    pub element: Element,
}

impl Widget {
    /// The element of the widget itself.
    pub open spec fn head(self) -> Element {
        match self {
            Widget::Leaf(e) => e,
            Widget::Stack(s) => s.element,
        }
    }

    /// The children of the widget, in declaration order.
    pub open spec fn kids(self) -> Seq<Widget> {
        match self {
            Widget::Leaf(_) => Seq::empty(),
            Widget::Stack(s) => s.children@,
        }
    }

    /// Whether no path down the widget is longer than `levels`.
    pub open spec fn fits(self, levels: nat) -> bool
        decreases self,
    {
        match self {
            Widget::Leaf(_) => true,
            Widget::Stack(s) => forall|i: int|
                0 <= i < s.children@.len() ==> levels > 0 && (#[trigger] s.children@[i]).fits(
                    (levels - 1) as nat,
                ),
        }
    }

    /// The number of widgets in the widget: itself, its children, and
    /// all that is in them.
    pub open spec fn count(self) -> nat
        decreases self, self.kids().len() + 1,
    {
        1 + self.count_upto(self.kids().len())
    }

    /// The number of widgets in the first `upto` children of the widget.
    pub open spec fn count_upto(self, upto: nat) -> nat
        decreases self, upto,
    {
        match self {
            Widget::Leaf(_) => 0,
            Widget::Stack(s) => if upto == 0 || upto > s.children@.len() {
                0
            } else {
                self.count_upto((upto - 1) as nat) + s.children@[upto - 1].count()
            },
        }
    }

    /// The element of the widget and its children.
    pub fn into_parts(self) -> (r: (Element, Vec<Widget>))
        ensures
            r.0 == self.head(),
            r.1@ == self.kids(),
    {
        match self {
            Widget::Leaf(e) => (e, Vec::new()),
            Widget::Stack(s) => (s.element, s.children),
        }
    }

    /// The element of the widget.
    pub fn get_element(&self) -> (r: &Element)
        ensures
            *r == self.head(),
    {
        match self {
            Widget::Leaf(e) => e,
            Widget::Stack(s) => &s.element,
        }
    }
}

/// A stack laid out as a column.
pub fn vstack<K: ElementSet>(children: K) -> (r: Stack)
    ensures
        r.children@ == children.widgets(),
        r.element.attributes@ == (AttributesView {
            tile: "vstack"@,
            render_block: UIRenderMode::WithoutSelf,
            flex_direction: FlexDirection::Column,
            ..AttributesView::fresh(r.element.attributes.id)
        }),
        r.element.unbound(),
{
    stack(children).direction(FlexDirection::Column).title("vstack")
}

/// A stack laid out as a row.
pub fn hstack<K: ElementSet>(children: K) -> (r: Stack)
    ensures
        r.children@ == children.widgets(),
        r.element.attributes@ == (AttributesView {
            tile: "hstack"@,
            render_block: UIRenderMode::WithoutSelf,
            flex_direction: FlexDirection::Row,
            ..AttributesView::fresh(r.element.attributes.id)
        }),
        r.element.unbound(),
{
    stack(children).direction(FlexDirection::Row).title("hstack")
}

/// A stack that shows no highlight of its own.
pub fn stack<K: ElementSet>(children: K) -> (r: Stack)
    ensures
        r.children@ == children.widgets(),
        r.element.attributes@ == (AttributesView {
            render_block: UIRenderMode::WithoutSelf,
            ..AttributesView::fresh(r.element.attributes.id)
        }),
        r.element.unbound(),
{
    Stack::new(children).render_mode(UIRenderMode::WithoutSelf)
}

impl Stack {
    /// A stack of `children` around a new element.
    pub fn new<K: ElementSet>(children: K) -> (r: Stack)
        ensures
            r.children@ == children.widgets(),
            r.element.attributes@ == AttributesView::fresh(r.element.attributes.id),
            r.element.unbound(),
    {
        Stack { children: children.views(), element: Element::new() }
    }

    pub fn size(self, size: Vec2) -> (r: Stack)
        ensures
            r.children@ == self.children@,
            r.element.attributes@ == self.element.attributes@.sized(size),
            r.element.same_hooks(self.element),
    {
        Stack { children: self.children, element: self.element.size(size) }
    }

    pub fn color(self, color: Srgba) -> (r: Stack)
        ensures
            r.children@ == self.children@,
            r.element.attributes@ == (AttributesView { color, ..self.element.attributes@ }),
            r.element.same_hooks(self.element),
    {
        Stack { children: self.children, element: self.element.color(color) }
    }

    pub fn background_color(self, color: Srgba) -> (r: Stack)
        ensures
            r.children@ == self.children@,
            r.element.attributes@ == (AttributesView {
                background_color: color,
                ..self.element.attributes@
            }),
            r.element.same_hooks(self.element),
    {
        Stack { children: self.children, element: self.element.background_color(color) }
    }

    pub fn title(self, title: &str) -> (r: Stack)
        ensures
            r.children@ == self.children@,
            r.element.attributes@ == (AttributesView { tile: title@, ..self.element.attributes@ }),
            r.element.same_hooks(self.element),
    {
        Stack { children: self.children, element: self.element.title(title) }
    }

    pub fn click(self, action: Arc<dyn Callback>) -> (r: Stack)
        ensures
            r.children@ == self.children@,
            r.element.attributes@ == self.element.attributes@,
            r.element.action.click == Some(action),
            r.element.action.hover == self.element.action.hover,
            r.element.drawfn == self.element.drawfn,
            r.element.draw == self.element.draw,
    {
        let mut out = self;
        let bound = Some(action);
        out.element.action.click = bound;
        out
    }

    pub fn hover(self, action: Arc<dyn Callback>) -> (r: Stack)
        ensures
            r.children@ == self.children@,
            r.element.attributes@ == self.element.attributes@,
            r.element.action.hover == Some(action),
            r.element.action.click == self.element.action.click,
            r.element.drawfn == self.element.drawfn,
            r.element.draw == self.element.draw,
    {
        let mut out = self;
        let bound = Some(action);
        out.element.action.hover = bound;
        out
    }

    pub fn direction(self, direction: FlexDirection) -> (r: Stack)
        ensures
            r.children@ == self.children@,
            r.element.attributes@ == (AttributesView {
                flex_direction: direction,
                ..self.element.attributes@
            }),
            r.element.same_hooks(self.element),
    {
        Stack { children: self.children, element: self.element.direction(direction) }
    }

    pub fn padding(self, padding: Vec4) -> (r: Stack)
        ensures
            r.children@ == self.children@,
            r.element.attributes@ == (AttributesView { padding, ..self.element.attributes@ }),
            r.element.same_hooks(self.element),
    {
        Stack { children: self.children, element: self.element.padding(padding) }
    }

    pub fn offset(self, offset: Vec3) -> (r: Stack)
        ensures
            r.children@ == self.children@,
            r.element.attributes@ == (AttributesView {
                anchor_offset: offset,
                ..self.element.attributes@
            }),
            r.element.same_hooks(self.element),
    {
        Stack { children: self.children, element: self.element.offset(offset) }
    }

    pub fn round(self, round: i32) -> (r: Stack)
        ensures
            r.children@ == self.children@,
            r.element.attributes@ == self.element.attributes@.rounded(round),
            r.element.same_hooks(self.element),
    {
        Stack { children: self.children, element: self.element.round(round) }
    }

    pub fn shape<S: ShapeTrait>(self, shape: S) -> (r: Stack)
        ensures
            r.children@ == self.children@,
            r.element.attributes@ == (AttributesView {
                shape: Some(shape.shape()),
                ..self.element.attributes@
            }),
            r.element.same_hooks(self.element),
    {
        Stack { children: self.children, element: self.element.shape(shape) }
    }

    pub fn margin(self, margin: Vec4) -> (r: Stack)
        ensures
            r.children@ == self.children@,
            r.element.attributes@ == (AttributesView { margin, ..self.element.attributes@ }),
            r.element.same_hooks(self.element),
    {
        Stack { children: self.children, element: self.element.margin(margin) }
    }

    pub fn render_mode(self, is_blcok: UIRenderMode) -> (r: Stack)
        ensures
            r.children@ == self.children@,
            r.element.attributes@ == (AttributesView {
                render_block: is_blcok,
                ..self.element.attributes@
            }),
            r.element.same_hooks(self.element),
    {
        Stack { children: self.children, element: self.element.render_block(is_blcok) }
    }

    pub fn horizontal_alignment(self, align: AlignItems) -> (r: Stack)
        ensures
            r.children@ == self.children@,
            r.element.attributes@ == self.element.attributes@.aligned_horizontally(align),
            r.element.same_hooks(self.element),
    {
        Stack { children: self.children, element: self.element.horizontal_alignment(align) }
    }

    pub fn vertical_alignment(self, align: AlignItems) -> (r: Stack)
        ensures
            r.children@ == self.children@,
            r.element.attributes@ == self.element.attributes@.aligned_vertically(align),
            r.element.same_hooks(self.element),
    {
        Stack { children: self.children, element: self.element.vertical_alignment(align) }
    }
}

/// Whether the widget `w` stands at `node`: the node holds the widget's
/// element, the solver holds the style of that element for it, and its
/// children are, in declaration order and with nothing between or after
/// them, the nodes at which the widget's children stand.
pub open spec fn planted(layout: UILayouts, w: Widget, node: u64) -> bool
    decreases w,
{
    &&& layout.spec_contains(node)
    &&& layout.elements()[node] == w.head()
    &&& layout.styles()[node] == held_style(w.head().attributes@.style())
    &&& match w {
        Widget::Leaf(_) => layout.forest().children[node].len() == 0,
        Widget::Stack(s) => {
            &&& layout.forest().children[node].len() == s.children@.len()
            &&& forall|i: int|
                0 <= i < s.children@.len() ==> planted(
                    layout,
                    #[trigger] s.children@[i],
                    layout.forest().children[node][i],
                )
        },
    }
}

/// A widget that fits some number of levels fits any greater number.
pub proof fn lemma_fits_more(w: Widget, levels: nat, more: nat)
    requires
        w.fits(levels),
        levels <= more,
    ensures
        w.fits(more),
    decreases w,
{
    match w {
        Widget::Leaf(_) => {},
        Widget::Stack(s) => {
            assert forall|i: int| 0 <= i < s.children@.len() implies more > 0 && (
            #[trigger] s.children@[i]).fits((more - 1) as nat) by {
                lemma_fits_more(s.children@[i], (levels - 1) as nat, (more - 1) as nat);
            }
        },
    }
}

/// Every widget fits some number of levels.
pub proof fn lemma_fits_some(w: Widget) -> (levels: nat)
    ensures
        w.fits(levels),
    decreases w, w.kids().len() + 1,
{
    match w {
        Widget::Leaf(_) => 0,
        Widget::Stack(s) => {
            let below = lemma_fit_all(w, s.children@.len());
            below + 1
        },
    }
}

/// The first `upto` children of a widget all fit some number of levels.
proof fn lemma_fit_all(w: Widget, upto: nat) -> (levels: nat)
    requires
        upto <= w.kids().len(),
    ensures
        forall|i: int| 0 <= i < upto ==> (#[trigger] w.kids()[i]).fits(levels),
    decreases w, upto,
{
    if upto == 0 {
        0
    } else {
        match w {
            Widget::Leaf(_) => 0,
            Widget::Stack(s) => {
                let before = lemma_fit_all(w, (upto - 1) as nat);
                let last = lemma_fits_some(s.children@[upto - 1]);
                let levels = if before >= last {
                    before
                } else {
                    last
                };
                assert forall|i: int| 0 <= i < upto implies (#[trigger] w.kids()[i]).fits(
                    levels,
                ) by {
                    if i < upto - 1 {
                        lemma_fits_more(w.kids()[i], before, levels);
                    } else {
                        lemma_fits_more(w.kids()[i], last, levels);
                    }
                }
                levels
            },
        }
    }
}

/// The number of widgets in `ws`.
pub open spec fn count_all(ws: Seq<Widget>) -> nat
    decreases ws.len(),
{
    if ws.len() == 0 {
        0
    } else {
        count_all(ws.drop_last()) + ws.last().count()
    }
}

/// The number of widgets in the groups that wait.
pub open spec fn waiting(groups: Seq<(u64, Vec<Widget>)>) -> nat
    decreases groups.len(),
{
    if groups.len() == 0 {
        0
    } else {
        waiting(groups.drop_last()) + count_all(groups.last().1@)
    }
}

/// A widget counts itself and what its children count.
pub proof fn lemma_count(w: Widget)
    ensures
        w.count() == 1 + count_all(w.kids()),
{
    lemma_count_upto(w, w.kids().len());
    assert(w.kids().take(w.kids().len() as int) =~= w.kids());
}

proof fn lemma_count_upto(w: Widget, upto: nat)
    requires
        upto <= w.kids().len(),
    ensures
        w.count_upto(upto) == count_all(w.kids().take(upto as int)),
    decreases upto,
{
    if upto > 0 {
        lemma_count_upto(w, (upto - 1) as nat);
        assert(w.kids().take(upto as int).drop_last() =~= w.kids().take(upto - 1));
    }
}

proof fn lemma_count_all_head(ws: Seq<Widget>)
    requires
        ws.len() > 0,
    ensures
        count_all(ws) == ws[0].count() + count_all(ws.skip(1)),
    decreases ws.len(),
{
    if ws.len() > 1 {
        lemma_count_all_head(ws.drop_last());
        assert(ws.drop_last().skip(1) =~= ws.skip(1).drop_last());
    } else {
        assert(ws.skip(1) =~= Seq::<Widget>::empty());
        assert(ws.drop_last() =~= Seq::<Widget>::empty());
    }
}

proof fn lemma_waiting_head(groups: Seq<(u64, Vec<Widget>)>)
    requires
        groups.len() > 0,
    ensures
        waiting(groups) == count_all(groups[0].1@) + waiting(groups.skip(1)),
    decreases groups.len(),
{
    if groups.len() > 1 {
        lemma_waiting_head(groups.drop_last());
        assert(groups.drop_last().skip(1) =~= groups.skip(1).drop_last());
    } else {
        assert(groups.skip(1) =~= Seq::<(u64, Vec<Widget>)>::empty());
        assert(groups.drop_last() =~= Seq::<(u64, Vec<Widget>)>::empty());
    }
}

/// Whether the first `k` children of the widget made at `n` stand, in
/// order, at the children of `n`, and `n` has no other children.
pub open spec fn rooted(layout: UILayouts, made: Map<u64, Widget>, n: u64, k: int) -> bool {
    &&& layout.forest().children[n].len() == k
    &&& k <= made[n].kids().len()
    &&& forall|i: int|
        0 <= i < k ==> made.contains_key(#[trigger] layout.forest().children[n][i])
            && made[layout.forest().children[n][i]] == made[n].kids()[i]
}

/// Whether every group waits to be planted: its node is made and has no
/// children yet, and its widgets are the children of the widget made there.
pub open spec fn waits(
    layout: UILayouts,
    made: Map<u64, Widget>,
    groups: Seq<(u64, Vec<Widget>)>,
    levels: nat,
) -> bool {
    forall|g: int|
        0 <= g < groups.len() ==> {
            &&& made.contains_key((#[trigger] groups[g]).0)
            &&& made[groups[g].0].kids() == groups[g].1@
            &&& groups[g].1@.len() > 0
            &&& layout.forest().children[groups[g].0].len() == 0
            &&& levels > 0
            &&& made[groups[g].0].fits(levels)
        }
}

/// Whether `n` is the node of one of `groups`.
pub open spec fn among(groups: Seq<(u64, Vec<Widget>)>, n: u64) -> bool {
    exists|g: int| 0 <= g < groups.len() && (#[trigger] groups[g]).0 == n
}

/// Whether the nodes of `groups` are all different.
pub open spec fn apart(groups: Seq<(u64, Vec<Widget>)>) -> bool {
    forall|g: int, h: int|
        0 <= g < groups.len() && 0 <= h < groups.len() && g != h ==> (#[trigger] groups[g]).0 != (
        #[trigger] groups[h]).0
}

/// The node whose children are being inserted, and how many are.
pub ghost struct Current {
    pub node: u64,
    pub done: int,
}

/// The state of a planting in progress: `made` maps the nodes inserted so
/// far to their widgets; the groups of `rest` and `next` wait; `cur`, if
/// any, is the node whose children are being inserted, with the number
/// inserted so far. Every other made node has all its children.
pub open spec fn planting(
    layout: UILayouts,
    before: UILayouts,
    made: Map<u64, Widget>,
    rest: Seq<(u64, Vec<Widget>)>,
    next: Seq<(u64, Vec<Widget>)>,
    cur: Option<Current>,
    levels: nat,
) -> bool {
    &&& layout.wf()
    &&& before.wf()
    &&& layout.keeps(before)
    &&& layout.relations() == before.relations()
    &&& layout.spec_debug_root() != before.spec_debug_root() ==> {
        &&& layout.spec_debug_root() is Some
        &&& made.contains_key(layout.spec_debug_root()->0)
        &&& made[layout.spec_debug_root()->0].head().attributes.element_type
            == crate::components::element::ElementType::Debug
    }
    &&& forall|n: u64|
        before.spec_contains(n) && n != before.spec_root() ==> (
        #[trigger] layout.forest().children[n]) == before.forest().children[n]
    &&& forall|n: u64| #[trigger]
        made.contains_key(n) ==> {
            &&& layout.spec_contains(n)
            &&& !before.spec_contains(n)
            &&& layout.elements()[n] == made[n].head()
            &&& layout.styles()[n] == held_style(made[n].head().attributes@.style())
        }
    &&& waits(layout, made, rest, levels)
    &&& waits(layout, made, next, (levels - 1) as nat)
    &&& apart(rest)
    &&& apart(next)
    &&& forall|n: u64| among(rest, n) ==> !among(next, n)
    &&& forall|n: u64| #[trigger]
        made.contains_key(n) ==> {
            ||| rooted(layout, made, n, made[n].kids().len() as int)
            ||| among(rest, n)
            ||| among(next, n)
            ||| (cur is Some && cur->0.node == n)
        }
    &&& cur is Some ==> {
        &&& made.contains_key(cur->0.node)
        &&& rooted(layout, made, cur->0.node, cur->0.done)
        &&& !among(rest, cur->0.node)
        &&& !among(next, cur->0.node)
        &&& levels > 0
        &&& made[cur->0.node].fits(levels)
    }
}

/// Once nothing waits, every made widget stands at its node.
pub proof fn lemma_planted(layout: UILayouts, before: UILayouts, made: Map<u64, Widget>, levels: nat, n: u64)
    requires
        planting(layout, before, made, Seq::empty(), Seq::empty(), None, levels),
        made.contains_key(n),
    ensures
        planted(layout, made[n], n),
    decreases made[n],
{
    match made[n] {
        Widget::Leaf(_) => {},
        Widget::Stack(s) => {
            assert forall|i: int| 0 <= i < s.children@.len() implies planted(
                layout,
                #[trigger] s.children@[i],
                layout.forest().children[n][i],
            ) by {
                let c = layout.forest().children[n][i];
                lemma_planted(layout, before, made, levels, c);
            }
        },
    }
}

/// The planting after the next child of the current node is inserted.
proof fn lemma_planting_step(
    layout: UILayouts,
    after: UILayouts,
    before: UILayouts,
    made: Map<u64, Widget>,
    rest: Seq<(u64, Vec<Widget>)>,
    next: Seq<(u64, Vec<Widget>)>,
    parent: u64,
    k: int,
    levels: nat,
    id: u64,
    w: Widget,
    kids: Vec<Widget>,
)
    requires
        planting(layout, before, made, rest, next, Some(Current { node: parent, done: k }), levels),
        0 <= k < made[parent].kids().len(),
        w == made[parent].kids()[k],
        kids@ == w.kids(),
        after.wf(),
        after.grown(layout, parent, id, w.head()),
    ensures
        planting(
            after,
            before,
            made.insert(id, w),
            rest,
            if kids@.len() > 0 {
                next.push((id, kids))
            } else {
                next
            },
            Some(Current { node: parent, done: k + 1 }),
            levels,
        ),
{
    let made2 = made.insert(id, w);
    let next2 = if kids@.len() > 0 {
        next.push((id, kids))
    } else {
        next
    };
    assert(w.fits((levels - 1) as nat));
    assert(waits(after, made2, next2, (levels - 1) as nat)) by {
        assert forall|q: int| 0 <= q < next2.len() implies {
            &&& made2.contains_key((#[trigger] next2[q]).0)
            &&& made2[next2[q].0].kids() == next2[q].1@
            &&& next2[q].1@.len() > 0
            &&& after.forest().children[next2[q].0].len() == 0
            &&& (levels - 1) as nat > 0
            &&& made2[next2[q].0].fits((levels - 1) as nat)
        } by {
            if q >= next.len() {
                match w {
                    Widget::Leaf(_) => {},
                    Widget::Stack(st) => {
                        assert(st.children@[0].fits(((levels - 1) as nat - 1) as nat));
                    },
                }
            }
        }
    }
    assert forall|n: u64| #[trigger] made2.contains_key(n) implies {
        ||| rooted(after, made2, n, made2[n].kids().len() as int)
        ||| among(rest, n)
        ||| among(next2, n)
        ||| n == parent
    } by {
        if n == id {
            if kids@.len() > 0 {
                assert(next2[next2.len() - 1] == (id, kids));
            }
        } else if n != parent {
            if among(next, n) {
                let q = choose|q: int| 0 <= q < next.len() && (#[trigger] next[q]).0 == n;
                assert(next2[q] == next[q]);
            }
        }
    }
}

impl Stack {
    /// Plants the stack in the engine: inserts its element as the last
    /// child of the root, then, level by level, the element of each child
    /// under the node of its parent. Returns the node of the stack.
    ///
    /// Afterwards the stack stands at that node: every child, and every
    /// child of a child, has a node of its own, and the children of each
    /// node are the nodes of the children in declaration order. The engine
    /// has one node more for every widget in the stack, the stack itself
    /// among them, and every node it had is as it was, but that the root
    /// has the stack as its last child.
    pub fn push_to_layout(self, layout: &mut UILayouts) -> (r: Result<u64, LayoutError>)
        requires
            old(layout).wf(),
        ensures
            r is Ok,
            final(layout).wf(),
            !old(layout).spec_contains(r->Ok_0),
            planted(*final(layout), Widget::Stack(self), r->Ok_0),
            final(layout).order().len() == old(layout).order().len() + Widget::Stack(self).count(),
            old(layout).mirrors_apart() ==> final(layout).mirrors_apart(),
            final(layout).keeps(*old(layout)),
            final(layout).relations() == old(layout).relations(),
            all_content(Widget::Stack(self)) ==> final(layout).spec_debug_root() == old(layout).spec_debug_root(),
            final(layout).spec_debug_root() != old(layout).spec_debug_root() ==> {
                &&& final(layout).spec_debug_root() is Some
                &&& !old(layout).spec_contains(final(layout).spec_debug_root()->0)
                &&& final(layout).attributes(final(layout).spec_debug_root()->0).element_type
                    == crate::components::element::ElementType::Debug
            },
            final(layout).forest().children[old(layout).spec_root()] == old(layout).forest().children[old(layout).spec_root()].push(r->Ok_0),
            forall|n: u64|
                old(layout).spec_contains(n) && n != old(layout).spec_root() ==> (
                #[trigger] final(layout).forest().children[n]) == old(layout).forest().children[n],
    {
        let ghost whole = Widget::Stack(self);
        let ghost before = *layout;
        let ghost top = lemma_fits_some(whole);
        let ghost mut levels: nat = top + 1;
        proof {
            lemma_fits_more(whole, top, levels);
        }
        let Stack { children, element } = self;
        let node_id = match layout.push_element(element) {
            Ok(node_id) => node_id,
            Err(e) => {
                return Err(e);
            },
        };
        let ghost mut made: Map<u64, Widget> = Map::empty().insert(node_id, whole);
        let mut level: Vec<(u64, Vec<Widget>)> = Vec::new();
        if children.len() > 0 {
            level.push((node_id, children));
        }
        proof {
            lemma_count(whole);
            if children@.len() > 0 {
                assert(level@[0] == (node_id, children));
                assert(level@.drop_last() =~= Seq::<(u64, Vec<Widget>)>::empty());
                assert(waiting(level@.drop_last()) == 0);
                assert(level@.last().1@ == children@);
            } else {
                assert(count_all(children@) == 0);
            }
            assert(waiting(level@) == count_all(children@));
        }
        while level.len() > 0
            invariant
                layout.order().len() + waiting(level@) == before.order().len() + whole.count(),
                planting(*layout, before, made, level@, Seq::empty(), None, levels),
                made.contains_key(node_id),
                made[node_id] == whole,
                all_content(whole) ==> all_made_content(made),
                layout.forest().children[before.spec_root()] == before.forest().children[before.spec_root()].push(
                    node_id,
                ),
            decreases levels,
        {
            let mut next: Vec<(u64, Vec<Widget>)> = Vec::new();
            let ghost groups = level@;
            proof {
                assert(groups.skip(0) =~= groups);
                assert(levels > 0) by {
                    assert(made.contains_key(groups[0].0));
                }
            }
            for group in it: level
                invariant
                    layout.order().len() + waiting(groups.skip(it.index() as int)) + waiting(next@)
                        == before.order().len() + whole.count(),
                    it.seq() == groups,
                    planting(
                        *layout,
                        before,
                        made,
                        groups.skip(it.index() as int),
                        next@,
                        None,
                        levels,
                    ),
                    levels > 0,
                    made.contains_key(node_id),
                    made[node_id] == whole,
                    all_content(whole) ==> all_made_content(made),
                    layout.forest().children[before.spec_root()] == before.forest().children[before.spec_root()].push(
                        node_id,
                    ),
            {
                let ghost g_index = it.index() as int;
                let ghost rest = groups.skip(g_index + 1);
                let (parent, widgets) = group;
                let ghost ws = widgets@;
                proof {
                    let here = groups.skip(g_index);
                    assert(rest =~= here.skip(1));
                    lemma_take_group(*layout, before, made, here, next@, levels);
                    lemma_waiting_head(here);
                    assert(ws.skip(0) =~= ws);
                }
                for w in wit: widgets
                    invariant
                        layout.order().len() + count_all(ws.skip(wit.index() as int)) + waiting(rest)
                            + waiting(next@) == before.order().len() + whole.count(),
                        wit.seq() == ws,
                        ws == made[parent].kids(),
                        planting(
                            *layout,
                            before,
                            made,
                            rest,
                            next@,
                            Some(Current { node: parent, done: wit.index() as int }),
                            levels,
                        ),
                        levels > 0,
                        made.contains_key(node_id),
                        made[node_id] == whole,
                        all_content(whole) ==> all_made_content(made),
                        parent != before.spec_root(),
                        layout.forest().children[before.spec_root()] == before.forest().children[before.spec_root()].push(
                            node_id,
                        ),
                {
                    let ghost k = wit.index() as int;
                    let ghost entry = *layout;
                    let ghost waited = next@;
                    proof {
                        lemma_count_all_head(ws.skip(k));
                        assert(ws.skip(k).skip(1) =~= ws.skip(k + 1));
                        lemma_count(w);
                    }
                    let (element, kids) = w.into_parts();
                    let id = match layout.push_element_with_id(element, parent) {
                        Ok(id) => id,
                        Err(e) => {
                            return Err(e);
                        },
                    };
                    proof {
                        before.lemma_wf();
                        assert(before.spec_contains(before.spec_root()));
                        lemma_planting_step(
                            entry,
                            *layout,
                            before,
                            made,
                            rest,
                            next@,
                            parent,
                            k,
                            levels,
                            id,
                            w,
                            kids,
                        );
                        made = made.insert(id, w);
                    }
                    if kids.len() > 0 {
                        next.push((id, kids));
                    }
                    proof {
                        if kids@.len() > 0 {
                            assert(next@.drop_last() =~= waited);
                        }
                    }
                }
            }
            proof {
                levels = (levels - 1) as nat;
            }
            level = next;
        }
        proof {
            lemma_planted(*layout, before, made, levels, node_id);
            if before.mirrors_apart() {
                layout.lemma_apart_kept(before);
            }
        }
        Ok(node_id)
    }
}

/// Whether the widget and everything in it is content: none of its
/// elements is the root of an overlay.
pub open spec fn all_content(w: Widget) -> bool
    decreases w,
{
    &&& w.head().attributes.element_type == crate::components::element::ElementType::Content
    &&& match w {
        Widget::Leaf(_) => true,
        Widget::Stack(s) => forall|i: int|
            0 <= i < s.children@.len() ==> all_content(#[trigger] s.children@[i]),
    }
}

/// Whether every made widget is content.
pub open spec fn all_made_content(made: Map<u64, Widget>) -> bool {
    forall|n: u64| #[trigger] made.contains_key(n) ==> all_content(made[n])
}


/// The planting once the first waiting group is taken up.
proof fn lemma_take_group(
    layout: UILayouts,
    before: UILayouts,
    made: Map<u64, Widget>,
    here: Seq<(u64, Vec<Widget>)>,
    next: Seq<(u64, Vec<Widget>)>,
    levels: nat,
)
    requires
        planting(layout, before, made, here, next, None, levels),
        here.len() > 0,
    ensures
        planting(
            layout,
            before,
            made,
            here.skip(1),
            next,
            Some(Current { node: here[0].0, done: 0 }),
            levels,
        ),
        made[here[0].0].kids() == here[0].1@,
        here[0].0 != before.spec_root(),
{
    let rest = here.skip(1);
    let parent = here[0].0;
    before.lemma_wf();
    assert forall|n: u64| #[trigger] made.contains_key(n) implies {
        ||| rooted(layout, made, n, made[n].kids().len() as int)
        ||| among(rest, n)
        ||| among(next, n)
        ||| n == parent
    } by {
        if among(here, n) && n != parent {
            let q = choose|q: int| 0 <= q < here.len() && (#[trigger] here[q]).0 == n;
            assert(rest[q - 1] == here[q]);
        }
    }
}



/// An element inserted under the root stands there as a widget without
/// children.
pub proof fn lemma_leaf_planted(before: UILayouts, after: UILayouts, node: u64, element: Element)
    requires
        before.wf(),
        after.grown(before, before.spec_root(), node, element),
    ensures
        planted(after, Widget::Leaf(element), node),
        after.keeps(before),
{
}

/// Every child of a widget that stands at a node has a node of its own
/// there: the node has as many children as the widget, none of them twice,
/// and the widget's children stand at them in declaration order.
pub proof fn lemma_children_once(layout: UILayouts, w: Widget, node: u64)
    requires
        layout.wf(),
        planted(layout, w, node),
    ensures
        layout.forest().children[node].len() == w.kids().len(),
        layout.forest().children[node].no_duplicates(),
        forall|i: int|
            0 <= i < w.kids().len() ==> {
                &&& layout.elements()[layout.forest().children[node][i]] == (#[trigger] w.kids()[i]).head()
                &&& planted(layout, w.kids()[i], layout.forest().children[node][i])
            },
{
    layout.lemma_wf();
    reveal(crate::forest::Forest::ok);
    match w {
        Widget::Leaf(_) => {},
        Widget::Stack(s) => {
            assert forall|i: int| 0 <= i < w.kids().len() implies {
                &&& layout.elements()[layout.forest().children[node][i]] == (
                #[trigger] w.kids()[i]).head()
                &&& planted(layout, w.kids()[i], layout.forest().children[node][i])
            } by {
                assert(planted(layout, s.children@[i], layout.forest().children[node][i]));
            }
        },
    }
}

} // verus!
