//! The layout engine: the tree of elements keyed by solver node, the
//! per-frame update and draw traversals, and the structure overlay.

use vstd::prelude::*;
use std::collections::HashMap;
use crate::color::green;
use crate::color::green_200;
use crate::color::red_400;
use crate::color::spec_green_200;
use crate::color::spec_red_400;
use crate::components::rectangle;
use crate::components::text;
use crate::components::element::AlignItems;
use crate::components::element::FlexDirection;
use crate::math::Vec4;
use crate::shape::Rectangle;
use crate::shape::ShapeView;
use crate::shape::TextView;
use crate::color::spec_green;
use crate::components::UIMouseState;
use crate::components::UIRenderMode;
use crate::components::element::AttributesView;
use crate::components::element::Element;
use crate::components::element::ElementType;
use crate::context::MemState;
use crate::forest::Forest;
use crate::forest::lemma_climbs;
use crate::forest::lemma_climbs_past_new;
use crate::forest::lemma_descends;
use crate::forest::lemma_with_leaf;
use crate::forest::kept;
use crate::forest::lemma_kept;
use crate::forest::lemma_pruned_links;
use crate::forest::lemma_pruned_tree;
use crate::forest::lemma_same_ancestors;
use crate::forest::lemma_without_head;
use crate::solver::remove;
use crate::solver::without;
use crate::forest::lemma_child;
use crate::forest::lemma_below_some_child;
use crate::forest::lemma_under_child_below;
use crate::forest::lemma_all_under_root;
use crate::resolve::Frame;
use crate::resolve::Handed;
use crate::resolve::Pass;
use crate::resolve::hands_down;
use crate::resolve::lemma_handed_by_parent;
use crate::resolve::lemma_handed_by_root;
use crate::resolve::resolve;
use crate::resolve::top;
use crate::math::Vec2;
use crate::math::Vec3;
use crate::math::saturate;
use crate::math::saturate_i64;
use crate::painter::Painter;
use crate::painter::PainterView;
use crate::color::Srgba;
use crate::shape::Curve;
use crate::shape::ShapeUpdate;
use crate::solver::Layout;
use crate::solver::add_child;
use crate::solver::child_ids;
use crate::solver::compute_layout;
use crate::solver::layout;
use crate::solver::held_style;
use crate::solver::new_leaf;
use crate::solver::new_tree;
use crate::solver::hold;
use crate::solver::set_size;
use crate::solver::solver_style;
use crate::solver::tree_styles;
use crate::solver::tree_children;
use crate::solver::tree_layouts;
use crate::solver::tree_parents;
use crate::style::Distribute;
use crate::style::FlexStyle;

verus! {

broadcast use vstd::std_specs::hash::group_hash_axioms;

/// Why the engine could not do what it was asked.
#[derive(Clone, Copy, Debug, PartialEq, Eq, Structural)]
pub enum LayoutError {
    /// The node is not, or no longer, part of the tree.
    UnknownNode(u64),
    /// The root cannot be removed.
    Root,
    /// The solver refused an operation on a node that the engine holds.
    Solver,
    /// The root has no child to take the size of the viewport.
    NoContent,
}

/// The engine: the solver tree, the element of every node, and the
/// correspondence between content nodes and their overlay mirrors.
pub struct UILayouts {
    elements: HashMap<u64, Element>,
    /// The nodes in the order they were inserted.
    order: Vec<u64>,
    debuge_relations: HashMap<u64, u64>,
    taffy: taffy::TaffyTree<()>,
    root: u64,
    debug_root: Option<u64>,
    depth: Ghost<Map<u64, nat>>,
    height: Ghost<nat>,
}

impl UILayouts {
    /// The links of the solver tree.
    pub closed spec fn forest(&self) -> Forest {
        Forest {
            children: tree_children(self.taffy),
            parents: tree_parents(self.taffy),
            depth: self.depth@,
            height: self.height@,
        }
    }

    /// The box the solver last computed for each node.
    pub closed spec fn boxes(&self) -> Map<u64, Layout> {
        tree_layouts(self.taffy)
    }

    /// The element of each node.
    pub closed spec fn elements(&self) -> Map<u64, Element> {
        self.elements@
    }

    /// The nodes in the order they were inserted.
    pub closed spec fn order(&self) -> Seq<u64> {
        self.order@
    }

    /// The overlay mirror recorded for a content node.
    pub closed spec fn relations(&self) -> Map<u64, u64> {
        self.debuge_relations@
    }

    pub closed spec fn spec_root(&self) -> u64 {
        self.root
    }

    pub closed spec fn spec_debug_root(&self) -> Option<u64> {
        self.debug_root
    }

    /// Whether `node` is part of the tree.
    pub open spec fn spec_contains(&self, node: u64) -> bool {
        self.forest().contains(node)
    }

    /// The attributes of the element of `node`.
    pub open spec fn attributes(&self, node: u64) -> AttributesView {
        self.elements()[node].attributes@
    }

    /// Whether the tree is in order: the solver links form one tree under
    /// the root, every node has an element and every element a node, and
    /// the overlay root, if there is one, is a node other than the root.
    pub closed spec fn links_ok(&self) -> bool {
        &&& self.forest().tree(self.root)
        &&& self.elements@.dom() == self.forest().children.dom()
        &&& self.debug_root is Some ==> self.forest().contains(self.debug_root->0)
            && self.debug_root->0 != self.root
    }

    /// The invariant of the engine: the tree is in order, and each node is
    /// listed once in the insertion order.
    pub closed spec fn wf(&self) -> bool {
        &&& self.links_ok()
        &&& self.order@.no_duplicates()
        &&& self.order@.to_set() == self.forest().children.dom()
    }

    /// What `wf` says of the tree, for users of the engine.
    pub proof fn lemma_wf(&self)
        requires
            self.wf(),
        ensures
            self.forest().tree(self.spec_root()),
            self.elements().dom() == self.forest().children.dom(),
            self.order().no_duplicates(),
            self.order().to_set() == self.forest().children.dom(),
            self.elements().dom().len() == self.order().len(),
            self.spec_debug_root() is Some ==> self.spec_contains(self.spec_debug_root()->0)
                && self.spec_debug_root()->0 != self.spec_root(),
    {
        self.order@.unique_seq_to_set();
    }

    #[verifier::when_used_as_spec(spec_root)]
    pub fn root(&self) -> (r: u64)
        ensures
            r == self.spec_root(),
    {
        self.root
    }

    #[verifier::when_used_as_spec(spec_debug_root)]
    pub fn debug_root(&self) -> (r: Option<u64>)
        ensures
            r == self.spec_debug_root(),
    {
        self.debug_root
    }

    #[verifier::when_used_as_spec(spec_contains)]
    pub fn contains(&self, node: u64) -> (r: bool)
        requires
            self.wf(),
        ensures
            r == self.spec_contains(node),
    {
        self.elements.contains_key(&node)
    }

    /// The element of `node`, if `node` is part of the tree.
    pub fn get(&self, node: u64) -> (r: Option<&Element>)
        requires
            self.wf(),
        ensures
            match r {
                Some(e) => self.spec_contains(node) && *e == self.elements()[node],
                None => !self.spec_contains(node),
            },
    {
        self.elements.get(&node)
    }

    /// The children of `node` in order, if `node` is part of the tree.
    pub fn children(&self, node: u64) -> (r: Option<Vec<u64>>)
        requires
            self.wf(),
        ensures
            match r {
                Some(c) => self.spec_contains(node) && c@ == self.forest().children[node],
                None => !self.spec_contains(node),
            },
    {
        if self.elements.contains_key(&node) {
            Some(child_ids(&self.taffy, node))
        } else {
            None
        }
    }

    /// The box the solver last computed for `node`, if `node` is part of
    /// the tree.
    pub fn layout(&self, node: u64) -> (r: Option<Layout>)
        requires
            self.wf(),
        ensures
            match r {
                Some(l) => self.spec_contains(node) && l == self.boxes()[node],
                None => !self.spec_contains(node),
            },
    {
        if self.elements.contains_key(&node) {
            match layout(&self.taffy, node) {
                Ok(l) => Some(l),
                Err(_) => None,
            }
        } else {
            None
        }
    }

    /// An engine that holds the root alone: a green-backed element titled
    /// "root" whose children start at the start of its main axis.
    pub fn new() -> (r: Result<UILayouts, LayoutError>)
        ensures
            r is Ok,
            r->Ok_0.wf(),
            r->Ok_0.forest().children == Map::<u64, Seq<u64>>::empty().insert(
                r->Ok_0.spec_root(),
                Seq::empty(),
            ),
            r->Ok_0.elements().dom() == Set::<u64>::empty().insert(r->Ok_0.spec_root()),
            r->Ok_0.attributes(r->Ok_0.spec_root()) == (AttributesView {
                tile: "root"@,
                background_color: spec_green(),
                ..AttributesView::fresh(r->Ok_0.attributes(r->Ok_0.spec_root()).id)
            }),
            r->Ok_0.elements()[r->Ok_0.spec_root()].unbound(),
            r->Ok_0.order() == Seq::<u64>::empty().push(r->Ok_0.spec_root()),
            r->Ok_0.relations() == Map::<u64, u64>::empty(),
            r->Ok_0.mirrors_apart(),
            r->Ok_0.spec_debug_root() is None,
            r->Ok_0.styles()[r->Ok_0.spec_root()] == (FlexStyle {
                justify_content: Some(Distribute::Start),
                ..FlexStyle::spec_default()
            }),
    {
        let mut taffy = new_tree();
        let mut style = FlexStyle::default();
        style.justify_content = Some(Distribute::Start);
        let node = match new_leaf(&mut taffy, solver_style(&style)) {
            Ok(node) => node,
            Err(_) => {
                return Err(LayoutError::Solver);
            },
        };
        let mut elements: HashMap<u64, Element> = HashMap::new();
        elements.insert(node, Element::new().title("root").background_color(green()));
        let mut order: Vec<u64> = Vec::new();
        order.push(node);
        let out = UILayouts {
            elements,
            order,
            debuge_relations: HashMap::new(),
            taffy,
            root: node,
            debug_root: None,
            depth: Ghost(Map::<u64, nat>::empty().insert(node, 0nat)),
            height: Ghost(1nat),
        };
        proof {
            reveal(Forest::ok);
            reveal(UILayouts::mirrors_apart);
            let f = out.forest();
            assert(out.order@.to_set() =~= f.children.dom()) by {
                assert(out.order@[0] == node);
            }
        }
        Ok(out)
    }

    /// Inserts `element` as the last child of the root.
    pub fn push_element(&mut self, element: Element) -> (r: Result<u64, LayoutError>)
        requires
            old(self).wf(),
        ensures
            final(self).wf(),
            r is Ok,
            final(self).grown(*old(self), old(self).spec_root(), r->Ok_0, element),
            old(self).mirrors_apart() ==> final(self).mirrors_apart(),
    {
        let root = self.root;
        self.push_element_with_id(element, root)
    }

    /// Whether `self` is `before` with `element` inserted at the new node
    /// `child` as the last child of `parent`. The element becomes the
    /// overlay root if it is of that kind. The solver holds the style of
    /// the element for the new node, and for every other node the style it
    /// held.
    pub open spec fn grown(&self, before: UILayouts, parent: u64, child: u64, element: Element) -> bool {
        &&& before.spec_contains(parent)
        &&& !before.spec_contains(child)
        &&& self.forest() == before.forest().with_leaf(parent, child)
        &&& self.elements() == before.elements().insert(child, element)
        &&& self.order() == before.order().push(child)
        &&& self.relations() == before.relations()
        &&& self.spec_root() == before.spec_root()
        &&& self.spec_debug_root() == if element.attributes.element_type == ElementType::Debug {
            Some(child)
        } else {
            before.spec_debug_root()
        }
        &&& self.styles() == before.styles().insert(child, held_style(element.attributes@.style()))
    }

    /// Inserts `element` as the last child of the node `id` and lays the
    /// tree out again. Fails, and changes nothing, exactly when `id` is not
    /// part of the tree.
    pub fn push_element_with_id(&mut self, element: Element, id: u64) -> (r: Result<
        u64,
        LayoutError,
    >)
        requires
            old(self).wf(),
        ensures
            final(self).wf(),
            old(self).mirrors_apart() ==> final(self).mirrors_apart(),
            match r {
                Ok(child) => final(self).grown(*old(self), id, child, element),
                Err(e) => !old(self).spec_contains(id) && e == LayoutError::UnknownNode(id)
                    && *final(self) == *old(self),
            },
    {
        if !self.elements.contains_key(&id) {
            return Err(LayoutError::UnknownNode(id));
        }
        let ghost before = self.forest();
        let style = solver_style(&element.style());
        let child = match new_leaf(&mut self.taffy, style) {
            Ok(child) => child,
            Err(_) => {
                return Err(LayoutError::Solver);
            },
        };
        if element.get_element_type() == ElementType::Debug {
            self.debug_root = Some(child);
        }
        proof {
            lemma_climbs_past_new(before, id, child, id);
            assert(tree_parents(self.taffy).insert(child, Some(id)) =~= before.parents.insert(
                child,
                Some(id),
            ));
        }
        match add_child(&mut self.taffy, id, child) {
            Ok(_) => {},
            Err(_) => {
                return Err(LayoutError::Solver);
            },
        }
        self.elements.insert(child, element);
        self.order.push(child);
        self.depth = Ghost(before.with_leaf(id, child).depth);
        self.height = Ghost(before.with_leaf(id, child).height);
        proof {
            let after = before.with_leaf(id, child);
            lemma_with_leaf(before, self.root, id, child);
            assert(after.children.dom() =~= before.children.dom().insert(child));
            assert(self.order@.to_set() =~= old(self).order@.to_set().insert(child)) by {
                old(self).order@.lemma_push_to_set_commute(child);
            }
            lemma_descends(after, self.root);
        }
        match compute_layout(&mut self.taffy, self.root) {
            Ok(_) => {},
            Err(_) => {
                return Err(LayoutError::Solver);
            },
        }
        proof {
            if old(self).mirrors_apart() {
                assert(self.forest().children.dom() =~= old(self).forest().children.dom().insert(child));
                self.lemma_apart_kept(*old(self));
            }
        }
        Ok(child)
    }
}

impl UILayouts {
    /// Whether `self` has the tree, the boxes and the overlay records of
    /// `before`, and an element for the same nodes.
    pub open spec fn same_shape(&self, before: UILayouts) -> bool {
        &&& self.forest() == before.forest()
        &&& self.boxes() == before.boxes() && self.styles() == before.styles()
        &&& self.order() == before.order()
        &&& self.relations() == before.relations()
        &&& self.spec_root() == before.spec_root()
        &&& self.spec_debug_root() == before.spec_debug_root()
        &&& self.elements().dom() == before.elements().dom()
    }

    /// Whether every element has the callbacks bound that it has in `before`.
    pub open spec fn same_hooks(&self, before: UILayouts) -> bool {
        forall|n: u64| #[trigger]
            self.elements().contains_key(n) ==> self.elements()[n].same_hooks(before.elements()[n])
    }

    /// Puts `element` in the place of the element of `node`.
    fn put(&mut self, node: u64, element: Element)
        ensures
            final(self).elements@ == old(self).elements@.insert(node, element),
            final(self).order == old(self).order,
            final(self).debuge_relations == old(self).debuge_relations,
            final(self).taffy == old(self).taffy,
            final(self).root == old(self).root,
            final(self).debug_root == old(self).debug_root,
            final(self).depth == old(self).depth,
            final(self).height == old(self).height,
    {
        self.elements.insert(node, element);
    }

    /// Takes the element of `node` out of the engine, to be put back.
    fn take(&mut self, node: u64) -> (element: Option<Element>)
        requires
            old(self).elements@.contains_key(node),
        ensures
            element == Some(old(self).elements@[node]),
            final(self).elements@ == old(self).elements@.remove(node),
            final(self).order == old(self).order,
            final(self).debuge_relations == old(self).debuge_relations,
            final(self).taffy == old(self).taffy,
            final(self).root == old(self).root,
            final(self).debug_root == old(self).debug_root,
            final(self).depth == old(self).depth,
            final(self).height == old(self).height,
    {
        self.elements.remove(&node)
    }

    /// Broadcasts an input transition to every element.
    pub fn update_input_state(&mut self, state: UIMouseState)
        requires
            old(self).wf(),
        ensures
            final(self).wf(),
            final(self).same_shape(*old(self)),
            final(self).same_hooks(*old(self)),
            forall|n: u64| #[trigger]
                final(self).spec_contains(n) ==> final(self).attributes(n) == old(self).attributes(
                    n,
                ).with_action(state),
            final(self).all_attributes() == broadcast(old(self).all_attributes(), state),
    {
        let mut i: usize = 0;
        while i < self.order.len()
            invariant
                i <= self.order@.len(),
                self.wf(),
                self.same_shape(*old(self)),
                forall|j: int|
                    0 <= j < i ==> {
                        &&& self.elements@[#[trigger] self.order@[j]].attributes@ == old(self).elements@[self.order@[j]].attributes@.with_action(state)
                        &&& self.elements@[self.order@[j]].same_hooks(
                            old(self).elements@[self.order@[j]],
                        )
                    },
                forall|j: int|
                    i <= j < self.order@.len() ==> self.elements@[#[trigger] self.order@[j]] == old(self).elements@[self.order@[j]],
            decreases self.order@.len() - i,
        {
            let node = self.order[i];
            assert(self.order@.to_set().contains(self.order@[i as int]));
            if let Some(mut element) = self.take(node) {
                element.set_action_state(state);
                self.put(node, element);
            }
            i += 1;
        }
    }

    /// Whether the actions of the first `upto` nodes of the insertion order
    /// of `before`, run one after the other, take those elements to what
    /// `self` holds and the shared state from `cxt` to `after`. Each action
    /// finds the shared state as the one before it left it.
    pub open spec fn acted_upto(&self, before: UILayouts, upto: int, cxt: MemState, after: MemState) -> bool
        decreases upto,
    {
        if upto <= 0 {
            after == cxt
        } else {
            exists|mid: MemState|
                self.acted_upto(before, upto - 1, cxt, mid) && #[trigger] before.elements()[before.order()[upto
                    - 1]].executed(mid, self.elements()[before.order()[upto - 1]], after)
        }
    }

    /// Whether `self` is `before` after the actions of a frame have run,
    /// taking the shared state from `cxt` to `after`: the elements have run
    /// their actions in insertion order, each with the shared state as the
    /// one before it left it. So every clicked element is released; an
    /// element without a due callback is otherwise as it was; and if no
    /// element has a due callback the shared state is as it was. The tree,
    /// the boxes and the bindings are untouched.
    pub open spec fn acted_from(&self, before: UILayouts, cxt: MemState, after: MemState) -> bool {
        &&& self.same_shape(before)
        &&& self.same_hooks(before)
        &&& self.acted_upto(before, before.order().len() as int, cxt, after)
        &&& forall|n: u64| #[trigger]
            self.spec_contains(n) ==> {
                &&& before.attributes(n).action_state == UIMouseState::Click ==> self.attributes(
                    n,
                ).action_state == UIMouseState::Release
                &&& !before.elements()[n].due() ==> self.attributes(n) == before.attributes(
                    n,
                ).settled()
            }
        &&& (forall|n: u64| #[trigger] before.spec_contains(n) ==> !before.elements()[n].due())
            ==> after == cxt
    }

    /// Runs, for every element, the callback that its action state calls
    /// for, in insertion order.
    ///
    /// Every clicked element is released. An element without a due callback
    /// is otherwise unchanged, and if no element has one the shared state is
    /// unchanged too.
    /// What the first `upto` actions did is read off the elements of those
    /// nodes alone.
    pub proof fn lemma_acted_frame(s: UILayouts, t: UILayouts, before: UILayouts, upto: int, cxt: MemState, after: MemState)
        requires
            s.acted_upto(before, upto, cxt, after),
            upto <= before.order().len(),
            forall|j: int| 0 <= j < upto ==> t.elements()[#[trigger] before.order()[j]] == s.elements()[before.order()[j]],
        ensures
            t.acted_upto(before, upto, cxt, after),
        decreases upto,
    {
        if upto > 0 {
            let mid = choose|mid: MemState|
                s.acted_upto(before, upto - 1, cxt, mid) && #[trigger] before.elements()[before.order()[upto
                    - 1]].executed(mid, s.elements()[before.order()[upto - 1]], after);
            Self::lemma_acted_frame(s, t, before, upto - 1, cxt, mid);
            assert(t.acted_upto(before, upto - 1, cxt, mid));
        }
    }

    pub fn exc_action(&mut self, context: &mut MemState)
        requires
            old(self).wf(),
        ensures
            final(self).wf(),
            final(self).acted_from(*old(self), *old(context), *final(context)),
    {
        let mut i: usize = 0;
        while i < self.order.len()
            invariant
                i <= self.order@.len(),
                self.wf(),
                self.same_shape(*old(self)),
                self.acted_upto(*old(self), i as int, *old(context), *context),
                forall|j: int|
                    0 <= j < i ==> {
                        &&& old(self).elements@[#[trigger] self.order@[j]].attributes.action_state
                            == UIMouseState::Click ==> self.elements@[self.order@[j]].attributes.action_state
                            == UIMouseState::Release
                        &&& !old(self).elements@[self.order@[j]].due() ==> self.elements@[self.order@[j]].attributes@
                            == old(self).elements@[self.order@[j]].attributes@.settled()
                        &&& self.elements@[self.order@[j]].same_hooks(
                            old(self).elements@[self.order@[j]],
                        )
                    },
                forall|j: int|
                    i <= j < self.order@.len() ==> self.elements@[#[trigger] self.order@[j]] == old(self).elements@[self.order@[j]],
                (forall|j: int|
                    0 <= j < i ==> !old(self).elements@[#[trigger] self.order@[j]].due()) ==> *context
                    == *old(context),
            decreases self.order@.len() - i,
        {
            let node = self.order[i];
            assert(self.order@.to_set().contains(self.order@[i as int]));
            let ghost held = *self;
            let ghost mid = *context;
            if let Some(mut element) = self.take(node) {
                element.execute(context);
                self.put(node, element);
            }
            proof {
                assert(self.order() == old(self).order());
                assert(held.elements()[node] == old(self).elements()[node]);
                assert forall|j: int| 0 <= j < i implies self.elements()[#[trigger] old(self).order()[j]]
                    == held.elements()[old(self).order()[j]] by {
                    assert(self.order@[j] != self.order@[i as int]);
                }
                Self::lemma_acted_frame(held, *self, *old(self), i as int, *old(context), mid);
                assert(self.acted_upto(*old(self), i as int, *old(context), mid));
                assert(old(self).order()[i + 1 - 1] == node);
                assert(old(self).elements()[old(self).order()[i + 1 - 1]].executed(
                    mid,
                    self.elements()[old(self).order()[i + 1 - 1]],
                    *context,
                ));
                assert(self.acted_upto(*old(self), i + 1, *old(context), *context));
            }
            i += 1;
        }
        proof {
            if forall|n: u64| #[trigger]
                old(self).spec_contains(n) ==> !old(self).elements()[n].due() {
                assert forall|j: int| 0 <= j < self.order@.len() implies !old(self).elements@[#[trigger] self.order@[j]].due() by {
                    assert(old(self).spec_contains(self.order@[j]));
                }
            }
        }
    }
}

/// The attributes after `state` is broadcast to every element.
pub open spec fn broadcast(attrs: Map<u64, AttributesView>, state: UIMouseState) -> Map<
    u64,
    AttributesView,
> {
    attrs.map_values(|a: AttributesView| a.with_action(state))
}

/// What a frame gives to every node: the screen origin, and from the
/// shared state the pointer and the ends of the drag in progress.
pub open spec fn frame_of(cxt: MemState, origin: Vec3) -> Frame {
    Frame {
        origin,
        cursor: (cxt.mouse_position.x, cxt.mouse_position.y),
        start: cxt.drag_delta.0,
        current: cxt.drag_delta.1,
    }
}

/// Whether `node` is one of the first `upto` of `kids` or lies below one.
pub open spec fn covered(f: Forest, kids: Seq<u64>, upto: int, node: u64) -> bool {
    exists|j: int| 0 <= j < upto && f.under(#[trigger] kids[j], node)
}

/// Resolves one element: lays it out, hit-tests it, and lets the group it
/// is in overrule it. Returns what the element hands to its children.
fn resolve_element(
    element: &mut Element,
    solved: &Layout,
    screen_layout_origin: Vec3,
    inhert_origin: Vec3,
    cxt: &MemState,
    inherit_render_state: Option<UIMouseState>,
) -> (r: (Vec3, Option<UIMouseState>))
    ensures
        final(element).attributes@ == resolve(
            old(element).attributes@,
            *solved,
            frame_of(*cxt, screen_layout_origin),
            Handed { inherit_origin: inhert_origin, state: inherit_render_state },
        ),
        final(element).same_hooks(*old(element)),
        (Handed { inherit_origin: r.0, state: r.1 }) == hands_down(
            final(element).attributes@,
            *solved,
            Handed { inherit_origin: inhert_origin, state: inherit_render_state },
        ),
{
    reveal(resolve);
    reveal(hands_down);
    element.update_layout(solved, screen_layout_origin, inhert_origin, cxt);
    element.update_render_state((cxt.mouse_position.x, cxt.mouse_position.y), screen_layout_origin);
    let blockstate = match inherit_render_state {
        Some(state) => {
            element.attributes.inherit_render_state(state);
            Some(state)
        },
        None => {
            if element.block_render_state() == UIRenderMode::Group {
                Some(element.attributes.render_state)
            } else {
                None
            }
        },
    };
    let origin_new = Vec3 {
        x: saturate_i64(
            solved.location.x as i64 + element.attributes.anchor_offset.x as i64
                + element.attributes.rubber_offset.x as i64 + inhert_origin.x as i64,
        ),
        y: saturate_i64(
            solved.location.y as i64 - element.attributes.anchor_offset.y as i64
                - element.attributes.rubber_offset.y as i64 + inhert_origin.y as i64,
        ),
        z: inhert_origin.z,
    };
    (origin_new, blockstate)
}

/// A child of `top` is covered by the children up to and including it, and
/// by none before it; nor is anything below it.
proof fn lemma_cover_next(f: Forest, top: u64, kids: Seq<u64>, i: int, n: u64)
    requires
        f.ok(),
        f.contains(top),
        kids == f.children[top],
        0 <= i < kids.len(),
    ensures
        covered(f, kids, i + 1, n) <==> (covered(f, kids, i, n) || f.under(kids[i], n)),
        f.under(kids[i], n) ==> !covered(f, kids, i, n),
        covered(f, kids, i, n) ==> f.below(top, n),
{
    lemma_child(f, top, i);
    if covered(f, kids, i, n) {
        let j = choose|j: int| 0 <= j < i && f.under(#[trigger] kids[j], n);
        lemma_child(f, top, j);
        lemma_under_child_below(f, top, j, n);
    }
}

/// The children of `top` cover exactly what lies below `top`.
proof fn lemma_cover_all(f: Forest, top: u64, kids: Seq<u64>, n: u64)
    requires
        f.ok(),
        f.contains(top),
        kids == f.children[top],
    ensures
        covered(f, kids, kids.len() as int, n) <==> f.below(top, n),
{
    if f.below(top, n) {
        let j = lemma_below_some_child(f, top, n);
    }
    if covered(f, kids, kids.len() as int, n) {
        let j = choose|j: int| 0 <= j < kids.len() && f.under(#[trigger] kids[j], n);
        lemma_under_child_below(f, top, j, n);
    }
}

impl UILayouts {
    /// The attributes of every element.
    pub open spec fn all_attributes(&self) -> Map<u64, AttributesView> {
        Map::new(|n: u64| self.elements().contains_key(n), |n: u64| self.attributes(n))
    }

    /// Resolves every node below `node`, which passes `inhert_origin` and
    /// `inherit_render_state` to its children.
    fn traverse_update(
        &mut self,
        node: u64,
        screen_layout_origin: Vec3,
        inhert_origin: Vec3,
        cxt: &MemState,
        inherit_render_state: Option<UIMouseState>,
        Ghost(pass): Ghost<Pass>,
    ) -> (r: Result<(), LayoutError>)
        requires
            old(self).wf(),
            old(self).spec_contains(node),
            pass.forest == old(self).forest(),
            pass.boxes == old(self).boxes(),
            pass.frame == frame_of(*cxt, screen_layout_origin),
            forall|i: int|
                0 <= i < old(self).forest().children[node].len() ==> pass.handed(
                    #[trigger] old(self).forest().children[node][i],
                    old(self).forest().depth[old(self).forest().children[node][i]],
                ) == (Handed { inherit_origin: inhert_origin, state: inherit_render_state }),
            forall|n: u64| #[trigger]
                old(self).forest().below(node, n) ==> old(self).attributes(n) == pass.before[n],
        ensures
            r is Ok,
            final(self).wf(),
            final(self).same_shape(*old(self)),
            final(self).same_hooks(*old(self)),
            forall|n: u64| #[trigger]
                old(self).forest().below(node, n) ==> final(self).attributes(n) == pass.resolved(n),
            forall|n: u64|
                old(self).spec_contains(n) && !old(self).forest().below(node, n) ==> (
                #[trigger] final(self).elements()[n]) == old(self).elements()[n],
        decreases old(self).forest().height - old(self).forest().depth[node],
    {
        let ghost f = self.forest();
        let kids = child_ids(&self.taffy, node);
        let mut i: usize = 0;
        while i < kids.len()
            invariant
                i <= kids@.len(),
                kids@ == f.children[node],
                f == old(self).forest(),
                f.ok(),
                f.contains(node),
                pass.forest == f,
                pass.boxes == old(self).boxes(),
                pass.frame == frame_of(*cxt, screen_layout_origin),
                forall|k: int|
                    0 <= k < f.children[node].len() ==> pass.handed(
                        #[trigger] f.children[node][k],
                        f.depth[f.children[node][k]],
                    ) == (Handed { inherit_origin: inhert_origin, state: inherit_render_state }),
                forall|n: u64| #[trigger]
                    f.below(node, n) ==> old(self).attributes(n) == pass.before[n],
                self.wf(),
                self.same_shape(*old(self)),
                self.same_hooks(*old(self)),
                forall|n: u64| #[trigger]
                    covered(f, kids@, i as int, n) ==> self.attributes(n) == pass.resolved(n),
                forall|n: u64|
                    f.contains(n) && !covered(f, kids@, i as int, n) ==> (
                    #[trigger] self.elements@[n]) == old(self).elements@[n],
            decreases kids@.len() - i,
        {
            let child = kids[i];
            let ghost entry = *self;
            proof {
                lemma_child(f, node, i as int);
                lemma_cover_next(f, node, kids@, i as int, child);
            }
            let solved = match layout(&self.taffy, child) {
                Ok(solved) => solved,
                Err(_) => {
                    return Err(LayoutError::Solver);
                },
            };
            let mut element = match self.take(child) {
                Some(element) => element,
                None => {
                    return Err(LayoutError::UnknownNode(child));
                },
            };
            let (origin_new, blockstate) = resolve_element(
                &mut element,
                &solved,
                screen_layout_origin,
                inhert_origin,
                cxt,
                inherit_render_state,
            );
            self.put(child, element);
            let ghost mid = *self;
            proof {
                assert forall|k: int| 0 <= k < f.children[child].len() implies pass.handed(
                    #[trigger] f.children[child][k],
                    f.depth[f.children[child][k]],
                ) == (Handed { inherit_origin: origin_new, state: blockstate }) by {
                    lemma_handed_by_parent(pass, self.root, child, k);
                }
                assert forall|n: u64| #[trigger] f.below(child, n) implies mid.attributes(n)
                    == pass.before[n] by {
                    lemma_cover_next(f, node, kids@, i as int, n);
                    lemma_under_child_below(f, node, i as int, n);
                }
            }
            match self.traverse_update(
                child,
                screen_layout_origin,
                origin_new,
                cxt,
                blockstate,
                Ghost(pass),
            ) {
                Ok(_) => {},
                Err(e) => {
                    return Err(e);
                },
            }
            proof {
                assert forall|n: u64| #[trigger]
                    covered(f, kids@, i as int + 1, n) implies self.attributes(n) == pass.resolved(
                    n,
                ) by {
                    lemma_cover_next(f, node, kids@, i as int, n);
                    if covered(f, kids@, i as int, n) {
                        assert(self.elements()[n] == entry.elements()[n]);
                    }
                }
            }
            i += 1;
        }
        proof {
            assert forall|n: u64| #[trigger] f.below(node, n) implies self.attributes(n)
                == pass.resolved(n) by {
                lemma_cover_all(f, node, kids@, n);
            }
            assert forall|n: u64| f.contains(n) && !f.below(node, n) implies (
            #[trigger] self.elements()[n]) == old(self).elements()[n] by {
                lemma_cover_all(f, node, kids@, n);
            }
        }
        Ok(())
    }
}

/// The attributes after the mirror of `content`, if it has one, takes the
/// render state of `content`.
pub open spec fn mirrored(
    attrs: Map<u64, AttributesView>,
    relations: Map<u64, u64>,
    content: u64,
) -> Map<u64, AttributesView> {
    if relations.contains_key(content) && attrs.contains_key(content) && attrs.contains_key(
        relations[content],
    ) {
        attrs.insert(
            relations[content],
            attrs[relations[content]].with_render(attrs[content].render_state),
        )
    } else {
        attrs
    }
}

/// The attributes after every node of `order`, in turn, has passed its
/// render state to its mirror.
pub open spec fn synced(
    attrs: Map<u64, AttributesView>,
    relations: Map<u64, u64>,
    order: Seq<u64>,
) -> Map<u64, AttributesView>
    decreases order.len(),
{
    if order.len() == 0 {
        attrs
    } else {
        mirrored(synced(attrs, relations, order.drop_last()), relations, order.last())
    }
}

/// Whether the records give each content node a mirror of its own: no
/// mirror is itself recorded as a content node, and no two content nodes
/// share a mirror.
pub open spec fn paired(relations: Map<u64, u64>) -> bool {
    &&& forall|k: u64|
        relations.contains_key(k) ==> !relations.contains_key(#[trigger] relations[k])
    &&& forall|j: u64, k: u64|
        relations.contains_key(j) && relations.contains_key(k) && #[trigger] relations[j]
            == #[trigger] relations[k] ==> j == k
}

/// The sync keeps the nodes, and leaves alone every node that is not the
/// mirror of a node of `order`.
pub proof fn lemma_synced_rest(
    attrs: Map<u64, AttributesView>,
    relations: Map<u64, u64>,
    order: Seq<u64>,
    n: u64,
)
    requires
        forall|i: int|
            0 <= i < order.len() && relations.contains_key(#[trigger] order[i])
                ==> relations[order[i]] != n,
    ensures
        synced(attrs, relations, order).dom() == attrs.dom(),
        synced(attrs, relations, order)[n] == attrs[n],
    decreases order.len(),
{
    if order.len() > 0 {
        let rest = order.drop_last();
        assert forall|i: int|
            0 <= i < rest.len() && relations.contains_key(#[trigger] rest[i]) implies relations[rest[i]]
            != n by {
            assert(rest[i] == order[i]);
        }
        lemma_synced_rest(attrs, relations, rest, n);
        assert(order.last() == order[order.len() - 1]);
        assert(synced(attrs, relations, order).dom() =~= attrs.dom());
    }
}

/// Overlay sync: where each content node has a mirror of its own, the
/// sync leaves every mirror of a node of `order` with the render state of
/// its content node, and the content node as it was.
pub proof fn lemma_synced_pairs(
    attrs: Map<u64, AttributesView>,
    relations: Map<u64, u64>,
    order: Seq<u64>,
    content: u64,
)
    requires
        paired(relations),
        order.contains(content),
        relations.contains_key(content),
        attrs.contains_key(content),
        attrs.contains_key(relations[content]),
    ensures
        synced(attrs, relations, order)[relations[content]].render_state
            == attrs[content].render_state,
        synced(attrs, relations, order)[content] == attrs[content],
    decreases order.len(),
{
    assert forall|i: int|
        0 <= i < order.len() && relations.contains_key(#[trigger] order[i]) implies relations[order[i]]
        != content by {
        if relations[order[i]] == content {
            assert(relations.contains_key(relations[order[i]]));
        }
    }
    lemma_synced_rest(attrs, relations, order, content);
    let rest = order.drop_last();
    let mirror = relations[content];
    assert forall|i: int|
        0 <= i < rest.len() && relations.contains_key(#[trigger] rest[i]) implies relations[rest[i]]
        != content by {
        assert(rest[i] == order[i]);
    }
    lemma_synced_rest(attrs, relations, rest, content);
    if order.last() != content {
        let i = choose|i: int| 0 <= i < order.len() && order[i] == content;
        assert(rest[i] == content);
        lemma_synced_pairs(attrs, relations, rest, content);
        if relations.contains_key(order.last()) {
            assert(relations[order.last()] != mirror);
        }
    }
}

impl UILayouts {
    /// Whether `self` has the tree and the overlay records of `before`, and
    /// an element for the same nodes.
    pub open spec fn same_tree(&self, before: UILayouts) -> bool {
        &&& self.forest() == before.forest()
        &&& self.order() == before.order()
        &&& self.relations() == before.relations()
        &&& self.spec_root() == before.spec_root()
        &&& self.spec_debug_root() == before.spec_debug_root()
        &&& self.elements().dom() == before.elements().dom()
    }

    /// The pass that takes the engine from `before` to `self` in a frame
    /// with shared state `cxt` and screen origin `origin`.
    pub open spec fn pass_from(&self, before: UILayouts, cxt: MemState, origin: Vec3) -> Pass {
        Pass {
            forest: before.forest(),
            boxes: self.boxes(),
            before: before.all_attributes(),
            frame: frame_of(cxt, origin),
        }
    }

    /// The attributes that the traversal of a pass leaves: the root as it
    /// was, every other node resolved.
    pub open spec fn traversed(root: u64, pass: Pass) -> Map<u64, AttributesView> {
        Map::new(
            |n: u64| pass.before.contains_key(n),
            |n: u64|
                if n == root {
                    pass.before[n]
                } else {
                    pass.resolved(n)
                },
        )
    }

    /// Whether `self` is `before` after one update pass without a change of
    /// the tree: the root has a child; it and the root are sized to the
    /// viewport; the solver has laid the tree out; every node but the root
    /// is resolved against its new box; and after that every mirror has
    /// taken the render state of its content node.
    pub open spec fn resolved_from(&self, before: UILayouts, cxt: MemState, origin: Vec3) -> bool {
        &&& before.forest().children[before.spec_root()].len() > 0
        &&& self.same_tree(before) && self.styles() == before.sized_styles(origin)
        &&& self.same_hooks(before)
        &&& self.all_attributes() == synced(
            Self::traversed(before.spec_root(), self.pass_from(before, cxt, origin)),
            before.relations(),
            before.order(),
        )
    }

    /// Overlay sync in the engine: where each content node has a mirror of
    /// its own, every recorded mirror comes out of an update pass with the
    /// render state that its content node comes out with.
    pub proof fn lemma_mirrors_agree(
        after: UILayouts,
        before: UILayouts,
        cxt: MemState,
        origin: Vec3,
        content: u64,
    )
        requires
            before.wf(),
            after.resolved_from(before, cxt, origin),
            paired(before.relations()),
            before.relations().contains_key(content),
            before.spec_contains(content),
            before.spec_contains(before.relations()[content]),
        ensures
            after.attributes(before.relations()[content]).render_state == after.attributes(
                content,
            ).render_state,
    {
        let pass = after.pass_from(before, cxt, origin);
        let attrs = Self::traversed(before.spec_root(), pass);
        let mirror = before.relations()[content];
        assert(before.order().to_set().contains(content));
        lemma_synced_pairs(attrs, before.relations(), before.order(), content);
        assert(after.all_attributes()[content] == after.attributes(content));
        assert(after.all_attributes()[mirror] == after.attributes(mirror));
    }

    /// Sets the size of `node` in the solver, each side held to what the solver holds whole.
    fn set_node_size(&mut self, node: u64, width: i32, height: i32) -> (r: Result<(), LayoutError>)
        requires
            old(self).wf(),
            old(self).spec_contains(node),
        ensures
            r is Ok,
            final(self).wf(),
            final(self).same_tree(*old(self)),
            final(self).elements() == old(self).elements(),
            final(self).styles() == old(self).styles().insert(
                node,
                crate::solver::with_size(
                    old(self).styles()[node],
                    crate::solver::held(width as int) as i32,
                    crate::solver::held(height as int) as i32,
                ),
            ),
    {
        proof {
            lemma_climbs(self.forest(), node);
        }
        match set_size(&mut self.taffy, node, hold(width), hold(height)) {
            Ok(_) => Ok(()),
            Err(_) => Err(LayoutError::Solver),
        }
    }

    /// The style that the solver holds for each node.
    pub closed spec fn styles(&self) -> Map<u64, FlexStyle> {
        tree_styles(self.taffy)
    }

    /// The styles once the root and the first child of the root are sized
    /// to the viewport whose top-left corner is `origin`: both sides twice
    /// the distance of the corner from the centre, held to the lengths that
    /// the solver holds as they are. Every other style is as it was, and
    /// so is everything but the size in these two.
    pub open spec fn sized_styles(&self, origin: Vec3) -> Map<u64, FlexStyle> {
        let width = crate::solver::held(saturate(-2 * origin.x)) as i32;
        let height = crate::solver::held(saturate(2 * origin.y)) as i32;
        let root = self.spec_root();
        let rooted = self.styles().insert(
            root,
            crate::solver::with_size(self.styles()[root], width, height),
        );
        let first = self.forest().children[root][0];
        rooted.insert(first, crate::solver::with_size(rooted[first], width, height))
    }

    /// Passes the render state of each node to its mirror, in insertion
    /// order. A record whose mirror is gone is passed over.
    fn sync_overlay(&mut self)
        requires
            old(self).wf(),
        ensures
            final(self).wf(),
            final(self).same_shape(*old(self)),
            final(self).same_hooks(*old(self)),
            final(self).all_attributes() == synced(
                old(self).all_attributes(),
                old(self).relations(),
                old(self).order(),
            ),
    {
        let mut i: usize = 0;
        assert(self.order@.take(0) =~= Seq::<u64>::empty());
        while i < self.order.len()
            invariant
                i <= self.order@.len(),
                self.wf(),
                self.same_shape(*old(self)),
                self.same_hooks(*old(self)),
                self.all_attributes() == synced(
                    old(self).all_attributes(),
                    old(self).relations(),
                    old(self).order().take(i as int),
                ),
            decreases self.order@.len() - i,
        {
            let content = self.order[i];
            proof {
                let upto = self.order@.take(i as int + 1);
                assert(upto.drop_last() =~= self.order@.take(i as int));
            }
            let mirror = match self.debuge_relations.get(&content) {
                Some(mirror) => Some(*mirror),
                None => None,
            };
            let shown = match self.elements.get(&content) {
                Some(element) => Some(element.attributes.render_state),
                None => None,
            };
            match (mirror, shown) {
                (Some(mirror), Some(state)) => {
                    if self.elements.contains_key(&mirror) {
                        if let Some(mut element) = self.take(mirror) {
                            element.set_render_state(state);
                            self.put(mirror, element);
                        }
                    }
                },
                _ => {},
            }
            i += 1;
        }
        assert(self.order@.take(self.order@.len() as int) =~= self.order@);
    }

    /// One update pass over the tree as it stands: sizes the root and the
    /// first child of the root to the viewport, has the solver lay the tree
    /// out, resolves every node, and brings the overlay in line.
    fn update_pass(&mut self, context: &MemState, screen_layout_origin: Vec3) -> (r: Result<
        (),
        LayoutError,
    >)
        requires
            old(self).wf(),
            old(self).forest().children[old(self).spec_root()].len() > 0,
        ensures
            r is Ok,
            final(self).wf(),
            final(self).resolved_from(*old(self), *context, screen_layout_origin),
            old(self).mirrors_apart() ==> final(self).mirrors_apart(),
    {
        let x: i64 = screen_layout_origin.x as i64;
        let y: i64 = screen_layout_origin.y as i64;
        let width = saturate_i64(-x - x);
        let height = saturate_i64(y + y);
        let root = self.root;
        match self.set_node_size(root, width, height) {
            Ok(_) => {},
            Err(e) => {
                return Err(e);
            },
        }
        let kids = child_ids(&self.taffy, root);
        proof {
            lemma_child(self.forest(), root, 0);
        }
        match self.set_node_size(kids[0], width, height) {
            Ok(_) => {},
            Err(e) => {
                return Err(e);
            },
        }
        proof {
            lemma_descends(self.forest(), root);
        }
        match compute_layout(&mut self.taffy, root) {
            Ok(_) => {},
            Err(_) => {
                return Err(LayoutError::Solver);
            },
        }
        let ghost pass = Pass {
            forest: self.forest(),
            boxes: self.boxes(),
            before: self.all_attributes(),
            frame: frame_of(*context, screen_layout_origin),
        };
        proof {
            assert(pass == self.pass_from(*old(self), *context, screen_layout_origin)) by {
                assert(self.all_attributes() =~= old(self).all_attributes());
            }
            assert forall|i: int| 0 <= i < self.forest().children[root].len() implies pass.handed(
                #[trigger] self.forest().children[root][i],
                self.forest().depth[self.forest().children[root][i]],
            ) == top() by {
                lemma_handed_by_root(pass, root, i);
            }
        }
        match self.traverse_update(
            root,
            screen_layout_origin,
            Vec3::zero(),
            context,
            None,
            Ghost(pass),
        ) {
            Ok(_) => {},
            Err(e) => {
                return Err(e);
            },
        }
        proof {
            assert(self.all_attributes() =~= Self::traversed(root, pass)) by {
                assert forall|n: u64| self.elements().contains_key(n) implies self.attributes(n)
                    == Self::traversed(root, pass)[n] by {
                    if n != root {
                        lemma_all_under_root(self.forest(), root, n);
                    }
                }
            }
        }
        self.sync_overlay();
        proof {
            if old(self).mirrors_apart() {
                self.lemma_apart_kept(*old(self));
            }
        }
        Ok(())
    }
}

/// The painter after the nodes `kids` and everything below them are drawn
/// in order, each node before its children. `levels` bounds the levels of
/// the tree from `kids` down.
pub open spec fn painted(
    f: Forest,
    attrs: Map<u64, AttributesView>,
    kids: Seq<u64>,
    p: PainterView,
    levels: nat,
) -> PainterView
    decreases levels, kids.len(),
{
    if kids.len() == 0 {
        p
    } else {
        let before = painted(f, attrs, kids.drop_last(), p, levels);
        let own = attrs[kids.last()].drawn(before);
        if levels == 0 {
            own
        } else {
            painted(f, attrs, f.children[kids.last()], own, (levels - 1) as nat)
        }
    }
}

/// `v` one layer down.
pub open spec fn lowered(v: Vec3) -> Vec3 {
    Vec3 { z: saturate(v.z - 1) as i32, ..v }
}

/// The painter after the mirror anchored at `from` is connected to the
/// mirror of each of `kids` that has one.
pub open spec fn connected(
    attrs: Map<u64, AttributesView>,
    relations: Map<u64, u64>,
    from: Vec3,
    kids: Seq<u64>,
    p: PainterView,
) -> PainterView
    decreases kids.len(),
{
    if kids.len() == 0 {
        p
    } else {
        let before = connected(attrs, relations, from, kids.drop_last(), p);
        let kid = kids.last();
        if relations.contains_key(kid) && attrs.contains_key(relations[kid]) {
            Curve::new_spec(lowered(from), lowered(attrs[relations[kid]].layout_anchor)).drawn(
                before,
            )
        } else {
            before
        }
    }
}

/// The painter after the mirror of every node of `order` is connected to
/// the mirrors of the node's children.
pub open spec fn wired(
    f: Forest,
    attrs: Map<u64, AttributesView>,
    relations: Map<u64, u64>,
    order: Seq<u64>,
    p: PainterView,
) -> PainterView
    decreases order.len(),
{
    if order.len() == 0 {
        p
    } else {
        let before = wired(f, attrs, relations, order.drop_last(), p);
        let content = order.last();
        if relations.contains_key(content) && attrs.contains_key(relations[content]) {
            connected(
                attrs,
                relations,
                attrs[relations[content]].layout_anchor,
                f.children[content],
                before,
            )
        } else {
            before
        }
    }
}

fn lower(v: Vec3) -> (r: Vec3)
    ensures
        r == lowered(v),
{
    Vec3 { x: v.x, y: v.y, z: saturate_i64(v.z as i64 - 1) }
}

impl UILayouts {
    /// The painter after a frame is drawn: every node but the root in tree
    /// order, then, in black and from the origin, the connectors of the
    /// overlay.
    pub open spec fn drawn(&self, p: PainterView) -> PainterView {
        let nodes = painted(
            self.forest(),
            self.all_attributes(),
            self.forest().children[self.spec_root()],
            p,
            self.forest().height,
        );
        wired(
            self.forest(),
            self.all_attributes(),
            self.relations(),
            self.order(),
            nodes.with_translation(Vec3::spec_zero()).with_color(Srgba::spec_black()),
        ).with_translation(Vec3::spec_zero())
    }

    /// Draws every node below `node`, each before its children.
    fn traverse_draw(&self, node: u64, painter: &mut Painter)
        requires
            self.wf(),
            self.spec_contains(node),
        ensures
            final(painter)@ == painted(
                self.forest(),
                self.all_attributes(),
                self.forest().children[node],
                old(painter)@,
                (self.forest().height - self.forest().depth[node]) as nat,
            ),
        decreases self.forest().height - self.forest().depth[node],
    {
        let ghost f = self.forest();
        let ghost levels = (f.height - f.depth[node]) as nat;
        let kids = child_ids(&self.taffy, node);
        let mut i: usize = 0;
        assert(kids@.take(0) =~= Seq::<u64>::empty());
        while i < kids.len()
            invariant
                i <= kids@.len(),
                kids@ == f.children[node],
                f == self.forest(),
                levels == (f.height - f.depth[node]) as nat,
                self.wf(),
                self.spec_contains(node),
                painter@ == painted(
                    f,
                    self.all_attributes(),
                    kids@.take(i as int),
                    old(painter)@,
                    levels,
                ),
            decreases kids@.len() - i,
        {
            let child = kids[i];
            proof {
                lemma_child(f, node, i as int);
                let upto = kids@.take(i as int + 1);
                assert(upto.drop_last() =~= kids@.take(i as int));
            }
            if let Some(element) = self.elements.get(&child) {
                element.draw(painter);
            }
            self.traverse_draw(child, painter);
            i += 1;
        }
        assert(kids@.take(kids@.len() as int) =~= kids@);
    }

    /// Connects the mirror anchored at `from` to the mirrors of `kids`.
    fn connect(&self, from: Vec3, kids: &Vec<u64>, painter: &mut Painter)
        requires
            self.wf(),
        ensures
            final(painter)@ == connected(
                self.all_attributes(),
                self.relations(),
                from,
                kids@,
                old(painter)@,
            ),
    {
        let mut i: usize = 0;
        assert(kids@.take(0) =~= Seq::<u64>::empty());
        while i < kids.len()
            invariant
                i <= kids@.len(),
                self.wf(),
                painter@ == connected(
                    self.all_attributes(),
                    self.relations(),
                    from,
                    kids@.take(i as int),
                    old(painter)@,
                ),
            decreases kids@.len() - i,
        {
            let kid = kids[i];
            proof {
                let upto = kids@.take(i as int + 1);
                assert(upto.drop_last() =~= kids@.take(i as int));
            }
            if let Some(mirror) = self.debuge_relations.get(&kid) {
                if let Some(element) = self.elements.get(mirror) {
                    Curve::new(lower(from), lower(element.attributes.layout_anchor)).draw(painter);
                }
            }
            i += 1;
        }
        assert(kids@.take(kids@.len() as int) =~= kids@);
    }

    /// Draws the connectors of the overlay: from the mirror of each node to
    /// the mirrors of its children.
    fn draw_tree(&self, painter: &mut Painter)
        requires
            self.wf(),
        ensures
            final(painter)@ == wired(
                self.forest(),
                self.all_attributes(),
                self.relations(),
                self.order(),
                old(painter)@.with_translation(Vec3::spec_zero()).with_color(Srgba::spec_black()),
            ).with_translation(Vec3::spec_zero()),
    {
        painter.set_translation(Vec3::zero());
        painter.set_color(Srgba::black());
        let ghost start = painter@;
        let mut i: usize = 0;
        assert(self.order@.take(0) =~= Seq::<u64>::empty());
        while i < self.order.len()
            invariant
                i <= self.order@.len(),
                self.wf(),
                painter@ == wired(
                    self.forest(),
                    self.all_attributes(),
                    self.relations(),
                    self.order@.take(i as int),
                    start,
                ),
            decreases self.order@.len() - i,
        {
            let content = self.order[i];
            proof {
                let upto = self.order@.take(i as int + 1);
                assert(upto.drop_last() =~= self.order@.take(i as int));
            }
            if let Some(mirror) = self.debuge_relations.get(&content) {
                if let Some(element) = self.elements.get(mirror) {
                    let from = element.attributes.layout_anchor;
                    let kids = child_ids(&self.taffy, content);
                    self.connect(from, &kids, painter);
                }
            }
            i += 1;
        }
        assert(self.order@.take(self.order@.len() as int) =~= self.order@);
        painter.set_translation(Vec3::zero());
    }

    /// Draws the frame onto `painter`.
    pub fn draw(&self, painter: &mut Painter)
        requires
            self.wf(),
        ensures
            final(painter)@ == self.drawn(old(painter)@),
    {
        self.traverse_draw(self.root, painter);
        self.draw_tree(painter);
    }
}

/// The attributes of the label that mirrors a content node: a black
/// rounded rectangle, centred in its group if the content node has children.
pub open spec fn overlay_label(id: i64, branches: bool) -> AttributesView {
    let plain = AttributesView {
        tile: "rectangle"@,
        color: Srgba::spec_black(),
        round: Vec4 { x: 5, y: 5, z: 5, w: 5 },
        layout_size: Vec2 { x: 100, y: 50 },
        margin: Vec4 { x: 10, y: 10, z: 10, w: 10 },
        shape: Some(
            ShapeView::Rectangle(
                Rectangle { round: Vec4 { x: 5, y: 5, z: 5, w: 5 }, size: Vec2 { x: 100, y: 50 } },
            ),
        ),
        ..AttributesView::fresh(id)
    };
    if branches {
        AttributesView {
            self_main_axis_alignment: AlignItems::Center,
            self_cors_axis_alignment: AlignItems::Center,
            ..plain
        }
    } else {
        plain
    }
}

/// The attributes of the text on a label: the title of the content node.
pub open spec fn overlay_text(id: i64, tile: Seq<char>) -> AttributesView {
    AttributesView {
        tile: "text content"@,
        layout_size: Vec2 { x: 100, y: 20 },
        shape: Some(
            ShapeView::Text(
                TextView { size: Vec2 { x: 100, y: 20 }, font_size: 20, ..TextView::fresh(tile) },
            ),
        ),
        self_main_axis_alignment: AlignItems::Center,
        self_cors_axis_alignment: AlignItems::Center,
        ..AttributesView::fresh(id)
    }
}

/// The attributes of the column that holds a label above the row of its
/// children's mirrors.
pub open spec fn overlay_column(id: i64) -> AttributesView {
    AttributesView {
        tile: "rectangle"@,
        color: spec_red_400(),
        round: Vec4 { x: 5, y: 5, z: 5, w: 5 },
        shape: Some(
            ShapeView::Rectangle(
                Rectangle { round: Vec4 { x: 5, y: 5, z: 5, w: 5 }, size: Vec2::spec_zero() },
            ),
        ),
        flex_direction: FlexDirection::Column,
        ..AttributesView::fresh(id)
    }
}

/// The attributes of the row that holds the mirrors of a node's children.
pub open spec fn overlay_row(id: i64) -> AttributesView {
    AttributesView {
        tile: "rectangle"@,
        color: spec_green_200(),
        round: Vec4 { x: 5, y: 5, z: 5, w: 5 },
        shape: Some(
            ShapeView::Rectangle(
                Rectangle { round: Vec4 { x: 5, y: 5, z: 5, w: 5 }, size: Vec2::spec_zero() },
            ),
        ),
        main_axis_alignment: AlignItems::Center,
        ..AttributesView::fresh(id)
    }
}

fn make_label(branches: bool) -> (r: Element)
    ensures
        r.attributes@ == overlay_label(r.attributes.id, branches),
        r.unbound(),
{
    let plain = rectangle().round(5).size(Vec2::new(100, 50)).margin(Vec4::new(10, 10, 10, 10)).color(
        Srgba::black(),
    );
    if branches {
        plain.self_horizontal_alignment(AlignItems::Center).self_vertical_alignment(
            AlignItems::Center,
        )
    } else {
        plain
    }
}

fn make_text(tile: &str) -> (r: Element)
    ensures
        r.attributes@ == overlay_text(r.attributes.id, tile@),
        r.unbound(),
{
    text(tile).size(Vec2::new(100, 20)).self_horizontal_alignment(
        AlignItems::Center,
    ).self_vertical_alignment(AlignItems::Center)
}

fn make_column() -> (r: Element)
    ensures
        r.attributes@ == overlay_column(r.attributes.id),
        r.unbound(),
{
    rectangle().round(5).color(red_400()).direction(FlexDirection::Column)
}

fn make_row() -> (r: Element)
    ensures
        r.attributes@ == overlay_row(r.attributes.id),
        r.unbound(),
{
    rectangle().round(5).color(green_200()).horizontal_alignment(AlignItems::Center)
}

/// The children of `c` that the walk that mirrors the tree comes to: all
/// but the overlay root.
pub open spec fn shown_kids(f: Forest, overlay: Option<u64>, c: u64) -> Seq<u64> {
    shown(f.children[c], overlay)
}

/// The nodes of `list` other than the overlay root.
pub open spec fn shown(list: Seq<u64>, overlay: Option<u64>) -> Seq<u64> {
    match overlay {
        Some(d) => without(list, d),
        None => list,
    }
}

/// A shown child of a node the walk comes to is a child of that node, and
/// the walk comes to it.
proof fn lemma_shown_kid(f: Forest, overlay: Option<u64>, c: u64, i: int)
    requires
        f.ok(),
        f.contains(c),
        0 <= i < shown_kids(f, overlay, c).len(),
        overlay is Some ==> !f.under(overlay->0, c),
    ensures
        f.children[c].contains(shown_kids(f, overlay, c)[i]),
        f.contains(shown_kids(f, overlay, c)[i]),
        Some(shown_kids(f, overlay, c)[i]) != overlay,
        overlay is Some ==> !f.under(overlay->0, shown_kids(f, overlay, c)[i]),
        f.depth[shown_kids(f, overlay, c)[i]] == f.depth[c] + 1,
        f.depth[shown_kids(f, overlay, c)[i]] < f.height,
{
    let kids = shown_kids(f, overlay, c);
    let kid = kids[i];
    if overlay is Some {
        crate::forest::lemma_without(f.children[c], overlay->0);
    }
    assert(f.children[c].contains(kid));
    let j = choose|j: int| 0 <= j < f.children[c].len() && f.children[c][j] == kid;
    lemma_child(f, c, j);
}

/// Whether the walk that mirrors the tree from `top` down comes to `node`:
/// `node` is `top` or lies below it, but not at or below the overlay root.
pub open spec fn mirrored_from(f: Forest, overlay: Option<u64>, top: u64, node: u64) -> bool {
    f.under(top, node) && (overlay is Some ==> !f.under(overlay->0, node))
}

impl UILayouts {
    /// Whether the overlay is due: there is an overlay root and it has no
    /// children yet.
    pub open spec fn overlay_due(&self) -> bool {
        self.spec_debug_root() is Some && self.forest().children[self.spec_debug_root()->0].len()
            == 0
    }

    /// Whether `self` still has every node of `before`, with its element,
    /// its style, its parent, its depth and, first among its children, the
    /// children it had, and the same root.
    pub open spec fn keeps(&self, before: UILayouts) -> bool {
        &&& self.spec_root() == before.spec_root()
        &&& forall|n: u64| #[trigger]
            before.spec_contains(n) ==> {
                &&& self.spec_contains(n)
                &&& self.elements()[n] == before.elements()[n]
                &&& self.forest().parents[n] == before.forest().parents[n]
                &&& self.forest().depth[n] == before.forest().depth[n]
                &&& before.forest().children[n].is_prefix_of(self.forest().children[n])
                &&& self.styles()[n] == before.styles()[n]
            }
    }

    /// Whether every node of `before` but the overlay root has the children
    /// in `self` that it has in `before`.
    pub open spec fn keeps_content(&self, before: UILayouts) -> bool {
        forall|n: u64| #[trigger]
            before.spec_contains(n) && Some(n) != before.spec_debug_root()
                ==> self.forest().children[n] == before.forest().children[n]
    }

    /// Whether `c` is recorded with a mirror that is a node of `self`, was
    /// no node of `before`, and carries a label.
    pub open spec fn has_new_mirror(&self, before: UILayouts, c: u64) -> bool {
        &&& self.relations().contains_key(c)
        &&& self.spec_contains(self.relations()[c])
        &&& !before.spec_contains(self.relations()[c])
        &&& exists|branches: bool|
            self.attributes(self.relations()[c]) == overlay_label(
                self.attributes(self.relations()[c]).id,
                branches,
            )
    }

    /// Whether `self` records for `c` what `before` records.
    pub open spec fn same_record(&self, before: UILayouts, c: u64) -> bool {
        &&& self.relations().contains_key(c) == before.relations().contains_key(c)
        &&& self.relations().contains_key(c) ==> self.relations()[c] == before.relations()[c]
    }


    /// Whether every recorded mirror is a node of the tree and the mirror
    /// of one content node only.
    #[verifier::opaque]
    pub open spec fn mirrors_apart(&self) -> bool {
        &&& forall|k: u64|
            self.relations().contains_key(k) ==> self.spec_contains(#[trigger] self.relations()[k])
        &&& forall|j: u64, k: u64|
            self.relations().contains_key(j) && self.relations().contains_key(k)
                && #[trigger] self.relations()[j] == #[trigger] self.relations()[k] ==> j == k
    }

    /// Mirrors stay apart while the records stay and no node leaves.
    pub proof fn lemma_apart_kept(&self, before: UILayouts)
        requires
            before.mirrors_apart(),
            self.relations() == before.relations(),
            forall|n: u64| before.spec_contains(n) ==> self.spec_contains(n),
        ensures
            self.mirrors_apart(),
    {
        reveal(UILayouts::mirrors_apart);
    }

    /// Records `mirror` as the mirror of `content`.
    fn record(&mut self, content: u64, mirror: u64)
        requires
            old(self).wf(),
        ensures
            old(self).mirrors_apart() && old(self).spec_contains(mirror) && (forall|k: u64|
                old(self).relations().contains_key(k) ==> #[trigger] old(self).relations()[k]
                    != mirror) ==> final(self).mirrors_apart(),
            final(self).wf(),
            final(self).relations() == old(self).relations().insert(content, mirror),
            final(self).forest() == old(self).forest(),
            final(self).elements() == old(self).elements(),
            final(self).boxes() == old(self).boxes(),
            final(self).order() == old(self).order(),
            final(self).spec_root() == old(self).spec_root(),
            final(self).spec_debug_root() == old(self).spec_debug_root(),
            final(self).keeps(*old(self)),
    {
        self.debuge_relations.insert(content, mirror);
        proof {
            reveal(UILayouts::mirrors_apart);
            if old(self).mirrors_apart() && old(self).spec_contains(mirror) && (forall|k: u64|
                old(self).relations().contains_key(k) ==> #[trigger] old(self).relations()[k]
                    != mirror) {
                let was = old(self).relations();
                let now = self.relations();
                assert forall|k: u64| now.contains_key(k) implies self.spec_contains(
                    #[trigger] now[k],
                ) by {
                    if k != content {
                        assert(now[k] == was[k]);
                    }
                }
                assert forall|j: u64, k: u64|
                    now.contains_key(j) && now.contains_key(k) && #[trigger] now[j]
                        == #[trigger] now[k] implies j == k by {
                    if j != content {
                        assert(now[j] == was[j]);
                    }
                    if k != content {
                        assert(now[k] == was[k]);
                    }
                }
            }
        }
    }

    /// Whether `self` is `before` with nodes added under `parent` or under
    /// new nodes only: every node of `before` is kept with its element, and
    /// every one but `parent` with exactly its children.
    pub open spec fn only_grew_at(&self, before: UILayouts, parent: u64) -> bool {
        &&& self.keeps(before)
        &&& forall|n: u64|
            before.spec_contains(n) && n != parent ==> (#[trigger] self.forest().children[n])
                == before.forest().children[n]
    }

    /// Whether the overlay node `m`, new since `base`, carries the label
    /// of a content node titled `tile`: a label element whose one child is
    /// the text of the title.
    pub open spec fn labelled(&self, base: UILayouts, m: u64, branches: bool, tile: Seq<char>) -> bool {
        let words = self.forest().children[m][0];
        &&& self.spec_contains(m)
        &&& !base.spec_contains(m)
        &&& self.attributes(m) == overlay_label(self.attributes(m).id, branches)
        &&& self.forest().children[m].len() == 1
        &&& self.spec_contains(words)
        &&& !base.spec_contains(words)
        &&& self.attributes(words) == overlay_text(self.attributes(words).id, tile)
        &&& self.forest().children[words].len() == 0
    }

    /// Whether the mirror of the content node `c` of `start`, and of what
    /// lies below it, stands at the overlay node `slot`, on nodes new since
    /// `base`.
    ///
    /// A content node without children is mirrored by its label. One with
    /// children is mirrored by a column of two: its label, and a row that
    /// holds, in order, the mirrors of its children other than the overlay
    /// root. Either way the label is recorded as the mirror of `c`.
    /// `levels` bounds the levels of the tree from `c` down.
    pub open spec fn mirrored_at(
        &self,
        start: UILayouts,
        base: UILayouts,
        c: u64,
        slot: u64,
        levels: nat,
    ) -> bool
        decreases levels,
    {
        let tile = start.attributes(c).tile;
        let kids = shown_kids(start.forest(), start.spec_debug_root(), c);
        let row = self.forest().children[slot][1];
        &&& self.relations().contains_key(c)
        &&& if start.forest().children[c].len() == 0 {
            &&& self.relations()[c] == slot
            &&& self.labelled(base, slot, false, tile)
        } else {
            &&& self.spec_contains(slot)
            &&& !base.spec_contains(slot)
            &&& self.attributes(slot) == overlay_column(self.attributes(slot).id)
            &&& self.forest().children[slot].len() == 2
            &&& self.relations()[c] == self.forest().children[slot][0]
            &&& self.labelled(base, self.relations()[c], true, tile)
            &&& self.spec_contains(row)
            &&& !base.spec_contains(row)
            &&& self.attributes(row) == overlay_row(self.attributes(row).id)
            &&& self.forest().children[row].len() == kids.len()
            &&& kids.len() > 0 ==> levels > 0
            &&& forall|i: int|
                0 <= i < kids.len() ==> self.mirrored_at(
                    start,
                    base,
                    #[trigger] kids[i],
                    self.forest().children[row][i],
                    (levels - 1) as nat,
                )
        }
    }


    /// A mirror that stands in one state stands in a later one that has
    /// changed no node outside `base` and no record of the content nodes it
    /// mirrors.
    proof fn lemma_mirror_stays(
        s: UILayouts,
        t: UILayouts,
        start: UILayouts,
        base: UILayouts,
        parent: u64,
        c: u64,
        slot: u64,
        levels: nat,
    )
        requires
            s.mirrored_at(start, base, c, slot, levels),
            t.only_grew_at(s, parent),
            base.spec_contains(parent),
            start.wf(),
            start.spec_contains(c),
            forall|x: u64| #[trigger]
                mirrored_from(start.forest(), start.spec_debug_root(), c, x) ==> t.same_record(
                    s,
                    x,
                ),
            start.spec_debug_root() is Some ==> !start.forest().under(
                start.spec_debug_root()->0,
                c,
            ),
        ensures
            t.mirrored_at(start, base, c, slot, levels),
        decreases levels,
    {
        let a = start.forest();
        let d = start.spec_debug_root();
        assert(mirrored_from(a, d, c, c));
        if a.children[c].len() != 0 {
            let kids = shown_kids(a, d, c);
            let row = s.forest().children[slot][1];
            assert forall|i: int| 0 <= i < kids.len() implies t.mirrored_at(
                start,
                base,
                #[trigger] kids[i],
                t.forest().children[row][i],
                (levels - 1) as nat,
            ) by {
                let kid = kids[i];
                lemma_shown_kid(a, d, c, i);
                assert forall|x: u64| #[trigger] mirrored_from(a, d, kid, x) implies t.same_record(
                    s,
                    x,
                ) by {
                    let j = choose|j: int| 0 <= j < a.children[c].len() && a.children[c][j] == kid;
                    lemma_under_child_below(a, c, j, x);
                    assert(mirrored_from(a, d, c, x));
                }
                Self::lemma_mirror_stays(
                    s,
                    t,
                    start,
                    base,
                    parent,
                    kid,
                    s.forest().children[row][i],
                    (levels - 1) as nat,
                );
            }
        }
    }

    /// A mirror on nodes new since one state is on nodes new since any
    /// state that state has grown from.
    proof fn lemma_mirror_rebase(
        s: UILayouts,
        start: UILayouts,
        base: UILayouts,
        earlier: UILayouts,
        c: u64,
        slot: u64,
        levels: nat,
    )
        requires
            s.mirrored_at(start, base, c, slot, levels),
            forall|n: u64| #[trigger] earlier.spec_contains(n) ==> base.spec_contains(n),
        ensures
            s.mirrored_at(start, earlier, c, slot, levels),
        decreases levels,
    {
        let a = start.forest();
        let kids = shown_kids(a, start.spec_debug_root(), c);
        if a.children[c].len() != 0 {
            let row = s.forest().children[slot][1];
            assert forall|i: int| 0 <= i < kids.len() implies s.mirrored_at(
                start,
                earlier,
                #[trigger] kids[i],
                s.forest().children[row][i],
                (levels - 1) as nat,
            ) by {
                Self::lemma_mirror_rebase(
                    s,
                    start,
                    base,
                    earlier,
                    kids[i],
                    s.forest().children[row][i],
                    (levels - 1) as nat,
                );
            }
        }
    }



    /// Puts the label of the content node `node` under the overlay node
    /// `parent` and records it as the mirror of `node`.
    fn push_label(
        &mut self,
        node: u64,
        parent: u64,
        branches: bool,
        Ghost(start): Ghost<UILayouts>,
    ) -> (r: Result<u64, LayoutError>)
        requires
            old(self).wf(),
            start.wf(),
            old(self).keeps(start),
            old(self).keeps_content(start),
            old(self).spec_debug_root() == start.spec_debug_root(),
            start.spec_contains(node),
            old(self).spec_contains(parent),
            Some(parent) == start.spec_debug_root() || !start.spec_contains(parent),
        ensures
            r is Ok,
            final(self).wf(),
            final(self).spec_debug_root() == old(self).spec_debug_root(),
            final(self).keeps(start),
            final(self).keeps_content(start),
            final(self).only_grew_at(*old(self), parent),
            old(self).height@ <= final(self).height@,
            final(self).forest().children[parent] == old(self).forest().children[parent].push(
                r->Ok_0,
            ),
            final(self).relations() == old(self).relations().insert(node, r->Ok_0),
            final(self).labelled(*old(self), r->Ok_0, branches, start.attributes(node).tile),
            old(self).mirrors_apart() ==> final(self).mirrors_apart(),
    {
        let self_node = match self.push_overlay(make_label(branches), parent, Ghost(start)) {
            Ok(self_node) => self_node,
            Err(e) => {
                return Err(e);
            },
        };
        proof {
            if old(self).mirrors_apart() {
                assert forall|k: u64| self.relations().contains_key(k) implies #[trigger] self.relations()[k]
                    != self_node by {
                    reveal(UILayouts::mirrors_apart);
                }
            }
        }
        self.record(node, self_node);
        let label = match self.elements.get(&node) {
            Some(element) => make_text(element.attributes.tile.as_str()),
            None => make_text(""),
        };
        match self.push_overlay(label, self_node, Ghost(start)) {
            Ok(_) => Ok(self_node),
            Err(e) => Err(e),
        }
    }

    /// Inserts an overlay element under the overlay node `parent`.
    fn push_overlay(&mut self, element: Element, parent: u64, Ghost(start): Ghost<UILayouts>) -> (r:
        Result<u64, LayoutError>)
        requires
            old(self).wf(),
            start.wf(),
            old(self).keeps(start),
            old(self).keeps_content(start),
            old(self).spec_debug_root() == start.spec_debug_root(),
            old(self).spec_contains(parent),
            Some(parent) == start.spec_debug_root() || !start.spec_contains(parent),
            element.attributes.element_type == ElementType::Content,
        ensures
            r is Ok,
            final(self).wf(),
            final(self).spec_debug_root() == old(self).spec_debug_root(),
            final(self).keeps(*old(self)),
            final(self).keeps(start),
            final(self).keeps_content(start),
            !old(self).spec_contains(r->Ok_0),
            final(self).spec_contains(r->Ok_0),
            final(self).elements()[r->Ok_0] == element,
            final(self).forest().children[r->Ok_0].len() == 0,
            final(self).forest().children[parent] == old(self).forest().children[parent].push(
                r->Ok_0,
            ),
            final(self).relations() == old(self).relations(),
            old(self).height@ <= final(self).height@,
            final(self).only_grew_at(*old(self), parent),
            old(self).mirrors_apart() ==> final(self).mirrors_apart(),
    {
        let r = self.push_element_with_id(element, parent);
        r
    }

    /// Mirrors `node` and everything below it under the overlay node
    /// `p_node`: a label with the node's title for each node, in a column
    /// above the row of its children's mirrors if it has children.
    fn traverse_gen_debug_element(
        &mut self,
        node: u64,
        p_node: u64,
        Ghost(start): Ghost<UILayouts>,
    ) -> (r: Result<(), LayoutError>)
        requires
            old(self).wf(),
            start.wf(),
            old(self).keeps(start),
            old(self).keeps_content(start),
            old(self).spec_debug_root() == start.spec_debug_root(),
            start.spec_contains(node),
            start.spec_debug_root() is Some ==> !start.forest().below(
                start.spec_debug_root()->0,
                node,
            ),
            old(self).spec_contains(p_node),
            Some(p_node) == start.spec_debug_root() || !start.spec_contains(p_node),
        ensures
            r is Ok,
            final(self).wf(),
            final(self).spec_debug_root() == old(self).spec_debug_root(),
            final(self).keeps(*old(self)),
            final(self).keeps(start),
            final(self).keeps_content(start),
            final(self).only_grew_at(*old(self), p_node),
            old(self).height@ <= final(self).height@,
            forall|c: u64| #[trigger]
                mirrored_from(start.forest(), start.spec_debug_root(), node, c)
                    ==> final(self).has_new_mirror(*old(self), c),
            forall|c: u64|
                !mirrored_from(start.forest(), start.spec_debug_root(), node, c) ==> #[trigger]
                final(self).same_record(*old(self), c),
            old(self).mirrors_apart() ==> final(self).mirrors_apart(),
            Some(node) == start.spec_debug_root() ==> final(self).forest().children[p_node] == old(self).forest().children[p_node],
            Some(node) != start.spec_debug_root() ==> {
                &&& final(self).forest().children[p_node].len() == old(self).forest().children[p_node].len() + 1
                &&& final(self).mirrored_at(
                    start,
                    *old(self),
                    node,
                    final(self).forest().children[p_node].last(),
                    (start.forest().height - start.forest().depth[node]) as nat,
                )
            },
        decreases start.forest().height - start.forest().depth[node],
    {
        let ghost a = start.forest();
        let ghost d = start.spec_debug_root();
        let ghost levels = (a.height - a.depth[node]) as nat;
        if self.debug_root == Some(node) {
            return Ok(());
        }
        let kids = child_ids(&self.taffy, node);
        if kids.len() == 0 {
            let self_node = match self.push_label(node, p_node, false, Ghost(start)) {
                Ok(self_node) => self_node,
                Err(e) => {
                    return Err(e);
                },
            };
            proof {
                assert forall|c: u64| #[trigger] mirrored_from(a, d, node, c) implies self.has_new_mirror(
                    *old(self),
                    c,
                ) by {
                    if c != node {
                        let j = lemma_below_some_child(a, node, c);
                    }
                }
            }
            return Ok(());
        }
        let v_node = match self.push_overlay(make_column(), p_node, Ghost(start)) {
            Ok(v_node) => v_node,
            Err(e) => {
                return Err(e);
            },
        };
        match self.push_label(node, v_node, true, Ghost(start)) {
            Ok(_) => {},
            Err(e) => {
                return Err(e);
            },
        }
        let h2 = match self.push_overlay(make_row(), v_node, Ghost(start)) {
            Ok(h2) => h2,
            Err(e) => {
                return Err(e);
            },
        };
        let ghost rowed = *self;
        let mut i: usize = 0;
        while i < kids.len()
            invariant
                i <= kids@.len(),
                kids@ == a.children[node],
                a == start.forest(),
                d == start.spec_debug_root(),
                levels == (a.height - a.depth[node]) as nat,
                a.ok(),
                start.wf(),
                start.spec_contains(node),
                Some(node) != d,
                d is Some ==> !a.below(d->0, node),
                self.wf(),
                rowed.wf(),
                old(self).mirrors_apart() ==> self.mirrors_apart(),
                self.spec_debug_root() == d,
                self.keeps(start),
                self.keeps_content(start),
                self.only_grew_at(rowed, h2),
                rowed.keeps(*old(self)),
                rowed.height@ <= self.height@,
                old(self).height@ <= rowed.height@,
                rowed.spec_contains(h2),
                !start.spec_contains(h2),
                rowed.forest().children[h2].len() == 0,
                rowed.has_new_mirror(*old(self), node),
                rowed.relations() == old(self).relations().insert(node, rowed.relations()[node]),
                forall|c: u64| #[trigger]
                    covered_mirror(a, d, kids@, i as int, c) ==> self.has_new_mirror(rowed, c),
                forall|c: u64|
                    !covered_mirror(a, d, kids@, i as int, c) ==> #[trigger] self.same_record(
                        rowed,
                        c,
                    ),
                self.forest().children[h2].len() == shown(kids@.take(i as int), d).len(),
                forall|j: int|
                    0 <= j < shown(kids@.take(i as int), d).len() ==> self.mirrored_at(
                        start,
                        rowed,
                        #[trigger] shown(kids@.take(i as int), d)[j],
                        self.forest().children[h2][j],
                        (levels - 1) as nat,
                    ),
            decreases kids@.len() - i,
        {
            let child = kids[i];
            let ghost entry = *self;
            let ghost upto = kids@.take(i as int);
            let ghost next = kids@.take(i as int + 1);
            proof {
                lemma_child(a, node, i as int);
                assert(next.drop_last() =~= upto);
            }
            match self.traverse_gen_debug_element(child, h2, Ghost(start)) {
                Ok(_) => {},
                Err(e) => {
                    return Err(e);
                },
            }
            proof {
                assert forall|c: u64| #[trigger]
                    covered_mirror(a, d, kids@, i as int + 1, c) implies self.has_new_mirror(
                    rowed,
                    c,
                ) by {
                    if !mirrored_from(a, d, child, c) {
                        assert(covered_mirror(a, d, kids@, i as int, c));
                        assert(self.same_record(entry, c));
                    }
                }
                assert forall|c: u64|
                    !covered_mirror(a, d, kids@, i as int + 1, c) implies #[trigger] self.same_record(
                    rowed,
                    c,
                ) by {
                    assert(self.same_record(entry, c));
                    assert(entry.same_record(rowed, c));
                }
                let before = shown(upto, d);
                assert forall|j: int| 0 <= j < before.len() implies self.mirrored_at(
                    start,
                    rowed,
                    #[trigger] before[j],
                    entry.forest().children[h2][j],
                    (levels - 1) as nat,
                ) by {
                    let kid = before[j];
                    Self::lemma_shown_earlier(a, d, node, kids@, i as int, j);
                    let q = choose|q: int| 0 <= q < i && kids@[q] == kid;
                    lemma_child(a, node, q);
                    Self::lemma_mirror_stays(
                        entry,
                        *self,
                        start,
                        rowed,
                        h2,
                        kid,
                        entry.forest().children[h2][j],
                        (levels - 1) as nat,
                    );
                }
                if Some(child) != d {
                    let slot = self.forest().children[h2].last();
                    Self::lemma_mirror_rebase(
                        *self,
                        start,
                        entry,
                        rowed,
                        child,
                        slot,
                        (levels - 1) as nat,
                    );
                }
            }
            i += 1;
        }
        proof {
            assert forall|c: u64| #[trigger] mirrored_from(a, d, node, c) implies self.has_new_mirror(
                *old(self),
                c,
            ) by {
                lemma_cover_all(a, node, kids@, c);
                if c == node {
                    assert(self.same_record(rowed, c));
                } else {
                    assert(covered_mirror(a, d, kids@, kids@.len() as int, c));
                }
            }
            assert forall|c: u64| !mirrored_from(a, d, node, c) implies #[trigger] self.same_record(
                *old(self),
                c,
            ) by {
                lemma_cover_all(a, node, kids@, c);
                assert(self.same_record(rowed, c));
            }
            assert(self.same_record(rowed, node)) by {
                lemma_cover_all(a, node, kids@, node);
            }
            let shown_all = shown_kids(a, d, node);
            assert forall|j: int| 0 <= j < shown_all.len() implies self.mirrored_at(
                start,
                *old(self),
                #[trigger] shown_all[j],
                self.forest().children[h2][j],
                (levels - 1) as nat,
            ) by {
                Self::lemma_mirror_rebase(
                    *self,
                    start,
                    rowed,
                    *old(self),
                    shown_all[j],
                    self.forest().children[h2][j],
                    (levels - 1) as nat,
                );
            }
            assert(levels > 0) by {
                assert(a.depth[node] < a.height) by {
                    lemma_child(a, node, 0);
                }
            }
        }
        Ok(())
    }

    /// A node shown among the first `upto` children of `top` is one of
    /// them, other than the overlay root, and nothing at or below the
    /// overlay root lies under it.
    proof fn lemma_shown_earlier(
        f: Forest,
        overlay: Option<u64>,
        top: u64,
        kids: Seq<u64>,
        upto: int,
        j: int,
    )
        requires
            f.ok(),
            f.contains(top),
            kids == f.children[top],
            0 <= upto <= kids.len(),
            0 <= j < shown(kids.take(upto), overlay).len(),
            overlay is Some ==> !f.below(overlay->0, top),
            Some(top) != overlay,
        ensures
            exists|q: int| 0 <= q < upto && kids[q] == shown(kids.take(upto), overlay)[j],
            f.contains(shown(kids.take(upto), overlay)[j]),
            overlay is Some ==> !f.under(overlay->0, shown(kids.take(upto), overlay)[j]),
    {
        let list = kids.take(upto);
        let kid = shown(list, overlay)[j];
        if overlay is Some {
            crate::forest::lemma_without(list, overlay->0);
        }
        assert(list.contains(kid));
        let q = choose|q: int| 0 <= q < list.len() && list[q] == kid;
        lemma_child(f, top, q);
    }


}

/// Whether the walk that mirrors the first `upto` of `kids` and what lies
/// below them comes to `node`.
pub open spec fn covered_mirror(
    f: Forest,
    overlay: Option<u64>,
    kids: Seq<u64>,
    upto: int,
    node: u64,
) -> bool {
    covered(f, kids, upto, node) && (overlay is Some ==> !f.under(overlay->0, node))
}

impl UILayouts {
    /// Whether `self` is `before` with the overlay generated: every node of
    /// `before` is kept, with its element, its style and, unless it is the
    /// overlay root, its children; the overlay root has one more child, at which
    /// the mirror of the tree under the root stands, on new nodes; every
    /// node of `before` that is not at or below the overlay root is
    /// recorded with a new mirror that carries a label; and no other
    /// record has changed.
    pub open spec fn overlaid(&self, before: UILayouts) -> bool {
        &&& before.spec_debug_root() is Some
        &&& self.spec_debug_root() == before.spec_debug_root()
        &&& self.keeps(before)
        &&& self.keeps_content(before)
        &&& self.only_grew_at(before, before.spec_debug_root()->0)
        &&& self.forest().children[before.spec_debug_root()->0].len()
            == before.forest().children[before.spec_debug_root()->0].len() + 1
        &&& self.mirrored_at(
            before,
            before,
            before.spec_root(),
            self.forest().children[before.spec_debug_root()->0].last(),
            before.forest().height,
        )
        &&& !self.overlay_due()
        &&& forall|c: u64| #[trigger]
            mirrored_from(before.forest(), before.spec_debug_root(), before.spec_root(), c)
                ==> self.has_new_mirror(before, c)
        &&& forall|c: u64|
            !mirrored_from(before.forest(), before.spec_debug_root(), before.spec_root(), c)
                ==> #[trigger] self.same_record(before, c)
    }

    /// Whether the root has a child.
    pub open spec fn has_content(&self) -> bool {
        self.forest().children[self.spec_root()].len() > 0
    }

    /// Whether `self` is `before` after one call of [`UILayouts::update`]:
    /// the overlay is generated first if it is due, then the tree is laid
    /// out and resolved.
    pub open spec fn updated_from(&self, before: UILayouts, cxt: MemState, origin: Vec3) -> bool {
        if before.overlay_due() {
            exists|mid: UILayouts| #[trigger]
                mid.overlaid(before) && mid.wf() && self.resolved_from(mid, cxt, origin)
        } else {
            self.resolved_from(before, cxt, origin)
        }
    }

    /// Generates the structure overlay under the overlay root, if there is
    /// one: a mirror of the tree under the root, leaving out the overlay
    /// root and what lies below it.
    pub fn gen_debug_elements_tree(&mut self) -> (r: Result<(), LayoutError>)
        requires
            old(self).wf(),
        ensures
            r is Ok,
            final(self).wf(),
            old(self).spec_debug_root() is None ==> *final(self) == *old(self),
            old(self).spec_debug_root() is Some ==> final(self).overlaid(*old(self)),
            old(self).mirrors_apart() ==> final(self).mirrors_apart(),
    {
        let ghost start = *self;
        match self.debug_root {
            Some(overlay) => {
                let root = self.root;
                match self.traverse_gen_debug_element(root, overlay, Ghost(start)) {
                    Ok(_) => {},
                    Err(e) => {
                        return Err(e);
                    },
                }
                Ok(())
            },
            None => Ok(()),
        }
    }

    /// The per-frame update: generates the overlay if it is due, sizes the
    /// root and the first child of the root to the viewport, has the solver
    /// lay the tree out, resolves every node, and brings the overlay in
    /// line.
    ///
    /// The viewport is twice the distance of `screen_layout_origin`, its
    /// top-left corner, from the centre of the screen, each side held to
    /// the lengths that the solver holds as they are.
    ///
    /// Fails, and changes nothing, exactly when the root has no child.
    pub fn update(&mut self, context: &MemState, screen_layout_origin: Vec3) -> (r: Result<
        (),
        LayoutError,
    >)
        requires
            old(self).wf(),
        ensures
            final(self).wf(),
            old(self).mirrors_apart() ==> final(self).mirrors_apart(),
            match r {
                Ok(_) => old(self).has_content() && final(self).updated_from(
                    *old(self),
                    *context,
                    screen_layout_origin,
                ) && !final(self).overlay_due(),
                Err(e) => !old(self).has_content() && e == LayoutError::NoContent && *final(self)
                    == *old(self),
            },
    {
        if child_ids(&self.taffy, self.root).len() == 0 {
            return Err(LayoutError::NoContent);
        }
        let due = match self.debug_root {
            Some(overlay) => child_ids(&self.taffy, overlay).len() == 0,
            None => false,
        };
        if due {
            match self.gen_debug_elements_tree() {
                Ok(_) => {},
                Err(e) => {
                    return Err(e);
                },
            }
        }
        let r = self.update_pass(context, screen_layout_origin);
        r
    }
}

/// The overlay gives each content node a mirror of its own: generated for
/// an engine without records, it leaves no mirror that is recorded as a
/// content node, and no two content nodes that share a mirror.
pub proof fn lemma_overlay_paired(after: UILayouts, before: UILayouts)
    requires
        forall|k: u64| !before.relations().contains_key(k),
        after.overlaid(before),
        after.mirrors_apart(),
    ensures
        paired(after.relations()),
{
    reveal(UILayouts::mirrors_apart);
    let top = before.spec_root();
    let f = before.forest();
    let d = before.spec_debug_root();
    assert forall|k: u64| after.relations().contains_key(k) implies !after.relations().contains_key(
        #[trigger] after.relations()[k],
    ) by {
        let m = after.relations()[k];
        if !mirrored_from(f, d, top, k) {
            assert(after.same_record(before, k));
        }
        assert(after.has_new_mirror(before, k));
        if after.relations().contains_key(m) {
            if !mirrored_from(f, d, top, m) {
                assert(after.same_record(before, m));
            }
        }
    }
}

/// The overlay is generated once: an update that follows an update leaves
/// the tree and the records of the overlay as it found them.
pub proof fn lemma_overlay_once(
    first: UILayouts,
    second: UILayouts,
    third: UILayouts,
    cxt: MemState,
    origin: Vec3,
    later_cxt: MemState,
    later_origin: Vec3,
)
    requires
        second.updated_from(first, cxt, origin),
        third.updated_from(second, later_cxt, later_origin),
    ensures
        !second.overlay_due(),
        third.forest() == second.forest(),
        third.relations() == second.relations(),
        third.relations().dom() == second.relations().dom(),
{
}

impl UILayouts {
    /// Whether `requests` are what the renderer must do for the first
    /// `upto` nodes of the insertion order: one request, in order, for each
    /// of them that has a shape, made for where the element is anchored.
    pub open spec fn requested(&self, requests: Seq<(u64, ShapeUpdate)>, upto: int) -> bool
        decreases upto,
    {
        if upto <= 0 {
            requests.len() == 0
        } else {
            let node = self.order()[upto - 1];
            match self.attributes(node).shape {
                Some(shape) => {
                    &&& requests.len() > 0
                    &&& requests.last().0 == node
                    &&& shape.asks(self.attributes(node).layout_anchor, requests.last().1)
                    &&& self.requested(requests.drop_last(), upto - 1)
                },
                None => self.requested(requests, upto - 1),
            }
        }
    }

    /// What the renderer must do for the shapes this frame: for every
    /// element with a shape, in insertion order, the request of the shape
    /// for where the element is anchored.
    pub fn update_shape(&self) -> (r: Vec<(u64, ShapeUpdate)>)
        requires
            self.wf(),
        ensures
            self.requested(r@, self.order().len() as int),
    {
        let mut out: Vec<(u64, ShapeUpdate)> = Vec::new();
        let mut i: usize = 0;
        while i < self.order.len()
            invariant
                i <= self.order@.len(),
                self.wf(),
                self.requested(out@, i as int),
            decreases self.order@.len() - i,
        {
            let node = self.order[i];
            assert(self.order@.to_set().contains(self.order@[i as int]));
            let ghost before = out@;
            if let Some(element) = self.elements.get(&node) {
                if let Some(shape) = &element.attributes.shape {
                    out.push((node, shape.update(element.attributes.layout_anchor)));
                    assert(out@.drop_last() =~= before);
                }
            }
            i += 1;
        }
        out
    }

    /// Records that the renderer has realized the text of `node` as
    /// `entity` with extent `content_size`, and says where the text is
    /// placed: by its top-left corner, half its extent from the anchor of
    /// the element, one layer up. Changes nothing if `node` has no text or
    /// the text is realized already, and says nothing if it has no text.
    pub fn shape_realized(&mut self, node: u64, entity: u64, content_size: Vec2) -> (r: Option<
        Vec3,
    >)
        requires
            old(self).wf(),
        ensures
            r == if old(self).spec_contains(node) && final(self).attributes(node).shape is Some {
                final(self).attributes(node).shape->0.placed(
                    final(self).attributes(node).layout_anchor,
                )
            } else {
                None
            },
            final(self).wf(),
            final(self).same_shape(*old(self)),
            final(self).same_hooks(*old(self)),
            forall|n: u64|
                n != node && old(self).spec_contains(n) ==> (#[trigger] final(self).elements()[n])
                    == old(self).elements()[n],
            old(self).spec_contains(node) ==> final(self).attributes(node) == old(self).attributes(
                node,
            ).realized(entity, content_size),
    {
        let mut placed = None;
        if self.elements.contains_key(&node) {
            if let Some(mut element) = self.take(node) {
                let anchor = element.attributes.layout_anchor;
                if let Some(shape) = &mut element.attributes.shape {
                    placed = shape.realized(entity, content_size, anchor);
                }
                self.put(node, element);
            }
        }
        placed
    }
}

impl UILayouts {
    /// Whether `self` is `before` without `node` and what lies below it:
    /// those nodes and their elements are gone, `node` is gone from the
    /// children of its parent, and the overlay root is forgotten if it was
    /// among them. Every other node is as it was, and the records of the
    /// overlay are untouched.
    pub open spec fn cleared_from(&self, before: UILayouts, node: u64) -> bool {
        &&& forall|n: u64| #[trigger]
            self.spec_contains(n) <==> before.spec_contains(n) && !before.forest().under(node, n)
        &&& forall|n: u64| #[trigger]
            self.spec_contains(n) ==> {
                &&& self.elements()[n] == before.elements()[n]
                &&& self.forest().parents[n] == before.forest().parents[n]
                &&& self.forest().depth[n] == before.forest().depth[n]
                &&& self.forest().children[n] == if Some(n) == before.forest().parents[node] {
                    without(before.forest().children[n], node)
                } else {
                    before.forest().children[n]
                }
            }
        &&& self.order() == kept(before.order(), self.forest().children.dom())
        &&& self.relations() == before.relations()
        &&& self.spec_root() == before.spec_root()
        &&& self.spec_debug_root() == if before.spec_debug_root() is Some && before.forest().under(
            node,
            before.spec_debug_root()->0,
        ) {
            None
        } else {
            before.spec_debug_root()
        }
    }

    /// Removes the childless node `leaf` and its element.
    fn drop_leaf(&mut self, leaf: u64) -> (r: Result<(), LayoutError>)
        requires
            old(self).links_ok(),
            old(self).spec_contains(leaf),
            leaf != old(self).root,
            old(self).forest().children[leaf].len() == 0,
        ensures
            r is Ok,
            final(self).links_ok(),
            final(self).forest() == old(self).forest().pruned(leaf),
            final(self).elements@ == old(self).elements@.remove(leaf),
            final(self).order == old(self).order,
            final(self).debuge_relations == old(self).debuge_relations,
            final(self).root == old(self).root,
            final(self).debug_root == if old(self).debug_root == Some(leaf) {
                None
            } else {
                old(self).debug_root
            },
    {
        let ghost f = self.forest();
        proof {
            reveal(Forest::ok);
            lemma_pruned_links(f, leaf);
            lemma_pruned_tree(f, self.root, leaf);
        }
        match remove(&mut self.taffy, leaf) {
            Ok(_) => {},
            Err(_) => {
                return Err(LayoutError::Solver);
            },
        }
        self.elements.remove(&leaf);
        if self.debug_root == Some(leaf) {
            self.debug_root = None;
        }
        Ok(())
    }

    /// Removes every node below `node`, the lowest first.
    fn clear_below(&mut self, node: u64) -> (r: Result<(), LayoutError>)
        requires
            old(self).links_ok(),
            old(self).spec_contains(node),
        ensures
            r is Ok,
            final(self).links_ok(),
            forall|n: u64| #[trigger]
                final(self).spec_contains(n) <==> old(self).spec_contains(n) && !old(self).forest().below(node, n),
            forall|n: u64| #[trigger]
                final(self).spec_contains(n) ==> {
                    &&& final(self).elements()[n] == old(self).elements()[n]
                    &&& final(self).forest().parents[n] == old(self).forest().parents[n]
                    &&& final(self).forest().depth[n] == old(self).forest().depth[n]
                    &&& n != node ==> final(self).forest().children[n] == old(self).forest().children[n]
                },
            final(self).forest().children[node].len() == 0,
            final(self).forest().height == old(self).forest().height,
            final(self).order == old(self).order,
            final(self).debuge_relations == old(self).debuge_relations,
            final(self).root == old(self).root,
            final(self).debug_root == if old(self).debug_root is Some && old(self).forest().below(
                node,
                old(self).debug_root->0,
            ) {
                None
            } else {
                old(self).debug_root
            },
        decreases old(self).forest().height - old(self).forest().depth[node],
    {
        let ghost f = self.forest();
        let kids = child_ids(&self.taffy, node);
        let mut i: usize = 0;
        while i < kids.len()
            invariant
                i <= kids@.len(),
                kids@ == f.children[node],
                f == old(self).forest(),
                f.ok(),
                f.contains(node),
                self.links_ok(),
                forall|n: u64| #[trigger]
                    self.spec_contains(n) <==> f.contains(n) && !covered(f, kids@, i as int, n),
                forall|n: u64| #[trigger]
                    self.spec_contains(n) ==> {
                        &&& self.elements()[n] == old(self).elements()[n]
                        &&& self.forest().parents[n] == f.parents[n]
                        &&& self.forest().depth[n] == f.depth[n]
                        &&& n != node ==> self.forest().children[n] == f.children[n]
                    },
                self.forest().children[node] == kids@.skip(i as int),
                self.forest().height == f.height,
                self.order == old(self).order,
                self.debuge_relations == old(self).debuge_relations,
                self.root == old(self).root,
                self.debug_root == if old(self).debug_root is Some && covered(
                    f,
                    kids@,
                    i as int,
                    old(self).debug_root->0,
                ) {
                    None
                } else {
                    old(self).debug_root
                },
            decreases kids@.len() - i,
        {
            let kid = kids[i];
            let ghost entry = *self;
            let ghost g = self.forest();
            proof {
                reveal(Forest::ok);
                lemma_child(f, node, i as int);
                assert(self.spec_contains(kid));
                assert(self.spec_contains(node));
            }
            match self.clear_below(kid) {
                Ok(_) => {},
                Err(e) => {
                    return Err(e);
                },
            }
            let ghost cut = *self;
            proof {
                reveal(Forest::ok);
                assert(f.ancestor(kid, 0) == Some(kid));
                assert(!g.below(kid, kid));
                assert(cut.spec_contains(kid));
            }
            match self.drop_leaf(kid) {
                Ok(_) => {},
                Err(e) => {
                    return Err(e);
                },
            }
            proof {
                reveal(Forest::ok);
                lemma_pruned_tree(cut.forest(), self.root, kid);
                assert forall|n: u64| #[trigger] g.contains(n) implies f.contains(n) && g.parents[n]
                    == f.parents[n] && g.depth[n] == f.depth[n] by {
                    assert(entry.spec_contains(n));
                }
                assert forall|n: u64| g.contains(n) implies (g.below(kid, n) <==> f.below(kid, n)) by {
                    let steps = (f.depth[n] - f.depth[kid]) as nat;
                    if f.depth[n] >= f.depth[kid] {
                        lemma_same_ancestors(f, g, n, steps);
                    }
                }
                assert forall|n: u64| #[trigger]
                    self.spec_contains(n) <==> f.contains(n) && !covered(
                        f,
                        kids@,
                        i as int + 1,
                        n,
                    ) by {
                    lemma_cover_next(f, node, kids@, i as int, n);
                    if f.contains(n) && !covered(f, kids@, i as int, n) {
                        assert(entry.spec_contains(n));
                    }
                    if self.spec_contains(n) {
                        assert(cut.spec_contains(n));
                    }
                }
                assert forall|n: u64| #[trigger] self.spec_contains(n) implies {
                    &&& self.elements()[n] == old(self).elements()[n]
                    &&& self.forest().parents[n] == f.parents[n]
                    &&& self.forest().depth[n] == f.depth[n]
                    &&& n != node ==> self.forest().children[n] == f.children[n]
                } by {
                    assert(cut.spec_contains(n));
                }
                assert(self.forest().children[node] == kids@.skip(i as int + 1)) by {
                    assert(cut.spec_contains(node));
                    assert(kids@.skip(i as int).no_duplicates());
                    lemma_without_head(kids@.skip(i as int));
                }
            }
            i += 1;
        }
        proof {
            assert forall|n: u64| #[trigger]
                self.spec_contains(n) <==> old(self).spec_contains(n) && !old(self).forest().below(
                    node,
                    n,
                ) by {
                lemma_cover_all(f, node, kids@, n);
            }
            if old(self).debug_root is Some {
                lemma_cover_all(f, node, kids@, old(self).debug_root->0);
            }
        }
        Ok(())
    }

    /// Removes `node` and everything below it from the tree, the overlay
    /// root too if it is among them. Fails, and changes nothing, if `node`
    /// is not part of the tree or is the root.
    pub fn clear_node(&mut self, node: u64) -> (r: Result<(), LayoutError>)
        requires
            old(self).wf(),
        ensures
            final(self).wf(),
            match r {
                Ok(_) => old(self).spec_contains(node) && node != old(self).spec_root()
                    && final(self).cleared_from(*old(self), node),
                Err(e) => *final(self) == *old(self) && e == if !old(self).spec_contains(node) {
                    LayoutError::UnknownNode(node)
                } else {
                    LayoutError::Root
                } && (!old(self).spec_contains(node) || node == old(self).spec_root()),
            },
    {
        if !self.elements.contains_key(&node) {
            return Err(LayoutError::UnknownNode(node));
        }
        if node == self.root {
            return Err(LayoutError::Root);
        }
        let ghost f = self.forest();
        match self.clear_below(node) {
            Ok(_) => {},
            Err(e) => {
                return Err(e);
            },
        }
        let ghost cut = *self;
        match self.drop_leaf(node) {
            Ok(_) => {},
            Err(e) => {
                return Err(e);
            },
        }
        proof {
            reveal(Forest::ok);
            assert(cut.spec_contains(node));
            lemma_pruned_tree(cut.forest(), self.root, node);
            assert forall|n: u64| #[trigger]
                self.spec_contains(n) <==> f.contains(n) && !f.under(node, n) by {
                assert(self.spec_contains(n) ==> cut.spec_contains(n));
                if f.contains(n) && !f.under(node, n) {
                    assert(cut.spec_contains(n));
                }
            }
            assert forall|n: u64| #[trigger] self.spec_contains(n) implies {
                &&& self.elements()[n] == old(self).elements()[n]
                &&& self.forest().parents[n] == f.parents[n]
                &&& self.forest().depth[n] == f.depth[n]
                &&& self.forest().children[n] == if Some(n) == f.parents[node] {
                    without(f.children[n], node)
                } else {
                    f.children[n]
                }
            } by {
                assert(cut.spec_contains(n));
            }
        }
        let ghost pruned = *self;
        let ghost live = self.forest().children.dom();
        let mut order: Vec<u64> = Vec::new();
        let mut i: usize = 0;
        while i < self.order.len()
            invariant
                i <= self.order@.len(),
                *self == pruned,
                live == self.elements@.dom(),
                order@ == kept(self.order@.take(i as int), live),
            decreases self.order@.len() - i,
        {
            let n = self.order[i];
            proof {
                let upto = self.order@.take(i as int + 1);
                assert(upto.drop_last() =~= self.order@.take(i as int));
            }
            if self.elements.contains_key(&n) {
                order.push(n);
            }
            i += 1;
        }
        proof {
            assert(self.order@.take(self.order@.len() as int) =~= self.order@);
            lemma_kept(self.order@, live);
            assert(order@.to_set() =~= live) by {
                assert forall|x: u64| order@.to_set().contains(x) <==> live.contains(x) by {
                    if live.contains(x) {
                        assert(pruned.spec_contains(x));
                    }
                }
            }
        }
        self.order = order;
        proof {
            assert forall|n: u64| #[trigger]
                self.spec_contains(n) <==> old(self).spec_contains(n) && !old(self).forest().under(
                    node,
                    n,
                ) by {
                assert(pruned.spec_contains(n) <==> f.contains(n) && !f.under(node, n));
            }
            assert forall|n: u64| #[trigger] self.spec_contains(n) implies {
                &&& self.elements()[n] == old(self).elements()[n]
                &&& self.forest().parents[n] == f.parents[n]
                &&& self.forest().depth[n] == f.depth[n]
                &&& self.forest().children[n] == if Some(n) == f.parents[node] {
                    without(f.children[n], node)
                } else {
                    f.children[n]
                }
            } by {
                assert(pruned.spec_contains(n));
            }
        }
        Ok(())
    }
}

impl UILayouts {
    /// The nodes in the order they were inserted.
    pub fn nodes(&self) -> (r: Vec<u64>)
        ensures
            r@ == self.order(),
    {
        self.order.clone()
    }

    /// The overlay mirror recorded for `node`, if one is.
    pub fn mirror(&self, node: u64) -> (r: Option<u64>)
        ensures
            match r {
                Some(m) => self.relations().contains_key(node) && self.relations()[node] == m,
                None => !self.relations().contains_key(node),
            },
    {
        match self.debuge_relations.get(&node) {
            Some(m) => Some(*m),
            None => None,
        }
    }

    /// The number of content nodes recorded with a mirror.
    pub fn mirrors(&self) -> (r: usize)
        ensures
            r == self.relations().len(),
    {
        self.debuge_relations.len()
    }
}

} // verus!
