//! What one update pass resolves for every node: where it is anchored, what
//! the pointer does to it, and what it hands to its children.

use vstd::prelude::*;
use crate::components::UIMouseState;
use crate::components::UIRenderMode;
use crate::components::element::AttributesView;
use crate::forest::Forest;
use crate::math::Vec2;
use crate::math::Vec3;
use crate::math::saturate;
use crate::solver::Layout;

verus! {

/// What a frame gives to every node alike.
pub ghost struct Frame {
    /// The screen-space origin of the layout.
    pub origin: Vec3,
    /// The pointer; negative x means it is outside the viewport.
    pub cursor: (i32, i32),
    /// Where the pointer was when the button went down.
    pub start: Vec2,
    /// Where the pointer is while the button is held.
    pub current: Vec2,
}

/// What a node is handed by its parent.
pub ghost struct Handed {
    /// The offset of the parent's content from the screen origin.
    pub inherit_origin: Vec3,
    /// The render state of the group the node belongs to, if it is in one.
    pub state: Option<UIMouseState>,
}

/// What the children of the root are handed.
pub open spec fn top() -> Handed {
    Handed { inherit_origin: Vec3::spec_zero(), state: None }
}

/// The attributes of a node after the pass: laid out, hit-tested, and, in
/// a group, overruled by the state of the group.
#[verifier::opaque]
pub open spec fn resolve(e: AttributesView, layout: Layout, frame: Frame, h: Handed) -> AttributesView {
    let framed = e.framed(
        layout,
        frame.origin,
        h.inherit_origin,
        frame.start,
        frame.current,
        frame.cursor,
    );
    match h.state {
        Some(s) => framed.grouped(s),
        None => framed,
    }
}

/// The offset of a node's content from the screen origin: its own box and
/// drag offsets added to what it was handed.
pub open spec fn child_origin(e: AttributesView, layout: Layout, inherit_origin: Vec3) -> Vec3 {
    Vec3 {
        x: saturate(layout.location.x + e.anchor_offset.x + e.rubber_offset.x + inherit_origin.x) as i32,
        y: saturate(layout.location.y - e.anchor_offset.y - e.rubber_offset.y + inherit_origin.y) as i32,
        z: inherit_origin.z,
    }
}

/// What a node with resolved attributes `e` hands to its children. The
/// state of a group goes all the way down; a grouping node outside a group
/// starts one with its own render state, at rest as much as under the
/// pointer.
#[verifier::opaque]
pub open spec fn hands_down(e: AttributesView, layout: Layout, h: Handed) -> Handed {
    Handed {
        inherit_origin: child_origin(e, layout, h.inherit_origin),
        state: match h.state {
            Some(s) => Some(s),
            None => if e.render_block == UIRenderMode::Group {
                Some(e.render_state)
            } else {
                None
            },
        },
    }
}

/// One update pass: the tree, the solved boxes, the attributes before the
/// pass, and the frame.
pub ghost struct Pass {
    pub forest: Forest,
    pub boxes: Map<u64, Layout>,
    pub before: Map<u64, AttributesView>,
    pub frame: Frame,
}

impl Pass {
    /// What `node`, `level` levels below the root, is handed by its parent.
    pub open spec fn handed(self, node: u64, level: nat) -> Handed
        decreases level,
    {
        if level == 0 {
            top()
        } else {
            match self.forest.parents[node] {
                None => top(),
                Some(p) => if self.forest.parents[p] is None {
                    top()
                } else {
                    let above = self.handed(p, (level - 1) as nat);
                    hands_down(
                        resolve(self.before[p], self.boxes[p], self.frame, above),
                        self.boxes[p],
                        above,
                    )
                },
            }
        }
    }

    /// The attributes of `node` after the pass.
    pub open spec fn resolved(self, node: u64) -> AttributesView {
        resolve(
            self.before[node],
            self.boxes[node],
            self.frame,
            self.handed(node, self.forest.depth[node]),
        )
    }

    /// What `node` hands to its children.
    pub open spec fn passes(self, node: u64) -> Handed {
        hands_down(
            self.resolved(node),
            self.boxes[node],
            self.handed(node, self.forest.depth[node]),
        )
    }
}

/// A child of a node other than the root is handed what that node passes.
pub proof fn lemma_handed_by_parent(pass: Pass, root: u64, parent: u64, i: int)
    requires
        pass.forest.tree(root),
        pass.forest.contains(parent),
        parent != root,
        0 <= i < pass.forest.children[parent].len(),
    ensures
        pass.handed(
            pass.forest.children[parent][i],
            pass.forest.depth[pass.forest.children[parent][i]],
        ) == pass.passes(parent),
{
    reveal(Forest::ok);
}

/// A child of the root is handed nothing.
pub proof fn lemma_handed_by_root(pass: Pass, root: u64, i: int)
    requires
        pass.forest.tree(root),
        0 <= i < pass.forest.children[root].len(),
    ensures
        pass.handed(
            pass.forest.children[root][i],
            pass.forest.depth[pass.forest.children[root][i]],
        ) == top(),
{
    reveal(Forest::ok);
}

/// Below a node that hands down a state, every node is handed that state.
pub proof fn lemma_group_reaches_all(pass: Pass, root: u64, group: u64, node: u64)
    requires
        pass.forest.tree(root),
        group != root,
        pass.forest.below(group, node),
        pass.passes(group).state is Some,
    ensures
        pass.handed(node, pass.forest.depth[node]).state == pass.passes(group).state,
    decreases pass.forest.depth[node],
{
    reveal(Forest::ok);
    reveal(hands_down);
    let f = pass.forest;
    let p = f.parents[node]->0;
    if p != group {
        lemma_group_reaches_all(pass, root, group, p);
    }
}

/// Group inheritance: below a grouping node, every node has the render
/// state of that node after the pass, at rest as much as under the
/// pointer, whatever its own hit test said, and no action of its own.
pub proof fn lemma_group_inheritance(pass: Pass, root: u64, group: u64, node: u64)
    requires
        pass.forest.tree(root),
        group != root,
        pass.forest.below(group, node),
        pass.resolved(group).render_block == UIRenderMode::Group,
    ensures
        pass.resolved(node).render_state == pass.resolved(group).render_state,
        pass.resolved(node).action_state == UIMouseState::Release,
{
    reveal(resolve);
    reveal(hands_down);
    lemma_group_reaches_all(pass, root, group, node);
}

} // verus!
