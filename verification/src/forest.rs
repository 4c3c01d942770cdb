//! The shape of the node tree as a mathematical value, and the facts about
//! it that the engine's traversals rest on.

use vstd::prelude::*;
use crate::solver::climbs;
use crate::solver::descends;
use crate::solver::without;
use crate::solver::children_without;
use crate::solver::parents_without;

verus! {

/// The links of the node tree: child lists and parent links by node id,
/// with the depth of every node below a root and a bound on all depths.
pub ghost struct Forest {
    pub children: Map<u64, Seq<u64>>,
    pub parents: Map<u64, Option<u64>>,
    pub depth: Map<u64, nat>,
    pub height: nat,
}

impl Forest {
    pub open spec fn contains(self, node: u64) -> bool {
        self.children.contains_key(node)
    }

    /// Whether the links are those of a forest: child lists and parent
    /// links say the same, no node occurs twice among the children of its
    /// parent, and a child lies one level below its parent.
    #[verifier::opaque]
    pub open spec fn ok(self) -> bool {
        &&& self.children.dom() == self.parents.dom()
        &&& self.children.dom().finite()
        &&& forall|n: u64| self.children.contains_key(n) ==> #[trigger] self.depth.contains_key(n)
        &&& forall|p: u64, i: int|
            self.children.contains_key(p) && 0 <= i < self.children[p].len() ==> {
                &&& self.children.contains_key(#[trigger] self.children[p][i])
                &&& self.parents[self.children[p][i]] == Some(p)
            }
        &&& forall|c: u64|
            self.children.contains_key(c) && (#[trigger] self.parents[c]) is Some ==> {
                &&& self.children.contains_key(self.parents[c]->0)
                &&& self.children[self.parents[c]->0].contains(c)
                &&& self.depth[c] == self.depth[self.parents[c]->0] + 1
            }
        &&& forall|p: u64|
            self.children.contains_key(p) ==> (#[trigger] self.children[p]).no_duplicates()
        &&& forall|n: u64| self.children.contains_key(n) ==> #[trigger] self.depth[n] < self.height
    }

    /// Whether the forest is one tree under `root`.
    pub open spec fn tree(self, root: u64) -> bool {
        &&& self.ok()
        &&& self.contains(root)
        &&& self.parents[root] is None
        &&& self.depth[root] == 0
        &&& forall|n: u64|
            self.contains(n) && (#[trigger] self.parents[n]) is None ==> n == root
    }

    /// The ancestor of `node` that lies `steps` levels above it.
    pub open spec fn ancestor(self, node: u64, steps: nat) -> Option<u64>
        decreases steps,
    {
        if steps == 0 {
            Some(node)
        } else if self.contains(node) {
            match self.parents[node] {
                Some(p) => self.ancestor(p, (steps - 1) as nat),
                None => None,
            }
        } else {
            None
        }
    }

    /// Whether `node` is `top` or lies below it.
    pub open spec fn under(self, top: u64, node: u64) -> bool {
        &&& self.contains(node)
        &&& self.contains(top)
        &&& self.depth[node] >= self.depth[top]
        &&& self.ancestor(node, (self.depth[node] - self.depth[top]) as nat) == Some(top)
    }

    /// Whether `node` lies below `top`.
    pub open spec fn below(self, top: u64, node: u64) -> bool {
        node != top && self.under(top, node)
    }

    /// The forest with the new leaf `child` appended to the children of
    /// `parent`.
    pub open spec fn with_leaf(self, parent: u64, child: u64) -> Forest {
        Forest {
            children: self.children.insert(child, Seq::empty()).insert(
                parent,
                self.children[parent].push(child),
            ),
            parents: self.parents.insert(child, Some(parent)),
            depth: self.depth.insert(child, self.depth[parent] + 1),
            height: if self.depth[parent] + 2 > self.height {
                self.depth[parent] + 2
            } else {
                self.height
            },
        }
    }
}

/// In a forest the walk up from any node ends.
pub proof fn lemma_climbs(f: Forest, node: u64)
    requires
        f.ok(),
        f.contains(node),
    ensures
        climbs(f.parents, node, f.depth[node]),
    decreases f.depth[node],
{
    reveal(Forest::ok);
    if f.parents[node] is Some {
        lemma_climbs(f, f.parents[node]->0);
    }
}

/// In a forest the walk up from any node still ends once a new node is
/// given a parent.
pub proof fn lemma_climbs_past_new(f: Forest, node: u64, child: u64, parent: u64)
    requires
        f.ok(),
        f.contains(node),
        !f.contains(child),
    ensures
        climbs(f.parents.insert(child, Some(parent)), node, f.depth[node]),
    decreases f.depth[node],
{
    reveal(Forest::ok);
    if f.parents[node] is Some {
        lemma_climbs_past_new(f, f.parents[node]->0, child, parent);
    }
}

/// In a forest every walk down from any node ends.
pub proof fn lemma_descends(f: Forest, node: u64)
    requires
        f.ok(),
        f.contains(node),
    ensures
        descends(f.children, node, (f.height - f.depth[node]) as nat),
    decreases f.height - f.depth[node],
{
    reveal(Forest::ok);
    assert forall|i: int| 0 <= i < f.children[node].len() implies f.height - f.depth[node] > 0
        && descends(
        f.children,
        #[trigger] f.children[node][i],
        (f.height - f.depth[node] - 1) as nat,
    ) by {
        let c = f.children[node][i];
        lemma_descends(f, c);
    }
}

/// A new leaf under a node of a tree leaves a tree.
pub proof fn lemma_with_leaf(f: Forest, root: u64, parent: u64, child: u64)
    requires
        f.tree(root),
        f.contains(parent),
        !f.contains(child),
    ensures
        f.with_leaf(parent, child).tree(root),
{
    reveal(Forest::ok);
    let g = f.with_leaf(parent, child);
    assert(g.children.dom() =~= f.children.dom().insert(child));
    assert forall|c: u64|
        g.children.contains_key(c) && (#[trigger] g.parents[c]) is Some implies {
        &&& g.children.contains_key(g.parents[c]->0)
        &&& g.children[g.parents[c]->0].contains(c)
        &&& g.depth[c] == g.depth[g.parents[c]->0] + 1
    } by {
        if c == child {
            assert(g.children[parent].last() == child);
        } else {
            let p = f.parents[c]->0;
            if p == parent {
                let k = choose|k: int| 0 <= k < f.children[p].len() && f.children[p][k] == c;
                assert(g.children[p][k] == c);
            }
        }
    }
}

/// The ancestor `steps` levels up is a node of the forest, that many levels
/// higher.
pub proof fn lemma_ancestor_depth(f: Forest, node: u64, steps: nat)
    requires
        f.ok(),
        f.contains(node),
        f.ancestor(node, steps) is Some,
    ensures
        f.contains(f.ancestor(node, steps)->0),
        f.depth[f.ancestor(node, steps)->0] + steps == f.depth[node],
    decreases steps,
{
    reveal(Forest::ok);
    if steps > 0 {
        lemma_ancestor_depth(f, f.parents[node]->0, (steps - 1) as nat);
    }
}

/// One more level up is the parent of the ancestor reached so far.
pub proof fn lemma_ancestor_step(f: Forest, node: u64, steps: nat)
    requires
        f.ok(),
        f.contains(node),
    ensures
        f.ancestor(node, steps + 1) == match f.ancestor(node, steps) {
            Some(a) => f.parents[a],
            None => None,
        },
    decreases steps,
{
    reveal(Forest::ok);
    if steps > 0 {
        if f.parents[node] is Some {
            lemma_ancestor_step(f, f.parents[node]->0, (steps - 1) as nat);
        }
    } else {
        assert(f.ancestor(node, 1) == match f.parents[node] {
            Some(p) => f.ancestor(p, 0),
            None => None,
        });
    }
}

/// A node below `top` is a child of `top` or lies below one.
pub proof fn lemma_below_some_child(f: Forest, top: u64, node: u64) -> (i: int)
    requires
        f.ok(),
        f.below(top, node),
    ensures
        0 <= i < f.children[top].len(),
        f.under(f.children[top][i], node),
{
    reveal(Forest::ok);
    let gap = (f.depth[node] - f.depth[top]) as nat;
    let near = (gap - 1) as nat;
    lemma_ancestor_step(f, node, near);
    let c = f.ancestor(node, near)->0;
    lemma_ancestor_depth(f, node, near);
    let i = choose|i: int| 0 <= i < f.children[top].len() && f.children[top][i] == c;
    i
}

/// What lies under a child of `top` lies below `top`.
pub proof fn lemma_under_child_below(f: Forest, top: u64, i: int, node: u64)
    requires
        f.ok(),
        f.contains(top),
        0 <= i < f.children[top].len(),
        f.under(f.children[top][i], node),
    ensures
        f.below(top, node),
{
    reveal(Forest::ok);
    let c = f.children[top][i];
    let near = (f.depth[node] - f.depth[c]) as nat;
    lemma_ancestor_step(f, node, near);
}


/// Every node of a tree is the root or lies below it.
pub proof fn lemma_all_under_root(f: Forest, root: u64, node: u64)
    requires
        f.tree(root),
        f.contains(node),
    ensures
        f.under(root, node),
    decreases f.depth[node],
{
    reveal(Forest::ok);
    if f.parents[node] is Some {
        let p = f.parents[node]->0;
        lemma_all_under_root(f, root, p);
    }
}

/// Going up `first` levels and then `then` more is going up `first + then`.
pub proof fn lemma_ancestor_join(f: Forest, node: u64, first: nat, then: nat)
    requires
        f.ok(),
        f.contains(node),
        f.ancestor(node, first) is Some,
    ensures
        f.ancestor(node, first + then) == f.ancestor(f.ancestor(node, first)->0, then),
    decreases first,
{
    reveal(Forest::ok);
    if first > 0 {
        lemma_ancestor_join(f, f.parents[node]->0, (first - 1) as nat, then);
    }
}

/// What the forest says of the `i`-th child of `top`.
pub proof fn lemma_child(f: Forest, top: u64, i: int)
    requires
        f.ok(),
        f.contains(top),
        0 <= i < f.children[top].len(),
    ensures
        f.contains(f.children[top][i]),
        f.parents[f.children[top][i]] == Some(top),
        f.depth[f.children[top][i]] == f.depth[top] + 1,
        f.depth[f.children[top][i]] < f.height,
        f.under(f.children[top][i], f.children[top][i]),
        f.below(top, f.children[top][i]),
        forall|j: int|
            0 <= j < f.children[top].len() && j != i ==> f.children[top][j] != f.children[top][i],
{
    reveal(Forest::ok);
    let c = f.children[top][i];
    lemma_under_child_below(f, top, i, c);
}


/// What is left of a list once a node is taken out: the other entries, in
/// their order, none twice if none was.
pub proof fn lemma_without(list: Seq<u64>, node: u64)
    ensures
        forall|x: u64| without(list, node).contains(x) <==> (list.contains(x) && x != node),
        list.no_duplicates() ==> without(list, node).no_duplicates(),
        !list.contains(node) ==> without(list, node) == list,
    decreases list.len(),
{
    if list.len() > 0 {
        let front = list.drop_last();
        let last = list.last();
        lemma_without(front, node);
        let out = without(list, node);
        assert forall|x: u64| out.contains(x) <==> (list.contains(x) && x != node) by {
            if out.contains(x) {
                let i = choose|i: int| 0 <= i < out.len() && out[i] == x;
                if last == node || i < out.len() - 1 {
                    assert(front.contains(x) && x != node);
                }
            }
            if list.contains(x) && x != node {
                let j = choose|j: int| 0 <= j < list.len() && list[j] == x;
                if j == list.len() - 1 {
                    assert(out[out.len() - 1] == x);
                } else {
                    let kept = without(front, node);
                    assert(front[j] == x);
                    assert(front.contains(x));
                    let i = choose|i: int| 0 <= i < kept.len() && kept[i] == x;
                    assert(out[i] == x);
                }
            }
        }
        if list.no_duplicates() {
            if last != node {
                assert(!front.contains(last));
            }
        }
    }
}

/// Taking the first entry out of a list without repetitions leaves the rest.
pub proof fn lemma_without_head(list: Seq<u64>)
    requires
        list.no_duplicates(),
        list.len() > 0,
    ensures
        without(list, list[0]) == list.skip(1),
    decreases list.len(),
{
    if list.len() == 1 {
        assert(without(list.drop_last(), list[0]) =~= Seq::<u64>::empty());
    } else {
        let front = list.drop_last();
        lemma_without_head(front);
    }
}

impl Forest {
    /// The forest without the childless node `leaf`.
    pub open spec fn pruned(self, leaf: u64) -> Forest {
        Forest {
            children: children_without(self.children, self.parents, leaf),
            parents: self.parents.remove(leaf),
            depth: self.depth,
            height: self.height,
        }
    }
}

/// Removing a childless node from the solver's links prunes the forest.
pub proof fn lemma_pruned_links(f: Forest, leaf: u64)
    requires
        f.ok(),
        f.contains(leaf),
        f.children[leaf].len() == 0,
    ensures
        parents_without(f.children, f.parents, leaf) == f.parents.remove(leaf),
{
    reveal(Forest::ok);
}

/// A tree without a childless node other than its root is a tree; the
/// other nodes keep their depth, their parent, their ancestors, and their
/// children except that node.
pub proof fn lemma_pruned_tree(f: Forest, root: u64, leaf: u64)
    requires
        f.tree(root),
        f.contains(leaf),
        leaf != root,
        f.children[leaf].len() == 0,
    ensures
        f.pruned(leaf).tree(root),
        f.parents[leaf] is Some,
        forall|n: u64| f.pruned(leaf).contains(n) <==> (f.contains(n) && n != leaf),
        forall|n: u64|
            f.contains(n) && n != leaf ==> (#[trigger] f.pruned(leaf).children[n]) == (if Some(n)
                == f.parents[leaf] {
                without(f.children[n], leaf)
            } else {
                f.children[n]
            }),
{
    reveal(Forest::ok);
    let g = f.pruned(leaf);
    let p = f.parents[leaf]->0;
    lemma_without(f.children[p], leaf);
    assert(g.children.dom() =~= f.children.dom().remove(leaf));
    assert forall|q: u64, i: int|
        g.children.contains_key(q) && 0 <= i < g.children[q].len() implies {
        &&& g.children.contains_key(#[trigger] g.children[q][i])
        &&& g.parents[g.children[q][i]] == Some(q)
    } by {
        let c = g.children[q][i];
        if q == p {
            assert(f.children[p].contains(c) && c != leaf);
        }
    }
}

/// Two forests that agree on the parents of the nodes of the smaller one
/// agree on their ancestors.
pub proof fn lemma_same_ancestors(f: Forest, g: Forest, node: u64, steps: nat)
    requires
        f.ok(),
        g.ok(),
        g.contains(node),
        forall|n: u64| #[trigger] g.contains(n) ==> f.contains(n) && g.parents[n] == f.parents[n],
    ensures
        g.ancestor(node, steps) == f.ancestor(node, steps),
    decreases steps,
{
    reveal(Forest::ok);
    if steps > 0 {
        if g.parents[node] is Some {
            lemma_same_ancestors(f, g, g.parents[node]->0, (steps - 1) as nat);
        }
    }
}

/// The entries of `list` that are in `live`, in their order.
pub open spec fn kept(list: Seq<u64>, live: Set<u64>) -> Seq<u64>
    decreases list.len(),
{
    if list.len() == 0 {
        list
    } else if live.contains(list.last()) {
        kept(list.drop_last(), live).push(list.last())
    } else {
        kept(list.drop_last(), live)
    }
}

/// What is kept of a list are its entries in `live`, none twice if none was.
pub proof fn lemma_kept(list: Seq<u64>, live: Set<u64>)
    ensures
        forall|x: u64| kept(list, live).contains(x) <==> (list.contains(x) && live.contains(x)),
        list.no_duplicates() ==> kept(list, live).no_duplicates(),
    decreases list.len(),
{
    if list.len() > 0 {
        let front = list.drop_last();
        let last = list.last();
        let sub = kept(front, live);
        let out = kept(list, live);
        lemma_kept(front, live);
        assert forall|x: u64| out.contains(x) <==> (list.contains(x) && live.contains(x)) by {
            if out.contains(x) {
                let i = choose|i: int| 0 <= i < out.len() && out[i] == x;
                if !live.contains(last) || i < out.len() - 1 {
                    assert(front.contains(x) && live.contains(x));
                }
            }
            if list.contains(x) && live.contains(x) {
                let j = choose|j: int| 0 <= j < list.len() && list[j] == x;
                if j == list.len() - 1 {
                    assert(out[out.len() - 1] == x);
                } else {
                    assert(front[j] == x);
                    let i = choose|i: int| 0 <= i < sub.len() && sub[i] == x;
                    assert(out[i] == x);
                }
            }
        }
    }
}

} // verus!
