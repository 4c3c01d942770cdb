//! The layout solver: the `taffy` tree behind the engine, seen as a forest
//! of node ids with a resolved box per node.
//!
//! Everything the library believes of `taffy` without proof is in this file.

use vstd::prelude::*;
use taffy::TraversePartialTree;
use taffy::prelude::TaffyMaxContent;
use crate::components::element::FlexDirection;
use crate::math::Vec2;
use crate::style::Align;
use crate::style::Dimension;
use crate::style::Distribute;
use crate::style::Position;
use crate::style::FlexStyle;
use crate::style::Inset;
use crate::style::Rect;
use crate::style::Size;

verus! {

/// The box the solver resolved for one node, relative to its parent, in whole
/// layout units.
#[derive(Clone, Copy, Debug, PartialEq, Eq, Structural)]
pub struct Layout {
    /// The top-left corner.
    pub location: Vec2,
    pub size: Vec2,
    /// The extent of the node's content, which may overflow `size`.
    pub content_size: Vec2,
}

/// `taffy::TaffyTree`: nothing of its inside is visible here.
#[verifier::external_type_specification]
#[verifier::external_body]
#[verifier::reject_recursive_types(NodeContext)]
pub struct ExTaffyTree<NodeContext>(taffy::TaffyTree<NodeContext>);

/// `taffy::Style`: nothing of its inside is visible here.
#[verifier::external_type_specification]
#[verifier::external_body]
pub struct ExSolverStyle(taffy::Style);

/// `taffy::TaffyError`: nothing of its inside is visible here.
#[verifier::external_type_specification]
#[verifier::external_body]
pub struct ExTaffyError(taffy::TaffyError);

/// The child list of every node that the tree holds, by node id.
pub uninterp spec fn tree_children(tree: taffy::TaffyTree<()>) -> Map<u64, Seq<u64>>;

/// The parent link of every node that the tree holds, by node id.
pub uninterp spec fn tree_parents(tree: taffy::TaffyTree<()>) -> Map<u64, Option<u64>>;

/// The box last computed for every node, by node id, each coordinate cut
/// to a whole number of units.
pub uninterp spec fn tree_layouts(tree: taffy::TaffyTree<()>) -> Map<u64, Layout>;

/// Whether following parent links from `node` ends at a node without
/// parent after at most `steps` links, never leaving `parents`.
pub open spec fn climbs(parents: Map<u64, Option<u64>>, node: u64, steps: nat) -> bool
    decreases steps,
{
    parents.contains_key(node) && match parents[node] {
        None => true,
        Some(p) => steps > 0 && climbs(parents, p, (steps - 1) as nat),
    }
}

/// Whether every path down from `node` along child lists ends after at most
/// `steps` links, never leaving `children`.
pub open spec fn descends(children: Map<u64, Seq<u64>>, node: u64, steps: nat) -> bool
    decreases steps,
{
    children.contains_key(node) && forall|i: int|
        0 <= i < children[node].len() ==> steps > 0 && descends(
            children,
            #[trigger] children[node][i],
            (steps - 1) as nat,
        )
}

/// `list` with every occurrence of `node` taken out.
pub open spec fn without(list: Seq<u64>, node: u64) -> Seq<u64>
    decreases list.len(),
{
    if list.len() == 0 {
        list
    } else if list.last() == node {
        without(list.drop_last(), node)
    } else {
        without(list.drop_last(), node).push(list.last())
    }
}

/// The child lists after `node` is removed: `node` is gone, and gone from
/// its parent's list.
pub open spec fn children_without(
    children: Map<u64, Seq<u64>>,
    parents: Map<u64, Option<u64>>,
    node: u64,
) -> Map<u64, Seq<u64>> {
    match parents[node] {
        Some(p) => if children.contains_key(p) {
            children.insert(p, without(children[p], node)).remove(node)
        } else {
            children.remove(node)
        },
        None => children.remove(node),
    }
}

/// The parent links after `node` is removed: `node` is gone, and its
/// children have no parent.
pub open spec fn parents_without(
    children: Map<u64, Seq<u64>>,
    parents: Map<u64, Option<u64>>,
    node: u64,
) -> Map<u64, Option<u64>> {
    Map::new(
        |k: u64| parents.contains_key(k) && k != node,
        |k: u64|
            if children[node].contains(k) {
                None
            } else {
                parents[k]
            },
    )
}

/// An empty tree.
///
/// Calls `TaffyTree::new`, which starts with no node.
#[verifier::external_body]
pub(crate) fn new_tree() -> (tree: taffy::TaffyTree<()>)
    ensures
        tree_children(tree).dom() == Set::<u64>::empty(),
        tree_parents(tree).dom() == Set::<u64>::empty(),
{
    taffy::TaffyTree::new()
}

/// Adds a node without parent or children.
///
/// Calls `TaffyTree::new_leaf`, which inserts the node with `style`, an
/// empty child list and no parent under a key that the tree does not hold,
/// touches no other node, and always returns `Ok`.
#[verifier::external_body]
pub(crate) fn new_leaf(tree: &mut taffy::TaffyTree<()>, style: taffy::Style) -> (r: Result<
    u64,
    taffy::TaffyError,
>)
    ensures
        r is Ok,
        !tree_children(*old(tree)).contains_key(r->Ok_0),
        !tree_parents(*old(tree)).contains_key(r->Ok_0),
        tree_children(*final(tree)) == tree_children(*old(tree)).insert(r->Ok_0, Seq::empty()),
        tree_parents(*final(tree)) == tree_parents(*old(tree)).insert(r->Ok_0, None),
        tree_styles(*final(tree)) == tree_styles(*old(tree)).insert(r->Ok_0, style_record(style)),
{
    tree.new_leaf(style).map(u64::from)
}

/// Appends `child` to the children of `parent`.
///
/// Calls `TaffyTree::add_child`, which sets the parent link of `child`,
/// pushes `child` onto the child list of `parent`, clears the layout cache
/// of `parent` and of every node above it, and returns `Ok`. It indexes the
/// tree by both ids and walks the parent links up from `parent`, so both
/// must be held and the walk must end.
#[verifier::external_body]
pub(crate) fn add_child(tree: &mut taffy::TaffyTree<()>, parent: u64, child: u64) -> (r: Result<
    (),
    taffy::TaffyError,
>)
    requires
        tree_children(*old(tree)).contains_key(parent),
        tree_parents(*old(tree)).contains_key(child),
        exists|steps: nat|
            climbs(tree_parents(*old(tree)).insert(child, Some(parent)), parent, steps),
    ensures
        r is Ok,
        tree_children(*final(tree)) == tree_children(*old(tree)).insert(
            parent,
            tree_children(*old(tree))[parent].push(child),
        ),
        tree_parents(*final(tree)) == tree_parents(*old(tree)).insert(child, Some(parent)),
        tree_styles(*final(tree)) == tree_styles(*old(tree)),
{
    tree.add_child(taffy::NodeId::from(parent), taffy::NodeId::from(child))
}

/// Removes `node` from the tree.
///
/// Calls `TaffyTree::remove`, which takes `node` out of the child list of
/// its parent, clears the parent link of each of its children, drops the
/// node, and returns `Ok`. It indexes the tree by `node` and by each of
/// its children, so they must be held.
#[verifier::external_body]
pub(crate) fn remove(tree: &mut taffy::TaffyTree<()>, node: u64) -> (r: Result<
    u64,
    taffy::TaffyError,
>)
    requires
        tree_children(*old(tree)).contains_key(node),
        tree_parents(*old(tree)).contains_key(node),
        forall|i: int|
            0 <= i < tree_children(*old(tree))[node].len() ==> tree_parents(
                *old(tree),
            ).contains_key(#[trigger] tree_children(*old(tree))[node][i]),
    ensures
        r is Ok,
        r->Ok_0 == node,
        tree_children(*final(tree)) == children_without(
            tree_children(*old(tree)),
            tree_parents(*old(tree)),
            node,
        ),
        tree_parents(*final(tree)) == parents_without(
            tree_children(*old(tree)),
            tree_parents(*old(tree)),
            node,
        ),
        tree_styles(*final(tree)) == tree_styles(*old(tree)).remove(node),
{
    tree.remove(taffy::NodeId::from(node)).map(u64::from)
}

/// The children of `node`, in order.
///
/// Calls `TaffyTree::child_ids`, which walks the child list of `node`. It
/// indexes the tree by `node`, so the node must be held.
#[verifier::external_body]
pub(crate) fn child_ids(tree: &taffy::TaffyTree<()>, node: u64) -> (r: Vec<u64>)
    requires
        tree_children(*tree).contains_key(node),
    ensures
        r@ == tree_children(*tree)[node],
{
    tree.child_ids(taffy::NodeId::from(node)).map(u64::from).collect()
}

/// Sets both sides of the size of `node` to lengths.
///
/// Calls `TaffyTree::style` and `TaffyTree::set_style`: stores the style of
/// `node` back with the new size, clears the layout cache from `node` up,
/// and returns `Ok`; all else stays. A length is held as a float, which is
/// whole up to `WHOLE`. It indexes the tree by `node` and walks the
/// parent links up from it, so the walk must end.
#[verifier::external_body]
pub(crate) fn set_size(tree: &mut taffy::TaffyTree<()>, node: u64, width: i32, height: i32) -> (r:
    Result<(), taffy::TaffyError>)
    requires
        exists|steps: nat| climbs(tree_parents(*old(tree)), node, steps),
        -WHOLE <= width <= WHOLE,
        -WHOLE <= height <= WHOLE,
    ensures
        r is Ok,
        tree_children(*final(tree)) == tree_children(*old(tree)),
        tree_parents(*final(tree)) == tree_parents(*old(tree)),
        tree_styles(*final(tree)) == tree_styles(*old(tree)).insert(
            node,
            with_size(tree_styles(*old(tree))[node], width, height),
        ),
{
    let id = taffy::NodeId::from(node);
    let size = taffy::Size {
        width: taffy::Dimension::Length(width as _),
        height: taffy::Dimension::Length(height as _),
    };
    let style = taffy::Style { size, ..tree.style(id)?.clone() };
    tree.set_style(id, style)
}

/// Lays out the tree under `root` in unbounded space.
///
/// Calls `TaffyTree::compute_layout` with `Size::MAX_CONTENT`, which
/// recomputes the box of `root` and of every node below it and returns
/// `Ok`. The links of the tree stay as they are. It walks the child lists
/// down from `root`, so the walk must end.
#[verifier::external_body]
pub(crate) fn compute_layout(tree: &mut taffy::TaffyTree<()>, root: u64) -> (r: Result<
    (),
    taffy::TaffyError,
>)
    requires
        exists|steps: nat| descends(tree_children(*old(tree)), root, steps),
    ensures
        r is Ok,
        tree_children(*final(tree)) == tree_children(*old(tree)),
        tree_parents(*final(tree)) == tree_parents(*old(tree)),
        tree_styles(*final(tree)) == tree_styles(*old(tree)),
{
    tree.compute_layout(taffy::NodeId::from(root), taffy::Size::MAX_CONTENT)
}

/// The box last computed for `node`.
///
/// Calls `TaffyTree::layout`, which indexes the tree by `node` and returns
/// `Ok` with the stored box. The coordinates are cut to whole units.
#[verifier::external_body]
pub(crate) fn layout(tree: &taffy::TaffyTree<()>, node: u64) -> (r: Result<
    Layout,
    taffy::TaffyError,
>)
    requires
        tree_children(*tree).contains_key(node),
    ensures
        r is Ok,
        r->Ok_0 == tree_layouts(*tree)[node],
{
    let l = tree.layout(taffy::NodeId::from(node))?;
    Ok(
        Layout {
            location: Vec2 { x: l.location.x as i32, y: l.location.y as i32 },
            size: Vec2 { x: l.size.width as i32, y: l.size.height as i32 },
            content_size: Vec2 { x: l.content_size.width as i32, y: l.content_size.height as i32 },
        },
    )
}

/// The solver's default style, which is the record's: content-sized, no
/// margin or padding, a row, no alignment, in the flow, no edge pinned.
/// Calls `taffy::Style::default`.
#[verifier::external_body]
fn default_style() -> (style: taffy::Style)
    ensures
        style_record(style) == FlexStyle::spec_default(),
{
    taffy::Style::default()
}

/// `style` with its width set to a length; every other field stays. The
/// length is held as a float, which is whole up to `WHOLE`.
#[verifier::external_body]
fn style_width(style: taffy::Style, width: i32) -> (r: taffy::Style)
    requires
        -WHOLE <= width <= WHOLE,
    ensures
        style_record(r) == (FlexStyle {
            size: (Size { width: Dimension::Length(width), ..style_record(style).size }),
            ..style_record(style)
        }),
{
    let width = taffy::Dimension::Length(width as _);
    taffy::Style { size: taffy::Size { width, ..style.size }, ..style }
}

/// `style` with its height set to a length; every other field stays. The
/// length is held as a float, which is whole up to `WHOLE`.
#[verifier::external_body]
fn style_height(style: taffy::Style, height: i32) -> (r: taffy::Style)
    requires
        -WHOLE <= height <= WHOLE,
    ensures
        style_record(r) == (FlexStyle {
            size: (Size { height: Dimension::Length(height), ..style_record(style).size }),
            ..style_record(style)
        }),
{
    let height = taffy::Dimension::Length(height as _);
    taffy::Style { size: taffy::Size { height, ..style.size }, ..style }
}

/// `style` with its margin set to lengths; every other field stays. The
/// lengths are held as floats, which are whole up to `WHOLE`.
#[verifier::external_body]
fn style_margin(style: taffy::Style, margin: Rect) -> (r: taffy::Style)
    requires
        margin == held_rect(margin),
    ensures
        style_record(r) == (FlexStyle { margin, ..style_record(style) }),
{
    let margin = taffy::Rect {
        left: taffy::LengthPercentageAuto::Length(margin.left as _),
        right: taffy::LengthPercentageAuto::Length(margin.right as _),
        top: taffy::LengthPercentageAuto::Length(margin.top as _),
        bottom: taffy::LengthPercentageAuto::Length(margin.bottom as _),
    };
    taffy::Style { margin, ..style }
}

/// `style` with its padding set to lengths; every other field stays. The
/// lengths are held as floats, which are whole up to `WHOLE`.
#[verifier::external_body]
fn style_padding(style: taffy::Style, padding: Rect) -> (r: taffy::Style)
    requires
        padding == held_rect(padding),
    ensures
        style_record(r) == (FlexStyle { padding, ..style_record(style) }),
{
    let padding = taffy::Rect {
        left: taffy::LengthPercentage::Length(padding.left as _),
        right: taffy::LengthPercentage::Length(padding.right as _),
        top: taffy::LengthPercentage::Length(padding.top as _),
        bottom: taffy::LengthPercentage::Length(padding.bottom as _),
    };
    taffy::Style { padding, ..style }
}

/// `style` with the given flex direction; every other field stays.
#[verifier::external_body]
fn style_direction(style: taffy::Style, direction: FlexDirection) -> (r: taffy::Style)
    ensures
        style_record(r) == (FlexStyle { flex_direction: direction, ..style_record(style) }),
{
    let flex_direction = match direction {
        FlexDirection::Row => taffy::FlexDirection::Row,
        FlexDirection::Column => taffy::FlexDirection::Column,
        FlexDirection::RowReverse => taffy::FlexDirection::RowReverse,
        FlexDirection::ColumnReverse => taffy::FlexDirection::ColumnReverse,
    };
    taffy::Style { flex_direction, ..style }
}

/// `style` with the alignment of its items across the main axis; every other field stays.
#[verifier::external_body]
fn style_align_items(style: taffy::Style, align: Align) -> (r: taffy::Style)
    ensures
        style_record(r) == (FlexStyle { align_items: Some(align), ..style_record(style) }),
{
    let align_items = Some(
        match align {
            Align::Start => taffy::AlignItems::Start,
            Align::End => taffy::AlignItems::End,
            Align::FlexStart => taffy::AlignItems::FlexStart,
            Align::FlexEnd => taffy::AlignItems::FlexEnd,
            Align::Center => taffy::AlignItems::Center,
            Align::Baseline => taffy::AlignItems::Baseline,
            Align::Stretch => taffy::AlignItems::Stretch,
        },
    );
    taffy::Style { align_items, ..style }
}

/// `style` with its own alignment across the main axis of its parent; every other field stays.
#[verifier::external_body]
fn style_align_self(style: taffy::Style, align: Align) -> (r: taffy::Style)
    ensures
        style_record(r) == (FlexStyle { align_self: Some(align), ..style_record(style) }),
{
    let align_self = Some(
        match align {
            Align::Start => taffy::AlignSelf::Start,
            Align::End => taffy::AlignSelf::End,
            Align::FlexStart => taffy::AlignSelf::FlexStart,
            Align::FlexEnd => taffy::AlignSelf::FlexEnd,
            Align::Center => taffy::AlignSelf::Center,
            Align::Baseline => taffy::AlignSelf::Baseline,
            Align::Stretch => taffy::AlignSelf::Stretch,
        },
    );
    taffy::Style { align_self, ..style }
}

/// `style` with its own alignment along the main axis of its parent; every other field stays.
#[verifier::external_body]
fn style_justify_self(style: taffy::Style, align: Align) -> (r: taffy::Style)
    ensures
        style_record(r) == (FlexStyle { justify_self: Some(align), ..style_record(style) }),
{
    let justify_self = Some(
        match align {
            Align::Start => taffy::JustifySelf::Start,
            Align::End => taffy::JustifySelf::End,
            Align::FlexStart => taffy::JustifySelf::FlexStart,
            Align::FlexEnd => taffy::JustifySelf::FlexEnd,
            Align::Center => taffy::JustifySelf::Center,
            Align::Baseline => taffy::JustifySelf::Baseline,
            Align::Stretch => taffy::JustifySelf::Stretch,
        },
    );
    taffy::Style { justify_self, ..style }
}

/// `style` with the distribution of its items along the main axis; every other field stays.
#[verifier::external_body]
fn style_justify_content(style: taffy::Style, distribute: Distribute) -> (r: taffy::Style)
    ensures
        style_record(r) == (FlexStyle { justify_content: Some(distribute), ..style_record(style) }),
{
    let justify_content = Some(
        match distribute {
            Distribute::Start => taffy::JustifyContent::Start,
            Distribute::End => taffy::JustifyContent::End,
            Distribute::FlexStart => taffy::JustifyContent::FlexStart,
            Distribute::FlexEnd => taffy::JustifyContent::FlexEnd,
            Distribute::Center => taffy::JustifyContent::Center,
            Distribute::Stretch => taffy::JustifyContent::Stretch,
        },
    );
    taffy::Style { justify_content, ..style }
}

/// `style` with the distribution of its lines across the main axis; every other field stays.
#[verifier::external_body]
fn style_align_content(style: taffy::Style, distribute: Distribute) -> (r: taffy::Style)
    ensures
        style_record(r) == (FlexStyle { align_content: Some(distribute), ..style_record(style) }),
{
    let align_content = Some(
        match distribute {
            Distribute::Start => taffy::AlignContent::Start,
            Distribute::End => taffy::AlignContent::End,
            Distribute::FlexStart => taffy::AlignContent::FlexStart,
            Distribute::FlexEnd => taffy::AlignContent::FlexEnd,
            Distribute::Center => taffy::AlignContent::Center,
            Distribute::Stretch => taffy::AlignContent::Stretch,
        },
    );
    taffy::Style { align_content, ..style }
}

/// `style` taken out of the flow of its parent; every other field stays.
#[verifier::external_body]
fn style_absolute(style: taffy::Style) -> (r: taffy::Style)
    ensures
        style_record(r) == (FlexStyle { position: Position::Absolute, ..style_record(style) }),
{
    taffy::Style { position: taffy::Position::Absolute, ..style }
}

/// `style` pinned at `length` from the left edge of its parent; every
/// other field stays. The length is held as a float, which is whole up to
/// `WHOLE`.
#[verifier::external_body]
fn style_inset_left(style: taffy::Style, length: i32) -> (r: taffy::Style)
    requires
        -WHOLE <= length <= WHOLE,
    ensures
        style_record(r) == (FlexStyle {
            inset: (Inset { left: Dimension::Length(length), ..style_record(style).inset }),
            ..style_record(style)
        }),
{
    let left = taffy::LengthPercentageAuto::Length(length as _);
    taffy::Style { inset: taffy::Rect { left, ..style.inset }, ..style }
}

/// `style` pinned at `length` from the right edge of its parent; every
/// other field stays. The length is held as a float, which is whole up to
/// `WHOLE`.
#[verifier::external_body]
fn style_inset_right(style: taffy::Style, length: i32) -> (r: taffy::Style)
    requires
        -WHOLE <= length <= WHOLE,
    ensures
        style_record(r) == (FlexStyle {
            inset: (Inset { right: Dimension::Length(length), ..style_record(style).inset }),
            ..style_record(style)
        }),
{
    let right = taffy::LengthPercentageAuto::Length(length as _);
    taffy::Style { inset: taffy::Rect { right, ..style.inset }, ..style }
}

/// `style` pinned at `length` from the top edge of its parent; every
/// other field stays. The length is held as a float, which is whole up to
/// `WHOLE`.
#[verifier::external_body]
fn style_inset_top(style: taffy::Style, length: i32) -> (r: taffy::Style)
    requires
        -WHOLE <= length <= WHOLE,
    ensures
        style_record(r) == (FlexStyle {
            inset: (Inset { top: Dimension::Length(length), ..style_record(style).inset }),
            ..style_record(style)
        }),
{
    let top = taffy::LengthPercentageAuto::Length(length as _);
    taffy::Style { inset: taffy::Rect { top, ..style.inset }, ..style }
}

/// `style` pinned at `length` from the bottom edge of its parent; every
/// other field stays. The length is held as a float, which is whole up to
/// `WHOLE`.
#[verifier::external_body]
fn style_inset_bottom(style: taffy::Style, length: i32) -> (r: taffy::Style)
    requires
        -WHOLE <= length <= WHOLE,
    ensures
        style_record(r) == (FlexStyle {
            inset: (Inset { bottom: Dimension::Length(length), ..style_record(style).inset }),
            ..style_record(style)
        }),
{
    let bottom = taffy::LengthPercentageAuto::Length(length as _);
    taffy::Style { inset: taffy::Rect { bottom, ..style.inset }, ..style }
}

/// `d` with its length, if it is one, brought into the range that the
/// solver holds as it is.
pub open spec fn held_dimension(d: Dimension) -> Dimension {
    match d {
        Dimension::Auto => Dimension::Auto,
        Dimension::Length(v) => Dimension::Length(held(v as int) as i32),
    }
}

/// `r` with each length brought into the range that the solver holds as
/// it is.
pub open spec fn held_rect(r: Rect) -> Rect {
    Rect {
        left: held(r.left as int) as i32,
        right: held(r.right as int) as i32,
        top: held(r.top as int) as i32,
        bottom: held(r.bottom as int) as i32,
    }
}

/// What the solver holds of a style record: the record with each length
/// brought into the range that the solver holds as it is.
pub open spec fn held_style(style: FlexStyle) -> FlexStyle {
    FlexStyle {
        size: Size {
            width: held_dimension(style.size.width),
            height: held_dimension(style.size.height),
        },
        margin: held_rect(style.margin),
        padding: held_rect(style.padding),
        inset: Inset {
            left: held_dimension(style.inset.left),
            right: held_dimension(style.inset.right),
            top: held_dimension(style.inset.top),
            bottom: held_dimension(style.inset.bottom),
        },
        ..style
    }
}

fn hold_rect(r: Rect) -> (out: Rect)
    ensures
        out == held_rect(r),
        out == held_rect(out),
{
    Rect { left: hold(r.left), right: hold(r.right), top: hold(r.top), bottom: hold(r.bottom) }
}

/// `d` where it is a length, brought into the range that the solver
/// holds as it is; else `was`.
pub open spec fn set_dimension(d: Dimension, was: Dimension) -> Dimension {
    match d {
        Dimension::Auto => was,
        Dimension::Length(_) => held_dimension(d),
    }
}

/// `out` with each side of `size` that is a length.
fn sized(out: taffy::Style, size: Size) -> (r: taffy::Style)
    ensures
        style_record(r) == (FlexStyle {
            size: (Size {
                width: set_dimension(size.width, style_record(out).size.width),
                height: set_dimension(size.height, style_record(out).size.height),
            }),
            ..style_record(out)
        }),
{
    let mut out = out;
    if let Dimension::Length(width) = size.width {
        out = style_width(out, hold(width));
    }
    if let Dimension::Length(height) = size.height {
        out = style_height(out, hold(height));
    }
    out
}

/// `out` with each alignment that `style` names.
fn aligned(out: taffy::Style, style: &FlexStyle) -> (r: taffy::Style)
    ensures
        style_record(r) == (FlexStyle {
            align_items: if style.align_items is Some { style.align_items } else { style_record(out).align_items },
            justify_content: if style.justify_content is Some { style.justify_content } else { style_record(out).justify_content },
            align_content: if style.align_content is Some { style.align_content } else { style_record(out).align_content },
            align_self: if style.align_self is Some { style.align_self } else { style_record(out).align_self },
            justify_self: if style.justify_self is Some { style.justify_self } else { style_record(out).justify_self },
            ..style_record(out)
        }),
{
    let mut out = out;
    if let Some(align) = style.align_items {
        out = style_align_items(out, align);
    }
    if let Some(distribute) = style.justify_content {
        out = style_justify_content(out, distribute);
    }
    if let Some(distribute) = style.align_content {
        out = style_align_content(out, distribute);
    }
    if let Some(align) = style.align_self {
        out = style_align_self(out, align);
    }
    if let Some(align) = style.justify_self {
        out = style_justify_self(out, align);
    }
    out
}

/// `out` pinned at each edge of `inset` that is a length.
fn pinned(out: taffy::Style, inset: Inset) -> (r: taffy::Style)
    ensures
        style_record(r) == (FlexStyle {
            inset: (Inset {
                left: set_dimension(inset.left, style_record(out).inset.left),
                right: set_dimension(inset.right, style_record(out).inset.right),
                top: set_dimension(inset.top, style_record(out).inset.top),
                bottom: set_dimension(inset.bottom, style_record(out).inset.bottom),
            }),
            ..style_record(out)
        }),
{
    let mut out = out;
    if let Dimension::Length(length) = inset.left {
        out = style_inset_left(out, hold(length));
    }
    if let Dimension::Length(length) = inset.right {
        out = style_inset_right(out, hold(length));
    }
    if let Dimension::Length(length) = inset.top {
        out = style_inset_top(out, hold(length));
    }
    if let Dimension::Length(length) = inset.bottom {
        out = style_inset_bottom(out, hold(length));
    }
    out
}

/// The solver's form of a style record: each side of the size and each
/// edge of the inset on its own, a length where the record has one.
pub(crate) fn solver_style(style: &FlexStyle) -> (r: taffy::Style)
    ensures
        style_record(r) == held_style(*style),
{
    let mut out = sized(default_style(), style.size);
    out = style_margin(out, hold_rect(style.margin));
    out = style_padding(out, hold_rect(style.padding));
    out = style_direction(out, style.flex_direction);
    out = aligned(out, style);
    match style.position {
        Position::Absolute => {
            out = style_absolute(out);
        },
        Position::Relative => {},
    }
    pinned(out, style.inset)
}

/// The record of a solver style: its size, margin, padding, direction,
/// alignments, position and inset, each length cut to a whole number of
/// units. Nothing is said of the record where the style holds what a
/// record cannot: a percentage, or items spaced apart.
pub uninterp spec fn style_record(style: taffy::Style) -> FlexStyle;

/// The style of every node that the tree holds, by node id, as a record,
/// each length cut to a whole number of units.
pub uninterp spec fn tree_styles(tree: taffy::TaffyTree<()>) -> Map<u64, FlexStyle>;

/// The greatest length that the solver holds as it is: its numbers are
/// floats, which are whole up to here.
pub const WHOLE: i32 = 16777216;

/// `v` brought into the range of the lengths that the solver holds as
/// they are.
pub open spec fn held(v: int) -> int {
    if v < -WHOLE {
        -WHOLE as int
    } else if v > WHOLE {
        WHOLE as int
    } else {
        v
    }
}

/// `v` brought into the range of the lengths that the solver holds as
/// they are.
pub fn hold(v: i32) -> (r: i32)
    ensures
        r == held(v as int),
{
    if v < -WHOLE {
        -WHOLE
    } else if v > WHOLE {
        WHOLE
    } else {
        v
    }
}

/// `style` with both sides of its size set to lengths.
pub open spec fn with_size(style: FlexStyle, width: i32, height: i32) -> FlexStyle {
    FlexStyle {
        size: Size {
            width: Dimension::Length(width),
            height: Dimension::Length(height),
        },
        ..style
    }
}

} // verus!
