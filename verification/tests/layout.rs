use binaries_ui::color::{green, Srgba};
use binaries_ui::components::element::{
    AlignItems, Attributes, Callback, Element, ElementType, FlexDirection, RenderAction,
};
use binaries_ui::components::stacks::{hstack, stack, vstack};
use binaries_ui::components::{circle, element, rectangle, text};
use binaries_ui::components::{UIMouseState, UIRenderMode};
use binaries_ui::context::MemState;
use binaries_ui::layout::{LayoutError, UILayouts};
use binaries_ui::math::{Vec2, Vec3, Vec4};
use binaries_ui::painter::{Painter, Primitive};
use binaries_ui::shape::{Shape, ShapeUpdate};
use binaries_ui::traits::UIElement;
use std::sync::Arc;

const ORIGIN: Vec3 = Vec3 { x: -400, y: 300, z: 0 };

struct Count;

impl Callback for Count {
    fn call(&self, _element: &mut Attributes, state: &mut MemState) {
        state.selection_current += 1;
    }
}

fn pointer_at(x: i32, y: i32) -> MemState {
    let mut cxt = MemState::new();
    cxt.mouse_position = Vec2::new(x, y);
    cxt
}

fn attributes(layouts: &UILayouts, node: u64) -> &Attributes {
    &layouts.get(node).unwrap().attributes
}

#[test]
fn a_new_engine_holds_the_root() {
    let layouts = UILayouts::new().unwrap();
    let root = layouts.root();
    assert_eq!(layouts.nodes(), vec![root]);
    assert_eq!(layouts.children(root), Some(vec![]));
    assert_eq!(layouts.debug_root(), None);
    assert_eq!(layouts.mirrors(), 0);
    assert!(layouts.contains(root));
    let a = attributes(&layouts, root);
    assert_eq!(a.tile, "root");
    assert_eq!(a.background_color, green());
    assert!(layouts.get(root + 1).is_none());
    assert_eq!(layouts.layout(root + 1), None);
    assert_eq!(layouts.children(root + 1), None);
}

#[test]
fn a_row_places_its_children_one_after_the_other() {
    let mut layouts = UILayouts::new().unwrap();
    let row = layouts.push_element(element().direction(FlexDirection::Row)).unwrap();
    let a = layouts.push_element_with_id(rectangle().size(Vec2::new(20, 10)), row).unwrap();
    let b = layouts.push_element_with_id(rectangle().size(Vec2::new(30, 10)), row).unwrap();
    let c = layouts.push_element_with_id(rectangle().size(Vec2::new(50, 10)), row).unwrap();
    layouts.update(&MemState::new(), ORIGIN).unwrap();
    assert_eq!(layouts.children(row), Some(vec![a, b, c]));
    assert_eq!(layouts.nodes(), vec![layouts.root(), row, a, b, c]);
    assert_eq!(layouts.layout(a).unwrap().location.x, 0);
    assert_eq!(layouts.layout(b).unwrap().location.x, 20);
    assert_eq!(layouts.layout(c).unwrap().location.x, 50);
    assert!(layouts.layout(row).unwrap().size.x >= 100);
    assert_eq!(layouts.layout(layouts.root()).unwrap().size, Vec2::new(800, 600));
    assert_eq!(layouts.layout(row).unwrap().size, Vec2::new(800, 600));
    assert_eq!(attributes(&layouts, a).layout_size, Vec2::new(20, 10));
    assert_eq!(attributes(&layouts, b).layout_anchor, Vec3::new(-400 + 20 + 15, 300 - 5, 0));
    assert_eq!(attributes(&layouts, row).layout_anchor, Vec3::new(0, 0, 0));
    assert_eq!(attributes(&layouts, layouts.root()).layout_size, Vec2::zero());
}

#[test]
fn a_column_with_margins_and_centred_children() {
    let mut layouts = UILayouts::new().unwrap();
    let column = vstack((
        rectangle().size(Vec2::new(100, 40)).margin(Vec4::new(10, 20, 0, 5)),
        rectangle().size(Vec2::new(60, 30)),
    ))
    .horizontal_alignment(AlignItems::Center)
    .padding(Vec4::new(2, 3, 0, 0))
    .push_to_layout(&mut layouts)
    .unwrap();
    layouts.update(&MemState::new(), ORIGIN).unwrap();
    let kids = layouts.children(column).unwrap();
    let first = layouts.layout(kids[0]).unwrap();
    let second = layouts.layout(kids[1]).unwrap();
    assert_eq!(first.size, Vec2::new(100, 40));
    assert_eq!(first.location.y, 3 + 20);
    assert_eq!(second.location.y, 3 + 20 + 40 + 5);
    assert_eq!(first.location.x, 2 + (798 - 110) / 2 + 10);
    assert_eq!(second.location.x, 2 + (798 - 60) / 2);
}

#[test]
fn a_nested_node_is_anchored_from_its_ancestors() {
    let mut layouts = UILayouts::new().unwrap();
    let top = hstack((
        rectangle().size(Vec2::new(100, 100)),
        hstack((rectangle().size(Vec2::new(30, 30)), rectangle().size(Vec2::new(40, 20)))).offset(Vec3::new(5, 7, 0)),
    ))
    .push_to_layout(&mut layouts)
    .unwrap();
    layouts.update(&MemState::new(), ORIGIN).unwrap();
    let kids = layouts.children(top).unwrap();
    let inner = layouts.children(kids[1]).unwrap();
    assert_eq!(layouts.layout(kids[1]).unwrap().location, Vec2::new(100, 0));
    assert_eq!(layouts.layout(inner[1]).unwrap().location, Vec2::new(30, 0));
    assert_eq!(attributes(&layouts, kids[1]).layout_anchor, Vec3::new(-400 + 100 + 35 + 5, 300 - 15 + 7, 0));
    assert_eq!(attributes(&layouts, inner[1]).layout_anchor, Vec3::new(-400 + 30 + 20 + 100 + 5, 300 - 10 + 7, 0));
}

#[test]
fn pushing_under_an_unknown_node_is_refused() {
    let mut layouts = UILayouts::new().unwrap();
    let missing = layouts.root() + 12345;
    assert_eq!(layouts.push_element_with_id(element(), missing), Err(LayoutError::UnknownNode(missing)));
    assert!(layouts.children(layouts.root()).unwrap().is_empty());
    assert_eq!(layouts.nodes().len(), 1);
}

#[test]
fn a_plain_element_is_added_under_the_root() {
    let mut layouts = UILayouts::new().unwrap();
    let node = element().title("alone").add_to_layout(&mut layouts).unwrap();
    assert_eq!(layouts.children(layouts.root()), Some(vec![node]));
    assert_eq!(layouts.children(node), Some(vec![]));
    assert_eq!(attributes(&layouts, node).tile, "alone");
    let second = stack(element()).add_to_layout(&mut layouts).unwrap();
    assert_eq!(layouts.children(layouts.root()), Some(vec![node, second]));
    assert_eq!(layouts.children(second).unwrap().len(), 1);
}

#[test]
fn the_pointer_hovers_what_it_is_over() {
    let mut layouts = UILayouts::new().unwrap();
    let row = hstack((rectangle().size(Vec2::new(20, 20)), rectangle().size(Vec2::new(20, 20))))
        .push_to_layout(&mut layouts)
        .unwrap();
    let kids = layouts.children(row).unwrap();
    layouts.update(&pointer_at(25, 5), ORIGIN).unwrap();
    assert_eq!(attributes(&layouts, kids[0]).render_state, UIMouseState::Release);
    assert_eq!(attributes(&layouts, kids[1]).render_state, UIMouseState::Hover);
    assert_eq!(attributes(&layouts, row).render_state, UIMouseState::Hover);
    layouts.update(&pointer_at(5, 5), ORIGIN).unwrap();
    assert_eq!(attributes(&layouts, kids[0]).render_state, UIMouseState::Hover);
    assert_eq!(attributes(&layouts, kids[1]).render_state, UIMouseState::Release);
    layouts.update(&pointer_at(-1, 5), ORIGIN).unwrap();
    assert_eq!(attributes(&layouts, kids[0]).render_state, UIMouseState::Hover);
}

#[test]
fn a_group_hands_its_state_to_every_descendant() {
    let mut layouts = UILayouts::new().unwrap();
    let group = stack(hstack((rectangle().size(Vec2::new(20, 20)), circle(5))).size(Vec2::new(100, 50)))
        .render_mode(UIRenderMode::Group)
        .push_to_layout(&mut layouts)
        .unwrap();
    let inner = layouts.children(group).unwrap()[0];
    let leaves = layouts.children(inner).unwrap();
    layouts.update(&pointer_at(5, 5), ORIGIN).unwrap();
    layouts.update_input_state(UIMouseState::Pressed);
    assert_eq!(attributes(&layouts, leaves[0]).action_state, UIMouseState::Pressed);
    layouts.update(&pointer_at(300, 300), ORIGIN).unwrap();
    assert_eq!(attributes(&layouts, group).render_state, UIMouseState::Hover);
    for node in [inner, leaves[0], leaves[1]] {
        assert_eq!(attributes(&layouts, node).render_state, UIMouseState::Hover);
        assert_eq!(attributes(&layouts, node).action_state, UIMouseState::Release);
    }
    layouts.update_input_state(UIMouseState::Click);
    assert_eq!(attributes(&layouts, group).action_state, UIMouseState::Click);
    layouts.update(&pointer_at(300, 300), ORIGIN).unwrap();
    assert_eq!(attributes(&layouts, leaves[1]).action_state, UIMouseState::Release);
    assert_eq!(attributes(&layouts, group).action_state, UIMouseState::Click);
}

#[test]
fn without_a_group_every_node_resolves_its_own() {
    let mut layouts = UILayouts::new().unwrap();
    let top = stack(hstack((rectangle().size(Vec2::new(20, 20)), circle(5))).size(Vec2::new(100, 50)))
        .push_to_layout(&mut layouts)
        .unwrap();
    let inner = layouts.children(top).unwrap()[0];
    let leaves = layouts.children(inner).unwrap();
    layouts.update(&pointer_at(300, 300), ORIGIN).unwrap();
    assert_eq!(attributes(&layouts, top).render_state, UIMouseState::Hover);
    assert_eq!(attributes(&layouts, inner).render_state, UIMouseState::Release);
    assert_eq!(attributes(&layouts, leaves[0]).render_state, UIMouseState::Release);
}

#[test]
fn a_group_at_rest_hands_its_rest_down() {
    let mut layouts = UILayouts::new().unwrap();
    let top = hstack((
        stack(rectangle().size(Vec2::new(20, 20))).size(Vec2::new(50, 50)).render_mode(UIRenderMode::Group),
        rectangle().size(Vec2::new(20, 20)),
    ))
    .push_to_layout(&mut layouts)
    .unwrap();
    let kids = layouts.children(top).unwrap();
    let inside = layouts.children(kids[0]).unwrap()[0];
    layouts.update(&pointer_at(55, 5), ORIGIN).unwrap();
    assert_eq!(attributes(&layouts, kids[0]).render_state, UIMouseState::Release);
    assert_eq!(attributes(&layouts, inside).render_state, UIMouseState::Release);
    assert_eq!(attributes(&layouts, kids[1]).render_state, UIMouseState::Hover);
    layouts.update(&pointer_at(30, 30), ORIGIN).unwrap();
    assert_eq!(attributes(&layouts, kids[0]).render_state, UIMouseState::Hover);
    assert_eq!(attributes(&layouts, inside).render_state, UIMouseState::Hover);
    layouts.update_input_state(UIMouseState::Pressed);
    assert_eq!(attributes(&layouts, kids[0]).action_state, UIMouseState::Pressed);
    assert_eq!(attributes(&layouts, inside).action_state, UIMouseState::Pressed);
    layouts.update(&pointer_at(55, 5), ORIGIN).unwrap();
    assert_eq!(attributes(&layouts, kids[0]).render_state, UIMouseState::Release);
    assert_eq!(attributes(&layouts, kids[0]).action_state, UIMouseState::Pressed);
    assert_eq!(attributes(&layouts, inside).render_state, UIMouseState::Release);
    assert_eq!(attributes(&layouts, inside).action_state, UIMouseState::Release);
}

#[test]
fn a_group_without_a_highlight_still_decides_for_what_is_below() {
    let mut layouts = UILayouts::new().unwrap();
    let mut group = stack(rectangle().size(Vec2::new(20, 20))).size(Vec2::new(50, 50)).render_mode(UIRenderMode::Group);
    group.element.attributes.render = RenderAction::empty();
    let top = hstack((group, rectangle().size(Vec2::new(20, 20)))).push_to_layout(&mut layouts).unwrap();
    let kids = layouts.children(top).unwrap();
    let inside = layouts.children(kids[0]).unwrap()[0];
    layouts.update(&pointer_at(30, 30), ORIGIN).unwrap();
    assert_eq!(attributes(&layouts, kids[0]).render_state, UIMouseState::Hover);
    assert_eq!(layouts.get(kids[0]).unwrap().get_render_state(), None);
    assert_eq!(attributes(&layouts, inside).render_state, UIMouseState::Hover);
    assert_eq!(attributes(&layouts, inside).action_state, UIMouseState::Release);
    assert_eq!(attributes(&layouts, kids[1]).render_state, UIMouseState::Release);
}

#[test]
fn a_click_fires_once() {
    let mut layouts = UILayouts::new().unwrap();
    let node = layouts.push_element(rectangle().size(Vec2::new(50, 50)).click(Arc::new(Count))).unwrap();
    let mut cxt = pointer_at(10, 10);
    layouts.update(&cxt, ORIGIN).unwrap();
    assert_eq!(attributes(&layouts, node).render_state, UIMouseState::Hover);
    layouts.update_input_state(UIMouseState::Click);
    assert_eq!(attributes(&layouts, node).action_state, UIMouseState::Click);
    cxt.selection_current = 0;
    layouts.exc_action(&mut cxt);
    assert_eq!(cxt.selection_current, 1);
    assert_eq!(attributes(&layouts, node).action_state, UIMouseState::Release);
    layouts.exc_action(&mut cxt);
    assert_eq!(cxt.selection_current, 1);
}

#[test]
fn a_click_beside_the_element_fires_nothing() {
    let mut layouts = UILayouts::new().unwrap();
    let node = hstack((rectangle().size(Vec2::new(50, 50)).click(Arc::new(Count)), rectangle().size(Vec2::new(50, 50))))
        .push_to_layout(&mut layouts)
        .unwrap();
    let first = layouts.children(node).unwrap()[0];
    let mut cxt = pointer_at(60, 10);
    layouts.update(&cxt, ORIGIN).unwrap();
    layouts.update_input_state(UIMouseState::Click);
    assert_eq!(attributes(&layouts, first).action_state, UIMouseState::Release);
    layouts.exc_action(&mut cxt);
    assert_eq!(cxt.selection_current, -1);
}

#[test]
fn the_frame_is_drawn_in_tree_order() {
    let mut layouts = UILayouts::new().unwrap();
    hstack((
        rectangle().size(Vec2::new(20, 10)).color(Srgba::rgb(1, 0, 0)),
        hstack(circle(4).color(Srgba::rgb(2, 0, 0))).size(Vec2::new(30, 30)),
        rectangle().size(Vec2::new(50, 10)).color(Srgba::rgb(3, 0, 0)),
    ))
    .push_to_layout(&mut layouts)
    .unwrap();
    layouts.update(&MemState::new(), ORIGIN).unwrap();
    let mut painter = Painter::new();
    layouts.draw(&mut painter);
    let reds: Vec<u8> = painter.commands.iter().map(|c| c.color.red).collect();
    assert_eq!(reds, vec![1, 2, 3]);
    assert_eq!(painter.commands[0].primitive, Primitive::Rect { size: Vec2::new(20, 10) });
    assert_eq!(painter.commands[0].translation, Vec3::new(-400 + 10, 300 - 5, 0));
    assert_eq!(painter.commands[1].primitive, Primitive::Circle { radius: 4 });
    assert_eq!(painter.commands[1].translation, Vec3::new(-400 + 20, 300, 1));
    assert_eq!(painter.translation, Vec3::zero());
    assert_eq!(painter.color, Srgba::black());
    assert_eq!(painter.corner_radii, Vec4::zero());
    let taken = painter.take_commands();
    assert_eq!(taken.len(), 3);
    assert!(painter.commands.is_empty());
}

#[test]
fn the_overlay_is_generated_once() {
    let mut layouts = UILayouts::new().unwrap();
    let top = hstack((
        vstack((rectangle().title("a"), rectangle().title("b"))).title("left"),
        Element::new().element_type(ElementType::Debug),
    ))
    .title("top")
    .push_to_layout(&mut layouts)
    .unwrap();
    let kids = layouts.children(top).unwrap();
    let overlay = kids[1];
    assert_eq!(layouts.debug_root(), Some(overlay));
    assert_eq!(layouts.mirrors(), 0);
    let before = layouts.nodes().len();
    layouts.update(&MemState::new(), ORIGIN).unwrap();
    assert_eq!(layouts.mirrors(), 5);
    let after = layouts.nodes().len();
    assert_eq!(after, before + 5 * 2 + 3 * 2);
    let records: Vec<Option<u64>> = layouts.nodes().iter().map(|n| layouts.mirror(*n)).collect();
    for _ in 0..3 {
        layouts.update(&MemState::new(), ORIGIN).unwrap();
    }
    assert_eq!(layouts.mirrors(), 5);
    assert_eq!(layouts.nodes().len(), after);
    let again: Vec<Option<u64>> = layouts.nodes().iter().map(|n| layouts.mirror(*n)).collect();
    assert_eq!(records, again);
    assert_eq!(layouts.mirror(overlay), None);
    let late = layouts.push_element_with_id(rectangle().title("late"), top).unwrap();
    layouts.update(&MemState::new(), ORIGIN).unwrap();
    assert_eq!(layouts.mirrors(), 5);
    assert_eq!(layouts.mirror(late), None);
}

#[test]
fn the_overlay_mirrors_the_tree() {
    let mut layouts = UILayouts::new().unwrap();
    let top = hstack((rectangle().title("leaf"), Element::new().element_type(ElementType::Debug)))
        .title("top")
        .push_to_layout(&mut layouts)
        .unwrap();
    let kids = layouts.children(top).unwrap();
    let overlay = kids[1];
    layouts.update(&MemState::new(), ORIGIN).unwrap();
    let root = layouts.root();
    let column = layouts.children(overlay).unwrap();
    assert_eq!(column.len(), 1);
    assert_eq!(attributes(&layouts, column[0]).flex_direction, FlexDirection::Column);
    let parts = layouts.children(column[0]).unwrap();
    assert_eq!(parts.len(), 2);
    assert_eq!(layouts.mirror(root), Some(parts[0]));
    let label = attributes(&layouts, parts[0]);
    assert_eq!(label.layout_size, Vec2::new(100, 50));
    assert_eq!(label.color, Srgba::black());
    assert_eq!(label.self_main_axis_alignment, AlignItems::Center);
    let words = layouts.children(parts[0]).unwrap();
    assert_eq!(words.len(), 1);
    match &attributes(&layouts, words[0]).shape {
        Some(Shape::Text(t)) => assert_eq!(t.content, "root"),
        _ => panic!("no text"),
    }
    let below = layouts.children(parts[1]).unwrap();
    assert_eq!(below.len(), 1);
    let top_parts = layouts.children(below[0]).unwrap();
    assert_eq!(layouts.mirror(top), Some(top_parts[0]));
    let leaves = layouts.children(top_parts[1]).unwrap();
    assert_eq!(leaves.len(), 1);
    assert_eq!(layouts.mirror(kids[0]), Some(leaves[0]));
    assert_eq!(attributes(&layouts, leaves[0]).self_main_axis_alignment, AlignItems::NotSet);
    match &attributes(&layouts, layouts.children(leaves[0]).unwrap()[0]).shape {
        Some(Shape::Text(t)) => assert_eq!(t.content, "leaf"),
        _ => panic!("no text"),
    }
}

#[test]
fn a_mirror_shows_what_its_content_node_shows() {
    let mut layouts = UILayouts::new().unwrap();
    let top = hstack((rectangle().size(Vec2::new(50, 50)), Element::new().element_type(ElementType::Debug)))
        .push_to_layout(&mut layouts)
        .unwrap();
    let leaf = layouts.children(top).unwrap()[0];
    layouts.update(&MemState::new(), ORIGIN).unwrap();
    let mirror = layouts.mirror(leaf).unwrap();
    layouts.update(&pointer_at(10, 10), ORIGIN).unwrap();
    assert_eq!(attributes(&layouts, leaf).render_state, UIMouseState::Hover);
    assert_eq!(attributes(&layouts, mirror).render_state, UIMouseState::Hover);
    let at = attributes(&layouts, mirror).layout_anchor;
    assert!(attributes(&layouts, mirror).layout_size.x >= 2 && attributes(&layouts, mirror).layout_size.y >= 2);
    layouts.update(&pointer_at(at.x - ORIGIN.x, ORIGIN.y - at.y), ORIGIN).unwrap();
    assert_eq!(attributes(&layouts, leaf).render_state, UIMouseState::Release);
    assert_eq!(attributes(&layouts, mirror).render_state, UIMouseState::Release);
    layouts.update(&pointer_at(10, 10), ORIGIN).unwrap();
    let mut painter = Painter::new();
    layouts.draw(&mut painter);
    let lines: Vec<_> = painter
        .commands
        .iter()
        .filter(|c| matches!(c.primitive, Primitive::Line { .. }))
        .collect();
    assert_eq!(lines.len(), 2 * 3);
    assert!(lines.iter().all(|c| c.color == Srgba::black() && c.thickness == 3 && c.translation == Vec3::zero()));
    let from = attributes(&layouts, layouts.mirror(top).unwrap()).layout_anchor;
    let to = attributes(&layouts, mirror).layout_anchor;
    match (lines[3].primitive, lines[5].primitive) {
        (Primitive::Line { start, .. }, Primitive::Line { end, .. }) => {
            assert_eq!(start, Vec3::new(from.x, from.y, from.z - 1));
            assert_eq!(end, Vec3::new(to.x, to.y, to.z - 1));
        }
        _ => panic!("no lines"),
    }
}

#[test]
fn clearing_a_node_removes_what_is_below_it() {
    let mut layouts = UILayouts::new().unwrap();
    let top = hstack((
        vstack((rectangle().title("a"), hstack((rectangle().title("b"), rectangle().title("c"))))),
        rectangle().title("d"),
        rectangle().title("e"),
    ))
    .push_to_layout(&mut layouts)
    .unwrap();
    let kids = layouts.children(top).unwrap();
    let gone: Vec<u64> = {
        let below = layouts.children(kids[0]).unwrap();
        let lowest = layouts.children(below[1]).unwrap();
        vec![kids[0], below[0], below[1], lowest[0], lowest[1]]
    };
    assert_eq!(layouts.nodes().len(), 9);
    assert_eq!(layouts.clear_node(kids[0]), Ok(()));
    assert_eq!(layouts.children(top), Some(vec![kids[1], kids[2]]));
    assert_eq!(layouts.nodes(), vec![layouts.root(), top, kids[1], kids[2]]);
    for node in gone {
        assert!(!layouts.contains(node));
        assert!(layouts.get(node).is_none());
    }
    assert_eq!(attributes(&layouts, kids[1]).tile, "d");
    layouts.update(&MemState::new(), ORIGIN).unwrap();
    assert_eq!(layouts.layout(kids[2]).unwrap().location.x, 0);
    assert_eq!(layouts.clear_node(kids[2]), Ok(()));
    assert_eq!(layouts.children(top), Some(vec![kids[1]]));
    let more = layouts.push_element_with_id(rectangle(), top).unwrap();
    assert_eq!(layouts.children(top), Some(vec![kids[1], more]));
}

#[test]
fn the_root_and_strangers_cannot_be_cleared() {
    let mut layouts = UILayouts::new().unwrap();
    let node = layouts.push_element(element()).unwrap();
    let root = layouts.root();
    assert_eq!(layouts.clear_node(root), Err(LayoutError::Root));
    assert_eq!(layouts.clear_node(node + 999), Err(LayoutError::UnknownNode(node + 999)));
    assert_eq!(layouts.nodes(), vec![root, node]);
    assert_eq!(layouts.clear_node(node), Ok(()));
    assert_eq!(layouts.clear_node(node), Err(LayoutError::UnknownNode(node)));
}

#[test]
fn clearing_the_overlay_root_forgets_it() {
    let mut layouts = UILayouts::new().unwrap();
    let top = hstack((rectangle(), Element::new().element_type(ElementType::Debug)))
        .push_to_layout(&mut layouts)
        .unwrap();
    let overlay = layouts.children(top).unwrap()[1];
    layouts.update(&MemState::new(), ORIGIN).unwrap();
    assert_eq!(layouts.mirrors(), 3);
    assert_eq!(layouts.clear_node(overlay), Ok(()));
    assert_eq!(layouts.debug_root(), None);
    assert_eq!(layouts.mirrors(), 3);
    assert_eq!(layouts.nodes().len(), 3);
    layouts.update(&pointer_at(5, 5), ORIGIN).unwrap();
    let mut painter = Painter::new();
    layouts.draw(&mut painter);
    assert!(painter.commands.iter().all(|c| !matches!(c.primitive, Primitive::Line { .. })));
}

#[test]
fn text_is_realized_once_and_moved_after() {
    let mut layouts = UILayouts::new().unwrap();
    let top = hstack((text("hi").size(Vec2::new(100, 20)), rectangle().size(Vec2::new(10, 10))))
        .push_to_layout(&mut layouts)
        .unwrap();
    let words = layouts.children(top).unwrap()[0];
    layouts.update(&MemState::new(), ORIGIN).unwrap();
    let requests = layouts.update_shape();
    assert_eq!(requests.len(), 2);
    assert_eq!(requests[0].0, words);
    match &requests[0].1 {
        ShapeUpdate::Realize { content, font_size, position } => {
            assert_eq!(content, "hi");
            assert_eq!(*font_size, 20);
            assert_eq!(*position, Vec3::new(-400 + 50, 300 - 10, 0));
        }
        other => panic!("{:?}", other),
    }
    assert!(matches!(requests[1].1, ShapeUpdate::Nothing));
    let placed = Vec3::new(-350 - 15, 290 + 8, 1);
    assert_eq!(layouts.shape_realized(words, 77, Vec2::new(31, 17)), Some(placed));
    assert_eq!(layouts.shape_realized(words, 78, Vec2::new(1, 1)), Some(placed));
    let requests = layouts.update_shape();
    match &requests[0].1 {
        ShapeUpdate::Reposition { entity, position } => {
            assert_eq!(*entity, 77);
            assert_eq!(*position, Vec3::new(-350 - 15, 290 + 8, 1));
        }
        other => panic!("{:?}", other),
    }
    assert_eq!(layouts.shape_realized(layouts.root(), 5, Vec2::zero()), None);
    assert_eq!(layouts.shape_realized(words + 4242, 5, Vec2::zero()), None);
}

#[test]
fn children_are_packed_to_the_end_of_a_row() {
    let mut layouts = UILayouts::new().unwrap();
    let row = hstack((rectangle().size(Vec2::new(100, 40)), rectangle().size(Vec2::new(50, 20))))
        .horizontal_alignment(AlignItems::End)
        .vertical_alignment(AlignItems::End)
        .push_to_layout(&mut layouts)
        .unwrap();
    layouts.update(&MemState::new(), ORIGIN).unwrap();
    let kids = layouts.children(row).unwrap();
    assert_eq!(layouts.layout(kids[0]).unwrap().location, Vec2::new(800 - 150, 600 - 40));
    assert_eq!(layouts.layout(kids[1]).unwrap().location, Vec2::new(800 - 50, 600 - 20));
}

#[test]
fn a_child_can_align_itself() {
    let mut layouts = UILayouts::new().unwrap();
    let row = hstack((
        rectangle().size(Vec2::new(100, 40)).self_vertical_alignment(AlignItems::Center),
        rectangle().size(Vec2::new(50, 20)).self_vertical_alignment(AlignItems::End),
        rectangle().size(Vec2::new(50, 20)),
    ))
    .push_to_layout(&mut layouts)
    .unwrap();
    layouts.update(&MemState::new(), ORIGIN).unwrap();
    let kids = layouts.children(row).unwrap();
    assert_eq!(layouts.layout(kids[0]).unwrap().location, Vec2::new(0, 280));
    assert_eq!(layouts.layout(kids[1]).unwrap().location, Vec2::new(100, 580));
    assert_eq!(layouts.layout(kids[2]).unwrap().location, Vec2::new(150, 0));
}

#[test]
fn a_reversed_row_runs_from_the_right() {
    let mut layouts = UILayouts::new().unwrap();
    let row = hstack((rectangle().size(Vec2::new(100, 40)), rectangle().size(Vec2::new(50, 20))))
        .direction(FlexDirection::RowReverse)
        .push_to_layout(&mut layouts)
        .unwrap();
    layouts.update(&MemState::new(), ORIGIN).unwrap();
    let kids = layouts.children(row).unwrap();
    assert_eq!(layouts.layout(kids[0]).unwrap().location.x, 50);
    assert_eq!(layouts.layout(kids[1]).unwrap().location.x, 0);
}

#[test]
fn the_overlay_root_sits_in_the_top_right_corner() {
    let mut layouts = UILayouts::new().unwrap();
    let top = hstack((rectangle().size(Vec2::new(100, 100)), Element::new().element_type(ElementType::Debug)))
        .push_to_layout(&mut layouts)
        .unwrap();
    let overlay = layouts.children(top).unwrap()[1];
    layouts.update(&MemState::new(), ORIGIN).unwrap();
    let solved = layouts.layout(overlay).unwrap();
    assert!(solved.size.x >= 100);
    assert_eq!(solved.location.x + solved.size.x, 800);
    assert_eq!(solved.location.y, 0);
    assert_eq!(layouts.layout(layouts.children(top).unwrap()[0]).unwrap().location, Vec2::new(0, 0));
}

#[test]
fn the_viewport_follows_the_window() {
    let mut layouts = UILayouts::new().unwrap();
    let top = stack(()).push_to_layout(&mut layouts).unwrap();
    let other = stack(()).push_to_layout(&mut layouts).unwrap();
    layouts.update(&MemState::new(), Vec3::new(-100, 50, 0)).unwrap();
    assert_eq!(layouts.layout(layouts.root()).unwrap().size, Vec2::new(200, 100));
    assert_eq!(layouts.layout(top).unwrap().size, Vec2::new(200, 100));
    assert_ne!(layouts.layout(other).unwrap().size, Vec2::new(200, 100));
    layouts.update(&MemState::new(), ORIGIN).unwrap();
    assert_eq!(layouts.layout(top).unwrap().size, Vec2::new(800, 600));
}

#[test]
fn a_root_without_a_child_is_not_updated() {
    let mut alone = UILayouts::new().unwrap();
    let before = alone.layout(alone.root());
    assert_eq!(alone.update(&MemState::new(), ORIGIN), Err(LayoutError::NoContent));
    assert_eq!(alone.layout(alone.root()), before);
    assert_eq!(alone.nodes(), vec![alone.root()]);
    let first = alone.push_element(element()).unwrap();
    assert_eq!(alone.update(&MemState::new(), ORIGIN), Ok(()));
    assert_eq!(alone.layout(first).unwrap().size, Vec2::new(800, 600));
}

#[test]
fn the_viewport_is_held_to_what_the_solver_holds_whole() {
    assert_eq!(binaries_ui::solver::WHOLE, 16_777_216);
    assert_eq!(binaries_ui::solver::hold(5), 5);
    assert_eq!(binaries_ui::solver::hold(-16_777_216), -16_777_216);
    assert_eq!(binaries_ui::solver::hold(16_777_217), 16_777_216);
    assert_eq!(binaries_ui::solver::hold(i32::MIN), -16_777_216);
    let mut layouts = UILayouts::new().unwrap();
    let top = stack(()).push_to_layout(&mut layouts).unwrap();
    layouts.update(&MemState::new(), Vec3::new(-20_000_000, 3, 0)).unwrap();
    assert_eq!(layouts.layout(layouts.root()).unwrap().size, Vec2::new(16_777_216, 6));
    assert_eq!(layouts.layout(top).unwrap().size, Vec2::new(16_777_216, 6));
}

#[test]
fn a_side_of_zero_is_a_length_once_the_other_is_set() {
    let mut layouts = UILayouts::new().unwrap();
    let row = hstack((rectangle().size(Vec2::new(30, 0)), rectangle().size(Vec2::new(0, 12)), rectangle()))
        .push_to_layout(&mut layouts)
        .unwrap();
    layouts.update(&MemState::new(), ORIGIN).unwrap();
    let kids = layouts.children(row).unwrap();
    assert_eq!(layouts.layout(kids[0]).unwrap().size.x, 30);
    assert_eq!(layouts.layout(kids[1]).unwrap().size.y, 12);
    assert_eq!(layouts.layout(kids[1]).unwrap().location.x, 30);
    assert_eq!(layouts.layout(kids[2]).unwrap().size.x, 0);
}
