use binaries_ui::color::{blue_violet, Srgba};
use binaries_ui::components::button::SDButton;
use binaries_ui::components::element::{
    AlignItems, Attributes, Callback, Element, ElementType, FlexDirection, RenderAction,
};
use binaries_ui::components::element_set::ElementSet;
use binaries_ui::components::stacks::{stack, Widget};
use binaries_ui::components::{circle, debug_tree, element, ngon, rectangle, text};
use binaries_ui::components::{UIMouseState, UIRenderMode};
use binaries_ui::context::MemState;
use binaries_ui::math::{Vec2, Vec3, Vec4};
use binaries_ui::painter::{Painter, Primitive};
use binaries_ui::shape::{Circle, Rectangle, Shape};
use binaries_ui::solver::Layout;
use binaries_ui::style::{Align, Dimension, Distribute, FlexStyle, Inset, Position, Rect, Size};
use binaries_ui::traits::UIElement;
use std::sync::Arc;

struct Nothing;

impl Callback for Nothing {
    fn call(&self, _element: &mut Attributes, _state: &mut MemState) {}
}

struct Count;

impl Callback for Count {
    fn call(&self, element: &mut Attributes, state: &mut MemState) {
        state.selection_current += 1;
        element.color = Srgba::black();
    }
}

fn styles(widgets: &[Widget]) -> Vec<FlexStyle> {
    widgets.iter().map(|w| w.get_element().style()).collect()
}

#[test]
fn mod_test_button() {
    let children = (element(), element()).views();
    assert_eq!(children.len(), 2);
    for style in styles(&children) {
        println!("{:?}", style);
        assert_eq!(style.size, Size { width: Dimension::Auto, height: Dimension::Auto });
    }
}

#[test]
fn test_element() {
    let e = Element::new().click(Arc::new(Nothing));
    assert!(e.action.click.is_some());
    assert!(e.action.hover.is_none());
}

#[test]
fn mod_test_element_tuple() {
    let children = (Element::new().click(Arc::new(Nothing)), Element::new().click(Arc::new(Nothing))).views();
    assert_eq!(children.len(), 2);
    for style in styles(&children) {
        println!("{:?}", style);
    }
}

#[test]
fn stack_test_button() {}

#[test]
fn stacks_test_button() {}

#[test]
fn stack_test_stack() {
    let s = stack((element(), element()));
    assert_eq!(s.children.len(), 2);
    assert_eq!(s.element.attributes.render_block, UIRenderMode::WithoutSelf);
}

#[test]
fn stack_test_element_tuple() {
    let children = (stack((element(), element())), stack((element(), element()))).views();
    assert_eq!(children.len(), 2);
    for style in styles(&children) {
        println!("{:?}", style);
    }
}

#[test]
fn stacks_test_element_tuple() {
    let children = (stack((element(), element())), stack((element(), element()))).views();
    let counts: Vec<usize> = children
        .iter()
        .map(|w| match w {
            Widget::Stack(s) => s.children.len(),
            Widget::Leaf(_) => 0,
        })
        .collect();
    assert_eq!(counts, vec![2, 2]);
    for style in styles(&children) {
        println!("{:?}", style);
    }
}

#[test]
fn a_tuple_of_stacks_keeps_each_stack_with_its_children() {
    let children = (stack((element(), element())), stack(vec![element(), element(), element()])).views();
    let counts: Vec<usize> = children
        .iter()
        .map(|w| match w {
            Widget::Stack(s) => s.children.len(),
            Widget::Leaf(_) => 0,
        })
        .collect();
    assert_eq!(counts, vec![2, 3]);
}

#[test]
fn a_tuple_holds_up_to_twelve_widgets() {
    let e = |t: &str| element().title(t);
    let twelve = (
        e("a"), e("b"), e("c"), e("d"), e("e"), e("f"),
        e("g"), e("h"), e("i"), e("j"), e("k"), e("l"),
    )
        .views();
    let titles: Vec<String> = twelve.iter().map(|w| w.get_element().attributes.tile.clone()).collect();
    assert_eq!(titles, vec!["a", "b", "c", "d", "e", "f", "g", "h", "i", "j", "k", "l"]);
    let nine = (e("1"), e("2"), e("3"), e("4"), e("5"), e("6"), e("7"), e("8"), e("9")).views();
    assert_eq!(nine.len(), 9);
    assert_eq!(nine[8].get_element().attributes.tile, "9");
}

#[test]
fn element_sets_keep_declaration_order() {
    let titles = |widgets: Vec<Widget>| -> Vec<String> {
        widgets.iter().map(|w| w.get_element().attributes.tile.clone()).collect()
    };
    assert_eq!(titles(element().title("one").views()), vec!["one"]);
    assert_eq!(titles(().views()), Vec::<String>::new());
    assert_eq!(titles((element().title("a"),).views()), vec!["a"]);
    assert_eq!(
        titles((element().title("a"), stack(()).title("b"), element().title("c")).views()),
        vec!["a", "b", "c"]
    );
    assert_eq!(
        titles((element().title("a"), element().title("b"), element().title("c"), element().title("d")).views()),
        vec!["a", "b", "c", "d"]
    );
    assert_eq!(
        titles(vec![element().title("x"), element().title("y")].views()),
        vec!["x", "y"]
    );
    assert!(!element().is_empty());
    assert!(!ElementSet::is_empty(&()));
    assert!(!ElementSet::is_empty(&(element(), element())));
}

#[test]
fn a_new_element_is_invisible_and_at_rest() {
    let e = Element::new();
    let a = &e.attributes;
    assert_eq!(a.tile, "element");
    assert_eq!(a.zorder, 1);
    assert_eq!(a.color, Srgba::zero());
    assert_eq!(a.background_color, Srgba::zero());
    assert_eq!(a.layout_size, Vec2::zero());
    assert_eq!(a.action_state, UIMouseState::Release);
    assert_eq!(a.render_state, UIMouseState::Release);
    assert_eq!(a.render_block, UIRenderMode::Individual);
    assert_eq!(a.flex_direction, FlexDirection::Row);
    assert_eq!(a.main_axis_alignment, AlignItems::Start);
    assert_eq!(a.self_main_axis_alignment, AlignItems::NotSet);
    assert_eq!(a.element_type, ElementType::Content);
    assert_eq!(a.render, RenderAction::default());
    assert_eq!(a.render.hover.unwrap().color, blue_violet());
    assert!(!a.drag_enable);
    assert!(a.shape.is_none());
    assert!(e.action.click.is_none() && e.action.hover.is_none());
}

#[test]
fn elements_get_ids_of_their_own() {
    let a = Element::new();
    let b = Element::new();
    let c = Element::new();
    assert_ne!(a.id(), b.id());
    assert_ne!(b.id(), c.id());
    assert_ne!(a.id(), c.id());
}

#[test]
fn builders_make_the_widgets_they_name() {
    assert_eq!(element().attributes.tile, "element");
    assert_eq!(debug_tree().attributes.tile, "debuge");
    let r = rectangle();
    assert_eq!(r.attributes.tile, "rectangle");
    assert_eq!(r.attributes.color, Srgba::white());
    assert!(matches!(r.attributes.shape, Some(Shape::Rectangle(_))));
    let c = circle(7);
    assert_eq!(c.attributes.tile, "circle");
    assert!(matches!(c.attributes.shape, Some(Shape::Circle(Circle { radius: 7, .. }))));
    let n = ngon(6);
    assert_eq!(n.attributes.tile, "ngon");
    match n.attributes.shape {
        Some(Shape::Ngon(n)) => {
            assert_eq!((n.sides, n.radius, n.rotation), (6, 1, 0));
        }
        _ => panic!("no polygon"),
    }
    let t = text("hello");
    assert_eq!(t.attributes.tile, "text content");
    assert_eq!(t.attributes.color, Srgba::zero());
    match t.attributes.shape {
        Some(Shape::Text(t)) => {
            assert_eq!(t.content, "hello");
            assert_eq!(t.font_size, 1);
            assert_eq!(t.entity, None);
        }
        _ => panic!("no text"),
    }
}

#[test]
fn size_and_round_reach_the_shape() {
    let r = rectangle().size(Vec2::new(40, 20)).round(3);
    assert_eq!(r.get_size(), Vec2::new(40, 20));
    assert_eq!(r.attributes.round, Vec4::splat(3));
    match r.attributes.shape {
        Some(Shape::Rectangle(Rectangle { round, size })) => {
            assert_eq!(size, Vec2::new(40, 20));
            assert_eq!(round, Vec4::splat(3));
        }
        _ => panic!("no rectangle"),
    }
    let c = circle(1).size(Vec2::new(40, 21));
    assert!(matches!(c.attributes.shape, Some(Shape::Circle(Circle { radius: 10, .. }))));
    let t = text("t").size(Vec2::new(100, 20)).round(9);
    match t.attributes.shape {
        Some(Shape::Text(t)) => {
            assert_eq!(t.size, Vec2::new(100, 20));
            assert_eq!(t.font_size, 20);
            assert_eq!(t.round, Vec4::zero());
        }
        _ => panic!("no text"),
    }
}

#[test]
fn hit_test_follows_the_flipped_y_axis() {
    let e = Element::new().size(Vec2::new(10, 10));
    assert!(e.insection(Vec2::new(0, 0)));
    assert!(e.insection(Vec2::new(0, 4)));
    assert!(!e.insection(Vec2::new(0, -6)));
    assert!(!e.insection(Vec2::new(0, 5)));
    assert!(!e.insection(Vec2::new(6, 0)));
    let up = Element::new().size(Vec2::new(10, 10)).set_position(Vec3::new(100, 50, 0));
    assert!(up.insection(Vec2::new(100, -50)));
    assert!(up.insection(Vec2::new(100, -46)));
    assert!(up.insection(Vec2::new(100, -54)));
    assert!(!up.insection(Vec2::new(100, 50)));
    assert!(!up.insection(Vec2::new(100, -44)));
    assert!(!up.insection(Vec2::new(100 + 5 + 1, -50)));
    assert!(up.insection(Vec2::new(104, -50)));
    assert!(!up.insection(Vec2::new(105, -50)));
}

#[test]
fn a_disc_is_hit_beyond_the_box() {
    let e = circle(20).set_position(Vec3::new(10, 10, 0));
    assert!(e.insection(Vec2::new(10, -10)));
    assert!(e.insection(Vec2::new(10 + 19, -10)));
    assert!(e.insection(Vec2::new(10 + 12, -10 + 15)));
    assert!(!e.insection(Vec2::new(10 + 20, -10)));
    assert!(!e.insection(Vec2::new(10 + 12, -10 + 16)));
    let none = circle(0);
    assert!(!none.insection(Vec2::new(0, 0)));
}

#[test]
fn only_an_element_under_the_pointer_takes_a_broadcast() {
    let mut e = Element::new();
    e.set_action_state(UIMouseState::Pressed);
    assert_eq!(e.get_action_state(), UIMouseState::Release);
    e.set_render_state(UIMouseState::Hover);
    e.set_action_state(UIMouseState::Pressed);
    assert_eq!(e.get_action_state(), UIMouseState::Pressed);
    e.set_action_state(UIMouseState::Click);
    assert_eq!(e.get_action_state(), UIMouseState::Click);
    e.set_action_state(UIMouseState::Drag);
    assert_eq!(e.get_action_state(), UIMouseState::Release);
    e.set_action_state(UIMouseState::Drag);
    assert_eq!(e.get_action_state(), UIMouseState::Drag);
}

#[test]
fn a_group_is_handed_the_state_that_shows() {
    let mut e = Element::new();
    assert_eq!(e.get_render_state(), None);
    e.set_render_state(UIMouseState::Hover);
    assert_eq!(e.get_render_state(), Some(UIMouseState::Hover));
    e.set_render_state(UIMouseState::Click);
    assert_eq!(e.get_render_state(), Some(UIMouseState::Click));
    e.set_render_state(UIMouseState::Pressed);
    assert_eq!(e.get_render_state(), None);
    e.attributes.render = RenderAction::empty();
    e.set_render_state(UIMouseState::Hover);
    assert_eq!(e.get_render_state(), None);
}

#[test]
fn the_hit_test_sets_the_render_state() {
    let origin = Vec3::new(-400, 300, 0);
    let mut e = Element::new().size(Vec2::new(20, 20)).set_position(Vec3::new(-390, 290, 0));
    e.update_render_state((5, 5), origin);
    assert_eq!(e.attributes.render_state, UIMouseState::Hover);
    e.update_render_state((25, 5), origin);
    assert_eq!(e.attributes.render_state, UIMouseState::Release);
    e.update_render_state((5, 5), origin);
    e.update_render_state((-1, 5), origin);
    assert_eq!(e.attributes.render_state, UIMouseState::Hover);
}

#[test]
fn the_layout_pass_anchors_the_centre() {
    let mut e = Element::new().offset(Vec3::new(3, 4, 5));
    let layout = Layout { location: Vec2::new(10, 20), size: Vec2::new(31, 41), content_size: Vec2::new(7, 9) };
    e.update_layout(&layout, Vec3::new(-400, 300, 0), Vec3::new(100, 200, 0), &MemState::new());
    assert_eq!(e.attributes.layout_size, Vec2::new(31, 41));
    assert_eq!(e.attributes.content_size, Vec2::new(7, 9));
    assert_eq!(e.attributes.layout_anchor, Vec3::new(-400 + 10 + 15 + 100 + 3, 300 - 20 - 20 - 200 + 4, 5));
    assert_eq!(e.attributes.anchor_offset, Vec3::new(3, 4, 5));
}

#[test]
fn anchors_stay_in_range() {
    let mut e = Element::new().offset(Vec3::new(i32::MAX, i32::MIN, 0));
    let layout = Layout { location: Vec2::new(i32::MAX, i32::MAX), size: Vec2::new(10, 10), content_size: Vec2::zero() };
    e.update_layout(&layout, Vec3::new(i32::MAX, i32::MIN, 0), Vec3::zero(), &MemState::new());
    assert_eq!(e.attributes.layout_anchor, Vec3::new(i32::MAX, i32::MIN, 0));
}

#[test]
fn a_drag_is_followed_and_then_committed() {
    let layout = Layout { location: Vec2::zero(), size: Vec2::new(50, 50), content_size: Vec2::zero() };
    let origin = Vec3::new(-400, 300, 0);
    let mut cxt = MemState::new();
    let mut e = Element::new().drag_enable(true).offset(Vec3::new(1, 2, 0));
    e.set_render_state(UIMouseState::Hover);
    e.set_action_state(UIMouseState::Pressed);
    cxt.drag_delta = (Vec2::new(10, 10), Vec2::new(40, 25), Vec2::zero());
    e.update_layout(&layout, origin, Vec3::zero(), &cxt);
    assert_eq!(e.attributes.rubber_offset, Vec3::new(30, -15, 0));
    assert_eq!(e.attributes.anchor_offset, Vec3::new(1, 2, 0));
    assert_eq!(e.attributes.layout_anchor, Vec3::new(-400 + 25 + 1 + 30, 300 - 25 + 2 - 15, 0));
    e.set_action_state(UIMouseState::Release);
    e.update_layout(&layout, origin, Vec3::zero(), &cxt);
    assert_eq!(e.attributes.rubber_offset, Vec3::zero());
    assert_eq!(e.attributes.anchor_offset, Vec3::new(31, -13, 0));
    assert_eq!(e.attributes.layout_anchor, Vec3::new(-400 + 25 + 31, 300 - 25 - 13, 0));
    e.update_layout(&layout, origin, Vec3::zero(), &cxt);
    assert_eq!(e.attributes.anchor_offset, Vec3::new(31, -13, 0));
}

#[test]
fn a_press_and_release_without_motion_moves_nothing() {
    let layout = Layout { location: Vec2::zero(), size: Vec2::new(50, 50), content_size: Vec2::zero() };
    let mut cxt = MemState::new();
    cxt.drag_delta = (Vec2::new(7, 7), Vec2::new(7, 7), Vec2::zero());
    let mut e = Element::new().drag_enable(true).offset(Vec3::new(5, 5, 0));
    e.set_render_state(UIMouseState::Hover);
    e.set_action_state(UIMouseState::Pressed);
    e.update_layout(&layout, Vec3::zero(), Vec3::zero(), &cxt);
    e.set_action_state(UIMouseState::Release);
    e.update_layout(&layout, Vec3::zero(), Vec3::zero(), &cxt);
    assert_eq!(e.attributes.anchor_offset, Vec3::new(5, 5, 0));
    assert_eq!(e.attributes.rubber_offset, Vec3::zero());
}

#[test]
fn an_element_that_may_not_be_dragged_stays() {
    let layout = Layout { location: Vec2::zero(), size: Vec2::new(50, 50), content_size: Vec2::zero() };
    let mut cxt = MemState::new();
    cxt.drag_delta = (Vec2::new(0, 0), Vec2::new(30, 30), Vec2::zero());
    let mut e = Element::new();
    e.set_render_state(UIMouseState::Hover);
    e.set_action_state(UIMouseState::Pressed);
    e.update_layout(&layout, Vec3::zero(), Vec3::zero(), &cxt);
    assert_eq!(e.attributes.rubber_offset, Vec3::zero());
}

#[test]
fn a_click_runs_the_callback_once() {
    let mut cxt = MemState::new();
    let mut e = Element::new().click(Arc::new(Count));
    e.execute(&mut cxt);
    assert_eq!(cxt.selection_current, -1);
    e.set_render_state(UIMouseState::Hover);
    e.set_action_state(UIMouseState::Click);
    e.execute(&mut cxt);
    assert_eq!(cxt.selection_current, 0);
    assert_eq!(e.get_action_state(), UIMouseState::Release);
    assert_eq!(e.attributes.color, Srgba::black());
    e.execute(&mut cxt);
    assert_eq!(cxt.selection_current, 0);
}

#[test]
fn hover_runs_the_hover_callback_every_frame() {
    let mut cxt = MemState::new();
    let mut e = Element::new().hover(Arc::new(Count));
    e.set_render_state(UIMouseState::Hover);
    e.set_action_state(UIMouseState::Hover);
    e.execute(&mut cxt);
    e.execute(&mut cxt);
    assert_eq!(cxt.selection_current, 1);
    assert_eq!(e.get_action_state(), UIMouseState::Hover);
    e.set_action_state(UIMouseState::Pressed);
    e.execute(&mut cxt);
    assert_eq!(cxt.selection_current, 1);
    e.set_action_state(UIMouseState::Click);
    e.execute(&mut cxt);
    assert_eq!(cxt.selection_current, 1);
    assert_eq!(e.get_action_state(), UIMouseState::Release);
}

#[test]
fn drawing_leaves_the_painter_at_rest() {
    let mut painter = Painter::new();
    painter.set_rotation(30);
    let e = ngon(5)
        .size(Vec2::new(40, 40))
        .round(4)
        .color(Srgba::rgb(10, 20, 30))
        .background_color(Srgba::new(100, 200, 50, 255))
        .set_position(Vec3::new(7, 8, 0));
    e.draw(&mut painter);
    assert_eq!(painter.corner_radii, Vec4::zero());
    assert_eq!(painter.rotation, 0);
    assert_eq!(painter.translation, Vec3::new(7, 8, 0));
    assert_eq!(painter.commands.len(), 2);
    let shape = painter.commands[0];
    assert_eq!(shape.primitive, Primitive::Ngon { sides: 5, radius: 20 });
    assert_eq!(shape.color, Srgba::rgb(10, 20, 30));
    assert_eq!(shape.translation, Vec3::new(7, 8, 0));
    assert_eq!(shape.corner_radii, Vec4::splat(4));
    assert_eq!(shape.rotation, 30);
    let back = painter.commands[1];
    assert_eq!(back.primitive, Primitive::Rect { size: Vec2::new(40, 40) });
    assert_eq!(back.color, Srgba::new(50, 100, 25, 127));
    assert_eq!(back.corner_radii, Vec4::splat(4));
}

#[test]
fn a_hovered_element_is_drawn_in_the_accent() {
    let mut painter = Painter::new();
    let mut e = rectangle().size(Vec2::new(10, 10));
    e.set_render_state(UIMouseState::Hover);
    e.draw(&mut painter);
    assert_eq!(painter.commands[0].color, blue_violet());
    let mut quiet = rectangle().size(Vec2::new(10, 10)).render_block(UIRenderMode::WithoutSelf);
    quiet.set_render_state(UIMouseState::Hover);
    quiet.draw(&mut painter);
    assert_eq!(painter.commands[1].color, Srgba::white());
    let mut pressed = rectangle();
    pressed.set_render_state(UIMouseState::Pressed);
    pressed.draw(&mut painter);
    assert_eq!(painter.commands[2].color, blue_violet());
    let mut clicked = rectangle();
    clicked.attributes.render.click = None;
    clicked.set_render_state(UIMouseState::Click);
    clicked.draw(&mut painter);
    assert_eq!(painter.commands[3].color, Srgba::white());
}

#[test]
fn an_element_without_a_shape_fills_its_content() {
    let mut painter = Painter::new();
    let mut e = Element::new().color(Srgba::rgb(1, 2, 3));
    e.attributes.content_size = Vec2::new(9, 8);
    e.draw(&mut painter);
    assert_eq!(painter.commands.len(), 1);
    assert_eq!(painter.commands[0].primitive, Primitive::Rect { size: Vec2::new(9, 8) });
    assert_eq!(painter.commands[0].color, Srgba::rgb(1, 2, 3));
    let mut nothing = Painter::new();
    Element::new().draw(&mut nothing);
    assert!(nothing.commands.is_empty());
}

#[test]
fn the_style_of_a_content_element() {
    let e = Element::new()
        .size(Vec2::new(30, 40))
        .margin(Vec4::new(1, 2, 3, 4))
        .padding(Vec4::new(5, 6, 7, 8))
        .direction(FlexDirection::ColumnReverse);
    let style = e.style();
    assert_eq!(
        style,
        FlexStyle {
            size: Size { width: Dimension::Length(30), height: Dimension::Length(40) },
            margin: Rect { left: 1, right: 3, top: 2, bottom: 4 },
            padding: Rect { left: 5, right: 7, top: 6, bottom: 8 },
            flex_direction: FlexDirection::ColumnReverse,
            align_items: Some(Align::Start),
            justify_content: Some(Distribute::Start),
            align_content: Some(Distribute::Start),
            align_self: None,
            justify_self: None,
            position: Position::Relative,
            inset: Inset { left: Dimension::Auto, right: Dimension::Auto, top: Dimension::Auto, bottom: Dimension::Auto },
        }
    );
    assert_eq!(e.attributes.style(), style);
    let one_side = Element::new().size(Vec2::new(0, 5)).style();
    assert_eq!(one_side.size, Size { width: Dimension::Length(0), height: Dimension::Length(5) });
}

#[test]
fn alignments_map_to_the_axes_of_the_direction() {
    let row = Element::new()
        .horizontal_alignment(AlignItems::Center)
        .vertical_alignment(AlignItems::Baseline)
        .self_horizontal_alignment(AlignItems::End)
        .self_vertical_alignment(AlignItems::Stretch);
    let a = &row.attributes;
    assert_eq!(a.main_axis_alignment, AlignItems::Center);
    assert_eq!(a.cors_axis_alignment, AlignItems::Baseline);
    assert_eq!(a.self_main_axis_alignment, AlignItems::End);
    assert_eq!(a.self_cors_axis_alignment, AlignItems::Stretch);
    let style = row.style();
    assert_eq!(style.justify_content, Some(Distribute::Center));
    assert_eq!(style.align_items, Some(Align::Baseline));
    assert_eq!(style.align_content, Some(Distribute::Center));
    assert_eq!(style.justify_self, Some(Align::End));
    assert_eq!(style.align_self, Some(Align::Stretch));
    let column = Element::new()
        .direction(FlexDirection::Column)
        .horizontal_alignment(AlignItems::FlexEnd)
        .vertical_alignment(AlignItems::FlexStart)
        .self_horizontal_alignment(AlignItems::End)
        .self_vertical_alignment(AlignItems::Center);
    let a = &column.attributes;
    assert_eq!(a.cors_axis_alignment, AlignItems::FlexEnd);
    assert_eq!(a.main_axis_alignment, AlignItems::FlexStart);
    assert_eq!(a.self_cors_axis_alignment, AlignItems::End);
    assert_eq!(a.self_main_axis_alignment, AlignItems::Center);
    let reversed = Element::new()
        .direction(FlexDirection::ColumnReverse)
        .self_horizontal_alignment(AlignItems::Center);
    assert_eq!(reversed.attributes.self_cors_axis_alignment, AlignItems::Center);
    assert_eq!(reversed.attributes.cors_axis_alignment, Element::new().attributes.cors_axis_alignment);
    assert_eq!(reversed.attributes.self_main_axis_alignment, Element::new().attributes.self_main_axis_alignment);
    assert_eq!(reversed.style().align_self, Some(Align::Center));
    let unset = Element::new().horizontal_alignment(AlignItems::NotSet).vertical_alignment(AlignItems::NotSet).style();
    assert_eq!(unset.justify_content, Some(Distribute::Start));
    assert_eq!(unset.align_items, Some(Align::Start));
}

#[test]
fn the_overlay_root_is_pinned_to_the_top_right() {
    let style = Element::new().element_type(ElementType::Debug).self_horizontal_alignment(AlignItems::End).style();
    assert_eq!(style.position, Position::Absolute);
    assert_eq!(
        style.inset,
        Inset { left: Dimension::Auto, right: Dimension::Length(0), top: Dimension::Length(0), bottom: Dimension::Auto }
    );
    assert_eq!(style.justify_self, Some(Align::Center));
}

#[test]
fn plain_settings_are_kept() {
    let mut e = Element::new().order(7).title("named").primatives(Some(Arc::new(Nothing)));
    assert_eq!(e.get_z_order(), 7);
    assert_eq!(e.set_z_order(9), 9);
    assert_eq!(e.get_z_order(), 9);
    assert_eq!(e.attributes.tile, "named");
    assert!(e.draw.is_some());
    assert_eq!(e.get_element_type(), ElementType::Content);
    assert_eq!(e.block_render_state(), UIRenderMode::Individual);
    assert!(!e.attributes.get_ready());
    e.attributes.set_ready();
    assert!(e.attributes.get_ready());
    assert_eq!(e.attributes.size(), (0, 0));
    assert_eq!(e.get_element().attributes.tile, "named");
}

#[test]
fn a_button_lights_up_under_the_pointer() {
    let mut b = SDButton::new().size(Vec2::new(20, 10)).color(Srgba::rgb(200, 100, 0)).tile("ok".to_string());
    assert_eq!(b.get_size(), (20, 10));
    assert!(b.insection(Vec2::new(9, 4)));
    assert!(!b.insection(Vec2::new(10, 0)));
    assert_eq!(b.style().margin, Rect { left: 10, right: 15, top: 20, bottom: 30 });
    assert_eq!(b.style().size, Size { width: Dimension::Length(20), height: Dimension::Length(10) });
    let layout = Layout { location: Vec2::new(100, 50), size: Vec2::new(20, 10), content_size: Vec2::zero() };
    let origin = Vec3::new(-400, 300, 0);
    b.update((105, 345), origin, &layout);
    assert_eq!(b.position, Vec3::new(-400 + 100 + 10, 300 - 5 + 50, 0));
    assert_eq!(b.state(), UIMouseState::Release);
    b.update((110, -45), origin, &layout);
    assert_eq!(b.state(), UIMouseState::Hover);
    let mut painter = Painter::new();
    b.draw(&mut painter);
    assert_eq!(painter.commands[0].color, Srgba::new(255, 164, 64, 255));
    assert_eq!(painter.commands[0].primitive, Primitive::Rect { size: Vec2::new(20, 10) });
    assert_eq!(painter.commands[0].translation, b.position);
}

#[test]
fn a_box_of_odd_side_loses_nothing_to_rounding() {
    let odd = Element::new().size(Vec2::new(11, 3)).set_position(Vec3::new(20, -7, 0));
    assert!(odd.insection(Vec2::new(20, 7)));
    assert!(odd.insection(Vec2::new(25, 7)));
    assert!(odd.insection(Vec2::new(15, 7)));
    assert!(!odd.insection(Vec2::new(26, 7)));
    assert!(!odd.insection(Vec2::new(14, 7)));
    assert!(odd.insection(Vec2::new(20, 8)));
    assert!(odd.insection(Vec2::new(20, 6)));
    assert!(!odd.insection(Vec2::new(20, 9)));
    assert!(!odd.insection(Vec2::new(20, 5)));
    let thin = Element::new().size(Vec2::new(1, 1)).set_position(Vec3::new(3, 4, 0));
    assert!(thin.insection(Vec2::new(3, -4)));
    assert!(!thin.insection(Vec2::new(4, -4)));
    assert!(!thin.insection(Vec2::new(3, -3)));
    let flat = Element::new().size(Vec2::new(0, 10));
    assert!(!flat.insection(Vec2::new(0, 0)));
    let far = Element::new().size(Vec2::new(i32::MAX, i32::MAX)).set_position(Vec3::new(i32::MIN, i32::MAX, 0));
    assert!(far.insection(Vec2::new(i32::MIN, i32::MIN + 1)));
    assert!(!far.insection(Vec2::new(i32::MAX, i32::MAX)));
}
