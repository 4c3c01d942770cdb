use binaries_ui::color::{blue_violet, green, green_200, red_400, sea_green, Srgba};
use binaries_ui::math::{half_i64, saturate_i64, Vec2, Vec3, Vec4};
use binaries_ui::painter::{DrawCommand, Painter, Primitive};
use binaries_ui::components::element::Element;
use binaries_ui::shape::{Circle, Curve, Ngon, Rectangle, Shape, ShapeTrait, ShapeUpdate, Text};
use binaries_ui::storage::Node;
use binaries_ui::text::{mesh, WithId};
use binaries_ui::utils::Pastel;

#[test]
fn sums_saturate_at_the_ends_of_the_range() {
    assert_eq!(saturate_i64(5), 5);
    assert_eq!(saturate_i64(i32::MAX as i64 + 1), i32::MAX);
    assert_eq!(saturate_i64(i32::MIN as i64 - 1), i32::MIN);
    assert_eq!(saturate_i64(i64::MAX), i32::MAX);
    assert_eq!(Vec3::new(i32::MAX, -5, 7).plus(Vec3::new(1, -6, 1)), Vec3::new(i32::MAX, -11, 8));
    assert_eq!(Vec2::new(i32::MIN, 10).minus(Vec2::new(1, 4)), Vec2::new(i32::MIN, 6));
}

#[test]
fn halves_round_down() {
    assert_eq!(half_i64(10), 5);
    assert_eq!(half_i64(11), 5);
    assert_eq!(half_i64(0), 0);
    assert_eq!(half_i64(-1), -1);
    assert_eq!(half_i64(-10), -5);
    assert_eq!(half_i64(-11), -6);
}

#[test]
fn vectors_are_made_of_their_components() {
    assert_eq!(Vec2::splat(3), Vec2::new(3, 3));
    assert_eq!(Vec4::splat(2), Vec4::new(2, 2, 2, 2));
    assert_eq!(Vec2::zero(), Vec2 { x: 0, y: 0 });
    assert_eq!(Vec3::zero(), Vec3 { x: 0, y: 0, z: 0 });
    assert_eq!(Vec4::zero(), Vec4 { x: 0, y: 0, z: 0, w: 0 });
}

#[test]
fn the_named_colours() {
    assert_eq!(Srgba::zero(), Srgba::new(0, 0, 0, 0));
    assert_eq!(Srgba::white(), Srgba::rgb(255, 255, 255));
    assert_eq!(Srgba::black(), Srgba::new(0, 0, 0, 255));
    assert_eq!(blue_violet(), Srgba::rgb(138, 43, 226));
    assert_eq!(green(), Srgba::rgb(0, 128, 0));
    assert_eq!(green_200(), Srgba::rgb(187, 247, 208));
    assert_eq!(red_400(), Srgba::rgb(248, 113, 113));
    assert_eq!(sea_green(), Srgba::rgb(46, 139, 87));
}

#[test]
fn colours_are_halved_lightened_and_made_pastel() {
    let c = Srgba::new(200, 101, 0, 255);
    assert_eq!(c.halved(), Srgba::new(100, 50, 0, 127));
    assert_eq!(c.lightened(64), Srgba::new(255, 165, 64, 255));
    assert_eq!(Srgba::new(10, 20, 30, 40).lightened(128), Srgba::new(138, 148, 158, 168));
    assert_eq!(Srgba::new(10, 200, 191, 7).pastel(), Srgba::new(74, 255, 255, 255));
}

#[test]
fn the_painter_records_the_state_of_each_primitive() {
    let mut p = Painter::new();
    assert_eq!(p.color, Srgba::white());
    assert_eq!(p.thickness, 1);
    assert_eq!(p.origin, None);
    p.set_color(Srgba::rgb(1, 2, 3));
    p.set_translation(Vec3::new(1, 1, 1));
    p.translate(Vec3::new(2, 3, i32::MAX));
    p.set_rotation(350);
    p.rotate_z(20);
    p.set_corner_radii(Vec4::splat(2));
    p.set_thickness(4);
    p.rect(Vec2::new(5, 6));
    p.set_color(Srgba::black());
    p.circle(7);
    p.ngon(5, 8);
    p.line(Vec3::zero(), Vec3::new(1, 2, 3));
    assert_eq!(
        p.commands[0],
        DrawCommand {
            primitive: Primitive::Rect { size: Vec2::new(5, 6) },
            color: Srgba::rgb(1, 2, 3),
            translation: Vec3::new(3, 4, i32::MAX),
            rotation: 370,
            corner_radii: Vec4::splat(2),
            thickness: 4,
        }
    );
    assert_eq!(p.commands[1].primitive, Primitive::Circle { radius: 7 });
    assert_eq!(p.commands[1].color, Srgba::black());
    assert_eq!(p.commands[2].primitive, Primitive::Ngon { sides: 5, radius: 8 });
    assert_eq!(p.commands[3].primitive, Primitive::Line { start: Vec3::zero(), end: Vec3::new(1, 2, 3) });
    let taken = p.take_commands();
    assert_eq!(taken.len(), 4);
    assert!(p.commands.is_empty());
    assert_eq!(p.thickness, 4);
}

#[test]
fn shapes_draw_themselves() {
    let mut p = Painter::new();
    Rectangle::new(Vec2::new(3, 4)).draw(&mut p);
    assert_eq!(p.commands[0].primitive, Primitive::Rect { size: Vec2::new(3, 4) });
    let mut r = Rectangle::default();
    r.set_round(Vec4::splat(2));
    r.set_size(Vec2::new(9, 9));
    r.draw(&mut p);
    assert_eq!(p.commands[1].corner_radii, Vec4::splat(2));
    assert_eq!(p.commands[1].primitive, Primitive::Rect { size: Vec2::new(9, 9) });
    let mut n = Ngon::default().sides(6);
    n.rotation = -90;
    n.set_size(Vec2::new(30, 20));
    n.draw(&mut p);
    assert_eq!(p.commands[2].primitive, Primitive::Ngon { sides: 6, radius: 10 });
    assert_eq!(p.commands[2].rotation, -90);
    assert_eq!(p.rotation, -90);
    let mut c = Circle::default();
    assert_eq!(c.radius, 1);
    c.set_size(Vec2::new(8, 100));
    c.draw(&mut p);
    assert_eq!(p.commands[3].primitive, Primitive::Circle { radius: 4 });
    assert_eq!(p.commands[3].translation, Vec3::new(0, 0, 1));
    let mut t = Text::new("abc".to_string());
    t.set_size(Vec2::new(50, 12));
    t.set_round(Vec4::splat(5));
    assert_eq!(t.font_size, 12);
    assert_eq!(t.round, Vec4::zero());
    assert_eq!(t.get_size(), Some(Vec2::zero()));
    t.draw(&mut p);
    assert_eq!(p.commands[4].primitive, Primitive::Rect { size: Vec2::new(50, 12) });
}

#[test]
fn a_curve_is_an_elbow() {
    let mut p = Painter::new();
    let c = Curve::new(Vec3::new(0, 100, -1), Vec3::new(50, 31, -1));
    assert_eq!(c.thickness, 3);
    c.draw(&mut p);
    let lines: Vec<(Vec3, Vec3)> = p
        .commands
        .iter()
        .map(|c| match c.primitive {
            Primitive::Line { start, end } => (start, end),
            _ => panic!("no line"),
        })
        .collect();
    assert_eq!(
        lines,
        vec![
            (Vec3::new(0, 100, -1), Vec3::new(0, 65, -1)),
            (Vec3::new(0, 65, -1), Vec3::new(50, 66, -1)),
            (Vec3::new(50, 66, -1), Vec3::new(50, 31, -1)),
        ]
    );
    assert!(p.commands.iter().all(|c| c.thickness == 3));
    let mut thin = Curve::default();
    thin.set_size(Vec2::new(4, 10));
    thin.set_round(Vec4::splat(1));
    assert_eq!(thin.thickness, 2);
    assert_eq!(thin.round, Vec4::splat(1));
}

#[test]
fn only_a_disc_has_an_interior() {
    let disc = Circle::new(5);
    assert!(disc.hits(Vec2::new(0, 0)));
    assert!(disc.hits(Vec2::new(3, 3)));
    assert!(disc.hits(Vec2::new(-4, 2)));
    assert!(!disc.hits(Vec2::new(3, 4)));
    assert!(!disc.hits(Vec2::new(5, 0)));
    assert!(!disc.hits(Vec2::new(i32::MIN, i32::MIN)));
    assert!(!Circle::new(-3).hits(Vec2::zero()));
    assert!(Circle::new(i32::MAX).hits(Vec2::new(i32::MAX - 1, 0)));
    assert!(Shape::Circle(disc).hits(Vec2::new(1, 1)));
    assert!(!Shape::Rectangle(Rectangle::new(Vec2::new(100, 100))).hits(Vec2::zero()));
    assert!(!Shape::Ngon(Ngon::default()).hits(Vec2::zero()));
    assert!(!Shape::Text(Text::new("x".to_string())).hits(Vec2::zero()));
    assert_eq!(Shape::Circle(disc).get_size(), None);
}

#[test]
fn the_shape_enum_passes_on() {
    let mut p = Painter::new();
    let mut s = Shape::Ngon(Ngon::default());
    s.set_size(Vec2::new(10, 14));
    s.set_round(Vec4::splat(1));
    s.draw(&mut p);
    assert_eq!(p.commands[0].primitive, Primitive::Ngon { sides: 3, radius: 5 });
    assert_eq!(p.commands[0].corner_radii, Vec4::splat(1));
    assert!(matches!(s.update(Vec3::zero()), ShapeUpdate::Nothing));
    assert_eq!(s.realized(1, Vec2::new(5, 5), Vec3::new(3, 4, 0)), None);
    assert!(matches!(s, Shape::Ngon(Ngon { radius: 5, .. })));
    let mut c = Shape::Curve(Curve::default());
    c.set_size(Vec2::new(8, 8));
    assert!(matches!(c, Shape::Curve(Curve { thickness: 4, .. })));
}

#[test]
fn text_asks_to_be_realized_and_then_moved() {
    let mut t = Text::new("word".to_string());
    t.set_size(Vec2::new(80, 16));
    match t.update(Vec3::new(10, 20, 0)) {
        ShapeUpdate::Realize { content, font_size, position } => {
            assert_eq!(content, "word");
            assert_eq!(font_size, 16);
            assert_eq!(position, Vec3::new(10, 20, 0));
        }
        other => panic!("{:?}", other),
    }
    assert_eq!(t.realized(3, Vec2::new(41, 15), Vec3::new(10, 20, 0)), Vec3::new(10 - 20, 20 + 7, 1));
    assert_eq!(t.entity, Some(3));
    assert_eq!(t.get_size(), Some(Vec2::new(41, 15)));
    match t.update(Vec3::new(10, 20, 0)) {
        ShapeUpdate::Reposition { entity, position } => {
            assert_eq!(entity, 3);
            assert_eq!(position, Vec3::new(10 - 20, 20 + 7, 1));
        }
        other => panic!("{:?}", other),
    }
    assert_eq!(t.realized(4, Vec2::new(1, 1), Vec3::new(0, 0, 5)), Vec3::new(-20, 7, 1));
    assert_eq!(t.entity, Some(3));
    assert_eq!(t.content_size, Vec2::new(41, 15));
}

#[test]
fn indices_are_grouped_in_threes() {
    let vertices = vec![Vec2::new(0, 0), Vec2::new(10, 0), Vec2::new(10, 5), Vec2::new(0, 5)];
    let faces = mesh(&vertices, &vec![0, 1, 2, 0, 2, 3, 1]);
    assert_eq!(
        faces,
        vec![
            vec![Vec2::new(0, 0), Vec2::new(10, 0), Vec2::new(10, -5)],
            vec![Vec2::new(0, 0), Vec2::new(10, -5), Vec2::new(0, -5)],
        ]
    );
    assert!(mesh(&vertices, &vec![]).is_empty());
    assert!(mesh(&vertices, &vec![3, 3]).is_empty());
    assert_eq!(mesh(&vec![Vec2::new(1, i32::MIN)], &vec![0, 0, 0])[0][0], Vec2::new(1, i32::MAX));
}

#[test]
fn records_hold_what_they_are_given() {
    let node = Node { id: 123, name: "123".to_string(), offset_x: 100, offset_y: -200 };
    assert_eq!((node.id, node.offset_x, node.offset_y), (123, 100, -200));
    assert_eq!(node.clone().name, "123");
    assert_eq!(WithId(1), WithId(1));
    assert_eq!(WithId(7).0, 7);
}

#[test]
fn any_shape_can_be_given_to_an_element() {
    let e = Element::new().shape(Circle::new(3)).size(Vec2::new(20, 30));
    assert!(matches!(e.attributes.shape, Some(Shape::Circle(Circle { radius: 10, .. }))));
    let e = Element::new().shape(Shape::Rectangle(Rectangle::new(Vec2::new(1, 2))));
    assert!(matches!(e.attributes.shape, Some(Shape::Rectangle(_))));
    let mut c = Curve::default();
    ShapeTrait::set_size(&mut c, Vec2::new(6, 6));
    assert_eq!(c.thickness, 3);
    assert!(!ShapeTrait::hits(&c, Vec2::zero()));
    assert_eq!(ShapeTrait::get_size(&Text::default()), Some(Vec2::zero()));
    assert_eq!(Text::default().content, "");
    assert!(ShapeTrait::hits(&Circle::new(2), Vec2::new(1, 1)));
    let mut p = Painter::new();
    ShapeTrait::draw(&Ngon::default(), &mut p);
    assert_eq!(p.commands[0].primitive, Primitive::Ngon { sides: 3, radius: 1 });
    assert!(matches!(Ngon::default().into_shape(), Shape::Ngon(_)));
}

#[test]
fn realized_text_is_placed_by_its_corner() {
    let mut t = Shape::Text(Text::new("w".to_string()));
    assert_eq!(t.realized(9, Vec2::new(30, 11), Vec3::new(-100, 50, 3)), Some(Vec3::new(-115, 55, 1)));
    let mut odd = Text::new("w".to_string());
    assert_eq!(odd.realized(9, Vec2::new(-3, -3), Vec3::zero()), Vec3::new(2, -2, 1));
    let mut far = Text::new("w".to_string());
    assert_eq!(
        far.realized(9, Vec2::new(-10, 10), Vec3::new(i32::MAX, i32::MAX, 0)),
        Vec3::new(i32::MAX, i32::MAX, 1)
    );
}
