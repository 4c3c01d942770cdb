//! The geometry an element can carry: how it draws, resizes, and whether a
//! point falls inside it.

use vstd::prelude::*;
use crate::math::Vec2;
use crate::math::Vec3;
use crate::math::Vec4;
use crate::math::half;
use crate::math::half_i64;
use crate::math::saturate;
use crate::math::saturate_i64;
use crate::painter::Painter;
use crate::painter::PainterView;
use crate::painter::Primitive;

verus! {

/// Half of the smaller side of `size`: the radius of the largest disc that fits.
pub open spec fn inscribed_radius(size: Vec2) -> i32 {
    if size.x <= size.y {
        half(size.x as int) as i32
    } else {
        half(size.y as int) as i32
    }
}

fn inscribed(size: Vec2) -> (r: i32)
    ensures
        r == inscribed_radius(size),
{
    let side: i32 = if size.x <= size.y { size.x } else { size.y };
    half_i64(side as i64) as i32
}

#[derive(Clone, Copy, Debug, PartialEq, Eq, Structural)]
pub struct Rectangle {
    pub round: Vec4,
    pub size: Vec2,
}

#[derive(Clone, Copy, Debug, PartialEq, Eq, Structural)]
pub struct Ngon {
    pub round: Vec4,
    pub sides: i32,
    pub radius: i32,
    /// In degrees.
    pub rotation: i32,
}

#[derive(Clone, Copy, Debug, PartialEq, Eq, Structural)]
pub struct Circle {
    pub round: Vec4,
    pub radius: i32,
}

/// An elbow connector: down half the way, across, down the rest.
#[derive(Clone, Copy, Debug, PartialEq, Eq, Structural)]
pub struct Curve {
    pub round: Vec4,
    pub star: Vec3,
    pub end: Vec3,
    pub thickness: i32,
}

/// A line of text. Its mesh is made by the renderer the first time the shape
/// is updated, and only moved after that.
#[derive(Clone, Debug)]
pub struct Text {
    pub content: String,
    pub round: Vec4,
    pub size: Vec2,
    pub font_size: i32,
    /// The extent of the shaped text, known once it is realized.
    pub content_size: Vec2,
    /// The renderer's handle of the realized text.
    pub entity: Option<u64>,
    pub screen_position: Vec2,
}

/// What the renderer is asked to do for a shape this frame.
#[derive(Clone, Debug)]
pub enum ShapeUpdate {
    /// The shape needs nothing from the renderer.
    Nothing,
    /// Shape `content` at `font_size` for the element anchored at
    /// `position`, and report the handle and extent back through
    /// [`Text::realized`], which says where the text is placed.
    Realize { content: String, font_size: i32, position: Vec3 },
    /// Move the realized text `entity` to `position`.
    Reposition { entity: u64, position: Vec3 },
}

impl Rectangle {
    pub open spec fn spec_default() -> Rectangle {
        Rectangle { round: Vec4::spec_zero(), size: Vec2::spec_zero() }
    }

    pub fn new(size: Vec2) -> (r: Rectangle)
        ensures
            r == (Rectangle { round: Vec4::spec_zero(), size }),
    {
        Rectangle { round: Vec4::zero(), size }
    }

    pub open spec fn drawn(self, p: PainterView) -> PainterView {
        p.with_corner_radii(self.round).issue(Primitive::Rect { size: self.size })
    }

    pub fn draw(&self, painter: &mut Painter)
        ensures
            final(painter)@ == self.drawn(old(painter)@),
    {
        painter.set_corner_radii(self.round);
        painter.rect(self.size);
    }

    pub fn set_size(&mut self, size: Vec2)
        ensures
            *final(self) == (Rectangle { size, ..*old(self) }),
    {
        self.size = size;
    }

    pub fn set_round(&mut self, round: Vec4)
        ensures
            *final(self) == (Rectangle { round, ..*old(self) }),
    {
        self.round = round;
    }
}

impl Default for Rectangle {
    fn default() -> (r: Rectangle)
        ensures
            r == Rectangle::spec_default(),
    {
        Rectangle { round: Vec4::zero(), size: Vec2::zero() }
    }
}

impl Ngon {
    /// A triangle of radius one.
    pub open spec fn spec_default() -> Ngon {
        Ngon { round: Vec4::spec_zero(), sides: 3, radius: 1, rotation: 0 }
    }

    pub fn sides(self, sides: i32) -> (r: Ngon)
        ensures
            r == (Ngon { sides, ..self }),
    {
        let mut out = self;
        out.sides = sides;
        out
    }

    pub open spec fn drawn(self, p: PainterView) -> PainterView {
        p.rotated(self.rotation).with_corner_radii(self.round).issue(
            Primitive::Ngon { sides: self.sides, radius: self.radius },
        )
    }

    pub fn draw(&self, painter: &mut Painter)
        ensures
            final(painter)@ == self.drawn(old(painter)@),
    {
        painter.rotate_z(self.rotation);
        painter.set_corner_radii(self.round);
        painter.ngon(self.sides, self.radius);
    }

    pub fn set_size(&mut self, size: Vec2)
        ensures
            *final(self) == (Ngon { radius: inscribed_radius(size), ..*old(self) }),
    {
        self.radius = inscribed(size);
    }

    pub fn set_round(&mut self, round: Vec4)
        ensures
            *final(self) == (Ngon { round, ..*old(self) }),
    {
        self.round = round;
    }
}

impl Default for Ngon {
    fn default() -> (r: Ngon)
        ensures
            r == Ngon::spec_default(),
    {
        Ngon { round: Vec4::zero(), sides: 3, radius: 1, rotation: 0 }
    }
}

impl Circle {
    /// A disc of radius one.
    pub open spec fn spec_default() -> Circle {
        Circle { round: Vec4::spec_zero(), radius: 1 }
    }

    pub fn new(radius: i32) -> (r: Circle)
        ensures
            r == (Circle { round: Vec4::spec_zero(), radius }),
    {
        Circle { round: Vec4::zero(), radius }
    }

    /// The disc is drawn one layer above the element's plane.
    pub open spec fn drawn(self, p: PainterView) -> PainterView {
        p.translated(Vec3 { x: 0, y: 0, z: 1 }).issue(Primitive::Circle { radius: self.radius })
    }

    pub fn draw(&self, painter: &mut Painter)
        ensures
            final(painter)@ == self.drawn(old(painter)@),
    {
        painter.translate(Vec3::new(0, 0, 1));
        painter.circle(self.radius);
    }

    pub fn set_size(&mut self, size: Vec2)
        ensures
            *final(self) == (Circle { radius: inscribed_radius(size), ..*old(self) }),
    {
        self.radius = inscribed(size);
    }

    pub fn set_round(&mut self, round: Vec4)
        ensures
            *final(self) == (Circle { round, ..*old(self) }),
    {
        self.round = round;
    }

    /// Whether `cursor`, relative to the centre, lies strictly inside the disc.
    pub open spec fn spec_hits(self, cursor: Vec2) -> bool {
        self.radius > 0 && cursor.x * cursor.x + cursor.y * cursor.y < self.radius * self.radius
    }

    /// Whether `cursor`, relative to the centre, lies strictly inside the disc.
    pub fn hits(&self, cursor: Vec2) -> (r: bool)
        ensures
            r == self.spec_hits(cursor),
    {
        if self.radius <= 0 {
            return false;
        }
        let x: i128 = cursor.x as i128;
        let y: i128 = cursor.y as i128;
        let radius: i128 = self.radius as i128;
        assert(0 <= x * x <= 0x4000_0000_0000_0000) by (nonlinear_arith)
            requires
                -0x8000_0000 <= x <= 0x8000_0000,
        ;
        assert(0 <= y * y <= 0x4000_0000_0000_0000) by (nonlinear_arith)
            requires
                -0x8000_0000 <= y <= 0x8000_0000,
        ;
        assert(0 <= radius * radius <= 0x4000_0000_0000_0000) by (nonlinear_arith)
            requires
                -0x8000_0000 <= radius <= 0x8000_0000,
        ;
        x * x + y * y < radius * radius
    }
}

impl Default for Circle {
    fn default() -> (r: Circle)
        ensures
            r == Circle::spec_default(),
    {
        Circle { round: Vec4::zero(), radius: 1 }
    }
}

impl Curve {
    pub open spec fn spec_default() -> Curve {
        Curve { round: Vec4::spec_zero(), star: Vec3::spec_zero(), end: Vec3::spec_zero(), thickness: 3 }
    }

    pub open spec fn new_spec(star: Vec3, end: Vec3) -> Curve {
        Curve { star, end, ..Curve::spec_default() }
    }

    #[verifier::when_used_as_spec(new_spec)]
    pub fn new(star: Vec3, end: Vec3) -> (r: Curve)
        ensures
            r == Curve::new_spec(star, end),
    {
        Curve { round: Vec4::zero(), star, end, thickness: 3 }
    }

    /// Half of the way from `star` down to `end`.
    pub open spec fn drop(self) -> int {
        half(self.end.y - self.star.y)
    }

    /// The corner below `star`.
    pub open spec fn first_corner(self) -> Vec3 {
        Vec3 { y: saturate(self.star.y + self.drop()) as i32, ..self.star }
    }

    /// The corner above `end`.
    pub open spec fn second_corner(self) -> Vec3 {
        Vec3 { y: saturate(self.end.y - self.drop()) as i32, ..self.end }
    }

    pub open spec fn drawn(self, p: PainterView) -> PainterView {
        p.with_thickness(self.thickness).issue(
            Primitive::Line { start: self.star, end: self.first_corner() },
        ).issue(Primitive::Line { start: self.first_corner(), end: self.second_corner() }).issue(
            Primitive::Line { start: self.second_corner(), end: self.end },
        )
    }

    pub fn draw(&self, painter: &mut Painter)
        ensures
            final(painter)@ == self.drawn(old(painter)@),
    {
        painter.set_thickness(self.thickness);
        let drop: i64 = half_i64(self.end.y as i64 - self.star.y as i64);
        let first = Vec3 { x: self.star.x, y: saturate_i64(self.star.y as i64 + drop), z: self.star.z };
        let second = Vec3 { x: self.end.x, y: saturate_i64(self.end.y as i64 - drop), z: self.end.z };
        painter.line(self.star, first);
        painter.line(first, second);
        painter.line(second, self.end);
    }

    pub fn set_size(&mut self, size: Vec2)
        ensures
            *final(self) == (Curve { thickness: inscribed_radius(size), ..*old(self) }),
    {
        self.thickness = inscribed(size);
    }

    pub fn set_round(&mut self, round: Vec4)
        ensures
            *final(self) == (Curve { round, ..*old(self) }),
    {
        self.round = round;
    }
}

impl Default for Curve {
    fn default() -> (r: Curve)
        ensures
            r == Curve::spec_default(),
    {
        Curve { round: Vec4::zero(), star: Vec3::zero(), end: Vec3::zero(), thickness: 3 }
    }
}

/// A text shape as a mathematical value.
pub ghost struct TextView {
    pub content: Seq<char>,
    pub round: Vec4,
    pub size: Vec2,
    pub font_size: i32,
    pub content_size: Vec2,
    pub entity: Option<u64>,
    pub screen_position: Vec2,
}

impl View for Text {
    type V = TextView;

    open spec fn view(&self) -> TextView {
        TextView {
            content: self.content@,
            round: self.round,
            size: self.size,
            font_size: self.font_size,
            content_size: self.content_size,
            entity: self.entity,
            screen_position: self.screen_position,
        }
    }
}

impl TextView {
    /// Unrealized text at font size one.
    pub open spec fn fresh(content: Seq<char>) -> TextView {
        TextView {
            content,
            round: Vec4::spec_zero(),
            size: Vec2::spec_zero(),
            font_size: 1,
            content_size: Vec2::spec_zero(),
            entity: None,
            screen_position: Vec2::spec_zero(),
        }
    }

    /// Where the realized text is placed for an element anchored at `offset`:
    /// its top-left corner, one layer above the element.
    pub open spec fn placement(self, offset: Vec3) -> Vec3 {
        Vec3 {
            x: saturate(offset.x - half(self.content_size.x as int)) as i32,
            y: saturate(offset.y + half(self.content_size.y as int)) as i32,
            z: 1,
        }
    }
}

impl Default for Text {
    fn default() -> (r: Text)
        ensures
            r@ == TextView::fresh(Seq::empty()),
    {
        Text::new(String::new())
    }
}

impl Text {
    pub fn new(content: String) -> (r: Text)
        ensures
            r@ == TextView::fresh(content@),
    {
        Text {
            content,
            round: Vec4::zero(),
            size: Vec2::zero(),
            font_size: 1,
            content_size: Vec2::zero(),
            entity: None,
            screen_position: Vec2::zero(),
        }
    }

    pub open spec fn drawn(self, p: PainterView) -> PainterView {
        p.issue(Primitive::Rect { size: self.size })
    }

    /// Draws the box of the text; the glyphs are the renderer's.
    pub fn draw(&self, painter: &mut Painter)
        ensures
            final(painter)@ == self.drawn(old(painter)@),
    {
        painter.rect(self.size);
    }

    /// The font size follows the height of the box.
    pub fn set_size(&mut self, size: Vec2)
        ensures
            final(self)@ == (TextView { size, font_size: size.y, ..old(self)@ }),
    {
        self.size = size;
        self.font_size = size.y;
    }

    pub fn get_size(&self) -> (r: Option<Vec2>)
        ensures
            r == Some(self.content_size),
    {
        Some(self.content_size)
    }

    /// Text has square corners: the radii are ignored.
    pub fn set_round(&mut self, round: Vec4)
        ensures
            final(self)@ == old(self)@,
    {
        let _ = round;
    }

    fn placement(&self, offset: Vec3) -> (r: Vec3)
        ensures
            r == self@.placement(offset),
    {
        Vec3 {
            x: saturate_i64(offset.x as i64 - half_i64(self.content_size.x as i64)),
            y: saturate_i64(offset.y as i64 + half_i64(self.content_size.y as i64)),
            z: 1,
        }
    }

    /// What the renderer must do so that the text shows at `offset`: realize
    /// it if no handle is recorded yet, else move it. The shape is unchanged.
    pub fn update(&self, offset: Vec3) -> (r: ShapeUpdate)
        ensures
            match self.entity {
                Some(entity) => r matches ShapeUpdate::Reposition { entity: e, position }
                    && e == entity && position == self@.placement(offset),
                None => r matches ShapeUpdate::Realize { content, font_size, position }
                    && content@ == self.content@ && font_size == self.font_size
                    && position == offset,
            },
    {
        match self.entity {
            Some(entity) => ShapeUpdate::Reposition { entity, position: self.placement(offset) },
            None => ShapeUpdate::Realize {
                content: self.content.clone(),
                font_size: self.font_size,
                position: offset,
            },
        }
    }

    /// Records the renderer's handle and the shaped extent, and says where
    /// the realized text is placed for an element anchored at `offset`.
    /// Text that is already realized keeps its first handle and extent.
    pub fn realized(&mut self, entity: u64, content_size: Vec2, offset: Vec3) -> (r: Vec3)
        ensures
            old(self).entity is None ==> final(self)@ == (TextView {
                entity: Some(entity),
                content_size,
                ..old(self)@
            }),
            old(self).entity is Some ==> final(self)@ == old(self)@,
            r == final(self)@.placement(offset),
    {
        if self.entity.is_none() {
            self.entity = Some(entity);
            self.content_size = content_size;
        }
        self.placement(offset)
    }
}

/// The shape an element carries.
#[derive(Clone, Debug)]
pub enum Shape {
    Rectangle(Rectangle),
    Circle(Circle),
    Ngon(Ngon),
    Curve(Curve),
    Text(Text),
}

/// A shape as a mathematical value.
pub ghost enum ShapeView {
    Rectangle(Rectangle),
    Circle(Circle),
    Ngon(Ngon),
    Curve(Curve),
    Text(TextView),
}

impl View for Shape {
    type V = ShapeView;

    open spec fn view(&self) -> ShapeView {
        match *self {
            Shape::Rectangle(s) => ShapeView::Rectangle(s),
            Shape::Circle(s) => ShapeView::Circle(s),
            Shape::Ngon(s) => ShapeView::Ngon(s),
            Shape::Curve(s) => ShapeView::Curve(s),
            Shape::Text(s) => ShapeView::Text(s@),
        }
    }
}

impl ShapeView {
    /// The painter after the shape is drawn.
    pub open spec fn drawn(self, p: PainterView) -> PainterView {
        match self {
            ShapeView::Rectangle(s) => s.drawn(p),
            ShapeView::Circle(s) => s.drawn(p),
            ShapeView::Ngon(s) => s.drawn(p),
            ShapeView::Curve(s) => s.drawn(p),
            ShapeView::Text(s) => p.issue(Primitive::Rect { size: s.size }),
        }
    }

    /// The shape fitted to a box of extent `size`.
    pub open spec fn resized(self, size: Vec2) -> ShapeView {
        match self {
            ShapeView::Rectangle(s) => ShapeView::Rectangle(Rectangle { size, ..s }),
            ShapeView::Circle(s) => ShapeView::Circle(Circle { radius: inscribed_radius(size), ..s }),
            ShapeView::Ngon(s) => ShapeView::Ngon(Ngon { radius: inscribed_radius(size), ..s }),
            ShapeView::Curve(s) => ShapeView::Curve(Curve { thickness: inscribed_radius(size), ..s }),
            ShapeView::Text(s) => ShapeView::Text(TextView { size, font_size: size.y, ..s }),
        }
    }

    /// The shape with corner radii `round`; text keeps square corners.
    pub open spec fn rounded(self, round: Vec4) -> ShapeView {
        match self {
            ShapeView::Rectangle(s) => ShapeView::Rectangle(Rectangle { round, ..s }),
            ShapeView::Circle(s) => ShapeView::Circle(Circle { round, ..s }),
            ShapeView::Ngon(s) => ShapeView::Ngon(Ngon { round, ..s }),
            ShapeView::Curve(s) => ShapeView::Curve(Curve { round, ..s }),
            ShapeView::Text(s) => ShapeView::Text(s),
        }
    }

    /// The extent of what the shape shows, where it differs from its box:
    /// only realized text has one.
    pub open spec fn extent(self) -> Option<Vec2> {
        match self {
            ShapeView::Text(s) => Some(s.content_size),
            _ => None,
        }
    }

    /// Whether `request` is what the shape asks of the renderer when its
    /// element is anchored at `offset`: text asks to be realized until it
    /// is, and to be moved after; no other shape asks for anything.
    pub open spec fn asks(self, offset: Vec3, request: ShapeUpdate) -> bool {
        match self {
            ShapeView::Text(s) => match s.entity {
                Some(entity) => request matches ShapeUpdate::Reposition { entity: e, position }
                    && e == entity && position == s.placement(offset),
                None => request matches ShapeUpdate::Realize { content, font_size, position }
                    && content@ == s.content && font_size == s.font_size && position == offset,
            },
            _ => request is Nothing,
        }
    }

    /// Where what the renderer realized of the shape is placed for an
    /// element anchored at `offset`. Only text has anything realized.
    pub open spec fn placed(self, offset: Vec3) -> Option<Vec3> {
        match self {
            ShapeView::Text(s) => Some(s.placement(offset)),
            _ => None,
        }
    }

    /// The shape once the renderer has realized it as `entity` with extent
    /// `content_size`. Only unrealized text changes.
    pub open spec fn realized(self, entity: u64, content_size: Vec2) -> ShapeView {
        match self {
            ShapeView::Text(s) => if s.entity is None {
                ShapeView::Text(TextView { entity: Some(entity), content_size, ..s })
            } else {
                self
            },
            _ => self,
        }
    }

    /// Whether `cursor`, relative to the shape's centre, hits the shape.
    /// Only a disc has an interior of its own.
    pub open spec fn hits(self, cursor: Vec2) -> bool {
        match self {
            ShapeView::Circle(s) => s.spec_hits(cursor),
            _ => false,
        }
    }
}

impl Shape {
    pub fn draw(&self, painter: &mut Painter)
        ensures
            final(painter)@ == self@.drawn(old(painter)@),
    {
        match self {
            Shape::Rectangle(s) => s.draw(painter),
            Shape::Circle(s) => s.draw(painter),
            Shape::Ngon(s) => s.draw(painter),
            Shape::Curve(s) => s.draw(painter),
            Shape::Text(s) => s.draw(painter),
        }
    }

    pub fn set_size(&mut self, size: Vec2)
        ensures
            final(self)@ == old(self)@.resized(size),
    {
        match self {
            Shape::Rectangle(s) => s.set_size(size),
            Shape::Circle(s) => s.set_size(size),
            Shape::Ngon(s) => s.set_size(size),
            Shape::Curve(s) => s.set_size(size),
            Shape::Text(s) => s.set_size(size),
        }
    }

    pub fn set_round(&mut self, round: Vec4)
        ensures
            final(self)@ == old(self)@.rounded(round),
    {
        match self {
            Shape::Rectangle(s) => s.set_round(round),
            Shape::Circle(s) => s.set_round(round),
            Shape::Ngon(s) => s.set_round(round),
            Shape::Curve(s) => s.set_round(round),
            Shape::Text(s) => s.set_round(round),
        }
    }

    pub fn get_size(&self) -> (r: Option<Vec2>)
        ensures
            r == self@.extent(),
    {
        match self {
            Shape::Text(s) => s.get_size(),
            _ => None,
        }
    }

    pub fn hits(&self, cursor: Vec2) -> (r: bool)
        ensures
            r == self@.hits(cursor),
    {
        match self {
            Shape::Circle(s) => s.hits(cursor),
            _ => false,
        }
    }

    /// What the renderer must do for this shape when its element is anchored
    /// at `offset`. Only text asks for anything.
    pub fn update(&self, offset: Vec3) -> (r: ShapeUpdate)
        ensures
            self@.asks(offset, r),
    {
        match self {
            Shape::Text(s) => s.update(offset),
            _ => ShapeUpdate::Nothing,
        }
    }

    /// Records that the renderer has realized the shape, and says where
    /// what it realized is placed for an element anchored at `offset`.
    pub fn realized(&mut self, entity: u64, content_size: Vec2, offset: Vec3) -> (r: Option<Vec3>)
        ensures
            final(self)@ == old(self)@.realized(entity, content_size),
            r == final(self)@.placed(offset),
    {
        match self {
            Shape::Text(s) => Some(s.realized(entity, content_size, offset)),
            _ => None,
        }
    }
}

/// What every shape can do: draw itself, fit a box, round its corners,
/// and say whether a point falls inside it.
pub trait ShapeTrait: Sized {
    /// The shape as a value of the shape type.
    spec fn shape(self) -> ShapeView;

    /// The shape as the shape of an element.
    fn into_shape(self) -> (r: Shape)
        ensures
            r@ == self.shape(),
    ;

    fn draw(&self, painter: &mut Painter)
        ensures
            final(painter)@ == self.shape().drawn(old(painter)@),
    ;

    fn set_size(&mut self, size: Vec2)
        ensures
            final(self).shape() == old(self).shape().resized(size),
    ;

    fn get_size(&self) -> (r: Option<Vec2>)
        ensures
            r == self.shape().extent(),
    ;

    fn set_round(&mut self, round: Vec4)
        ensures
            final(self).shape() == old(self).shape().rounded(round),
    ;

    fn hits(&self, cursor: Vec2) -> (r: bool)
        ensures
            r == self.shape().hits(cursor),
    ;
}

impl ShapeTrait for Rectangle {
    open spec fn shape(self) -> ShapeView {
        ShapeView::Rectangle(self)
    }

    fn into_shape(self) -> (r: Shape) {
        Shape::Rectangle(self)
    }

    fn draw(&self, painter: &mut Painter) {
        Rectangle::draw(self, painter)
    }

    fn set_size(&mut self, size: Vec2) {
        Rectangle::set_size(self, size)
    }

    fn get_size(&self) -> (r: Option<Vec2>) {
        None
    }

    fn set_round(&mut self, round: Vec4) {
        Rectangle::set_round(self, round)
    }

    fn hits(&self, cursor: Vec2) -> (r: bool) {
        false
    }
}

impl ShapeTrait for Ngon {
    open spec fn shape(self) -> ShapeView {
        ShapeView::Ngon(self)
    }

    fn into_shape(self) -> (r: Shape) {
        Shape::Ngon(self)
    }

    fn draw(&self, painter: &mut Painter) {
        Ngon::draw(self, painter)
    }

    fn set_size(&mut self, size: Vec2) {
        Ngon::set_size(self, size)
    }

    fn get_size(&self) -> (r: Option<Vec2>) {
        None
    }

    fn set_round(&mut self, round: Vec4) {
        Ngon::set_round(self, round)
    }

    fn hits(&self, cursor: Vec2) -> (r: bool) {
        false
    }
}

impl ShapeTrait for Circle {
    open spec fn shape(self) -> ShapeView {
        ShapeView::Circle(self)
    }

    fn into_shape(self) -> (r: Shape) {
        Shape::Circle(self)
    }

    fn draw(&self, painter: &mut Painter) {
        Circle::draw(self, painter)
    }

    fn set_size(&mut self, size: Vec2) {
        Circle::set_size(self, size)
    }

    fn get_size(&self) -> (r: Option<Vec2>) {
        None
    }

    fn set_round(&mut self, round: Vec4) {
        Circle::set_round(self, round)
    }

    fn hits(&self, cursor: Vec2) -> (r: bool) {
        Circle::hits(self, cursor)
    }
}

impl ShapeTrait for Curve {
    open spec fn shape(self) -> ShapeView {
        ShapeView::Curve(self)
    }

    fn into_shape(self) -> (r: Shape) {
        Shape::Curve(self)
    }

    fn draw(&self, painter: &mut Painter) {
        Curve::draw(self, painter)
    }

    fn set_size(&mut self, size: Vec2) {
        Curve::set_size(self, size)
    }

    fn get_size(&self) -> (r: Option<Vec2>) {
        None
    }

    fn set_round(&mut self, round: Vec4) {
        Curve::set_round(self, round)
    }

    fn hits(&self, cursor: Vec2) -> (r: bool) {
        false
    }
}

impl ShapeTrait for Text {
    open spec fn shape(self) -> ShapeView {
        ShapeView::Text(self@)
    }

    fn into_shape(self) -> (r: Shape) {
        Shape::Text(self)
    }

    fn draw(&self, painter: &mut Painter) {
        Text::draw(self, painter)
    }

    fn set_size(&mut self, size: Vec2) {
        Text::set_size(self, size)
    }

    fn get_size(&self) -> (r: Option<Vec2>) {
        Text::get_size(self)
    }

    fn set_round(&mut self, round: Vec4) {
        Text::set_round(self, round)
    }

    fn hits(&self, cursor: Vec2) -> (r: bool) {
        false
    }
}

impl ShapeTrait for Shape {
    open spec fn shape(self) -> ShapeView {
        self@
    }

    fn into_shape(self) -> (r: Shape) {
        self
    }

    fn draw(&self, painter: &mut Painter) {
        Shape::draw(self, painter)
    }

    fn set_size(&mut self, size: Vec2) {
        Shape::set_size(self, size)
    }

    fn get_size(&self) -> (r: Option<Vec2>) {
        Shape::get_size(self)
    }

    fn set_round(&mut self, round: Vec4) {
        Shape::set_round(self, round)
    }

    fn hits(&self, cursor: Vec2) -> (r: bool) {
        Shape::hits(self, cursor)
    }
}

} // verus!
