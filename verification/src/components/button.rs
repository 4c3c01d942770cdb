//! A plain button: a coloured rectangle that lights up under the pointer.

use vstd::prelude::*;
use crate::color::Srgba;
use crate::color::sea_green;
use crate::color::spec_sea_green;
use crate::components::UIMouseState;
use crate::math::Vec2;
use crate::math::Vec3;
use crate::math::Vec4;
use crate::math::half;
use crate::math::half_i64;
use crate::math::saturate;
use crate::math::saturate_i64;
use crate::painter::Painter;
use crate::painter::PainterView;
use crate::painter::Primitive;
use crate::solver::Layout;
use crate::style::Dimension;
use crate::style::FlexStyle;
use crate::style::Rect;
use crate::style::Size;

verus! {

pub struct SDButton {
    tile: String,
    color: Srgba,
    size: Vec2,
    state: UIMouseState,
    /// The centre of the button, y pointing up.
    pub position: Vec3,
}

/// A button as a mathematical value.
pub ghost struct SDButtonView {
    pub tile: Seq<char>,
    pub color: Srgba,
    pub size: Vec2,
    pub state: UIMouseState,
    pub position: Vec3,
}

impl View for SDButton {
    type V = SDButtonView;

    closed spec fn view(&self) -> SDButtonView {
        SDButtonView {
            tile: self.tile@,
            color: self.color,
            size: self.size,
            state: self.state,
            position: self.position,
        }
    }
}

impl SDButtonView {
    /// Whether the screen point `point`, y pointing down, lies strictly
    /// inside the button, which reaches half its size to either side of
    /// its position. The distances are compared doubled, so that an odd
    /// side loses nothing to rounding.
    pub open spec fn hit(self, point: Vec2) -> bool {
        &&& -self.size.x < 2 * (point.x - self.position.x)
        &&& 2 * (point.x - self.position.x) < self.size.x
        &&& -self.size.y < 2 * (point.y + self.position.y)
        &&& 2 * (point.y + self.position.y) < self.size.y
    }

    /// The colour the button shows: lighter under the pointer, lighter
    /// still when clicked.
    pub open spec fn shown_color(self) -> Srgba {
        if self.state == UIMouseState::Hover {
            self.color.spec_lightened(64)
        } else if self.state == UIMouseState::Click {
            self.color.spec_lightened(128)
        } else {
            self.color
        }
    }

    pub open spec fn drawn(self, p: PainterView) -> PainterView {
        p.with_color(self.shown_color()).with_translation(self.position).with_corner_radii(
            Vec4::spec_zero(),
        ).issue(Primitive::Rect { size: self.size })
    }

    /// The button's style: its size, inside fixed margins.
    pub open spec fn style(self) -> FlexStyle {
        FlexStyle {
            size: Size {
                width: Dimension::Length(self.size.x),
                height: Dimension::Length(self.size.y),
            },
            margin: Rect { left: 10, right: 15, top: 20, bottom: 30 },
            ..FlexStyle::spec_default()
        }
    }

    /// Where the box `layout` puts the centre of the button.
    pub open spec fn placed(self, origin: Vec3, layout: Layout) -> Vec3 {
        Vec3 {
            x: saturate(origin.x + layout.location.x + half(self.size.x as int)) as i32,
            y: saturate(origin.y - half(self.size.y as int) + layout.location.y) as i32,
            z: 0,
        }
    }

    /// The button after a frame: placed by the layout and hit-tested.
    pub open spec fn updated(self, cursor: (i32, i32), origin: Vec3, layout: Layout) -> SDButtonView {
        let placed = SDButtonView { position: self.placed(origin, layout), ..self };
        let on_screen = Vec2 {
            x: saturate(cursor.0 + origin.x) as i32,
            y: saturate(cursor.1 - origin.y) as i32,
        };
        SDButtonView {
            state: if placed.hit(on_screen) {
                UIMouseState::Hover
            } else {
                UIMouseState::Release
            },
            ..placed
        }
    }
}

impl SDButton {
    pub fn new() -> (r: SDButton)
        ensures
            r@ == (SDButtonView {
                tile: "Button"@,
                color: spec_sea_green(),
                size: Vec2 { x: 10, y: 10 },
                state: UIMouseState::Release,
                position: Vec3::spec_zero(),
            }),
    {
        SDButton {
            tile: "Button".to_string(),
            color: sea_green(),
            size: Vec2::new(10, 10),
            position: Vec3::zero(),
            state: UIMouseState::Release,
        }
    }

    pub fn insection(&self, point: Vec2) -> (r: bool)
        ensures
            r == self@.hit(point),
    {
        let width: i64 = self.size.x as i64;
        let height: i64 = self.size.y as i64;
        let across: i64 = point.x as i64 - self.position.x as i64;
        let down: i64 = point.y as i64 + self.position.y as i64;
        -width < across + across && across + across < width && -height < down + down && down + down
            < height
    }

    pub fn color(self, color: Srgba) -> (r: SDButton)
        ensures
            r@ == (SDButtonView { color, ..self@ }),
    {
        let mut out = self;
        out.color = color;
        out
    }

    pub fn tile(self, tile: String) -> (r: SDButton)
        ensures
            r@ == (SDButtonView { tile: tile@, ..self@ }),
    {
        let mut out = self;
        out.tile = tile;
        out
    }

    pub fn size(self, size: Vec2) -> (r: SDButton)
        ensures
            r@ == (SDButtonView { size, ..self@ }),
    {
        let mut out = self;
        out.size = size;
        out
    }

    pub fn draw(&self, painter: &mut Painter)
        ensures
            final(painter)@ == self@.drawn(old(painter)@),
    {
        match self.state {
            UIMouseState::Hover => {
                painter.set_color(self.color.lightened(64));
            },
            UIMouseState::Click => {
                painter.set_color(self.color.lightened(128));
            },
            _ => {
                painter.set_color(self.color);
            },
        }
        painter.set_translation(self.position);
        painter.set_corner_radii(Vec4::zero());
        painter.rect(self.size);
    }

    pub fn style(&self) -> (r: FlexStyle)
        ensures
            r == self@.style(),
    {
        let mut out = FlexStyle::default();
        out.size = Size {
            width: Dimension::Length(self.size.x),
            height: Dimension::Length(self.size.y),
        };
        out.margin = Rect { left: 10, right: 15, top: 20, bottom: 30 };
        out
    }

    /// Places the button by its box and tests the cursor against it.
    pub fn update(&mut self, cursor: (i32, i32), origin: Vec3, layout: &Layout)
        ensures
            final(self)@ == old(self)@.updated(cursor, origin, *layout),
    {
        self.position = Vec3 {
            x: saturate_i64(
                origin.x as i64 + layout.location.x as i64 + half_i64(self.size.x as i64),
            ),
            y: saturate_i64(
                origin.y as i64 - half_i64(self.size.y as i64) + layout.location.y as i64,
            ),
            z: 0,
        };
        let on_screen = Vec2 {
            x: saturate_i64(cursor.0 as i64 + origin.x as i64),
            y: saturate_i64(cursor.1 as i64 - origin.y as i64),
        };
        if self.insection(on_screen) {
            self.state = UIMouseState::Hover;
        } else {
            self.state = UIMouseState::Release;
        }
    }

    pub fn get_size(&self) -> (r: (i32, i32))
        ensures
            r == (self@.size.x, self@.size.y),
    {
        (self.size.x, self.size.y)
    }

    pub fn state(&self) -> (r: UIMouseState)
        ensures
            r == self@.state,
    {
        self.state
    }
}

} // verus!
