//! The painter the widgets draw with.
//!
//! A [`Painter`] carries the drawing state that one node's draw call leaves
//! for the next (colour, translation, rotation, corner radii, line
//! thickness) and records every primitive together with the state it was
//! issued under. The embedding application replays the recorded commands on
//! its renderer.

use vstd::prelude::*;
use crate::color::Srgba;
use crate::math::Vec2;
use crate::math::Vec3;
use crate::math::Vec4;
use crate::math::saturate;
use crate::math::saturate_i64;

verus! {

/// A shape primitive.
#[derive(Clone, Copy, Debug, PartialEq, Eq, Structural)]
pub enum Primitive {
    /// An axis-aligned rectangle of the given extent, centred on the translation.
    Rect { size: Vec2 },
    /// A disc.
    Circle { radius: i32 },
    /// A regular polygon.
    Ngon { sides: i32, radius: i32 },
    /// A line segment.
    Line { start: Vec3, end: Vec3 },
}

/// One recorded primitive, with the painter state it was issued under.
#[derive(Clone, Copy, Debug, PartialEq, Eq, Structural)]
pub struct DrawCommand {
    pub primitive: Primitive,
    pub color: Srgba,
    pub translation: Vec3,
    /// Rotation about the z axis, in degrees.
    pub rotation: i32,
    pub corner_radii: Vec4,
    pub thickness: i32,
}

/// The drawing state and the primitives recorded so far.
pub struct Painter {
    pub color: Srgba,
    pub translation: Vec3,
    /// Rotation about the z axis, in degrees.
    pub rotation: i32,
    pub corner_radii: Vec4,
    pub thickness: i32,
    /// The screen-space origin of the layout, once the frame has set it.
    pub origin: Option<Vec3>,
    pub commands: Vec<DrawCommand>,
}

/// A painter as a mathematical value.
pub ghost struct PainterView {
    pub color: Srgba,
    pub translation: Vec3,
    pub rotation: i32,
    pub corner_radii: Vec4,
    pub thickness: i32,
    pub origin: Option<Vec3>,
    pub commands: Seq<DrawCommand>,
}

impl PainterView {
    /// The command that a primitive issued now is recorded as.
    pub open spec fn command(self, primitive: Primitive) -> DrawCommand {
        DrawCommand {
            primitive,
            color: self.color,
            translation: self.translation,
            rotation: self.rotation,
            corner_radii: self.corner_radii,
            thickness: self.thickness,
        }
    }

    /// The painter after a primitive is issued: state unchanged, one more command.
    pub open spec fn issue(self, primitive: Primitive) -> PainterView {
        PainterView { commands: self.commands.push(self.command(primitive)), ..self }
    }

    pub open spec fn with_color(self, color: Srgba) -> PainterView {
        PainterView { color, ..self }
    }

    pub open spec fn with_translation(self, translation: Vec3) -> PainterView {
        PainterView { translation, ..self }
    }

    pub open spec fn translated(self, by: Vec3) -> PainterView {
        PainterView { translation: self.translation.spec_add(by), ..self }
    }

    pub open spec fn with_rotation(self, rotation: i32) -> PainterView {
        PainterView { rotation, ..self }
    }

    pub open spec fn rotated(self, degrees: i32) -> PainterView {
        PainterView { rotation: saturate(self.rotation + degrees) as i32, ..self }
    }

    pub open spec fn with_corner_radii(self, corner_radii: Vec4) -> PainterView {
        PainterView { corner_radii, ..self }
    }

    pub open spec fn with_thickness(self, thickness: i32) -> PainterView {
        PainterView { thickness, ..self }
    }
}

impl View for Painter {
    type V = PainterView;

    open spec fn view(&self) -> PainterView {
        PainterView {
            color: self.color,
            translation: self.translation,
            rotation: self.rotation,
            corner_radii: self.corner_radii,
            thickness: self.thickness,
            origin: self.origin,
            commands: self.commands@,
        }
    }
}

impl Painter {
    /// A painter at rest: opaque white, no transform, square corners,
    /// thickness one, nothing recorded.
    pub open spec fn initial() -> PainterView {
        PainterView {
            color: Srgba::spec_white(),
            translation: Vec3::spec_zero(),
            rotation: 0,
            corner_radii: Vec4::spec_zero(),
            thickness: 1,
            origin: None,
            commands: Seq::empty(),
        }
    }

    pub fn new() -> (r: Painter)
        ensures
            r@ == Painter::initial(),
    {
        Painter {
            color: Srgba::white(),
            translation: Vec3::zero(),
            rotation: 0,
            corner_radii: Vec4::zero(),
            thickness: 1,
            origin: None,
            commands: Vec::new(),
        }
    }

    pub fn set_color(&mut self, color: Srgba)
        ensures
            final(self)@ == old(self)@.with_color(color),
    {
        self.color = color;
    }

    pub fn set_translation(&mut self, translation: Vec3)
        ensures
            final(self)@ == old(self)@.with_translation(translation),
    {
        self.translation = translation;
    }

    /// Moves the translation by `by`, saturating.
    pub fn translate(&mut self, by: Vec3)
        ensures
            final(self)@ == old(self)@.translated(by),
    {
        self.translation = self.translation.plus(by);
    }

    pub fn set_rotation(&mut self, degrees: i32)
        ensures
            final(self)@ == old(self)@.with_rotation(degrees),
    {
        self.rotation = degrees;
    }

    /// Turns the painter about the z axis by `degrees`, saturating.
    pub fn rotate_z(&mut self, degrees: i32)
        ensures
            final(self)@ == old(self)@.rotated(degrees),
    {
        self.rotation = saturate_i64(self.rotation as i64 + degrees as i64);
    }

    pub fn set_corner_radii(&mut self, corner_radii: Vec4)
        ensures
            final(self)@ == old(self)@.with_corner_radii(corner_radii),
    {
        self.corner_radii = corner_radii;
    }

    pub fn set_thickness(&mut self, thickness: i32)
        ensures
            final(self)@ == old(self)@.with_thickness(thickness),
    {
        self.thickness = thickness;
    }

    fn issue(&mut self, primitive: Primitive)
        ensures
            final(self)@ == old(self)@.issue(primitive),
    {
        let command = DrawCommand {
            primitive,
            color: self.color,
            translation: self.translation,
            rotation: self.rotation,
            corner_radii: self.corner_radii,
            thickness: self.thickness,
        };
        self.commands.push(command);
    }

    pub fn rect(&mut self, size: Vec2)
        ensures
            final(self)@ == old(self)@.issue(Primitive::Rect { size }),
    {
        self.issue(Primitive::Rect { size });
    }

    pub fn circle(&mut self, radius: i32)
        ensures
            final(self)@ == old(self)@.issue(Primitive::Circle { radius }),
    {
        self.issue(Primitive::Circle { radius });
    }

    pub fn ngon(&mut self, sides: i32, radius: i32)
        ensures
            final(self)@ == old(self)@.issue(Primitive::Ngon { sides, radius }),
    {
        self.issue(Primitive::Ngon { sides, radius });
    }

    pub fn line(&mut self, start: Vec3, end: Vec3)
        ensures
            final(self)@ == old(self)@.issue(Primitive::Line { start, end }),
    {
        self.issue(Primitive::Line { start, end });
    }

    /// Hands out the commands recorded so far and starts a new record.
    pub fn take_commands(&mut self) -> (r: Vec<DrawCommand>)
        ensures
            r@ == old(self)@.commands,
            final(self)@ == (PainterView { commands: Seq::empty(), ..old(self)@ }),
    {
        let mut out: Vec<DrawCommand> = Vec::new();
        std::mem::swap(&mut out, &mut self.commands);
        out
    }
}

} // verus!
