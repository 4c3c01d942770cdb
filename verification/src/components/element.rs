//! The element: the one node type of the UI tree.
//!
//! An [`Element`] is a record of [`Attributes`] (what it looks like, where
//! the layout put it, what the pointer is doing to it) together with the
//! callbacks bound to it. Callbacks see the attributes and the shared state.

use vstd::prelude::*;
use std::sync::Arc;
use crate::color::Srgba;
use crate::color::blue_violet;
use crate::color::spec_blue_violet;
use crate::components::UIMouseState;
use crate::components::UIRenderMode;
use crate::context::MemState;
use crate::math::Vec2;
use crate::math::Vec3;
use crate::math::Vec4;
use crate::math::half;
use crate::math::half_i64;
use crate::math::saturate;
use crate::math::saturate_i64;
use crate::painter::Painter;
use crate::painter::PainterView;
use crate::painter::Primitive;
use crate::shape::Shape;
use crate::shape::ShapeTrait;
use crate::shape::ShapeView;
use crate::solver::Layout;
use crate::style::Align;
use crate::style::Dimension;
use crate::style::Distribute;
use crate::style::Inset;
use crate::style::Position;
use crate::style::Rect;
use crate::style::Size;
use crate::style::FlexStyle;

verus! {

/// Whether an element is content or the root of the structure overlay.
#[derive(Clone, Copy, Debug, PartialEq, Eq, Structural)]
pub enum ElementType {
    Content,
    Debug,
}

#[derive(Clone, Copy, Debug, PartialEq, Eq, Structural)]
pub enum FlexDirection {
    Row,
    Column,
    RowReverse,
    ColumnReverse,
}

#[derive(Clone, Copy, Debug, PartialEq, Eq, Structural)]
pub enum AlignItems {
    Start,
    End,
    FlexStart,
    FlexEnd,
    Center,
    Baseline,
    Stretch,
    NotSet,
}

/// A highlight: what a render callback does to the painter before the
/// element is drawn.
#[derive(Clone, Copy, Debug, PartialEq, Eq, Structural)]
pub struct Renderback {
    /// The fill colour the highlight switches to.
    pub color: Srgba,
}

/// The highlights of an element, by the render state that triggers them.
#[derive(Clone, Copy, Debug, PartialEq, Eq, Structural)]
pub struct RenderAction {
    pub hover: Option<Renderback>,
    pub click: Option<Renderback>,
}

/// An input callback: runs with the element's attributes and the shared state.
pub trait Callback: Send + Sync {
    /// Whether a call that finds the attributes `before` and the shared
    /// state `state` may leave them as `after` and `after_state`. A
    /// callback that says nothing of itself may leave anything.
    open spec fn ran(&self, before: Attributes, state: MemState, after: Attributes, after_state: MemState) -> bool {
        true
    }

    fn call(&self, element: &mut Attributes, state: &mut MemState)
        ensures
            self.ran(*old(element), *old(state), *final(element), *final(state)),
    ;
}

/// A draw hook: runs with the element's attributes.
pub trait Drawfunc: Send + Sync {
    fn call(&self, element: &mut Attributes);
}

/// The input callbacks of an element.
pub struct IunputAction {
    pub hover: Option<Arc<dyn Callback>>,
    pub click: Option<Arc<dyn Callback>>,
}

/// Everything about an element but its callbacks.
pub struct Attributes {
    pub id: i64,
    pub zorder: i32,
    pub tile: String,
    pub color: Srgba,
    pub background_color: Srgba,
    pub round: Vec4,
    /// The requested size until the first layout pass, the resolved size after.
    pub layout_size: Vec2,
    /// The centre of the resolved box, y pointing up.
    pub layout_anchor: Vec3,
    pub content_size: Vec2,
    /// Drives the callbacks.
    pub action_state: UIMouseState,
    /// Drives the highlight.
    pub render_state: UIMouseState,
    pub render_block: UIRenderMode,
    /// The committed displacement of all finished drags.
    pub anchor_offset: Vec3,
    /// The displacement of the drag in progress.
    pub rubber_offset: Vec3,
    /// Left, top, right, bottom.
    pub margin: Vec4,
    /// Left, top, right, bottom.
    pub padding: Vec4,
    pub shape: Option<Shape>,
    pub render: RenderAction,
    pub flex_direction: FlexDirection,
    pub main_axis_alignment: AlignItems,
    pub cors_axis_alignment: AlignItems,
    pub self_main_axis_alignment: AlignItems,
    pub self_cors_axis_alignment: AlignItems,
    pub element_type: ElementType,
    pub drag_enable: bool,
    pub isready: bool,
}

/// An element's attributes as a mathematical value.
pub ghost struct AttributesView {
    pub id: i64,
    pub zorder: i32,
    pub tile: Seq<char>,
    pub color: Srgba,
    pub background_color: Srgba,
    pub round: Vec4,
    pub layout_size: Vec2,
    pub layout_anchor: Vec3,
    pub content_size: Vec2,
    pub action_state: UIMouseState,
    pub render_state: UIMouseState,
    pub render_block: UIRenderMode,
    pub anchor_offset: Vec3,
    pub rubber_offset: Vec3,
    pub margin: Vec4,
    pub padding: Vec4,
    pub shape: Option<ShapeView>,
    pub render: RenderAction,
    pub flex_direction: FlexDirection,
    pub main_axis_alignment: AlignItems,
    pub cors_axis_alignment: AlignItems,
    pub self_main_axis_alignment: AlignItems,
    pub self_cors_axis_alignment: AlignItems,
    pub element_type: ElementType,
    pub drag_enable: bool,
    pub isready: bool,
}

impl View for Attributes {
    type V = AttributesView;

    open spec fn view(&self) -> AttributesView {
        AttributesView {
            id: self.id,
            zorder: self.zorder,
            tile: self.tile@,
            color: self.color,
            background_color: self.background_color,
            round: self.round,
            layout_size: self.layout_size,
            layout_anchor: self.layout_anchor,
            content_size: self.content_size,
            action_state: self.action_state,
            render_state: self.render_state,
            render_block: self.render_block,
            anchor_offset: self.anchor_offset,
            rubber_offset: self.rubber_offset,
            margin: self.margin,
            padding: self.padding,
            shape: match self.shape {
                Some(s) => Some(s@),
                None => None,
            },
            render: self.render,
            flex_direction: self.flex_direction,
            main_axis_alignment: self.main_axis_alignment,
            cors_axis_alignment: self.cors_axis_alignment,
            self_main_axis_alignment: self.self_main_axis_alignment,
            self_cors_axis_alignment: self.self_cors_axis_alignment,
            element_type: self.element_type,
            drag_enable: self.drag_enable,
            isready: self.isready,
        }
    }
}

/// The alignment of one item that a stored alignment stands for.
pub open spec fn item_alignment(a: AlignItems) -> Option<Align> {
    match a {
        AlignItems::Start => Some(Align::Start),
        AlignItems::End => Some(Align::End),
        AlignItems::FlexStart => Some(Align::FlexStart),
        AlignItems::FlexEnd => Some(Align::FlexEnd),
        AlignItems::Center => Some(Align::Center),
        AlignItems::Baseline => Some(Align::Baseline),
        AlignItems::Stretch => Some(Align::Stretch),
        AlignItems::NotSet => None,
    }
}

/// The distribution along an axis that a stored alignment stands for. A
/// line of items has no baseline of its own, so baseline centres.
pub open spec fn content_distribution(a: AlignItems) -> Distribute {
    match a {
        AlignItems::Start => Distribute::Start,
        AlignItems::End => Distribute::End,
        AlignItems::FlexStart => Distribute::FlexStart,
        AlignItems::FlexEnd => Distribute::FlexEnd,
        AlignItems::Center => Distribute::Center,
        AlignItems::Baseline => Distribute::Center,
        AlignItems::Stretch => Distribute::Stretch,
        AlignItems::NotSet => Distribute::Start,
    }
}

/// Whether a direction runs along the horizontal axis.
pub open spec fn is_row(d: FlexDirection) -> bool {
    d == FlexDirection::Row || d == FlexDirection::RowReverse
}

impl AttributesView {
    /// Whether `point` lies strictly inside the resolved box. The point is
    /// in screen coordinates, y pointing down; the anchor's y points up.
    ///
    /// The box reaches half the size to either side of the anchor. The
    /// distances are compared doubled, so that a box of odd side loses
    /// nothing to rounding: a box one unit wide holds its anchor.
    pub open spec fn in_box(self, point: Vec2) -> bool {
        &&& -self.layout_size.x < 2 * (point.x - self.layout_anchor.x)
        &&& 2 * (point.x - self.layout_anchor.x) < self.layout_size.x
        &&& -self.layout_size.y < 2 * (point.y + self.layout_anchor.y)
        &&& 2 * (point.y + self.layout_anchor.y) < self.layout_size.y
    }

    /// `point` relative to the anchor, as the shape sees it.
    pub open spec fn local(self, point: Vec2) -> Vec2 {
        Vec2 {
            x: saturate(point.x - self.layout_anchor.x) as i32,
            y: saturate(point.y + self.layout_anchor.y) as i32,
        }
    }

    /// Whether `point` hits the element: it lies in the box, or the shape
    /// claims it.
    pub open spec fn hit(self, point: Vec2) -> bool {
        self.in_box(point) || match self.shape {
            Some(s) => s.hits(self.local(point)),
            None => false,
        }
    }

    /// The rubber offset while the button is held `start` to `current`: the
    /// drag vector, its y flipped to point up.
    pub open spec fn stretched(self, start: Vec2, current: Vec2) -> Vec3 {
        Vec3 {
            x: saturate(current.x - start.x) as i32,
            y: saturate(start.y - current.y) as i32,
            z: self.rubber_offset.z,
        }
    }

    /// The offsets after the drag step of a layout pass: a pressed element
    /// follows the pointer, a released one commits what it followed.
    pub open spec fn dragged(self, start: Vec2, current: Vec2) -> AttributesView {
        if self.drag_enable && self.action_state == UIMouseState::Pressed {
            AttributesView { rubber_offset: self.stretched(start, current), ..self }
        } else if self.drag_enable && self.action_state == UIMouseState::Release {
            AttributesView {
                anchor_offset: self.anchor_offset.spec_add(self.rubber_offset),
                rubber_offset: Vec3::spec_zero(),
                ..self
            }
        } else {
            self
        }
    }

    /// The centre of the box `layout`, for a parent whose content starts at
    /// `origin + inherit_origin`, displaced by this element's offsets.
    pub open spec fn anchored(self, layout: Layout, origin: Vec3, inherit_origin: Vec3) -> Vec3 {
        Vec3 {
            x: saturate(
                origin.x + layout.location.x + half(layout.size.x as int) + inherit_origin.x
                    + self.anchor_offset.x + self.rubber_offset.x,
            ) as i32,
            y: saturate(
                origin.y - half(layout.size.y as int) - layout.location.y - inherit_origin.y
                    + self.anchor_offset.y + self.rubber_offset.y,
            ) as i32,
            z: saturate(self.anchor_offset.z + self.rubber_offset.z) as i32,
        }
    }

    /// The attributes after a layout pass.
    pub open spec fn laid_out(
        self,
        layout: Layout,
        origin: Vec3,
        inherit_origin: Vec3,
        start: Vec2,
        current: Vec2,
    ) -> AttributesView {
        let moved = self.dragged(start, current);
        AttributesView {
            layout_size: layout.size,
            content_size: layout.content_size,
            layout_anchor: moved.anchored(layout, origin, inherit_origin),
            ..moved
        }
    }

    /// The cursor in the coordinates of the hit test.
    pub open spec fn cursor_on_screen(cursor: (i32, i32), origin: Vec3) -> Vec2 {
        Vec2 {
            x: saturate(cursor.0 + origin.x) as i32,
            y: saturate(cursor.1 - origin.y) as i32,
        }
    }

    /// The attributes after the hit test of a frame. A cursor with negative
    /// x is outside the viewport and tests nothing.
    pub open spec fn hovered(self, cursor: (i32, i32), origin: Vec3) -> AttributesView {
        if cursor.0 < 0 {
            self
        } else if self.hit(Self::cursor_on_screen(cursor, origin)) {
            AttributesView { render_state: UIMouseState::Hover, ..self }
        } else {
            AttributesView { render_state: UIMouseState::Release, ..self }
        }
    }

    /// The attributes after `state` is broadcast. Only an element under the
    /// pointer takes a broadcast; a drag broadcast ends a pending click.
    pub open spec fn with_action(self, state: UIMouseState) -> AttributesView {
        if self.render_state != UIMouseState::Hover {
            self
        } else if state == UIMouseState::Drag && self.action_state == UIMouseState::Click {
            AttributesView { action_state: UIMouseState::Release, ..self }
        } else {
            AttributesView { action_state: state, ..self }
        }
    }

    pub open spec fn with_render(self, state: UIMouseState) -> AttributesView {
        AttributesView { render_state: state, ..self }
    }

    /// The render state that the element shows a highlight for: its own,
    /// while it hovers or clicks and has a hover highlight.
    pub open spec fn shown(self) -> Option<UIMouseState> {
        if self.render.hover is Some && (self.render_state == UIMouseState::Hover
            || self.render_state == UIMouseState::Click) {
            Some(self.render_state)
        } else {
            None
        }
    }

    /// The attributes of a descendant of a grouping node whose render
    /// state is `state`: the group's render state, whatever its own hit
    /// test said, and no action of its own.
    pub open spec fn grouped(self, state: UIMouseState) -> AttributesView {
        AttributesView { render_state: state, action_state: UIMouseState::Release, ..self }
    }

    /// The painter after the highlight of the current render state.
    pub open spec fn highlighted(self, p: PainterView) -> PainterView {
        if self.render_block == UIRenderMode::WithoutSelf {
            p
        } else if self.render_state == UIMouseState::Hover || self.render_state
            == UIMouseState::Pressed {
            match self.render.hover {
                Some(h) => p.with_color(h.color),
                None => p,
            }
        } else if self.render_state == UIMouseState::Click {
            match self.render.click {
                Some(h) => p.with_color(h.color),
                None => p,
            }
        } else {
            p
        }
    }

    /// The painter after the element's shape.
    pub open spec fn shaped(self, p: PainterView) -> PainterView {
        match self.shape {
            Some(s) => s.drawn(p),
            None => p,
        }
    }

    /// The painter after the content rectangle, which only a visible element
    /// without a shape has.
    pub open spec fn filled(self, p: PainterView) -> PainterView {
        if self.color != Srgba::spec_zero() && self.shape is None {
            p.with_color(self.color).issue(Primitive::Rect { size: self.content_size })
        } else {
            p
        }
    }

    /// The painter after the background rectangle, at half the background's
    /// strength.
    pub open spec fn backed(self, p: PainterView) -> PainterView {
        if self.background_color != Srgba::spec_zero() {
            p.with_color(self.background_color.spec_halved()).issue(
                Primitive::Rect { size: self.layout_size },
            )
        } else {
            p
        }
    }

    /// The painter after the element is drawn. Corner radii and rotation are
    /// back at rest; colour and translation are left as the element set them.
    pub open spec fn drawn(self, p: PainterView) -> PainterView {
        let lit = self.highlighted(p.with_color(self.color));
        let shaped = self.shaped(lit.with_translation(self.layout_anchor));
        let filled = self.filled(shaped.with_corner_radii(self.round));
        self.backed(filled).with_corner_radii(Vec4::spec_zero()).with_rotation(0)
    }

    /// The size the solver is asked for: the requested one, or the content's
    /// where none was requested.
    pub open spec fn style_size(self) -> Size {
        if self.layout_size.x == 0 && self.layout_size.y == 0 {
            Size::spec_auto()
        } else {
            Size {
                width: Dimension::Length(self.layout_size.x),
                height: Dimension::Length(self.layout_size.y),
            }
        }
    }

    /// The style of a content element.
    pub open spec fn content_style(self) -> FlexStyle {
        FlexStyle {
            size: self.style_size(),
            margin: Rect {
                left: self.margin.x,
                right: self.margin.z,
                top: self.margin.y,
                bottom: self.margin.w,
            },
            padding: Rect {
                left: self.padding.x,
                right: self.padding.z,
                top: self.padding.y,
                bottom: self.padding.w,
            },
            flex_direction: self.flex_direction,
            align_items: if self.cors_axis_alignment == AlignItems::NotSet {
                Some(Align::Start)
            } else {
                item_alignment(self.cors_axis_alignment)
            },
            justify_content: Some(content_distribution(self.main_axis_alignment)),
            align_content: Some(content_distribution(self.cors_axis_alignment)),
            align_self: item_alignment(self.self_cors_axis_alignment),
            justify_self: item_alignment(self.self_main_axis_alignment),
            position: Position::Relative,
            inset: Inset::spec_auto(),
        }
    }

    /// The style the element hands to the solver. The overlay root is taken
    /// out of the flow and pinned to the top right corner.
    pub open spec fn style(self) -> FlexStyle {
        if self.element_type == ElementType::Debug {
            FlexStyle {
                position: Position::Absolute,
                inset: Inset::spec_top_right(),
                justify_self: Some(Align::Center),
                ..self.content_style()
            }
        } else {
            self.content_style()
        }
    }
}

fn item_align(a: AlignItems) -> (r: Option<Align>)
    ensures
        r == item_alignment(a),
{
    match a {
        AlignItems::Start => Some(Align::Start),
        AlignItems::End => Some(Align::End),
        AlignItems::FlexStart => Some(Align::FlexStart),
        AlignItems::FlexEnd => Some(Align::FlexEnd),
        AlignItems::Center => Some(Align::Center),
        AlignItems::Baseline => Some(Align::Baseline),
        AlignItems::Stretch => Some(Align::Stretch),
        AlignItems::NotSet => None,
    }
}

fn distribution(a: AlignItems) -> (r: Distribute)
    ensures
        r == content_distribution(a),
{
    match a {
        AlignItems::Start => Distribute::Start,
        AlignItems::End => Distribute::End,
        AlignItems::FlexStart => Distribute::FlexStart,
        AlignItems::FlexEnd => Distribute::FlexEnd,
        AlignItems::Center => Distribute::Center,
        AlignItems::Baseline => Distribute::Center,
        AlignItems::Stretch => Distribute::Stretch,
        AlignItems::NotSet => Distribute::Start,
    }
}

impl Renderback {
    /// Switches the painter to the highlight colour.
    pub fn call(&self, painter: &mut Painter)
        ensures
            final(painter)@ == old(painter)@.with_color(self.color),
    {
        painter.set_color(self.color);
    }
}

impl RenderAction {
    /// The accent highlight on hover and on click.
    pub open spec fn spec_default() -> RenderAction {
        RenderAction {
            hover: Some(Renderback { color: spec_blue_violet() }),
            click: Some(Renderback { color: spec_blue_violet() }),
        }
    }

    /// No highlight at all.
    pub fn empty() -> (r: RenderAction)
        ensures
            r == (RenderAction { hover: None, click: None }),
    {
        RenderAction { hover: None, click: None }
    }
}

impl Default for RenderAction {
    fn default() -> (r: RenderAction)
        ensures
            r == RenderAction::spec_default(),
    {
        let accent = Renderback { color: blue_violet() };
        RenderAction { hover: Some(accent), click: Some(accent) }
    }
}

impl Default for IunputAction {
    fn default() -> (r: IunputAction)
        ensures
            r.hover is None,
            r.click is None,
    {
        IunputAction { hover: None, click: None }
    }
}

impl Attributes {
    /// Whether the screen point `point` hits the element.
    pub fn insection(&self, point: Vec2) -> (r: bool)
        ensures
            r == self@.hit(point),
    {
        let width: i64 = self.layout_size.x as i64;
        let height: i64 = self.layout_size.y as i64;
        let across: i64 = point.x as i64 - self.layout_anchor.x as i64;
        let down: i64 = point.y as i64 + self.layout_anchor.y as i64;
        if -width < across + across && across + across < width {
            if -height < down + down && down + down < height {
                return true;
            }
        }
        match &self.shape {
            Some(shape) => shape.hits(
                Vec2 {
                    x: saturate_i64(point.x as i64 - self.layout_anchor.x as i64),
                    y: saturate_i64(point.y as i64 + self.layout_anchor.y as i64),
                },
            ),
            None => false,
        }
    }

    /// Takes the resolved box `layout` and re-anchors the element, after
    /// letting it follow or commit a drag from `start` to `current`.
    pub fn update_layout(
        &mut self,
        layout: &Layout,
        origin: Vec3,
        inherit_origin: Vec3,
        cxt: &MemState,
    )
        ensures
            final(self)@ == old(self)@.laid_out(
                *layout,
                origin,
                inherit_origin,
                cxt.drag_delta.0,
                cxt.drag_delta.1,
            ),
    {
        self.layout_size = layout.size;
        self.content_size = layout.content_size;
        if self.drag_enable {
            if self.action_state == UIMouseState::Pressed {
                let start = cxt.drag_delta.0;
                let current = cxt.drag_delta.1;
                self.rubber_offset.x = saturate_i64(current.x as i64 - start.x as i64);
                self.rubber_offset.y = saturate_i64(start.y as i64 - current.y as i64);
            } else if self.action_state == UIMouseState::Release {
                self.anchor_offset = self.anchor_offset.plus(self.rubber_offset);
                self.rubber_offset = Vec3::zero();
            }
        }
        let x: i64 = origin.x as i64 + layout.location.x as i64 + half_i64(layout.size.x as i64)
            + inherit_origin.x as i64 + self.anchor_offset.x as i64 + self.rubber_offset.x as i64;
        let y: i64 = origin.y as i64 - half_i64(layout.size.y as i64) - layout.location.y as i64
            - inherit_origin.y as i64 + self.anchor_offset.y as i64 + self.rubber_offset.y as i64;
        let z: i64 = self.anchor_offset.z as i64 + self.rubber_offset.z as i64;
        self.layout_anchor = Vec3 { x: saturate_i64(x), y: saturate_i64(y), z: saturate_i64(z) };
    }

    /// Tests the cursor against the element and sets the render state.
    pub fn update_render_state(&mut self, cursor: (i32, i32), origin: Vec3)
        ensures
            final(self)@ == old(self)@.hovered(cursor, origin),
    {
        if cursor.0 < 0 {
            return;
        }
        let on_screen = Vec2 {
            x: saturate_i64(cursor.0 as i64 + origin.x as i64),
            y: saturate_i64(cursor.1 as i64 - origin.y as i64),
        };
        if self.insection(on_screen) {
            self.render_state = UIMouseState::Hover;
        } else {
            self.render_state = UIMouseState::Release;
        }
    }

    /// Takes the broadcast of an input transition.
    pub fn set_action_state(&mut self, state: UIMouseState)
        ensures
            final(self)@ == old(self)@.with_action(state),
    {
        if self.render_state == UIMouseState::Hover {
            if state == UIMouseState::Drag && self.action_state == UIMouseState::Click {
                self.action_state = UIMouseState::Release;
            } else {
                self.action_state = state;
            }
        }
    }

    /// Takes the render state of the group the element is in, whatever its
    /// own hit test said, and gives up any action of its own.
    pub fn inherit_render_state(&mut self, state: UIMouseState)
        ensures
            final(self)@ == old(self)@.grouped(state),
    {
        self.render_state = state;
        self.action_state = UIMouseState::Release;
    }

    pub fn get_action_state(&self) -> (r: UIMouseState)
        ensures
            r == self.action_state,
    {
        self.action_state
    }

    /// The render state that the element shows a highlight for.
    pub fn get_render_state(&self) -> (r: Option<UIMouseState>)
        ensures
            r == self@.shown(),
    {
        if self.render.hover.is_some() && (self.render_state == UIMouseState::Hover
            || self.render_state == UIMouseState::Click) {
            Some(self.render_state)
        } else {
            None
        }
    }

    pub fn set_render_state(&mut self, state: UIMouseState)
        ensures
            final(self)@ == old(self)@.with_render(state),
    {
        self.render_state = state;
    }

    pub fn block_render_state(&self) -> (r: UIRenderMode)
        ensures
            r == self.render_block,
    {
        self.render_block
    }

    /// Draws the element: highlight, shape, content and background
    /// rectangles. Leaves corner radii and rotation at rest for the next node.
    pub fn draw(&self, painter: &mut Painter)
        ensures
            final(painter)@ == self@.drawn(old(painter)@),
    {
        painter.set_color(self.color);
        if self.render_block != UIRenderMode::WithoutSelf {
            if self.render_state == UIMouseState::Hover || self.render_state
                == UIMouseState::Pressed {
                if let Some(action) = self.render.hover {
                    action.call(painter);
                }
            } else if self.render_state == UIMouseState::Click {
                if let Some(action) = self.render.click {
                    action.call(painter);
                }
            }
        }
        painter.set_translation(self.layout_anchor);
        if let Some(shape) = &self.shape {
            shape.draw(painter);
        }
        painter.set_corner_radii(self.round);
        if self.color != Srgba::zero() && self.shape.is_none() {
            painter.set_color(self.color);
            painter.rect(self.content_size);
        }
        if self.background_color != Srgba::zero() {
            painter.set_color(self.background_color.halved());
            painter.rect(self.layout_size);
        }
        painter.set_corner_radii(Vec4::zero());
        painter.set_rotation(0);
    }

    /// The flexbox style of the element.
    pub fn style(&self) -> (r: FlexStyle)
        ensures
            r == self@.style(),
    {
        let size = if self.layout_size.x == 0 && self.layout_size.y == 0 {
            Size { width: Dimension::Auto, height: Dimension::Auto }
        } else {
            Size {
                width: Dimension::Length(self.layout_size.x),
                height: Dimension::Length(self.layout_size.y),
            }
        };
        let align_items = match self.cors_axis_alignment {
            AlignItems::NotSet => Some(Align::Start),
            set => item_align(set),
        };
        let mut def = FlexStyle {
            size,
            margin: Rect {
                left: self.margin.x,
                right: self.margin.z,
                top: self.margin.y,
                bottom: self.margin.w,
            },
            padding: Rect {
                left: self.padding.x,
                right: self.padding.z,
                top: self.padding.y,
                bottom: self.padding.w,
            },
            flex_direction: self.flex_direction,
            align_items,
            justify_content: Some(distribution(self.main_axis_alignment)),
            align_content: Some(distribution(self.cors_axis_alignment)),
            align_self: item_align(self.self_cors_axis_alignment),
            justify_self: item_align(self.self_main_axis_alignment),
            position: Position::Relative,
            inset: Inset {
                left: Dimension::Auto,
                right: Dimension::Auto,
                top: Dimension::Auto,
                bottom: Dimension::Auto,
            },
        };
        match self.element_type {
            ElementType::Debug => {
                def.position = Position::Absolute;
                def.inset = Inset {
                    left: Dimension::Auto,
                    right: Dimension::Length(0),
                    top: Dimension::Length(0),
                    bottom: Dimension::Auto,
                };
                def.justify_self = Some(Align::Center);
            },
            ElementType::Content => {},
        }
        def
    }

    pub fn size(&self) -> (r: (i32, i32))
        ensures
            r == (self.layout_size.x, self.layout_size.y),
    {
        (self.layout_size.x, self.layout_size.y)
    }

    pub fn get_ready(&self) -> (r: bool)
        ensures
            r == self.isready,
    {
        self.isready
    }

    pub fn set_ready(&mut self)
        ensures
            final(self)@ == (AttributesView { isready: true, ..old(self)@ }),
    {
        self.isready = true;
    }

    pub fn get_z_order(&self) -> (r: i32)
        ensures
            r == self.zorder,
    {
        self.zorder
    }

    pub fn set_z_order(&mut self, z_order: i32) -> (r: i32)
        ensures
            r == z_order,
            final(self)@ == (AttributesView { zorder: z_order, ..old(self)@ }),
    {
        self.zorder = z_order;
        self.zorder
    }

    pub fn get_element_type(&self) -> (r: ElementType)
        ensures
            r == self.element_type,
    {
        self.element_type
    }
}

/// A process-wide source of element ids.
///
/// Calls `idgenerator::IdInstance::next_id`, which draws the next id of the
/// shared snowflake generator from the clock and a sequence counter. Nothing
/// is claimed of the value.
#[verifier::external_body]
fn next_id() -> (id: i64) {
    idgenerator::IdInstance::next_id()
}

/// An element: its attributes and the callbacks bound to it.
pub struct Element {
    pub attributes: Attributes,
    pub action: IunputAction,
    pub drawfn: Option<Arc<dyn Drawfunc>>,
    pub draw: Option<Arc<dyn Callback>>,
}

impl AttributesView {
    /// The attributes of a new element with the given id: invisible, of no
    /// size, a row container aligned to the start, at rest.
    pub open spec fn fresh(id: i64) -> AttributesView {
        AttributesView {
            id,
            zorder: 1,
            tile: "element"@,
            color: Srgba::spec_zero(),
            background_color: Srgba::spec_zero(),
            round: Vec4::spec_zero(),
            layout_size: Vec2::spec_zero(),
            layout_anchor: Vec3::spec_zero(),
            content_size: Vec2::spec_zero(),
            action_state: UIMouseState::Release,
            render_state: UIMouseState::Release,
            render_block: UIRenderMode::Individual,
            anchor_offset: Vec3::spec_zero(),
            rubber_offset: Vec3::spec_zero(),
            margin: Vec4::spec_zero(),
            padding: Vec4::spec_zero(),
            shape: None,
            render: RenderAction::spec_default(),
            flex_direction: FlexDirection::Row,
            main_axis_alignment: AlignItems::Start,
            cors_axis_alignment: AlignItems::Start,
            self_main_axis_alignment: AlignItems::NotSet,
            self_cors_axis_alignment: AlignItems::NotSet,
            element_type: ElementType::Content,
            drag_enable: false,
            isready: false,
        }
    }

    /// The attributes with requested size `size`, the shape fitted to it.
    pub open spec fn sized(self, size: Vec2) -> AttributesView {
        AttributesView {
            layout_size: size,
            shape: match self.shape {
                Some(s) => Some(s.resized(size)),
                None => None,
            },
            ..self
        }
    }

    /// The attributes with all corners rounded by `round`, the shape too.
    pub open spec fn rounded(self, round: i32) -> AttributesView {
        let radii = Vec4 { x: round, y: round, z: round, w: round };
        AttributesView {
            round: radii,
            shape: match self.shape {
                Some(s) => Some(s.rounded(radii)),
                None => None,
            },
            ..self
        }
    }

    /// The attributes with the children aligned by `align` along the
    /// horizontal axis: the main axis of a row, the cross axis of a column.
    pub open spec fn aligned_horizontally(self, align: AlignItems) -> AttributesView {
        if is_row(self.flex_direction) {
            AttributesView { main_axis_alignment: align, ..self }
        } else {
            AttributesView { cors_axis_alignment: align, ..self }
        }
    }

    /// The attributes with the children aligned by `align` along the
    /// vertical axis: the cross axis of a row, the main axis of a column.
    pub open spec fn aligned_vertically(self, align: AlignItems) -> AttributesView {
        if is_row(self.flex_direction) {
            AttributesView { cors_axis_alignment: align, ..self }
        } else {
            AttributesView { main_axis_alignment: align, ..self }
        }
    }

    /// The attributes with the element itself aligned by `align` along the
    /// horizontal axis of its parent: the main axis of a row, the cross
    /// axis of a column. The alignment of its children is not touched.
    pub open spec fn self_aligned_horizontally(self, align: AlignItems) -> AttributesView {
        if is_row(self.flex_direction) {
            AttributesView { self_main_axis_alignment: align, ..self }
        } else {
            AttributesView { self_cors_axis_alignment: align, ..self }
        }
    }

    /// The attributes with the element itself aligned by `align` along the
    /// vertical axis of its parent.
    pub open spec fn self_aligned_vertically(self, align: AlignItems) -> AttributesView {
        if is_row(self.flex_direction) {
            AttributesView { self_cors_axis_alignment: align, ..self }
        } else {
            AttributesView { self_main_axis_alignment: align, ..self }
        }
    }
}

impl Element {
    /// Whether `other` has the same callbacks bound as `self`.
    pub open spec fn same_hooks(self, other: Element) -> bool {
        &&& self.action.hover == other.action.hover
        &&& self.action.click == other.action.click
        &&& self.drawfn == other.drawfn
        &&& self.draw == other.draw
    }

    /// Whether no callback is bound.
    pub open spec fn unbound(self) -> bool {
        &&& self.action.hover is None
        &&& self.action.click is None
        &&& self.drawfn is None
        &&& self.draw is None
    }

    /// A new element with an id of its own and nothing bound.
    pub fn new() -> (r: Element)
        ensures
            r.attributes@ == AttributesView::fresh(r.attributes.id),
            r.unbound(),
    {
        Element {
            attributes: Attributes {
                id: next_id(),
                zorder: 1,
                tile: "element".to_string(),
                color: Srgba::zero(),
                background_color: Srgba::zero(),
                round: Vec4::zero(),
                layout_size: Vec2::zero(),
                layout_anchor: Vec3::zero(),
                content_size: Vec2::zero(),
                action_state: UIMouseState::Release,
                render_state: UIMouseState::Release,
                render_block: UIRenderMode::Individual,
                anchor_offset: Vec3::zero(),
                rubber_offset: Vec3::zero(),
                margin: Vec4::zero(),
                padding: Vec4::zero(),
                shape: None,
                render: RenderAction::default(),
                flex_direction: FlexDirection::Row,
                main_axis_alignment: AlignItems::Start,
                cors_axis_alignment: AlignItems::Start,
                self_main_axis_alignment: AlignItems::NotSet,
                self_cors_axis_alignment: AlignItems::NotSet,
                element_type: ElementType::Content,
                drag_enable: false,
                isready: false,
            },
            action: IunputAction::default(),
            drawfn: None,
            draw: None,
        }
    }

    pub fn insection(&self, point: Vec2) -> (r: bool)
        ensures
            r == self.attributes@.hit(point),
    {
        self.attributes.insection(point)
    }

    pub fn color(self, color: Srgba) -> (r: Element)
        ensures
            r.attributes@ == (AttributesView { color, ..self.attributes@ }),
            r.same_hooks(self),
    {
        let mut out = self;
        out.attributes.color = color;
        out
    }

    pub fn background_color(self, color: Srgba) -> (r: Element)
        ensures
            r.attributes@ == (AttributesView { background_color: color, ..self.attributes@ }),
            r.same_hooks(self),
    {
        let mut out = self;
        out.attributes.background_color = color;
        out
    }

    pub fn title(self, tile: &str) -> (r: Element)
        ensures
            r.attributes@ == (AttributesView { tile: tile@, ..self.attributes@ }),
            r.same_hooks(self),
    {
        let mut out = self;
        out.attributes.tile = tile.to_string();
        out
    }

    /// Requests `size` and fits the shape, if there is one, to it.
    pub fn size(self, size: Vec2) -> (r: Element)
        ensures
            r.attributes@ == self.attributes@.sized(size),
            r.same_hooks(self),
    {
        let mut out = self;
        out.attributes.layout_size = size;
        if let Some(shape) = &mut out.attributes.shape {
            shape.set_size(size);
        }
        out
    }

    /// Binds the callback that runs when the element is clicked.
    pub fn click(self, action: Arc<dyn Callback>) -> (r: Element)
        ensures
            r.attributes@ == self.attributes@,
            r.action.click == Some(action),
            r.action.hover == self.action.hover,
            r.drawfn == self.drawfn,
            r.draw == self.draw,
    {
        let mut out = self;
        let bound = Some(action);
        out.action.click = bound;
        out
    }

    /// Binds the callback that runs while the pointer is over the element.
    pub fn hover(self, action: Arc<dyn Callback>) -> (r: Element)
        ensures
            r.attributes@ == self.attributes@,
            r.action.hover == Some(action),
            r.action.click == self.action.click,
            r.drawfn == self.drawfn,
            r.draw == self.draw,
    {
        let mut out = self;
        let bound = Some(action);
        out.action.hover = bound;
        out
    }

    pub fn primatives(self, draw: Option<Arc<dyn Callback>>) -> (r: Element)
        ensures
            r.attributes@ == self.attributes@,
            r.draw == draw,
            r.action.hover == self.action.hover,
            r.action.click == self.action.click,
            r.drawfn == self.drawfn,
    {
        let mut out = self;
        out.draw = draw;
        out
    }

    pub fn margin(self, margin: Vec4) -> (r: Element)
        ensures
            r.attributes@ == (AttributesView { margin, ..self.attributes@ }),
            r.same_hooks(self),
    {
        let mut out = self;
        out.attributes.margin = margin;
        out
    }

    /// Rounds all corners by `round`, those of the shape too.
    pub fn round(self, round: i32) -> (r: Element)
        ensures
            r.attributes@ == self.attributes@.rounded(round),
            r.same_hooks(self),
    {
        let mut out = self;
        out.attributes.round = Vec4::splat(round);
        if let Some(shape) = &mut out.attributes.shape {
            shape.set_round(Vec4::splat(round));
        }
        out
    }

    pub fn get_size(&self) -> (r: Vec2)
        ensures
            r == self.attributes.layout_size,
    {
        self.attributes.layout_size
    }

    pub fn order(self, zorder: i32) -> (r: Element)
        ensures
            r.attributes@ == (AttributesView { zorder, ..self.attributes@ }),
            r.same_hooks(self),
    {
        let mut out = self;
        out.attributes.zorder = zorder;
        out
    }

    pub fn direction(self, direction: FlexDirection) -> (r: Element)
        ensures
            r.attributes@ == (AttributesView { flex_direction: direction, ..self.attributes@ }),
            r.same_hooks(self),
    {
        let mut out = self;
        out.attributes.flex_direction = direction;
        out
    }

    pub fn padding(self, padding: Vec4) -> (r: Element)
        ensures
            r.attributes@ == (AttributesView { padding, ..self.attributes@ }),
            r.same_hooks(self),
    {
        let mut out = self;
        out.attributes.padding = padding;
        out
    }

    pub fn offset(self, offset: Vec3) -> (r: Element)
        ensures
            r.attributes@ == (AttributesView { anchor_offset: offset, ..self.attributes@ }),
            r.same_hooks(self),
    {
        let mut out = self;
        out.attributes.anchor_offset = offset;
        out
    }

    pub fn shape<S: ShapeTrait>(self, shape: S) -> (r: Element)
        ensures
            r.attributes@ == (AttributesView { shape: Some(shape.shape()), ..self.attributes@ }),
            r.same_hooks(self),
    {
        let mut out = self;
        out.attributes.shape = Some(shape.into_shape());
        out
    }

    pub fn drawfn(self, drawfn: Arc<dyn Drawfunc>) -> (r: Element)
        ensures
            r.attributes@ == self.attributes@,
            r.drawfn == Some(drawfn),
            r.action.hover == self.action.hover,
            r.action.click == self.action.click,
            r.draw == self.draw,
    {
        let mut out = self;
        let bound = Some(drawfn);
        out.drawfn = bound;
        out
    }

    pub fn render_block(self, ui_traverse: UIRenderMode) -> (r: Element)
        ensures
            r.attributes@ == (AttributesView { render_block: ui_traverse, ..self.attributes@ }),
            r.same_hooks(self),
    {
        let mut out = self;
        out.attributes.render_block = ui_traverse;
        out
    }

    pub fn set_position(self, pos: Vec3) -> (r: Element)
        ensures
            r.attributes@ == (AttributesView { layout_anchor: pos, ..self.attributes@ }),
            r.same_hooks(self),
    {
        let mut out = self;
        out.attributes.layout_anchor = pos;
        out
    }

    pub fn horizontal_alignment(self, align: AlignItems) -> (r: Element)
        ensures
            r.attributes@ == self.attributes@.aligned_horizontally(align),
            r.same_hooks(self),
    {
        let mut out = self;
        match out.attributes.flex_direction {
            FlexDirection::Row | FlexDirection::RowReverse => {
                out.attributes.main_axis_alignment = align;
            },
            FlexDirection::Column | FlexDirection::ColumnReverse => {
                out.attributes.cors_axis_alignment = align;
            },
        }
        out
    }

    pub fn vertical_alignment(self, align: AlignItems) -> (r: Element)
        ensures
            r.attributes@ == self.attributes@.aligned_vertically(align),
            r.same_hooks(self),
    {
        let mut out = self;
        match out.attributes.flex_direction {
            FlexDirection::Row | FlexDirection::RowReverse => {
                out.attributes.cors_axis_alignment = align;
            },
            FlexDirection::Column | FlexDirection::ColumnReverse => {
                out.attributes.main_axis_alignment = align;
            },
        }
        out
    }

    pub fn self_horizontal_alignment(self, align: AlignItems) -> (r: Element)
        ensures
            r.attributes@ == self.attributes@.self_aligned_horizontally(align),
            r.same_hooks(self),
    {
        let mut out = self;
        match out.attributes.flex_direction {
            FlexDirection::Row => {
                out.attributes.self_main_axis_alignment = align;
            },
            FlexDirection::Column => {
                out.attributes.self_cors_axis_alignment = align;
            },
            FlexDirection::RowReverse => {
                out.attributes.self_main_axis_alignment = align;
            },
            FlexDirection::ColumnReverse => {
                out.attributes.self_cors_axis_alignment = align;
            },
        }
        out
    }

    pub fn self_vertical_alignment(self, align: AlignItems) -> (r: Element)
        ensures
            r.attributes@ == self.attributes@.self_aligned_vertically(align),
            r.same_hooks(self),
    {
        let mut out = self;
        match out.attributes.flex_direction {
            FlexDirection::Row | FlexDirection::RowReverse => {
                out.attributes.self_cors_axis_alignment = align;
            },
            FlexDirection::Column | FlexDirection::ColumnReverse => {
                out.attributes.self_main_axis_alignment = align;
            },
        }
        out
    }

    pub fn element_type(self, element_type: ElementType) -> (r: Element)
        ensures
            r.attributes@ == (AttributesView { element_type, ..self.attributes@ }),
            r.same_hooks(self),
    {
        let mut out = self;
        out.attributes.element_type = element_type;
        out
    }

    pub fn id(&self) -> (r: i64)
        ensures
            r == self.attributes.id,
    {
        self.attributes.id
    }

    pub fn drag_enable(self, enable: bool) -> (r: Element)
        ensures
            r.attributes@ == (AttributesView { drag_enable: enable, ..self.attributes@ }),
            r.same_hooks(self),
    {
        let mut out = self;
        out.attributes.drag_enable = enable;
        out
    }

    pub fn draw(&self, painter: &mut Painter)
        ensures
            final(painter)@ == self.attributes@.drawn(old(painter)@),
    {
        self.attributes.draw(painter);
    }

    /// Whether the action state calls for a callback that is bound.
    pub open spec fn due(self) -> bool {
        ||| self.attributes.action_state == UIMouseState::Click && self.action.click is Some
        ||| self.attributes.action_state == UIMouseState::Hover && self.action.hover is Some
    }

    /// Whether running the action of `self` with the shared state `cxt`
    /// may leave the element `after` and the shared state `after_cxt`.
    ///
    /// A clicked element with a click callback is what one call of that
    /// callback left, released. A hovered element with a hover callback is
    /// what one call of that callback left. Every other element is settled
    /// and leaves the shared state alone. The bindings stay.
    pub open spec fn executed(self, cxt: MemState, after: Element, after_cxt: MemState) -> bool {
        &&& after.same_hooks(self)
        &&& if self.attributes.action_state == UIMouseState::Click && self.action.click is Some {
            exists|mid: Attributes| #[trigger]
                self.action.click->0.ran(self.attributes, cxt, mid, after_cxt) && after.attributes@ == (
                AttributesView { action_state: UIMouseState::Release, ..mid@ })
        } else if self.attributes.action_state == UIMouseState::Hover && self.action.hover is Some {
            self.action.hover->0.ran(self.attributes, cxt, after.attributes, after_cxt)
        } else {
            after.attributes@ == self.attributes@.settled() && after_cxt == cxt
        }
    }

    /// Runs the callback that the action state calls for.
    ///
    /// A clicked element runs its click callback, if one is bound, and is
    /// released after it. A hovered element runs its hover callback, if one
    /// is bound. In every other case nothing runs. What a callback does to
    /// the attributes and the shared state is what its own `ran` says; the
    /// bindings are out of its reach.
    pub fn execute(&mut self, context: &mut MemState)
        ensures
            old(self).executed(*old(context), *final(self), *final(context)),
            old(self).attributes.action_state == UIMouseState::Click ==> final(self).attributes.action_state == UIMouseState::Release,
    {
        match self.attributes.action_state {
            UIMouseState::Hover => {
                if let Some(action) = &self.action.hover {
                    action.call(&mut self.attributes, context);
                }
            },
            UIMouseState::Click => {
                if let Some(action) = &self.action.click {
                    action.call(&mut self.attributes, context);
                }
                self.attributes.action_state = UIMouseState::Release;
            },
            _ => {},
        }
    }

    pub fn style(&self) -> (r: FlexStyle)
        ensures
            r == self.attributes@.style(),
    {
        self.attributes.style()
    }

    pub fn update_layout(
        &mut self,
        layout: &Layout,
        origin: Vec3,
        inherit_origin: Vec3,
        cxt: &MemState,
    )
        ensures
            final(self).attributes@ == old(self).attributes@.laid_out(
                *layout,
                origin,
                inherit_origin,
                cxt.drag_delta.0,
                cxt.drag_delta.1,
            ),
            final(self).same_hooks(*old(self)),
    {
        self.attributes.update_layout(layout, origin, inherit_origin, cxt);
    }

    pub fn update_render_state(&mut self, cursor: (i32, i32), origin: Vec3)
        ensures
            final(self).attributes@ == old(self).attributes@.hovered(cursor, origin),
            final(self).same_hooks(*old(self)),
    {
        self.attributes.update_render_state(cursor, origin);
    }

    pub fn set_action_state(&mut self, state: UIMouseState)
        ensures
            final(self).attributes@ == old(self).attributes@.with_action(state),
            final(self).same_hooks(*old(self)),
    {
        self.attributes.set_action_state(state);
    }

    pub fn get_action_state(&self) -> (r: UIMouseState)
        ensures
            r == self.attributes.action_state,
    {
        self.attributes.action_state
    }

    pub fn get_render_state(&self) -> (r: Option<UIMouseState>)
        ensures
            r == self.attributes@.shown(),
    {
        self.attributes.get_render_state()
    }

    pub fn set_render_state(&mut self, state: UIMouseState)
        ensures
            final(self).attributes@ == old(self).attributes@.with_render(state),
            final(self).same_hooks(*old(self)),
    {
        self.attributes.set_render_state(state);
    }

    pub fn block_render_state(&self) -> (r: UIRenderMode)
        ensures
            r == self.attributes.render_block,
    {
        self.attributes.render_block
    }

    pub fn get_z_order(&self) -> (r: i32)
        ensures
            r == self.attributes.zorder,
    {
        self.attributes.zorder
    }

    pub fn set_z_order(&mut self, z_order: i32) -> (r: i32)
        ensures
            r == z_order,
            final(self).attributes@ == (AttributesView { zorder: z_order, ..old(self).attributes@ }),
            final(self).same_hooks(*old(self)),
    {
        self.attributes.set_z_order(z_order)
    }

    pub fn get_element_type(&self) -> (r: ElementType)
        ensures
            r == self.attributes.element_type,
    {
        self.attributes.element_type
    }
}

impl AttributesView {
    /// The attributes once the renderer has realized the shape as `entity`
    /// with extent `content_size`.
    pub open spec fn realized(self, entity: u64, content_size: Vec2) -> AttributesView {
        AttributesView {
            shape: match self.shape {
                Some(s) => Some(s.realized(entity, content_size)),
                None => None,
            },
            ..self
        }
    }

    /// The attributes once the actions of a frame have run without a
    /// callback: a click is over, anything else stays.
    pub open spec fn settled(self) -> AttributesView {
        if self.action_state == UIMouseState::Click {
            AttributesView { action_state: UIMouseState::Release, ..self }
        } else {
            self
        }
    }

    /// One frame of an element no group decides for: the layout pass, then
    /// the hit test.
    pub open spec fn framed(
        self,
        layout: Layout,
        origin: Vec3,
        inherit_origin: Vec3,
        start: Vec2,
        current: Vec2,
        cursor: (i32, i32),
    ) -> AttributesView {
        self.laid_out(layout, origin, inherit_origin, start, current).hovered(cursor, origin)
    }
}

/// The screen image of the anchor hits every element whose box is not
/// empty: the anchor's y points up, the screen's y down.
pub proof fn lemma_anchor_hits(e: AttributesView)
    requires
        e.layout_size.x >= 1,
        e.layout_size.y >= 1,
        e.layout_anchor.y > i32::MIN,
    ensures
        e.hit(Vec2 { x: e.layout_anchor.x, y: (-e.layout_anchor.y) as i32 }),
{
}

/// The point with the anchor's own coordinates lies in the box exactly when
/// the box is not empty along the x axis and the anchor is nearer to the x
/// axis than a quarter of the height.
pub proof fn lemma_anchor_point_in_box(e: AttributesView)
    ensures
        e.in_box(Vec2 { x: e.layout_anchor.x, y: e.layout_anchor.y }) <==> (e.layout_size.x > 0
            && -e.layout_size.y < 4 * e.layout_anchor.y && 4 * e.layout_anchor.y
            < e.layout_size.y),
{
}

/// A point at or beyond the right edge of the box, half the width from the
/// anchor, hits the element only if its shape claims the point. One unit
/// past the half of the width, rounded down, is such a point.
pub proof fn lemma_right_of_box(e: AttributesView, point: Vec2)
    requires
        2 * (point.x - e.layout_anchor.x) >= e.layout_size.x,
    ensures
        e.hit(point) <==> (e.shape is Some && e.shape->0.hits(e.local(point))),
        e.shape is None ==> !e.hit(point),
{
}

/// A press, a drag and a release move a draggable element by the drag vector.
///
/// The element is at rest under the pointer when the press is broadcast.
/// While the button is held from `start` to `current` a frame passes, and
/// the pointer is still over the element when the release is broadcast.
/// After the next frame the committed offset has grown by the drag vector,
/// its y flipped to point up, and the rubber offset is back at zero. The
/// sums are those of the integers where they fit `i32`; a press and release
/// without motion changes nothing.
pub proof fn lemma_drag_commits(
    e: AttributesView,
    held: Layout,
    after: Layout,
    origin: Vec3,
    inherit_origin: Vec3,
    start: Vec2,
    current: Vec2,
    cursor: (i32, i32),
    later_start: Vec2,
    later_current: Vec2,
    later_cursor: (i32, i32),
)
    requires
        e.drag_enable,
        e.render_state == UIMouseState::Hover,
        e.rubber_offset == Vec3::spec_zero(),
        e.with_action(UIMouseState::Pressed).framed(
            held,
            origin,
            inherit_origin,
            start,
            current,
            cursor,
        ).render_state == UIMouseState::Hover,
    ensures
        ({
            let pressed = e.with_action(UIMouseState::Pressed);
            let following = pressed.framed(held, origin, inherit_origin, start, current, cursor);
            let released = following.with_action(UIMouseState::Release);
            let done = released.framed(
                after,
                origin,
                inherit_origin,
                later_start,
                later_current,
                later_cursor,
            );
            &&& following.rubber_offset == e.stretched(start, current)
            &&& following.anchor_offset == e.anchor_offset
            &&& done.rubber_offset == Vec3::spec_zero()
            &&& done.anchor_offset == e.anchor_offset.spec_add(e.stretched(start, current))
            &&& (i32::MIN <= current.x - start.x <= i32::MAX && i32::MIN <= e.anchor_offset.x + (
            current.x - start.x) <= i32::MAX) ==> done.anchor_offset.x == e.anchor_offset.x + (
            current.x - start.x)
            &&& (i32::MIN <= start.y - current.y <= i32::MAX && i32::MIN <= e.anchor_offset.y + (
            start.y - current.y) <= i32::MAX) ==> done.anchor_offset.y == e.anchor_offset.y - (
            current.y - start.y)
            &&& done.anchor_offset.z == e.anchor_offset.z
            &&& start == current ==> done.anchor_offset == e.anchor_offset
        }),
{
}

} // verus!
