//! Drawing objects and the layout attributes every object carries.

use crate::model::image::{Picture, ShapeComponentAttr};
use crate::model::style::{Fill, ShapeBorderLine};
use crate::model::paragraph::Paragraph;
use vstd::prelude::*;

verus! {

/// The kind of a connecting line: straight, stroked or arced, with no
/// arrow, an arrow at one end, or arrows at both.
#[derive(Clone, Copy, Debug, PartialEq, Eq, Structural)]
pub enum LinkLineType {
    StraightNoArrow,
    StraightOneWay,
    StraightBoth,
    StrokeNoArrow,
    StrokeOneWay,
    StrokeBoth,
    ArcNoArrow,
    ArcOneWay,
    ArcBoth,
}

/// Which caption numbering an object takes part in.
#[derive(Clone, Copy, Debug, PartialEq, Eq, Structural)]
pub enum ObjectNumberingType {
    Picture,
    Table,
    Equation,
    /// No numbering (written `NONE`).
    Unnumbered,
}

/// How body text wraps around an object.
#[derive(Clone, Copy, Debug, PartialEq, Eq, Structural)]
pub enum TextWrap {
    Square,
    Tight,
    Through,
    TopAndBottom,
    BehindText,
    InFrontOfText,
}

/// On which sides text may flow beside an object.
#[derive(Clone, Copy, Debug, PartialEq, Eq, Structural)]
pub enum TextFlow {
    BothSides,
    LeftOnly,
    RightOnly,
    LargestOnly,
}

/// The reference frame of an object's vertical offset.
#[derive(Clone, Copy, Debug, PartialEq, Eq, Structural)]
pub enum VertRelTo {
    Paper,
    Page,
    Para,
}

/// The reference frame of an object's horizontal offset.
#[derive(Clone, Copy, Debug, PartialEq, Eq, Structural)]
pub enum HorzRelTo {
    Paper,
    Page,
    Column,
    Para,
}

/// Vertical alignment of an object within its frame.
#[derive(Clone, Copy, Debug, PartialEq, Eq, Structural)]
pub enum VertAlign {
    Top,
    Center,
    Bottom,
    Inside,
    Outside,
}

/// Horizontal alignment of an object within its frame.
#[derive(Clone, Copy, Debug, PartialEq, Eq, Structural)]
pub enum HorzAlign {
    Left,
    Center,
    Right,
    Inside,
    Outside,
}

/// The side of an object on which its caption stands.
#[derive(Clone, Copy, Debug, PartialEq, Eq, Structural)]
pub enum CaptionDirection {
    Left,
    Right,
    Top,
    Bottom,
}

/// A point in HWPUNIT.
#[derive(Clone, Copy, Debug, PartialEq, Eq)]
pub struct Point {
    pub x: i32,
    pub y: i32,
}

/// Four margins in HWPUNIT.
#[derive(Clone, Copy, Debug, PartialEq, Eq)]
pub struct Padding {
    pub left: i16,
    pub right: i16,
    pub top: i16,
    pub bottom: i16,
}

/// Layout attributes shared by tables, pictures, equations and drawing objects.
pub struct CommonObjAttr {
    pub treat_as_char: bool,
    pub text_wrap: TextWrap,
    pub text_flow: TextFlow,
    pub vert_rel_to: VertRelTo,
    pub horz_rel_to: HorzRelTo,
    pub vert_align: VertAlign,
    pub horz_align: HorzAlign,
    pub vertical_offset: u32,
    pub horizontal_offset: u32,
    pub width: u32,
    pub height: u32,
    pub z_order: i32,
    pub instance_id: u32,
    pub prevent_page_break: bool,
    pub flow_with_text: bool,
    pub allow_overlap: bool,
    pub numbering_type: ObjectNumberingType,
    pub margin: Padding,
    pub description: String,
}

impl Default for CommonObjAttr {
    fn default() -> (r: Self)
        ensures
            !r.treat_as_char,
            r.text_wrap == TextWrap::Square,
            r.text_flow == TextFlow::BothSides,
            r.vert_rel_to == VertRelTo::Paper,
            r.horz_rel_to == HorzRelTo::Paper,
            r.vert_align == VertAlign::Top,
            r.horz_align == HorzAlign::Left,
            r.vertical_offset == 0,
            r.horizontal_offset == 0,
            r.width == 0,
            r.height == 0,
            r.z_order == 0,
            r.instance_id == 0,
            !r.prevent_page_break,
            !r.flow_with_text,
            !r.allow_overlap,
            r.numbering_type == ObjectNumberingType::Unnumbered,
            r.margin == (Padding { left: 0, right: 0, top: 0, bottom: 0 }),
            r.description@ == Seq::<char>::empty(),
    {
        CommonObjAttr {
            treat_as_char: false,
            text_wrap: TextWrap::Square,
            text_flow: TextFlow::BothSides,
            vert_rel_to: VertRelTo::Paper,
            horz_rel_to: HorzRelTo::Paper,
            vert_align: VertAlign::Top,
            horz_align: HorzAlign::Left,
            vertical_offset: 0,
            horizontal_offset: 0,
            width: 0,
            height: 0,
            z_order: 0,
            instance_id: 0,
            prevent_page_break: false,
            flow_with_text: false,
            allow_overlap: false,
            numbering_type: ObjectNumberingType::Unnumbered,
            margin: Padding { left: 0, right: 0, top: 0, bottom: 0 },
            description: String::new(),
        }
    }
}

/// A caption attached to a table, picture or drawing object.
pub struct Caption {
    pub direction: CaptionDirection,
    pub include_margin: bool,
    pub width: u32,
    pub spacing: i16,
    pub max_width: u32,
    pub paragraphs: Vec<Paragraph>,
}

/// The text box inside a drawing object.
pub struct TextBox {
    pub paragraphs: Vec<Paragraph>,
}

/// Attributes of a drawing object: its component geometry, outline, fill and
/// shadow, its text box and caption, if any, and its instance id.
pub struct DrawingObjAttr {
    pub shape_attr: ShapeComponentAttr,
    pub border_line: ShapeBorderLine,
    pub fill: Fill,
    pub shadow_type: u32,
    pub shadow_color: u32,
    pub shadow_offset_x: i32,
    pub shadow_offset_y: i32,
    pub shadow_alpha: u8,
    pub text_box: Option<TextBox>,
    pub caption: Option<Caption>,
    pub inst_id: u32,
}

/// A line, rectangle, ellipse, arc, polygon or curve.
pub struct DrawingShape {
    pub common: CommonObjAttr,
    pub drawing: DrawingObjAttr,
}

/// A chart or OLE object: a drawing object with a caption of its own.
pub struct EmbeddedShape {
    pub common: CommonObjAttr,
    pub drawing: DrawingObjAttr,
    pub caption: Option<Caption>,
}

/// A group of drawing objects.
pub struct GroupShape {
    pub common: CommonObjAttr,
    pub caption: Option<Caption>,
    pub children: Vec<ShapeObject>,
}

/// A drawing object.
pub enum ShapeObject {
    Line(Box<DrawingShape>),
    Rectangle(Box<DrawingShape>),
    Ellipse(Box<DrawingShape>),
    Arc(Box<DrawingShape>),
    Polygon(Box<DrawingShape>),
    Curve(Box<DrawingShape>),
    Chart(Box<EmbeddedShape>),
    Ole(Box<EmbeddedShape>),
    Group(Box<GroupShape>),
    Picture(Box<Picture>),
}

} // verus!
