//! Inline controls of a paragraph.

use crate::model::image::Picture;
use crate::model::paragraph::Paragraph;
use crate::model::shape::{Caption, CommonObjAttr, Padding, ShapeObject};
use vstd::prelude::*;

verus! {

/// How a table may be split across pages.
#[derive(Clone, Copy, Debug, PartialEq, Eq, Structural)]
pub enum TablePageBreak {
    /// No split (written `NONE`).
    NoBreak,
    CellBreak,
    RowBreak,
}

/// The vertical alignment of a cell's content.
#[derive(Clone, Copy, Debug, PartialEq, Eq, Structural)]
pub enum VerticalAlign {
    Top,
    Center,
    Bottom,
}

/// A table cell: its address, span and size, its inner margins and its paragraphs.
pub struct Cell {
    pub row: u16,
    pub col: u16,
    pub row_span: u16,
    pub col_span: u16,
    pub width: u32,
    pub height: u32,
    pub padding: Padding,
    pub paragraphs: Vec<Paragraph>,
}

/// A range of cells with a border and fill of its own.
#[derive(Clone, Copy, Debug, PartialEq, Eq)]
pub struct CellZone {
    pub start_row: u16,
    pub start_col: u16,
    pub end_row: u16,
    pub end_col: u16,
    pub border_fill_id: u16,
}

/// A table: its placement, outer and inner margins, cell zones, cells and caption.
pub struct Table {
    pub page_break: TablePageBreak,
    pub common: CommonObjAttr,
    pub outer_margin_left: i16,
    pub outer_margin_right: i16,
    pub outer_margin_top: i16,
    pub outer_margin_bottom: i16,
    pub padding: Padding,
    pub zones: Vec<CellZone>,
    pub cells: Vec<Cell>,
    pub caption: Option<Caption>,
}

/// An equation object.
pub struct Equation {
    pub common: CommonObjAttr,
}

/// A footnote or endnote body.
pub struct Note {
    pub paragraphs: Vec<Paragraph>,
}

/// The kind of a field.
#[derive(Clone, Copy, Debug, PartialEq, Eq, Structural)]
pub enum FieldType {
    Unknown,
    Date,
    DocDate,
    Path,
    Bookmark,
    MailMerge,
    CrossRef,
    Formula,
    ClickHere,
    Summary,
    UserInfo,
    Hyperlink,
    Memo,
    PrivateInfoSecurity,
    TableOfContents,
}

/// A field (`fieldBegin` .. `fieldEnd`) with its parameters and memo body.
pub struct Field {
    pub field_id: u32,
    pub field_type: FieldType,
    pub ctrl_data_name: Option<String>,
    /// Whether the field may be edited in form mode.
    pub editable_in_form: bool,
    pub raw_parameters_xml: Option<String>,
    pub memo_paragraphs: Vec<Paragraph>,
}

/// A bookmark: a named position in the text.
pub struct Bookmark {
    pub name: String,
}

/// A hyperlink: the address it points to.
pub struct Hyperlink {
    pub url: String,
}

/// An inline control of a paragraph.
pub enum Control {
    Table(Box<Table>),
    Picture(Box<Picture>),
    Shape(Box<ShapeObject>),
    Equation(Box<Equation>),
    Footnote(Box<Note>),
    Endnote(Box<Note>),
    Field(Box<Field>),
    Form,
    Header,
    Footer,
    AutoNumber,
    PageHide,
    PageNumberPos,
    NewNumber,
    CharOverlap,
    Ruby,
    Bookmark,
    Hyperlink,
    SectionDef,
    ColumnDef,
}

} // verus!
