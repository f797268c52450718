//! The whole document.

use crate::model::page::PageDef;
use crate::model::paragraph::Paragraph;
use vstd::prelude::*;

verus! {

/// A master page of a section.
pub struct MasterPage {
    pub paragraphs: Vec<Paragraph>,
}

/// Section properties: page geometry, visibility flags and master pages.
pub struct SectionDef {
    pub page_def: PageDef,
    pub hide_header: bool,
    pub hide_footer: bool,
    pub hide_master_page: bool,
    pub hide_border: bool,
    pub hide_fill: bool,
    pub hide_empty_line: bool,
    pub master_pages: Vec<MasterPage>,
}

/// A section: its properties and its body paragraphs.
pub struct Section {
    pub section_def: SectionDef,
    pub paragraphs: Vec<Paragraph>,
}

/// The sizes of the shared resource tables.
#[derive(Clone, Copy, Debug, PartialEq, Eq)]
pub struct DocInfo {
    pub char_shapes: usize,
    pub para_shapes: usize,
    pub border_fills: usize,
    pub tab_defs: usize,
    pub numberings: usize,
    pub styles: usize,
}

/// An embedded binary item.
pub struct BinDataContent {
    pub id: u16,
    pub extension: String,
}

/// The kind of a tracked change.
#[derive(Clone, Copy, Debug, PartialEq, Eq, Structural)]
pub enum TrackKind {
    Insert,
    Delete,
}

/// A tracked-change record.
pub struct TrackChangeRec {
    pub id: u32,
    pub kind: TrackKind,
    pub author: String,
    pub date: String,
}

/// A document.
pub struct Document {
    pub sections: Vec<Section>,
    pub doc_info: DocInfo,
    pub bin_data_content: Vec<BinDataContent>,
    pub track_changes: Vec<TrackChangeRec>,
    pub next_track_id: u32,
}

} // verus!
