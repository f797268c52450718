//! What pagination places on a page: columns of items, each item a whole
//! paragraph, part of one, a table, part of one, a shape or an endnote rule.

use vstd::prelude::*;

verus! {

/// One placed item, named by the index of the paragraph that owns it.
pub enum PageItem {
    FullParagraph { para_index: usize },
    /// Lines `start_line..end_line` of a paragraph.
    PartialParagraph { para_index: usize, start_line: usize, end_line: usize },
    Table { para_index: usize, control_index: usize },
    /// Rows `start_row..end_row` of a table; a continuation when an earlier
    /// page holds its first rows.
    PartialTable {
        para_index: usize,
        control_index: usize,
        start_row: usize,
        end_row: usize,
        is_continuation: bool,
    },
    Shape { para_index: usize, control_index: usize },
    /// The rule above the endnotes.
    EndnoteSeparator { height: i32 },
}

/// The items of one column.
pub struct ColumnContent {
    pub items: Vec<PageItem>,
}

/// The columns of one page.
pub struct PageContent {
    pub column_contents: Vec<ColumnContent>,
}

} // verus!
