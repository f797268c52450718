//! HWPX round-trip IR diff: compares two document IRs field by field.
//!
//! The diff is semantic, never byte-wise: section and paragraph counts, page
//! geometry and visibility flags, resource table sizes, and per paragraph the
//! character-shape runs, the sequence of inline-slot controls and the line
//! segments, recursing into table cells, captions, text boxes, notes and memos.
//! Nested paragraphs are located by a path such as `/ctrl[2]tbl.cell[0].p[1]`.

use crate::model::control::{Control, Field, TablePageBreak};
use crate::model::document::{Document, Section, SectionDef};
use crate::model::image::Picture;
use crate::model::page::{BindingMethod, PageDef};
use crate::model::paragraph::{CharShapeRef, LineSeg, Paragraph};
use crate::model::shape::{Caption, CaptionDirection, CommonObjAttr, ShapeObject, TextBox};
use crate::text::{
    bool_text, debug_str, debug_string, decimal, idx_seg, join_seq, join_strings, opt_view, push_bool, push_decimal,
    push_index, push_signed_decimal, signed_decimal, string_of, string_push_str, string_views,
};
use vstd::prelude::*;

verus! {

/// One difference found between the expected and the actual IR.
#[allow(inconsistent_fields)]
pub enum IrDifference {
    SectionCount { expected: usize, actual: usize },
    ParagraphCount { section: usize, expected: usize, actual: usize },
    CharShapeCount { expected: usize, actual: usize },
    ParaShapeCount { expected: usize, actual: usize },
    BorderFillCount { expected: usize, actual: usize },
    TabDefCount { expected: usize, actual: usize },
    NumberingCount { expected: usize, actual: usize },
    StyleCount { expected: usize, actual: usize },
    BinDataContentCount { expected: usize, actual: usize },
    ParagraphCharShapes {
        section: usize,
        paragraph: usize,
        path: String,
        expected: String,
        actual: String,
    },
    ParagraphControls {
        section: usize,
        paragraph: usize,
        path: String,
        expected: String,
        actual: String,
    },
    ParagraphLinesegs { section: usize, paragraph: usize, path: String, detail: String },
    SectionPageDef { section: usize, detail: String },
    SectionVisibility { section: usize, detail: String },
    TableCaption { section: usize, paragraph: usize, path: String, detail: String },
    ObjectCaption { section: usize, paragraph: usize, path: String, detail: String },
    ObjectComment { section: usize, paragraph: usize, path: String, detail: String },
    FieldContent { section: usize, paragraph: usize, path: String, detail: String },
    PictureSize { section: usize, paragraph: usize, path: String, detail: String },
    TablePageBreak { section: usize, paragraph: usize, path: String, detail: String },
    ObjectHoldAnchor { section: usize, paragraph: usize, path: String, detail: String },
    ObjectFlowWithText { section: usize, paragraph: usize, path: String, detail: String },
}

/// The mathematical value of an `IrDifference`: strings become character sequences.
#[allow(inconsistent_fields)]
pub enum Diff {
    SectionCount { expected: usize, actual: usize },
    ParagraphCount { section: usize, expected: usize, actual: usize },
    CharShapeCount { expected: usize, actual: usize },
    ParaShapeCount { expected: usize, actual: usize },
    BorderFillCount { expected: usize, actual: usize },
    TabDefCount { expected: usize, actual: usize },
    NumberingCount { expected: usize, actual: usize },
    StyleCount { expected: usize, actual: usize },
    BinDataContentCount { expected: usize, actual: usize },
    ParagraphCharShapes {
        section: usize,
        paragraph: usize,
        path: Seq<char>,
        expected: Seq<char>,
        actual: Seq<char>,
    },
    ParagraphControls {
        section: usize,
        paragraph: usize,
        path: Seq<char>,
        expected: Seq<char>,
        actual: Seq<char>,
    },
    ParagraphLinesegs { section: usize, paragraph: usize, path: Seq<char>, detail: Seq<char> },
    SectionPageDef { section: usize, detail: Seq<char> },
    SectionVisibility { section: usize, detail: Seq<char> },
    TableCaption { section: usize, paragraph: usize, path: Seq<char>, detail: Seq<char> },
    ObjectCaption { section: usize, paragraph: usize, path: Seq<char>, detail: Seq<char> },
    ObjectComment { section: usize, paragraph: usize, path: Seq<char>, detail: Seq<char> },
    FieldContent { section: usize, paragraph: usize, path: Seq<char>, detail: Seq<char> },
    PictureSize { section: usize, paragraph: usize, path: Seq<char>, detail: Seq<char> },
    TablePageBreak { section: usize, paragraph: usize, path: Seq<char>, detail: Seq<char> },
    ObjectHoldAnchor { section: usize, paragraph: usize, path: Seq<char>, detail: Seq<char> },
    ObjectFlowWithText { section: usize, paragraph: usize, path: Seq<char>, detail: Seq<char> },
}

impl View for IrDifference {
    type V = Diff;

    open spec fn view(&self) -> Diff {
        match self {
            IrDifference::SectionCount { expected, actual } => Diff::SectionCount {
                expected: *expected,
                actual: *actual,
            },
            IrDifference::ParagraphCount { section, expected, actual } => Diff::ParagraphCount {
                section: *section,
                expected: *expected,
                actual: *actual,
            },
            IrDifference::CharShapeCount { expected, actual } => Diff::CharShapeCount {
                expected: *expected,
                actual: *actual,
            },
            IrDifference::ParaShapeCount { expected, actual } => Diff::ParaShapeCount {
                expected: *expected,
                actual: *actual,
            },
            IrDifference::BorderFillCount { expected, actual } => Diff::BorderFillCount {
                expected: *expected,
                actual: *actual,
            },
            IrDifference::TabDefCount { expected, actual } => Diff::TabDefCount {
                expected: *expected,
                actual: *actual,
            },
            IrDifference::NumberingCount { expected, actual } => Diff::NumberingCount {
                expected: *expected,
                actual: *actual,
            },
            IrDifference::StyleCount { expected, actual } => Diff::StyleCount {
                expected: *expected,
                actual: *actual,
            },
            IrDifference::BinDataContentCount { expected, actual } => Diff::BinDataContentCount {
                expected: *expected,
                actual: *actual,
            },
            IrDifference::ParagraphCharShapes { section, paragraph, path, expected, actual } =>
                Diff::ParagraphCharShapes {
                section: *section,
                paragraph: *paragraph,
                path: path@,
                expected: expected@,
                actual: actual@,
            },
            IrDifference::ParagraphControls { section, paragraph, path, expected, actual } =>
                Diff::ParagraphControls {
                section: *section,
                paragraph: *paragraph,
                path: path@,
                expected: expected@,
                actual: actual@,
            },
            IrDifference::ParagraphLinesegs { section, paragraph, path, detail } =>
                Diff::ParagraphLinesegs {
                section: *section,
                paragraph: *paragraph,
                path: path@,
                detail: detail@,
            },
            IrDifference::SectionPageDef { section, detail } => Diff::SectionPageDef {
                section: *section,
                detail: detail@,
            },
            IrDifference::SectionVisibility { section, detail } => Diff::SectionVisibility {
                section: *section,
                detail: detail@,
            },
            IrDifference::TableCaption { section, paragraph, path, detail } =>
                Diff::TableCaption {
                section: *section,
                paragraph: *paragraph,
                path: path@,
                detail: detail@,
            },
            IrDifference::ObjectCaption { section, paragraph, path, detail } =>
                Diff::ObjectCaption {
                section: *section,
                paragraph: *paragraph,
                path: path@,
                detail: detail@,
            },
            IrDifference::ObjectComment { section, paragraph, path, detail } =>
                Diff::ObjectComment {
                section: *section,
                paragraph: *paragraph,
                path: path@,
                detail: detail@,
            },
            IrDifference::FieldContent { section, paragraph, path, detail } =>
                Diff::FieldContent {
                section: *section,
                paragraph: *paragraph,
                path: path@,
                detail: detail@,
            },
            IrDifference::PictureSize { section, paragraph, path, detail } => Diff::PictureSize {
                section: *section,
                paragraph: *paragraph,
                path: path@,
                detail: detail@,
            },
            IrDifference::TablePageBreak { section, paragraph, path, detail } =>
                Diff::TablePageBreak {
                section: *section,
                paragraph: *paragraph,
                path: path@,
                detail: detail@,
            },
            IrDifference::ObjectHoldAnchor { section, paragraph, path, detail } =>
                Diff::ObjectHoldAnchor {
                section: *section,
                paragraph: *paragraph,
                path: path@,
                detail: detail@,
            },
            IrDifference::ObjectFlowWithText { section, paragraph, path, detail } =>
                Diff::ObjectFlowWithText {
                section: *section,
                paragraph: *paragraph,
                path: path@,
                detail: detail@,
            },
        }
    }
}

/// The values of a list of differences.
pub open spec fn diff_views(v: Seq<IrDifference>) -> Seq<Diff> {
    v.map_values(|d: IrDifference| d@)
}

proof fn lemma_diff_views_push(v: Seq<IrDifference>, d: IrDifference)
    ensures
        diff_views(v.push(d)) == diff_views(v).push(d@),
{
    assert(diff_views(v.push(d)) =~= diff_views(v).push(d@));
}

proof fn lemma_chain4<T>(start: Seq<T>, a: Seq<T>, b: Seq<T>, c: Seq<T>, d: Seq<T>, g1: Seq<T>, g2: Seq<T>, g3: Seq<T>, fin: Seq<T>)
    requires
        g1 == start + a,
        g2 == g1 + b,
        g3 == g2 + c,
        fin == g3 + d,
    ensures
        fin == start + (a + b + c + d),
{
    assert(fin =~= start + (a + b + c + d));
}

proof fn lemma_chain5<T>(
    start: Seq<T>,
    a: Seq<T>,
    b: Seq<T>,
    c: Seq<T>,
    d: Seq<T>,
    e: Seq<T>,
    g1: Seq<T>,
    g2: Seq<T>,
    g3: Seq<T>,
    g4: Seq<T>,
    fin: Seq<T>,
)
    requires
        g1 == start + a,
        g2 == g1 + b,
        g3 == g2 + c,
        g4 == g3 + d,
        fin == g4 + e,
    ensures
        fin == start + (a + b + c + d + e),
{
    assert(fin =~= start + (a + b + c + d + e));
}

/// The result of an IR diff: the differences found, in the order found.
pub struct IrDiff {
    pub differences: Vec<IrDifference>,
}

impl View for IrDiff {
    type V = Seq<Diff>;

    open spec fn view(&self) -> Seq<Diff> {
        diff_views(self.differences@)
    }
}

impl Default for IrDiff {
    fn default() -> (d: Self)
        ensures
            d@ == Seq::<Diff>::empty(),
    {
        let d = IrDiff { differences: Vec::new() };
        assert(d@ =~= Seq::<Diff>::empty());
        d
    }
}

/// Tolerance options for a diff (none is applied yet).
#[derive(Clone, Copy, Debug, Default)]
pub struct IrDiffAllow {
    pub shape_raw: bool,
}

impl IrDiff {
    /// No difference was found.
    pub fn is_empty(&self) -> (b: bool)
        ensures
            b == (self@.len() == 0),
    {
        self.differences.len() == 0
    }

    /// Records one more difference.
    pub fn push(&mut self, d: IrDifference)
        ensures
            final(self)@ == old(self)@.push(d@),
    {
        proof {
            lemma_diff_views_push(self.differences@, d);
        }
        self.differences.push(d);
    }

    /// Whether the diff passes under the given tolerance; with no tolerance
    /// rule defined yet, only an empty diff passes.
    pub fn allowed(&self, _allow: IrDiffAllow) -> (b: bool)
        ensures
            b == (self@.len() == 0),
    {
        self.is_empty()
    }
}

// ---------------------------------------------------------------------------
// Detail strings
// ---------------------------------------------------------------------------

/// `[a, b, c, d]`, as `{:?}` renders an `[i32; 4]`.
pub open spec fn array4_debug(a: [i32; 4]) -> Seq<char> {
    "["@ + signed_decimal(a@[0] as int) + ", "@ + signed_decimal(a@[1] as int) + ", "@
        + signed_decimal(a@[2] as int) + ", "@ + signed_decimal(a@[3] as int) + "]"@
}

fn push_array4_debug(s: &mut String, a: &[i32; 4])
    ensures
        final(s)@ == old(s)@ + array4_debug(*a),
{
    string_push_str(s, "[");
    push_signed_decimal(s, a[0] as i64);
    string_push_str(s, ", ");
    push_signed_decimal(s, a[1] as i64);
    string_push_str(s, ", ");
    push_signed_decimal(s, a[2] as i64);
    string_push_str(s, ", ");
    push_signed_decimal(s, a[3] as i64);
    string_push_str(s, "]");
}

/// `Some((w, h))` or `None`, as `{:?}` renders an `Option<(u32, u32)>`.
pub open spec fn dim_debug(d: (u32, u32)) -> Seq<char> {
    "("@ + decimal(d.0 as nat) + ", "@ + decimal(d.1 as nat) + ")"@
}

fn push_dim_debug(s: &mut String, d: (u32, u32))
    ensures
        final(s)@ == old(s)@ + dim_debug(d),
{
    string_push_str(s, "(");
    push_decimal(s, d.0 as u64);
    string_push_str(s, ", ");
    push_decimal(s, d.1 as u64);
    string_push_str(s, ")");
}

fn arrays_equal(a: &[i32; 4], b: &[i32; 4]) -> (r: bool)
    ensures
        r == (a@ == b@),
{
    let r = a[0] == b[0] && a[1] == b[1] && a[2] == b[2] && a[3] == b[3];
    if r {
        assert(a@ =~= b@);
    }
    r
}

/// The mismatching picture-size parts (current size, image rectangle, image dimensions).
pub open spec fn picture_size_parts(a: Picture, b: Picture) -> Seq<Seq<char>> {
    let cur: Seq<Seq<char>> = if a.shape_attr.current_width != b.shape_attr.current_width
        || a.shape_attr.current_height != b.shape_attr.current_height {
        seq![
            "curSz: expected="@ + decimal(a.shape_attr.current_width as nat) + "x"@ + decimal(
                a.shape_attr.current_height as nat,
            ) + " actual="@ + decimal(b.shape_attr.current_width as nat) + "x"@ + decimal(
                b.shape_attr.current_height as nat,
            ),
        ]
    } else {
        Seq::empty()
    };
    let rect: Seq<Seq<char>> = if a.border_x@ != b.border_x@ || a.border_y@ != b.border_y@ {
        seq![
            "imgRect: expected="@ + array4_debug(a.border_x) + "/"@ + array4_debug(a.border_y)
                + " actual="@ + array4_debug(b.border_x) + "/"@ + array4_debug(b.border_y),
        ]
    } else {
        Seq::empty()
    };
    let dim: Seq<Seq<char>> = if a.img_dim != b.img_dim {
        seq!["imgDim: expected="@ + dim_debug(a.img_dim) + " actual="@ + dim_debug(b.img_dim)]
    } else {
        Seq::empty()
    };
    cur + rect + dim
}

/// Parts joined by `; `, or nothing when no part mismatches.
pub open spec fn joined_detail(parts: Seq<Seq<char>>) -> Option<Seq<char>> {
    if parts.len() == 0 {
        None
    } else {
        Some(join_seq(parts, "; "@))
    }
}

fn finish_parts(parts: &Vec<String>) -> (r: Option<String>)
    ensures
        opt_view(r) == joined_detail(string_views(parts@)),
{
    if parts.len() == 0 {
        None
    } else {
        Some(join_strings(parts, "; "))
    }
}

proof fn lemma_views_push(v: Seq<String>, s: String)
    ensures
        string_views(v.push(s)) == string_views(v).push(s@),
{
    assert(string_views(v.push(s)) =~= string_views(v).push(s@));
}

fn push_part(parts: &mut Vec<String>, s: String)
    ensures
        string_views(final(parts)@) == string_views(old(parts)@).push(s@),
{
    proof {
        lemma_views_push(parts@, s);
    }
    parts.push(s);
}

/// Picture size comparison: current size, image rectangle and image dimensions.
fn diff_picture_size(a: &Picture, b: &Picture) -> (r: Option<String>)
    ensures
        opt_view(r) == joined_detail(picture_size_parts(*a, *b)),
{
    let mut parts: Vec<String> = Vec::new();
    assert(string_views(parts@) =~= Seq::<Seq<char>>::empty());
    if a.shape_attr.current_width != b.shape_attr.current_width || a.shape_attr.current_height
        != b.shape_attr.current_height {
        let mut s = String::new();
        string_push_str(&mut s, "curSz: expected=");
        push_decimal(&mut s, a.shape_attr.current_width as u64);
        string_push_str(&mut s, "x");
        push_decimal(&mut s, a.shape_attr.current_height as u64);
        string_push_str(&mut s, " actual=");
        push_decimal(&mut s, b.shape_attr.current_width as u64);
        string_push_str(&mut s, "x");
        push_decimal(&mut s, b.shape_attr.current_height as u64);
        push_part(&mut parts, s);
    }
    let ghost after_cur = string_views(parts@);
    if !arrays_equal(&a.border_x, &b.border_x) || !arrays_equal(&a.border_y, &b.border_y) {
        let mut s = String::new();
        string_push_str(&mut s, "imgRect: expected=");
        push_array4_debug(&mut s, &a.border_x);
        string_push_str(&mut s, "/");
        push_array4_debug(&mut s, &a.border_y);
        string_push_str(&mut s, " actual=");
        push_array4_debug(&mut s, &b.border_x);
        string_push_str(&mut s, "/");
        push_array4_debug(&mut s, &b.border_y);
        push_part(&mut parts, s);
    }
    let ghost after_rect = string_views(parts@);
    if a.img_dim.0 != b.img_dim.0 || a.img_dim.1 != b.img_dim.1 {
        let mut s = String::new();
        string_push_str(&mut s, "imgDim: expected=");
        push_dim_debug(&mut s, a.img_dim);
        string_push_str(&mut s, " actual=");
        push_dim_debug(&mut s, b.img_dim);
        push_part(&mut parts, s);
    }
    assert(string_views(parts@) =~= picture_size_parts(*a, *b));
    finish_parts(&parts)
}

/// Object description comparison.
pub open spec fn object_comment_detail(a: Seq<char>, b: Seq<char>) -> Option<Seq<char>> {
    if a == b {
        None
    } else {
        Some("expected="@ + debug_str(a) + " actual="@ + debug_str(b))
    }
}

pub(crate) fn str_equal(a: &str, b: &str) -> (r: bool)
    ensures
        r == (a@ == b@),
{
    let x = string_of(a);
    let y = string_of(b);
    x == y
}

fn diff_object_comment(a: &str, b: &str) -> (r: Option<String>)
    ensures
        opt_view(r) == object_comment_detail(a@, b@),
{
    if str_equal(a, b) {
        None
    } else {
        let mut s = String::new();
        string_push_str(&mut s, "expected=");
        let da = debug_string(a);
        string_push_str(&mut s, da.as_str());
        string_push_str(&mut s, " actual=");
        let db = debug_string(b);
        string_push_str(&mut s, db.as_str());
        Some(s)
    }
}

/// `expected=<a> actual=<b>` for two flags, when they differ.
pub open spec fn flag_detail(a: bool, b: bool) -> Option<Seq<char>> {
    if a == b {
        None
    } else {
        Some("expected="@ + bool_text(a) + " actual="@ + bool_text(b))
    }
}

fn flag_diff(a: bool, b: bool) -> (r: Option<String>)
    ensures
        opt_view(r) == flag_detail(a, b),
{
    if a == b {
        None
    } else {
        let mut s = String::new();
        string_push_str(&mut s, "expected=");
        push_bool(&mut s, a);
        string_push_str(&mut s, " actual=");
        push_bool(&mut s, b);
        Some(s)
    }
}

/// `holdAnchorAndSO` (page-break prevention) comparison.
fn diff_hold_anchor(a: &CommonObjAttr, b: &CommonObjAttr) -> (r: Option<String>)
    ensures
        opt_view(r) == flag_detail(a.prevent_page_break, b.prevent_page_break),
{
    flag_diff(a.prevent_page_break, b.prevent_page_break)
}

/// `flowWithText` comparison.
fn diff_flow_with_text(a: &CommonObjAttr, b: &CommonObjAttr) -> (r: Option<String>)
    ensures
        opt_view(r) == flag_detail(a.flow_with_text, b.flow_with_text),
{
    flag_diff(a.flow_with_text, b.flow_with_text)
}

/// `name: expected=a actual=b` when two numbers differ.
pub open spec fn num_part(name: Seq<char>, a: nat, b: nat) -> Seq<Seq<char>> {
    if a == b {
        Seq::empty()
    } else {
        seq![name + ": expected="@ + decimal(a) + " actual="@ + decimal(b)]
    }
}

fn push_num_part(parts: &mut Vec<String>, name: &str, a: u64, b: u64)
    ensures
        string_views(final(parts)@) == string_views(old(parts)@) + num_part(
            name@,
            a as nat,
            b as nat,
        ),
{
    if a != b {
        let mut s = string_of(name);
        string_push_str(&mut s, ": expected=");
        push_decimal(&mut s, a);
        string_push_str(&mut s, " actual=");
        push_decimal(&mut s, b);
        push_part(parts, s);
    } else {
        assert(string_views(parts@) + num_part(name@, a as nat, b as nat) =~= string_views(parts@));
    }
}

/// `name: expected=a actual=b` when two flags differ.
pub open spec fn bool_part(name: Seq<char>, a: bool, b: bool) -> Seq<Seq<char>> {
    if a == b {
        Seq::empty()
    } else {
        seq![name + ": expected="@ + bool_text(a) + " actual="@ + bool_text(b)]
    }
}

fn push_bool_part(parts: &mut Vec<String>, name: &str, a: bool, b: bool)
    ensures
        string_views(final(parts)@) == string_views(old(parts)@) + bool_part(name@, a, b),
{
    if a != b {
        let mut s = string_of(name);
        string_push_str(&mut s, ": expected=");
        push_bool(&mut s, a);
        string_push_str(&mut s, " actual=");
        push_bool(&mut s, b);
        push_part(parts, s);
    } else {
        assert(string_views(parts@) + bool_part(name@, a, b) =~= string_views(parts@));
    }
}

/// The `{:?}` rendering of a caption side.
pub open spec fn direction_debug(d: CaptionDirection) -> Seq<char> {
    match d {
        CaptionDirection::Left => "Left"@,
        CaptionDirection::Right => "Right"@,
        CaptionDirection::Top => "Top"@,
        CaptionDirection::Bottom => "Bottom"@,
    }
}

fn push_direction_debug(s: &mut String, d: CaptionDirection)
    ensures
        final(s)@ == old(s)@ + direction_debug(d),
{
    match d {
        CaptionDirection::Left => string_push_str(s, "Left"),
        CaptionDirection::Right => string_push_str(s, "Right"),
        CaptionDirection::Top => string_push_str(s, "Top"),
        CaptionDirection::Bottom => string_push_str(s, "Bottom"),
    }
}

/// The mismatching caption attributes: side, margin inclusion, widths, gap,
/// paragraph count (the vertical alignment is not compared).
pub open spec fn caption_parts(a: Caption, b: Caption) -> Seq<Seq<char>> {
    let side: Seq<Seq<char>> = if a.direction != b.direction {
        seq!["side: expected="@ + direction_debug(a.direction) + " actual="@ + direction_debug(b.direction)]
    } else {
        Seq::empty()
    };
    let gap: Seq<Seq<char>> = if a.spacing != b.spacing {
        seq!["gap: expected="@ + signed_decimal(a.spacing as int) + " actual="@ + signed_decimal(b.spacing as int)]
    } else {
        Seq::empty()
    };
    side + bool_part("fullSz"@, a.include_margin, b.include_margin) + num_part(
        "width"@,
        a.width as nat,
        b.width as nat,
    ) + gap + num_part("lastWidth"@, a.max_width as nat, b.max_width as nat) + num_part(
        "paragraphs"@,
        a.paragraphs@.len(),
        b.paragraphs@.len(),
    )
}

/// Caption comparison: presence asymmetry, or the joined mismatching attributes.
pub open spec fn caption_detail(a: Option<Caption>, b: Option<Caption>) -> Option<Seq<char>> {
    match (a, b) {
        (None, None) => None,
        (Some(_), None) => Some("missing: expected=Some actual=None"@),
        (None, Some(_)) => Some("synthetic: expected=None actual=Some"@),
        (Some(x), Some(y)) => joined_detail(caption_parts(x, y)),
    }
}

fn diff_table_caption(a: &Option<Caption>, b: &Option<Caption>) -> (r: Option<String>)
    ensures
        opt_view(r) == caption_detail(*a, *b),
{
    match (a, b) {
        (None, None) => None,
        (Some(_), None) => Some(string_of("missing: expected=Some actual=None")),
        (None, Some(_)) => Some(string_of("synthetic: expected=None actual=Some")),
        (Some(x), Some(y)) => {
            let mut parts: Vec<String> = Vec::new();
            assert(string_views(parts@) =~= Seq::<Seq<char>>::empty());
            if x.direction != y.direction {
                let mut s = string_of("side: expected=");
                push_direction_debug(&mut s, x.direction);
                string_push_str(&mut s, " actual=");
                push_direction_debug(&mut s, y.direction);
                push_part(&mut parts, s);
            }
            push_bool_part(&mut parts, "fullSz", x.include_margin, y.include_margin);
            push_num_part(&mut parts, "width", x.width as u64, y.width as u64);
            if x.spacing != y.spacing {
                let mut s = string_of("gap: expected=");
                push_signed_decimal(&mut s, x.spacing as i64);
                string_push_str(&mut s, " actual=");
                push_signed_decimal(&mut s, y.spacing as i64);
                push_part(&mut parts, s);
            }
            push_num_part(&mut parts, "lastWidth", x.max_width as u64, y.max_width as u64);
            push_num_part(
                &mut parts,
                "paragraphs",
                x.paragraphs.len() as u64,
                y.paragraphs.len() as u64,
            );
            assert(string_views(parts@) =~= caption_parts(*x, *y));
            finish_parts(&parts)
        },
    }
}

/// The `{:?}` rendering of a binding method.
pub open spec fn binding_debug(b: BindingMethod) -> Seq<char> {
    match b {
        BindingMethod::SingleSided => "SingleSided"@,
        BindingMethod::DuplexSided => "DuplexSided"@,
        BindingMethod::TopFlip => "TopFlip"@,
    }
}

fn push_binding_debug(s: &mut String, b: BindingMethod)
    ensures
        final(s)@ == old(s)@ + binding_debug(b),
{
    match b {
        BindingMethod::SingleSided => string_push_str(s, "SingleSided"),
        BindingMethod::DuplexSided => string_push_str(s, "DuplexSided"),
        BindingMethod::TopFlip => string_push_str(s, "TopFlip"),
    }
}

/// The mismatching page-geometry fields, in declaration order.
pub open spec fn page_def_parts(a: PageDef, b: PageDef) -> Seq<Seq<char>> {
    let binding: Seq<Seq<char>> = if a.binding != b.binding {
        seq!["binding: expected="@ + binding_debug(a.binding) + " actual="@ + binding_debug(b.binding)]
    } else {
        Seq::empty()
    };
    num_part("width"@, a.width as nat, b.width as nat) + num_part(
        "height"@,
        a.height as nat,
        b.height as nat,
    ) + num_part("margin_left"@, a.margin_left as nat, b.margin_left as nat) + num_part(
        "margin_right"@,
        a.margin_right as nat,
        b.margin_right as nat,
    ) + num_part("margin_top"@, a.margin_top as nat, b.margin_top as nat) + num_part(
        "margin_bottom"@,
        a.margin_bottom as nat,
        b.margin_bottom as nat,
    ) + num_part("margin_header"@, a.margin_header as nat, b.margin_header as nat) + num_part(
        "margin_footer"@,
        a.margin_footer as nat,
        b.margin_footer as nat,
    ) + num_part("margin_gutter"@, a.margin_gutter as nat, b.margin_gutter as nat) + bool_part(
        "landscape"@,
        a.landscape,
        b.landscape,
    ) + binding
}

fn diff_page_def(a: &PageDef, b: &PageDef) -> (r: Option<String>)
    ensures
        opt_view(r) == joined_detail(page_def_parts(*a, *b)),
{
    let mut parts: Vec<String> = Vec::new();
    assert(string_views(parts@) =~= Seq::<Seq<char>>::empty());
    push_num_part(&mut parts, "width", a.width as u64, b.width as u64);
    assert(string_views(parts@) =~= num_part("width"@, a.width as nat, b.width as nat));
    push_num_part(&mut parts, "height", a.height as u64, b.height as u64);
    push_num_part(&mut parts, "margin_left", a.margin_left as u64, b.margin_left as u64);
    push_num_part(&mut parts, "margin_right", a.margin_right as u64, b.margin_right as u64);
    push_num_part(&mut parts, "margin_top", a.margin_top as u64, b.margin_top as u64);
    let ghost mid = string_views(parts@);
    push_num_part(&mut parts, "margin_bottom", a.margin_bottom as u64, b.margin_bottom as u64);
    push_num_part(&mut parts, "margin_header", a.margin_header as u64, b.margin_header as u64);
    push_num_part(&mut parts, "margin_footer", a.margin_footer as u64, b.margin_footer as u64);
    push_num_part(&mut parts, "margin_gutter", a.margin_gutter as u64, b.margin_gutter as u64);
    push_bool_part(&mut parts, "landscape", a.landscape, b.landscape);
    let ghost before_binding = string_views(parts@);
    if a.binding != b.binding {
        let mut s = string_of("binding: expected=");
        push_binding_debug(&mut s, a.binding);
        string_push_str(&mut s, " actual=");
        push_binding_debug(&mut s, b.binding);
        push_part(&mut parts, s);
    } else {
        assert(string_views(parts@) =~= before_binding + Seq::<Seq<char>>::empty());
    }
    assert(string_views(parts@) =~= page_def_parts(*a, *b));
    finish_parts(&parts)
}

/// The mismatching section visibility flags.
pub open spec fn visibility_parts(a: SectionDef, b: SectionDef) -> Seq<Seq<char>> {
    bool_part("hide_header"@, a.hide_header, b.hide_header) + bool_part(
        "hide_footer"@,
        a.hide_footer,
        b.hide_footer,
    ) + bool_part("hide_master_page"@, a.hide_master_page, b.hide_master_page) + bool_part(
        "hide_border"@,
        a.hide_border,
        b.hide_border,
    ) + bool_part("hide_fill"@, a.hide_fill, b.hide_fill) + bool_part(
        "hide_empty_line"@,
        a.hide_empty_line,
        b.hide_empty_line,
    )
}

fn diff_visibility(a: &SectionDef, b: &SectionDef) -> (r: Option<String>)
    ensures
        opt_view(r) == joined_detail(visibility_parts(*a, *b)),
{
    let mut parts: Vec<String> = Vec::new();
    assert(string_views(parts@) =~= Seq::<Seq<char>>::empty());
    push_bool_part(&mut parts, "hide_header", a.hide_header, b.hide_header);
    push_bool_part(&mut parts, "hide_footer", a.hide_footer, b.hide_footer);
    push_bool_part(&mut parts, "hide_master_page", a.hide_master_page, b.hide_master_page);
    push_bool_part(&mut parts, "hide_border", a.hide_border, b.hide_border);
    push_bool_part(&mut parts, "hide_fill", a.hide_fill, b.hide_fill);
    push_bool_part(&mut parts, "hide_empty_line", a.hide_empty_line, b.hide_empty_line);
    assert(string_views(parts@) =~= visibility_parts(*a, *b));
    finish_parts(&parts)
}

// ---------------------------------------------------------------------------
// Control and shape accessors
// ---------------------------------------------------------------------------

/// Whether a control occupies an inline slot of the run text; positionless
/// controls (bookmarks) do not and are left out of the control sequence.
pub open spec fn is_inline_slot(c: Control) -> bool {
    !(c is Bookmark)
}

fn is_hwpx_inline_slot(c: &Control) -> (b: bool)
    ensures
        b == is_inline_slot(*c),
{
    !matches!(c, Control::Bookmark)
}

/// The short type name of a control used in diff messages.
pub open spec fn control_name(c: Control) -> Seq<char> {
    match c {
        Control::Table(_) => "tbl"@,
        Control::Picture(_) => "pic"@,
        Control::Shape(_) => "shape"@,
        Control::Equation(_) => "eq"@,
        Control::Footnote(_) => "fn"@,
        Control::Endnote(_) => "en"@,
        Control::Field(_) => "field"@,
        Control::Form => "form"@,
        Control::Header => "header"@,
        Control::Footer => "footer"@,
        Control::AutoNumber => "autoNum"@,
        Control::PageHide => "pageHide"@,
        Control::PageNumberPos => "pageNumPos"@,
        Control::NewNumber => "newNum"@,
        Control::CharOverlap => "charOverlap"@,
        Control::Ruby => "ruby"@,
        _ => "other"@,
    }
}

fn control_type_name(c: &Control) -> (r: &'static str)
    ensures
        r@ == control_name(*c),
{
    match c {
        Control::Table(_) => "tbl",
        Control::Picture(_) => "pic",
        Control::Shape(_) => "shape",
        Control::Equation(_) => "eq",
        Control::Footnote(_) => "fn",
        Control::Endnote(_) => "en",
        Control::Field(_) => "field",
        Control::Form => "form",
        Control::Header => "header",
        Control::Footer => "footer",
        Control::AutoNumber => "autoNum",
        Control::PageHide => "pageHide",
        Control::PageNumberPos => "pageNumPos",
        Control::NewNumber => "newNum",
        Control::CharOverlap => "charOverlap",
        Control::Ruby => "ruby",
        _ => "other",
    }
}

/// The type names of the inline-slot controls, in order.
pub open spec fn slot_names(cs: Seq<Control>) -> Seq<Seq<char>>
    decreases cs.len(),
{
    if cs.len() == 0 {
        Seq::empty()
    } else {
        slot_names(cs.drop_last()) + (if is_inline_slot(cs.last()) {
            seq![control_name(cs.last())]
        } else {
            Seq::empty()
        })
    }
}

fn slot_type_names(cs: &Vec<Control>) -> (r: Vec<String>)
    ensures
        string_views(r@) == slot_names(cs@),
{
    let mut r: Vec<String> = Vec::new();
    for i in 0..cs.len()
        invariant
            string_views(r@) == slot_names(cs@.take(i as int)),
    {
        assert(cs@.take(i + 1).drop_last() == cs@.take(i as int));
        if is_hwpx_inline_slot(&cs[i]) {
            let name = string_of(control_type_name(&cs[i]));
            push_part(&mut r, name);
        } else {
            assert(string_views(r@) =~= slot_names(cs@.take(i + 1)));
        }
    }
    assert(cs@.take(cs.len() as int) == cs@);
    r
}

fn strings_equal(a: &Vec<String>, b: &Vec<String>) -> (r: bool)
    ensures
        r == (string_views(a@) == string_views(b@)),
{
    if a.len() != b.len() {
        assert(string_views(a@).len() != string_views(b@).len());
        return false;
    }
    for i in 0..a.len()
        invariant
            a@.len() == b@.len(),
            forall|j: int| 0 <= j < i ==> a@[j]@ == b@[j]@,
    {
        if a[i] != b[i] {
            assert(string_views(a@)[i as int] != string_views(b@)[i as int]);
            return false;
        }
    }
    assert(string_views(a@) =~= string_views(b@));
    true
}

/// `[a,b,...]`: names joined by commas in brackets.
pub open spec fn bracket_list(items: Seq<Seq<char>>) -> Seq<char> {
    "["@ + join_seq(items, ","@) + "]"@
}

fn format_names(names: &Vec<String>) -> (r: String)
    ensures
        r@ == bracket_list(string_views(names@)),
{
    let mut r = string_of("[");
    let inner = join_strings(names, ",");
    string_push_str(&mut r, inner.as_str());
    string_push_str(&mut r, "]");
    r
}

/// `(start_pos,char_shape_id)` for one character-shape run.
pub open spec fn char_shape_text(r: CharShapeRef) -> Seq<char> {
    "("@ + decimal(r.start_pos as nat) + ","@ + decimal(r.char_shape_id as nat) + ")"@
}

/// The runs rendered as `[(start,id),...]`.
pub open spec fn char_shapes_text(refs: Seq<CharShapeRef>) -> Seq<char> {
    bracket_list(refs.map_values(|r: CharShapeRef| char_shape_text(r)))
}

fn format_char_shapes(refs: &Vec<CharShapeRef>) -> (r: String)
    ensures
        r@ == char_shapes_text(refs@),
{
    let mut items: Vec<String> = Vec::new();
    for i in 0..refs.len()
        invariant
            string_views(items@) == refs@.take(i as int).map_values(
                |r: CharShapeRef| char_shape_text(r),
            ),
    {
        let mut s = string_of("(");
        push_decimal(&mut s, refs[i].start_pos as u64);
        string_push_str(&mut s, ",");
        push_decimal(&mut s, refs[i].char_shape_id as u64);
        string_push_str(&mut s, ")");
        push_part(&mut items, s);
        assert(refs@.take(i + 1).map_values(|r: CharShapeRef| char_shape_text(r)) =~= refs@.take(
            i as int,
        ).map_values(|r: CharShapeRef| char_shape_text(r)).push(char_shape_text(refs@[i as int])));
    }
    assert(refs@.take(refs.len() as int) == refs@);
    format_names(&items)
}

fn char_shapes_equal(a: &Vec<CharShapeRef>, b: &Vec<CharShapeRef>) -> (r: bool)
    ensures
        r == (a@ == b@),
{
    if a.len() != b.len() {
        return false;
    }
    for i in 0..a.len()
        invariant
            a@.len() == b@.len(),
            forall|j: int| 0 <= j < i ==> a@[j] == b@[j],
    {
        if a[i].start_pos != b[i].start_pos || a[i].char_shape_id != b[i].char_shape_id {
            return false;
        }
    }
    assert(a@ =~= b@);
    true
}

/// The layout attributes of a drawing object.
pub open spec fn shape_common(s: ShapeObject) -> CommonObjAttr {
    match s {
        ShapeObject::Line(x) => x.common,
        ShapeObject::Rectangle(x) => x.common,
        ShapeObject::Ellipse(x) => x.common,
        ShapeObject::Arc(x) => x.common,
        ShapeObject::Polygon(x) => x.common,
        ShapeObject::Curve(x) => x.common,
        ShapeObject::Chart(x) => x.common,
        ShapeObject::Ole(x) => x.common,
        ShapeObject::Group(x) => x.common,
        ShapeObject::Picture(x) => x.common,
    }
}

fn shape_common_ref(s: &ShapeObject) -> (r: &CommonObjAttr)
    ensures
        *r == shape_common(*s),
{
    match s {
        ShapeObject::Line(x) => &x.common,
        ShapeObject::Rectangle(x) => &x.common,
        ShapeObject::Ellipse(x) => &x.common,
        ShapeObject::Arc(x) => &x.common,
        ShapeObject::Polygon(x) => &x.common,
        ShapeObject::Curve(x) => &x.common,
        ShapeObject::Chart(x) => &x.common,
        ShapeObject::Ole(x) => &x.common,
        ShapeObject::Group(x) => &x.common,
        ShapeObject::Picture(x) => &x.common,
    }
}

/// The text box of a drawing object; groups and pictures have none.
pub open spec fn shape_text_box(s: ShapeObject) -> Option<TextBox> {
    match s {
        ShapeObject::Line(x) => x.drawing.text_box,
        ShapeObject::Rectangle(x) => x.drawing.text_box,
        ShapeObject::Ellipse(x) => x.drawing.text_box,
        ShapeObject::Arc(x) => x.drawing.text_box,
        ShapeObject::Polygon(x) => x.drawing.text_box,
        ShapeObject::Curve(x) => x.drawing.text_box,
        ShapeObject::Chart(x) => x.drawing.text_box,
        ShapeObject::Ole(x) => x.drawing.text_box,
        ShapeObject::Group(_) => None,
        ShapeObject::Picture(_) => None,
    }
}

fn shape_text_box_ref(s: &ShapeObject) -> (r: Option<&TextBox>)
    ensures
        match r {
            Some(t) => shape_text_box(*s) == Some(*t),
            None => shape_text_box(*s) is None,
        },
{
    match s {
        ShapeObject::Line(x) => x.drawing.text_box.as_ref(),
        ShapeObject::Rectangle(x) => x.drawing.text_box.as_ref(),
        ShapeObject::Ellipse(x) => x.drawing.text_box.as_ref(),
        ShapeObject::Arc(x) => x.drawing.text_box.as_ref(),
        ShapeObject::Polygon(x) => x.drawing.text_box.as_ref(),
        ShapeObject::Curve(x) => x.drawing.text_box.as_ref(),
        ShapeObject::Chart(x) => x.drawing.text_box.as_ref(),
        ShapeObject::Ole(x) => x.drawing.text_box.as_ref(),
        ShapeObject::Group(_) => None,
        ShapeObject::Picture(_) => None,
    }
}

/// The caption of a drawing object: the drawing caption of plain shapes, the
/// object's own caption for charts, OLE objects, groups and pictures.
pub open spec fn shape_caption(s: ShapeObject) -> Option<Caption> {
    match s {
        ShapeObject::Line(x) => x.drawing.caption,
        ShapeObject::Rectangle(x) => x.drawing.caption,
        ShapeObject::Ellipse(x) => x.drawing.caption,
        ShapeObject::Arc(x) => x.drawing.caption,
        ShapeObject::Polygon(x) => x.drawing.caption,
        ShapeObject::Curve(x) => x.drawing.caption,
        ShapeObject::Chart(x) => x.caption,
        ShapeObject::Ole(x) => x.caption,
        ShapeObject::Group(x) => x.caption,
        ShapeObject::Picture(x) => x.caption,
    }
}

fn shape_caption_ref(s: &ShapeObject) -> (r: &Option<Caption>)
    ensures
        *r == shape_caption(*s),
{
    match s {
        ShapeObject::Line(x) => &x.drawing.caption,
        ShapeObject::Rectangle(x) => &x.drawing.caption,
        ShapeObject::Ellipse(x) => &x.drawing.caption,
        ShapeObject::Arc(x) => &x.drawing.caption,
        ShapeObject::Polygon(x) => &x.drawing.caption,
        ShapeObject::Curve(x) => &x.drawing.caption,
        ShapeObject::Chart(x) => &x.caption,
        ShapeObject::Ole(x) => &x.caption,
        ShapeObject::Group(x) => &x.caption,
        ShapeObject::Picture(x) => &x.caption,
    }
}

/// The text box and caption paragraphs of a drawing object are parts of it.
pub proof fn lemma_shape_parts_smaller(s: ShapeObject)
    ensures
        shape_text_box(s) matches Some(t) ==> decreases_to!(s => t.paragraphs@),
        shape_caption(s) matches Some(c) ==> decreases_to!(s => c.paragraphs@),
{
    match s {
        ShapeObject::Line(x) => {
            if let Some(t) = x.drawing.text_box { assert(decreases_to!(s => t.paragraphs@)); }
            if let Some(c) = x.drawing.caption { assert(decreases_to!(s => c.paragraphs@)); }
        },
        ShapeObject::Rectangle(x) => {
            if let Some(t) = x.drawing.text_box { assert(decreases_to!(s => t.paragraphs@)); }
            if let Some(c) = x.drawing.caption { assert(decreases_to!(s => c.paragraphs@)); }
        },
        ShapeObject::Ellipse(x) => {
            if let Some(t) = x.drawing.text_box { assert(decreases_to!(s => t.paragraphs@)); }
            if let Some(c) = x.drawing.caption { assert(decreases_to!(s => c.paragraphs@)); }
        },
        ShapeObject::Arc(x) => {
            if let Some(t) = x.drawing.text_box { assert(decreases_to!(s => t.paragraphs@)); }
            if let Some(c) = x.drawing.caption { assert(decreases_to!(s => c.paragraphs@)); }
        },
        ShapeObject::Polygon(x) => {
            if let Some(t) = x.drawing.text_box { assert(decreases_to!(s => t.paragraphs@)); }
            if let Some(c) = x.drawing.caption { assert(decreases_to!(s => c.paragraphs@)); }
        },
        ShapeObject::Curve(x) => {
            if let Some(t) = x.drawing.text_box { assert(decreases_to!(s => t.paragraphs@)); }
            if let Some(c) = x.drawing.caption { assert(decreases_to!(s => c.paragraphs@)); }
        },
        ShapeObject::Chart(x) => {
            if let Some(t) = x.drawing.text_box { assert(decreases_to!(s => t.paragraphs@)); }
            if let Some(c) = x.caption { assert(decreases_to!(s => c.paragraphs@)); }
        },
        ShapeObject::Ole(x) => {
            if let Some(t) = x.drawing.text_box { assert(decreases_to!(s => t.paragraphs@)); }
            if let Some(c) = x.caption { assert(decreases_to!(s => c.paragraphs@)); }
        },
        ShapeObject::Group(x) => {
            if let Some(c) = x.caption { assert(decreases_to!(s => c.paragraphs@)); }
        },
        ShapeObject::Picture(x) => {
            if let Some(c) = x.caption { assert(decreases_to!(s => c.paragraphs@)); }
        },
    }
}

// ---------------------------------------------------------------------------
// Character shapes, controls and object attributes, recursively
// ---------------------------------------------------------------------------

/// The smaller of two lengths.
pub open spec fn min_len(a: nat, b: nat) -> int {
    if a < b {
        a as int
    } else {
        b as int
    }
}

/// The kinds of difference that carry a location and a detail string.
#[derive(Clone, Copy, PartialEq, Eq, Structural)]
pub enum DiffKind {
    TableCaption,
    ObjectCaption,
    ObjectComment,
    PictureSize,
    TablePageBreak,
    ObjectHoldAnchor,
    ObjectFlowWithText,
}

/// A located difference of the given kind.
pub open spec fn located(kind: DiffKind, sec: usize, para: usize, path: Seq<char>, d: Seq<char>) -> Diff {
    match kind {
        DiffKind::TableCaption => Diff::TableCaption { section: sec, paragraph: para, path, detail: d },
        DiffKind::ObjectCaption => Diff::ObjectCaption { section: sec, paragraph: para, path, detail: d },
        DiffKind::ObjectComment => Diff::ObjectComment { section: sec, paragraph: para, path, detail: d },
        DiffKind::PictureSize => Diff::PictureSize { section: sec, paragraph: para, path, detail: d },
        DiffKind::TablePageBreak => Diff::TablePageBreak { section: sec, paragraph: para, path, detail: d },
        DiffKind::ObjectHoldAnchor => Diff::ObjectHoldAnchor { section: sec, paragraph: para, path, detail: d },
        DiffKind::ObjectFlowWithText => Diff::ObjectFlowWithText { section: sec, paragraph: para, path, detail: d },
    }
}

/// One located difference when a detail is present, none otherwise.
pub open spec fn entry(
    kind: DiffKind,
    sec: usize,
    para: usize,
    path: Seq<char>,
    detail: Option<Seq<char>>,
) -> Seq<Diff> {
    match detail {
        Some(d) => seq![located(kind, sec, para, path, d)],
        None => Seq::empty(),
    }
}

/// Records a located difference when a detail is present.
fn push_entry(
    diff: &mut IrDiff,
    kind: DiffKind,
    section: usize,
    paragraph: usize,
    path: &str,
    detail: Option<String>,
)
    ensures
        final(diff)@ == old(diff)@ + entry(kind, section, paragraph, path@, opt_view(detail)),
{
    match detail {
        Some(d) => {
            let path = string_of(path);
            let item = match kind {
                DiffKind::TableCaption => IrDifference::TableCaption { section, paragraph, path, detail: d },
                DiffKind::ObjectCaption => IrDifference::ObjectCaption { section, paragraph, path, detail: d },
                DiffKind::ObjectComment => IrDifference::ObjectComment { section, paragraph, path, detail: d },
                DiffKind::PictureSize => IrDifference::PictureSize { section, paragraph, path, detail: d },
                DiffKind::TablePageBreak => IrDifference::TablePageBreak { section, paragraph, path, detail: d },
                DiffKind::ObjectHoldAnchor => IrDifference::ObjectHoldAnchor { section, paragraph, path, detail: d },
                DiffKind::ObjectFlowWithText => IrDifference::ObjectFlowWithText { section, paragraph, path, detail: d },
            };
            diff.push(item);
        },
        None => {
            assert(diff@ =~= diff@ + Seq::<Diff>::empty());
        },
    }
}

/// The `{:?}` rendering of a table page-break mode.
pub open spec fn page_break_debug(p: TablePageBreak) -> Seq<char> {
    match p {
        TablePageBreak::NoBreak => "None"@,
        TablePageBreak::CellBreak => "CellBreak"@,
        TablePageBreak::RowBreak => "RowBreak"@,
    }
}

fn push_page_break_debug(s: &mut String, p: TablePageBreak)
    ensures
        final(s)@ == old(s)@ + page_break_debug(p),
{
    match p {
        TablePageBreak::NoBreak => string_push_str(s, "None"),
        TablePageBreak::CellBreak => string_push_str(s, "CellBreak"),
        TablePageBreak::RowBreak => string_push_str(s, "RowBreak"),
    }
}

/// Table page-break comparison.
pub open spec fn page_break_detail(a: TablePageBreak, b: TablePageBreak) -> Option<Seq<char>> {
    if a == b {
        None
    } else {
        Some("expected="@ + page_break_debug(a) + " actual="@ + page_break_debug(b))
    }
}

/// The `{:?}` rendering of an optional string.
pub open spec fn opt_str_debug(o: Option<Seq<char>>) -> Seq<char> {
    match o {
        Some(x) => "Some("@ + debug_str(x) + ")"@,
        None => "None"@,
    }
}

fn push_opt_str_debug(s: &mut String, o: &Option<String>)
    ensures
        final(s)@ == old(s)@ + opt_str_debug(opt_view(*o)),
{
    match o {
        Some(x) => {
            string_push_str(s, "Some(");
            let d = debug_string(x.as_str());
            string_push_str(s, d.as_str());
            string_push_str(s, ")");
        },
        None => string_push_str(s, "None"),
    }
}

fn opt_strings_equal(a: &Option<String>, b: &Option<String>) -> (r: bool)
    ensures
        r == (opt_view(*a) == opt_view(*b)),
{
    match (a, b) {
        (Some(x), Some(y)) => str_equal(x.as_str(), y.as_str()),
        (None, None) => true,
        _ => false,
    }
}

/// Field parameters and memo-count comparison entries.
pub open spec fn field_entries(sec: usize, para: usize, path: Seq<char>, a: Field, b: Field) -> Seq<
    Diff,
> {
    let params: Seq<Diff> = if opt_view(a.raw_parameters_xml) != opt_view(b.raw_parameters_xml) {
        seq![
            Diff::FieldContent {
                section: sec,
                paragraph: para,
                path: path,
                detail: "parameters: expected="@ + opt_str_debug(opt_view(a.raw_parameters_xml))
                    + " actual="@ + opt_str_debug(opt_view(b.raw_parameters_xml)),
            },
        ]
    } else {
        Seq::empty()
    };
    let memo: Seq<Diff> = if a.memo_paragraphs@.len() != b.memo_paragraphs@.len() {
        seq![
            Diff::FieldContent {
                section: sec,
                paragraph: para,
                path: path,
                detail: "memo paragraphs: expected="@ + decimal(a.memo_paragraphs@.len()) + " actual="@
                    + decimal(b.memo_paragraphs@.len()),
            },
        ]
    } else {
        Seq::empty()
    };
    params + memo
}

/// The differences a paragraph pair contributes before recursing into its
/// controls: the character-shape runs and the inline-slot control sequence.
pub open spec fn cs_own(sec: usize, para: usize, path: Seq<char>, pa: Paragraph, pb: Paragraph) -> Seq<
    Diff,
> {
    let shapes: Seq<Diff> = if pa.char_shapes@ != pb.char_shapes@ {
        seq![
            Diff::ParagraphCharShapes {
                section: sec,
                paragraph: para,
                path: path,
                expected: char_shapes_text(pa.char_shapes@),
                actual: char_shapes_text(pb.char_shapes@),
            },
        ]
    } else {
        Seq::empty()
    };
    let controls: Seq<Diff> = if slot_names(pa.controls@) != slot_names(pb.controls@) {
        seq![
            Diff::ParagraphControls {
                section: sec,
                paragraph: para,
                path: path,
                expected: bracket_list(slot_names(pa.controls@)),
                actual: bracket_list(slot_names(pb.controls@)),
            },
        ]
    } else {
        Seq::empty()
    };
    shapes + controls
}

/// All character-shape, control and object-attribute differences of a
/// paragraph pair and of the paragraphs nested in its controls.
pub open spec fn cs_paragraph(sec: usize, para: usize, path: Seq<char>, pa: Paragraph, pb: Paragraph) -> Seq<
    Diff,
>
    decreases pa, 0int,
{
    cs_own(sec, para, path, pa, pb) + cs_controls(
        sec,
        para,
        path,
        pa.controls@,
        pb.controls@,
        min_len(pa.controls@.len(), pb.controls@.len()),
    )
}

/// The differences of the first `n` control pairs.
pub open spec fn cs_controls(
    sec: usize,
    para: usize,
    path: Seq<char>,
    ca: Seq<Control>,
    cb: Seq<Control>,
    n: int,
) -> Seq<Diff>
    decreases ca, n,
{
    if n <= 0 || n > ca.len() || n > cb.len() {
        Seq::empty()
    } else {
        cs_controls(sec, para, path, ca, cb, n - 1) + cs_control_pair(
            sec,
            para,
            path,
            (n - 1) as nat,
            ca[n - 1],
            cb[n - 1],
        )
    }
}

/// The differences of the paragraph pairs of two paragraph lists (first `k`),
/// the `k`-th located at `base[k]`.
pub open spec fn cs_paras(
    sec: usize,
    para: usize,
    base: Seq<char>,
    pa: Seq<Paragraph>,
    pb: Seq<Paragraph>,
    k: int,
) -> Seq<Diff>
    decreases pa, k,
{
    if k <= 0 || k > pa.len() || k > pb.len() {
        Seq::empty()
    } else {
        cs_paras(sec, para, base, pa, pb, k - 1) + cs_paragraph(
            sec,
            para,
            idx_seg(base, (k - 1) as nat),
            pa[k - 1],
            pb[k - 1],
        )
    }
}

/// The differences of the cell pairs of two tables (first `m`).
pub open spec fn cs_cells(
    sec: usize,
    para: usize,
    base: Seq<char>,
    ca: Seq<crate::model::control::Cell>,
    cb: Seq<crate::model::control::Cell>,
    m: int,
) -> Seq<Diff>
    decreases ca, m,
{
    if m <= 0 || m > ca.len() || m > cb.len() {
        Seq::empty()
    } else {
        cs_cells(sec, para, base, ca, cb, m - 1) + cs_paras(
            sec,
            para,
            idx_seg(base, (m - 1) as nat) + ".p"@,
            ca[m - 1].paragraphs@,
            cb[m - 1].paragraphs@,
            min_len(ca[m - 1].paragraphs@.len(), cb[m - 1].paragraphs@.len()),
        )
    }
}

/// The differences of one control pair at index `ci`.
pub open spec fn cs_control_pair(
    sec: usize,
    para: usize,
    path: Seq<char>,
    ci: nat,
    a: Control,
    b: Control,
) -> Seq<Diff>
    decreases a, 0int,
{
    let base = path + idx_seg("/ctrl"@, ci);
    match (a, b) {
        (Control::Table(ta), Control::Table(tb)) => cs_table(sec, para, base, *ta, *tb),
        (Control::Picture(pa), Control::Picture(pb)) => cs_picture(sec, para, base, *pa, *pb),
        (Control::Equation(ea), Control::Equation(eb)) => {
            let p = base + "eq"@;
            entry(
                DiffKind::ObjectComment,
                sec,
                para,
                p,
                object_comment_detail(ea.common.description@, eb.common.description@),
            ) + entry(
                DiffKind::ObjectHoldAnchor,
                sec,
                para,
                p,
                flag_detail(ea.common.prevent_page_break, eb.common.prevent_page_break),
            ) + entry(
                DiffKind::ObjectFlowWithText,
                sec,
                para,
                p,
                flag_detail(ea.common.flow_with_text, eb.common.flow_with_text),
            )
        },
        (Control::Shape(sa), Control::Shape(sb)) => cs_shape(sec, para, base + "shape"@, *sa, *sb),
        (Control::Footnote(na), Control::Footnote(nb)) => cs_paras(
            sec,
            para,
            base + "fn.p"@,
            na.paragraphs@,
            nb.paragraphs@,
            min_len(na.paragraphs@.len(), nb.paragraphs@.len()),
        ),
        (Control::Endnote(na), Control::Endnote(nb)) => cs_paras(
            sec,
            para,
            base + "en.p"@,
            na.paragraphs@,
            nb.paragraphs@,
            min_len(na.paragraphs@.len(), nb.paragraphs@.len()),
        ),
        (Control::Field(fa), Control::Field(fb)) => field_entries(
            sec,
            para,
            base + "field"@,
            *fa,
            *fb,
        ) + cs_paras(
            sec,
            para,
            base + "field.memo.p"@,
            fa.memo_paragraphs@,
            fb.memo_paragraphs@,
            min_len(fa.memo_paragraphs@.len(), fb.memo_paragraphs@.len()),
        ),
        _ => Seq::empty(),
    }
}

/// The differences of a table pair located at `base`.
pub open spec fn cs_table(
    sec: usize,
    para: usize,
    base: Seq<char>,
    ta: crate::model::control::Table,
    tb: crate::model::control::Table,
) -> Seq<Diff>
    decreases ta, 0int,
{
    table_attr_entries(sec, para, base + "tbl"@, ta, tb) + cs_cells(
        sec,
        para,
        base + "tbl.cell"@,
        ta.cells@,
        tb.cells@,
        min_len(ta.cells@.len(), tb.cells@.len()),
    ) + entry(
        DiffKind::TableCaption,
        sec,
        para,
        base + "tbl.caption"@,
        caption_detail(ta.caption, tb.caption),
    ) + match (ta.caption, tb.caption) {
        (Some(x), Some(y)) => cs_paras(
            sec,
            para,
            base + "tbl.caption.p"@,
            x.paragraphs@,
            y.paragraphs@,
            min_len(x.paragraphs@.len(), y.paragraphs@.len()),
        ),
        _ => Seq::empty(),
    }
}

/// The page-break, anchor and text-flow entries of a table pair at `p`.
pub open spec fn table_attr_entries(
    sec: usize,
    para: usize,
    p: Seq<char>,
    ta: crate::model::control::Table,
    tb: crate::model::control::Table,
) -> Seq<Diff> {
    entry(DiffKind::TablePageBreak, sec, para, p, page_break_detail(ta.page_break, tb.page_break))
        + entry(
        DiffKind::ObjectHoldAnchor,
        sec,
        para,
        p,
        flag_detail(ta.common.prevent_page_break, tb.common.prevent_page_break),
    ) + entry(
        DiffKind::ObjectFlowWithText,
        sec,
        para,
        p,
        flag_detail(ta.common.flow_with_text, tb.common.flow_with_text),
    )
}

/// The differences of a picture pair located at `base`.
pub open spec fn cs_picture(sec: usize, para: usize, base: Seq<char>, pa: Picture, pb: Picture) -> Seq<
    Diff,
>
    decreases pa, 0int,
{
            let p = base + "pic"@;
            entry(DiffKind::PictureSize, sec, para, p, joined_detail(picture_size_parts(pa, pb))) + entry(DiffKind::ObjectCaption, sec, para, base + "pic.caption"@, caption_detail(pa.caption, pb.caption)) + entry(DiffKind::ObjectComment, sec, para, p, object_comment_detail(pa.common.description@, pb.common.description@)) + entry(DiffKind::ObjectHoldAnchor, sec, para, p, flag_detail(pa.common.prevent_page_break, pb.common.prevent_page_break)) + match (pa.caption, pb.caption) {
                (Some(x), Some(y)) => cs_paras(
                    sec,
                    para,
                    base + "pic.caption.p"@,
                    x.paragraphs@,
                    y.paragraphs@,
                    min_len(x.paragraphs@.len(), y.paragraphs@.len()),
                ),
                _ => Seq::empty(),
            }
        }

/// The differences of a drawing-object pair: text box paragraphs, caption,
/// description, and for groups the child objects.
pub open spec fn cs_shape(sec: usize, para: usize, path: Seq<char>, sa: ShapeObject, sb: ShapeObject) -> Seq<
    Diff,
>
    decreases sa, 0int,
{
    proof {
        lemma_shape_parts_smaller(sa);
    }
    let tb: Seq<Diff> = match (shape_text_box(sa), shape_text_box(sb)) {
        (Some(x), Some(y)) => cs_paras(
            sec,
            para,
            path + ".tb.p"@,
            x.paragraphs@,
            y.paragraphs@,
            min_len(x.paragraphs@.len(), y.paragraphs@.len()),
        ),
        _ => Seq::empty(),
    };
    let cap_paras: Seq<Diff> = match (shape_caption(sa), shape_caption(sb)) {
        (Some(x), Some(y)) => cs_paras(
            sec,
            para,
            path + ".caption.p"@,
            x.paragraphs@,
            y.paragraphs@,
            min_len(x.paragraphs@.len(), y.paragraphs@.len()),
        ),
        _ => Seq::empty(),
    };
    let children: Seq<Diff> = match (sa, sb) {
        (ShapeObject::Group(ga), ShapeObject::Group(gb)) => cs_children(
            sec,
            para,
            path + ".child"@,
            ga.children@,
            gb.children@,
            min_len(ga.children@.len(), gb.children@.len()),
        ),
        _ => Seq::empty(),
    };
    tb + entry(DiffKind::ObjectCaption, sec, para, path + ".caption"@, caption_detail(shape_caption(sa), shape_caption(sb))) + cap_paras + entry(DiffKind::ObjectComment, sec, para, path, object_comment_detail(shape_common(sa).description@, shape_common(sb).description@)) + children
}

/// The differences of the first `m` child-object pairs of two groups.
pub open spec fn cs_children(
    sec: usize,
    para: usize,
    base: Seq<char>,
    ca: Seq<ShapeObject>,
    cb: Seq<ShapeObject>,
    m: int,
) -> Seq<Diff>
    decreases ca, m,
{
    if m <= 0 || m > ca.len() || m > cb.len() {
        Seq::empty()
    } else {
        cs_children(sec, para, base, ca, cb, m - 1) + cs_shape(
            sec,
            para,
            idx_seg(base, (m - 1) as nat),
            ca[m - 1],
            cb[m - 1],
        )
    }
}

fn index_path(base: &str, k: usize) -> (r: String)
    ensures
        r@ == idx_seg(base@, k as nat),
{
    let mut r = String::new();
    push_index(&mut r, base, k);
    assert(r@ =~= idx_seg(base@, k as nat));
    r
}

fn concat_path(a: &str, b: &str) -> (r: String)
    ensures
        r@ == a@ + b@,
{
    let mut r = string_of(a);
    string_push_str(&mut r, b);
    r
}

fn min_usize(a: usize, b: usize) -> (r: usize)
    ensures
        r as int == min_len(a as nat, b as nat),
{
    if a < b {
        a
    } else {
        b
    }
}

fn diff_paras_cs(
    diff: &mut IrDiff,
    section: usize,
    paragraph: usize,
    base: &str,
    pas: &Vec<Paragraph>,
    pbs: &Vec<Paragraph>,
)
    ensures
        final(diff)@ == old(diff)@ + cs_paras(
            section,
            paragraph,
            base@,
            pas@,
            pbs@,
            min_len(pas@.len(), pbs@.len()),
        ),
    decreases pas@, 1int,
{
    let ghost start = diff@;
    let n = min_usize(pas.len(), pbs.len());
    for k in 0..n
        invariant
            n as int == min_len(pas@.len(), pbs@.len()),
            diff@ == start + cs_paras(section, paragraph, base@, pas@, pbs@, k as int),
    {
        let p = index_path(base, k);
        let ghost before = diff@;
        diff_paragraph_char_shapes(diff, section, paragraph, p.as_str(), &pas[k], &pbs[k]);
        assert(cs_paras(section, paragraph, base@, pas@, pbs@, k + 1) == cs_paras(section, paragraph, base@, pas@, pbs@, k as int) + cs_paragraph(section, paragraph, idx_seg(base@, k as nat), pas@[k as int], pbs@[k as int]));
        assert(diff@ == before + cs_paragraph(section, paragraph, idx_seg(base@, k as nat), pas@[k as int], pbs@[k as int]));
        assert(diff@ =~= start + cs_paras(section, paragraph, base@, pas@, pbs@, k + 1));
    }
}

fn diff_cells_cs(
    diff: &mut IrDiff,
    section: usize,
    paragraph: usize,
    base: &str,
    ca: &Vec<crate::model::control::Cell>,
    cb: &Vec<crate::model::control::Cell>,
)
    ensures
        final(diff)@ == old(diff)@ + cs_cells(
            section,
            paragraph,
            base@,
            ca@,
            cb@,
            min_len(ca@.len(), cb@.len()),
        ),
    decreases ca@, 1int,
{
    let ghost start = diff@;
    let n = min_usize(ca.len(), cb.len());
    for m in 0..n
        invariant
            n as int == min_len(ca@.len(), cb@.len()),
            diff@ == start + cs_cells(section, paragraph, base@, ca@, cb@, m as int),
    {
        let cell_base = index_path(base, m);
        let p = concat_path(cell_base.as_str(), ".p");
        diff_paras_cs(diff, section, paragraph, p.as_str(), &ca[m].paragraphs, &cb[m].paragraphs);
        assert(diff@ =~= start + cs_cells(section, paragraph, base@, ca@, cb@, m + 1));
    }
}

fn diff_children_cs(
    diff: &mut IrDiff,
    section: usize,
    paragraph: usize,
    base: &str,
    ca: &Vec<ShapeObject>,
    cb: &Vec<ShapeObject>,
)
    ensures
        final(diff)@ == old(diff)@ + cs_children(
            section,
            paragraph,
            base@,
            ca@,
            cb@,
            min_len(ca@.len(), cb@.len()),
        ),
    decreases ca@, 1int,
{
    let ghost start = diff@;
    let n = min_usize(ca.len(), cb.len());
    for m in 0..n
        invariant
            n as int == min_len(ca@.len(), cb@.len()),
            diff@ == start + cs_children(section, paragraph, base@, ca@, cb@, m as int),
    {
        let p = index_path(base, m);
        diff_shape_char_shapes(diff, section, paragraph, p.as_str(), &ca[m], &cb[m]);
        assert(diff@ =~= start + cs_children(section, paragraph, base@, ca@, cb@, m + 1));
    }
}

/// Compares the character-shape runs and the inline-slot control sequence of
/// a paragraph pair, then the object attributes and nested paragraphs of each
/// control pair matched by index (cells, captions, text boxes, notes, memos).
fn diff_paragraph_char_shapes(
    diff: &mut IrDiff,
    section: usize,
    paragraph: usize,
    path: &str,
    pa: &Paragraph,
    pb: &Paragraph,
)
    ensures
        final(diff)@ == old(diff)@ + cs_paragraph(section, paragraph, path@, *pa, *pb),
    decreases *pa, 1int,
{
    let ghost start = diff@;
    if !char_shapes_equal(&pa.char_shapes, &pb.char_shapes) {
        let expected = format_char_shapes(&pa.char_shapes);
        let actual = format_char_shapes(&pb.char_shapes);
        diff.push(
            IrDifference::ParagraphCharShapes {
                section,
                paragraph,
                path: string_of(path),
                expected,
                actual,
            },
        );
    }
    let sa = slot_type_names(&pa.controls);
    let sb = slot_type_names(&pb.controls);
    if !strings_equal(&sa, &sb) {
        let expected = format_names(&sa);
        let actual = format_names(&sb);
        diff.push(
            IrDifference::ParagraphControls {
                section,
                paragraph,
                path: string_of(path),
                expected,
                actual,
            },
        );
    }
    assert(diff@ =~= start + cs_own(section, paragraph, path@, *pa, *pb));
    let ghost own = diff@;
    let n = min_usize(pa.controls.len(), pb.controls.len());
    for ci in 0..n
        invariant
            n as int == min_len(pa.controls@.len(), pb.controls@.len()),
            diff@ == own + cs_controls(section, paragraph, path@, pa.controls@, pb.controls@, ci as int),
    {
        diff_control_pair_cs(diff, section, paragraph, path, ci, &pa.controls[ci], &pb.controls[ci]);
        assert(diff@ =~= own + cs_controls(
            section,
            paragraph,
            path@,
            pa.controls@,
            pb.controls@,
            ci + 1,
        ));
    }
    assert(diff@ =~= start + cs_paragraph(section, paragraph, path@, *pa, *pb));
}

#[verifier::spinoff_prover]
#[verifier::rlimit(40)]
fn diff_control_pair_cs(
    diff: &mut IrDiff,
    section: usize,
    paragraph: usize,
    path: &str,
    ci: usize,
    a: &Control,
    b: &Control,
)
    ensures
        final(diff)@ == old(diff)@ + cs_control_pair(section, paragraph, path@, ci as nat, *a, *b),
    decreases *a, 1int,
{
    let ghost start = diff@;
    let mut base = string_of(path);
    push_index(&mut base, "/ctrl", ci);
    match (a, b) {
        (Control::Table(ta), Control::Table(tb)) => {
            diff_table_cs(diff, section, paragraph, base.as_str(), ta, tb);
        },
        (Control::Picture(pia), Control::Picture(pib)) => {
            diff_picture_cs(diff, section, paragraph, base.as_str(), pia, pib);
        },
        (Control::Equation(ea), Control::Equation(eb)) => {
            let p = concat_path(base.as_str(), "eq");
            if let Some(d) = diff_object_comment(
                ea.common.description.as_str(),
                eb.common.description.as_str(),
            ) {
                diff.push(IrDifference::ObjectComment { section, paragraph, path: p.clone(), detail: d });
            }
            let ghost g1 = diff@;
            if let Some(d) = diff_hold_anchor(&ea.common, &eb.common) {
                diff.push(IrDifference::ObjectHoldAnchor { section, paragraph, path: p.clone(), detail: d });
            }
            let ghost g2 = diff@;
            if let Some(d) = diff_flow_with_text(&ea.common, &eb.common) {
                diff.push(IrDifference::ObjectFlowWithText { section, paragraph, path: p.clone(), detail: d });
            }
            assert(diff@ =~= start + cs_control_pair(section, paragraph, path@, ci as nat, *a, *b));
        },
        (Control::Shape(sa), Control::Shape(sb)) => {
            let p = concat_path(base.as_str(), "shape");
            diff_shape_char_shapes(diff, section, paragraph, p.as_str(), sa, sb);
        },
        (Control::Footnote(na), Control::Footnote(nb)) => {
            let p = concat_path(base.as_str(), "fn.p");
            diff_paras_cs(diff, section, paragraph, p.as_str(), &na.paragraphs, &nb.paragraphs);
        },
        (Control::Endnote(na), Control::Endnote(nb)) => {
            let p = concat_path(base.as_str(), "en.p");
            diff_paras_cs(diff, section, paragraph, p.as_str(), &na.paragraphs, &nb.paragraphs);
        },
        (Control::Field(fa), Control::Field(fb)) => {
            let p = concat_path(base.as_str(), "field");
            if !opt_strings_equal(&fa.raw_parameters_xml, &fb.raw_parameters_xml) {
                let mut d = string_of("parameters: expected=");
                push_opt_str_debug(&mut d, &fa.raw_parameters_xml);
                string_push_str(&mut d, " actual=");
                push_opt_str_debug(&mut d, &fb.raw_parameters_xml);
                diff.push(IrDifference::FieldContent { section, paragraph, path: p.clone(), detail: d });
            }
            let ghost g1 = diff@;
            if fa.memo_paragraphs.len() != fb.memo_paragraphs.len() {
                let mut d = string_of("memo paragraphs: expected=");
                push_decimal(&mut d, fa.memo_paragraphs.len() as u64);
                string_push_str(&mut d, " actual=");
                push_decimal(&mut d, fb.memo_paragraphs.len() as u64);
                diff.push(IrDifference::FieldContent { section, paragraph, path: p.clone(), detail: d });
            }
            let ghost g2 = diff@;
            assert(g2 =~= start + field_entries(section, paragraph, p@, **fa, **fb));
            let mp = concat_path(base.as_str(), "field.memo.p");
            diff_paras_cs(
                diff,
                section,
                paragraph,
                mp.as_str(),
                &fa.memo_paragraphs,
                &fb.memo_paragraphs,
            );
            assert(diff@ =~= start + cs_control_pair(section, paragraph, path@, ci as nat, *a, *b));
        },
        _ => {
            assert(diff@ =~= start + cs_control_pair(section, paragraph, path@, ci as nat, *a, *b));
        },
    }
}

fn page_break_diff(a: TablePageBreak, b: TablePageBreak) -> (r: Option<String>)
    ensures
        opt_view(r) == page_break_detail(a, b),
{
    if a != b {
        let mut d = string_of("expected=");
        push_page_break_debug(&mut d, a);
        string_push_str(&mut d, " actual=");
        push_page_break_debug(&mut d, b);
        Some(d)
    } else {
        None
    }
}

fn table_attrs(
    diff: &mut IrDiff,
    section: usize,
    paragraph: usize,
    base: &str,
    ta: &Box<crate::model::control::Table>,
    tb: &Box<crate::model::control::Table>,
)
    ensures
        final(diff)@ == old(diff)@ + table_attr_entries(section, paragraph, base@ + "tbl"@, **ta, **tb),
{
    let ghost start = diff@;
    let p = concat_path(base, "tbl");
    push_entry(diff, DiffKind::TablePageBreak, section, paragraph, p.as_str(), page_break_diff(ta.page_break, tb.page_break));
    push_entry(diff, DiffKind::ObjectHoldAnchor, section, paragraph, p.as_str(), diff_hold_anchor(&ta.common, &tb.common));
    push_entry(diff, DiffKind::ObjectFlowWithText, section, paragraph, p.as_str(), diff_flow_with_text(&ta.common, &tb.common));
    assert(diff@ =~= start + table_attr_entries(section, paragraph, base@ + "tbl"@, **ta, **tb));
}

#[verifier::spinoff_prover]
fn diff_table_cs(
    diff: &mut IrDiff,
    section: usize,
    paragraph: usize,
    base: &str,
    ta: &Box<crate::model::control::Table>,
    tb: &Box<crate::model::control::Table>,
)
    ensures
        final(diff)@ == old(diff)@ + cs_table(section, paragraph, base@, **ta, **tb),
    decreases **ta, 1int,
{
    let ghost start = diff@;
    table_attrs(diff, section, paragraph, base, ta, tb);
    let ghost g3 = diff@;
    let cells_base = concat_path(base, "tbl.cell");
    diff_cells_cs(diff, section, paragraph, cells_base.as_str(), &ta.cells, &tb.cells);
    let ghost g4 = diff@;
    let cp = concat_path(base, "tbl.caption");
    push_entry(diff, DiffKind::TableCaption, section, paragraph, cp.as_str(), diff_table_caption(&ta.caption, &tb.caption));
    let ghost g5 = diff@;
    match (&ta.caption, &tb.caption) {
        (Some(x), Some(y)) => {
            let cpp = concat_path(base, "tbl.caption.p");
            diff_paras_cs(diff, section, paragraph, cpp.as_str(), &x.paragraphs, &y.paragraphs);
        },
        _ => {
            assert(diff@ =~= g5 + Seq::<Diff>::empty());
        },
    }
    proof {
        lemma_table_steps(section, paragraph, base@, **ta, **tb, start, g3, g4, g5, diff@);
    }
}

#[verifier::spinoff_prover]
proof fn lemma_table_steps(
    sec: usize,
    para: usize,
    base: Seq<char>,
    ta: crate::model::control::Table,
    tb: crate::model::control::Table,
    start: Seq<Diff>,
    g3: Seq<Diff>,
    g4: Seq<Diff>,
    g5: Seq<Diff>,
    fin: Seq<Diff>,
)
    requires
        g3 == start + table_attr_entries(sec, para, base + "tbl"@, ta, tb),
        g4 == g3 + cs_cells(
            sec,
            para,
            base + "tbl.cell"@,
            ta.cells@,
            tb.cells@,
            min_len(ta.cells@.len(), tb.cells@.len()),
        ),
        g5 == g4 + entry(
            DiffKind::TableCaption,
            sec,
            para,
            base + "tbl.caption"@,
            caption_detail(ta.caption, tb.caption),
        ),
        fin == g5 + match (ta.caption, tb.caption) {
            (Some(x), Some(y)) => cs_paras(
                sec,
                para,
                base + "tbl.caption.p"@,
                x.paragraphs@,
                y.paragraphs@,
                min_len(x.paragraphs@.len(), y.paragraphs@.len()),
            ),
            _ => Seq::empty(),
        },
    ensures
        fin == start + cs_table(sec, para, base, ta, tb),
{
    let a = table_attr_entries(sec, para, base + "tbl"@, ta, tb);
    let b = cs_cells(
        sec,
        para,
        base + "tbl.cell"@,
        ta.cells@,
        tb.cells@,
        min_len(ta.cells@.len(), tb.cells@.len()),
    );
    let c = entry(
        DiffKind::TableCaption,
        sec,
        para,
        base + "tbl.caption"@,
        caption_detail(ta.caption, tb.caption),
    );
    let d = match (ta.caption, tb.caption) {
        (Some(x), Some(y)) => cs_paras(
            sec,
            para,
            base + "tbl.caption.p"@,
            x.paragraphs@,
            y.paragraphs@,
            min_len(x.paragraphs@.len(), y.paragraphs@.len()),
        ),
        _ => Seq::empty(),
    };
    assert(cs_table(sec, para, base, ta, tb) == a + b + c + d);
    lemma_chain4(start, a, b, c, d, g3, g4, g5, fin);
}

#[verifier::spinoff_prover]
#[verifier::rlimit(80)]
fn diff_picture_cs(
    diff: &mut IrDiff,
    section: usize,
    paragraph: usize,
    base: &str,
    pia: &Box<Picture>,
    pib: &Box<Picture>,
)
    ensures
        final(diff)@ == old(diff)@ + cs_picture(section, paragraph, base@, **pia, **pib),
    decreases **pia, 1int,
{
    let ghost start = diff@;
    let p = concat_path(base, "pic");
    push_entry(diff, DiffKind::PictureSize, section, paragraph, p.as_str(), diff_picture_size(pia, pib));
    let cp = concat_path(base, "pic.caption");
    push_entry(diff, DiffKind::ObjectCaption, section, paragraph, cp.as_str(), diff_table_caption(&pia.caption, &pib.caption));
    push_entry(diff, DiffKind::ObjectComment, section, paragraph, p.as_str(), diff_object_comment(pia.common.description.as_str(), pib.common.description.as_str()));
    push_entry(diff, DiffKind::ObjectHoldAnchor, section, paragraph, p.as_str(), diff_hold_anchor(&pia.common, &pib.common));
    let ghost g4 = diff@;
    match (&pia.caption, &pib.caption) {
        (Some(x), Some(y)) => {
            let cpp = concat_path(base, "pic.caption.p");
            diff_paras_cs(diff, section, paragraph, cpp.as_str(), &x.paragraphs, &y.paragraphs);
        },
        _ => {
            assert(diff@ =~= g4 + Seq::<Diff>::empty());
        },
    }
    assert(diff@ =~= start + cs_picture(section, paragraph, base@, **pia, **pib));
}

/// Compares a drawing-object pair: text box paragraphs, caption (presence,
/// attributes, paragraphs), description, and for groups the child objects.
#[verifier::spinoff_prover]
fn diff_shape_char_shapes(
    diff: &mut IrDiff,
    section: usize,
    paragraph: usize,
    path: &str,
    sa: &ShapeObject,
    sb: &ShapeObject,
)
    ensures
        final(diff)@ == old(diff)@ + cs_shape(section, paragraph, path@, *sa, *sb),
    decreases *sa, 1int,
{
    let ghost start = diff@;
    proof {
        lemma_shape_parts_smaller(*sa);
    }
    match (shape_text_box_ref(sa), shape_text_box_ref(sb)) {
        (Some(ta), Some(tb)) => {
            let p = concat_path(path, ".tb.p");
            diff_paras_cs(diff, section, paragraph, p.as_str(), &ta.paragraphs, &tb.paragraphs);
        },
        _ => {
            assert(diff@ =~= start + Seq::<Diff>::empty());
        },
    }
    let ghost g1 = diff@;
    let capa = shape_caption_ref(sa);
    let capb = shape_caption_ref(sb);
    let cp = concat_path(path, ".caption");
    push_entry(diff, DiffKind::ObjectCaption, section, paragraph, cp.as_str(), diff_table_caption(capa, capb));
    let ghost g2 = diff@;
    match (capa, capb) {
        (Some(ca), Some(cb)) => {
            let p = concat_path(path, ".caption.p");
            diff_paras_cs(diff, section, paragraph, p.as_str(), &ca.paragraphs, &cb.paragraphs);
        },
        _ => {
            assert(diff@ =~= g2 + Seq::<Diff>::empty());
        },
    }
    let ghost g3 = diff@;
    let comment = diff_object_comment(
        shape_common_ref(sa).description.as_str(),
        shape_common_ref(sb).description.as_str(),
    );
    push_entry(diff, DiffKind::ObjectComment, section, paragraph, path, comment);
    let ghost g4 = diff@;
    match (sa, sb) {
        (ShapeObject::Group(ga), ShapeObject::Group(gb)) => {
            let p = concat_path(path, ".child");
            diff_children_cs(diff, section, paragraph, p.as_str(), &ga.children, &gb.children);
        },
        _ => {
            assert(diff@ =~= g4 + Seq::<Diff>::empty());
        },
    }
    proof {
        lemma_shape_steps(section, paragraph, path@, *sa, *sb, start, g1, g2, g3, g4, diff@);
    }
}

#[verifier::spinoff_prover]
proof fn lemma_shape_steps(
    sec: usize,
    para: usize,
    path: Seq<char>,
    sa: ShapeObject,
    sb: ShapeObject,
    start: Seq<Diff>,
    g1: Seq<Diff>,
    g2: Seq<Diff>,
    g3: Seq<Diff>,
    g4: Seq<Diff>,
    fin: Seq<Diff>,
)
    requires
        g1 == start + match (shape_text_box(sa), shape_text_box(sb)) {
            (Some(x), Some(y)) => cs_paras(
                sec,
                para,
                path + ".tb.p"@,
                x.paragraphs@,
                y.paragraphs@,
                min_len(x.paragraphs@.len(), y.paragraphs@.len()),
            ),
            _ => Seq::empty(),
        },
        g2 == g1 + entry(
            DiffKind::ObjectCaption,
            sec,
            para,
            path + ".caption"@,
            caption_detail(shape_caption(sa), shape_caption(sb)),
        ),
        g3 == g2 + match (shape_caption(sa), shape_caption(sb)) {
            (Some(x), Some(y)) => cs_paras(
                sec,
                para,
                path + ".caption.p"@,
                x.paragraphs@,
                y.paragraphs@,
                min_len(x.paragraphs@.len(), y.paragraphs@.len()),
            ),
            _ => Seq::empty(),
        },
        g4 == g3 + entry(
            DiffKind::ObjectComment,
            sec,
            para,
            path,
            object_comment_detail(shape_common(sa).description@, shape_common(sb).description@),
        ),
        fin == g4 + match (sa, sb) {
            (ShapeObject::Group(ga), ShapeObject::Group(gb)) => cs_children(
                sec,
                para,
                path + ".child"@,
                ga.children@,
                gb.children@,
                min_len(ga.children@.len(), gb.children@.len()),
            ),
            _ => Seq::empty(),
        },
    ensures
        fin == start + cs_shape(sec, para, path, sa, sb),
{
    let a = match (shape_text_box(sa), shape_text_box(sb)) {
        (Some(x), Some(y)) => cs_paras(
            sec,
            para,
            path + ".tb.p"@,
            x.paragraphs@,
            y.paragraphs@,
            min_len(x.paragraphs@.len(), y.paragraphs@.len()),
        ),
        _ => Seq::empty(),
    };
    let b = entry(
        DiffKind::ObjectCaption,
        sec,
        para,
        path + ".caption"@,
        caption_detail(shape_caption(sa), shape_caption(sb)),
    );
    let c = match (shape_caption(sa), shape_caption(sb)) {
        (Some(x), Some(y)) => cs_paras(
            sec,
            para,
            path + ".caption.p"@,
            x.paragraphs@,
            y.paragraphs@,
            min_len(x.paragraphs@.len(), y.paragraphs@.len()),
        ),
        _ => Seq::empty(),
    };
    let d = entry(
        DiffKind::ObjectComment,
        sec,
        para,
        path,
        object_comment_detail(shape_common(sa).description@, shape_common(sb).description@),
    );
    let e = match (sa, sb) {
        (ShapeObject::Group(ga), ShapeObject::Group(gb)) => cs_children(
            sec,
            para,
            path + ".child"@,
            ga.children@,
            gb.children@,
            min_len(ga.children@.len(), gb.children@.len()),
        ),
        _ => Seq::empty(),
    };
    assert(cs_shape(sec, para, path, sa, sb) == a + b + c + d + e);
    lemma_chain5(start, a, b, c, d, e, g1, g2, g3, g4, fin);
}

// ---------------------------------------------------------------------------
// Line segments
// ---------------------------------------------------------------------------

/// The kind of a line-segment mismatch.
#[allow(inconsistent_fields)]
pub enum LinesegDiffKind {
    /// The paragraphs hold different numbers of line segments.
    CountMismatch { expected: usize, actual: usize },
    /// A field of the segment at `index` differs; `field` is the HWPX attribute name.
    ValueMismatch { index: usize, field: &'static str, expected: i64, actual: i64 },
}

/// The value of a `LinesegDiffKind`.
#[allow(inconsistent_fields)]
pub enum LsKind {
    CountMismatch { expected: usize, actual: usize },
    ValueMismatch { index: usize, field: Seq<char>, expected: i64, actual: i64 },
}

impl View for LinesegDiffKind {
    type V = LsKind;

    open spec fn view(&self) -> LsKind {
        match self {
            LinesegDiffKind::CountMismatch { expected, actual } => LsKind::CountMismatch {
                expected: *expected,
                actual: *actual,
            },
            LinesegDiffKind::ValueMismatch { index, field, expected, actual } =>
                LsKind::ValueMismatch {
                index: *index,
                field: field@,
                expected: *expected,
                actual: *actual,
            },
        }
    }
}

/// One line-segment mismatch of a paragraph, located like `ParagraphCharShapes`.
pub struct LinesegDiff {
    pub section: usize,
    pub paragraph: usize,
    pub path: String,
    pub kind: LinesegDiffKind,
}

/// The value of a `LinesegDiff`.
pub struct LsDiff {
    pub section: usize,
    pub paragraph: usize,
    pub path: Seq<char>,
    pub kind: LsKind,
}

impl View for LinesegDiff {
    type V = LsDiff;

    open spec fn view(&self) -> LsDiff {
        LsDiff { section: self.section, paragraph: self.paragraph, path: self.path@, kind: self.kind@ }
    }
}

/// The values of a list of line-segment mismatches.
pub open spec fn ls_views(v: Seq<LinesegDiff>) -> Seq<LsDiff> {
    v.map_values(|d: LinesegDiff| d@)
}

fn push_ls(out: &mut Vec<LinesegDiff>, d: LinesegDiff)
    ensures
        ls_views(final(out)@) == ls_views(old(out)@).push(d@),
{
    let ghost v = out@;
    out.push(d);
    assert(ls_views(out@) =~= ls_views(v).push(d@));
}

/// The rendering of a mismatch kind.
pub open spec fn ls_kind_text(k: LsKind) -> Seq<char> {
    match k {
        LsKind::CountMismatch { expected, actual } => "count: expected="@ + decimal(expected as nat)
            + " actual="@ + decimal(actual as nat),
        LsKind::ValueMismatch { index, field, expected, actual } => "["@ + decimal(index as nat)
            + "]."@ + field + ": expected="@ + signed_decimal(expected as int) + " actual="@
            + signed_decimal(actual as int),
    }
}

impl LinesegDiffKind {
    /// `count: expected=.. actual=..` or `[i].field: expected=.. actual=..`.
    pub fn to_string(&self) -> (s: String)
        ensures
            s@ == ls_kind_text(self@),
    {
        let mut s = String::new();
        match self {
            LinesegDiffKind::CountMismatch { expected, actual } => {
                string_push_str(&mut s, "count: expected=");
                push_decimal(&mut s, *expected as u64);
                string_push_str(&mut s, " actual=");
                push_decimal(&mut s, *actual as u64);
            },
            LinesegDiffKind::ValueMismatch { index, field, expected, actual } => {
                string_push_str(&mut s, "[");
                push_decimal(&mut s, *index as u64);
                string_push_str(&mut s, "].");
                string_push_str(&mut s, field);
                string_push_str(&mut s, ": expected=");
                push_signed_decimal(&mut s, *expected);
                string_push_str(&mut s, " actual=");
                push_signed_decimal(&mut s, *actual);
            },
        }
        assert(s@ =~= ls_kind_text(self@));
        s
    }
}

/// One field mismatch entry when `ea != eb`.
pub open spec fn field_entry(
    sec: usize,
    para: usize,
    path: Seq<char>,
    index: usize,
    name: Seq<char>,
    ea: i64,
    eb: i64,
) -> Seq<LsDiff> {
    if ea == eb {
        Seq::empty()
    } else {
        seq![
            LsDiff {
                section: sec,
                paragraph: para,
                path,
                kind: LsKind::ValueMismatch { index, field: name, expected: ea, actual: eb },
            },
        ]
    }
}

/// The field mismatches of one segment pair, in the order textpos, vertpos,
/// vertsize, textheight, baseline, spacing, horzpos, horzsize, flags.
pub open spec fn seg_fields(sec: usize, para: usize, path: Seq<char>, index: usize, a: LineSeg, b: LineSeg) -> Seq<
    LsDiff,
> {
    field_entry(sec, para, path, index, "textpos"@, a.text_start as i64, b.text_start as i64)
        + field_entry(sec, para, path, index, "vertpos"@, a.vertical_pos as i64, b.vertical_pos as i64)
        + field_entry(sec, para, path, index, "vertsize"@, a.line_height as i64, b.line_height as i64)
        + field_entry(sec, para, path, index, "textheight"@, a.text_height as i64, b.text_height as i64)
        + field_entry(sec, para, path, index, "baseline"@, a.baseline_distance as i64, b.baseline_distance as i64)
        + field_entry(sec, para, path, index, "spacing"@, a.line_spacing as i64, b.line_spacing as i64)
        + field_entry(sec, para, path, index, "horzpos"@, a.column_start as i64, b.column_start as i64)
        + field_entry(sec, para, path, index, "horzsize"@, a.segment_width as i64, b.segment_width as i64)
        + field_entry(sec, para, path, index, "flags"@, a.tag as i64, b.tag as i64)
}

/// The field mismatches of the first `n` segment pairs.
pub open spec fn ls_segs(sec: usize, para: usize, path: Seq<char>, la: Seq<LineSeg>, lb: Seq<LineSeg>, n: int) -> Seq<
    LsDiff,
>
    decreases n,
{
    if n <= 0 || n > la.len() || n > lb.len() {
        Seq::empty()
    } else {
        ls_segs(sec, para, path, la, lb, n - 1) + seg_fields(sec, para, path, (n - 1) as usize, la[n - 1], lb[n - 1])
    }
}

fn push_field(
    out: &mut Vec<LinesegDiff>,
    section: usize,
    paragraph: usize,
    path: &str,
    index: usize,
    name: &'static str,
    ea: i64,
    eb: i64,
)
    ensures
        ls_views(final(out)@) == ls_views(old(out)@) + field_entry(section, paragraph, path@, index, name@, ea, eb),
{
    if ea != eb {
        push_ls(
            out,
            LinesegDiff {
                section,
                paragraph,
                path: string_of(path),
                kind: LinesegDiffKind::ValueMismatch { index, field: name, expected: ea, actual: eb },
            },
        );
    } else {
        assert(ls_views(out@) =~= ls_views(out@) + Seq::<LsDiff>::empty());
    }
}

fn seg_field_diffs(
    out: &mut Vec<LinesegDiff>,
    section: usize,
    paragraph: usize,
    path: &str,
    index: usize,
    sa: &LineSeg,
    sb: &LineSeg,
)
    ensures
        ls_views(final(out)@) == ls_views(old(out)@) + seg_fields(section, paragraph, path@, index, *sa, *sb),
{
    let ghost start = ls_views(out@);
    push_field(out, section, paragraph, path, index, "textpos", sa.text_start as i64, sb.text_start as i64);
    push_field(out, section, paragraph, path, index, "vertpos", sa.vertical_pos as i64, sb.vertical_pos as i64);
    push_field(out, section, paragraph, path, index, "vertsize", sa.line_height as i64, sb.line_height as i64);
    push_field(out, section, paragraph, path, index, "textheight", sa.text_height as i64, sb.text_height as i64);
    push_field(out, section, paragraph, path, index, "baseline", sa.baseline_distance as i64, sb.baseline_distance as i64);
    push_field(out, section, paragraph, path, index, "spacing", sa.line_spacing as i64, sb.line_spacing as i64);
    push_field(out, section, paragraph, path, index, "horzpos", sa.column_start as i64, sb.column_start as i64);
    push_field(out, section, paragraph, path, index, "horzsize", sa.segment_width as i64, sb.segment_width as i64);
    push_field(out, section, paragraph, path, index, "flags", sa.tag as i64, sb.tag as i64);
    assert(ls_views(out@) =~= start + seg_fields(section, paragraph, path@, index, *sa, *sb));
}

/// The count mismatch of a paragraph's segments, if any.
pub open spec fn ls_count(sec: usize, para: usize, path: Seq<char>, la: Seq<LineSeg>, lb: Seq<LineSeg>) -> Seq<
    LsDiff,
> {
    if la.len() == lb.len() {
        Seq::empty()
    } else {
        seq![
            LsDiff {
                section: sec,
                paragraph: para,
                path,
                kind: LsKind::CountMismatch { expected: la.len() as usize, actual: lb.len() as usize },
            },
        ]
    }
}

/// All line-segment mismatches of a paragraph pair and of the paragraphs
/// nested in its controls.
pub open spec fn ls_paragraph(sec: usize, para: usize, path: Seq<char>, pa: Paragraph, pb: Paragraph) -> Seq<
    LsDiff,
>
    decreases pa, 0int,
{
    ls_count(sec, para, path, pa.line_segs@, pb.line_segs@) + ls_segs(
        sec,
        para,
        path,
        pa.line_segs@,
        pb.line_segs@,
        min_len(pa.line_segs@.len(), pb.line_segs@.len()),
    ) + ls_controls(sec, para, path, pa.controls@, pb.controls@, min_len(pa.controls@.len(), pb.controls@.len()))
}

/// The mismatches of the first `n` control pairs.
pub open spec fn ls_controls(sec: usize, para: usize, path: Seq<char>, ca: Seq<Control>, cb: Seq<Control>, n: int) -> Seq<
    LsDiff,
>
    decreases ca, n,
{
    if n <= 0 || n > ca.len() || n > cb.len() {
        Seq::empty()
    } else {
        ls_controls(sec, para, path, ca, cb, n - 1) + ls_control_pair(sec, para, path, (n - 1) as nat, ca[n - 1], cb[n - 1])
    }
}

/// The mismatches of the first `k` paragraph pairs of two lists, the `k`-th at `base[k]`.
pub open spec fn ls_paras(sec: usize, para: usize, base: Seq<char>, pa: Seq<Paragraph>, pb: Seq<Paragraph>, k: int) -> Seq<
    LsDiff,
>
    decreases pa, k,
{
    if k <= 0 || k > pa.len() || k > pb.len() {
        Seq::empty()
    } else {
        ls_paras(sec, para, base, pa, pb, k - 1) + ls_paragraph(sec, para, idx_seg(base, (k - 1) as nat), pa[k - 1], pb[k - 1])
    }
}

/// The mismatches of the first `m` cell pairs.
pub open spec fn ls_cells(
    sec: usize,
    para: usize,
    base: Seq<char>,
    ca: Seq<crate::model::control::Cell>,
    cb: Seq<crate::model::control::Cell>,
    m: int,
) -> Seq<LsDiff>
    decreases ca, m,
{
    if m <= 0 || m > ca.len() || m > cb.len() {
        Seq::empty()
    } else {
        ls_cells(sec, para, base, ca, cb, m - 1) + ls_paras(
            sec,
            para,
            idx_seg(base, (m - 1) as nat) + ".p"@,
            ca[m - 1].paragraphs@,
            cb[m - 1].paragraphs@,
            min_len(ca[m - 1].paragraphs@.len(), cb[m - 1].paragraphs@.len()),
        )
    }
}

/// The paragraph mismatches of two optional captions (only when both exist).
pub open spec fn ls_captions(sec: usize, para: usize, base: Seq<char>, a: Option<Caption>, b: Option<Caption>) -> Seq<
    LsDiff,
>
    decreases a, 0int,
{
    match (a, b) {
        (Some(x), Some(y)) => ls_paras(
            sec,
            para,
            base,
            x.paragraphs@,
            y.paragraphs@,
            min_len(x.paragraphs@.len(), y.paragraphs@.len()),
        ),
        _ => Seq::empty(),
    }
}

/// The mismatches of one control pair at index `ci`.
pub open spec fn ls_control_pair(sec: usize, para: usize, path: Seq<char>, ci: nat, a: Control, b: Control) -> Seq<
    LsDiff,
>
    decreases a, 0int,
{
    let base = path + idx_seg("/ctrl"@, ci);
    match (a, b) {
        (Control::Table(ta), Control::Table(tb)) => ls_cells(
            sec,
            para,
            base + "tbl.cell"@,
            ta.cells@,
            tb.cells@,
            min_len(ta.cells@.len(), tb.cells@.len()),
        ) + ls_captions(sec, para, base + "tbl.caption.p"@, ta.caption, tb.caption),
        (Control::Picture(pa), Control::Picture(pb)) => ls_captions(
            sec,
            para,
            base + "pic.caption.p"@,
            pa.caption,
            pb.caption,
        ),
        (Control::Shape(sa), Control::Shape(sb)) => ls_shape(sec, para, base + "shape"@, *sa, *sb),
        (Control::Footnote(na), Control::Footnote(nb)) => ls_paras(
            sec,
            para,
            base + "fn.p"@,
            na.paragraphs@,
            nb.paragraphs@,
            min_len(na.paragraphs@.len(), nb.paragraphs@.len()),
        ),
        (Control::Endnote(na), Control::Endnote(nb)) => ls_paras(
            sec,
            para,
            base + "en.p"@,
            na.paragraphs@,
            nb.paragraphs@,
            min_len(na.paragraphs@.len(), nb.paragraphs@.len()),
        ),
        (Control::Field(fa), Control::Field(fb)) => ls_paras(
            sec,
            para,
            base + "field.memo.p"@,
            fa.memo_paragraphs@,
            fb.memo_paragraphs@,
            min_len(fa.memo_paragraphs@.len(), fb.memo_paragraphs@.len()),
        ),
        _ => Seq::empty(),
    }
}

/// The mismatches of a drawing-object pair: text box and caption paragraphs,
/// and for groups the child objects.
pub open spec fn ls_shape(sec: usize, para: usize, path: Seq<char>, sa: ShapeObject, sb: ShapeObject) -> Seq<
    LsDiff,
>
    decreases sa, 0int,
{
    proof {
        lemma_shape_parts_smaller(sa);
    }
    let tb: Seq<LsDiff> = match (shape_text_box(sa), shape_text_box(sb)) {
        (Some(x), Some(y)) => ls_paras(
            sec,
            para,
            path + ".tb.p"@,
            x.paragraphs@,
            y.paragraphs@,
            min_len(x.paragraphs@.len(), y.paragraphs@.len()),
        ),
        _ => Seq::empty(),
    };
    let cap: Seq<LsDiff> = match (shape_caption(sa), shape_caption(sb)) {
        (Some(x), Some(y)) => ls_paras(
            sec,
            para,
            path + ".caption.p"@,
            x.paragraphs@,
            y.paragraphs@,
            min_len(x.paragraphs@.len(), y.paragraphs@.len()),
        ),
        _ => Seq::empty(),
    };
    let children: Seq<LsDiff> = match (sa, sb) {
        (ShapeObject::Group(ga), ShapeObject::Group(gb)) => ls_children(
            sec,
            para,
            path + ".child"@,
            ga.children@,
            gb.children@,
            min_len(ga.children@.len(), gb.children@.len()),
        ),
        _ => Seq::empty(),
    };
    tb + cap + children
}

/// The mismatches of the first `m` child-object pairs.
pub open spec fn ls_children(
    sec: usize,
    para: usize,
    base: Seq<char>,
    ca: Seq<ShapeObject>,
    cb: Seq<ShapeObject>,
    m: int,
) -> Seq<LsDiff>
    decreases ca, m,
{
    if m <= 0 || m > ca.len() || m > cb.len() {
        Seq::empty()
    } else {
        ls_children(sec, para, base, ca, cb, m - 1) + ls_shape(sec, para, idx_seg(base, (m - 1) as nat), ca[m - 1], cb[m - 1])
    }
}

fn ls_paras_exec(
    out: &mut Vec<LinesegDiff>,
    section: usize,
    paragraph: usize,
    base: &str,
    pas: &Vec<Paragraph>,
    pbs: &Vec<Paragraph>,
)
    ensures
        ls_views(final(out)@) == ls_views(old(out)@) + ls_paras(
            section,
            paragraph,
            base@,
            pas@,
            pbs@,
            min_len(pas@.len(), pbs@.len()),
        ),
    decreases pas@, 1int,
{
    let ghost start = ls_views(out@);
    let n = min_usize(pas.len(), pbs.len());
    for k in 0..n
        invariant
            n as int == min_len(pas@.len(), pbs@.len()),
            ls_views(out@) == start + ls_paras(section, paragraph, base@, pas@, pbs@, k as int),
    {
        let p = index_path(base, k);
        diff_paragraph_linesegs(out, section, paragraph, p.as_str(), &pas[k], &pbs[k]);
        assert(ls_views(out@) =~= start + ls_paras(section, paragraph, base@, pas@, pbs@, k + 1));
    }
}

fn ls_cells_exec(
    out: &mut Vec<LinesegDiff>,
    section: usize,
    paragraph: usize,
    base: &str,
    ca: &Vec<crate::model::control::Cell>,
    cb: &Vec<crate::model::control::Cell>,
)
    ensures
        ls_views(final(out)@) == ls_views(old(out)@) + ls_cells(
            section,
            paragraph,
            base@,
            ca@,
            cb@,
            min_len(ca@.len(), cb@.len()),
        ),
    decreases ca@, 1int,
{
    let ghost start = ls_views(out@);
    let n = min_usize(ca.len(), cb.len());
    for m in 0..n
        invariant
            n as int == min_len(ca@.len(), cb@.len()),
            ls_views(out@) == start + ls_cells(section, paragraph, base@, ca@, cb@, m as int),
    {
        let cell_base = index_path(base, m);
        let p = concat_path(cell_base.as_str(), ".p");
        ls_paras_exec(out, section, paragraph, p.as_str(), &ca[m].paragraphs, &cb[m].paragraphs);
        assert(ls_views(out@) =~= start + ls_cells(section, paragraph, base@, ca@, cb@, m + 1));
    }
}

fn ls_captions_exec(
    out: &mut Vec<LinesegDiff>,
    section: usize,
    paragraph: usize,
    base: &str,
    a: &Option<Caption>,
    b: &Option<Caption>,
)
    ensures
        ls_views(final(out)@) == ls_views(old(out)@) + ls_captions(section, paragraph, base@, *a, *b),
    decreases *a, 1int,
{
    match (a, b) {
        (Some(x), Some(y)) => {
            ls_paras_exec(out, section, paragraph, base, &x.paragraphs, &y.paragraphs);
        },
        _ => {
            assert(ls_views(out@) =~= ls_views(out@) + Seq::<LsDiff>::empty());
        },
    }
}

fn ls_children_exec(
    out: &mut Vec<LinesegDiff>,
    section: usize,
    paragraph: usize,
    base: &str,
    ca: &Vec<ShapeObject>,
    cb: &Vec<ShapeObject>,
)
    ensures
        ls_views(final(out)@) == ls_views(old(out)@) + ls_children(
            section,
            paragraph,
            base@,
            ca@,
            cb@,
            min_len(ca@.len(), cb@.len()),
        ),
    decreases ca@, 1int,
{
    let ghost start = ls_views(out@);
    let n = min_usize(ca.len(), cb.len());
    for m in 0..n
        invariant
            n as int == min_len(ca@.len(), cb@.len()),
            ls_views(out@) == start + ls_children(section, paragraph, base@, ca@, cb@, m as int),
    {
        let p = index_path(base, m);
        diff_shape_linesegs(out, section, paragraph, p.as_str(), &ca[m], &cb[m]);
        assert(ls_views(out@) =~= start + ls_children(section, paragraph, base@, ca@, cb@, m + 1));
    }
}

/// Compares the line segments of a paragraph pair (count, then the nine
/// fields of each common index), then the paragraphs nested in its controls.
fn diff_paragraph_linesegs(
    out: &mut Vec<LinesegDiff>,
    section: usize,
    paragraph: usize,
    path: &str,
    pa: &Paragraph,
    pb: &Paragraph,
)
    ensures
        ls_views(final(out)@) == ls_views(old(out)@) + ls_paragraph(section, paragraph, path@, *pa, *pb),
    decreases *pa, 1int,
{
    let ghost start = ls_views(out@);
    let la = &pa.line_segs;
    let lb = &pb.line_segs;
    if la.len() != lb.len() {
        push_ls(
            out,
            LinesegDiff {
                section,
                paragraph,
                path: string_of(path),
                kind: LinesegDiffKind::CountMismatch { expected: la.len(), actual: lb.len() },
            },
        );
    }
    let ghost g1 = ls_views(out@);
    assert(g1 =~= start + ls_count(section, paragraph, path@, la@, lb@));
    let n = min_usize(la.len(), lb.len());
    for idx in 0..n
        invariant
            n as int == min_len(la@.len(), lb@.len()),
            ls_views(out@) == g1 + ls_segs(section, paragraph, path@, la@, lb@, idx as int),
    {
        seg_field_diffs(out, section, paragraph, path, idx, &la[idx], &lb[idx]);
        assert(ls_views(out@) =~= g1 + ls_segs(section, paragraph, path@, la@, lb@, idx + 1));
    }
    let ghost g2 = ls_views(out@);
    let m = min_usize(pa.controls.len(), pb.controls.len());
    for ci in 0..m
        invariant
            m as int == min_len(pa.controls@.len(), pb.controls@.len()),
            ls_views(out@) == g2 + ls_controls(section, paragraph, path@, pa.controls@, pb.controls@, ci as int),
    {
        ls_control_pair_exec(out, section, paragraph, path, ci, &pa.controls[ci], &pb.controls[ci]);
        assert(ls_views(out@) =~= g2 + ls_controls(section, paragraph, path@, pa.controls@, pb.controls@, ci + 1));
    }
    assert(ls_views(out@) =~= start + ls_paragraph(section, paragraph, path@, *pa, *pb));
}

#[verifier::spinoff_prover]
fn ls_control_pair_exec(
    out: &mut Vec<LinesegDiff>,
    section: usize,
    paragraph: usize,
    path: &str,
    ci: usize,
    a: &Control,
    b: &Control,
)
    ensures
        ls_views(final(out)@) == ls_views(old(out)@) + ls_control_pair(section, paragraph, path@, ci as nat, *a, *b),
    decreases *a, 1int,
{
    let ghost start = ls_views(out@);
    let mut base = string_of(path);
    push_index(&mut base, "/ctrl", ci);
    match (a, b) {
        (Control::Table(ta), Control::Table(tb)) => {
            let cb = concat_path(base.as_str(), "tbl.cell");
            ls_cells_exec(out, section, paragraph, cb.as_str(), &ta.cells, &tb.cells);
            let cp = concat_path(base.as_str(), "tbl.caption.p");
            ls_captions_exec(out, section, paragraph, cp.as_str(), &ta.caption, &tb.caption);
        },
        (Control::Picture(pia), Control::Picture(pib)) => {
            let cp = concat_path(base.as_str(), "pic.caption.p");
            ls_captions_exec(out, section, paragraph, cp.as_str(), &pia.caption, &pib.caption);
        },
        (Control::Shape(sa), Control::Shape(sb)) => {
            let p = concat_path(base.as_str(), "shape");
            diff_shape_linesegs(out, section, paragraph, p.as_str(), sa, sb);
        },
        (Control::Footnote(na), Control::Footnote(nb)) => {
            let p = concat_path(base.as_str(), "fn.p");
            ls_paras_exec(out, section, paragraph, p.as_str(), &na.paragraphs, &nb.paragraphs);
        },
        (Control::Endnote(na), Control::Endnote(nb)) => {
            let p = concat_path(base.as_str(), "en.p");
            ls_paras_exec(out, section, paragraph, p.as_str(), &na.paragraphs, &nb.paragraphs);
        },
        (Control::Field(fa), Control::Field(fb)) => {
            let p = concat_path(base.as_str(), "field.memo.p");
            ls_paras_exec(out, section, paragraph, p.as_str(), &fa.memo_paragraphs, &fb.memo_paragraphs);
        },
        _ => {
            assert(ls_views(out@) =~= start + Seq::<LsDiff>::empty());
        },
    }
    assert(ls_views(out@) =~= start + ls_control_pair(section, paragraph, path@, ci as nat, *a, *b));
}

/// Compares the text box and caption paragraphs of a drawing-object pair,
/// recursing into the children of groups.
#[verifier::spinoff_prover]
fn diff_shape_linesegs(
    out: &mut Vec<LinesegDiff>,
    section: usize,
    paragraph: usize,
    path: &str,
    sa: &ShapeObject,
    sb: &ShapeObject,
)
    ensures
        ls_views(final(out)@) == ls_views(old(out)@) + ls_shape(section, paragraph, path@, *sa, *sb),
    decreases *sa, 1int,
{
    let ghost start = ls_views(out@);
    proof {
        lemma_shape_parts_smaller(*sa);
    }
    match (shape_text_box_ref(sa), shape_text_box_ref(sb)) {
        (Some(ta), Some(tb)) => {
            let p = concat_path(path, ".tb.p");
            ls_paras_exec(out, section, paragraph, p.as_str(), &ta.paragraphs, &tb.paragraphs);
        },
        _ => {
            assert(ls_views(out@) =~= start + Seq::<LsDiff>::empty());
        },
    }
    let ghost g1 = ls_views(out@);
    match (shape_caption_ref(sa), shape_caption_ref(sb)) {
        (Some(ca), Some(cb)) => {
            let p = concat_path(path, ".caption.p");
            ls_paras_exec(out, section, paragraph, p.as_str(), &ca.paragraphs, &cb.paragraphs);
        },
        _ => {
            assert(ls_views(out@) =~= g1 + Seq::<LsDiff>::empty());
        },
    }
    let ghost g2 = ls_views(out@);
    match (sa, sb) {
        (ShapeObject::Group(ga), ShapeObject::Group(gb)) => {
            let p = concat_path(path, ".child");
            ls_children_exec(out, section, paragraph, p.as_str(), &ga.children, &gb.children);
        },
        _ => {
            assert(ls_views(out@) =~= g2 + Seq::<LsDiff>::empty());
        },
    }
    assert(ls_views(out@) =~= start + ls_shape(section, paragraph, path@, *sa, *sb));
}

/// The mismatches of the first `m` top-level paragraph pairs of section `i`.
pub open spec fn ls_top(i: usize, pa: Seq<Paragraph>, pb: Seq<Paragraph>, m: int) -> Seq<LsDiff>
    decreases m,
{
    if m <= 0 || m > pa.len() || m > pb.len() {
        Seq::empty()
    } else {
        ls_top(i, pa, pb, m - 1) + ls_paragraph(i, (m - 1) as usize, ""@, pa[m - 1], pb[m - 1])
    }
}

/// The mismatches of the first `n` section pairs.
pub open spec fn ls_sections(sa: Seq<Section>, sb: Seq<Section>, n: int) -> Seq<LsDiff>
    decreases n,
{
    if n <= 0 || n > sa.len() || n > sb.len() {
        Seq::empty()
    } else {
        ls_sections(sa, sb, n - 1) + ls_top(
            (n - 1) as usize,
            sa[n - 1].paragraphs@,
            sb[n - 1].paragraphs@,
            min_len(sa[n - 1].paragraphs@.len(), sb[n - 1].paragraphs@.len()),
        )
    }
}

/// The line-segment mismatches of two documents, section and paragraph pairs
/// matched by index.
pub open spec fn ls_document(a: Document, b: Document) -> Seq<LsDiff> {
    ls_sections(a.sections@, b.sections@, min_len(a.sections@.len(), b.sections@.len()))
}

/// Compares the line segments of every paragraph pair of two documents
/// (top-level paragraphs matched by index within matched sections, nested
/// paragraphs as in the character-shape comparison). A count mismatch does
/// not stop the comparison of the common indices.
pub fn diff_linesegs(a: &Document, b: &Document) -> (out: Vec<LinesegDiff>)
    ensures
        ls_views(out@) == ls_document(*a, *b),
{
    let mut out: Vec<LinesegDiff> = Vec::new();
    assert(ls_views(out@) =~= Seq::<LsDiff>::empty());
    let n = min_usize(a.sections.len(), b.sections.len());
    for i in 0..n
        invariant
            n as int == min_len(a.sections@.len(), b.sections@.len()),
            ls_views(out@) == ls_sections(a.sections@, b.sections@, i as int),
    {
        let ghost before = ls_views(out@);
        let pas = &a.sections[i].paragraphs;
        let pbs = &b.sections[i].paragraphs;
        let m = min_usize(pas.len(), pbs.len());
        for j in 0..m
            invariant
                m as int == min_len(pas@.len(), pbs@.len()),
                ls_views(out@) == before + ls_top(i, pas@, pbs@, j as int),
        {
            diff_paragraph_linesegs(&mut out, i, j, "", &pas[j], &pbs[j]);
            assert(ls_views(out@) =~= before + ls_top(i, pas@, pbs@, j + 1));
        }
        assert(ls_views(out@) =~= ls_sections(a.sections@, b.sections@, i + 1));
    }
    out
}

// ---------------------------------------------------------------------------
// Whole documents
// ---------------------------------------------------------------------------

/// The resource tables whose sizes are compared.
#[derive(Clone, Copy, PartialEq, Eq, Structural)]
pub enum CountKind {
    CharShape,
    ParaShape,
    BorderFill,
    TabDef,
    Numbering,
    Style,
    BinDataContent,
}

/// The count difference of the given table.
pub open spec fn count_diff(kind: CountKind, e: usize, a: usize) -> Diff {
    match kind {
        CountKind::CharShape => Diff::CharShapeCount { expected: e, actual: a },
        CountKind::ParaShape => Diff::ParaShapeCount { expected: e, actual: a },
        CountKind::BorderFill => Diff::BorderFillCount { expected: e, actual: a },
        CountKind::TabDef => Diff::TabDefCount { expected: e, actual: a },
        CountKind::Numbering => Diff::NumberingCount { expected: e, actual: a },
        CountKind::Style => Diff::StyleCount { expected: e, actual: a },
        CountKind::BinDataContent => Diff::BinDataContentCount { expected: e, actual: a },
    }
}

/// A count difference when the counts differ.
pub open spec fn count_entry(kind: CountKind, e: usize, a: usize) -> Seq<Diff> {
    if e == a {
        Seq::empty()
    } else {
        seq![count_diff(kind, e, a)]
    }
}

/// The character-shape differences of the first `m` top-level paragraph pairs of section `i`.
pub open spec fn cs_top(i: usize, pa: Seq<Paragraph>, pb: Seq<Paragraph>, m: int) -> Seq<Diff>
    decreases m,
{
    if m <= 0 || m > pa.len() || m > pb.len() {
        Seq::empty()
    } else {
        cs_top(i, pa, pb, m - 1) + cs_paragraph(i, (m - 1) as usize, ""@, pa[m - 1], pb[m - 1])
    }
}

/// The differences of one section pair: paragraph count, page geometry,
/// visibility flags, then the character shapes of its top-level paragraphs.
pub open spec fn section_diffs(i: usize, sa: Section, sb: Section) -> Seq<Diff> {
    let ap = sa.paragraphs@.len() as usize;
    let bp = sb.paragraphs@.len() as usize;
    let count: Seq<Diff> = if ap != bp {
        seq![Diff::ParagraphCount { section: i, expected: ap, actual: bp }]
    } else {
        Seq::empty()
    };
    let page: Seq<Diff> = match joined_detail(page_def_parts(sa.section_def.page_def, sb.section_def.page_def)) {
        Some(d) => seq![Diff::SectionPageDef { section: i, detail: d }],
        None => Seq::empty(),
    };
    let vis: Seq<Diff> = match joined_detail(visibility_parts(sa.section_def, sb.section_def)) {
        Some(d) => seq![Diff::SectionVisibility { section: i, detail: d }],
        None => Seq::empty(),
    };
    count + page + vis + cs_top(i, sa.paragraphs@, sb.paragraphs@, min_len(sa.paragraphs@.len(), sb.paragraphs@.len()))
}

/// The differences of the first `n` section pairs.
pub open spec fn sections_diffs(sa: Seq<Section>, sb: Seq<Section>, n: int) -> Seq<Diff>
    decreases n,
{
    if n <= 0 || n > sa.len() || n > sb.len() {
        Seq::empty()
    } else {
        sections_diffs(sa, sb, n - 1) + section_diffs((n - 1) as usize, sa[n - 1], sb[n - 1])
    }
}

/// The resource-table and binary-data count differences.
pub open spec fn resource_diffs(a: Document, b: Document) -> Seq<Diff> {
    count_entry(CountKind::CharShape, a.doc_info.char_shapes, b.doc_info.char_shapes)
        + count_entry(CountKind::ParaShape, a.doc_info.para_shapes, b.doc_info.para_shapes)
        + count_entry(CountKind::BorderFill, a.doc_info.border_fills, b.doc_info.border_fills)
        + count_entry(CountKind::TabDef, a.doc_info.tab_defs, b.doc_info.tab_defs)
        + count_entry(CountKind::Numbering, a.doc_info.numberings, b.doc_info.numberings)
        + count_entry(CountKind::Style, a.doc_info.styles, b.doc_info.styles)
        + count_entry(
        CountKind::BinDataContent,
        a.bin_data_content@.len() as usize,
        b.bin_data_content@.len() as usize,
    )
}

/// A line-segment mismatch reported as a document difference.
pub open spec fn lineseg_as_diff(d: LsDiff) -> Diff {
    Diff::ParagraphLinesegs {
        section: d.section,
        paragraph: d.paragraph,
        path: d.path,
        detail: ls_kind_text(d.kind),
    }
}

/// All differences between two documents, in the order `diff_documents` finds them.
#[verifier::opaque]
pub open spec fn document_diffs(a: Document, b: Document) -> Seq<Diff> {
    let count: Seq<Diff> = if a.sections@.len() != b.sections@.len() {
        seq![
            Diff::SectionCount {
                expected: a.sections@.len() as usize,
                actual: b.sections@.len() as usize,
            },
        ]
    } else {
        Seq::empty()
    };
    count + sections_diffs(a.sections@, b.sections@, min_len(a.sections@.len(), b.sections@.len()))
        + resource_diffs(a, b) + ls_document(a, b).map_values(|d: LsDiff| lineseg_as_diff(d))
}

fn push_count(diff: &mut IrDiff, kind: CountKind, e: usize, a: usize)
    ensures
        final(diff)@ == old(diff)@ + count_entry(kind, e, a),
{
    if e != a {
        let d = match kind {
            CountKind::CharShape => IrDifference::CharShapeCount { expected: e, actual: a },
            CountKind::ParaShape => IrDifference::ParaShapeCount { expected: e, actual: a },
            CountKind::BorderFill => IrDifference::BorderFillCount { expected: e, actual: a },
            CountKind::TabDef => IrDifference::TabDefCount { expected: e, actual: a },
            CountKind::Numbering => IrDifference::NumberingCount { expected: e, actual: a },
            CountKind::Style => IrDifference::StyleCount { expected: e, actual: a },
            CountKind::BinDataContent => IrDifference::BinDataContentCount { expected: e, actual: a },
        };
        diff.push(d);
    } else {
        assert(diff@ =~= diff@ + Seq::<Diff>::empty());
    }
}

#[verifier::spinoff_prover]
#[verifier::rlimit(30)]
fn diff_section(diff: &mut IrDiff, i: usize, sa: &Section, sb: &Section)
    ensures
        final(diff)@ == old(diff)@ + section_diffs(i, *sa, *sb),
{
    let ghost start = diff@;
    let ap = sa.paragraphs.len();
    let bp = sb.paragraphs.len();
    if ap != bp {
        diff.push(IrDifference::ParagraphCount { section: i, expected: ap, actual: bp });
        assert(diff@ =~= start + seq![Diff::ParagraphCount { section: i, expected: ap, actual: bp }]);
    } else {
        assert(diff@ =~= start + Seq::<Diff>::empty());
    }
    let ghost g1 = diff@;
    match diff_page_def(&sa.section_def.page_def, &sb.section_def.page_def) {
        Some(detail) => {
            let ghost dv = detail@;
            diff.push(IrDifference::SectionPageDef { section: i, detail });
            assert(diff@ =~= g1 + seq![Diff::SectionPageDef { section: i, detail: dv }]);
        },
        None => assert(diff@ =~= g1 + Seq::<Diff>::empty()),
    }
    let ghost g2 = diff@;
    match diff_visibility(&sa.section_def, &sb.section_def) {
        Some(detail) => {
            let ghost dv = detail@;
            diff.push(IrDifference::SectionVisibility { section: i, detail });
            assert(diff@ =~= g2 + seq![Diff::SectionVisibility { section: i, detail: dv }]);
        },
        None => assert(diff@ =~= g2 + Seq::<Diff>::empty()),
    }
    let ghost g3 = diff@;
    let pas = &sa.paragraphs;
    let pbs = &sb.paragraphs;
    let pp = min_usize(ap, bp);
    for j in 0..pp
        invariant
            pp as int == min_len(pas@.len(), pbs@.len()),
            diff@ == g3 + cs_top(i, pas@, pbs@, j as int),
    {
        diff_paragraph_char_shapes(diff, i, j, "", &pas[j], &pbs[j]);
        assert(diff@ =~= g3 + cs_top(i, pas@, pbs@, j + 1));
    }
    proof {
        lemma_section_steps(i, *sa, *sb, start, g1, g2, g3, diff@);
    }
}

#[verifier::spinoff_prover]
proof fn lemma_section_steps(
    i: usize,
    sa: Section,
    sb: Section,
    start: Seq<Diff>,
    g1: Seq<Diff>,
    g2: Seq<Diff>,
    g3: Seq<Diff>,
    fin: Seq<Diff>,
)
    requires
        g1 == start + (if sa.paragraphs@.len() as usize != sb.paragraphs@.len() as usize {
            seq![
                Diff::ParagraphCount {
                    section: i,
                    expected: sa.paragraphs@.len() as usize,
                    actual: sb.paragraphs@.len() as usize,
                },
            ]
        } else {
            Seq::empty()
        }),
        g2 == g1 + match joined_detail(page_def_parts(sa.section_def.page_def, sb.section_def.page_def)) {
            Some(d) => seq![Diff::SectionPageDef { section: i, detail: d }],
            None => Seq::empty(),
        },
        g3 == g2 + match joined_detail(visibility_parts(sa.section_def, sb.section_def)) {
            Some(d) => seq![Diff::SectionVisibility { section: i, detail: d }],
            None => Seq::empty(),
        },
        fin == g3 + cs_top(i, sa.paragraphs@, sb.paragraphs@, min_len(sa.paragraphs@.len(), sb.paragraphs@.len())),
    ensures
        fin == start + section_diffs(i, sa, sb),
{
    let ap = sa.paragraphs@.len() as usize;
    let bp = sb.paragraphs@.len() as usize;
    let a: Seq<Diff> = if ap != bp {
        seq![Diff::ParagraphCount { section: i, expected: ap, actual: bp }]
    } else {
        Seq::empty()
    };
    let b = match joined_detail(page_def_parts(sa.section_def.page_def, sb.section_def.page_def)) {
        Some(d) => seq![Diff::SectionPageDef { section: i, detail: d }],
        None => Seq::empty(),
    };
    let c = match joined_detail(visibility_parts(sa.section_def, sb.section_def)) {
        Some(d) => seq![Diff::SectionVisibility { section: i, detail: d }],
        None => Seq::empty(),
    };
    let d = cs_top(i, sa.paragraphs@, sb.paragraphs@, min_len(sa.paragraphs@.len(), sb.paragraphs@.len()));
    assert(section_diffs(i, sa, sb) == a + b + c + d);
    lemma_chain4(start, a, b, c, d, g1, g2, g3, fin);
}

#[verifier::spinoff_prover]
fn diff_resources(diff: &mut IrDiff, a: &Document, b: &Document)
    ensures
        final(diff)@ == old(diff)@ + resource_diffs(*a, *b),
{
    let ghost start = diff@;
    push_count(diff, CountKind::CharShape, a.doc_info.char_shapes, b.doc_info.char_shapes);
    push_count(diff, CountKind::ParaShape, a.doc_info.para_shapes, b.doc_info.para_shapes);
    push_count(diff, CountKind::BorderFill, a.doc_info.border_fills, b.doc_info.border_fills);
    push_count(diff, CountKind::TabDef, a.doc_info.tab_defs, b.doc_info.tab_defs);
    push_count(diff, CountKind::Numbering, a.doc_info.numberings, b.doc_info.numberings);
    push_count(diff, CountKind::Style, a.doc_info.styles, b.doc_info.styles);
    push_count(diff, CountKind::BinDataContent, a.bin_data_content.len(), b.bin_data_content.len());
    assert(diff@ =~= start + resource_diffs(*a, *b));
}

/// Compares two document IRs: section count; per matched section the
/// paragraph count, page geometry, visibility flags and the character shapes,
/// controls and object attributes of matched paragraphs (recursively); the
/// resource-table sizes and binary-data count; and every line-segment
/// mismatch, reported as `ParagraphLinesegs`.
#[verifier::spinoff_prover]
#[verifier::rlimit(40)]
pub fn diff_documents(a: &Document, b: &Document) -> (diff: IrDiff)
    ensures
        diff@ == document_diffs(*a, *b),
{
    let mut diff = IrDiff::default();
    if a.sections.len() != b.sections.len() {
        diff.push(IrDifference::SectionCount { expected: a.sections.len(), actual: b.sections.len() });
    }
    let ghost g1 = diff@;
    let pairs = min_usize(a.sections.len(), b.sections.len());
    for i in 0..pairs
        invariant
            pairs as int == min_len(a.sections@.len(), b.sections@.len()),
            diff@ == g1 + sections_diffs(a.sections@, b.sections@, i as int),
    {
        diff_section(&mut diff, i, &a.sections[i], &b.sections[i]);
        assert(diff@ =~= g1 + sections_diffs(a.sections@, b.sections@, i + 1));
    }
    let ghost g2 = diff@;
    diff_resources(&mut diff, a, b);
    let ghost g3 = diff@;
    let lines = diff_linesegs(a, b);
    let ghost lsd = ls_document(*a, *b);
    for k in 0..lines.len()
        invariant
            ls_views(lines@) == lsd,
            diff@ == g3 + lsd.take(k as int).map_values(|d: LsDiff| lineseg_as_diff(d)),
    {
        let d = &lines[k];
        let detail = d.kind.to_string();
        diff.push(
            IrDifference::ParagraphLinesegs {
                section: d.section,
                paragraph: d.paragraph,
                path: d.path.clone(),
                detail,
            },
        );
        assert(lsd[k as int] == d@);
        assert(lsd.take(k + 1).map_values(|d: LsDiff| lineseg_as_diff(d)) =~= lsd.take(k as int).map_values(
            |d: LsDiff| lineseg_as_diff(d),
        ).push(lineseg_as_diff(lsd[k as int])));
    }
    assert(lsd.take(lines.len() as int) == lsd);
    proof {
        reveal(document_diffs);
    }
    assert(diff@ =~= document_diffs(*a, *b));
    diff
}

// ---------------------------------------------------------------------------
// Rendering
// ---------------------------------------------------------------------------

/// `section[s] paragraph[p]path`.
pub open spec fn location(section: usize, paragraph: usize, path: Seq<char>) -> Seq<char> {
    "section["@ + decimal(section as nat) + "] paragraph["@ + decimal(paragraph as nat) + "]"@ + path
}

/// `label count: expected=e actual=a`.
pub open spec fn count_text(label: Seq<char>, e: usize, a: usize) -> Seq<char> {
    label + " count: expected="@ + decimal(e as nat) + " actual="@ + decimal(a as nat)
}

/// `location label: detail`.
pub open spec fn located_text(section: usize, paragraph: usize, path: Seq<char>, label: Seq<char>, detail: Seq<char>) -> Seq<char> {
    location(section, paragraph, path) + label + detail
}

/// The one-line rendering of a difference.
pub open spec fn diff_text(d: Diff) -> Seq<char> {
    match d {
        Diff::SectionCount { expected, actual } => count_text("section"@, expected, actual),
        Diff::ParagraphCount { section, expected, actual } => "section["@ + decimal(section as nat) + "] "@
            + count_text("paragraph"@, expected, actual),
        Diff::CharShapeCount { expected, actual } => count_text("char_shapes"@, expected, actual),
        Diff::ParaShapeCount { expected, actual } => count_text("para_shapes"@, expected, actual),
        Diff::BorderFillCount { expected, actual } => count_text("border_fills"@, expected, actual),
        Diff::TabDefCount { expected, actual } => count_text("tab_defs"@, expected, actual),
        Diff::NumberingCount { expected, actual } => count_text("numberings"@, expected, actual),
        Diff::StyleCount { expected, actual } => count_text("styles"@, expected, actual),
        Diff::BinDataContentCount { expected, actual } => count_text("bin_data_content"@, expected, actual),
        Diff::ParagraphCharShapes { section, paragraph, path, expected, actual } => location(section, paragraph, path)
            + " char_shapes: expected="@ + expected + " actual="@ + actual,
        Diff::ParagraphControls { section, paragraph, path, expected, actual } => location(section, paragraph, path)
            + " controls: expected="@ + expected + " actual="@ + actual,
        Diff::ParagraphLinesegs { section, paragraph, path, detail } => located_text(section, paragraph, path, " linesegs: "@, detail),
        Diff::SectionPageDef { section, detail } => "section["@ + decimal(section as nat) + "] page_def: "@ + detail,
        Diff::SectionVisibility { section, detail } => "section["@ + decimal(section as nat) + "] visibility: "@ + detail,
        Diff::TableCaption { section, paragraph, path, detail } => located_text(section, paragraph, path, " caption: "@, detail),
        Diff::ObjectCaption { section, paragraph, path, detail } => located_text(section, paragraph, path, " caption: "@, detail),
        Diff::ObjectComment { section, paragraph, path, detail } => located_text(section, paragraph, path, " comment: "@, detail),
        Diff::FieldContent { section, paragraph, path, detail } => located_text(section, paragraph, path, " field: "@, detail),
        Diff::PictureSize { section, paragraph, path, detail } => located_text(section, paragraph, path, " pic_size: "@, detail),
        Diff::TablePageBreak { section, paragraph, path, detail } => located_text(section, paragraph, path, " tbl page_break: "@, detail),
        Diff::ObjectHoldAnchor { section, paragraph, path, detail } => located_text(section, paragraph, path, " holdAnchorAndSO: "@, detail),
        Diff::ObjectFlowWithText { section, paragraph, path, detail } => located_text(section, paragraph, path, " flowWithText: "@, detail),
    }
}

fn push_location(s: &mut String, section: usize, paragraph: usize, path: &String)
    ensures
        final(s)@ == old(s)@ + location(section, paragraph, path@),
{
    string_push_str(s, "section[");
    push_decimal(s, section as u64);
    string_push_str(s, "] paragraph[");
    push_decimal(s, paragraph as u64);
    string_push_str(s, "]");
    string_push_str(s, path.as_str());
}

fn push_count_text(s: &mut String, label: &str, e: usize, a: usize)
    ensures
        final(s)@ == old(s)@ + count_text(label@, e, a),
{
    string_push_str(s, label);
    string_push_str(s, " count: expected=");
    push_decimal(s, e as u64);
    string_push_str(s, " actual=");
    push_decimal(s, a as u64);
}

fn located_string(section: usize, paragraph: usize, path: &String, label: &str, detail: &String) -> (r: String)
    ensures
        r@ == located_text(section, paragraph, path@, label@, detail@),
{
    let mut s = String::new();
    push_location(&mut s, section, paragraph, path);
    string_push_str(&mut s, label);
    string_push_str(&mut s, detail.as_str());
    assert(s@ =~= located_text(section, paragraph, path@, label@, detail@));
    s
}

fn count_string(label: &str, e: usize, a: usize) -> (r: String)
    ensures
        r@ == count_text(label@, e, a),
{
    let mut s = String::new();
    push_count_text(&mut s, label, e, a);
    assert(s@ =~= count_text(label@, e, a));
    s
}

impl IrDifference {
    /// The one-line rendering of this difference.
    pub fn to_string(&self) -> (s: String)
        ensures
            s@ == diff_text(self@),
    {
        match self {
            IrDifference::SectionCount { expected, actual } => count_string("section", *expected, *actual),
            IrDifference::ParagraphCount { section, expected, actual } => {
                let mut s = string_of("section[");
                push_decimal(&mut s, *section as u64);
                string_push_str(&mut s, "] ");
                push_count_text(&mut s, "paragraph", *expected, *actual);
                s
            },
            IrDifference::CharShapeCount { expected, actual } => count_string("char_shapes", *expected, *actual),
            IrDifference::ParaShapeCount { expected, actual } => count_string("para_shapes", *expected, *actual),
            IrDifference::BorderFillCount { expected, actual } => count_string("border_fills", *expected, *actual),
            IrDifference::TabDefCount { expected, actual } => count_string("tab_defs", *expected, *actual),
            IrDifference::NumberingCount { expected, actual } => count_string("numberings", *expected, *actual),
            IrDifference::StyleCount { expected, actual } => count_string("styles", *expected, *actual),
            IrDifference::BinDataContentCount { expected, actual } => count_string("bin_data_content", *expected, *actual),
            IrDifference::ParagraphCharShapes { section, paragraph, path, expected, actual } => {
                let mut s = String::new();
                push_location(&mut s, *section, *paragraph, path);
                string_push_str(&mut s, " char_shapes: expected=");
                string_push_str(&mut s, expected.as_str());
                string_push_str(&mut s, " actual=");
                string_push_str(&mut s, actual.as_str());
                assert(s@ =~= diff_text(self@));
                s
            },
            IrDifference::ParagraphControls { section, paragraph, path, expected, actual } => {
                let mut s = String::new();
                push_location(&mut s, *section, *paragraph, path);
                string_push_str(&mut s, " controls: expected=");
                string_push_str(&mut s, expected.as_str());
                string_push_str(&mut s, " actual=");
                string_push_str(&mut s, actual.as_str());
                assert(s@ =~= diff_text(self@));
                s
            },
            IrDifference::ParagraphLinesegs { section, paragraph, path, detail } => located_string(*section, *paragraph, path, " linesegs: ", detail),
            IrDifference::SectionPageDef { section, detail } => {
                let mut s = string_of("section[");
                push_decimal(&mut s, *section as u64);
                string_push_str(&mut s, "] page_def: ");
                string_push_str(&mut s, detail.as_str());
                s
            },
            IrDifference::SectionVisibility { section, detail } => {
                let mut s = string_of("section[");
                push_decimal(&mut s, *section as u64);
                string_push_str(&mut s, "] visibility: ");
                string_push_str(&mut s, detail.as_str());
                s
            },
            IrDifference::TableCaption { section, paragraph, path, detail } => located_string(*section, *paragraph, path, " caption: ", detail),
            IrDifference::ObjectCaption { section, paragraph, path, detail } => located_string(*section, *paragraph, path, " caption: ", detail),
            IrDifference::ObjectComment { section, paragraph, path, detail } => located_string(*section, *paragraph, path, " comment: ", detail),
            IrDifference::FieldContent { section, paragraph, path, detail } => located_string(*section, *paragraph, path, " field: ", detail),
            IrDifference::PictureSize { section, paragraph, path, detail } => located_string(*section, *paragraph, path, " pic_size: ", detail),
            IrDifference::TablePageBreak { section, paragraph, path, detail } => located_string(*section, *paragraph, path, " tbl page_break: ", detail),
            IrDifference::ObjectHoldAnchor { section, paragraph, path, detail } => located_string(*section, *paragraph, path, " holdAnchorAndSO: ", detail),
            IrDifference::ObjectFlowWithText { section, paragraph, path, detail } => located_string(*section, *paragraph, path, " flowWithText: ", detail),
        }
    }
}


/// The value a reader takes `direction_debug` text for: the vocabulary read back.
pub open spec fn direction_debug_read(s: Seq<char>) -> Option<CaptionDirection> {
    if s == "Left"@ {
        Some(CaptionDirection::Left)
    } else if s == "Right"@ {
        Some(CaptionDirection::Right)
    } else if s == "Top"@ {
        Some(CaptionDirection::Top)
    } else if s == "Bottom"@ {
        Some(CaptionDirection::Bottom)
    } else {
        None
    }
}

/// Each value is written with its own vocabulary word, which reads back as
/// that value, so that no two values are written alike.
pub proof fn law_direction_debug_reads_back(t: CaptionDirection, u: CaptionDirection)
    ensures
        direction_debug_read(direction_debug(t)) == Some(t),
        direction_debug(t) == direction_debug(u) ==> t == u,
{
    lemma_direction_debug_reads_back(t);
    lemma_direction_debug_reads_back(u);
}

proof fn lemma_direction_debug_reads_back(t: CaptionDirection)
    ensures
        direction_debug_read(direction_debug(t)) == Some(t),
{
    reveal_strlit("Left");
    reveal_strlit("Right");
    reveal_strlit("Top");
    reveal_strlit("Bottom");
    match t {
        CaptionDirection::Left => {
        },
        CaptionDirection::Right => {
            assert("Right"@.len() != "Left"@.len());
        },
        CaptionDirection::Top => {
            assert("Top"@.len() != "Left"@.len());
            assert("Top"@.len() != "Right"@.len());
        },
        CaptionDirection::Bottom => {
            assert("Bottom"@.len() != "Left"@.len());
            assert("Bottom"@.len() != "Right"@.len());
            assert("Bottom"@.len() != "Top"@.len());
        },
    }
}

/// The value a reader takes `binding_debug` text for: the vocabulary read back.
pub open spec fn binding_debug_read(s: Seq<char>) -> Option<BindingMethod> {
    if s == "SingleSided"@ {
        Some(BindingMethod::SingleSided)
    } else if s == "DuplexSided"@ {
        Some(BindingMethod::DuplexSided)
    } else if s == "TopFlip"@ {
        Some(BindingMethod::TopFlip)
    } else {
        None
    }
}

/// Each value is written with its own vocabulary word, which reads back as
/// that value, so that no two values are written alike.
pub proof fn law_binding_debug_reads_back(t: BindingMethod, u: BindingMethod)
    ensures
        binding_debug_read(binding_debug(t)) == Some(t),
        binding_debug(t) == binding_debug(u) ==> t == u,
{
    lemma_binding_debug_reads_back(t);
    lemma_binding_debug_reads_back(u);
}

proof fn lemma_binding_debug_reads_back(t: BindingMethod)
    ensures
        binding_debug_read(binding_debug(t)) == Some(t),
{
    reveal_strlit("SingleSided");
    reveal_strlit("DuplexSided");
    reveal_strlit("TopFlip");
    match t {
        BindingMethod::SingleSided => {
        },
        BindingMethod::DuplexSided => {
            assert("DuplexSided"@[0] != "SingleSided"@[0]);
        },
        BindingMethod::TopFlip => {
            assert("TopFlip"@.len() != "SingleSided"@.len());
            assert("TopFlip"@.len() != "DuplexSided"@.len());
        },
    }
}

/// The value a reader takes `page_break_debug` text for: the vocabulary read back.
pub open spec fn page_break_debug_read(s: Seq<char>) -> Option<TablePageBreak> {
    if s == "None"@ {
        Some(TablePageBreak::NoBreak)
    } else if s == "CellBreak"@ {
        Some(TablePageBreak::CellBreak)
    } else if s == "RowBreak"@ {
        Some(TablePageBreak::RowBreak)
    } else {
        None
    }
}

/// Each value is written with its own vocabulary word, which reads back as
/// that value, so that no two values are written alike.
pub proof fn law_page_break_debug_reads_back(t: TablePageBreak, u: TablePageBreak)
    ensures
        page_break_debug_read(page_break_debug(t)) == Some(t),
        page_break_debug(t) == page_break_debug(u) ==> t == u,
{
    lemma_page_break_debug_reads_back(t);
    lemma_page_break_debug_reads_back(u);
}

proof fn lemma_page_break_debug_reads_back(t: TablePageBreak)
    ensures
        page_break_debug_read(page_break_debug(t)) == Some(t),
{
    reveal_strlit("None");
    reveal_strlit("CellBreak");
    reveal_strlit("RowBreak");
    match t {
        TablePageBreak::NoBreak => {
        },
        TablePageBreak::CellBreak => {
            assert("CellBreak"@.len() != "None"@.len());
        },
        TablePageBreak::RowBreak => {
            assert("RowBreak"@.len() != "None"@.len());
            assert("RowBreak"@.len() != "CellBreak"@.len());
        },
    }
}

} // verus!
