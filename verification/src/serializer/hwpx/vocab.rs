//! The attribute values HWPX writes for the model's enumerations, for arrow
//! sizes and hatch styles, and for colours.

use crate::model::control::{TablePageBreak, VerticalAlign};
use crate::model::image::ImageEffect;
use crate::model::shape::{
    HorzAlign, HorzRelTo, LinkLineType, ObjectNumberingType, TextFlow, TextWrap, VertAlign,
    VertRelTo,
};
use crate::text::{hex2_upper, hex_upper_char, push_hex2_upper, string_of, string_push};
use vstd::prelude::*;

verus! {

pub open spec fn text_wrap_text(w: TextWrap) -> Seq<char> {
    match w {
        TextWrap::Square => "SQUARE"@,
        TextWrap::Tight => "TIGHT"@,
        TextWrap::Through => "THROUGH"@,
        TextWrap::TopAndBottom => "TOP_AND_BOTTOM"@,
        TextWrap::BehindText => "BEHIND_TEXT"@,
        TextWrap::InFrontOfText => "IN_FRONT_OF_TEXT"@,
    }
}

/// The `textWrap` value of a wrapping mode.
pub fn text_wrap_str(w: TextWrap) -> (r: &'static str)
    ensures
        r@ == text_wrap_text(w),
{
    match w {
        TextWrap::Square => "SQUARE",
        TextWrap::Tight => "TIGHT",
        TextWrap::Through => "THROUGH",
        TextWrap::TopAndBottom => "TOP_AND_BOTTOM",
        TextWrap::BehindText => "BEHIND_TEXT",
        TextWrap::InFrontOfText => "IN_FRONT_OF_TEXT",
    }
}

pub open spec fn text_flow_text(f: TextFlow) -> Seq<char> {
    match f {
        TextFlow::BothSides => "BOTH_SIDES"@,
        TextFlow::LeftOnly => "LEFT_ONLY"@,
        TextFlow::RightOnly => "RIGHT_ONLY"@,
        TextFlow::LargestOnly => "LARGEST_ONLY"@,
    }
}

/// The `textFlow` value of a flow mode.
pub fn text_flow_str(f: TextFlow) -> (r: &'static str)
    ensures
        r@ == text_flow_text(f),
{
    match f {
        TextFlow::BothSides => "BOTH_SIDES",
        TextFlow::LeftOnly => "LEFT_ONLY",
        TextFlow::RightOnly => "RIGHT_ONLY",
        TextFlow::LargestOnly => "LARGEST_ONLY",
    }
}

pub open spec fn vert_rel_to_text(v: VertRelTo) -> Seq<char> {
    match v {
        VertRelTo::Paper => "PAPER"@,
        VertRelTo::Page => "PAGE"@,
        VertRelTo::Para => "PARA"@,
    }
}

/// The `vertRelTo` value of a vertical reference frame.
pub fn vert_rel_to_str(v: VertRelTo) -> (r: &'static str)
    ensures
        r@ == vert_rel_to_text(v),
{
    match v {
        VertRelTo::Paper => "PAPER",
        VertRelTo::Page => "PAGE",
        VertRelTo::Para => "PARA",
    }
}

pub open spec fn horz_rel_to_text(h: HorzRelTo) -> Seq<char> {
    match h {
        HorzRelTo::Paper => "PAPER"@,
        HorzRelTo::Page => "PAGE"@,
        HorzRelTo::Column => "COLUMN"@,
        HorzRelTo::Para => "PARA"@,
    }
}

/// The `horzRelTo` value of a horizontal reference frame.
pub fn horz_rel_to_str(h: HorzRelTo) -> (r: &'static str)
    ensures
        r@ == horz_rel_to_text(h),
{
    match h {
        HorzRelTo::Paper => "PAPER",
        HorzRelTo::Page => "PAGE",
        HorzRelTo::Column => "COLUMN",
        HorzRelTo::Para => "PARA",
    }
}

pub open spec fn vert_align_text(v: VertAlign) -> Seq<char> {
    match v {
        VertAlign::Top => "TOP"@,
        VertAlign::Center => "CENTER"@,
        VertAlign::Bottom => "BOTTOM"@,
        VertAlign::Inside => "INSIDE"@,
        VertAlign::Outside => "OUTSIDE"@,
    }
}

/// The `vertAlign` value of a vertical alignment.
pub fn vert_align_str(v: VertAlign) -> (r: &'static str)
    ensures
        r@ == vert_align_text(v),
{
    match v {
        VertAlign::Top => "TOP",
        VertAlign::Center => "CENTER",
        VertAlign::Bottom => "BOTTOM",
        VertAlign::Inside => "INSIDE",
        VertAlign::Outside => "OUTSIDE",
    }
}

pub open spec fn horz_align_text(h: HorzAlign) -> Seq<char> {
    match h {
        HorzAlign::Left => "LEFT"@,
        HorzAlign::Center => "CENTER"@,
        HorzAlign::Right => "RIGHT"@,
        HorzAlign::Inside => "INSIDE"@,
        HorzAlign::Outside => "OUTSIDE"@,
    }
}

/// The `horzAlign` value of a horizontal alignment.
pub fn horz_align_str(h: HorzAlign) -> (r: &'static str)
    ensures
        r@ == horz_align_text(h),
{
    match h {
        HorzAlign::Left => "LEFT",
        HorzAlign::Center => "CENTER",
        HorzAlign::Right => "RIGHT",
        HorzAlign::Inside => "INSIDE",
        HorzAlign::Outside => "OUTSIDE",
    }
}

pub open spec fn image_effect_text(e: ImageEffect) -> Seq<char> {
    match e {
        ImageEffect::RealPic => "REAL_PIC"@,
        ImageEffect::GrayScale => "GRAY_SCALE"@,
        ImageEffect::BlackWhite => "BLACK_WHITE"@,
        ImageEffect::Pattern8x8 => "PATTERN_8_8"@,
    }
}

/// The `effect` value of a picture's colour effect.
pub fn image_effect_str(e: ImageEffect) -> (r: &'static str)
    ensures
        r@ == image_effect_text(e),
{
    match e {
        ImageEffect::RealPic => "REAL_PIC",
        ImageEffect::GrayScale => "GRAY_SCALE",
        ImageEffect::BlackWhite => "BLACK_WHITE",
        ImageEffect::Pattern8x8 => "PATTERN_8_8",
    }
}

pub open spec fn link_line_type_text(t: LinkLineType) -> Seq<char> {
    match t {
        LinkLineType::StraightNoArrow => "STRAIGHT_NOARROW"@,
        LinkLineType::StraightOneWay => "STRAIGHT_ONEWAY"@,
        LinkLineType::StraightBoth => "STRAIGHT_BOTH"@,
        LinkLineType::StrokeNoArrow => "STROKE_NOARROW"@,
        LinkLineType::StrokeOneWay => "STROKE_ONEWAY"@,
        LinkLineType::StrokeBoth => "STROKE_BOTH"@,
        LinkLineType::ArcNoArrow => "ARC_NOARROW"@,
        LinkLineType::ArcOneWay => "ARC_ONEWAY"@,
        LinkLineType::ArcBoth => "ARC_BOTH"@,
    }
}

/// The `type` value of a connecting line.
pub fn link_line_type_str(t: LinkLineType) -> (r: &'static str)
    ensures
        r@ == link_line_type_text(t),
{
    match t {
        LinkLineType::StraightNoArrow => "STRAIGHT_NOARROW",
        LinkLineType::StraightOneWay => "STRAIGHT_ONEWAY",
        LinkLineType::StraightBoth => "STRAIGHT_BOTH",
        LinkLineType::StrokeNoArrow => "STROKE_NOARROW",
        LinkLineType::StrokeOneWay => "STROKE_ONEWAY",
        LinkLineType::StrokeBoth => "STROKE_BOTH",
        LinkLineType::ArcNoArrow => "ARC_NOARROW",
        LinkLineType::ArcOneWay => "ARC_ONEWAY",
        LinkLineType::ArcBoth => "ARC_BOTH",
    }
}

/// The arrow size names, by their number: the first word the width, the
/// second the length; numbers past the last are the smallest.
pub open spec fn arrow_size_text(v: u32) -> Seq<char> {
    if v == 1 {
        "SMALL_MEDIUM"@
    } else if v == 2 {
        "SMALL_BIG"@
    } else if v == 3 {
        "MEDIUM_SMALL"@
    } else if v == 4 {
        "MEDIUM_MEDIUM"@
    } else if v == 5 {
        "MEDIUM_BIG"@
    } else if v == 6 {
        "BIG_SMALL"@
    } else if v == 7 {
        "BIG_MEDIUM"@
    } else if v == 8 {
        "BIG_BIG"@
    } else {
        "SMALL_SMALL"@
    }
}

/// The `headSz` / `tailSz` value of an arrow size number.
pub fn arrow_size_str(v: u32) -> (r: &'static str)
    ensures
        r@ == arrow_size_text(v),
{
    match v {
        1 => "SMALL_MEDIUM",
        2 => "SMALL_BIG",
        3 => "MEDIUM_SMALL",
        4 => "MEDIUM_MEDIUM",
        5 => "MEDIUM_BIG",
        6 => "BIG_SMALL",
        7 => "BIG_MEDIUM",
        8 => "BIG_BIG",
        _ => "SMALL_SMALL",
    }
}

/// The hatch style names, by their number; any other number is the
/// diagonal cross.
pub open spec fn hatch_style_text(pattern_type: i32) -> Seq<char> {
    if pattern_type == 1 {
        "HORIZONTAL"@
    } else if pattern_type == 2 {
        "VERTICAL"@
    } else if pattern_type == 3 {
        "BACK_SLASH"@
    } else if pattern_type == 4 {
        "SLASH"@
    } else if pattern_type == 5 {
        "CROSS"@
    } else {
        "CROSS_DIAGONAL"@
    }
}

/// The `hatchStyle` value of a hatch number.
pub fn hatch_style_str(pattern_type: i32) -> (r: &'static str)
    ensures
        r@ == hatch_style_text(pattern_type),
{
    match pattern_type {
        1 => "HORIZONTAL",
        2 => "VERTICAL",
        3 => "BACK_SLASH",
        4 => "SLASH",
        5 => "CROSS",
        _ => "CROSS_DIAGONAL",
    }
}

pub open spec fn numbering_type_text(n: ObjectNumberingType) -> Seq<char> {
    match n {
        ObjectNumberingType::Picture => "PICTURE"@,
        ObjectNumberingType::Table => "TABLE"@,
        ObjectNumberingType::Equation => "EQUATION"@,
        ObjectNumberingType::Unnumbered => "NONE"@,
    }
}

/// The `numberingType` value of an object.
pub fn numbering_type_str(n: ObjectNumberingType) -> (r: &'static str)
    ensures
        r@ == numbering_type_text(n),
{
    match n {
        ObjectNumberingType::Picture => "PICTURE",
        ObjectNumberingType::Table => "TABLE",
        ObjectNumberingType::Equation => "EQUATION",
        ObjectNumberingType::Unnumbered => "NONE",
    }
}

/// The `pageBreak` value of a table, the inverse of what the reader takes:
/// `TABLE` is the cell break and `CELL` the row break.
pub open spec fn table_page_break_text(pb: TablePageBreak) -> Seq<char> {
    match pb {
        TablePageBreak::NoBreak => "NONE"@,
        TablePageBreak::CellBreak => "TABLE"@,
        TablePageBreak::RowBreak => "CELL"@,
    }
}

/// The `pageBreak` value of a table.
pub fn table_page_break_str(pb: TablePageBreak) -> (r: &'static str)
    ensures
        r@ == table_page_break_text(pb),
{
    match pb {
        TablePageBreak::NoBreak => "NONE",
        TablePageBreak::CellBreak => "TABLE",
        TablePageBreak::RowBreak => "CELL",
    }
}

pub open spec fn cell_vert_align_text(v: VerticalAlign) -> Seq<char> {
    match v {
        VerticalAlign::Top => "TOP"@,
        VerticalAlign::Center => "CENTER"@,
        VerticalAlign::Bottom => "BOTTOM"@,
    }
}

/// The `vertAlign` value of a cell's content.
pub fn cell_vert_align_str(v: VerticalAlign) -> (r: &'static str)
    ensures
        r@ == cell_vert_align_text(v),
{
    match v {
        VerticalAlign::Top => "TOP",
        VerticalAlign::Center => "CENTER",
        VerticalAlign::Bottom => "BOTTOM",
    }
}

/// The colour `0xAABBGGRR` as `#RRGGBB`, or `#AARRGGBB` when its alpha byte
/// is not zero; `none` for `0xFFFFFFFF`.
pub open spec fn color_hex_text(c: u32) -> Seq<char> {
    let r = (c % 256) as u8;
    let g = ((c / 256) % 256) as u8;
    let b = ((c / 65536) % 256) as u8;
    let a = (c / 16777216) as u8;
    if c == 0xFFFF_FFFF {
        "none"@
    } else if a == 0 {
        seq!['#'] + hex2_upper(r) + hex2_upper(g) + hex2_upper(b)
    } else {
        seq!['#'] + hex2_upper(a) + hex2_upper(r) + hex2_upper(g) + hex2_upper(b)
    }
}

/// A colour as HWPX writes it.
pub fn color_to_hex(c: u32) -> (s: String)
    ensures
        s@ == color_hex_text(c),
{
    if c == 0xFFFF_FFFF {
        return string_of("none");
    }
    let a = ((c >> 24) & 0xFF) as u8;
    let r = (c & 0xFF) as u8;
    let g = ((c >> 8) & 0xFF) as u8;
    let b = ((c >> 16) & 0xFF) as u8;
    assert(((c >> 24) & 0xFF) as u8 == (c / 16777216) as u8 && (c & 0xFF) as u8 == (c % 256) as u8
        && ((c >> 8) & 0xFF) as u8 == ((c / 256) % 256) as u8 && ((c >> 16) & 0xFF) as u8 == ((c
        / 65536) % 256) as u8) by (bit_vector);
    let mut s = String::new();
    string_push(&mut s, '#');
    if a != 0 {
        push_hex2_upper(&mut s, a);
    }
    push_hex2_upper(&mut s, r);
    push_hex2_upper(&mut s, g);
    push_hex2_upper(&mut s, b);
    s
}


/// The value a reader takes `text_wrap_text` text for: the vocabulary read back.
pub open spec fn text_wrap_text_read(s: Seq<char>) -> Option<TextWrap> {
    if s == "SQUARE"@ {
        Some(TextWrap::Square)
    } else if s == "TIGHT"@ {
        Some(TextWrap::Tight)
    } else if s == "THROUGH"@ {
        Some(TextWrap::Through)
    } else if s == "TOP_AND_BOTTOM"@ {
        Some(TextWrap::TopAndBottom)
    } else if s == "BEHIND_TEXT"@ {
        Some(TextWrap::BehindText)
    } else if s == "IN_FRONT_OF_TEXT"@ {
        Some(TextWrap::InFrontOfText)
    } else {
        None
    }
}

/// Each value is written with its own vocabulary word, which reads back as
/// that value, so that no two values are written alike.
pub proof fn law_text_wrap_text_reads_back(t: TextWrap, u: TextWrap)
    ensures
        text_wrap_text_read(text_wrap_text(t)) == Some(t),
        text_wrap_text(t) == text_wrap_text(u) ==> t == u,
{
    lemma_text_wrap_text_reads_back(t);
    lemma_text_wrap_text_reads_back(u);
}

proof fn lemma_text_wrap_text_reads_back(t: TextWrap)
    ensures
        text_wrap_text_read(text_wrap_text(t)) == Some(t),
{
    reveal_strlit("SQUARE");
    reveal_strlit("TIGHT");
    reveal_strlit("THROUGH");
    reveal_strlit("TOP_AND_BOTTOM");
    reveal_strlit("BEHIND_TEXT");
    reveal_strlit("IN_FRONT_OF_TEXT");
    match t {
        TextWrap::Square => {
        },
        TextWrap::Tight => {
            assert("TIGHT"@.len() != "SQUARE"@.len());
        },
        TextWrap::Through => {
            assert("THROUGH"@.len() != "SQUARE"@.len());
            assert("THROUGH"@.len() != "TIGHT"@.len());
        },
        TextWrap::TopAndBottom => {
            assert("TOP_AND_BOTTOM"@.len() != "SQUARE"@.len());
            assert("TOP_AND_BOTTOM"@.len() != "TIGHT"@.len());
            assert("TOP_AND_BOTTOM"@.len() != "THROUGH"@.len());
        },
        TextWrap::BehindText => {
            assert("BEHIND_TEXT"@.len() != "SQUARE"@.len());
            assert("BEHIND_TEXT"@.len() != "TIGHT"@.len());
            assert("BEHIND_TEXT"@.len() != "THROUGH"@.len());
            assert("BEHIND_TEXT"@.len() != "TOP_AND_BOTTOM"@.len());
        },
        TextWrap::InFrontOfText => {
            assert("IN_FRONT_OF_TEXT"@.len() != "SQUARE"@.len());
            assert("IN_FRONT_OF_TEXT"@.len() != "TIGHT"@.len());
            assert("IN_FRONT_OF_TEXT"@.len() != "THROUGH"@.len());
            assert("IN_FRONT_OF_TEXT"@.len() != "TOP_AND_BOTTOM"@.len());
            assert("IN_FRONT_OF_TEXT"@.len() != "BEHIND_TEXT"@.len());
        },
    }
}

/// The value a reader takes `text_flow_text` text for: the vocabulary read back.
pub open spec fn text_flow_text_read(s: Seq<char>) -> Option<TextFlow> {
    if s == "BOTH_SIDES"@ {
        Some(TextFlow::BothSides)
    } else if s == "LEFT_ONLY"@ {
        Some(TextFlow::LeftOnly)
    } else if s == "RIGHT_ONLY"@ {
        Some(TextFlow::RightOnly)
    } else if s == "LARGEST_ONLY"@ {
        Some(TextFlow::LargestOnly)
    } else {
        None
    }
}

/// Each value is written with its own vocabulary word, which reads back as
/// that value, so that no two values are written alike.
pub proof fn law_text_flow_text_reads_back(t: TextFlow, u: TextFlow)
    ensures
        text_flow_text_read(text_flow_text(t)) == Some(t),
        text_flow_text(t) == text_flow_text(u) ==> t == u,
{
    lemma_text_flow_text_reads_back(t);
    lemma_text_flow_text_reads_back(u);
}

proof fn lemma_text_flow_text_reads_back(t: TextFlow)
    ensures
        text_flow_text_read(text_flow_text(t)) == Some(t),
{
    reveal_strlit("BOTH_SIDES");
    reveal_strlit("LEFT_ONLY");
    reveal_strlit("RIGHT_ONLY");
    reveal_strlit("LARGEST_ONLY");
    match t {
        TextFlow::BothSides => {
        },
        TextFlow::LeftOnly => {
            assert("LEFT_ONLY"@.len() != "BOTH_SIDES"@.len());
        },
        TextFlow::RightOnly => {
            assert("RIGHT_ONLY"@[0] != "BOTH_SIDES"@[0]);
            assert("RIGHT_ONLY"@.len() != "LEFT_ONLY"@.len());
        },
        TextFlow::LargestOnly => {
            assert("LARGEST_ONLY"@.len() != "BOTH_SIDES"@.len());
            assert("LARGEST_ONLY"@.len() != "LEFT_ONLY"@.len());
            assert("LARGEST_ONLY"@.len() != "RIGHT_ONLY"@.len());
        },
    }
}

/// The value a reader takes `vert_rel_to_text` text for: the vocabulary read back.
pub open spec fn vert_rel_to_text_read(s: Seq<char>) -> Option<VertRelTo> {
    if s == "PAPER"@ {
        Some(VertRelTo::Paper)
    } else if s == "PAGE"@ {
        Some(VertRelTo::Page)
    } else if s == "PARA"@ {
        Some(VertRelTo::Para)
    } else {
        None
    }
}

/// Each value is written with its own vocabulary word, which reads back as
/// that value, so that no two values are written alike.
pub proof fn law_vert_rel_to_text_reads_back(t: VertRelTo, u: VertRelTo)
    ensures
        vert_rel_to_text_read(vert_rel_to_text(t)) == Some(t),
        vert_rel_to_text(t) == vert_rel_to_text(u) ==> t == u,
{
    lemma_vert_rel_to_text_reads_back(t);
    lemma_vert_rel_to_text_reads_back(u);
}

proof fn lemma_vert_rel_to_text_reads_back(t: VertRelTo)
    ensures
        vert_rel_to_text_read(vert_rel_to_text(t)) == Some(t),
{
    reveal_strlit("PAPER");
    reveal_strlit("PAGE");
    reveal_strlit("PARA");
    match t {
        VertRelTo::Paper => {
        },
        VertRelTo::Page => {
            assert("PAGE"@.len() != "PAPER"@.len());
        },
        VertRelTo::Para => {
            assert("PARA"@.len() != "PAPER"@.len());
            assert("PARA"@[2] != "PAGE"@[2]);
        },
    }
}

/// The value a reader takes `horz_rel_to_text` text for: the vocabulary read back.
pub open spec fn horz_rel_to_text_read(s: Seq<char>) -> Option<HorzRelTo> {
    if s == "PAPER"@ {
        Some(HorzRelTo::Paper)
    } else if s == "PAGE"@ {
        Some(HorzRelTo::Page)
    } else if s == "COLUMN"@ {
        Some(HorzRelTo::Column)
    } else if s == "PARA"@ {
        Some(HorzRelTo::Para)
    } else {
        None
    }
}

/// Each value is written with its own vocabulary word, which reads back as
/// that value, so that no two values are written alike.
pub proof fn law_horz_rel_to_text_reads_back(t: HorzRelTo, u: HorzRelTo)
    ensures
        horz_rel_to_text_read(horz_rel_to_text(t)) == Some(t),
        horz_rel_to_text(t) == horz_rel_to_text(u) ==> t == u,
{
    lemma_horz_rel_to_text_reads_back(t);
    lemma_horz_rel_to_text_reads_back(u);
}

proof fn lemma_horz_rel_to_text_reads_back(t: HorzRelTo)
    ensures
        horz_rel_to_text_read(horz_rel_to_text(t)) == Some(t),
{
    reveal_strlit("PAPER");
    reveal_strlit("PAGE");
    reveal_strlit("COLUMN");
    reveal_strlit("PARA");
    match t {
        HorzRelTo::Paper => {
        },
        HorzRelTo::Page => {
            assert("PAGE"@.len() != "PAPER"@.len());
        },
        HorzRelTo::Column => {
            assert("COLUMN"@.len() != "PAPER"@.len());
            assert("COLUMN"@.len() != "PAGE"@.len());
        },
        HorzRelTo::Para => {
            assert("PARA"@.len() != "PAPER"@.len());
            assert("PARA"@[2] != "PAGE"@[2]);
            assert("PARA"@.len() != "COLUMN"@.len());
        },
    }
}

/// The value a reader takes `vert_align_text` text for: the vocabulary read back.
pub open spec fn vert_align_text_read(s: Seq<char>) -> Option<VertAlign> {
    if s == "TOP"@ {
        Some(VertAlign::Top)
    } else if s == "CENTER"@ {
        Some(VertAlign::Center)
    } else if s == "BOTTOM"@ {
        Some(VertAlign::Bottom)
    } else if s == "INSIDE"@ {
        Some(VertAlign::Inside)
    } else if s == "OUTSIDE"@ {
        Some(VertAlign::Outside)
    } else {
        None
    }
}

/// Each value is written with its own vocabulary word, which reads back as
/// that value, so that no two values are written alike.
pub proof fn law_vert_align_text_reads_back(t: VertAlign, u: VertAlign)
    ensures
        vert_align_text_read(vert_align_text(t)) == Some(t),
        vert_align_text(t) == vert_align_text(u) ==> t == u,
{
    lemma_vert_align_text_reads_back(t);
    lemma_vert_align_text_reads_back(u);
}

proof fn lemma_vert_align_text_reads_back(t: VertAlign)
    ensures
        vert_align_text_read(vert_align_text(t)) == Some(t),
{
    reveal_strlit("TOP");
    reveal_strlit("CENTER");
    reveal_strlit("BOTTOM");
    reveal_strlit("INSIDE");
    reveal_strlit("OUTSIDE");
    match t {
        VertAlign::Top => {
        },
        VertAlign::Center => {
            assert("CENTER"@.len() != "TOP"@.len());
        },
        VertAlign::Bottom => {
            assert("BOTTOM"@.len() != "TOP"@.len());
            assert("BOTTOM"@[0] != "CENTER"@[0]);
        },
        VertAlign::Inside => {
            assert("INSIDE"@.len() != "TOP"@.len());
            assert("INSIDE"@[0] != "CENTER"@[0]);
            assert("INSIDE"@[0] != "BOTTOM"@[0]);
        },
        VertAlign::Outside => {
            assert("OUTSIDE"@.len() != "TOP"@.len());
            assert("OUTSIDE"@.len() != "CENTER"@.len());
            assert("OUTSIDE"@.len() != "BOTTOM"@.len());
            assert("OUTSIDE"@.len() != "INSIDE"@.len());
        },
    }
}

/// The value a reader takes `horz_align_text` text for: the vocabulary read back.
pub open spec fn horz_align_text_read(s: Seq<char>) -> Option<HorzAlign> {
    if s == "LEFT"@ {
        Some(HorzAlign::Left)
    } else if s == "CENTER"@ {
        Some(HorzAlign::Center)
    } else if s == "RIGHT"@ {
        Some(HorzAlign::Right)
    } else if s == "INSIDE"@ {
        Some(HorzAlign::Inside)
    } else if s == "OUTSIDE"@ {
        Some(HorzAlign::Outside)
    } else {
        None
    }
}

/// Each value is written with its own vocabulary word, which reads back as
/// that value, so that no two values are written alike.
pub proof fn law_horz_align_text_reads_back(t: HorzAlign, u: HorzAlign)
    ensures
        horz_align_text_read(horz_align_text(t)) == Some(t),
        horz_align_text(t) == horz_align_text(u) ==> t == u,
{
    lemma_horz_align_text_reads_back(t);
    lemma_horz_align_text_reads_back(u);
}

proof fn lemma_horz_align_text_reads_back(t: HorzAlign)
    ensures
        horz_align_text_read(horz_align_text(t)) == Some(t),
{
    reveal_strlit("LEFT");
    reveal_strlit("CENTER");
    reveal_strlit("RIGHT");
    reveal_strlit("INSIDE");
    reveal_strlit("OUTSIDE");
    match t {
        HorzAlign::Left => {
        },
        HorzAlign::Center => {
            assert("CENTER"@.len() != "LEFT"@.len());
        },
        HorzAlign::Right => {
            assert("RIGHT"@.len() != "LEFT"@.len());
            assert("RIGHT"@.len() != "CENTER"@.len());
        },
        HorzAlign::Inside => {
            assert("INSIDE"@.len() != "LEFT"@.len());
            assert("INSIDE"@[0] != "CENTER"@[0]);
            assert("INSIDE"@.len() != "RIGHT"@.len());
        },
        HorzAlign::Outside => {
            assert("OUTSIDE"@.len() != "LEFT"@.len());
            assert("OUTSIDE"@.len() != "CENTER"@.len());
            assert("OUTSIDE"@.len() != "RIGHT"@.len());
            assert("OUTSIDE"@.len() != "INSIDE"@.len());
        },
    }
}

/// The value a reader takes `image_effect_text` text for: the vocabulary read back.
pub open spec fn image_effect_text_read(s: Seq<char>) -> Option<ImageEffect> {
    if s == "REAL_PIC"@ {
        Some(ImageEffect::RealPic)
    } else if s == "GRAY_SCALE"@ {
        Some(ImageEffect::GrayScale)
    } else if s == "BLACK_WHITE"@ {
        Some(ImageEffect::BlackWhite)
    } else if s == "PATTERN_8_8"@ {
        Some(ImageEffect::Pattern8x8)
    } else {
        None
    }
}

/// Each value is written with its own vocabulary word, which reads back as
/// that value, so that no two values are written alike.
pub proof fn law_image_effect_text_reads_back(t: ImageEffect, u: ImageEffect)
    ensures
        image_effect_text_read(image_effect_text(t)) == Some(t),
        image_effect_text(t) == image_effect_text(u) ==> t == u,
{
    lemma_image_effect_text_reads_back(t);
    lemma_image_effect_text_reads_back(u);
}

proof fn lemma_image_effect_text_reads_back(t: ImageEffect)
    ensures
        image_effect_text_read(image_effect_text(t)) == Some(t),
{
    reveal_strlit("REAL_PIC");
    reveal_strlit("GRAY_SCALE");
    reveal_strlit("BLACK_WHITE");
    reveal_strlit("PATTERN_8_8");
    match t {
        ImageEffect::RealPic => {
        },
        ImageEffect::GrayScale => {
            assert("GRAY_SCALE"@.len() != "REAL_PIC"@.len());
        },
        ImageEffect::BlackWhite => {
            assert("BLACK_WHITE"@.len() != "REAL_PIC"@.len());
            assert("BLACK_WHITE"@.len() != "GRAY_SCALE"@.len());
        },
        ImageEffect::Pattern8x8 => {
            assert("PATTERN_8_8"@.len() != "REAL_PIC"@.len());
            assert("PATTERN_8_8"@.len() != "GRAY_SCALE"@.len());
            assert("PATTERN_8_8"@[0] != "BLACK_WHITE"@[0]);
        },
    }
}

/// The value a reader takes `link_line_type_text` text for: the vocabulary read back.
pub open spec fn link_line_type_text_read(s: Seq<char>) -> Option<LinkLineType> {
    if s == "STRAIGHT_NOARROW"@ {
        Some(LinkLineType::StraightNoArrow)
    } else if s == "STRAIGHT_ONEWAY"@ {
        Some(LinkLineType::StraightOneWay)
    } else if s == "STRAIGHT_BOTH"@ {
        Some(LinkLineType::StraightBoth)
    } else if s == "STROKE_NOARROW"@ {
        Some(LinkLineType::StrokeNoArrow)
    } else if s == "STROKE_ONEWAY"@ {
        Some(LinkLineType::StrokeOneWay)
    } else if s == "STROKE_BOTH"@ {
        Some(LinkLineType::StrokeBoth)
    } else if s == "ARC_NOARROW"@ {
        Some(LinkLineType::ArcNoArrow)
    } else if s == "ARC_ONEWAY"@ {
        Some(LinkLineType::ArcOneWay)
    } else if s == "ARC_BOTH"@ {
        Some(LinkLineType::ArcBoth)
    } else {
        None
    }
}

/// Each value is written with its own vocabulary word, which reads back as
/// that value, so that no two values are written alike.
pub proof fn law_link_line_type_text_reads_back(t: LinkLineType, u: LinkLineType)
    ensures
        link_line_type_text_read(link_line_type_text(t)) == Some(t),
        link_line_type_text(t) == link_line_type_text(u) ==> t == u,
{
    lemma_link_line_type_text_reads_back(t);
    lemma_link_line_type_text_reads_back(u);
}

proof fn lemma_link_line_type_text_reads_back(t: LinkLineType)
    ensures
        link_line_type_text_read(link_line_type_text(t)) == Some(t),
{
    reveal_strlit("STRAIGHT_NOARROW");
    reveal_strlit("STRAIGHT_ONEWAY");
    reveal_strlit("STRAIGHT_BOTH");
    reveal_strlit("STROKE_NOARROW");
    reveal_strlit("STROKE_ONEWAY");
    reveal_strlit("STROKE_BOTH");
    reveal_strlit("ARC_NOARROW");
    reveal_strlit("ARC_ONEWAY");
    reveal_strlit("ARC_BOTH");
    match t {
        LinkLineType::StraightNoArrow => {
        },
        LinkLineType::StraightOneWay => {
            assert("STRAIGHT_ONEWAY"@.len() != "STRAIGHT_NOARROW"@.len());
        },
        LinkLineType::StraightBoth => {
            assert("STRAIGHT_BOTH"@.len() != "STRAIGHT_NOARROW"@.len());
            assert("STRAIGHT_BOTH"@.len() != "STRAIGHT_ONEWAY"@.len());
        },
        LinkLineType::StrokeNoArrow => {
            assert("STROKE_NOARROW"@.len() != "STRAIGHT_NOARROW"@.len());
            assert("STROKE_NOARROW"@.len() != "STRAIGHT_ONEWAY"@.len());
            assert("STROKE_NOARROW"@.len() != "STRAIGHT_BOTH"@.len());
        },
        LinkLineType::StrokeOneWay => {
            assert("STROKE_ONEWAY"@.len() != "STRAIGHT_NOARROW"@.len());
            assert("STROKE_ONEWAY"@.len() != "STRAIGHT_ONEWAY"@.len());
            assert("STROKE_ONEWAY"@[3] != "STRAIGHT_BOTH"@[3]);
            assert("STROKE_ONEWAY"@.len() != "STROKE_NOARROW"@.len());
        },
        LinkLineType::StrokeBoth => {
            assert("STROKE_BOTH"@.len() != "STRAIGHT_NOARROW"@.len());
            assert("STROKE_BOTH"@.len() != "STRAIGHT_ONEWAY"@.len());
            assert("STROKE_BOTH"@.len() != "STRAIGHT_BOTH"@.len());
            assert("STROKE_BOTH"@.len() != "STROKE_NOARROW"@.len());
            assert("STROKE_BOTH"@.len() != "STROKE_ONEWAY"@.len());
        },
        LinkLineType::ArcNoArrow => {
            assert("ARC_NOARROW"@.len() != "STRAIGHT_NOARROW"@.len());
            assert("ARC_NOARROW"@.len() != "STRAIGHT_ONEWAY"@.len());
            assert("ARC_NOARROW"@.len() != "STRAIGHT_BOTH"@.len());
            assert("ARC_NOARROW"@.len() != "STROKE_NOARROW"@.len());
            assert("ARC_NOARROW"@.len() != "STROKE_ONEWAY"@.len());
            assert("ARC_NOARROW"@[0] != "STROKE_BOTH"@[0]);
        },
        LinkLineType::ArcOneWay => {
            assert("ARC_ONEWAY"@.len() != "STRAIGHT_NOARROW"@.len());
            assert("ARC_ONEWAY"@.len() != "STRAIGHT_ONEWAY"@.len());
            assert("ARC_ONEWAY"@.len() != "STRAIGHT_BOTH"@.len());
            assert("ARC_ONEWAY"@.len() != "STROKE_NOARROW"@.len());
            assert("ARC_ONEWAY"@.len() != "STROKE_ONEWAY"@.len());
            assert("ARC_ONEWAY"@.len() != "STROKE_BOTH"@.len());
            assert("ARC_ONEWAY"@.len() != "ARC_NOARROW"@.len());
        },
        LinkLineType::ArcBoth => {
            assert("ARC_BOTH"@.len() != "STRAIGHT_NOARROW"@.len());
            assert("ARC_BOTH"@.len() != "STRAIGHT_ONEWAY"@.len());
            assert("ARC_BOTH"@.len() != "STRAIGHT_BOTH"@.len());
            assert("ARC_BOTH"@.len() != "STROKE_NOARROW"@.len());
            assert("ARC_BOTH"@.len() != "STROKE_ONEWAY"@.len());
            assert("ARC_BOTH"@.len() != "STROKE_BOTH"@.len());
            assert("ARC_BOTH"@.len() != "ARC_NOARROW"@.len());
            assert("ARC_BOTH"@.len() != "ARC_ONEWAY"@.len());
        },
    }
}

/// The value a reader takes `numbering_type_text` text for: the vocabulary read back.
pub open spec fn numbering_type_text_read(s: Seq<char>) -> Option<ObjectNumberingType> {
    if s == "PICTURE"@ {
        Some(ObjectNumberingType::Picture)
    } else if s == "TABLE"@ {
        Some(ObjectNumberingType::Table)
    } else if s == "EQUATION"@ {
        Some(ObjectNumberingType::Equation)
    } else if s == "NONE"@ {
        Some(ObjectNumberingType::Unnumbered)
    } else {
        None
    }
}

/// Each value is written with its own vocabulary word, which reads back as
/// that value, so that no two values are written alike.
pub proof fn law_numbering_type_text_reads_back(t: ObjectNumberingType, u: ObjectNumberingType)
    ensures
        numbering_type_text_read(numbering_type_text(t)) == Some(t),
        numbering_type_text(t) == numbering_type_text(u) ==> t == u,
{
    lemma_numbering_type_text_reads_back(t);
    lemma_numbering_type_text_reads_back(u);
}

proof fn lemma_numbering_type_text_reads_back(t: ObjectNumberingType)
    ensures
        numbering_type_text_read(numbering_type_text(t)) == Some(t),
{
    reveal_strlit("PICTURE");
    reveal_strlit("TABLE");
    reveal_strlit("EQUATION");
    reveal_strlit("NONE");
    match t {
        ObjectNumberingType::Picture => {
        },
        ObjectNumberingType::Table => {
            assert("TABLE"@.len() != "PICTURE"@.len());
        },
        ObjectNumberingType::Equation => {
            assert("EQUATION"@.len() != "PICTURE"@.len());
            assert("EQUATION"@.len() != "TABLE"@.len());
        },
        ObjectNumberingType::Unnumbered => {
            assert("NONE"@.len() != "PICTURE"@.len());
            assert("NONE"@.len() != "TABLE"@.len());
            assert("NONE"@.len() != "EQUATION"@.len());
        },
    }
}

/// The value a reader takes `table_page_break_text` text for: the vocabulary read back.
pub open spec fn table_page_break_text_read(s: Seq<char>) -> Option<TablePageBreak> {
    if s == "NONE"@ {
        Some(TablePageBreak::NoBreak)
    } else if s == "TABLE"@ {
        Some(TablePageBreak::CellBreak)
    } else if s == "CELL"@ {
        Some(TablePageBreak::RowBreak)
    } else {
        None
    }
}

/// Each value is written with its own vocabulary word, which reads back as
/// that value, so that no two values are written alike.
pub proof fn law_table_page_break_text_reads_back(t: TablePageBreak, u: TablePageBreak)
    ensures
        table_page_break_text_read(table_page_break_text(t)) == Some(t),
        table_page_break_text(t) == table_page_break_text(u) ==> t == u,
{
    lemma_table_page_break_text_reads_back(t);
    lemma_table_page_break_text_reads_back(u);
}

proof fn lemma_table_page_break_text_reads_back(t: TablePageBreak)
    ensures
        table_page_break_text_read(table_page_break_text(t)) == Some(t),
{
    reveal_strlit("NONE");
    reveal_strlit("TABLE");
    reveal_strlit("CELL");
    match t {
        TablePageBreak::NoBreak => {
        },
        TablePageBreak::CellBreak => {
            assert("TABLE"@.len() != "NONE"@.len());
        },
        TablePageBreak::RowBreak => {
            assert("CELL"@[0] != "NONE"@[0]);
            assert("CELL"@.len() != "TABLE"@.len());
        },
    }
}

/// The value a reader takes `cell_vert_align_text` text for: the vocabulary read back.
pub open spec fn cell_vert_align_text_read(s: Seq<char>) -> Option<VerticalAlign> {
    if s == "TOP"@ {
        Some(VerticalAlign::Top)
    } else if s == "CENTER"@ {
        Some(VerticalAlign::Center)
    } else if s == "BOTTOM"@ {
        Some(VerticalAlign::Bottom)
    } else {
        None
    }
}

/// Each value is written with its own vocabulary word, which reads back as
/// that value, so that no two values are written alike.
pub proof fn law_cell_vert_align_text_reads_back(t: VerticalAlign, u: VerticalAlign)
    ensures
        cell_vert_align_text_read(cell_vert_align_text(t)) == Some(t),
        cell_vert_align_text(t) == cell_vert_align_text(u) ==> t == u,
{
    lemma_cell_vert_align_text_reads_back(t);
    lemma_cell_vert_align_text_reads_back(u);
}

proof fn lemma_cell_vert_align_text_reads_back(t: VerticalAlign)
    ensures
        cell_vert_align_text_read(cell_vert_align_text(t)) == Some(t),
{
    reveal_strlit("TOP");
    reveal_strlit("CENTER");
    reveal_strlit("BOTTOM");
    match t {
        VerticalAlign::Top => {
        },
        VerticalAlign::Center => {
            assert("CENTER"@.len() != "TOP"@.len());
        },
        VerticalAlign::Bottom => {
            assert("BOTTOM"@.len() != "TOP"@.len());
            assert("BOTTOM"@[0] != "CENTER"@[0]);
        },
    }
}


/// The value of an upper-case hexadecimal digit.
pub open spec fn hex_value(c: char) -> int {
    if '0' <= c <= '9' {
        c as int - '0' as int
    } else {
        c as int - 'A' as int + 10
    }
}

/// The byte two upper-case hexadecimal digits at `k` stand for.
pub open spec fn hex_byte_at(s: Seq<char>, k: int) -> int {
    hex_value(s[k]) * 16 + hex_value(s[k + 1])
}

proof fn lemma_hex2_reads_back(b: u8)
    ensures
        hex2_upper(b).len() == 2,
        hex_byte_at(hex2_upper(b), 0) == b,
{
    let hi = (b / 16) as nat;
    let lo = (b % 16) as nat;
    assert(hi < 16 && lo < 16);
    assert(hex_value(hex_upper_char(hi)) == hi);
    assert(hex_value(hex_upper_char(lo)) == lo);
}

/// A colour written as hexadecimal reads back as the colour: `none` for
/// `0xFFFFFFFF`; else `#` and then, high to low, the alpha byte when it is
/// not zero, then the red (low), green and blue (third) bytes.
pub proof fn law_color_hex_reads_back(c: u32)
    ensures
        c == 0xFFFF_FFFF ==> color_hex_text(c) == "none"@,
        c != 0xFFFF_FFFF && c / 16777216 == 0 ==> {
            let t = color_hex_text(c);
            &&& t.len() == 7 && t[0] == '#'
            &&& hex_byte_at(t, 1) == c % 256
            &&& hex_byte_at(t, 3) == (c / 256) % 256
            &&& hex_byte_at(t, 5) == (c / 65536) % 256
        },
        c != 0xFFFF_FFFF && c / 16777216 != 0 ==> {
            let t = color_hex_text(c);
            &&& t.len() == 9 && t[0] == '#'
            &&& hex_byte_at(t, 1) == c / 16777216
            &&& hex_byte_at(t, 3) == c % 256
            &&& hex_byte_at(t, 5) == (c / 256) % 256
            &&& hex_byte_at(t, 7) == (c / 65536) % 256
        },
{
    let r = (c % 256) as u8;
    let g = ((c / 256) % 256) as u8;
    let b = ((c / 65536) % 256) as u8;
    let a = (c / 16777216) as u8;
    lemma_hex2_reads_back(r);
    lemma_hex2_reads_back(g);
    lemma_hex2_reads_back(b);
    lemma_hex2_reads_back(a);
    let t = color_hex_text(c);
    if c != 0xFFFF_FFFF {
        if a == 0 {
            assert(t == seq!['#'] + hex2_upper(r) + hex2_upper(g) + hex2_upper(b));
            assert(t[1] == hex2_upper(r)[0] && t[2] == hex2_upper(r)[1]);
            assert(t[3] == hex2_upper(g)[0] && t[4] == hex2_upper(g)[1]);
            assert(t[5] == hex2_upper(b)[0] && t[6] == hex2_upper(b)[1]);
        } else {
            assert(t == seq!['#'] + hex2_upper(a) + hex2_upper(r) + hex2_upper(g) + hex2_upper(b));
            assert(t[1] == hex2_upper(a)[0] && t[2] == hex2_upper(a)[1]);
            assert(t[3] == hex2_upper(r)[0] && t[4] == hex2_upper(r)[1]);
            assert(t[5] == hex2_upper(g)[0] && t[6] == hex2_upper(g)[1]);
            assert(t[7] == hex2_upper(b)[0] && t[8] == hex2_upper(b)[1]);
        }
    }
}

} // verus!
