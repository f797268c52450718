use rhwp::model::control::{TablePageBreak, VerticalAlign};
use rhwp::model::image::ImageEffect;
use rhwp::model::shape::{
    HorzAlign, HorzRelTo, LinkLineType, ObjectNumberingType, TextFlow, TextWrap, VertAlign, VertRelTo,
};
use rhwp::serializer::hwpx::vocab::{
    arrow_size_str, cell_vert_align_str, color_to_hex, hatch_style_str, horz_align_str,
    horz_rel_to_str, image_effect_str, link_line_type_str, numbering_type_str, table_page_break_str,
    text_flow_str, text_wrap_str, vert_align_str, vert_rel_to_str,
};

#[test]
fn layout_vocabulary() {
    assert_eq!(text_wrap_str(TextWrap::TopAndBottom), "TOP_AND_BOTTOM");
    assert_eq!(text_wrap_str(TextWrap::InFrontOfText), "IN_FRONT_OF_TEXT");
    assert_eq!(text_flow_str(TextFlow::LargestOnly), "LARGEST_ONLY");
    assert_eq!(vert_rel_to_str(VertRelTo::Para), "PARA");
    assert_eq!(horz_rel_to_str(HorzRelTo::Column), "COLUMN");
    assert_eq!(vert_align_str(VertAlign::Outside), "OUTSIDE");
    assert_eq!(horz_align_str(HorzAlign::Inside), "INSIDE");
    assert_eq!(cell_vert_align_str(VerticalAlign::Center), "CENTER");
}

#[test]
fn object_vocabulary() {
    assert_eq!(image_effect_str(ImageEffect::Pattern8x8), "PATTERN_8_8");
    assert_eq!(link_line_type_str(LinkLineType::ArcOneWay), "ARC_ONEWAY");
    assert_eq!(numbering_type_str(ObjectNumberingType::Unnumbered), "NONE");
    assert_eq!(numbering_type_str(ObjectNumberingType::Equation), "EQUATION");
}

#[test]
fn table_page_break_is_the_reader_inverse() {
    assert_eq!(table_page_break_str(TablePageBreak::NoBreak), "NONE");
    assert_eq!(table_page_break_str(TablePageBreak::CellBreak), "TABLE");
    assert_eq!(table_page_break_str(TablePageBreak::RowBreak), "CELL");
}

#[test]
fn numbered_styles_with_fallbacks() {
    assert_eq!(arrow_size_str(0), "SMALL_SMALL");
    assert_eq!(arrow_size_str(4), "MEDIUM_MEDIUM");
    assert_eq!(arrow_size_str(8), "BIG_BIG");
    assert_eq!(arrow_size_str(9), "SMALL_SMALL");
    assert_eq!(hatch_style_str(3), "BACK_SLASH");
    assert_eq!(hatch_style_str(0), "CROSS_DIAGONAL");
    assert_eq!(hatch_style_str(-7), "CROSS_DIAGONAL");
}

#[test]
fn colors_as_written() {
    assert_eq!(color_to_hex(0xFFFF_FFFF), "none");
    assert_eq!(color_to_hex(0x0000_00FF), "#FF0000");
    assert_eq!(color_to_hex(0x00FF_0000), "#0000FF");
    assert_eq!(color_to_hex(0x0012_3456), "#563412");
    assert_eq!(color_to_hex(0x8012_3456), "#80563412");
}
