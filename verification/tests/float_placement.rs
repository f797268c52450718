use rhwp::model::shape::{CommonObjAttr, HorzAlign, HorzRelTo, TextWrap, VertAlign, VertRelTo};
use rhwp::renderer::float_placement::{
    is_page_bottom_fixed_float, is_para_square_family_float, is_para_topbottom_float,
    signed_hwpunit,
};

fn base_common() -> CommonObjAttr {
    CommonObjAttr {
        text_wrap: TextWrap::TopAndBottom,
        vert_rel_to: VertRelTo::Para,
        horz_rel_to: HorzRelTo::Column,
        horz_align: HorzAlign::Left,
        ..Default::default()
    }
}

#[test]
fn signed_hwpunit_preserves_negative_offsets() {
    assert_eq!(signed_hwpunit((-43892i32) as u32), -43892);
    assert_eq!(signed_hwpunit(51100), 51100);
}

#[test]
fn para_topbottom_float_predicate_requires_non_tac_para_topbottom() {
    let mut common = base_common();
    assert!(is_para_topbottom_float(&common));

    common.treat_as_char = true;
    assert!(!is_para_topbottom_float(&common));

    common.treat_as_char = false;
    common.text_wrap = TextWrap::Square;
    assert!(!is_para_topbottom_float(&common));

    common.text_wrap = TextWrap::TopAndBottom;
    common.vert_rel_to = VertRelTo::Page;
    assert!(!is_para_topbottom_float(&common));
}

#[test]
fn signed_hwpunit_extremes() {
    assert_eq!(signed_hwpunit(0x8000_0000), i32::MIN);
    assert_eq!(signed_hwpunit(0xFFFF_FFFF), -1);
    assert_eq!(signed_hwpunit(0x7FFF_FFFF), i32::MAX);
    assert_eq!(signed_hwpunit(0), 0);
}

#[test]
fn square_family_needs_para_anchor() {
    let mut common = base_common();
    assert!(!is_para_square_family_float(&common));
    for wrap in [TextWrap::Square, TextWrap::Tight, TextWrap::Through] {
        common.text_wrap = wrap;
        assert!(is_para_square_family_float(&common));
    }
    common.vert_rel_to = VertRelTo::Page;
    assert!(!is_para_square_family_float(&common));
    common.vert_rel_to = VertRelTo::Para;
    common.treat_as_char = true;
    assert!(!is_para_square_family_float(&common));
}

#[test]
fn page_bottom_fixed_needs_page_bottom() {
    let mut common = base_common();
    assert!(!is_page_bottom_fixed_float(&common));
    common.vert_rel_to = VertRelTo::Page;
    common.vert_align = VertAlign::Bottom;
    assert!(is_page_bottom_fixed_float(&common));
    // the two band kinds never hold together
    assert!(!is_para_topbottom_float(&common));
    common.vert_align = VertAlign::Top;
    assert!(!is_page_bottom_fixed_float(&common));
}
