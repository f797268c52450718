//! Which floating objects reserve flow space, and how a stored offset is read.

use crate::model::shape::{CommonObjAttr, TextWrap, VertAlign, VertRelTo};
use vstd::prelude::*;

verus! {

/// An HWPUNIT value read back through a signed field: the same 32 bits as a
/// two's-complement number.
pub open spec fn signed_of(value: u32) -> int {
    if value < 0x8000_0000 {
        value as int
    } else {
        value as int - 0x1_0000_0000
    }
}

/// Reads an HWPUNIT value that may have been stored through a signed field.
pub fn signed_hwpunit(value: u32) -> (r: i32)
    ensures
        r == signed_of(value),
{
    let r = value as i32;
    assert(r == signed_of(value)) by (bit_vector)
        requires
            r == value as i32,
    ;
    r
}

/// A non-inline `TopAndBottom` object placed relative to its paragraph.
pub open spec fn para_topbottom_float(common: CommonObjAttr) -> bool {
    !common.treat_as_char && common.text_wrap == TextWrap::TopAndBottom && common.vert_rel_to
        == VertRelTo::Para
}

/// A non-inline `Square`, `Tight` or `Through` object placed relative to its
/// paragraph.
pub open spec fn para_square_family_float(common: CommonObjAttr) -> bool {
    !common.treat_as_char && (common.text_wrap == TextWrap::Square || common.text_wrap
        == TextWrap::Tight || common.text_wrap == TextWrap::Through) && common.vert_rel_to
        == VertRelTo::Para
}

/// A non-inline `TopAndBottom` object fixed to the bottom of the page.
pub open spec fn page_bottom_fixed_float(common: CommonObjAttr) -> bool {
    !common.treat_as_char && common.text_wrap == TextWrap::TopAndBottom && common.vert_rel_to
        == VertRelTo::Page && common.vert_align == VertAlign::Bottom
}

/// The object reserves a band in its paragraph's flow. All three conditions
/// are needed: an object fixed to the page bottom is handled separately.
pub fn is_para_topbottom_float(common: &CommonObjAttr) -> (b: bool)
    ensures
        b == para_topbottom_float(*common),
{
    !common.treat_as_char && common.text_wrap == TextWrap::TopAndBottom && common.vert_rel_to
        == VertRelTo::Para
}

/// The object is of the square family and placed relative to its paragraph.
pub fn is_para_square_family_float(common: &CommonObjAttr) -> (b: bool)
    ensures
        b == para_square_family_float(*common),
{
    !common.treat_as_char && (common.text_wrap == TextWrap::Square || common.text_wrap
        == TextWrap::Tight || common.text_wrap == TextWrap::Through) && common.vert_rel_to
        == VertRelTo::Para
}

/// The object is fixed to the bottom of the page and does not consume flow.
pub fn is_page_bottom_fixed_float(common: &CommonObjAttr) -> (b: bool)
    ensures
        b == page_bottom_fixed_float(*common),
{
    !common.treat_as_char && common.text_wrap == TextWrap::TopAndBottom && common.vert_rel_to
        == VertRelTo::Page && common.vert_align == VertAlign::Bottom
}

/// A paragraph-band object and a page-bottom object are never the same
/// object: the two reservations cannot both apply.
pub proof fn law_band_kinds_exclusive(common: CommonObjAttr)
    ensures
        !(para_topbottom_float(common) && page_bottom_fixed_float(common)),
        !(para_topbottom_float(common) && para_square_family_float(common)),
{
}

} // verus!
