//! Drawing objects in HWPX: the child elements shared by rectangles,
//! lines, containers and OLE objects, which carry a shape component's
//! geometry, its outline and shadow, its size, position and margins.

use crate::model::image::ShapeComponentAttr;
use crate::model::shape::{CommonObjAttr, DrawingObjAttr};
use crate::model::style::{Fill, FillType, GradientFill, ImageFill, ImageFillMode, ShapeBorderLine, SolidFill};
use crate::serializer::hwpx::field::{bool01, bool01_text};
use crate::serializer::hwpx::vocab::{
    arrow_size_str, arrow_size_text, color_hex_text, color_to_hex, hatch_style_str,
    hatch_style_text, horz_align_str, horz_align_text,
    horz_rel_to_str, horz_rel_to_text, vert_align_str, vert_align_text, vert_rel_to_str,
    vert_rel_to_text,
};
use crate::serializer::hwpx::xml::{
    attr, attr_str, attrs_view, dec, empty_tag, end_tag, sdec, start_tag, start_tag_attrs, text,
    XmlItem, XmlWriter,
};
use crate::text::{decimal, signed_decimal};
use vstd::prelude::*;

verus! {

/// `<hp:offset x y/>`: the component's offset in its group.
pub fn write_offset(w: &mut XmlWriter, sa: &ShapeComponentAttr)
    ensures
        final(w)@ == old(w)@.push(
            XmlItem::Empty(
                "hp:offset"@,
                seq![
                    ("x"@, signed_decimal(sa.offset_x as int)),
                    ("y"@, signed_decimal(sa.offset_y as int)),
                ],
            ),
        ),
{
    let attrs = vec![attr("x", sdec(sa.offset_x as i64)), attr("y", sdec(sa.offset_y as i64))];
    proof {
        assert(attrs_view(attrs@) =~= seq![
            ("x"@, signed_decimal(sa.offset_x as int)),
            ("y"@, signed_decimal(sa.offset_y as int)),
        ]);
    }
    empty_tag(w, "hp:offset", attrs);
}

/// `<hp:orgSz width height/>`: the original size.
pub fn write_org_sz(w: &mut XmlWriter, sa: &ShapeComponentAttr)
    ensures
        final(w)@ == old(w)@.push(
            XmlItem::Empty(
                "hp:orgSz"@,
                seq![
                    ("width"@, decimal(sa.original_width as nat)),
                    ("height"@, decimal(sa.original_height as nat)),
                ],
            ),
        ),
{
    let attrs = vec![
        attr("width", dec(sa.original_width as u64)),
        attr("height", dec(sa.original_height as u64)),
    ];
    proof {
        assert(attrs_view(attrs@) =~= seq![
            ("width"@, decimal(sa.original_width as nat)),
            ("height"@, decimal(sa.original_height as nat)),
        ]);
    }
    empty_tag(w, "hp:orgSz", attrs);
}

/// A current dimension as written: 0 where the file had 0 (and the
/// original size was taken in its place).
pub open spec fn cur_dim(v: u32, was_zero: bool) -> nat {
    if was_zero {
        0
    } else {
        v as nat
    }
}

/// `<hp:curSz width height/>`: the current size.
pub fn write_cur_sz(w: &mut XmlWriter, sa: &ShapeComponentAttr)
    ensures
        final(w)@ == old(w)@.push(
            XmlItem::Empty(
                "hp:curSz"@,
                seq![
                    ("width"@, decimal(cur_dim(sa.current_width, sa.current_width_was_zero))),
                    ("height"@, decimal(cur_dim(sa.current_height, sa.current_height_was_zero))),
                ],
            ),
        ),
{
    let width: u32 = if sa.current_width_was_zero {
        0
    } else {
        sa.current_width
    };
    let height: u32 = if sa.current_height_was_zero {
        0
    } else {
        sa.current_height
    };
    let attrs = vec![attr("width", dec(width as u64)), attr("height", dec(height as u64))];
    proof {
        assert(attrs_view(attrs@) =~= seq![
            ("width"@, decimal(cur_dim(sa.current_width, sa.current_width_was_zero))),
            ("height"@, decimal(cur_dim(sa.current_height, sa.current_height_was_zero))),
        ]);
    }
    empty_tag(w, "hp:curSz", attrs);
}

/// `<hp:flip horizontal vertical/>`.
pub fn write_flip(w: &mut XmlWriter, sa: &ShapeComponentAttr)
    ensures
        final(w)@ == old(w)@.push(
            XmlItem::Empty(
                "hp:flip"@,
                seq![
                    ("horizontal"@, bool01_text(sa.horz_flip)),
                    ("vertical"@, bool01_text(sa.vert_flip)),
                ],
            ),
        ),
{
    let attrs = vec![
        attr_str("horizontal", bool01(sa.horz_flip)),
        attr_str("vertical", bool01(sa.vert_flip)),
    ];
    proof {
        assert(attrs_view(attrs@) =~= seq![
            ("horizontal"@, bool01_text(sa.horz_flip)),
            ("vertical"@, bool01_text(sa.vert_flip)),
        ]);
    }
    empty_tag(w, "hp:flip", attrs);
}

/// `<hp:rotationInfo angle centerX centerY rotateimage/>`.
pub fn write_rotation_info(w: &mut XmlWriter, sa: &ShapeComponentAttr)
    ensures
        final(w)@ == old(w)@.push(
            XmlItem::Empty(
                "hp:rotationInfo"@,
                seq![
                    ("angle"@, signed_decimal(sa.rotation_angle as int)),
                    ("centerX"@, signed_decimal(sa.rotation_center.x as int)),
                    ("centerY"@, signed_decimal(sa.rotation_center.y as int)),
                    ("rotateimage"@, bool01_text(sa.rotate_image)),
                ],
            ),
        ),
{
    let attrs = vec![
        attr("angle", sdec(sa.rotation_angle as i64)),
        attr("centerX", sdec(sa.rotation_center.x as i64)),
        attr("centerY", sdec(sa.rotation_center.y as i64)),
        attr_str("rotateimage", bool01(sa.rotate_image)),
    ];
    proof {
        assert(attrs_view(attrs@) =~= seq![
            ("angle"@, signed_decimal(sa.rotation_angle as int)),
            ("centerX"@, signed_decimal(sa.rotation_center.x as int)),
            ("centerY"@, signed_decimal(sa.rotation_center.y as int)),
            ("rotateimage"@, bool01_text(sa.rotate_image)),
        ]);
    }
    empty_tag(w, "hp:rotationInfo", attrs);
}

/// The line style names, by the low six bits of the line attributes; any
/// other code is a solid line.
pub open spec fn line_style_text(code: u32) -> Seq<char> {
    if code == 0 {
        "NONE"@
    } else if code == 2 {
        "DASH"@
    } else if code == 3 {
        "DOT"@
    } else if code == 4 {
        "DASH_DOT"@
    } else if code == 5 {
        "DASH_DOT_DOT"@
    } else if code == 6 {
        "LONG_DASH"@
    } else if code == 7 {
        "CIRCLE"@
    } else if code == 8 {
        "DOUBLE_SLIM"@
    } else if code == 9 {
        "SLIM_THICK"@
    } else if code == 10 {
        "THICK_SLIM"@
    } else if code == 11 {
        "SLIM_THICK_SLIM"@
    } else {
        "SOLID"@
    }
}

fn line_style_str(code: u32) -> (r: &'static str)
    ensures
        r@ == line_style_text(code),
{
    match code {
        0 => "NONE",
        1 => "SOLID",
        2 => "DASH",
        3 => "DOT",
        4 => "DASH_DOT",
        5 => "DASH_DOT_DOT",
        6 => "LONG_DASH",
        7 => "CIRCLE",
        8 => "DOUBLE_SLIM",
        9 => "SLIM_THICK",
        10 => "THICK_SLIM",
        11 => "SLIM_THICK_SLIM",
        _ => "SOLID",
    }
}

/// The end cap names, by bits 6..10 of the line attributes; any other
/// code is round.
pub open spec fn end_cap_text(code: u32) -> Seq<char> {
    if code == 1 {
        "FLAT"@
    } else if code == 2 {
        "SQUARE"@
    } else {
        "ROUND"@
    }
}

fn end_cap_str(code: u32) -> (r: &'static str)
    ensures
        r@ == end_cap_text(code),
{
    match code {
        1 => "FLAT",
        2 => "SQUARE",
        _ => "ROUND",
    }
}

/// Where the outline is drawn: outside, inside, or on the edge.
pub open spec fn outline_text(o: u8) -> Seq<char> {
    if o == 1 {
        "OUTER"@
    } else if o == 2 {
        "INNER"@
    } else {
        "NORMAL"@
    }
}

fn outline_str(o: u8) -> (r: &'static str)
    ensures
        r@ == outline_text(o),
{
    match o {
        1 => "OUTER",
        2 => "INNER",
        _ => "NORMAL",
    }
}

/// The attributes of `<hp:lineShape>`, read from the packed line
/// attributes: style in bits 0..6, end cap in bits 6..10, arrow sizes in
/// bits 22..26 (head) and 26..30 (tail), and the fills of the head and tail
/// arrows in bits 31 and 30.
pub open spec fn line_shape_attrs(bl: ShapeBorderLine) -> Seq<(Seq<char>, Seq<char>)> {
    seq![
        ("color"@, color_hex_text(bl.color)),
        ("width"@, signed_decimal(bl.width as int)),
        ("style"@, line_style_text(bl.attr % 64)),
        ("endCap"@, end_cap_text((bl.attr / 64) % 16)),
        ("headStyle"@, "NORMAL"@),
        ("tailStyle"@, "NORMAL"@),
        ("headfill"@, bool01_text(bl.attr >= 0x8000_0000)),
        ("tailfill"@, bool01_text((bl.attr / 0x4000_0000) % 2 == 1)),
        ("headSz"@, arrow_size_text((bl.attr / 0x40_0000) % 16)),
        ("tailSz"@, arrow_size_text((bl.attr / 0x400_0000) % 16)),
        ("outlineStyle"@, outline_text(bl.outline_style)),
        ("alpha"@, "0"@),
    ]
}

/// `<hp:lineShape .../>`: the outline of a drawing object.
pub fn write_line_shape(w: &mut XmlWriter, bl: &ShapeBorderLine)
    ensures
        final(w)@ == old(w)@.push(XmlItem::Empty("hp:lineShape"@, line_shape_attrs(*bl))),
{
    let a = bl.attr;
    let style = a & 0x3F;
    let cap = (a >> 6) & 0x0F;
    let head = a & 0x8000_0000 != 0;
    let tail = a & 0x4000_0000 != 0;
    let head_sz = (a >> 22) & 0x0F;
    let tail_sz = (a >> 26) & 0x0F;
    assert(a & 0x3F == a % 64 && (a >> 6) & 0x0F == (a / 64) % 16 && (a & 0x8000_0000 != 0) == (a
        >= 0x8000_0000) && (a & 0x4000_0000 != 0) == ((a / 0x4000_0000) % 2 == 1) && (a >> 22)
        & 0x0F == (a / 0x40_0000) % 16 && (a >> 26) & 0x0F == (a / 0x400_0000) % 16)
        by (bit_vector);
    let attrs = vec![
        attr("color", color_to_hex(bl.color)),
        attr("width", sdec(bl.width as i64)),
        attr_str("style", line_style_str(style)),
        attr_str("endCap", end_cap_str(cap)),
        attr_str("headStyle", "NORMAL"),
        attr_str("tailStyle", "NORMAL"),
        attr_str("headfill", bool01(head)),
        attr_str("tailfill", bool01(tail)),
        attr_str("headSz", arrow_size_str(head_sz)),
        attr_str("tailSz", arrow_size_str(tail_sz)),
        attr_str("outlineStyle", outline_str(bl.outline_style)),
        attr_str("alpha", "0"),
    ];
    proof {
        assert(attrs_view(attrs@) =~= line_shape_attrs(*bl));
    }
    empty_tag(w, "hp:lineShape", attrs);
}

/// The shadow type names; any other number is no shadow.
pub open spec fn shadow_type_text(t: u32) -> Seq<char> {
    if t == 1 {
        "LEFT_TOP"@
    } else if t == 2 {
        "RIGHT_TOP"@
    } else if t == 3 {
        "LEFT_BOTTOM"@
    } else if t == 4 {
        "RIGHT_BOTTOM"@
    } else if t == 5 {
        "CENTER"@
    } else {
        "NONE"@
    }
}

fn shadow_type_str(t: u32) -> (r: &'static str)
    ensures
        r@ == shadow_type_text(t),
{
    match t {
        1 => "LEFT_TOP",
        2 => "RIGHT_TOP",
        3 => "LEFT_BOTTOM",
        4 => "RIGHT_BOTTOM",
        5 => "CENTER",
        _ => "NONE",
    }
}

/// A drawing object has a shadow unless all its shadow fields are 0.
pub open spec fn has_shadow(d: DrawingObjAttr) -> bool {
    !(d.shadow_type == 0 && d.shadow_color == 0 && d.shadow_offset_x == 0 && d.shadow_offset_y == 0
        && d.shadow_alpha == 0)
}

/// `<hp:shadow type color offsetX offsetY alpha/>`, or nothing when every
/// shadow field is 0.
pub fn write_shadow(w: &mut XmlWriter, d: &DrawingObjAttr)
    ensures
        final(w)@ == if has_shadow(*d) {
            old(w)@.push(
                XmlItem::Empty(
                    "hp:shadow"@,
                    seq![
                        ("type"@, shadow_type_text(d.shadow_type)),
                        ("color"@, color_hex_text(d.shadow_color)),
                        ("offsetX"@, signed_decimal(d.shadow_offset_x as int)),
                        ("offsetY"@, signed_decimal(d.shadow_offset_y as int)),
                        ("alpha"@, decimal(d.shadow_alpha as nat)),
                    ],
                ),
            )
        } else {
            old(w)@
        },
{
    if d.shadow_type == 0 && d.shadow_color == 0 && d.shadow_offset_x == 0 && d.shadow_offset_y == 0
        && d.shadow_alpha == 0 {
        return;
    }
    let attrs = vec![
        attr_str("type", shadow_type_str(d.shadow_type)),
        attr("color", color_to_hex(d.shadow_color)),
        attr("offsetX", sdec(d.shadow_offset_x as i64)),
        attr("offsetY", sdec(d.shadow_offset_y as i64)),
        attr("alpha", dec(d.shadow_alpha as u64)),
    ];
    proof {
        assert(attrs_view(attrs@) =~= seq![
            ("type"@, shadow_type_text(d.shadow_type)),
            ("color"@, color_hex_text(d.shadow_color)),
            ("offsetX"@, signed_decimal(d.shadow_offset_x as int)),
            ("offsetY"@, signed_decimal(d.shadow_offset_y as int)),
            ("alpha"@, decimal(d.shadow_alpha as nat)),
        ]);
    }
    empty_tag(w, "hp:shadow", attrs);
}

/// A corner point element `<name x y/>`.
pub open spec fn point_item(name: Seq<char>, x: i32, y: i32) -> XmlItem {
    XmlItem::Empty(name, seq![("x"@, signed_decimal(x as int)), ("y"@, signed_decimal(y as int))])
}

pub(crate) fn write_point(w: &mut XmlWriter, name: &str, x: i32, y: i32)
    ensures
        final(w)@ == old(w)@.push(point_item(name@, x, y)),
{
    let attrs = vec![attr("x", sdec(x as i64)), attr("y", sdec(y as i64))];
    proof {
        assert(attrs_view(attrs@) =~= seq![
            ("x"@, signed_decimal(x as int)),
            ("y"@, signed_decimal(y as int)),
        ]);
    }
    empty_tag(w, name, attrs);
}

/// `<hc:pt0/>` .. `<hc:pt3/>`: the four corners of a rectangle.
pub fn write_rect_pts(w: &mut XmlWriter, x: &[i32; 4], y: &[i32; 4])
    ensures
        final(w)@ == old(w)@ + seq![
            point_item("hc:pt0"@, x@[0], y@[0]),
            point_item("hc:pt1"@, x@[1], y@[1]),
            point_item("hc:pt2"@, x@[2], y@[2]),
            point_item("hc:pt3"@, x@[3], y@[3]),
        ],
{
    write_point(w, "hc:pt0", x[0], y[0]);
    write_point(w, "hc:pt1", x[1], y[1]);
    write_point(w, "hc:pt2", x[2], y[2]);
    write_point(w, "hc:pt3", x[3], y[3]);
    assert(w@ =~= old(w)@ + seq![
        point_item("hc:pt0"@, x@[0], y@[0]),
        point_item("hc:pt1"@, x@[1], y@[1]),
        point_item("hc:pt2"@, x@[2], y@[2]),
        point_item("hc:pt3"@, x@[3], y@[3]),
    ]);
}

/// `<hp:shapeComment>description</hp:shapeComment>`, or nothing when the
/// description is empty.
pub fn write_shape_comment(w: &mut XmlWriter, c: &CommonObjAttr)
    ensures
        final(w)@ == if c.description@.len() == 0 {
            old(w)@
        } else {
            old(w)@ + seq![
                XmlItem::Start("hp:shapeComment"@, Seq::empty()),
                XmlItem::Text(c.description@),
                XmlItem::End("hp:shapeComment"@),
            ]
        },
{
    if c.description.as_str().is_empty() {
        return;
    }
    start_tag(w, "hp:shapeComment");
    text(w, c.description.as_str());
    end_tag(w, "hp:shapeComment");
    assert(w@ =~= old(w)@ + seq![
        XmlItem::Start("hp:shapeComment"@, Seq::empty()),
        XmlItem::Text(c.description@),
        XmlItem::End("hp:shapeComment"@),
    ]);
}

/// `<hp:sz .../>`: the object's size, both measured absolutely.
pub fn write_sz(w: &mut XmlWriter, c: &CommonObjAttr)
    ensures
        final(w)@ == old(w)@.push(
            XmlItem::Empty(
                "hp:sz"@,
                seq![
                    ("width"@, decimal(c.width as nat)),
                    ("widthRelTo"@, "ABSOLUTE"@),
                    ("height"@, decimal(c.height as nat)),
                    ("heightRelTo"@, "ABSOLUTE"@),
                    ("protect"@, "0"@),
                ],
            ),
        ),
{
    let attrs = vec![
        attr("width", dec(c.width as u64)),
        attr_str("widthRelTo", "ABSOLUTE"),
        attr("height", dec(c.height as u64)),
        attr_str("heightRelTo", "ABSOLUTE"),
        attr_str("protect", "0"),
    ];
    proof {
        assert(attrs_view(attrs@) =~= seq![
            ("width"@, decimal(c.width as nat)),
            ("widthRelTo"@, "ABSOLUTE"@),
            ("height"@, decimal(c.height as nat)),
            ("heightRelTo"@, "ABSOLUTE"@),
            ("protect"@, "0"@),
        ]);
    }
    empty_tag(w, "hp:sz", attrs);
}

/// The attributes of `<hp:pos>`: how the object is anchored and offset.
pub open spec fn pos_attrs(c: CommonObjAttr) -> Seq<(Seq<char>, Seq<char>)> {
    seq![
        ("treatAsChar"@, bool01_text(c.treat_as_char)),
        ("affectLSpacing"@, "0"@),
        ("flowWithText"@, bool01_text(c.flow_with_text)),
        ("allowOverlap"@, bool01_text(c.allow_overlap)),
        ("holdAnchorAndSO"@, bool01_text(c.prevent_page_break)),
        ("vertRelTo"@, vert_rel_to_text(c.vert_rel_to)),
        ("horzRelTo"@, horz_rel_to_text(c.horz_rel_to)),
        ("vertAlign"@, vert_align_text(c.vert_align)),
        ("horzAlign"@, horz_align_text(c.horz_align)),
        ("vertOffset"@, decimal(c.vertical_offset as nat)),
        ("horzOffset"@, decimal(c.horizontal_offset as nat)),
    ]
}

/// `<hp:pos .../>`: the object's anchoring.
pub fn write_pos(w: &mut XmlWriter, c: &CommonObjAttr)
    ensures
        final(w)@ == old(w)@.push(XmlItem::Empty("hp:pos"@, pos_attrs(*c))),
{
    let attrs = vec![
        attr_str("treatAsChar", bool01(c.treat_as_char)),
        attr_str("affectLSpacing", "0"),
        attr_str("flowWithText", bool01(c.flow_with_text)),
        attr_str("allowOverlap", bool01(c.allow_overlap)),
        attr_str("holdAnchorAndSO", bool01(c.prevent_page_break)),
        attr_str("vertRelTo", vert_rel_to_str(c.vert_rel_to)),
        attr_str("horzRelTo", horz_rel_to_str(c.horz_rel_to)),
        attr_str("vertAlign", vert_align_str(c.vert_align)),
        attr_str("horzAlign", horz_align_str(c.horz_align)),
        attr("vertOffset", dec(c.vertical_offset as u64)),
        attr("horzOffset", dec(c.horizontal_offset as u64)),
    ];
    proof {
        assert(attrs_view(attrs@) =~= pos_attrs(*c));
    }
    empty_tag(w, "hp:pos", attrs);
}

/// `<hp:outMargin left right top bottom/>`: the space kept around the object.
pub fn write_out_margin(w: &mut XmlWriter, c: &CommonObjAttr)
    ensures
        final(w)@ == old(w)@.push(
            XmlItem::Empty(
                "hp:outMargin"@,
                seq![
                    ("left"@, signed_decimal(c.margin.left as int)),
                    ("right"@, signed_decimal(c.margin.right as int)),
                    ("top"@, signed_decimal(c.margin.top as int)),
                    ("bottom"@, signed_decimal(c.margin.bottom as int)),
                ],
            ),
        ),
{
    let attrs = vec![
        attr("left", sdec(c.margin.left as i64)),
        attr("right", sdec(c.margin.right as i64)),
        attr("top", sdec(c.margin.top as i64)),
        attr("bottom", sdec(c.margin.bottom as i64)),
    ];
    proof {
        assert(attrs_view(attrs@) =~= seq![
            ("left"@, signed_decimal(c.margin.left as int)),
            ("right"@, signed_decimal(c.margin.right as int)),
            ("top"@, signed_decimal(c.margin.top as int)),
            ("bottom"@, signed_decimal(c.margin.bottom as int)),
        ]);
    }
    empty_tag(w, "hp:outMargin", attrs);
}

/// The window brush of a solid fill, inside `<hc:fillBrush>`: face and
/// hatch colours, the hatch style when there is a pattern, and the alpha
/// text.
pub open spec fn win_brush_items(solid: SolidFill, alpha: Seq<char>) -> Seq<XmlItem> {
    let face = ("faceColor"@, color_hex_text(solid.background_color));
    let hatch = ("hatchColor"@, color_hex_text(solid.pattern_color));
    seq![
        XmlItem::Start("hc:fillBrush"@, Seq::empty()),
        XmlItem::Empty(
            "hc:winBrush"@,
            if solid.pattern_type >= 1 {
                seq![
                    face,
                    hatch,
                    ("hatchStyle"@, hatch_style_text(solid.pattern_type)),
                    ("alpha"@, alpha),
                ]
            } else {
                seq![face, hatch, ("alpha"@, alpha)]
            },
        ),
        XmlItem::End("hc:fillBrush"@),
    ]
}

/// `<hc:fillBrush><hc:winBrush .../></hc:fillBrush>` for a solid fill;
/// `alpha` is the fill's transparency as written (a fraction of 255).
pub fn write_win_brush(w: &mut XmlWriter, solid: &SolidFill, alpha: &str)
    ensures
        final(w)@ == old(w)@ + win_brush_items(*solid, alpha@),
{
    start_tag(w, "hc:fillBrush");
    if solid.pattern_type >= 1 {
        let attrs = vec![
            attr("faceColor", color_to_hex(solid.background_color)),
            attr("hatchColor", color_to_hex(solid.pattern_color)),
            attr_str("hatchStyle", hatch_style_str(solid.pattern_type)),
            attr_str("alpha", alpha),
        ];
        proof {
            assert(attrs_view(attrs@) =~= seq![
                ("faceColor"@, color_hex_text(solid.background_color)),
                ("hatchColor"@, color_hex_text(solid.pattern_color)),
                ("hatchStyle"@, hatch_style_text(solid.pattern_type)),
                ("alpha"@, alpha@),
            ]);
        }
        empty_tag(w, "hc:winBrush", attrs);
    } else {
        let attrs = vec![
            attr("faceColor", color_to_hex(solid.background_color)),
            attr("hatchColor", color_to_hex(solid.pattern_color)),
            attr_str("alpha", alpha),
        ];
        proof {
            assert(attrs_view(attrs@) =~= seq![
                ("faceColor"@, color_hex_text(solid.background_color)),
                ("hatchColor"@, color_hex_text(solid.pattern_color)),
                ("alpha"@, alpha@),
            ]);
        }
        empty_tag(w, "hc:winBrush", attrs);
    }
    end_tag(w, "hc:fillBrush");
    assert(w@ =~= old(w)@ + win_brush_items(*solid, alpha@));
}

/// The gradient kind names; any other kind is written as its number.
pub open spec fn gradient_type_text(t: i16) -> Seq<char> {
    if t == 1 {
        "LINEAR"@
    } else if t == 2 {
        "RADIAL"@
    } else if t == 3 {
        "CONICAL"@
    } else if t == 4 {
        "SQUARE"@
    } else {
        signed_decimal(t as int)
    }
}

fn gradient_type_string(t: i16) -> (r: String)
    ensures
        r@ == gradient_type_text(t),
{
    match t {
        1 => crate::text::string_of("LINEAR"),
        2 => crate::text::string_of("RADIAL"),
        3 => crate::text::string_of("CONICAL"),
        4 => crate::text::string_of("SQUARE"),
        _ => sdec(t as i64),
    }
}

/// The attributes of `<hc:gradation>`.
pub open spec fn gradation_attrs(g: GradientFill, alpha: Seq<char>) -> Seq<(Seq<char>, Seq<char>)> {
    seq![
        ("type"@, gradient_type_text(g.gradient_type)),
        ("angle"@, signed_decimal(g.angle as int)),
        ("centerX"@, signed_decimal(g.center_x as int)),
        ("centerY"@, signed_decimal(g.center_y as int)),
        ("step"@, signed_decimal(g.blur as int)),
        ("stepCenter"@, decimal(g.step_center as nat)),
        ("alpha"@, alpha),
    ]
}

/// `<hc:color value/>` of a gradient colour.
pub open spec fn gradient_color_item(c: u32) -> XmlItem {
    XmlItem::Empty("hc:color"@, seq![("value"@, color_hex_text(c))])
}

/// A gradient fill inside `<hc:fillBrush>`: the gradation with its colours.
pub open spec fn gradient_items(g: GradientFill, alpha: Seq<char>) -> Seq<XmlItem> {
    seq![
        XmlItem::Start("hc:fillBrush"@, Seq::empty()),
        XmlItem::Start("hc:gradation"@, gradation_attrs(g, alpha)),
    ] + g.colors@.map_values(|c: u32| gradient_color_item(c)) + seq![
        XmlItem::End("hc:gradation"@),
        XmlItem::End("hc:fillBrush"@),
    ]
}

fn write_gradient(w: &mut XmlWriter, g: &GradientFill, alpha: &str)
    ensures
        final(w)@ == old(w)@ + gradient_items(*g, alpha@),
{
    start_tag(w, "hc:fillBrush");
    let attrs = vec![
        attr("type", gradient_type_string(g.gradient_type)),
        attr("angle", sdec(g.angle as i64)),
        attr("centerX", sdec(g.center_x as i64)),
        attr("centerY", sdec(g.center_y as i64)),
        attr("step", sdec(g.blur as i64)),
        attr("stepCenter", dec(g.step_center as u64)),
        attr_str("alpha", alpha),
    ];
    proof {
        assert(attrs_view(attrs@) =~= gradation_attrs(*g, alpha@));
    }
    start_tag_attrs(w, "hc:gradation", attrs);
    let ghost w1 = w@;
    for i in 0..g.colors.len()
        invariant
            w@ == w1 + g.colors@.take(i as int).map_values(|c: u32| gradient_color_item(c)),
    {
        let c = g.colors[i];
        let attrs = vec![attr("value", color_to_hex(c))];
        proof {
            assert(attrs_view(attrs@) =~= seq![("value"@, color_hex_text(c))]);
        }
        empty_tag(w, "hc:color", attrs);
        proof {
            assert(g.colors@.take(i + 1).map_values(|c: u32| gradient_color_item(c)) =~= g.colors@.take(
                i as int,
            ).map_values(|c: u32| gradient_color_item(c)).push(gradient_color_item(c)));
        }
    }
    assert(g.colors@.take(g.colors@.len() as int) =~= g.colors@);
    end_tag(w, "hc:gradation");
    end_tag(w, "hc:fillBrush");
    assert(w@ =~= old(w)@ + gradient_items(*g, alpha@));
}

/// The image fill mode names: fitted, whole, centred, and tiled for every
/// other mode.
pub open spec fn image_mode_text(m: ImageFillMode) -> Seq<char> {
    match m {
        ImageFillMode::FitToSize => "FIT"@,
        ImageFillMode::Total => "TOTAL"@,
        ImageFillMode::Center => "CENTER"@,
        _ => "TILE"@,
    }
}

fn image_mode_str(m: ImageFillMode) -> (r: &'static str)
    ensures
        r@ == image_mode_text(m),
{
    match m {
        ImageFillMode::FitToSize => "FIT",
        ImageFillMode::Total => "TOTAL",
        ImageFillMode::Center => "CENTER",
        _ => "TILE",
    }
}

/// The image effect names of an image fill: grey scale, black and white,
/// and the picture as it is for every other number.
pub open spec fn fill_effect_text(e: u8) -> Seq<char> {
    if e == 1 {
        "GRAY_SCALE"@
    } else if e == 2 {
        "BLACK_WHITE"@
    } else {
        "REAL_PIC"@
    }
}

fn fill_effect_str(e: u8) -> (r: &'static str)
    ensures
        r@ == fill_effect_text(e),
{
    match e {
        1 => "GRAY_SCALE",
        2 => "BLACK_WHITE",
        _ => "REAL_PIC",
    }
}

/// An image fill inside `<hc:fillBrush>`: with the image reference when the
/// binary item is registered in the package (`image_ref`), else an empty
/// image brush.
pub open spec fn image_items(img: ImageFill, image_ref: Option<Seq<char>>) -> Seq<XmlItem> {
    let mode = seq![("mode"@, image_mode_text(img.fill_mode))];
    seq![XmlItem::Start("hc:fillBrush"@, Seq::empty())] + match image_ref {
        Some(id) => seq![
            XmlItem::Start("hc:imgBrush"@, mode),
            XmlItem::Empty(
                "hc:img"@,
                seq![
                    ("binaryItemIDRef"@, id),
                    ("bright"@, signed_decimal(img.brightness as int)),
                    ("contrast"@, signed_decimal(img.contrast as int)),
                    ("effect"@, fill_effect_text(img.effect)),
                    ("alpha"@, "0"@),
                ],
            ),
            XmlItem::End("hc:imgBrush"@),
        ],
        None => seq![XmlItem::Empty("hc:imgBrush"@, mode)],
    } + seq![XmlItem::End("hc:fillBrush"@)]
}

fn write_image_fill(w: &mut XmlWriter, img: &ImageFill, image_ref: Option<&str>)
    ensures
        final(w)@ == old(w)@ + image_items(
            *img,
            match image_ref {
                Some(s) => Some(s@),
                None => None,
            },
        ),
{
    start_tag(w, "hc:fillBrush");
    let mode = image_mode_str(img.fill_mode);
    match image_ref {
        Some(id) => {
            let m = vec![attr_str("mode", mode)];
            proof {
                assert(attrs_view(m@) =~= seq![("mode"@, image_mode_text(img.fill_mode))]);
            }
            start_tag_attrs(w, "hc:imgBrush", m);
            let attrs = vec![
                attr_str("binaryItemIDRef", id),
                attr("bright", sdec(img.brightness as i64)),
                attr("contrast", sdec(img.contrast as i64)),
                attr_str("effect", fill_effect_str(img.effect)),
                attr_str("alpha", "0"),
            ];
            proof {
                assert(attrs_view(attrs@) =~= seq![
                    ("binaryItemIDRef"@, id@),
                    ("bright"@, signed_decimal(img.brightness as int)),
                    ("contrast"@, signed_decimal(img.contrast as int)),
                    ("effect"@, fill_effect_text(img.effect)),
                    ("alpha"@, "0"@),
                ]);
            }
            empty_tag(w, "hc:img", attrs);
            end_tag(w, "hc:imgBrush");
        },
        None => {
            let m = vec![attr_str("mode", mode)];
            proof {
                assert(attrs_view(m@) =~= seq![("mode"@, image_mode_text(img.fill_mode))]);
            }
            empty_tag(w, "hc:imgBrush", m);
        },
    }
    end_tag(w, "hc:fillBrush");
    assert(w@ =~= old(w)@ + image_items(
        *img,
        match image_ref {
            Some(s) => Some(s@),
            None => None,
        },
    ));
}

/// The image fill of a fill, or one with every field at its default (tiled,
/// item 0, no adjustment) when it holds none.
pub open spec fn image_or_default(f: Fill) -> ImageFill {
    match f.image {
        Some(i) => i,
        None => ImageFill {
            fill_mode: ImageFillMode::Tile,
            bin_data_id: 0,
            brightness: 0,
            contrast: 0,
            effect: 0,
        },
    }
}

/// The `<hc:fillBrush>` of a fill: nothing for no fill (unless a solid brush
/// was kept, which is written back), the window brush of a solid fill, the
/// gradation of a gradient, or the image brush of an image fill. A kind
/// whose data is missing is written from data with every field 0.
pub open spec fn fill_items(f: Fill, alpha: Seq<char>, image_ref: Option<Seq<char>>) -> Seq<
    XmlItem,
> {
    match f.fill_type {
        FillType::NoFill => match f.solid {
            Some(s) => win_brush_items(s, alpha),
            None => Seq::empty(),
        },
        FillType::Solid => win_brush_items(
            match f.solid {
                Some(s) => s,
                None => SolidFill { background_color: 0, pattern_color: 0, pattern_type: 0 },
            },
            alpha,
        ),
        FillType::Gradient => match f.gradient {
            Some(g) => gradient_items(g, alpha),
            None => seq![
                XmlItem::Start("hc:fillBrush"@, Seq::empty()),
                XmlItem::Start("hc:gradation"@, empty_gradation_attrs(alpha)),
                XmlItem::End("hc:gradation"@),
                XmlItem::End("hc:fillBrush"@),
            ],
        },
        FillType::Image => image_items(image_or_default(f), image_ref),
    }
}

/// The gradation attributes of a gradient with every field 0.
pub open spec fn empty_gradation_attrs(alpha: Seq<char>) -> Seq<(Seq<char>, Seq<char>)> {
    seq![
        ("type"@, "0"@),
        ("angle"@, "0"@),
        ("centerX"@, "0"@),
        ("centerY"@, "0"@),
        ("step"@, "0"@),
        ("stepCenter"@, "0"@),
        ("alpha"@, alpha),
    ]
}

/// `<hc:fillBrush>` of a fill. `alpha` is the fill's transparency as
/// written (a fraction of 255, computed by the caller), and `image_ref` the
/// package id of the image fill's binary item when it is registered.
pub fn write_fill_brush(w: &mut XmlWriter, fill: &Fill, alpha: &str, image_ref: Option<&str>)
    ensures
        final(w)@ == old(w)@ + fill_items(
            *fill,
            alpha@,
            match image_ref {
                Some(s) => Some(s@),
                None => None,
            },
        ),
{
    match fill.fill_type {
        FillType::NoFill => match &fill.solid {
            Some(solid) => {
                write_win_brush(w, solid, alpha);
            },
            None => {
                assert(old(w)@ + Seq::<XmlItem>::empty() =~= old(w)@);
            },
        },
        FillType::Solid => {
            let solid = match &fill.solid {
                Some(s) => *s,
                None => SolidFill::zero(),
            };
            write_win_brush(w, &solid, alpha);
        },
        FillType::Gradient => match &fill.gradient {
            Some(g) => {
                write_gradient(w, g, alpha);
            },
            None => {
                let g = GradientFill {
                    gradient_type: 0,
                    angle: 0,
                    center_x: 0,
                    center_y: 0,
                    blur: 0,
                    step_center: 0,
                    colors: Vec::new(),
                };
                write_gradient(w, &g, alpha);
                proof {
                    reveal_strlit("0");
                    assert(decimal(0) =~= "0"@);
                    assert(signed_decimal(0) =~= "0"@);
                    assert(gradation_attrs(g, alpha@) =~= empty_gradation_attrs(alpha@));
                    assert(g.colors@.map_values(|c: u32| gradient_color_item(c)) =~= Seq::<
                        XmlItem,
                    >::empty());
                    assert(gradient_items(g, alpha@) =~= seq![
                        XmlItem::Start("hc:fillBrush"@, Seq::empty()),
                        XmlItem::Start("hc:gradation"@, empty_gradation_attrs(alpha@)),
                        XmlItem::End("hc:gradation"@),
                        XmlItem::End("hc:fillBrush"@),
                    ]);
                }
            },
        },
        FillType::Image => {
            let img = match &fill.image {
                Some(i) => *i,
                None => ImageFill {
                    fill_mode: ImageFillMode::Tile,
                    bin_data_id: 0,
                    brightness: 0,
                    contrast: 0,
                    effect: 0,
                },
            };
            write_image_fill(w, &img, image_ref);
        },
    }
}

} // verus!
