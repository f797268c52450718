//! Pictures in HWPX: the child elements of `<hp:pic>` that carry its
//! offset, current size, image rectangle, crop, margins, image dimensions
//! and effects.

use crate::model::image::{EffectColor, EffectPoint, EffectRgb, Picture, PictureShadow};
use crate::serializer::hwpx::xml::{
    attr, attr_str, attrs_view, dec, empty_tag, end_tag, sdec, start_tag, start_tag_attrs, XmlItem,
    XmlWriter,
};
use crate::serializer::hwpx::shape::{point_item, write_point};
use crate::serializer::hwpx::vocab::{image_effect_str, image_effect_text};
use crate::serializer::hwpx::SerializeError;
use crate::text::{push_decimal, string_of, string_push_str};
use crate::text::{decimal, signed_decimal};
use vstd::prelude::*;

verus! {

/// `<hp:offset x y/>` of a picture: its horizontal and vertical offset.
pub fn write_offset(w: &mut XmlWriter, p: &Picture)
    ensures
        final(w)@ == old(w)@.push(
            XmlItem::Empty(
                "hp:offset"@,
                seq![
                    ("x"@, decimal(p.common.horizontal_offset as nat)),
                    ("y"@, decimal(p.common.vertical_offset as nat)),
                ],
            ),
        ),
{
    let attrs = vec![
        attr("x", dec(p.common.horizontal_offset as u64)),
        attr("y", dec(p.common.vertical_offset as u64)),
    ];
    proof {
        assert(attrs_view(attrs@) =~= seq![
            ("x"@, decimal(p.common.horizontal_offset as nat)),
            ("y"@, decimal(p.common.vertical_offset as nat)),
        ]);
    }
    empty_tag(w, "hp:offset", attrs);
}

/// A current dimension of a picture as written: 0 where the file had 0,
/// else the stored one, or the object's size where none is stored.
pub open spec fn pic_cur_dim(cur: u32, was_zero: bool, size: u32) -> nat {
    if was_zero {
        0
    } else if cur > 0 {
        cur as nat
    } else {
        size as nat
    }
}

/// `<hp:curSz width height/>` of a picture.
pub fn write_cur_sz(w: &mut XmlWriter, p: &Picture)
    ensures
        final(w)@ == old(w)@.push(
            XmlItem::Empty(
                "hp:curSz"@,
                seq![
                    (
                        "width"@,
                        decimal(
                            pic_cur_dim(
                                p.shape_attr.current_width,
                                p.shape_attr.current_width_was_zero,
                                p.common.width,
                            ),
                        ),
                    ),
                    (
                        "height"@,
                        decimal(
                            pic_cur_dim(
                                p.shape_attr.current_height,
                                p.shape_attr.current_height_was_zero,
                                p.common.height,
                            ),
                        ),
                    ),
                ],
            ),
        ),
{
    let sa = &p.shape_attr;
    let cw: u32 = if sa.current_width_was_zero {
        0
    } else if sa.current_width > 0 {
        sa.current_width
    } else {
        p.common.width
    };
    let ch: u32 = if sa.current_height_was_zero {
        0
    } else if sa.current_height > 0 {
        sa.current_height
    } else {
        p.common.height
    };
    let attrs = vec![attr("width", dec(cw as u64)), attr("height", dec(ch as u64))];
    proof {
        assert(attrs_view(attrs@) =~= seq![
            (
                "width"@,
                decimal(pic_cur_dim(sa.current_width, sa.current_width_was_zero, p.common.width)),
            ),
            (
                "height"@,
                decimal(pic_cur_dim(sa.current_height, sa.current_height_was_zero, p.common.height)),
            ),
        ]);
    }
    empty_tag(w, "hp:curSz", attrs);
}

/// The corners of a picture's image rectangle: read from the border
/// arrays (pt0 and pt1 from `border_x`, pt2 and pt3 from `border_y`), or,
/// when both are all 0, the rectangle of the object's size.
pub open spec fn img_rect_points(p: Picture) -> Seq<XmlItem> {
    let bx = p.border_x@;
    let by = p.border_y@;
    if bx == seq![0i32, 0, 0, 0] && by == seq![0i32, 0, 0, 0] {
        let wd = decimal(p.common.width as nat);
        let ht = decimal(p.common.height as nat);
        seq![
            XmlItem::Empty("hc:pt0"@, seq![("x"@, "0"@), ("y"@, "0"@)]),
            XmlItem::Empty("hc:pt1"@, seq![("x"@, wd), ("y"@, "0"@)]),
            XmlItem::Empty("hc:pt2"@, seq![("x"@, wd), ("y"@, ht)]),
            XmlItem::Empty("hc:pt3"@, seq![("x"@, "0"@), ("y"@, ht)]),
        ]
    } else {
        seq![
            point_item("hc:pt0"@, bx[0], bx[1]),
            point_item("hc:pt1"@, bx[2], bx[3]),
            point_item("hc:pt2"@, by[0], by[1]),
            point_item("hc:pt3"@, by[2], by[3]),
        ]
    }
}

/// `<hp:imgRect>` with its four corners.
pub fn write_img_rect(w: &mut XmlWriter, p: &Picture)
    ensures
        final(w)@ == old(w)@ + seq![XmlItem::Start("hp:imgRect"@, Seq::empty())] + img_rect_points(
            *p,
        ) + seq![XmlItem::End("hp:imgRect"@)],
{
    let bx = &p.border_x;
    let by = &p.border_y;
    start_tag(w, "hp:imgRect");
    let ghost mid = w@;
    if bx[0] == 0 && bx[1] == 0 && bx[2] == 0 && bx[3] == 0 && by[0] == 0 && by[1] == 0 && by[2]
        == 0 && by[3] == 0 {
        proof {
            assert(bx@ =~= seq![0i32, 0, 0, 0]);
            assert(by@ =~= seq![0i32, 0, 0, 0]);
            reveal_strlit("0");
        }
        let wd = dec(p.common.width as u64);
        let ht = dec(p.common.height as u64);
        let a0 = vec![attr("x", dec(0)), attr("y", dec(0))];
        let a1 = vec![attr("x", wd.clone()), attr("y", dec(0))];
        let a2 = vec![attr("x", wd), attr("y", ht.clone())];
        let a3 = vec![attr("x", dec(0)), attr("y", ht)];
        proof {
            assert(decimal(0) =~= "0"@);
            assert(attrs_view(a0@) =~= seq![("x"@, "0"@), ("y"@, "0"@)]);
            assert(attrs_view(a1@) =~= seq![("x"@, decimal(p.common.width as nat)), ("y"@, "0"@)]);
            assert(attrs_view(a2@) =~= seq![
                ("x"@, decimal(p.common.width as nat)),
                ("y"@, decimal(p.common.height as nat)),
            ]);
            assert(attrs_view(a3@) =~= seq![("x"@, "0"@), ("y"@, decimal(p.common.height as nat))]);
        }
        empty_tag(w, "hc:pt0", a0);
        empty_tag(w, "hc:pt1", a1);
        empty_tag(w, "hc:pt2", a2);
        empty_tag(w, "hc:pt3", a3);
    } else {
        proof {
            if bx@ == seq![0i32, 0, 0, 0] && by@ == seq![0i32, 0, 0, 0] {
                assert(bx@[0] == 0 && bx@[1] == 0 && bx@[2] == 0 && bx@[3] == 0);
                assert(by@[0] == 0 && by@[1] == 0 && by@[2] == 0 && by@[3] == 0);
            }
        }
        write_point(w, "hc:pt0", bx[0], bx[1]);
        write_point(w, "hc:pt1", bx[2], bx[3]);
        write_point(w, "hc:pt2", by[0], by[1]);
        write_point(w, "hc:pt3", by[2], by[3]);
    }
    assert(w@ =~= mid + img_rect_points(*p));
    end_tag(w, "hp:imgRect");
    assert(w@ =~= old(w)@ + seq![XmlItem::Start("hp:imgRect"@, Seq::empty())] + img_rect_points(
        *p,
    ) + seq![XmlItem::End("hp:imgRect"@)]);
}

/// `<hp:imgClip left right top bottom/>`: the crop.
pub fn write_img_clip(w: &mut XmlWriter, p: &Picture)
    ensures
        final(w)@ == old(w)@.push(
            XmlItem::Empty(
                "hp:imgClip"@,
                seq![
                    ("left"@, signed_decimal(p.crop.left as int)),
                    ("right"@, signed_decimal(p.crop.right as int)),
                    ("top"@, signed_decimal(p.crop.top as int)),
                    ("bottom"@, signed_decimal(p.crop.bottom as int)),
                ],
            ),
        ),
{
    let attrs = vec![
        attr("left", sdec(p.crop.left as i64)),
        attr("right", sdec(p.crop.right as i64)),
        attr("top", sdec(p.crop.top as i64)),
        attr("bottom", sdec(p.crop.bottom as i64)),
    ];
    proof {
        assert(attrs_view(attrs@) =~= seq![
            ("left"@, signed_decimal(p.crop.left as int)),
            ("right"@, signed_decimal(p.crop.right as int)),
            ("top"@, signed_decimal(p.crop.top as int)),
            ("bottom"@, signed_decimal(p.crop.bottom as int)),
        ]);
    }
    empty_tag(w, "hp:imgClip", attrs);
}

/// `<hp:inMargin left right top bottom/>`: the space between the frame and the image.
pub fn write_in_margin(w: &mut XmlWriter, p: &Picture)
    ensures
        final(w)@ == old(w)@.push(
            XmlItem::Empty(
                "hp:inMargin"@,
                seq![
                    ("left"@, signed_decimal(p.padding.left as int)),
                    ("right"@, signed_decimal(p.padding.right as int)),
                    ("top"@, signed_decimal(p.padding.top as int)),
                    ("bottom"@, signed_decimal(p.padding.bottom as int)),
                ],
            ),
        ),
{
    let attrs = vec![
        attr("left", sdec(p.padding.left as i64)),
        attr("right", sdec(p.padding.right as i64)),
        attr("top", sdec(p.padding.top as i64)),
        attr("bottom", sdec(p.padding.bottom as i64)),
    ];
    proof {
        assert(attrs_view(attrs@) =~= seq![
            ("left"@, signed_decimal(p.padding.left as int)),
            ("right"@, signed_decimal(p.padding.right as int)),
            ("top"@, signed_decimal(p.padding.top as int)),
            ("bottom"@, signed_decimal(p.padding.bottom as int)),
        ]);
    }
    empty_tag(w, "hp:inMargin", attrs);
}

/// `<hp:imgDim dimwidth dimheight/>`: the image's own size in pixels.
pub fn write_img_dim(w: &mut XmlWriter, p: &Picture)
    ensures
        final(w)@ == old(w)@.push(
            XmlItem::Empty(
                "hp:imgDim"@,
                seq![
                    ("dimwidth"@, decimal(p.img_dim.0 as nat)),
                    ("dimheight"@, decimal(p.img_dim.1 as nat)),
                ],
            ),
        ),
{
    let attrs = vec![
        attr("dimwidth", dec(p.img_dim.0 as u64)),
        attr("dimheight", dec(p.img_dim.1 as u64)),
    ];
    proof {
        assert(attrs_view(attrs@) =~= seq![
            ("dimwidth"@, decimal(p.img_dim.0 as nat)),
            ("dimheight"@, decimal(p.img_dim.1 as nat)),
        ]);
    }
    empty_tag(w, "hp:imgDim", attrs);
}

/// An attribute that is written only when it has a value.
pub open spec fn opt_attr(key: Seq<char>, v: Option<String>) -> Seq<(Seq<char>, Seq<char>)> {
    match v {
        Some(s) => seq![(key, s@)],
        None => Seq::empty(),
    }
}

/// Adds the attribute `key` when it has a value.
pub fn push_opt_attr(attrs: &mut Vec<(String, String)>, key: &str, value: &Option<String>)
    ensures
        attrs_view(final(attrs)@) == attrs_view(old(attrs)@) + opt_attr(key@, *value),
{
    match value {
        Some(v) => {
            attrs.push(attr(key, v.clone()));
            assert(attrs_view(attrs@) =~= attrs_view(old(attrs)@) + opt_attr(key@, *value));
        },
        None => {
            assert(attrs_view(attrs@) =~= attrs_view(old(attrs)@) + opt_attr(key@, *value));
        },
    }
}

/// The attributes of an effect point.
pub open spec fn point_attrs(pt: EffectPoint) -> Seq<(Seq<char>, Seq<char>)> {
    opt_attr("x"@, pt.x) + opt_attr("y"@, pt.y)
}

/// `<name x y/>` for a point of an effect.
pub fn write_effect_point(w: &mut XmlWriter, name: &str, pt: &EffectPoint)
    ensures
        final(w)@ == old(w)@.push(XmlItem::Empty(name@, point_attrs(*pt))),
{
    let mut attrs: Vec<(String, String)> = Vec::new();
    assert(attrs_view(attrs@) =~= Seq::<(Seq<char>, Seq<char>)>::empty());
    push_opt_attr(&mut attrs, "x", &pt.x);
    push_opt_attr(&mut attrs, "y", &pt.y);
    assert(attrs_view(attrs@) =~= point_attrs(*pt));
    empty_tag(w, name, attrs);
}

/// The attributes of an effect's RGB colour.
pub open spec fn rgb_attrs(c: EffectRgb) -> Seq<(Seq<char>, Seq<char>)> {
    opt_attr("r"@, c.r) + opt_attr("g"@, c.g) + opt_attr("b"@, c.b)
}

/// `<hp:rgb r g b/>`.
pub fn write_effect_rgb(w: &mut XmlWriter, c: &EffectRgb)
    ensures
        final(w)@ == old(w)@.push(XmlItem::Empty("hp:rgb"@, rgb_attrs(*c))),
{
    let mut attrs: Vec<(String, String)> = Vec::new();
    assert(attrs_view(attrs@) =~= Seq::<(Seq<char>, Seq<char>)>::empty());
    push_opt_attr(&mut attrs, "r", &c.r);
    push_opt_attr(&mut attrs, "g", &c.g);
    push_opt_attr(&mut attrs, "b", &c.b);
    assert(attrs_view(attrs@) =~= rgb_attrs(*c));
    empty_tag(w, "hp:rgb", attrs);
}

/// The attributes of an effect colour.
pub open spec fn color_attrs(c: EffectColor) -> Seq<(Seq<char>, Seq<char>)> {
    opt_attr("type"@, c.color_type) + opt_attr("schemeIdx"@, c.scheme_idx) + opt_attr(
        "systemIdx"@,
        c.system_idx,
    ) + opt_attr("presetIdx"@, c.preset_idx)
}

/// The events of an effect colour: with its RGB value inside when it has one.
pub open spec fn color_items(c: EffectColor) -> Seq<XmlItem> {
    match c.rgb {
        Some(rgb) => seq![
            XmlItem::Start("hp:effectsColor"@, color_attrs(c)),
            XmlItem::Empty("hp:rgb"@, rgb_attrs(rgb)),
            XmlItem::End("hp:effectsColor"@),
        ],
        None => seq![XmlItem::Empty("hp:effectsColor"@, color_attrs(c))],
    }
}

/// `<hp:effectsColor ...>`, with `<hp:rgb>` inside when the colour has one.
pub fn write_effect_color(w: &mut XmlWriter, c: &EffectColor)
    ensures
        final(w)@ == old(w)@ + color_items(*c),
{
    let mut attrs: Vec<(String, String)> = Vec::new();
    assert(attrs_view(attrs@) =~= Seq::<(Seq<char>, Seq<char>)>::empty());
    push_opt_attr(&mut attrs, "type", &c.color_type);
    push_opt_attr(&mut attrs, "schemeIdx", &c.scheme_idx);
    push_opt_attr(&mut attrs, "systemIdx", &c.system_idx);
    push_opt_attr(&mut attrs, "presetIdx", &c.preset_idx);
    assert(attrs_view(attrs@) =~= color_attrs(*c));
    match &c.rgb {
        Some(rgb) => {
            start_tag_attrs(w, "hp:effectsColor", attrs);
            write_effect_rgb(w, rgb);
            end_tag(w, "hp:effectsColor");
        },
        None => {
            empty_tag(w, "hp:effectsColor", attrs);
        },
    }
    assert(w@ =~= old(w)@ + color_items(*c));
}

/// The attributes of a picture shadow.
pub open spec fn shadow_attrs(s: PictureShadow) -> Seq<(Seq<char>, Seq<char>)> {
    opt_attr("style"@, s.style) + opt_attr("alpha"@, s.alpha) + opt_attr("radius"@, s.radius)
        + opt_attr("direction"@, s.direction) + opt_attr("distance"@, s.distance) + opt_attr(
        "alignStyle"@,
        s.align_style,
    ) + opt_attr("rotationStyle"@, s.rotation_style)
}

/// A point element, when there is a point.
pub open spec fn opt_point_items(name: Seq<char>, pt: Option<EffectPoint>) -> Seq<XmlItem> {
    match pt {
        Some(p) => seq![XmlItem::Empty(name, point_attrs(p))],
        None => Seq::empty(),
    }
}

/// The events of an effect colour, when there is one.
pub open spec fn opt_color_items(c: Option<EffectColor>) -> Seq<XmlItem> {
    match c {
        Some(c) => color_items(c),
        None => Seq::empty(),
    }
}

/// The events of a picture shadow: its skew, scale and colour inside.
pub open spec fn shadow_items(s: PictureShadow) -> Seq<XmlItem> {
    seq![XmlItem::Start("hp:shadow"@, shadow_attrs(s))] + opt_point_items("hp:skew"@, s.skew)
        + opt_point_items("hp:scale"@, s.scale) + opt_color_items(s.color) + seq![
        XmlItem::End("hp:shadow"@),
    ]
}

/// The events of a picture shadow, when there is one.
pub open spec fn opt_shadow_items(s: Option<PictureShadow>) -> Seq<XmlItem> {
    match s {
        Some(s) => shadow_items(s),
        None => Seq::empty(),
    }
}

/// `<hp:shadow ...>` of a picture, with its skew, scale and colour.
pub fn write_shadow(w: &mut XmlWriter, s: &PictureShadow)
    ensures
        final(w)@ == old(w)@ + shadow_items(*s),
{
    let mut attrs: Vec<(String, String)> = Vec::new();
    assert(attrs_view(attrs@) =~= Seq::<(Seq<char>, Seq<char>)>::empty());
    push_opt_attr(&mut attrs, "style", &s.style);
    push_opt_attr(&mut attrs, "alpha", &s.alpha);
    push_opt_attr(&mut attrs, "radius", &s.radius);
    push_opt_attr(&mut attrs, "direction", &s.direction);
    push_opt_attr(&mut attrs, "distance", &s.distance);
    push_opt_attr(&mut attrs, "alignStyle", &s.align_style);
    push_opt_attr(&mut attrs, "rotationStyle", &s.rotation_style);
    assert(attrs_view(attrs@) =~= shadow_attrs(*s));
    start_tag_attrs(w, "hp:shadow", attrs);
    let ghost w1 = w@;
    if let Some(skew) = &s.skew {
        write_effect_point(w, "hp:skew", skew);
    }
    assert(w@ =~= w1 + opt_point_items("hp:skew"@, s.skew));
    let ghost w2 = w@;
    if let Some(scale) = &s.scale {
        write_effect_point(w, "hp:scale", scale);
    }
    assert(w@ =~= w2 + opt_point_items("hp:scale"@, s.scale));
    let ghost w3 = w@;
    if let Some(color) = &s.color {
        write_effect_color(w, color);
    }
    assert(w@ =~= w3 + opt_color_items(s.color));
    end_tag(w, "hp:shadow");
    assert(w@ =~= old(w)@ + shadow_items(*s));
}

/// `<hp:effects>` of a picture, with its shadow inside when it has one.
pub fn write_effects(w: &mut XmlWriter, p: &Picture)
    ensures
        final(w)@ == old(w)@ + seq![XmlItem::Start("hp:effects"@, Seq::empty())]
            + opt_shadow_items(p.effects.shadow) + seq![XmlItem::End("hp:effects"@)],
{
    start_tag(w, "hp:effects");
    let ghost w1 = w@;
    if let Some(shadow) = &p.effects.shadow {
        write_shadow(w, shadow);
    }
    assert(w@ =~= w1 + opt_shadow_items(p.effects.shadow));
    end_tag(w, "hp:effects");
    assert(w@ =~= old(w)@ + seq![XmlItem::Start("hp:effects"@, Seq::empty())] + opt_shadow_items(
        p.effects.shadow,
    ) + seq![XmlItem::End("hp:effects"@)]);
}

/// The message when a picture's binary item is not registered in the package.
pub open spec fn unregistered_image(bin_id: u16) -> Seq<char> {
    "<hp:pic> binaryItemIDRef 미등록 bin_data_id="@ + decimal(bin_id as nat)
        + " (BinDataContent 누락)"@
}

/// `<hc:img .../>` of a picture: the package id of its binary item
/// (`manifest_id`, when the item is registered; empty for a picture with no
/// item), brightness, contrast, effect and the alpha text the caller
/// computed from its transparency. A picture whose non-zero binary item is
/// not registered is an error, and nothing is written.
pub fn write_img(w: &mut XmlWriter, p: &Picture, manifest_id: Option<&str>, alpha: &str) -> (r:
    Result<(), SerializeError>)
    ensures
        (manifest_id is None && p.image_attr.bin_data_id != 0) ==> final(w)@ == old(w)@,
        (manifest_id is None && p.image_attr.bin_data_id != 0) ==> (r matches Err(
            SerializeError::XmlError(m),
        ) && m@ == unregistered_image(p.image_attr.bin_data_id)),
        !(manifest_id is None && p.image_attr.bin_data_id != 0) ==> (r is Ok && final(w)@ == old(
            w,
        )@.push(
            XmlItem::Empty(
                "hc:img"@,
                seq![
                    (
                        "binaryItemIDRef"@,
                        match manifest_id {
                            Some(id) => id@,
                            None => Seq::empty(),
                        },
                    ),
                    ("bright"@, signed_decimal(p.image_attr.brightness as int)),
                    ("contrast"@, signed_decimal(p.image_attr.contrast as int)),
                    ("effect"@, image_effect_text(p.image_attr.effect)),
                    ("alpha"@, alpha@),
                ],
            ),
        )),
{
    let bin_id = p.image_attr.bin_data_id;
    let id = match manifest_id {
        Some(id) => string_of(id),
        None => {
            if bin_id != 0 {
                let mut m = string_of("<hp:pic> binaryItemIDRef 미등록 bin_data_id=");
                push_decimal(&mut m, bin_id as u64);
                string_push_str(&mut m, " (BinDataContent 누락)");
                return Err(SerializeError::XmlError(m));
            }
            String::new()
        },
    };
    let attrs = vec![
        attr("binaryItemIDRef", id),
        attr("bright", sdec(p.image_attr.brightness as i64)),
        attr("contrast", sdec(p.image_attr.contrast as i64)),
        attr_str("effect", image_effect_str(p.image_attr.effect)),
        attr_str("alpha", alpha),
    ];
    proof {
        assert(attrs_view(attrs@) =~= seq![
            (
                "binaryItemIDRef"@,
                match manifest_id {
                    Some(id) => id@,
                    None => Seq::empty(),
                },
            ),
            ("bright"@, signed_decimal(p.image_attr.brightness as int)),
            ("contrast"@, signed_decimal(p.image_attr.contrast as int)),
            ("effect"@, image_effect_text(p.image_attr.effect)),
            ("alpha"@, alpha@),
        ]);
    }
    empty_tag(w, "hc:img", attrs);
    Ok(())
}

} // verus!
