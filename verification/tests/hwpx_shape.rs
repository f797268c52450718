use rhwp::model::image::ShapeComponentAttr;
use rhwp::model::style::{
    Fill, FillType, GradientFill, ImageFill, ImageFillMode, ShapeBorderLine, SolidFill,
};
use rhwp::model::shape::{
    CommonObjAttr, DrawingObjAttr, HorzAlign, HorzRelTo, Padding, Point, VertAlign,
    VertRelTo,
};
use rhwp::serializer::hwpx::shape::{
    write_cur_sz, write_fill_brush, write_flip, write_line_shape, write_offset, write_org_sz,
    write_out_margin,
    write_pos, write_rect_pts, write_rotation_info, write_shadow, write_shape_comment, write_sz,
};
use rhwp::serializer::hwpx::xml::{render_xml, XmlWriter};

fn component() -> ShapeComponentAttr {
    ShapeComponentAttr {
        offset_x: -120,
        offset_y: 40,
        group_level: 0,
        original_width: 7200,
        original_height: 3600,
        current_width: 7200,
        current_height: 1800,
        current_width_was_zero: true,
        current_height_was_zero: false,
        horz_flip: true,
        vert_flip: false,
        rotation_angle: -90,
        rotation_center: Point { x: 3600, y: -1800 },
        rotate_image: true,
    }
}

fn drawing(line: ShapeBorderLine) -> DrawingObjAttr {
    DrawingObjAttr {
        shape_attr: component(),
        border_line: line,
        fill: no_fill(None),
        shadow_type: 0,
        shadow_color: 0,
        shadow_offset_x: 0,
        shadow_offset_y: 0,
        shadow_alpha: 0,
        text_box: None,
        caption: None,
        inst_id: 0,
    }
}

fn no_fill(solid: Option<SolidFill>) -> Fill {
    Fill { fill_type: FillType::NoFill, solid, gradient: None, image: None, alpha: 0 }
}

fn render(f: impl Fn(&mut XmlWriter)) -> String {
    let mut w = XmlWriter::new();
    f(&mut w);
    render_xml(&w)
}

#[test]
fn component_geometry_elements() {
    let sa = component();
    assert_eq!(render(|w| write_offset(w, &sa)), r#"<hp:offset x="-120" y="40"/>"#);
    assert_eq!(render(|w| write_org_sz(w, &sa)), r#"<hp:orgSz width="7200" height="3600"/>"#);
    // a current width read as 0 is written back as 0
    assert_eq!(render(|w| write_cur_sz(w, &sa)), r#"<hp:curSz width="0" height="1800"/>"#);
    assert_eq!(render(|w| write_flip(w, &sa)), r#"<hp:flip horizontal="1" vertical="0"/>"#);
    assert_eq!(
        render(|w| write_rotation_info(w, &sa)),
        r#"<hp:rotationInfo angle="-90" centerX="3600" centerY="-1800" rotateimage="1"/>"#
    );
}

#[test]
fn line_shape_unpacks_the_line_attributes() {
    let line = ShapeBorderLine {
        color: 0x00FF_0000,
        width: 33,
        attr: 2 | (1 << 6) | (4 << 22) | (8 << 26) | 0x8000_0000,
        outline_style: 1,
    };
    assert_eq!(
        render(|w| write_line_shape(w, &line)),
        [
            r##"<hp:lineShape color="#0000FF" width="33" style="DASH" endCap="FLAT" "##,
            r#"headStyle="NORMAL" tailStyle="NORMAL" headfill="1" tailfill="0" "#,
            r#"headSz="MEDIUM_MEDIUM" tailSz="BIG_BIG" outlineStyle="OUTER" alpha="0"/>"#
        ].concat()
    );
    let none = ShapeBorderLine { color: 0xFFFF_FFFF, width: -1, attr: (3 << 6) | 0x4000_0000, outline_style: 7 };
    assert_eq!(
        render(|w| write_line_shape(w, &none)),
        [
            r#"<hp:lineShape color="none" width="-1" style="NONE" endCap="ROUND" "#,
            r#"headStyle="NORMAL" tailStyle="NORMAL" headfill="0" tailfill="1" "#,
            r#"headSz="SMALL_SMALL" tailSz="SMALL_SMALL" outlineStyle="NORMAL" alpha="0"/>"#
        ].concat()
    );
    let unknown = ShapeBorderLine { color: 0, width: 0, attr: 12 | (2 << 6), outline_style: 2 };
    let text = render(|w| write_line_shape(w, &unknown));
    assert!(text.contains(r#"style="SOLID" endCap="SQUARE""#), "{}", text);
    assert!(text.contains(r#"outlineStyle="INNER""#), "{}", text);
}

#[test]
fn shadow_is_left_out_when_every_field_is_zero() {
    let line = ShapeBorderLine { color: 0, width: 0, attr: 0, outline_style: 0 };
    let mut d = drawing(line);
    assert_eq!(render(|w| write_shadow(w, &d)), "");
    d.shadow_type = 4;
    d.shadow_color = 0x8011_2233;
    d.shadow_offset_x = -5;
    d.shadow_offset_y = 7;
    d.shadow_alpha = 50;
    assert_eq!(
        render(|w| write_shadow(w, &d)),
        r##"<hp:shadow type="RIGHT_BOTTOM" color="#80332211" offsetX="-5" offsetY="7" alpha="50"/>"##
    );
    d.shadow_type = 0;
    d.shadow_color = 0;
    d.shadow_offset_x = 0;
    d.shadow_offset_y = 0;
    d.shadow_alpha = 1;
    assert_eq!(
        render(|w| write_shadow(w, &d)),
        r##"<hp:shadow type="NONE" color="#000000" offsetX="0" offsetY="0" alpha="1"/>"##
    );
}

#[test]
fn rectangle_corners() {
    assert_eq!(
        render(|w| write_rect_pts(w, &[0, 100, 100, 0], &[0, 0, -50, -50])),
        [
            r#"<hc:pt0 x="0" y="0"/><hc:pt1 x="100" y="0"/>"#,
            r#"<hc:pt2 x="100" y="-50"/><hc:pt3 x="0" y="-50"/>"#
        ].concat()
    );
}

#[test]
fn shape_comment_only_when_described() {
    let mut c = CommonObjAttr::default();
    assert_eq!(render(|w| write_shape_comment(w, &c)), "");
    c.description = "a<b & c".to_string();
    assert_eq!(
        render(|w| write_shape_comment(w, &c)),
        "<hp:shapeComment>a&lt;b &amp; c</hp:shapeComment>"
    );
}

#[test]
fn size_position_and_margin() {
    let mut c = CommonObjAttr::default();
    c.width = 4000;
    c.height = 2000;
    c.treat_as_char = true;
    c.allow_overlap = true;
    c.prevent_page_break = true;
    c.vert_rel_to = VertRelTo::Para;
    c.horz_rel_to = HorzRelTo::Column;
    c.vert_align = VertAlign::Bottom;
    c.horz_align = HorzAlign::Center;
    c.vertical_offset = 10;
    c.horizontal_offset = 4294967295;
    c.margin = Padding { left: -1, right: 2, top: 3, bottom: 32767 };
    assert_eq!(
        render(|w| write_sz(w, &c)),
        r#"<hp:sz width="4000" widthRelTo="ABSOLUTE" height="2000" heightRelTo="ABSOLUTE" protect="0"/>"#
    );
    assert_eq!(
        render(|w| write_pos(w, &c)),
        [
            r#"<hp:pos treatAsChar="1" affectLSpacing="0" flowWithText="0" allowOverlap="1" "#,
            r#"holdAnchorAndSO="1" vertRelTo="PARA" horzRelTo="COLUMN" vertAlign="BOTTOM" "#,
            r#"horzAlign="CENTER" vertOffset="10" horzOffset="4294967295"/>"#
        ].concat()
    );
    assert_eq!(
        render(|w| write_out_margin(w, &c)),
        r#"<hp:outMargin left="-1" right="2" top="3" bottom="32767"/>"#
    );
}

#[test]
fn fill_brush_by_fill_kind() {
    // no fill, and none kept: nothing
    assert_eq!(render(|w| write_fill_brush(w, &no_fill(None), "0", None)), "");
    // no fill but a kept empty brush: written back
    let kept = SolidFill { background_color: 0xFFFF_FFFF, pattern_color: 0, pattern_type: 0 };
    assert_eq!(
        render(|w| write_fill_brush(w, &no_fill(Some(kept)), "0", None)),
        r##"<hc:fillBrush><hc:winBrush faceColor="none" hatchColor="#000000" alpha="0"/></hc:fillBrush>"##
    );
    // a solid fill with a hatch pattern
    let solid = Fill {
        fill_type: FillType::Solid,
        solid: Some(SolidFill { background_color: 0x00C0_FFEE, pattern_color: 0x0000_00FF, pattern_type: 3 }),
        gradient: None,
        image: None,
        alpha: 128,
    };
    assert_eq!(
        render(|w| write_fill_brush(w, &solid, "0.5019607843137255", None)),
        r##"<hc:fillBrush><hc:winBrush faceColor="#EEFFC0" hatchColor="#FF0000" hatchStyle="BACK_SLASH" alpha="0.5019607843137255"/></hc:fillBrush>"##
    );
    // a solid fill with no data: every field 0
    let bare = Fill { fill_type: FillType::Solid, solid: None, gradient: None, image: None, alpha: 0 };
    assert_eq!(
        render(|w| write_fill_brush(w, &bare, "0", None)),
        r##"<hc:fillBrush><hc:winBrush faceColor="#000000" hatchColor="#000000" alpha="0"/></hc:fillBrush>"##
    );
}

#[test]
fn gradient_and_image_brushes() {
    let grad = Fill {
        fill_type: FillType::Gradient,
        solid: None,
        gradient: Some(GradientFill {
            gradient_type: 2,
            angle: 90,
            center_x: 50,
            center_y: -50,
            blur: 10,
            step_center: 50,
            colors: vec![0x0000_00FF, 0x00FF_0000],
        }),
        image: None,
        alpha: 0,
    };
    assert_eq!(
        render(|w| write_fill_brush(w, &grad, "0", None)),
        [
            r#"<hc:fillBrush><hc:gradation type="RADIAL" angle="90" centerX="50" centerY="-50" step="10" stepCenter="50" alpha="0">"#,
            r##"<hc:color value="#FF0000"/><hc:color value="#0000FF"/></hc:gradation></hc:fillBrush>"##,
        ]
        .concat()
    );
    let mut odd = grad.gradient.clone().unwrap();
    odd.gradient_type = 7;
    odd.colors.clear();
    let odd_fill = Fill { gradient: Some(odd), ..grad };
    assert_eq!(
        render(|w| write_fill_brush(w, &odd_fill, "0", None)),
        r#"<hc:fillBrush><hc:gradation type="7" angle="90" centerX="50" centerY="-50" step="10" stepCenter="50" alpha="0"></hc:gradation></hc:fillBrush>"#
    );
    let image = Fill {
        fill_type: FillType::Image,
        solid: None,
        gradient: None,
        image: Some(ImageFill { fill_mode: ImageFillMode::FitToSize, bin_data_id: 3, brightness: -5, contrast: 10, effect: 1 }),
        alpha: 0,
    };
    assert_eq!(
        render(|w| write_fill_brush(w, &image, "0", Some("image3"))),
        r#"<hc:fillBrush><hc:imgBrush mode="FIT"><hc:img binaryItemIDRef="image3" bright="-5" contrast="10" effect="GRAY_SCALE" alpha="0"/></hc:imgBrush></hc:fillBrush>"#
    );
    // an unregistered image leaves an empty brush; any other mode tiles
    let mut tiled = image;
    tiled.image = Some(ImageFill { fill_mode: ImageFillMode::LeftTop, bin_data_id: 9, brightness: 0, contrast: 0, effect: 0 });
    assert_eq!(
        render(|w| write_fill_brush(w, &tiled, "0", None)),
        r#"<hc:fillBrush><hc:imgBrush mode="TILE"/></hc:fillBrush>"#
    );
}
