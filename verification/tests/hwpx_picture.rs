use rhwp::model::image::{
    EffectColor, EffectPoint, EffectRgb, ImageAttr, ImageCrop, ImageEffect, Picture,
    PictureEffects, PictureShadow, ShapeComponentAttr,
};
use rhwp::model::shape::{CommonObjAttr, Padding, Point};
use rhwp::serializer::hwpx::picture::{
    write_cur_sz, write_effects, write_img, write_img_clip, write_img_dim, write_img_rect,
    write_in_margin, write_offset,
};
use rhwp::serializer::hwpx::SerializeError;
use rhwp::serializer::hwpx::xml::{render_xml, XmlWriter};

fn picture() -> Picture {
    let mut common = CommonObjAttr::default();
    common.width = 5000;
    common.height = 3000;
    common.horizontal_offset = 120;
    common.vertical_offset = 4294967196;
    Picture {
        common,
        shape_attr: ShapeComponentAttr {
            offset_x: 0,
            offset_y: 0,
            group_level: 0,
            original_width: 5000,
            original_height: 3000,
            current_width: 0,
            current_height: 2500,
            current_width_was_zero: false,
            current_height_was_zero: false,
            horz_flip: false,
            vert_flip: false,
            rotation_angle: 0,
            rotation_center: Point { x: 0, y: 0 },
            rotate_image: false,
        },
        border_x: [0; 4],
        border_y: [0; 4],
        crop: ImageCrop { left: 1, top: 2, right: -3, bottom: 4 },
        padding: Padding { left: 10, right: 20, top: 30, bottom: -40 },
        image_attr: ImageAttr { bin_data_id: 2, brightness: -10, contrast: 5, effect: ImageEffect::BlackWhite, transparency: 0 },
        img_dim: (640, 480),
        effects: PictureEffects { shadow: None },
        caption: None,
    }
}

fn render(f: impl Fn(&mut XmlWriter)) -> String {
    let mut w = XmlWriter::new();
    f(&mut w);
    render_xml(&w)
}

#[test]
fn picture_offset_and_current_size() {
    let mut p = picture();
    assert_eq!(render(|w| write_offset(w, &p)), r#"<hp:offset x="120" y="4294967196"/>"#);
    // no stored current width: the object's width stands in
    assert_eq!(render(|w| write_cur_sz(w, &p)), r#"<hp:curSz width="5000" height="2500"/>"#);
    p.shape_attr.current_height_was_zero = true;
    assert_eq!(render(|w| write_cur_sz(w, &p)), r#"<hp:curSz width="5000" height="0"/>"#);
}

#[test]
fn image_rectangle_from_borders_or_size() {
    let mut p = picture();
    assert_eq!(
        render(|w| write_img_rect(w, &p)),
        [
            r#"<hp:imgRect><hc:pt0 x="0" y="0"/><hc:pt1 x="5000" y="0"/>"#,
            r#"<hc:pt2 x="5000" y="3000"/><hc:pt3 x="0" y="3000"/></hp:imgRect>"#
        ].concat()
    );
    p.border_x = [1, 2, 3, 4];
    p.border_y = [5, 6, 7, -8];
    assert_eq!(
        render(|w| write_img_rect(w, &p)),
        [
            r#"<hp:imgRect><hc:pt0 x="1" y="2"/><hc:pt1 x="3" y="4"/>"#,
            r#"<hc:pt2 x="5" y="6"/><hc:pt3 x="7" y="-8"/></hp:imgRect>"#
        ].concat()
    );
}

#[test]
fn clip_margins_and_dimensions() {
    let p = picture();
    assert_eq!(
        render(|w| write_img_clip(w, &p)),
        r#"<hp:imgClip left="1" right="-3" top="2" bottom="4"/>"#
    );
    assert_eq!(
        render(|w| write_in_margin(w, &p)),
        r#"<hp:inMargin left="10" right="20" top="30" bottom="-40"/>"#
    );
    assert_eq!(render(|w| write_img_dim(w, &p)), r#"<hp:imgDim dimwidth="640" dimheight="480"/>"#);
}

#[test]
fn effects_keep_only_the_attributes_that_were_read() {
    let mut p = picture();
    assert_eq!(render(|w| write_effects(w, &p)), "<hp:effects></hp:effects>");
    p.effects.shadow = Some(PictureShadow {
        style: Some("OUTSIDE".to_string()),
        alpha: Some("0.5".to_string()),
        radius: None,
        direction: Some("45".to_string()),
        distance: None,
        align_style: None,
        rotation_style: Some("1".to_string()),
        skew: Some(EffectPoint { x: Some("0".to_string()), y: None }),
        scale: None,
        color: Some(EffectColor {
            color_type: Some("RGB".to_string()),
            scheme_idx: None,
            system_idx: None,
            preset_idx: None,
            rgb: Some(EffectRgb { r: Some("1".to_string()), g: Some("2".to_string()), b: None }),
        }),
    });
    assert_eq!(
        render(|w| write_effects(w, &p)),
        [
            r#"<hp:effects><hp:shadow style="OUTSIDE" alpha="0.5" direction="45" rotationStyle="1">"#,
            r#"<hp:skew x="0"/><hp:effectsColor type="RGB"><hp:rgb r="1" g="2"/></hp:effectsColor>"#,
            r#"</hp:shadow></hp:effects>"#
        ].concat()
    );
    if let Some(s) = p.effects.shadow.as_mut() {
        s.color.as_mut().unwrap().rgb = None;
        s.skew = None;
        s.scale = Some(EffectPoint { x: None, y: None });
    }
    assert_eq!(
        render(|w| write_effects(w, &p)),
        [
            r#"<hp:effects><hp:shadow style="OUTSIDE" alpha="0.5" direction="45" rotationStyle="1">"#,
            r#"<hp:scale/><hp:effectsColor type="RGB"/></hp:shadow></hp:effects>"#
        ].concat()
    );
}

#[test]
fn image_reference_and_unregistered_items() {
    let mut p = picture();
    assert_eq!(
        render(|w| write_img(w, &p, Some("image2"), "0").unwrap()),
        r#"<hc:img binaryItemIDRef="image2" bright="-10" contrast="5" effect="BLACK_WHITE" alpha="0"/>"#
    );
    let mut w = XmlWriter::new();
    match write_img(&mut w, &p, None, "0") {
        Err(SerializeError::XmlError(m)) => {
            assert_eq!(m, "<hp:pic> binaryItemIDRef 미등록 bin_data_id=2 (BinDataContent 누락)")
        }
        Ok(()) => panic!("an unregistered image must be refused"),
    }
    assert_eq!(render_xml(&w), "");
    // a picture with no binary item keeps an empty reference
    p.image_attr.bin_data_id = 0;
    p.image_attr.effect = ImageEffect::RealPic;
    assert_eq!(
        render(|w| write_img(w, &p, None, "255").unwrap()),
        r#"<hc:img binaryItemIDRef="" bright="-10" contrast="5" effect="REAL_PIC" alpha="255"/>"#
    );
}
