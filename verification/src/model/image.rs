//! Pictures.

use crate::model::shape::{Caption, CommonObjAttr, Padding, Point};
use vstd::prelude::*;

verus! {

/// The colour effect applied to a picture.
#[derive(Clone, Copy, Debug, PartialEq, Eq, Structural)]
pub enum ImageEffect {
    RealPic,
    GrayScale,
    BlackWhite,
    Pattern8x8,
}

/// The geometry of a shape component (HWPUNIT): its offset in its group,
/// original and current size (with whether a current size of 0 was read as
/// the original one), flips and rotation.
#[derive(Clone, Copy, Debug, PartialEq, Eq)]
pub struct ShapeComponentAttr {
    pub offset_x: i32,
    pub offset_y: i32,
    pub group_level: u16,
    pub original_width: u32,
    pub original_height: u32,
    pub current_width: u32,
    pub current_height: u32,
    pub current_width_was_zero: bool,
    pub current_height_was_zero: bool,
    pub horz_flip: bool,
    pub vert_flip: bool,
    pub rotation_angle: i16,
    pub rotation_center: Point,
    pub rotate_image: bool,
}

/// The image of a picture: its binary item (0 for none), brightness,
/// contrast, colour effect and transparency.
#[derive(Clone, Copy, Debug, PartialEq, Eq)]
pub struct ImageAttr {
    pub bin_data_id: u16,
    pub brightness: i8,
    pub contrast: i8,
    pub effect: ImageEffect,
    pub transparency: u8,
}

/// How much of the image is cut away on each side.
#[derive(Clone, Copy, Debug, PartialEq, Eq)]
pub struct ImageCrop {
    pub left: i32,
    pub top: i32,
    pub right: i32,
    pub bottom: i32,
}

/// A point of a picture effect, as its attribute texts.
pub struct EffectPoint {
    pub x: Option<String>,
    pub y: Option<String>,
}

/// An RGB colour of a picture effect, as its attribute texts.
pub struct EffectRgb {
    pub r: Option<String>,
    pub g: Option<String>,
    pub b: Option<String>,
}

/// The colour of a picture effect, as its attribute texts.
pub struct EffectColor {
    pub color_type: Option<String>,
    pub scheme_idx: Option<String>,
    pub system_idx: Option<String>,
    pub preset_idx: Option<String>,
    pub rgb: Option<EffectRgb>,
}

/// The shadow effect of a picture, kept as the attribute texts it was read with.
pub struct PictureShadow {
    pub style: Option<String>,
    pub alpha: Option<String>,
    pub radius: Option<String>,
    pub direction: Option<String>,
    pub distance: Option<String>,
    pub align_style: Option<String>,
    pub rotation_style: Option<String>,
    pub skew: Option<EffectPoint>,
    pub scale: Option<EffectPoint>,
    pub color: Option<EffectColor>,
}

/// The effects applied to a picture.
pub struct PictureEffects {
    pub shadow: Option<PictureShadow>,
}

/// A picture object: size attributes, the image border rectangle (pt0 and
/// pt1 in `border_x`, pt2 and pt3 in `border_y`, each as x then y), crop and
/// inner margins, the stored image dimensions, effects and an optional caption.
pub struct Picture {
    pub common: CommonObjAttr,
    pub shape_attr: ShapeComponentAttr,
    pub border_x: [i32; 4],
    pub border_y: [i32; 4],
    pub crop: ImageCrop,
    pub padding: Padding,
    pub image_attr: ImageAttr,
    pub img_dim: (u32, u32),
    pub effects: PictureEffects,
    pub caption: Option<Caption>,
}

} // verus!
