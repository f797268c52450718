//! Line and fill styles of drawing objects.

use vstd::prelude::*;

verus! {

/// The outline of a drawing object: colour, width, the packed line
/// attributes (style, end cap, arrows) and the outline placement.
#[derive(Clone, Copy, Debug, PartialEq, Eq)]
pub struct ShapeBorderLine {
    pub color: u32,
    pub width: i32,
    pub attr: u32,
    pub outline_style: u8,
}

/// How an area is filled.
#[derive(Clone, Copy, Debug, PartialEq, Eq, Structural)]
pub enum FillType {
    /// No fill (named `None` in the file format).
    NoFill,
    Solid,
    Gradient,
    Image,
}

/// A solid (window brush) fill: face and hatch colours and the hatch
/// pattern (0 for none).
#[derive(Clone, Copy, Debug, PartialEq, Eq)]
pub struct SolidFill {
    pub background_color: u32,
    pub pattern_color: u32,
    pub pattern_type: i32,
}

impl SolidFill {
    /// A solid fill with every field 0.
    pub fn zero() -> (r: Self)
        ensures
            r.background_color == 0 && r.pattern_color == 0 && r.pattern_type == 0,
    {
        SolidFill { background_color: 0, pattern_color: 0, pattern_type: 0 }
    }
}

/// A gradient fill: its kind (1 linear, 2 radial, 3 conical, 4 square),
/// angle, centre, blur steps, step centre and colours.
#[derive(Clone, Debug)]
pub struct GradientFill {
    pub gradient_type: i16,
    pub angle: i16,
    pub center_x: i16,
    pub center_y: i16,
    pub blur: i16,
    pub step_center: u8,
    pub colors: Vec<u32>,
}

/// How an image fills an area.
#[derive(Clone, Copy, Debug, PartialEq, Eq, Structural)]
pub enum ImageFillMode {
    Tile,
    TileHorzTop,
    TileHorzBottom,
    TileVertLeft,
    TileVertRight,
    Total,
    Center,
    CenterTop,
    CenterBottom,
    LeftCenter,
    LeftTop,
    LeftBottom,
    RightCenter,
    RightTop,
    RightBottom,
    FitToSize,
}

/// An image fill: the mode, the binary item and its adjustments.
#[derive(Clone, Copy, Debug, PartialEq, Eq)]
pub struct ImageFill {
    pub fill_mode: ImageFillMode,
    pub bin_data_id: u16,
    pub brightness: i8,
    pub contrast: i8,
    pub effect: u8,
}

/// The fill of an area: its kind and the data of each kind it holds, with
/// its transparency.
pub struct Fill {
    pub fill_type: FillType,
    pub solid: Option<SolidFill>,
    pub gradient: Option<GradientFill>,
    pub image: Option<ImageFill>,
    pub alpha: u8,
}

} // verus!
