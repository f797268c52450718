//! Rendering: page numbering and the pieces of layout that decide by rule.

pub mod composer;
pub mod float_placement;
pub mod font_metrics_data;
pub mod form_caption;
pub mod layer_renderer;
pub mod layout;
pub mod page_number;
pub mod pagination;
pub mod skia;
pub mod svg_fragment;
