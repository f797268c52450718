//! HWP/HWPX document serialization and rendering helpers.

pub mod model;
pub mod paint;
pub mod renderer;
pub mod serializer;
pub mod text;
pub mod text_order;
