//! Capture-and-annotate engine: an RGBA pixel buffer, a small rasterizer,
//! redaction effects, the annotation shape history, the crop-region state
//! machine and the editor controller that ties them together.

pub mod capture;
pub mod editor;
pub mod effects;
pub mod export;
pub mod geometry;
pub mod glyphs;
pub mod history;
pub mod layout;
pub mod pixels;
pub mod raster;
pub mod render;
pub mod selection;
pub mod shapes;
