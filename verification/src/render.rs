//! Rendering: caches, font selection, layout and compositing.

pub mod cache;
pub mod canvas;
pub mod chars;
pub mod compose;
pub mod face;
pub mod fallback;
pub mod fonts;
pub mod layout;
pub mod metrics;
pub mod paths;
pub mod picture;
pub mod raster;
pub mod renderer;
pub mod scale;
pub mod text;
