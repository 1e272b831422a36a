//! Verified core of a deck plugin: parsing of kernel statistics, button titles,
//! tile geometry for images spread over a grid of buttons, and the generation of
//! deck profiles from slot definitions.

pub mod text;
pub mod stats;
pub mod media;
pub mod raster;
pub mod tiling;
pub mod video;
pub mod json;
pub mod profile;
pub mod ring;
pub mod commands;
pub mod profile_file;
