//! Native command layer of a pixel-art / animation editor.
//!
//! The library marshals pixel buffers and project metadata between an
//! in-memory representation and plain byte values: it validates raster
//! buffers, encodes and decodes the `.quad` project file format, derives
//! display names from file names, and drives the image and GIF codecs.
//! All file-system and dialog interaction stays outside the library.

pub mod errors;
pub mod messages;
pub mod codec;
pub mod decode;
pub mod laws;
pub mod persist;
pub mod raster;
pub mod textnum;
