//! Reader for OpenStreetMap PBF files: frame-by-frame blob reading, lazy
//! blob decoding, and typed iteration over the primitives of a block.

pub mod blob;
pub mod decode;
pub mod delta;
pub mod entity;
pub mod laws;
pub mod osmformat;
pub mod primitives;
pub mod reader;
pub mod relation;
pub mod tags;
pub mod wire;
