//! A resource database for a voxel-style game.
//!
//! A declarative resource file names texture atlases, tiles (rectangular
//! sub-regions of an atlas, addressed by normalized UV bounds) and blocks
//! (cubes whose six faces each reference a tile).  This crate builds the
//! in-memory database from such declarations: it registers decoded atlas
//! images, resolves tile declarations to exact UV rectangles with a
//! half-texel inset, and resolves block declarations to six tile handles
//! with layered override precedence.

pub mod resources;
