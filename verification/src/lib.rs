//! Attribute dictionary for a tag-addressed medical-imaging interchange format:
//! tag ranges, dictionary entries, a registry, and the pipeline that extracts
//! dictionary rows from the standard's table.

pub mod emit;
pub mod entries;
pub mod extract;
pub mod header;
pub mod dictionary;
pub mod hex;
pub mod keyed;
pub mod registry;
pub mod tag_range;
pub mod text;
pub mod xml;
