//! Extraction of metadata (volume, chapter, publisher, year, ...) from the
//! file names of manga and light-novel releases.

pub mod extract;
pub mod pattern;
pub mod text;
pub mod title;
