//! Verified text transformations behind the generator of X4 ship variants:
//! macro renaming, text-file lookups, stat rolling and ware rewriting.

pub mod text;
pub mod names;
pub mod pattern;
pub mod tfile;
pub mod stats;
pub mod ware;
pub mod relations;
