//! Renders bibliographic records as citation text in the IEEE and APA styles.
//!
//! The records are the library's own plain values; parsing BibLaTeX source
//! into them goes through the `biblatex` crate.

pub mod record;
pub mod text;
pub mod authors;
pub mod render;
pub mod bibliography;
pub mod graph;
pub mod shape;
pub mod source;
pub mod laws;
