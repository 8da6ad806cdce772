//! A compact interchange format for 2D vector drawings, and what is done with it.
//!
//! - `json`: the JSON value model that documents are read from and written to.
//! - `scalar`: real numbers, carried as IEEE 754 bit patterns.
//! - `image`: the drawing model: points, colors, patterns, pens, brushes,
//!   segments, paths, shapes and the image itself.
//! - `codec`: the positional encoding of points, colors, segments and paths.
//! - `records`: the object encoding of patterns, pens and brushes.
//! - `document`: the object encoding of shapes and images.
//! - `strip`: flattening of groups.
//! - `render`: the drawing commands that a document stands for.
pub mod codec;
pub mod document;
pub mod image;
pub mod json;
pub mod records;
pub mod render;
pub mod scalar;
pub mod strip;
