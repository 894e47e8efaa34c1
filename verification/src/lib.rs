//! Codecs for the ancillary metadata chunks of the PNG container format.
//!
//! Each chunk kind has a `parse` that turns the payload bytes of one chunk
//! into a typed value or a precise error, and a `write` that turns the value
//! back into bytes of the same layout.

pub mod chunk;
pub mod consts;
pub mod decoder;
pub mod encoder;
pub mod error;
pub mod parsing;
pub mod reader;
pub mod zlib;
