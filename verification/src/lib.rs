//! Decoder and browsing model for APOB firmware configuration blobs.
//!
//! An APOB blob is a 16-byte header followed by padding and a run of
//! length-prefixed records. This crate walks such a blob into bounds-checked
//! items, classifies each record, decodes the known payload layouts, and
//! keeps the state of an interactive browser over the result.

pub mod browser;
pub mod bytes;
pub mod cell;
pub mod classify;
pub mod container;
pub mod coremap;
pub mod dump;
pub mod model;
pub mod payload;
pub mod record;
pub mod render;
pub mod special;
pub mod text;
