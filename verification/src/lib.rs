//! A text shaping and layout engine: turns a string plus a style descriptor
//! into a positioned sequence of glyphs ready for rasterization.
//!
//! The pipeline: the input text is segmented into runs of a single Unicode
//! script and direction (`segment`), each run is split into space-inclusive
//! words, each word is shaped through HarfBuzz with the first candidate font
//! that covers it (`glyph`, `shaper`) — memoized in a bounded
//! least-recently-used cache (`cache`) — and the concatenated glyph sequence
//! is laid out with alignment, baseline, letter-spacing and padding rules
//! (`layout`).
//!
//! All coordinates and metrics are integers: font-unit values are scaled to
//! the requested size with truncating fixed-point arithmetic, and HarfBuzz
//! positions are de-scaled from 1/64 units the same way.

pub mod cache;
pub mod glyph;
pub mod layout;
pub mod num;
pub mod segment;
pub mod shaper;
pub mod style;
