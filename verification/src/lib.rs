//! A 2D rendering front-end built around an append-only geometry stream.
//!
//! Emitters append vertices, triangles and render-state batches into a
//! [`stream::VertexStream`] over the course of a frame; at frame end the
//! batches are diffed into a minimal sequence of GPU calls, while a
//! multi-page glyph atlas packs rasterized glyphs and feeds quads back
//! into the same stream.

pub mod control;
pub mod input;
pub mod renderer;
pub mod stream;
pub mod text;
pub mod tiles;
pub mod utils;
