//! Frame synthesis, GIF stream framing and stream configuration for an
//! incremental (streamed) animated GIF.

pub mod config;
pub mod frames;
pub mod gif_blocks;
pub mod gif_stream;
pub mod stream_laws;
pub mod text;
pub mod video;
