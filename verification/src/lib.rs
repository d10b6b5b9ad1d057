//! Straight-alpha recovery for premultiplied colour buffers.
//!
//! A premultiplied pixel stores its colours already scaled by its opacity.
//! This library turns such pixels into straight-alpha pixels whose dominant
//! colour is at full scale, one pixel at a time or a whole frame at once, in
//! exact integer arithmetic.
//!
//! - `channel`: the integer channel representations and their exchange with
//!   the normalized domain.
//! - `dominant`: the largest of three values.
//! - `kernel`: the transform on channel levels, and its laws.
//! - `pixel`: colour pixels in the two packed channel orders.
//! - `colorspace`: the exchange with luma and chroma.
//! - `lut`: the precomputed divide table and the fast path that reads it.
//! - `layout`, `buffer`: pixels as bytes, and back.
//! - `render`: the transform of a whole buffer.
//! - `format`, `frame`, `plugin`: pixel formats, frame geometry, and the
//!   render call keyed by them.
//! - `error`: why a call is refused.

pub mod buffer;
pub mod channel;
pub mod colorspace;
pub mod dominant;
pub mod error;
pub mod format;
pub mod frame;
pub mod kernel;
pub mod layout;
pub mod lut;
pub mod pixel;
pub mod plugin;
pub mod render;
