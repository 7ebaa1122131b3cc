//! Binary codec for a 2D tile-based map ("board").
//!
//! A board is persisted as a fixed 12-byte header (width, height, scale,
//! each a little-endian signed 32-bit integer) followed by one fixed-width
//! record per placed entity. The entity list has no explicit count or
//! terminator: decoding reads records until fewer bytes than a full record
//! remain, so the count is implicit in the stream length.

pub mod board;
pub mod entity;
pub mod tile;
pub mod wire;
