//! A compact, non-self-describing binary codec.
//!
//! Values are laid out as plain concatenations of their parts: fixed-width
//! little-endian integers, sentinel-terminated strings, length-prefixed
//! containers and index-prefixed tagged unions. The decoder is driven by the
//! shape that the caller asks for and never infers it from the bytes.
pub mod byte_buffer;
