//! Flattens a syntax tree into a contiguous byte buffer of fixed-size,
//! tag-based records, written in pre-order.

pub mod kind;
pub mod record;
pub mod ast;
pub mod shape;
pub mod encode;
pub mod decode;
pub mod laws;
