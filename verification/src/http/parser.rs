//! Parsers over immutable byte slices.

pub mod primitives;
pub mod request;
