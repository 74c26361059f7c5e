//! HTTP/1.1 syntax: octet classes and the parsers built on them.

pub mod message;
pub mod parser;
