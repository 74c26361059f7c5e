//! The logic of an intercepting HTTP/HTTPS proxy: recognisers for the
//! syntax of HTTP, the model of the messages that the proxy captures, what
//! the proxy decides for each request, and the scanner that looks for
//! reflected cross-site scripting. Every function has a contract, and
//! Verus proves that the function meets it.
//!
//! The library opens no socket and reads no file. It takes what was read
//! as plain values and says what is to be done; a program around it does
//! it.

pub mod api;
pub mod config;
pub mod dto;
pub mod http;
pub mod proxy;
pub mod scanner;
pub mod storage;
pub mod text;
