//! The message model: requests and responses as they are stored, shown and
//! replayed.

pub mod body;
pub mod cookie_text;
pub mod cookies;
pub mod form;
pub mod keyed;
pub mod multimap;
pub mod reqresp;
pub mod request;
pub mod response;
pub mod round_trip;
pub mod to_wire;
pub mod wire;
