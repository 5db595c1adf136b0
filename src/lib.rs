//! A bounded in-memory chat log: a ring buffer of key/value messages, the
//! role gate in front of it, and the request decisions around both.

pub mod ring;
pub mod listing;
pub mod access;
pub mod request;
pub mod laws;
