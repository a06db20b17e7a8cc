//! Verified core of the shytti shell daemon: the text rules of its Hermytt
//! bridge, its HTTP request framing, its error type, its API decisions.

pub mod text;
pub mod error;
pub mod json;
pub mod bridge;
pub mod pipe;
pub mod api;
pub mod client;
pub mod laws;
