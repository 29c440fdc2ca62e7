//! Recording: base64 payload encoding and the MCAP channel registry.

pub mod base64;
pub mod json;
pub mod mcap_writer;
