//! Verified core of a multi-camera and UDP capture agent that records into MCAP.
//!
//! The library holds the decisions of the agent: configuration defaults, clock
//! calibration and time-domain conversions, the parsing of kernel receive
//! timestamps, the per-stream capture state, the MCAP channel registry with its
//! message sequencing and payload encoding, and the planning of session files.
//! Device, socket and file access stay with the program that drives it.

pub mod config;
pub mod drivers;
pub mod plan;
pub mod recorder;
pub mod time;

