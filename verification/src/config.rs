//! Configuration records of the capture agent and their default values.
//!
//! The YAML loader lives with the program; these are the records it fills.

use vstd::prelude::*;

verus! {

/// Per-camera configuration.
#[derive(Debug, Clone)]
pub struct CameraConfig {
    /// Logical name used in MCAP topic paths: `/camera/<name>/compressed`.
    pub name: String,
    /// V4L2 device index (0 selects /dev/video0).
    pub device_id: u32,
    pub width: u32,
    pub height: u32,
    pub fps: u32,
    /// JPEG quality 1-100, used only when re-encoding YUYV frames.
    pub jpeg_quality: u8,
    /// Number of V4L2 mmap buffers to pre-allocate.
    pub buffer_size: u32,
}

/// Per-UDP-stream configuration.
#[derive(Debug, Clone)]
pub struct UdpStreamConfig {
    /// Logical name used in MCAP topic paths: `/udp/<name>/raw`.
    pub name: String,
    /// IP address to bind (e.g. "0.0.0.0").
    pub bind_ip: String,
    /// UDP port number.
    pub port: u16,
    /// Optional multicast group to join.
    pub multicast_group: Option<String>,
    /// Channel queue depth.
    pub buffer_size: usize,
}

/// Default frame width in pixels.
pub fn default_width() -> (r: u32)
    ensures
        r == 1280,
{
    1280
}

/// Default frame height in pixels.
pub fn default_height() -> (r: u32)
    ensures
        r == 720,
{
    720
}

/// Default frame rate in frames per second.
pub fn default_fps() -> (r: u32)
    ensures
        r == 30,
{
    30
}

/// Default JPEG quality for re-encoded frames.
pub fn default_jpeg_quality() -> (r: u8)
    ensures
        r == 90,
{
    90
}

/// Default number of V4L2 mmap buffers.
pub fn default_buffer_size() -> (r: u32)
    ensures
        r == 4,
{
    4
}

/// Default IP address that UDP streams bind to.
pub fn default_bind_ip() -> (r: String)
    ensures
        r@ == "0.0.0.0"@,
{
    String::from_str("0.0.0.0")
}

/// Default channel queue depth of a UDP stream.
pub fn default_udp_buffer_size() -> (r: usize)
    ensures
        r == 8,
{
    8
}

} // verus!
