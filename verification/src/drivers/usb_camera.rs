//! USB camera capture: the decisions of the V4L2 capture loop.
//!
//! Frames carry the kernel's CLOCK_MONOTONIC buffer timestamp converted to
//! CLOCK_TAI through the shared [`ClockCalibration`], so all cameras share one
//! reference epoch.

use crate::time::{ClockCalibration, fits_u64, u64_of_i64, lemma_cast_i64_to_u64};
use vstd::prelude::*;

verus! {

/// Encoding of every recorded camera frame.
pub const FRAME_ENCODING: &'static str = "jpeg";

/// A captured, JPEG-encoded camera frame.
#[derive(Debug)]
pub struct CameraFrame {
    pub camera_name: String,
    pub device_id: u32,
    /// CLOCK_TAI nanoseconds at the moment the kernel driver captured the frame
    /// (V4L2 buffer timestamp, converted from CLOCK_MONOTONIC).
    pub timestamp_ns: u64,
    pub frame_index: u64,
    pub width: u32,
    pub height: u32,
    /// Always `"jpeg"`.
    pub encoding: &'static str,
    pub data: Vec<u8>,
}

/// Whether a FourCC code is `MJPG`, the format in which the camera delivers JPEG
/// frames itself.
pub open spec fn spec_is_mjpg(fourcc: [u8; 4]) -> bool {
    fourcc@ == seq![77u8, 74u8, 80u8, 71u8]
}

/// Whether the format that the driver granted is `MJPG` (no re-encoding needed);
/// otherwise the camera is switched to YUYV and frames are re-encoded.
pub fn is_mjpg(fourcc: [u8; 4]) -> (r: bool)
    ensures
        r == spec_is_mjpg(fourcc),
{
    let r = fourcc[0] == 77 && fourcc[1] == 74 && fourcc[2] == 80 && fourcc[3] == 71;
    proof {
        if r {
            assert(fourcc@ =~= seq![77u8, 74u8, 80u8, 71u8]);
        } else {
            if fourcc@ == seq![77u8, 74u8, 80u8, 71u8] {
                assert(fourcc@[0] == 77u8);
                assert(fourcc@[1] == 74u8);
                assert(fourcc@[2] == 80u8);
                assert(fourcc@[3] == 71u8);
            }
        }
    }
    r
}

/// The CLOCK_MONOTONIC nanoseconds of a V4L2 buffer timestamp given as seconds
/// and microseconds, each taken `as u64`.
pub open spec fn spec_hw_mono_ns(sec: i64, usec: i64) -> int {
    u64_of_i64(sec as int) * 1_000_000_000 + u64_of_i64(usec as int) * 1_000
}

/// The CLOCK_TAI timestamp of a V4L2 buffer timestamp `sec`.`usec`, or `None`
/// where the monotonic nanoseconds do not fit in `u64` or the conversion leaves
/// `i64`.
pub fn hw_timestamp_to_tai_ns(calibration: &ClockCalibration, sec: i64, usec: i64) -> (r: Option<
    u64,
>)
    ensures
        match r {
            Some(t) => fits_u64(spec_hw_mono_ns(sec, usec)) && calibration.mono_to_tai_fits(
                spec_hw_mono_ns(sec, usec) as u64,
            ) && t == calibration.spec_mono_to_tai(spec_hw_mono_ns(sec, usec) as u64),
            None => !fits_u64(spec_hw_mono_ns(sec, usec)) || !calibration.mono_to_tai_fits(
                spec_hw_mono_ns(sec, usec) as u64,
            ),
        },
{
    proof {
        lemma_cast_i64_to_u64(sec);
        lemma_cast_i64_to_u64(usec);
    }
    let s = sec as u64;
    let us = usec as u64;
    if s > u64::MAX / 1_000_000_000 {
        return None;
    }
    let s_ns = s * 1_000_000_000;
    if us > (u64::MAX - s_ns) / 1_000 {
        return None;
    }
    let mono_ns = s_ns + us * 1_000;
    calibration.checked_mono_to_tai(mono_ns)
}

/// The state of one camera's capture loop: the camera's identity and frame
/// geometry, and the counts of frames captured and dropped so far.
pub struct CameraCaptureState {
    camera_name: String,
    device_id: u32,
    width: u32,
    height: u32,
    frame_index: u64,
    dropped: u64,
}

impl CameraCaptureState {
    pub closed spec fn spec_name(&self) -> Seq<char> {
        self.camera_name@
    }

    pub closed spec fn spec_device_id(&self) -> u32 {
        self.device_id
    }

    pub closed spec fn spec_width(&self) -> u32 {
        self.width
    }

    pub closed spec fn spec_height(&self) -> u32 {
        self.height
    }

    pub closed spec fn spec_frame_index(&self) -> u64 {
        self.frame_index
    }

    pub closed spec fn spec_dropped(&self) -> u64 {
        self.dropped
    }

    /// A camera that has captured nothing yet.
    pub fn new(camera_name: String, device_id: u32, width: u32, height: u32) -> (s: Self)
        ensures
            s.spec_name() == camera_name@,
            s.spec_device_id() == device_id,
            s.spec_width() == width,
            s.spec_height() == height,
            s.spec_frame_index() == 0,
            s.spec_dropped() == 0,
    {
        CameraCaptureState { camera_name, device_id, width, height, frame_index: 0, dropped: 0 }
    }

    /// Number of frames captured so far (the index of the next frame).
    pub fn frame_index(&self) -> (r: u64)
        ensures
            r == self.spec_frame_index(),
    {
        self.frame_index
    }

    /// Number of frames dropped on a full channel so far.
    pub fn dropped(&self) -> (r: u64)
        ensures
            r == self.spec_dropped(),
    {
        self.dropped
    }

    /// Turns one captured buffer (already JPEG) stamped at CLOCK_TAI `timestamp_ns`
    /// into the next frame, and advances the frame index.
    pub fn on_frame(&mut self, timestamp_ns: u64, data: Vec<u8>) -> (f: CameraFrame)
        requires
            old(self).spec_frame_index() < u64::MAX,
        ensures
            f.camera_name@ == old(self).spec_name(),
            f.device_id == old(self).spec_device_id(),
            f.timestamp_ns == timestamp_ns,
            f.frame_index == old(self).spec_frame_index(),
            f.width == old(self).spec_width(),
            f.height == old(self).spec_height(),
            f.encoding == FRAME_ENCODING,
            f.data@ == data@,
            final(self).spec_name() == old(self).spec_name(),
            final(self).spec_device_id() == old(self).spec_device_id(),
            final(self).spec_width() == old(self).spec_width(),
            final(self).spec_height() == old(self).spec_height(),
            final(self).spec_frame_index() == old(self).spec_frame_index() + 1,
            final(self).spec_dropped() == old(self).spec_dropped(),
    {
        let frame = CameraFrame {
            camera_name: self.camera_name.clone(),
            device_id: self.device_id,
            timestamp_ns,
            frame_index: self.frame_index,
            width: self.width,
            height: self.height,
            encoding: FRAME_ENCODING,
            data,
        };
        self.frame_index = self.frame_index + 1;
        frame
    }

    /// Records that the last frame could not be queued because the channel was full.
    pub fn on_dropped(&mut self)
        requires
            old(self).spec_dropped() < u64::MAX,
        ensures
            final(self).spec_dropped() == old(self).spec_dropped() + 1,
            final(self).spec_frame_index() == old(self).spec_frame_index(),
            final(self).spec_name() == old(self).spec_name(),
            final(self).spec_device_id() == old(self).spec_device_id(),
            final(self).spec_width() == old(self).spec_width(),
            final(self).spec_height() == old(self).spec_height(),
    {
        self.dropped = self.dropped + 1;
    }
}

} // verus!
