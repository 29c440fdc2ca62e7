//! Sensor drivers: the decisions of the USB camera and UDP capture loops.

pub mod udp_capture;
pub mod usb_camera;
