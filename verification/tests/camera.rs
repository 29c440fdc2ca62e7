use edge_capture::drivers::usb_camera::{hw_timestamp_to_tai_ns, is_mjpg, CameraCaptureState};
use edge_capture::time::{ClockCalibration, LABEL_TAI_NTP};

#[test]
fn mjpg_detection() {
    assert!(is_mjpg(*b"MJPG"));
    assert!(!is_mjpg(*b"YUYV"));
    assert!(!is_mjpg(*b"mjpg"));
}

#[test]
fn hardware_timestamp_conversion() {
    let c = ClockCalibration { mono_to_tai_offset_ns: 1_000_000_000, ptp_synced: false, clock_label: LABEL_TAI_NTP };
    assert_eq!(hw_timestamp_to_tai_ns(&c, 5, 250), Some(6_000_250_000));
    assert_eq!(hw_timestamp_to_tai_ns(&c, i64::MAX, 0), None);
    let far = ClockCalibration { mono_to_tai_offset_ns: i64::MAX, ptp_synced: false, clock_label: LABEL_TAI_NTP };
    assert_eq!(hw_timestamp_to_tai_ns(&far, 1, 0), None);
}

#[test]
fn frames_are_numbered_in_order() {
    let mut s = CameraCaptureState::new("front".to_string(), 0, 640, 480);
    let f0 = s.on_frame(10, vec![0xff, 0xd8]);
    let f1 = s.on_frame(20, vec![0xff]);
    assert_eq!(f0.frame_index, 0);
    assert_eq!(f1.frame_index, 1);
    assert_eq!(f0.camera_name, "front");
    assert_eq!(f0.width, 640);
    assert_eq!(f0.height, 480);
    assert_eq!(f0.encoding, "jpeg");
    assert_eq!(f0.data, vec![0xff, 0xd8]);
    assert_eq!(f1.timestamp_ns, 20);
    assert_eq!(s.frame_index(), 2);
    s.on_dropped();
    assert_eq!(s.dropped(), 1);
    assert_eq!(s.frame_index(), 2);
}
