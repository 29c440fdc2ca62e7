use edge_capture::config::{
    default_bind_ip, default_buffer_size, default_fps, default_height, default_jpeg_quality,
    default_udp_buffer_size, default_width, CameraConfig, UdpStreamConfig,
};

#[test]
fn camera_defaults() {
    assert_eq!(default_width(), 1280);
    assert_eq!(default_height(), 720);
    assert_eq!(default_fps(), 30);
    assert_eq!(default_jpeg_quality(), 90);
    assert_eq!(default_buffer_size(), 4);
}

#[test]
fn udp_defaults() {
    assert_eq!(default_bind_ip(), "0.0.0.0");
    assert_eq!(default_udp_buffer_size(), 8);
}

#[test]
fn config_records_hold_their_fields() {
    let c = CameraConfig {
        name: "front".to_string(),
        device_id: 2,
        width: default_width(),
        height: default_height(),
        fps: default_fps(),
        jpeg_quality: default_jpeg_quality(),
        buffer_size: default_buffer_size(),
    };
    let c2 = c.clone();
    assert_eq!(c2.name, "front");
    assert_eq!(c2.device_id, 2);
    let u = UdpStreamConfig {
        name: "lidar".to_string(),
        bind_ip: default_bind_ip(),
        port: 2368,
        multicast_group: None,
        buffer_size: default_udp_buffer_size(),
    };
    assert_eq!(u.clone().port, 2368);
}
