use edge_capture::drivers::udp_capture::UdpFrame;
use edge_capture::drivers::usb_camera::CameraFrame;
use edge_capture::recorder::mcap_writer::{
    camera_message_payload, message_record, udp_message_payload, McapWriter,
    COMPRESSED_IMAGE_SCHEMA, RAW_UDP_SCHEMA,
};

fn frame(name: &str, ts: u64, data: Vec<u8>) -> CameraFrame {
    CameraFrame {
        camera_name: name.to_string(),
        device_id: 0,
        timestamp_ns: ts,
        frame_index: 0,
        width: 2,
        height: 2,
        encoding: "jpeg",
        data,
    }
}

#[test]
fn camera_registration_is_idempotent() {
    let mut w = McapWriter::new();
    let r = w.register_camera("front", "CLOCK_TAI/PTP").unwrap();
    assert_eq!(r.channel, 0);
    assert_eq!(r.topic, "/camera/front/compressed");
    assert_eq!(r.schema_name, "foxglove.CompressedImage");
    assert_eq!(r.schema_encoding, "jsonschema");
    assert_eq!(r.schema, COMPRESSED_IMAGE_SCHEMA);
    assert_eq!(r.message_encoding, "json");
    assert_eq!(r.metadata_key, "clock_source");
    assert_eq!(r.metadata_value, "CLOCK_TAI/PTP");
    assert!(w.register_camera("front", "other").is_none());
    assert_eq!(w.channel_count(), 1);
}

#[test]
fn udp_registration() {
    let mut w = McapWriter::new();
    let r = w.register_udp_stream("lidar").unwrap();
    assert_eq!(r.topic, "/udp/lidar/raw");
    assert_eq!(r.schema_name, "RawUdpPacket");
    assert_eq!(r.schema, RAW_UDP_SCHEMA);
    assert_eq!(r.metadata_key, "source");
    assert_eq!(r.metadata_value, "udp_capture");
    assert!(w.register_udp_stream("lidar").is_none());
    // A camera of the same name is another channel.
    assert_eq!(w.register_camera("lidar", "x").unwrap().channel, 1);
}

#[test]
fn camera_messages_are_sequenced_per_channel() {
    let mut w = McapWriter::new();
    w.register_camera("a", "CLOCK_TAI/NTP");
    w.register_camera("b", "CLOCK_TAI/NTP");
    let m0 = w.write_frame(&frame("a", 1_500_000_000, vec![1, 2, 3]));
    assert!(m0.registration.is_none());
    let m0 = m0.message;
    let m1 = w.write_frame(&frame("b", 7, vec![4])).message;
    let m2 = w.write_frame(&frame("a", 8, vec![])).message;
    assert_eq!((m0.channel, m0.sequence), (0, 0));
    assert_eq!((m1.channel, m1.sequence), (1, 0));
    assert_eq!((m2.channel, m2.sequence), (0, 1));
    assert_eq!(m0.log_time, 1_500_000_000);
    assert_eq!(m0.publish_time, 1_500_000_000);
    // Bytes count only once the messages are recorded as written.
    assert_eq!(w.total_frame_bytes(), 0);
    w.record_written(&m0);
    w.record_written(&m1);
    w.record_written(&m2);
    assert_eq!(w.total_frame_bytes(), 4);
}

#[test]
fn camera_payload_is_compressed_image_json() {
    let mut w = McapWriter::new();
    let out = w.write_frame(&frame("front", 3_000_000_007, b"foo".to_vec()));
    let reg = out.registration.unwrap();
    assert_eq!(reg.metadata_value, "unknown");
    assert_eq!(reg.topic, "/camera/front/compressed");
    let m = out.message;
    assert_eq!(m.frame_bytes, 3);
    let v: serde_json::Value = serde_json::from_slice(&m.data).unwrap();
    assert_eq!(v["timestamp"]["sec"], 3);
    assert_eq!(v["timestamp"]["nsec"], 7);
    assert_eq!(v["frame_id"], "front");
    assert_eq!(v["data"], "Zm9v");
    assert_eq!(v["format"], "jpeg");
    assert_eq!(
        String::from_utf8(m.data).unwrap(),
        r#"{"data":"Zm9v","format":"jpeg","frame_id":"front","timestamp":{"nsec":7,"sec":3}}"#
    );
}

#[test]
fn udp_payload_is_raw_packet_json() {
    let mut w = McapWriter::new();
    let f = UdpFrame { stream_name: "gnss".to_string(), timestamp_ns: 1_000_000_001, data: vec![0xff] };
    let out = w.write_udp_frame(&f);
    let reg = out.registration.unwrap();
    assert_eq!(reg.topic, "/udp/gnss/raw");
    let m = out.message;
    assert_eq!(m.sequence, 0);
    let v: serde_json::Value = serde_json::from_slice(&m.data).unwrap();
    assert_eq!(v["timestamp"]["sec"], 1);
    assert_eq!(v["timestamp"]["nsec"], 1);
    assert_eq!(v["stream_name"], "gnss");
    assert_eq!(v["data"], "/w==");
    w.record_written(&m);
    let m = w.write_udp_frame(&f).message;
    assert_eq!((m.channel, m.sequence), (0, 1));
    assert_eq!(w.total_frame_bytes(), 1);
    w.record_written(&m);
    assert_eq!(w.total_frame_bytes(), 2);
}

#[test]
fn message_record_fields() {
    let m = message_record(3, 9, 42, vec![1], 5);
    assert_eq!((m.channel, m.sequence, m.log_time, m.publish_time), (3, 9, 42, 42));
    assert_eq!(m.data, vec![1]);
    assert_eq!(m.frame_bytes, 5);
}

#[test]
fn camera_and_udp_channels_of_similar_names_stay_apart() {
    let mut w = McapWriter::new();
    w.register_camera("udp_imu", "CLOCK_TAI/PTP").unwrap();
    let cam = w.write_frame(&frame("udp_imu", 1, vec![1])).message;
    let f = UdpFrame { stream_name: "imu".to_string(), timestamp_ns: 5, data: vec![1] };
    let out = w.write_udp_frame(&f);
    let reg = out.registration.unwrap();
    assert_eq!(reg.channel, 1);
    assert_eq!(reg.topic, "/udp/imu/raw");
    assert_eq!((out.message.channel, out.message.sequence), (1, 0));
    let cam2 = w.write_frame(&frame("udp_imu", 2, vec![1])).message;
    assert_eq!((cam.channel, cam.sequence), (0, 0));
    assert_eq!((cam2.channel, cam2.sequence), (0, 1));
    // A camera and a UDP stream of one name are two channels too.
    let out = w.write_frame(&frame("imu", 3, vec![]));
    assert_eq!(out.registration.unwrap().channel, 2);
    assert_eq!(w.channel_count(), 3);
}

#[test]
fn udp_message_of_documented_shape() {
    let mut w = McapWriter::new();
    let f = UdpFrame { stream_name: "imu".to_string(), timestamp_ns: 1_500_000_000, data: vec![0x4d] };
    let out = w.write_udp_frame(&f);
    assert_eq!(out.registration.unwrap().topic, "/udp/imu/raw");
    let m = out.message;
    assert_eq!((m.channel, m.sequence, m.log_time, m.publish_time), (0, 0, 1_500_000_000, 1_500_000_000));
    assert_eq!(
        String::from_utf8(m.data.clone()).unwrap(),
        r#"{"data":"TQ==","stream_name":"imu","timestamp":{"nsec":500000000,"sec":1}}"#
    );
    w.record_written(&m);
    assert_eq!(w.total_frame_bytes(), 1);
}

#[test]
fn registered_camera_message_of_documented_shape() {
    let mut w = McapWriter::new();
    w.register_camera("front", "CLOCK_TAI/PTP").unwrap();
    let out = w.write_frame(&frame("front", 1_000_000_001, b"Man".to_vec()));
    assert!(out.registration.is_none());
    let m = out.message;
    assert_eq!((m.channel, m.sequence, m.log_time), (0, 0, 1_000_000_001));
    let v: serde_json::Value = serde_json::from_slice(&m.data).unwrap();
    assert_eq!(v["timestamp"]["sec"], 1);
    assert_eq!(v["timestamp"]["nsec"], 1);
    assert_eq!(v["frame_id"], "front");
    assert_eq!(v["data"], "TWFu");
    assert_eq!(v["format"], "jpeg");
    w.record_written(&m);
    assert_eq!(w.total_frame_bytes(), 3);
}

#[test]
fn payload_builders() {
    assert_eq!(
        String::from_utf8(camera_message_payload(2_000_000_003, "cam", "AA==", "yuyv")).unwrap(),
        r#"{"data":"AA==","format":"yuyv","frame_id":"cam","timestamp":{"nsec":3,"sec":2}}"#
    );
    assert_eq!(
        String::from_utf8(udp_message_payload(0, "s", "")).unwrap(),
        r#"{"data":"","stream_name":"s","timestamp":{"nsec":0,"sec":0}}"#
    );
}

#[test]
fn running_total_is_the_sum_of_written_frames() {
    let mut w = McapWriter::new();
    assert_eq!(w.total_frame_bytes(), 0);
    let a = w.write_frame(&frame("a", 1, vec![1, 2, 3])).message;
    let f = UdpFrame { stream_name: "u".to_string(), timestamp_ns: 2, data: vec![9; 10] };
    let b = w.write_udp_frame(&f).message;
    let c = w.write_frame(&frame("a", 3, vec![7; 5])).message;
    // The second message's write failed: it is never counted.
    w.record_written(&a);
    w.record_written(&c);
    assert_eq!(w.total_frame_bytes(), 8);
    w.record_written(&b);
    assert_eq!(w.total_frame_bytes(), 18);
}
