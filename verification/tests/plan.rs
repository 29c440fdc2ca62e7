use edge_capture::plan::{
    capture_channel_capacity, first_recording_file_name, parse_tag, segment_file_name,
    udp_bind_addr, TagSet,
};
use std::collections::HashMap;

#[test]
fn tags_split_at_first_equals() {
    assert_eq!(parse_tag("location=parking_lot"), ("location".to_string(), "parking_lot".to_string()));
    assert_eq!(parse_tag("a=b=c"), ("a".to_string(), "b=c".to_string()));
    assert_eq!(parse_tag("flag"), ("flag".to_string(), String::new()));
    assert_eq!(parse_tag("=v"), (String::new(), "v".to_string()));
}

#[test]
fn cli_tags_win_on_collision() {
    let mut t = TagSet::new();
    t.insert("weather".to_string(), "rain".to_string());
    t.insert("site".to_string(), "lab".to_string());
    t.merge_cli_tags(&vec!["weather=sunny".to_string(), "run=3".to_string(), "run=4".to_string()]);
    let m: HashMap<String, String> = t.entries().into_iter().collect();
    assert_eq!(m.len(), 3);
    assert_eq!(m["weather"], "sunny");
    assert_eq!(m["site"], "lab");
    assert_eq!(m["run"], "4");
}

#[test]
fn channel_capacity() {
    assert_eq!(capture_channel_capacity(0, 0), 8);
    assert_eq!(capture_channel_capacity(1, 0), 8);
    assert_eq!(capture_channel_capacity(3, 2), 40);
    assert_eq!(capture_channel_capacity(0, 2), 24);
}

#[test]
fn recording_file_names() {
    assert_eq!(first_recording_file_name(false), "recording.mcap");
    assert_eq!(first_recording_file_name(true), "recording_0000.mcap");
    assert_eq!(segment_file_name(7), "recording_0007.mcap");
    assert_eq!(segment_file_name(42), "recording_0042.mcap");
    assert_eq!(segment_file_name(999), "recording_0999.mcap");
    assert_eq!(segment_file_name(1234), "recording_1234.mcap");
    assert_eq!(segment_file_name(12345), "recording_12345.mcap");
    assert_eq!(segment_file_name(u32::MAX), format!("recording_{:04}.mcap", u32::MAX));
}

#[test]
fn bind_addresses() {
    assert_eq!(udp_bind_addr("0.0.0.0", 5000), "0.0.0.0:5000");
    assert_eq!(udp_bind_addr("10.0.0.2", 0), "10.0.0.2:0");
    assert_eq!(udp_bind_addr("::", 65535), ":::65535");
}
