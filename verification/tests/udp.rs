use edge_capture::drivers::udp_capture::{
    align_cmsg_len, find_rx_timestamp_ns, realtime_ns_to_tai_ns, realtime_to_tai_offset_ns,
    rx_timestamp_ns, UdpCaptureConfig, UdpCaptureState,
};
use edge_capture::time::{Clock, ClockSample};

const SOL_SOCKET: i32 = 1;
const SO_TIMESTAMPNS: i32 = 35;

fn cmsg(len: u64, level: i32, kind: i32, payload: &[u8]) -> Vec<u8> {
    let mut v = Vec::new();
    v.extend_from_slice(&len.to_le_bytes());
    v.extend_from_slice(&level.to_le_bytes());
    v.extend_from_slice(&kind.to_le_bytes());
    v.extend_from_slice(payload);
    v
}

fn timespec(sec: i64, nsec: i64) -> Vec<u8> {
    let mut v = sec.to_le_bytes().to_vec();
    v.extend_from_slice(&nsec.to_le_bytes());
    v
}

#[test]
fn realtime_to_tai_shifts_and_clamps() {
    assert_eq!(realtime_ns_to_tai_ns(1_000, 37), 1_037);
    assert_eq!(realtime_ns_to_tai_ns(1_000, -1_000), 0);
    assert_eq!(realtime_ns_to_tai_ns(1_000, -2_000), 0);
    assert_eq!(realtime_ns_to_tai_ns(0, 0), 0);
    assert_eq!(realtime_ns_to_tai_ns(u64::MAX, 1), 0);
    assert_eq!(realtime_ns_to_tai_ns(u64::MAX, 2), 1);
    assert_eq!(realtime_ns_to_tai_ns(5, i64::MIN), 0);
}

#[test]
fn realtime_to_tai_keeps_order() {
    let off = 37_000_000_000;
    let a = realtime_ns_to_tai_ns(1_700_000_000_000_000_000, off);
    let b = realtime_ns_to_tai_ns(1_700_000_000_000_000_123, off);
    assert_eq!(b - a, 123);
}

#[test]
fn realtime_offset_from_samples() {
    let rt = ClockSample { clock: Clock::Realtime, sec: 100, nsec: 0 };
    let tai = ClockSample { clock: Clock::Tai, sec: 137, nsec: 5 };
    assert_eq!(realtime_to_tai_offset_ns(Some(rt), Some(tai)), Some(37_000_000_005));
    assert_eq!(realtime_to_tai_offset_ns(Some(rt), None), Some(37_000_000_000));
    assert_eq!(realtime_to_tai_offset_ns(None, Some(tai)), Some(37_000_000_000));
    assert_eq!(
        realtime_to_tai_offset_ns(Some(ClockSample { clock: Clock::Realtime, sec: i64::MAX, nsec: 0 }), Some(tai)),
        None
    );
    // Readings swapped: neither is of the clock it stands for.
    assert_eq!(realtime_to_tai_offset_ns(Some(tai), Some(rt)), None);
}

#[test]
fn cmsg_alignment() {
    assert_eq!(align_cmsg_len(0), 0);
    assert_eq!(align_cmsg_len(1), 8);
    assert_eq!(align_cmsg_len(16), 16);
    assert_eq!(align_cmsg_len(17), 24);
    assert_eq!(align_cmsg_len(32), 32);
    // The largest length that still rounds without leaving usize.
    let word = std::mem::size_of::<usize>();
    let top = usize::MAX - (word - 1);
    assert_eq!(align_cmsg_len(top), top);
    assert_eq!(align_cmsg_len(top - 1), top);
}

#[test]
fn finds_timestamp_message() {
    let ctl = cmsg(32, SOL_SOCKET, SO_TIMESTAMPNS, &timespec(1_700_000_000, 42));
    assert_eq!(
        find_rx_timestamp_ns(&ctl, ctl.len(), SOL_SOCKET, SO_TIMESTAMPNS),
        Some(1_700_000_000_000_000_042)
    );
}

#[test]
fn skips_other_messages_with_alignment() {
    // A 20-byte message of another type, padded to 24, then the timestamp.
    let mut ctl = cmsg(20, SOL_SOCKET, 29, &[1, 2, 3, 4]);
    ctl.extend_from_slice(&[0, 0, 0, 0]);
    ctl.extend_from_slice(&cmsg(32, SOL_SOCKET, SO_TIMESTAMPNS, &timespec(7, 8)));
    assert_eq!(find_rx_timestamp_ns(&ctl, ctl.len(), SOL_SOCKET, SO_TIMESTAMPNS), Some(7_000_000_008));
}

#[test]
fn no_usable_timestamp_gives_zero() {
    // Empty control data.
    assert_eq!(find_rx_timestamp_ns(&[0u8; 128], 0, SOL_SOCKET, SO_TIMESTAMPNS), Some(0));
    // Length shorter than a header stops the walk.
    let ctl = cmsg(8, SOL_SOCKET, SO_TIMESTAMPNS, &timespec(1, 1));
    assert_eq!(find_rx_timestamp_ns(&ctl, ctl.len(), SOL_SOCKET, SO_TIMESTAMPNS), Some(0));
    // Length running past the control data stops the walk.
    let ctl = cmsg(64, SOL_SOCKET, SO_TIMESTAMPNS, &timespec(1, 1));
    assert_eq!(find_rx_timestamp_ns(&ctl, ctl.len(), SOL_SOCKET, SO_TIMESTAMPNS), Some(0));
    // Negative fields.
    let ctl = cmsg(32, SOL_SOCKET, SO_TIMESTAMPNS, &timespec(-1, 5));
    assert_eq!(find_rx_timestamp_ns(&ctl, ctl.len(), SOL_SOCKET, SO_TIMESTAMPNS), Some(0));
    // A matching message too short for a timespec is skipped.
    let ctl = cmsg(24, SOL_SOCKET, SO_TIMESTAMPNS, &[9u8; 8]);
    assert_eq!(find_rx_timestamp_ns(&ctl, ctl.len(), SOL_SOCKET, SO_TIMESTAMPNS), Some(0));
}

#[test]
fn overflowing_timestamp_is_reported() {
    let ctl = cmsg(32, SOL_SOCKET, SO_TIMESTAMPNS, &timespec(i64::MAX, 0));
    assert_eq!(find_rx_timestamp_ns(&ctl, ctl.len(), SOL_SOCKET, SO_TIMESTAMPNS), None);
}

#[test]
fn rx_timestamp_falls_back_to_wall_clock() {
    let ctl = cmsg(32, SOL_SOCKET, SO_TIMESTAMPNS, &timespec(3, 4));
    assert_eq!(rx_timestamp_ns(&ctl, ctl.len(), SOL_SOCKET, SO_TIMESTAMPNS, 99), Some(3_000_000_004));
    assert_eq!(rx_timestamp_ns(&ctl, 0, SOL_SOCKET, SO_TIMESTAMPNS, 99), Some(99));
}

#[test]
fn datagrams_become_frames() {
    let mut s = UdpCaptureState::new("lidar".to_string(), 37_000_000_000);
    assert_eq!(s.packet_count(), 0);
    let buf = [1u8, 2, 3, 4, 5];
    assert!(s.on_datagram(&buf, 0, 10).is_none());
    assert_eq!(s.packet_count(), 0);
    let f = s.on_datagram(&buf, 3, 1_000).unwrap();
    assert_eq!(f.stream_name, "lidar");
    assert_eq!(f.timestamp_ns, 37_000_001_000);
    assert_eq!(f.data, vec![1, 2, 3]);
    assert_eq!(s.packet_count(), 1);
    assert_eq!(s.name(), "lidar");
    assert_eq!(s.realtime_to_tai_offset_ns(), 37_000_000_000);
}

#[test]
fn capture_config_record() {
    let c = UdpCaptureConfig {
        name: "gnss".to_string(),
        bind_addr: "0.0.0.0:5000".to_string(),
        multicast_group: Some("239.0.0.1".to_string()),
        interface: None,
    };
    assert_eq!(c.clone().bind_addr, "0.0.0.0:5000");
}
