use edge_capture::time::{
    ptp4l_detected, ClockCalibration, Clock, ClockSample, LABEL_REALTIME_APPROX, LABEL_TAI_NTP,
    LABEL_TAI_PTP, PTP4L_PATHS,
};

fn sample(sec: i64, nsec: i64) -> ClockSample {
    ClockSample { clock: Clock::Monotonic, sec, nsec }
}

fn reading(clock: Clock, sec: i64, nsec: i64) -> ClockSample {
    ClockSample { clock, sec, nsec }
}

fn tai(sec: i64, nsec: i64) -> ClockSample {
    reading(Clock::Tai, sec, nsec)
}

fn realtime(sec: i64, nsec: i64) -> ClockSample {
    reading(Clock::Realtime, sec, nsec)
}

#[test]
fn sample_to_ns() {
    assert_eq!(sample(2, 5).to_ns(), Some(2_000_000_005));
    assert_eq!(sample(-1, 0).to_ns(), Some(-1_000_000_000));
    assert_eq!(sample(i64::MAX, 0).to_ns(), None);
    assert_eq!(sample(2, 5).to_unsigned_ns(), Some(2_000_000_005));
    assert_eq!(sample(-1, 0).to_unsigned_ns(), None);
    assert_eq!(sample(0, -1).to_unsigned_ns(), Some(u64::MAX));
}

#[test]
fn calibration_with_ptp() {
    let mono = sample(100, 0);
    let t = tai(1_700_000_000, 500);
    let c = ClockCalibration::from_samples(mono, Some(t), None, true).unwrap();
    assert_eq!(c.mono_to_tai_offset_ns, 1_700_000_000_000_000_500 - 100_000_000_000);
    assert!(c.ptp_synced);
    assert_eq!(c.clock_label, LABEL_TAI_PTP);
}

#[test]
fn calibration_without_ptp_or_with_insane_tai() {
    let mono = sample(100, 0);
    let c = ClockCalibration::from_samples(mono, Some(tai(1_700_000_000, 0)), None, false).unwrap();
    assert!(!c.ptp_synced);
    assert_eq!(c.clock_label, LABEL_TAI_NTP);
    // A TAI reading before 2020 means the kernel TAI offset was never set: the
    // clock is not labelled as PTP-disciplined, though ptp4l was detected.
    let c = ClockCalibration::from_samples(mono, Some(tai(1_577_836_837, 0)), None, true).unwrap();
    assert!(c.ptp_synced);
    assert_eq!(c.clock_label, LABEL_TAI_NTP);
    assert_eq!(c.mono_to_tai_offset_ns, 1_577_836_837_000_000_000 - 100_000_000_000);
}

#[test]
fn calibration_realtime_fallback() {
    let mono = sample(10, 0);
    let c = ClockCalibration::from_samples(mono, None, Some(realtime(1_000, 0)), true).unwrap();
    assert_eq!(c.mono_to_tai_offset_ns, (1_000 - 10) * 1_000_000_000 + 37_000_000_000);
    assert!(c.ptp_synced);
    assert_eq!(c.clock_label, LABEL_REALTIME_APPROX);
    let c = ClockCalibration::from_samples(mono, None, Some(realtime(1_000, 0)), false).unwrap();
    assert!(!c.ptp_synced);
    assert_eq!(c.clock_label, LABEL_REALTIME_APPROX);
}

#[test]
fn calibration_impossible() {
    assert!(ClockCalibration::from_samples(sample(0, 0), None, None, false).is_none());
    assert!(ClockCalibration::from_samples(sample(i64::MAX, 0), Some(tai(1, 0)), None, false).is_none());
    assert!(ClockCalibration::from_samples(
        sample(-9_000_000_000, 0),
        Some(tai(9_000_000_000, 0)),
        None,
        false
    )
    .is_none());
}

#[test]
fn calibration_refuses_readings_of_the_wrong_clock() {
    let mono = sample(100, 0);
    // A CLOCK_REALTIME reading handed in as the CLOCK_TAI one.
    assert!(ClockCalibration::from_samples(mono, Some(realtime(1_700_000_000, 0)), None, true).is_none());
    assert!(ClockCalibration::from_samples(mono, None, Some(tai(1_000, 0)), false).is_none());
    assert!(ClockCalibration::from_samples(tai(100, 0), Some(tai(1_700_000_000, 0)), None, false).is_none());
    let c = ClockCalibration { mono_to_tai_offset_ns: 0, ptp_synced: false, clock_label: LABEL_TAI_NTP };
    assert_eq!(c.tai_ns_from_readings(Some(sample(5, 0)), None), None);
    assert_eq!(c.tai_ns_from_readings(None, Some(tai(5, 0))), None);
}

#[test]
fn measured_calibration_is_consistent() {
    if let Some(c) = ClockCalibration::measure() {
        if c.clock_label == LABEL_TAI_PTP {
            assert!(c.ptp_synced);
        } else {
            assert!(c.clock_label == LABEL_TAI_NTP || c.clock_label == LABEL_REALTIME_APPROX);
        }
        assert!(c.now_tai_ns().is_some());
    }
}

#[test]
fn mono_to_tai_adds_the_offset() {
    let c = ClockCalibration { mono_to_tai_offset_ns: 1_000, ptp_synced: false, clock_label: LABEL_TAI_NTP };
    assert_eq!(c.mono_to_tai(5), 1_005);
    let back = ClockCalibration { mono_to_tai_offset_ns: -10, ptp_synced: false, clock_label: LABEL_TAI_NTP };
    assert_eq!(back.mono_to_tai(5), (-5i64) as u64);
    assert_eq!(back.mono_to_tai(10), 0);
    // Readings at or above 2^63 are taken as negative i64 first.
    assert_eq!(c.mono_to_tai(u64::MAX), 999);
}

#[test]
fn mono_to_tai_keeps_intervals() {
    let c = ClockCalibration { mono_to_tai_offset_ns: 37_000_000_000, ptp_synced: true, clock_label: LABEL_TAI_PTP };
    let a = c.mono_to_tai(1_000_000);
    let b = c.mono_to_tai(34_000_000);
    assert_eq!(b - a, 33_000_000);
}

#[test]
fn checked_mono_to_tai_reports_overflow() {
    let c = ClockCalibration { mono_to_tai_offset_ns: i64::MAX, ptp_synced: false, clock_label: LABEL_TAI_NTP };
    assert_eq!(c.checked_mono_to_tai(1), None);
    assert_eq!(c.checked_mono_to_tai(0), Some(i64::MAX as u64));
}

#[test]
fn ptp4l_detected_by_any_default_path() {
    assert_eq!(PTP4L_PATHS[0], "/var/run/ptp4l.pid");
    assert_eq!(PTP4L_PATHS[3], "/run/ptp4l");
    assert!(!ptp4l_detected([false, false, false, false]));
    assert!(ptp4l_detected([true, false, false, false]));
    assert!(ptp4l_detected([false, true, false, false]));
    assert!(ptp4l_detected([false, false, true, false]));
    assert!(ptp4l_detected([false, false, false, true]));
}

#[test]
fn tai_timestamp_from_readings() {
    let c = ClockCalibration { mono_to_tai_offset_ns: 37_000_000_000, ptp_synced: false, clock_label: LABEL_TAI_NTP };
    let tai = reading(Clock::Tai, 1_700_000_000, 5);
    let mono = reading(Clock::Monotonic, 100, 7);
    // A CLOCK_TAI reading is taken as it is.
    assert_eq!(c.tai_ns_from_readings(Some(tai), None), Some(1_700_000_000_000_000_005));
    assert_eq!(c.tai_ns_from_readings(Some(tai), Some(mono)), Some(1_700_000_000_000_000_005));
    // Without one, CLOCK_MONOTONIC is shifted by the offset.
    assert_eq!(c.tai_ns_from_readings(None, Some(mono)), Some(137_000_000_007));
    assert_eq!(c.tai_ns_from_readings(None, None), None);
    assert_eq!(c.tai_ns_from_readings(Some(reading(Clock::Tai, -1, 0)), None), None);
    let far = ClockCalibration { mono_to_tai_offset_ns: i64::MAX, ptp_synced: false, clock_label: LABEL_TAI_NTP };
    assert_eq!(far.tai_ns_from_readings(None, Some(mono)), None);
}

#[test]
fn now_tai_ns_reads_a_clock() {
    let c = ClockCalibration { mono_to_tai_offset_ns: 0, ptp_synced: false, clock_label: LABEL_TAI_NTP };
    assert!(c.now_tai_ns().is_some());
}
