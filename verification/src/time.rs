//! Clock calibration between CLOCK_MONOTONIC, CLOCK_REALTIME and CLOCK_TAI.
//!
//! V4L2 buffer timestamps are taken in CLOCK_MONOTONIC; all recorded
//! timestamps are expressed in CLOCK_TAI nanoseconds:
//!
//! ```text
//! tai_ns = hw_mono_ns + mono_to_tai_offset_ns
//! ```
//!
//! The offset is measured once at startup by sampling both clocks back to back.

use nix::time::{clock_gettime, ClockId};
use vstd::prelude::*;

verus! {

/// Number of nanoseconds in one second.
pub const NANOS_PER_SEC: i64 = 1_000_000_000;

/// TAI readings at or below this many seconds predate 2020-01-01 00:00:37 TAI,
/// which means the kernel's TAI offset was never set.
pub const TAI_SANE_AFTER_SEC: i64 = 1_577_836_837;

/// Approximate TAI-UTC offset (37 s since 2017), used when CLOCK_TAI is unavailable.
pub const TAI_MINUS_UTC_NS: i64 = 37_000_000_000;

/// Clock label of a calibration whose CLOCK_TAI is disciplined by `ptp4l`.
pub const LABEL_TAI_PTP: &'static str = "CLOCK_TAI/PTP";

/// Clock label of a calibration whose CLOCK_TAI is disciplined by NTP.
pub const LABEL_TAI_NTP: &'static str = "CLOCK_TAI/NTP";

/// Clock label of a calibration that fell back to CLOCK_REALTIME + 37 s.
pub const LABEL_REALTIME_APPROX: &'static str = "CLOCK_REALTIME+37s/approx";

/// `2^64`, the modulus of `u64` arithmetic.
pub open spec fn pow2_64() -> int {
    0x1_0000_0000_0000_0000
}

/// Whether `x` is a value of `i64`.
pub open spec fn fits_i64(x: int) -> bool {
    i64::MIN <= x <= i64::MAX
}

/// Whether `x` is a value of `u64`.
pub open spec fn fits_u64(x: int) -> bool {
    0 <= x <= u64::MAX
}

/// The value that `x as u64` takes for a value `x` of `i64` (two's complement).
pub open spec fn u64_of_i64(x: int) -> int {
    if x >= 0 {
        x
    } else {
        x + pow2_64()
    }
}

/// The value that `x as i64` takes for a value `x` of `u64` (two's complement).
pub open spec fn i64_of_u64(x: int) -> int {
    if x <= i64::MAX {
        x
    } else {
        x - pow2_64()
    }
}

pub proof fn lemma_cast_i64_to_u64(x: i64)
    ensures
        (x as u64) as int == u64_of_i64(x as int),
{
    if x < 0 {
        assert((x as u64) as int == x + 0x1_0000_0000_0000_0000) by (bit_vector)
            requires
                x < 0,
        ;
    }
}

pub proof fn lemma_cast_u64_to_i64(x: u64)
    ensures
        (x as i64) as int == i64_of_u64(x as int),
{
    if x > 0x7fff_ffff_ffff_ffff {
        assert((x as i64) as int == x - 0x1_0000_0000_0000_0000) by (bit_vector)
            requires
                x > 0x7fff_ffff_ffff_ffff,
        ;
    }
}

/// The system clocks that the agent reads.
#[derive(Debug, Clone, Copy, PartialEq, Eq, Structural)]
pub enum Clock {
    Monotonic,
    Realtime,
    Tai,
}

/// One reading of a system clock: the clock read, and the whole seconds and
/// nanoseconds that `clock_gettime` reported.
#[derive(Debug, Clone, Copy)]
pub struct ClockSample {
    pub clock: Clock,
    pub sec: i64,
    pub nsec: i64,
}

impl ClockSample {
    /// The reading as a signed count of nanoseconds: `sec * 10^9 + nsec`.
    pub open spec fn total_ns(self) -> int {
        self.sec * 1_000_000_000 + self.nsec
    }

    /// The reading as an unsigned count of nanoseconds, each field first taken
    /// `as u64`: `(sec as u64) * 10^9 + (nsec as u64)`.
    pub open spec fn unsigned_total_ns(self) -> int {
        u64_of_i64(self.sec as int) * 1_000_000_000 + u64_of_i64(self.nsec as int)
    }

    /// `sec * 10^9 + nsec`, or `None` where that does not fit in `i64`.
    pub fn to_ns(&self) -> (r: Option<i64>)
        ensures
            match r {
                Some(v) => v == self.total_ns(),
                None => !fits_i64(self.total_ns()),
            },
    {
        let v: i128 = self.sec as i128 * 1_000_000_000 + self.nsec as i128;
        if v < i64::MIN as i128 || v > i64::MAX as i128 {
            None
        } else {
            Some(v as i64)
        }
    }

    /// `(sec as u64) * 10^9 + (nsec as u64)`, or `None` where that does not fit in `u64`.
    pub fn to_unsigned_ns(&self) -> (r: Option<u64>)
        ensures
            match r {
                Some(v) => v == self.unsigned_total_ns(),
                None => !fits_u64(self.unsigned_total_ns()),
            },
    {
        proof {
            lemma_cast_i64_to_u64(self.sec);
            lemma_cast_i64_to_u64(self.nsec);
        }
        let s = self.sec as u64;
        let n = self.nsec as u64;
        if s > (u64::MAX - n) / 1_000_000_000 {
            None
        } else {
            Some(s * 1_000_000_000 + n)
        }
    }
}

/// Whether `reading`, where there is one, is a reading of `clock`.
pub open spec fn reading_of(reading: Option<ClockSample>, clock: Clock) -> bool {
    reading matches Some(s) ==> s.clock == clock
}

/// Whether `reading`, where there is one, is a reading of `clock`.
pub fn is_reading_of(reading: &Option<ClockSample>, clock: Clock) -> (r: bool)
    ensures
        r == reading_of(*reading, clock),
{
    match reading {
        Some(s) => s.clock == clock,
        None => true,
    }
}

/// Reads `clock` through `nix::time::clock_gettime`.
///
/// `Some` carries `clock` and the `tv_sec` and `tv_nsec` fields of the returned
/// `TimeSpec`; `None` stands for the error that `clock_gettime` returned. The
/// reading itself depends on the moment it is taken, so of it only the clock that
/// was read is stated.
#[verifier::external_body]
pub(crate) fn read_clock(clock: Clock) -> (r: Option<ClockSample>)
    ensures
        r matches Some(s) ==> s.clock == clock,
{
    let id = match clock {
        Clock::Monotonic => ClockId::CLOCK_MONOTONIC,
        Clock::Realtime => ClockId::CLOCK_REALTIME,
        Clock::Tai => ClockId::CLOCK_TAI,
    };
    match clock_gettime(id) {
        Ok(t) => Some(ClockSample { clock, sec: t.tv_sec() as i64, nsec: t.tv_nsec() as i64 }),
        Err(_) => None,
    }
}

/// What was found at one path: the path asked about, and whether a file system
/// entry exists there.
#[derive(Debug, Clone, Copy)]
pub struct PathProbe {
    pub path: &'static str,
    pub found: bool,
}

/// Asks whether a file system entry exists at `path`, through
/// `std::path::Path::exists`.
///
/// The probe carries the path that was asked about. Whether an entry exists
/// depends on the file system at the moment of the call, so nothing is stated
/// of `found`.
#[verifier::external_body]
fn path_exists(path: &'static str) -> (r: PathProbe)
    ensures
        r.path@ == path@,
{
    PathProbe { path, found: std::path::Path::new(path).exists() }
}

/// The PID and socket files that `linuxptp` writes by default.
pub const PTP4L_PATHS: [&'static str; 4] = [
    "/var/run/ptp4l.pid",
    "/run/ptp4l.pid",
    "/var/run/ptp4l",
    "/run/ptp4l",
];

/// Whether `ptp4l` counts as running, given for each of `PTP4L_PATHS` whether a
/// file exists there: it does when any of them exists.
pub open spec fn spec_ptp4l_detected(found: [bool; 4]) -> bool {
    found@[0] || found@[1] || found@[2] || found@[3]
}

/// Decides whether `ptp4l` runs from the existence of each of `PTP4L_PATHS`.
pub fn ptp4l_detected(found: [bool; 4]) -> (r: bool)
    ensures
        r == spec_ptp4l_detected(found),
        r <==> exists|i: int| 0 <= i < 4 && #[trigger] found@[i],
{
    found[0] || found[1] || found[2] || found[3]
}

/// `ptp4l` is detected exactly when at least one of its files was found: each
/// file found is enough on its own, and finding more files never undoes a
/// detection.
pub proof fn lemma_ptp4l_detected_by_any(found: [bool; 4], more: [bool; 4])
    requires
        forall|i: int| 0 <= i < 4 && #[trigger] found@[i] ==> more@[i],
    ensures
        forall|i: int| 0 <= i < 4 && #[trigger] found@[i] ==> spec_ptp4l_detected(found),
        spec_ptp4l_detected(found) ==> exists|j: int| 0 <= j < 4 && #[trigger] found@[j],
        spec_ptp4l_detected(found) ==> spec_ptp4l_detected(more),
{
    if spec_ptp4l_detected(found) {
        if found@[0] {
            assert(more@[0]);
        } else if found@[1] {
            assert(more@[1]);
        } else if found@[2] {
            assert(more@[2]);
        } else {
            assert(found@[3]);
            assert(more@[3]);
        }
    }
}

/// Whether `probes` asked about each of `PTP4L_PATHS` in turn and `running` is
/// what their answers give: whether any of the files exists.
pub open spec fn probes_give(probes: Seq<PathProbe>, running: bool) -> bool {
    &&& probes.len() == 4
    &&& forall|i: int| 0 <= i < 4 ==> (#[trigger] probes[i]).path@ == PTP4L_PATHS@[i]@
    &&& running == spec_ptp4l_detected(
        [probes[0].found, probes[1].found, probes[2].found, probes[3].found],
    )
}

/// Whether `ptp4l` appears to be running: one of the PID or socket files that
/// `linuxptp` writes by default exists. Each of `PTP4L_PATHS` is asked in turn.
pub fn ptp4l_running() -> (r: bool)
    ensures
        exists|probes: Seq<PathProbe>| #[trigger] probes_give(probes, r),
{
    let p0 = path_exists(PTP4L_PATHS[0]);
    let p1 = path_exists(PTP4L_PATHS[1]);
    let p2 = path_exists(PTP4L_PATHS[2]);
    let p3 = path_exists(PTP4L_PATHS[3]);
    let found: [bool; 4] = [p0.found, p1.found, p2.found, p3.found];
    let r = ptp4l_detected(found);
    proof {
        let probes = seq![p0, p1, p2, p3];
        assert(found@ =~= seq![p0.found, p1.found, p2.found, p3.found]);
        assert([probes[0].found, probes[1].found, probes[2].found, probes[3].found] == found);
        assert(probes_give(probes, r));
    }
    r
}

/// Offset between CLOCK_MONOTONIC (V4L2 hardware timestamps) and CLOCK_TAI.
///
/// Measured once at startup and immutable afterwards.
#[derive(Debug, Clone, Copy)]
pub struct ClockCalibration {
    /// Add this to a CLOCK_MONOTONIC nanosecond value to get CLOCK_TAI nanoseconds.
    pub mono_to_tai_offset_ns: i64,
    /// `true` if `ptp4l` was detected running on this host.
    pub ptp_synced: bool,
    /// Label of the clock provenance, written to channel metadata and the manifest.
    pub clock_label: &'static str,
}

/// The calibration that one set of clock readings gives, or `None` where the
/// readings cannot give one: a reading is not of the clock it stands for,
/// CLOCK_MONOTONIC, CLOCK_TAI or CLOCK_REALTIME does not fit in signed 64-bit
/// nanoseconds, an offset overflows, or neither CLOCK_TAI nor CLOCK_REALTIME could
/// be read.
///
/// With a CLOCK_TAI reading the offset is `tai - mono`, labelled as PTP-disciplined
/// when `ptp4l` runs and the reading is sane, and as NTP-disciplined otherwise;
/// without one the offset is `(realtime - mono) + 37 s`, labelled as approximate.
/// Either way `ptp_synced` tells whether `ptp4l` was detected.
pub open spec fn calibration_from_samples(
    mono: ClockSample,
    tai: Option<ClockSample>,
    realtime: Option<ClockSample>,
    ptp_running: bool,
) -> Option<ClockCalibration> {
    let mono_ns = mono.total_ns();
    if mono.clock != Clock::Monotonic || !reading_of(tai, Clock::Tai) || !reading_of(
        realtime,
        Clock::Realtime,
    ) {
        None
    } else if !fits_i64(mono_ns) {
        None
    } else {
        match tai {
            Some(t) => {
                let offset = t.total_ns() - mono_ns;
                if !fits_i64(t.total_ns()) || !fits_i64(offset) {
                    None
                } else {
                    let ptp_disciplined = t.sec > TAI_SANE_AFTER_SEC && ptp_running;
                    Some(
                        ClockCalibration {
                            mono_to_tai_offset_ns: offset as i64,
                            ptp_synced: ptp_running,
                            clock_label: if ptp_disciplined {
                                LABEL_TAI_PTP
                            } else {
                                LABEL_TAI_NTP
                            },
                        },
                    )
                }
            },
            None => match realtime {
                Some(rt) => {
                    let diff = rt.total_ns() - mono_ns;
                    let offset = diff + TAI_MINUS_UTC_NS;
                    if !fits_i64(rt.total_ns()) || !fits_i64(diff) || !fits_i64(offset) {
                        None
                    } else {
                        Some(
                            ClockCalibration {
                                mono_to_tai_offset_ns: offset as i64,
                                ptp_synced: ptp_running,
                                clock_label: LABEL_REALTIME_APPROX,
                            },
                        )
                    }
                },
                None => None,
            },
        }
    }
}

impl ClockCalibration {
    /// The label names one of the three clock provenances, and names PTP only
    /// when `ptp4l` was detected.
    pub open spec fn wf(self) -> bool {
        &&& self.clock_label == LABEL_TAI_PTP || self.clock_label == LABEL_TAI_NTP
            || self.clock_label == LABEL_REALTIME_APPROX
        &&& self.clock_label == LABEL_TAI_PTP ==> self.ptp_synced
    }

    /// The CLOCK_TAI value that `mono_to_tai` gives for `mono_ns`:
    /// `((mono_ns as i64) + offset) as u64`.
    pub open spec fn spec_mono_to_tai(self, mono_ns: u64) -> int {
        u64_of_i64(i64_of_u64(mono_ns as int) + self.mono_to_tai_offset_ns)
    }

    /// Whether `mono_to_tai` can add the offset to `mono_ns` without leaving `i64`.
    pub open spec fn mono_to_tai_fits(self, mono_ns: u64) -> bool {
        fits_i64(i64_of_u64(mono_ns as int) + self.mono_to_tai_offset_ns)
    }

    /// Builds the calibration that the given clock readings give (see
    /// `calibration_from_samples`).
    pub fn from_samples(
        mono: ClockSample,
        tai: Option<ClockSample>,
        realtime: Option<ClockSample>,
        ptp_running: bool,
    ) -> (r: Option<ClockCalibration>)
        ensures
            r == calibration_from_samples(mono, tai, realtime, ptp_running),
            r matches Some(c) ==> c.wf(),
            r matches Some(c) ==> c.ptp_synced == ptp_running,
            r matches Some(c) ==> (tai matches Some(t) ==> (mono.sec * 1_000_000_000 + mono.nsec)
                + c.mono_to_tai_offset_ns == t.sec * 1_000_000_000 + t.nsec),
            r matches Some(c) ==> (tai is None ==> (realtime matches Some(rt) && (mono.sec
                * 1_000_000_000 + mono.nsec) + c.mono_to_tai_offset_ns == rt.sec * 1_000_000_000
                + rt.nsec + 37_000_000_000)),
            ({
                let m = mono.sec * 1_000_000_000 + mono.nsec;
                tai matches Some(t) && mono.clock == Clock::Monotonic && t.clock == Clock::Tai
                    && realtime is None && i64::MIN <= m <= i64::MAX && i64::MIN <= t.sec
                    * 1_000_000_000 + t.nsec <= i64::MAX && i64::MIN <= t.sec * 1_000_000_000
                    + t.nsec - m <= i64::MAX ==> r is Some
            }),
    {
        if mono.clock != Clock::Monotonic || !is_reading_of(&tai, Clock::Tai) || !is_reading_of(
            &realtime,
            Clock::Realtime,
        ) {
            return None;
        }
        let mono_ns = match mono.to_ns() {
            Some(v) => v,
            None => return None,
        };
        match tai {
            Some(t) => {
                let tai_ns = match t.to_ns() {
                    Some(v) => v,
                    None => return None,
                };
                let offset = match tai_ns.checked_sub(mono_ns) {
                    Some(v) => v,
                    None => return None,
                };
                let sane = t.sec > TAI_SANE_AFTER_SEC;
                let clock_label = if sane && ptp_running {
                    LABEL_TAI_PTP
                } else {
                    LABEL_TAI_NTP
                };
                Some(
                    ClockCalibration {
                        mono_to_tai_offset_ns: offset,
                        ptp_synced: ptp_running,
                        clock_label,
                    },
                )
            },
            None => {
                let rt = match realtime {
                    Some(rt) => rt,
                    None => return None,
                };
                let rt_ns = match rt.to_ns() {
                    Some(v) => v,
                    None => return None,
                };
                let diff = match rt_ns.checked_sub(mono_ns) {
                    Some(v) => v,
                    None => return None,
                };
                let offset = match diff.checked_add(TAI_MINUS_UTC_NS) {
                    Some(v) => v,
                    None => return None,
                };
                Some(
                    ClockCalibration {
                        mono_to_tai_offset_ns: offset,
                        ptp_synced: ptp_running,
                        clock_label: LABEL_REALTIME_APPROX,
                    },
                )
            },
        }
    }

    /// Samples CLOCK_MONOTONIC and then CLOCK_TAI back to back, computes the
    /// offset, and checks for `ptp4l`; falls back to CLOCK_REALTIME + 37 s when
    /// CLOCK_TAI is unavailable.
    ///
    /// `None` where no calibration can be made from what the clocks returned: see
    /// `calibration_from_samples`, and CLOCK_MONOTONIC itself failing.
    pub fn measure() -> (r: Option<ClockCalibration>)
        ensures
            r matches Some(c) ==> c.wf(),
            r is Some ==> exists|
                mono: ClockSample,
                tai: Option<ClockSample>,
                realtime: Option<ClockSample>,
                ptp_running: bool,
                probes: Seq<PathProbe>,
            |
                #![trigger calibration_from_samples(mono, tai, realtime, ptp_running), probes_give(probes, ptp_running)]
                {
                    &&& mono.clock == Clock::Monotonic
                    &&& reading_of(tai, Clock::Tai)
                    &&& reading_of(realtime, Clock::Realtime)
                    &&& tai is Some ==> realtime is None
                    &&& probes_give(probes, ptp_running)
                    &&& r == calibration_from_samples(mono, tai, realtime, ptp_running)
                },
    {
        let mono = match read_clock(Clock::Monotonic) {
            Some(m) => m,
            None => return None,
        };
        let tai = read_clock(Clock::Tai);
        let realtime = match tai {
            Some(_) => None,
            None => read_clock(Clock::Realtime),
        };
        let ptp_running = ptp4l_running();
        let r = Self::from_samples(mono, tai, realtime, ptp_running);
        proof {
            let probes = choose|p: Seq<PathProbe>| probes_give(p, ptp_running);
            assert(probes_give(probes, ptp_running));
            assert(r == calibration_from_samples(mono, tai, realtime, ptp_running));
        }
        r
    }

    /// Converts a CLOCK_MONOTONIC hardware timestamp (nanoseconds) to CLOCK_TAI
    /// nanoseconds: `((mono_ns as i64) + offset) as u64`.
    pub fn mono_to_tai(&self, mono_ns: u64) -> (r: u64)
        requires
            self.mono_to_tai_fits(mono_ns),
        ensures
            r == self.spec_mono_to_tai(mono_ns),
    {
        proof {
            lemma_cast_u64_to_i64(mono_ns);
        }
        let sum: i64 = mono_ns as i64 + self.mono_to_tai_offset_ns;
        proof {
            lemma_cast_i64_to_u64(sum);
        }
        sum as u64
    }

    /// `mono_to_tai(mono_ns)`, or `None` where the addition leaves `i64`.
    pub fn checked_mono_to_tai(&self, mono_ns: u64) -> (r: Option<u64>)
        ensures
            match r {
                Some(v) => self.mono_to_tai_fits(mono_ns) && v == self.spec_mono_to_tai(mono_ns),
                None => !self.mono_to_tai_fits(mono_ns),
            },
    {
        proof {
            lemma_cast_u64_to_i64(mono_ns);
        }
        let m = mono_ns as i64;
        if self.mono_to_tai_offset_ns >= 0 {
            if m > i64::MAX - self.mono_to_tai_offset_ns {
                return None;
            }
        } else {
            if m < i64::MIN - self.mono_to_tai_offset_ns {
                return None;
            }
        }
        Some(self.mono_to_tai(mono_ns))
    }

    /// The CLOCK_TAI timestamp that the readings give (see `tai_ns_from_readings`).
    pub open spec fn spec_tai_ns_from_readings(
        self,
        tai: Option<ClockSample>,
        mono: Option<ClockSample>,
    ) -> Option<u64> {
        if !reading_of(tai, Clock::Tai) || !reading_of(mono, Clock::Monotonic) {
            None
        } else {
            match tai {
            Some(t) => if fits_u64(t.unsigned_total_ns()) {
                Some(t.unsigned_total_ns() as u64)
            } else {
                None
            },
            None => match mono {
                Some(m) => if fits_u64(m.unsigned_total_ns()) && self.mono_to_tai_fits(
                    m.unsigned_total_ns() as u64,
                ) {
                    Some(self.spec_mono_to_tai(m.unsigned_total_ns() as u64) as u64)
                } else {
                    None
                },
                None => None,
            },
            }
        }
    }

    /// The CLOCK_TAI timestamp in nanoseconds that a CLOCK_TAI reading gives
    /// directly or, without one, that a CLOCK_MONOTONIC reading gives through the
    /// offset. `None` where a reading is not of the clock it stands for, the
    /// seconds do not fit the unsigned nanosecond count, the conversion leaves
    /// `i64`, or there is no reading.
    pub fn tai_ns_from_readings(&self, tai: Option<ClockSample>, mono: Option<ClockSample>) -> (r:
        Option<u64>)
        ensures
            r == self.spec_tai_ns_from_readings(tai, mono),
    {
        if !is_reading_of(&tai, Clock::Tai) || !is_reading_of(&mono, Clock::Monotonic) {
            return None;
        }
        match tai {
            Some(t) => t.to_unsigned_ns(),
            None => match mono {
                Some(m) => match m.to_unsigned_ns() {
                    Some(mono_ns) => {
                        let r = self.checked_mono_to_tai(mono_ns);
                        proof {
                            if r is Some {
                                assert(0 <= self.spec_mono_to_tai(mono_ns) <= u64::MAX);
                            }
                        }
                        r
                    },
                    None => None,
                },
                None => None,
            },
        }
    }

    /// A fresh CLOCK_TAI timestamp in nanoseconds, for events that carry no
    /// hardware timestamp. CLOCK_TAI is read; only when that read fails is
    /// CLOCK_MONOTONIC read and converted with the offset.
    ///
    /// The result is `tai_ns_from_readings` of what the clocks returned; the
    /// readings themselves depend on the moment of the call.
    pub fn now_tai_ns(&self) -> (r: Option<u64>)
        ensures
            exists|tai: Option<ClockSample>, mono: Option<ClockSample>|
                {
                    &&& tai matches Some(t) ==> t.clock == Clock::Tai
                    &&& mono matches Some(m) ==> m.clock == Clock::Monotonic
                    &&& tai is Some ==> mono is None
                    &&& r == #[trigger] self.spec_tai_ns_from_readings(tai, mono)
                },
    {
        let tai = read_clock(Clock::Tai);
        let mono = match tai {
            Some(_) => None,
            None => read_clock(Clock::Monotonic),
        };
        let r = self.tai_ns_from_readings(tai, mono);
        proof {
            assert(tai matches Some(t) ==> t.clock == Clock::Tai);
            assert(mono matches Some(m) ==> m.clock == Clock::Monotonic);
            assert(r == self.spec_tai_ns_from_readings(tai, mono));
        }
        r
    }

}

/// The calibration maps the CLOCK_MONOTONIC reading onto the reading it was
/// taken with: `mono + offset` is the CLOCK_TAI reading, or the CLOCK_REALTIME
/// reading plus 37 s without one, with every reading counted as
/// `sec * 10^9 + nsec` nanoseconds. `ptp_synced` is the `ptp4l` detection.
pub proof fn lemma_calibration_maps_mono_onto_reading(
    mono: ClockSample,
    tai: Option<ClockSample>,
    realtime: Option<ClockSample>,
    ptp_running: bool,
)
    ensures
        calibration_from_samples(mono, tai, realtime, ptp_running) matches Some(c) ==> {
            &&& c.ptp_synced == ptp_running
            &&& tai matches Some(t) ==> (mono.sec * 1_000_000_000 + mono.nsec)
                + c.mono_to_tai_offset_ns == t.sec * 1_000_000_000 + t.nsec
            &&& tai is None ==> (realtime matches Some(rt) && (mono.sec * 1_000_000_000
                + mono.nsec) + c.mono_to_tai_offset_ns == rt.sec * 1_000_000_000 + rt.nsec
                + 37_000_000_000)
        },
{
}

/// Converting two CLOCK_MONOTONIC readings keeps the distance between them: for
/// readings below 2^63 whose converted values are not negative, the converted
/// values differ by exactly as much as the readings.
pub proof fn lemma_mono_to_tai_preserves_intervals(c: ClockCalibration, a: u64, b: u64)
    requires
        a <= i64::MAX,
        b <= i64::MAX,
        0 <= a + c.mono_to_tai_offset_ns <= i64::MAX,
        0 <= b + c.mono_to_tai_offset_ns <= i64::MAX,
    ensures
        c.spec_mono_to_tai(a) - c.spec_mono_to_tai(b) == a - b,
        a <= b ==> c.spec_mono_to_tai(a) <= c.spec_mono_to_tai(b),
{
}

} // verus!
