//! UDP packet capture: the decisions of the receive loop, kernel receive
//! timestamps, and their conversion into the CLOCK_TAI domain.
//!
//! Received packets are timestamped and turned into [`UdpFrame`]s that the MCAP
//! writer records alongside camera frames. Kernel receive timestamps arrive as
//! `SO_TIMESTAMPNS` control messages in CLOCK_REALTIME and are shifted into
//! CLOCK_TAI with an offset measured once when the socket is opened.

use crate::time::{
    fits_i64, is_reading_of, lemma_cast_u64_to_i64, pow2_64, read_clock, reading_of, Clock,
    ClockSample,
};
use vstd::prelude::*;

verus! {

broadcast use vstd::layout::layout_of_primitives;

/// Maximum single UDP datagram size.
pub const MAX_UDP_PAYLOAD: usize = 65535;

/// Receive buffer size.
pub const RECV_BUF_SIZE: usize = MAX_UDP_PAYLOAD + 64;

/// Size of a control-message header (`struct cmsghdr`) on 64-bit Linux:
/// an 8-byte `cmsg_len` followed by the 4-byte `cmsg_level` and `cmsg_type`.
pub const CMSG_HEADER_LEN: usize = 16;

/// Size of the `struct timespec` that an `SO_TIMESTAMPNS` message carries on
/// 64-bit Linux: 8-byte `tv_sec` followed by 8-byte `tv_nsec`.
pub const TIMESPEC_LEN: usize = 16;

/// Configuration for UDP capture (built from the YAML stream configuration).
#[derive(Debug, Clone)]
pub struct UdpCaptureConfig {
    /// Name / label for this capture stream.
    pub name: String,
    /// Local bind address (e.g. "0.0.0.0:5000").
    pub bind_addr: String,
    /// Optional multicast group to join.
    pub multicast_group: Option<String>,
    /// Network interface name (for multicast join).
    pub interface: Option<String>,
}

/// A captured UDP frame, written into the MCAP file alongside camera frames.
#[derive(Debug, Clone)]
pub struct UdpFrame {
    pub stream_name: String,
    /// Nanoseconds since the UNIX epoch in the CLOCK_TAI domain.
    pub timestamp_ns: u64,
    /// Raw UDP payload bytes.
    pub data: Vec<u8>,
}

// ── Time-domain conversion ──────────────────────────────────────────────── //

/// The CLOCK_TAI value for a CLOCK_REALTIME value: their sum computed without
/// overflow, zero where it is not positive, and otherwise taken modulo `2^64`
/// (the `as u64` of the sum).
pub open spec fn spec_realtime_ns_to_tai_ns(realtime_ns: u64, offset_ns: i64) -> int {
    let sum = realtime_ns + offset_ns;
    if sum <= 0 {
        0
    } else if sum < pow2_64() {
        sum
    } else {
        sum - pow2_64()
    }
}

/// Converts a kernel CLOCK_REALTIME receive timestamp to CLOCK_TAI, clamping at zero.
pub fn realtime_ns_to_tai_ns(realtime_ns: u64, offset_ns: i64) -> (r: u64)
    ensures
        r == spec_realtime_ns_to_tai_ns(realtime_ns, offset_ns),
{
    let tai: i128 = realtime_ns as i128 + offset_ns as i128;
    if tai <= 0 {
        0
    } else {
        assert((tai as u64) as int == if tai < 0x1_0000_0000_0000_0000 {
            tai as int
        } else {
            tai - 0x1_0000_0000_0000_0000
        }) by (bit_vector)
            requires
                0 < tai < 0x1_8000_0000_0000_0000i128,
        ;
        tai as u64
    }
}

/// Up to the `u64` limit the conversion keeps the order of timestamps and
/// shifts them by exactly the offset wherever the result is positive.
pub proof fn lemma_realtime_to_tai_monotone(a: u64, b: u64, offset_ns: i64)
    requires
        a <= b,
        b + offset_ns < pow2_64(),
    ensures
        spec_realtime_ns_to_tai_ns(a, offset_ns) <= spec_realtime_ns_to_tai_ns(b, offset_ns),
        a + offset_ns > 0 ==> spec_realtime_ns_to_tai_ns(b, offset_ns) - spec_realtime_ns_to_tai_ns(
            a,
            offset_ns,
        ) == b - a,
{
}

/// The CLOCK_TAI - CLOCK_REALTIME offset in nanoseconds given one reading of
/// each clock: `tai - realtime` when both were read, and 37 s when either failed.
/// `None` where a reading is not of the clock it stands for, or a reading or the
/// difference does not fit in `i64`.
pub open spec fn spec_realtime_to_tai_offset(
    realtime: Option<ClockSample>,
    tai: Option<ClockSample>,
) -> Option<int> {
    if !reading_of(realtime, Clock::Realtime) || !reading_of(tai, Clock::Tai) {
        None
    } else {
        match (realtime, tai) {
        (Some(rt), Some(t)) => {
            let d = t.total_ns() - rt.total_ns();
            if fits_i64(rt.total_ns()) && fits_i64(t.total_ns()) && fits_i64(d) {
                Some(d)
            } else {
                None
            }
        },
        _ => Some(37_000_000_000),
        }
    }
}

/// Computes the CLOCK_TAI - CLOCK_REALTIME offset from one reading of each clock
/// (see `spec_realtime_to_tai_offset`).
pub fn realtime_to_tai_offset_ns(realtime: Option<ClockSample>, tai: Option<ClockSample>) -> (r:
    Option<i64>)
    ensures
        match spec_realtime_to_tai_offset(realtime, tai) {
            Some(d) => r == Some(d as i64),
            None => r is None,
        },
        ({
            match (realtime, tai) {
                (Some(rt), Some(t)) => {
                    let rt_ns = rt.sec * 1_000_000_000 + rt.nsec;
                    let t_ns = t.sec * 1_000_000_000 + t.nsec;
                    &&& r matches Some(d) ==> d == t_ns - rt_ns
                    &&& rt.clock == Clock::Realtime && t.clock == Clock::Tai && i64::MIN <= rt_ns
                        <= i64::MAX && i64::MIN <= t_ns <= i64::MAX && i64::MIN <= t_ns - rt_ns
                        <= i64::MAX ==> r == Some((t_ns - rt_ns) as i64)
                },
                _ => true,
            }
        }),
{
    if !is_reading_of(&realtime, Clock::Realtime) || !is_reading_of(&tai, Clock::Tai) {
        return None;
    }
    match (realtime, tai) {
        (Some(rt), Some(t)) => {
            let rt_ns = match rt.to_ns() {
                Some(v) => v,
                None => return None,
            };
            let tai_ns = match t.to_ns() {
                Some(v) => v,
                None => return None,
            };
            tai_ns.checked_sub(rt_ns)
        },
        _ => Some(37_000_000_000),
    }
}

/// The offset is the difference of the two readings in nanoseconds, each counted
/// as `sec * 10^9 + nsec`: in particular, readings with equal nanosecond fields
/// differ by whole seconds.
pub proof fn lemma_realtime_offset_is_difference(rt: ClockSample, t: ClockSample)
    ensures
        spec_realtime_to_tai_offset(Some(rt), Some(t)) matches Some(d) ==> d == (t.sec
            * 1_000_000_000 + t.nsec) - (rt.sec * 1_000_000_000 + rt.nsec),
        rt.nsec == t.nsec ==> (spec_realtime_to_tai_offset(Some(rt), Some(t)) matches Some(d)
            ==> d == (t.sec - rt.sec) * 1_000_000_000),
{
}

/// Measures the CLOCK_TAI - CLOCK_REALTIME offset, reading CLOCK_REALTIME and then
/// CLOCK_TAI; 37 s when either clock cannot be read. `None` where the readings do
/// not fit in signed 64-bit nanoseconds.
pub fn measure_realtime_to_tai_offset_ns() -> (r: Option<i64>)
    ensures
        exists|realtime: Option<ClockSample>, tai: Option<ClockSample>|
            {
                &&& realtime matches Some(s) ==> s.clock == Clock::Realtime
                &&& tai matches Some(t) ==> t.clock == Clock::Tai
                &&& match #[trigger] spec_realtime_to_tai_offset(realtime, tai) {
                    Some(d) => r == Some(d as i64),
                    None => r is None,
                }
            },
{
    let rt = read_clock(Clock::Realtime);
    let tai = read_clock(Clock::Tai);
    let r = realtime_to_tai_offset_ns(rt, tai);
    proof {
        assert(rt matches Some(s) ==> s.clock == Clock::Realtime);
        assert(tai matches Some(t) ==> t.clock == Clock::Tai);
        assert(match spec_realtime_to_tai_offset(rt, tai) {
            Some(d) => r == Some(d as i64),
            None => r is None,
        });
    }
    r
}

// ── Control-message parsing ─────────────────────────────────────────────── //

/// `v` rounded up to a multiple of the machine word (`size_of::<usize>()`).
pub open spec fn align_to_word(v: int) -> int {
    if usize::BITS == 64 {
        ((v + 7) / 8) * 8
    } else {
        ((v + 3) / 4) * 4
    }
}

/// Rounds a control-message length up to the alignment of `usize`.
pub fn align_cmsg_len(value: usize) -> (r: usize)
    requires
        value + usize::BITS / 8 - 1 <= usize::MAX,
    ensures
        r == align_to_word(value as int),
{
    let align = core::mem::size_of::<usize>();
    assert(align == 4 || align == 8);
    let sum: usize = value + (align - 1);
    let mask: usize = !(align - 1);
    let r = sum & mask;
    proof {
        if align == 8 {
            assert(mask == !7usize);
            assert(sum & !7usize == (sum / 8) * 8) by (bit_vector);
        } else {
            assert(mask == !3usize);
            assert(sum & !3usize == (sum / 4) * 4) by (bit_vector);
        }
    }
    r
}

/// The rounded length is the least multiple of the word size that is not below
/// the length.
pub proof fn lemma_align_to_word(v: int)
    requires
        v >= 0,
    ensures
        v <= align_to_word(v) < v + 8,
        usize::BITS == 64 ==> align_to_word(v) % 8 == 0,
        usize::BITS == 32 ==> align_to_word(v) % 4 == 0,
        align_to_word(align_to_word(v)) == align_to_word(v),
{
}

/// The little-endian value of a byte string.
pub open spec fn le_value(s: Seq<u8>) -> nat
    decreases s.len(),
{
    if s.len() == 0 {
        0
    } else {
        s[0] as nat + 256 * le_value(s.skip(1))
    }
}

/// `256^n`.
pub open spec fn pow256(n: nat) -> nat
    decreases n,
{
    if n == 0 {
        1
    } else {
        256 * pow256((n - 1) as nat)
    }
}

/// The unsigned little-endian integer of `n` bytes at `off`.
pub open spec fn le_unsigned_at(s: Seq<u8>, off: int, n: int) -> int {
    le_value(s.subrange(off, off + n)) as int
}

/// The signed (two's complement) little-endian 32-bit integer at `off`.
pub open spec fn le_i32_at(s: Seq<u8>, off: int) -> int {
    let v = le_unsigned_at(s, off, 4);
    if v < 0x8000_0000 {
        v
    } else {
        v - 0x1_0000_0000
    }
}

/// The signed (two's complement) little-endian 64-bit integer at `off`.
pub open spec fn le_i64_at(s: Seq<u8>, off: int) -> int {
    let v = le_unsigned_at(s, off, 8);
    if v < 0x8000_0000_0000_0000 {
        v
    } else {
        v - pow2_64()
    }
}

/// What is left of the control buffer after `offset`, zero once past its end.
pub open spec fn scan_remaining(control_len: int, offset: int) -> int {
    if offset < control_len {
        control_len - offset
    } else {
        0
    }
}

/// The kernel receive timestamp found by walking the control messages of
/// `ctl[..control_len]` from `offset`, in the 64-bit Linux little-endian layout.
///
/// Each message starts with its length (8 bytes), level and type (4 bytes each);
/// its data starts 16 bytes in. The walk stops with `Some(0)` (no timestamp) at
/// the end of the buffer or at a length that is shorter than a header or runs
/// past the buffer. A message of the wanted level and type whose data holds a
/// `timespec` ends the walk: with `Some(sec * 10^9 + nsec)` when both fields are
/// non-negative, `Some(0)` otherwise, and `None` when that sum does not fit in
/// `u64`. Any other message is skipped, its length rounded up to the word size.
pub open spec fn scan_rx_timestamp(
    ctl: Seq<u8>,
    control_len: int,
    offset: int,
    level: i32,
    kind: i32,
) -> Option<u64>
    decreases scan_remaining(control_len, offset),
{
    if offset < 0 || offset + 16 > control_len {
        Some(0)
    } else {
        let len = le_unsigned_at(ctl, offset, 8);
        if len < 16 || offset + len > control_len {
            Some(0)
        } else if le_i32_at(ctl, offset + 8) == level && le_i32_at(ctl, offset + 12) == kind
            && len >= 32 {
            let sec = le_i64_at(ctl, offset + 16);
            let nsec = le_i64_at(ctl, offset + 24);
            if sec >= 0 && nsec >= 0 {
                let t = sec * 1_000_000_000 + nsec;
                if t <= u64::MAX {
                    Some(t as u64)
                } else {
                    None
                }
            } else {
                Some(0)
            }
        } else {
            scan_rx_timestamp(ctl, control_len, offset + align_to_word(len), level, kind)
        }
    }
}

proof fn lemma_le_value_bound(s: Seq<u8>)
    ensures
        le_value(s) < pow256(s.len()),
    decreases s.len(),
{
    if s.len() > 0 {
        lemma_le_value_bound(s.skip(1));
        assert(pow256(s.len()) == 256 * pow256((s.len() - 1) as nat));
    }
}

proof fn lemma_pow256_monotone(a: nat, b: nat)
    requires
        a <= b,
    ensures
        pow256(a) <= pow256(b),
    decreases b,
{
    if a < b {
        lemma_pow256_monotone(a, (b - 1) as nat);
    }
}

/// Reads the unsigned little-endian integer of `n <= 8` bytes at `off`.
fn read_le(bytes: &[u8], off: usize, n: usize) -> (r: u64)
    requires
        n <= 8,
        off + n <= bytes@.len(),
    ensures
        r == le_unsigned_at(bytes@, off as int, n as int),
{
    proof {
        reveal_with_fuel(pow256, 9);
    }
    let total: usize = bytes.len();
    assert(off + n <= total);
    let mut acc: u64 = 0;
    let mut k: usize = n;
    while k > 0
        invariant
            n <= 8,
            off + n <= bytes@.len(),
            off + n <= usize::MAX,
            k <= n,
            acc == le_value(bytes@.subrange(off + k, off + n)),
            acc < pow256((n - k) as nat),
            pow256(8) == 0x1_0000_0000_0000_0000,
        decreases k,
    {
        let ghost prev = bytes@.subrange(off + k, off + n);
        let ghost next = bytes@.subrange(off + k - 1, off + n);
        proof {
            assert(next.skip(1) =~= prev);
            assert(next[0] == bytes@[off + k - 1]);
            assert(le_value(next) == next[0] as nat + 256 * le_value(prev));
            assert(pow256((n - k + 1) as nat) == 256 * pow256((n - k) as nat));
            lemma_pow256_monotone((n - k + 1) as nat, 8);
        }
        acc = acc * 256 + bytes[off + (k - 1)] as u64;
        k = k - 1;
    }
    acc
}

/// Reads the signed little-endian 32-bit integer at `off`.
fn read_i32(bytes: &[u8], off: usize) -> (r: i32)
    requires
        off + 4 <= bytes@.len(),
    ensures
        r == le_i32_at(bytes@, off as int),
{
    let v = read_le(bytes, off, 4);
    proof {
        lemma_le_value_bound(bytes@.subrange(off as int, off + 4));
        reveal_with_fuel(pow256, 5);
    }
    let w = v as u32;
    assert((w as i32) as int == if w < 0x8000_0000 {
        w as int
    } else {
        w - 0x1_0000_0000
    }) by (bit_vector);
    w as i32
}

/// Reads the signed little-endian 64-bit integer at `off`.
fn read_i64(bytes: &[u8], off: usize) -> (r: i64)
    requires
        off + 8 <= bytes@.len(),
    ensures
        r == le_i64_at(bytes@, off as int),
{
    let v = read_le(bytes, off, 8);
    proof {
        lemma_cast_u64_to_i64(v);
    }
    v as i64
}

/// Finds the kernel receive timestamp (nanoseconds) in the control data that
/// `recvmsg` returned: `control[..control_len]` holds the control messages, and
/// `level` and `kind` are the `SOL_SOCKET` and `SO_TIMESTAMPNS` numbers.
///
/// `Some(0)` when no usable timestamp is present; `None` when the timestamp does
/// not fit in `u64` nanoseconds (see `scan_rx_timestamp`).
pub fn find_rx_timestamp_ns(control: &[u8], control_len: usize, level: i32, kind: i32) -> (r:
    Option<u64>)
    requires
        control_len <= control@.len(),
        control_len <= isize::MAX,
    ensures
        r == scan_rx_timestamp(control@, control_len as int, 0, level, kind),
{
    let data_offset = align_cmsg_len(CMSG_HEADER_LEN);
    let mut offset: usize = 0;
    while offset <= control_len && control_len - offset >= CMSG_HEADER_LEN
        invariant
            control_len <= control@.len(),
            control_len <= isize::MAX,
            offset <= control_len + 8,
            data_offset == 16,
            scan_rx_timestamp(control@, control_len as int, 0, level, kind) == scan_rx_timestamp(
                control@,
                control_len as int,
                offset as int,
                level,
                kind,
            ),
        decreases scan_remaining(control_len as int, offset as int),
    {
        let cmsg_len = read_le(control, offset, 8);
        if cmsg_len < CMSG_HEADER_LEN as u64 || cmsg_len > (control_len - offset) as u64 {
            return Some(0);
        }
        let cmsg_len = cmsg_len as usize;
        let cmsg_level = read_i32(control, offset + 8);
        let cmsg_type = read_i32(control, offset + 12);
        if cmsg_level == level && cmsg_type == kind && cmsg_len >= data_offset + TIMESPEC_LEN {
            let sec = read_i64(control, offset + data_offset);
            let nsec = read_i64(control, offset + data_offset + 8);
            if sec >= 0 && nsec >= 0 {
                let s = sec as u64;
                let n = nsec as u64;
                if s > (u64::MAX - n) / 1_000_000_000 {
                    return None;
                }
                return Some(s * 1_000_000_000 + n);
            }
            return Some(0);
        }
        proof {
            lemma_align_to_word(cmsg_len as int);
        }
        offset = offset + align_cmsg_len(cmsg_len);
    }
    Some(0)
}

/// The receive timestamp of a datagram: the kernel timestamp found in its
/// control data, or `wall_clock_ns` (CLOCK_REALTIME read after the receive)
/// where none was found. `None` when the kernel timestamp does not fit in `u64`.
pub fn rx_timestamp_ns(
    control: &[u8],
    control_len: usize,
    level: i32,
    kind: i32,
    wall_clock_ns: u64,
) -> (r: Option<u64>)
    requires
        control_len <= control@.len(),
        control_len <= isize::MAX,
    ensures
        match scan_rx_timestamp(control@, control_len as int, 0, level, kind) {
            Some(t) => r == Some(
                if t == 0 {
                    wall_clock_ns
                } else {
                    t
                },
            ),
            None => r is None,
        },
{
    match find_rx_timestamp_ns(control, control_len, level, kind) {
        Some(0) => Some(wall_clock_ns),
        Some(t) => Some(t),
        None => None,
    }
}

// ── Receive-loop decisions ──────────────────────────────────────────────── //

/// The state of one UDP capture stream's receive loop: its name, the
/// CLOCK_REALTIME → CLOCK_TAI offset measured when its socket was opened, and the
/// number of datagrams it has turned into frames.
pub struct UdpCaptureState {
    name: String,
    realtime_to_tai_offset_ns: i64,
    packet_count: u64,
}

impl UdpCaptureState {
    pub closed spec fn spec_name(&self) -> Seq<char> {
        self.name@
    }

    pub closed spec fn spec_offset(&self) -> i64 {
        self.realtime_to_tai_offset_ns
    }

    pub closed spec fn spec_packet_count(&self) -> u64 {
        self.packet_count
    }

    /// A stream that has captured nothing yet.
    pub fn new(name: String, realtime_to_tai_offset_ns: i64) -> (s: Self)
        ensures
            s.spec_name() == name@,
            s.spec_offset() == realtime_to_tai_offset_ns,
            s.spec_packet_count() == 0,
    {
        UdpCaptureState { name, realtime_to_tai_offset_ns, packet_count: 0 }
    }

    /// The stream's name.
    pub fn name(&self) -> (r: &String)
        ensures
            r@ == self.spec_name(),
    {
        &self.name
    }

    /// The CLOCK_REALTIME → CLOCK_TAI offset of the stream.
    pub fn realtime_to_tai_offset_ns(&self) -> (r: i64)
        ensures
            r == self.spec_offset(),
    {
        self.realtime_to_tai_offset_ns
    }

    /// Number of datagrams turned into frames so far (those dropped on a full
    /// channel included).
    pub fn packet_count(&self) -> (r: u64)
        ensures
            r == self.spec_packet_count(),
    {
        self.packet_count
    }

    /// Handles one received datagram: `payload[..len]` received at kernel
    /// CLOCK_REALTIME `realtime_ns`. An empty datagram is skipped; any other becomes
    /// a frame stamped in CLOCK_TAI and is counted.
    pub fn on_datagram(&mut self, payload: &[u8], len: usize, realtime_ns: u64) -> (r: Option<
        UdpFrame,
    >)
        requires
            len <= payload@.len(),
            len > 0 ==> old(self).spec_packet_count() < u64::MAX,
        ensures
            final(self).spec_name() == old(self).spec_name(),
            final(self).spec_offset() == old(self).spec_offset(),
            len == 0 ==> r is None && final(self).spec_packet_count() == old(
                self,
            ).spec_packet_count(),
            len > 0 ==> final(self).spec_packet_count() == old(self).spec_packet_count() + 1,
            len > 0 ==> (r matches Some(f) && f.stream_name@ == old(self).spec_name()
                && f.timestamp_ns == spec_realtime_ns_to_tai_ns(realtime_ns, old(self).spec_offset())
                && f.data@ == payload@.take(len as int)),
    {
        if len == 0 {
            return None;
        }
        let timestamp_ns = realtime_ns_to_tai_ns(realtime_ns, self.realtime_to_tai_offset_ns);
        let data = vstd::slice::slice_to_vec(vstd::slice::slice_subrange(payload, 0, len));
        let frame = UdpFrame { stream_name: self.name.clone(), timestamp_ns, data };
        self.packet_count = self.packet_count + 1;
        proof {
            assert(payload@.subrange(0, len as int) =~= payload@.take(len as int));
        }
        Some(frame)
    }
}

} // verus!
