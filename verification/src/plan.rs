//! Decisions of the capture program that do not touch a device or a file: the
//! session tags, the capacity of the capture channel, the recording file names
//! and the bind address of UDP streams.

use crate::recorder::base64::push_char;
use vstd::prelude::*;

verus! {

// ── Session tags ──────────────────────────────────────────────────────────── //

/// Splits `s` at the first `=`, through `str::split_once`: `Some((before, after))`
/// with `before` free of `=`, or `None` when `s` holds no `=`.
#[verifier::external_body]
fn split_once_eq(s: &str) -> (r: Option<(&str, &str)>)
    ensures
        match r {
            Some((a, b)) => s@ == a@ + seq!['='] + b@ && !a@.contains('='),
            None => !s@.contains('='),
        },
{
    s.split_once('=')
}

/// The key and value of a `key=value` tag: split at the first `=`; a tag without
/// `=` is a key with an empty value.
pub open spec fn spec_parse_tag(kv: Seq<char>) -> (Seq<char>, Seq<char>) {
    if kv.contains('=') {
        let i = choose|i: int| 0 <= i < kv.len() && kv[i] == '=' && !kv.take(i).contains('=');
        (kv.take(i), kv.skip(i + 1))
    } else {
        (kv, Seq::empty())
    }
}

proof fn lemma_first_eq_unique(s: Seq<char>, a: Seq<char>, b: Seq<char>)
    requires
        s == a + seq!['='] + b,
        !a.contains('='),
    ensures
        spec_parse_tag(s) == (a, b),
{
    let n = a.len() as int;
    assert(s[n] == '=');
    assert(s.take(n) =~= a);
    assert(s.contains('='));
    let i = choose|i: int| 0 <= i < s.len() && s[i] == '=' && !s.take(i).contains('=');
    if i < n {
        assert(a[i] == '=');
        assert(a.contains('='));
    } else if i > n {
        assert(s.take(i)[n] == '=');
        assert(s.take(i).contains('='));
    }
    assert(s.skip(n + 1) =~= b);
}

/// Parses a `key=value` tag given on the command line.
pub fn parse_tag(kv: &str) -> (r: (String, String))
    ensures
        (r.0@, r.1@) == spec_parse_tag(kv@),
{
    match split_once_eq(kv) {
        Some((k, v)) => {
            proof {
                lemma_first_eq_unique(kv@, k@, v@);
            }
            (String::from_str(k), String::from_str(v))
        },
        None => (String::from_str(kv), String::new()),
    }
}

/// A set of session tags: string keys, each with one string value.
pub struct TagSet {
    entries: Vec<(String, String)>,
    model: Ghost<Map<Seq<char>, Seq<char>>>,
}

impl View for TagSet {
    type V = Map<Seq<char>, Seq<char>>;

    closed spec fn view(&self) -> Map<Seq<char>, Seq<char>> {
        self.model@
    }
}

/// Whether the entries hold no key twice.
pub open spec fn distinct_entry_keys(e: Seq<(String, String)>) -> bool {
    forall|i: int, j: int| 0 <= i < e.len() && 0 <= j < e.len() && i != j ==> e[i].0@ != e[j].0@
}

/// Whether the entries are exactly the key/value pairs of `m`, each key once.
pub open spec fn entries_match(e: Seq<(String, String)>, m: Map<Seq<char>, Seq<char>>) -> bool {
    &&& distinct_entry_keys(e)
    &&& forall|i: int| 0 <= i < e.len() ==> #[trigger] m.contains_key(e[i].0@) && m[e[i].0@] == e[i].1@
    &&& forall|k: Seq<char>| m.contains_key(k) ==> exists|i: int| 0 <= i < e.len() && #[trigger] e[i].0@ == k
}

impl TagSet {
    /// The entries hold exactly the pairs of the model, each key once.
    pub closed spec fn wf(&self) -> bool {
        entries_match(self.entries@, self.model@)
    }

    /// An empty set of tags.
    pub fn new() -> (t: Self)
        ensures
            t.wf(),
            t@ == Map::<Seq<char>, Seq<char>>::empty(),
    {
        TagSet { entries: Vec::new(), model: Ghost(Map::empty()) }
    }

    /// Sets tag `key` to `value`, replacing the value it had.
    pub fn insert(&mut self, key: String, value: String)
        requires
            old(self).wf(),
        ensures
            final(self).wf(),
            final(self)@ == old(self)@.insert(key@, value@),
    {
        let ghost m0 = self.model@;
        let ghost e0 = self.entries@;
        let n = self.entries.len();
        let mut i: usize = 0;
        while i < n
            invariant
                n == self.entries@.len(),
                i <= n,
                self.entries@ == e0,
                self.model@ == m0,
                m0 == old(self)@,
                entries_match(e0, m0),
                forall|j: int| 0 <= j < i ==> e0[j].0@ != key@,
            decreases n - i,
        {
            if self.entries[i].0 == key {
                let ghost m1 = m0.insert(key@, value@);
                self.entries.set(i, (key, value));
                proof {
                    let e1 = self.entries@;
                    assert forall|j: int| 0 <= j < e1.len() implies #[trigger] m1.contains_key(
                        e1[j].0@,
                    ) && m1[e1[j].0@] == e1[j].1@ by {
                        if j != i {
                            assert(e1[j] == e0[j]);
                            assert(e0[j].0@ != key@);
                        }
                    }
                    assert forall|k: Seq<char>| m1.contains_key(k) implies exists|j: int|
                        0 <= j < e1.len() && #[trigger] e1[j].0@ == k by {
                        if k == key@ {
                            assert(e1[i as int].0@ == k);
                        } else {
                            let j = choose|j: int| 0 <= j < e0.len() && #[trigger] e0[j].0@ == k;
                            assert(e1[j].0@ == k);
                        }
                    }
                    assert(distinct_entry_keys(e1)) by {
                        assert forall|a: int, b: int|
                            0 <= a < e1.len() && 0 <= b < e1.len() && a != b implies e1[a].0@
                            != e1[b].0@ by {
                            assert(e0[a].0@ != e0[b].0@);
                        }
                    }
                }
                self.model = Ghost(m1);
                return;
            }
            i = i + 1;
        }
        let ghost m1 = m0.insert(key@, value@);
        let ghost k = key@;
        self.entries.push((key, value));
        proof {
            let e1 = self.entries@;
            assert(!m0.contains_key(k)) by {
                if m0.contains_key(k) {
                    let j = choose|j: int| 0 <= j < e0.len() && #[trigger] e0[j].0@ == k;
                    assert(e0[j].0@ != k);
                }
            }
            assert forall|j: int| 0 <= j < e1.len() implies #[trigger] m1.contains_key(e1[j].0@)
                && m1[e1[j].0@] == e1[j].1@ by {
                if j < n {
                    assert(e1[j] == e0[j]);
                }
            }
            assert forall|kk: Seq<char>| m1.contains_key(kk) implies exists|j: int|
                0 <= j < e1.len() && #[trigger] e1[j].0@ == kk by {
                if kk == k {
                    assert(e1[n as int].0@ == kk);
                } else {
                    let j = choose|j: int| 0 <= j < e0.len() && #[trigger] e0[j].0@ == kk;
                    assert(e1[j].0@ == kk);
                }
            }
            assert(distinct_entry_keys(e1)) by {
                assert forall|a: int, b: int|
                    0 <= a < e1.len() && 0 <= b < e1.len() && a != b implies e1[a].0@ != e1[b].0@ by {
                    if a < n && b < n {
                        assert(e0[a].0@ != e0[b].0@);
                    }
                }
            }
        }
        self.model = Ghost(m1);
    }

    /// Sets each `key=value` tag of `args` in order, so that a later tag replaces
    /// an earlier one or one already present (command-line tags win).
    pub fn merge_cli_tags(&mut self, args: &Vec<String>)
        requires
            old(self).wf(),
        ensures
            final(self).wf(),
            final(self)@ == cli_tags_applied(old(self)@, args@.map_values(|s: String| s@)),
    {
        let ghost args_v = args@.map_values(|s: String| s@);
        let mut i: usize = 0;
        while i < args.len()
            invariant
                i <= args@.len(),
                self.wf(),
                args_v == args@.map_values(|s: String| s@),
                self@ == cli_tags_applied(old(self)@, args_v.take(i as int)),
            decreases args.len() - i,
        {
            let (k, v) = parse_tag(args[i].as_str());
            proof {
                assert(args_v.take(i + 1).drop_last() =~= args_v.take(i as int));
                assert(args_v.take(i + 1).last() == args@[i as int]@);
            }
            self.insert(k, v);
            i = i + 1;
        }
        proof {
            assert(args_v.take(args@.len() as int) =~= args_v);
        }
    }

    /// The tags as key/value pairs, each key once.
    pub fn entries(&self) -> (r: Vec<(String, String)>)
        requires
            self.wf(),
        ensures
            entries_match(r@, self@),
    {
        let mut r: Vec<(String, String)> = Vec::new();
        let n = self.entries.len();
        let mut i: usize = 0;
        while i < n
            invariant
                n == self.entries@.len(),
                i <= n,
                entries_match(self.entries@, self.model@),
                r@.len() == i,
                forall|j: int| 0 <= j < i ==> r@[j].0@ == self.entries@[j].0@ && r@[j].1@
                    == self.entries@[j].1@,
            decreases n - i,
        {
            let k = self.entries[i].0.clone();
            let v = self.entries[i].1.clone();
            r.push((k, v));
            i = i + 1;
        }
        proof {
            let e = self.entries@;
            let m = self.model@;
            assert forall|j: int| 0 <= j < r@.len() implies #[trigger] m.contains_key(r@[j].0@)
                && m[r@[j].0@] == r@[j].1@ by {
                assert(m.contains_key(e[j].0@));
            }
            assert forall|k: Seq<char>| m.contains_key(k) implies exists|j: int|
                0 <= j < r@.len() && #[trigger] r@[j].0@ == k by {
                let j = choose|j: int| 0 <= j < e.len() && #[trigger] e[j].0@ == k;
                assert(r@[j].0@ == k);
            }
            assert forall|a: int, b: int|
                0 <= a < r@.len() && 0 <= b < r@.len() && a != b implies r@[a].0@ != r@[b].0@ by {
                assert(e[a].0@ != e[b].0@);
            }
        }
        r
    }
}

/// The tags `base` after the command-line tags `args` are set in order.
pub open spec fn cli_tags_applied(base: Map<Seq<char>, Seq<char>>, args: Seq<Seq<char>>) -> Map<
    Seq<char>,
    Seq<char>,
>
    decreases args.len(),
{
    if args.len() == 0 {
        base
    } else {
        let (k, v) = spec_parse_tag(args.last());
        cli_tags_applied(base, args.drop_last()).insert(k, v)
    }
}

/// A key that no command-line tag names keeps what the configuration gave it:
/// present exactly when it was, with the same value.
pub proof fn lemma_cli_tags_keep_other_keys(
    base: Map<Seq<char>, Seq<char>>,
    args: Seq<Seq<char>>,
    k: Seq<char>,
)
    requires
        forall|i: int| 0 <= i < args.len() ==> (#[trigger] spec_parse_tag(args[i])).0 != k,
    ensures
        cli_tags_applied(base, args).contains_key(k) == base.contains_key(k),
        base.contains_key(k) ==> cli_tags_applied(base, args)[k] == base[k],
    decreases args.len(),
{
    if args.len() > 0 {
        let rest = args.drop_last();
        assert forall|i: int| 0 <= i < rest.len() implies (#[trigger] spec_parse_tag(rest[i])).0
            != k by {
            assert(rest[i] == args[i]);
        }
        lemma_cli_tags_keep_other_keys(base, rest, k);
        assert(spec_parse_tag(args[args.len() - 1]).0 != k);
    }
}

/// The last command-line tag that names a key decides its value, whatever the
/// configuration or earlier tags said.
pub proof fn lemma_cli_tag_wins(
    base: Map<Seq<char>, Seq<char>>,
    args: Seq<Seq<char>>,
    i: int,
)
    requires
        0 <= i < args.len(),
        forall|j: int|
            i < j < args.len() ==> (#[trigger] spec_parse_tag(args[j])).0 != spec_parse_tag(
                args[i],
            ).0,
    ensures
        cli_tags_applied(base, args).contains_key(spec_parse_tag(args[i]).0),
        cli_tags_applied(base, args)[spec_parse_tag(args[i]).0] == spec_parse_tag(args[i]).1,
    decreases args.len(),
{
    if i < args.len() - 1 {
        let rest = args.drop_last();
        assert forall|j: int| i < j < rest.len() implies (#[trigger] spec_parse_tag(rest[j])).0
            != spec_parse_tag(rest[i]).0 by {
            assert(rest[j] == args[j]);
        }
        assert(rest[i] == args[i]);
        lemma_cli_tag_wins(base, rest, i);
        assert(spec_parse_tag(args[args.len() - 1]).0 != spec_parse_tag(args[i]).0);
    }
}

// ── Capture channel ───────────────────────────────────────────────────────── //

/// Messages that each source (camera or UDP stream) may have queued.
pub const MESSAGES_PER_SOURCE: usize = 8;

/// Capacity of the channel between the capture threads and the writer: eight
/// messages per camera and per UDP stream, counting at least one camera.
pub open spec fn spec_channel_capacity(cameras: int, udp_streams: int) -> int {
    (if cameras > 1 {
        cameras
    } else {
        1
    } + udp_streams) * 8
}

/// Capacity of the bounded channel that feeds the writer.
pub fn capture_channel_capacity(cameras: usize, udp_streams: usize) -> (r: usize)
    requires
        spec_channel_capacity(cameras as int, udp_streams as int) <= usize::MAX,
    ensures
        r == spec_channel_capacity(cameras as int, udp_streams as int),
        cameras >= 1 ==> r == 8 * cameras + 8 * udp_streams,
        cameras == 0 ==> r == 8 + 8 * udp_streams,
{
    let sources = if cameras > 1 {
        cameras
    } else {
        1
    };
    (sources + udp_streams) * MESSAGES_PER_SOURCE
}

/// Every camera and every UDP stream adds eight messages of capacity, and a
/// configuration without cameras is sized as one with a single camera: the
/// capacity is `8 * (max(cameras, 1) + udp_streams)`.
pub proof fn lemma_channel_capacity_per_source(cameras: nat, udp_streams: nat)
    ensures
        cameras >= 1 ==> spec_channel_capacity(cameras as int, udp_streams as int) == 8 * cameras
            + 8 * udp_streams,
        cameras >= 1 ==> spec_channel_capacity(cameras + 1int, udp_streams as int)
            == spec_channel_capacity(cameras as int, udp_streams as int) + 8,
        spec_channel_capacity(cameras as int, udp_streams + 1int) == spec_channel_capacity(
            cameras as int,
            udp_streams as int,
        ) + 8,
        spec_channel_capacity(0, udp_streams as int) == 8 + 8 * udp_streams,
{
}

// ── Decimal text ──────────────────────────────────────────────────────────── //

/// The decimal digit character for `d < 10`.
pub open spec fn digit_char(d: int) -> char {
    (48 + d) as char
}

/// The decimal representation of `n`, without leading zeros.
pub open spec fn decimal(n: nat) -> Seq<char>
    decreases n,
{
    if n < 10 {
        seq![digit_char(n as int)]
    } else {
        decimal(n / 10).push(digit_char((n % 10) as int))
    }
}

/// `s` padded on the left with `0` to at least `width` characters.
pub open spec fn zero_padded(s: Seq<char>, width: nat) -> Seq<char> {
    if s.len() >= width {
        s
    } else {
        Seq::new((width - s.len()) as nat, |i: int| '0') + s
    }
}

fn push_decimal(out: &mut String, n: u64)
    ensures
        final(out)@ == old(out)@ + decimal(n as nat),
    decreases n,
{
    if n >= 10 {
        push_decimal(out, n / 10);
    }
    push_char(out, (48u8 + (n % 10) as u8) as char);
    proof {
        if n < 10 {
            assert(n % 10 == n);
        }
    }
}

proof fn lemma_decimal_len_small(n: nat)
    ensures
        n < 10 ==> decimal(n).len() == 1,
        10 <= n < 100 ==> decimal(n).len() == 2,
        100 <= n < 1000 ==> decimal(n).len() == 3,
        n >= 1000 ==> decimal(n).len() >= 4,
    decreases n,
{
    if n >= 10 {
        lemma_decimal_len_small(n / 10);
    }
}

/// Appends `n` in decimal, padded on the left with `0` to four digits.
fn push_decimal_04(out: &mut String, n: u64)
    ensures
        final(out)@ == old(out)@ + zero_padded(decimal(n as nat), 4),
{
    proof {
        lemma_decimal_len_small(n as nat);
    }
    let pad: usize = if n < 10 {
        3
    } else if n < 100 {
        2
    } else if n < 1000 {
        1
    } else {
        0
    };
    let ghost start = out@;
    let mut k: usize = 0;
    while k < pad
        invariant
            k <= pad,
            out@ == start + Seq::new(k as nat, |i: int| '0'),
        decreases pad - k,
    {
        push_char(out, '0');
        k = k + 1;
        proof {
            assert(out@ =~= start + Seq::new(k as nat, |i: int| '0'));
        }
    }
    let ghost mid = out@;
    push_decimal(out, n);
    proof {
        if pad == 0 {
            assert(mid =~= start);
        }
        assert(out@ =~= start + zero_padded(decimal(n as nat), 4));
    }
}

// ── Recording files ───────────────────────────────────────────────────────── //

/// Name of segment `index` of a split recording: `recording_<index>.mcap`, the
/// index in decimal padded to four digits.
pub open spec fn spec_segment_file_name(index: u32) -> Seq<char> {
    "recording_"@ + zero_padded(decimal(index as nat), 4) + ".mcap"@
}

/// File name of segment `index` of a recording that is split into segments.
pub fn segment_file_name(index: u32) -> (r: String)
    ensures
        r@ == spec_segment_file_name(index),
{
    let mut s = String::from_str("recording_");
    push_decimal_04(&mut s, index as u64);
    s.append(".mcap");
    s
}

/// File name of the first MCAP file of a session: `recording.mcap`, or the first
/// segment's name when the recording is split into segments.
pub fn first_recording_file_name(segmented: bool) -> (r: String)
    ensures
        segmented ==> r@ == spec_segment_file_name(0),
        !segmented ==> r@ == "recording.mcap"@,
{
    if segmented {
        segment_file_name(0)
    } else {
        String::from_str("recording.mcap")
    }
}

// ── UDP bind address ──────────────────────────────────────────────────────── //

/// The `ip:port` socket address that a UDP stream binds.
pub fn udp_bind_addr(bind_ip: &str, port: u16) -> (r: String)
    ensures
        r@ == bind_ip@ + seq![':'] + decimal(port as nat),
{
    let mut s = String::from_str(bind_ip);
    push_char(&mut s, ':');
    push_decimal(&mut s, port as u64);
    s
}

/// Distinct numbers have distinct decimal representations, so distinct segment
/// indices name distinct files.
pub proof fn lemma_decimal_injective(a: nat, b: nat)
    requires
        decimal(a) == decimal(b),
    ensures
        a == b,
    decreases a,
{
    if a < 10 && b >= 10 {
        lemma_decimal_len_small(b);
        assert(decimal(b).len() >= 2) by {
            lemma_decimal_nonempty(b / 10);
        }
        assert(decimal(a).len() == 1);
    } else if a >= 10 && b < 10 {
        assert(decimal(a).len() >= 2) by {
            lemma_decimal_nonempty(a / 10);
        }
        assert(decimal(b).len() == 1);
    } else if a >= 10 && b >= 10 {
        let da = decimal(a);
        let db = decimal(b);
        assert(da.last() == db.last());
        assert(da.drop_last() =~= decimal(a / 10));
        assert(db.drop_last() =~= decimal(b / 10));
        lemma_decimal_injective(a / 10, b / 10);
        assert((48 + a % 10) as char == (48 + b % 10) as char);
        assert(((48 + a % 10) as char) as int == 48 + a % 10);
        assert(((48 + b % 10) as char) as int == 48 + b % 10);
        assert(a % 10 == b % 10);
        assert(a == 10 * (a / 10) + a % 10);
        assert(b == 10 * (b / 10) + b % 10);
    } else {
        assert(decimal(a) == seq![digit_char(a as int)]);
        assert(decimal(b) == seq![digit_char(b as int)]);
        assert(decimal(a)[0] == digit_char(a as int));
        assert(decimal(b)[0] == digit_char(b as int));
        assert(digit_char(a as int) as int == 48 + a);
        assert(digit_char(b as int) as int == 48 + b);
    }
}

proof fn lemma_decimal_nonempty(n: nat)
    ensures
        decimal(n).len() >= 1,
    decreases n,
{
    if n >= 10 {
        lemma_decimal_nonempty(n / 10);
    }
}

/// Distinct segment indices give distinct file names.
pub proof fn lemma_segment_names_distinct(a: u32, b: u32)
    requires
        a != b,
    ensures
        spec_segment_file_name(a) != spec_segment_file_name(b),
{
    lemma_decimal_len_small(a as nat);
    lemma_decimal_len_small(b as nat);
    if spec_segment_file_name(a) == spec_segment_file_name(b) {
        let pa = zero_padded(decimal(a as nat), 4);
        let pb = zero_padded(decimal(b as nat), 4);
        let pre = "recording_"@;
        let suf = ".mcap"@;
        assert((pre + pa + suf).subrange(pre.len() as int, (pre.len() + pa.len()) as int) =~= pa);
        assert(pa.len() == pb.len()) by {
            assert((pre + pa + suf).len() == (pre + pb + suf).len());
        }
        assert((pre + pb + suf).subrange(pre.len() as int, (pre.len() + pb.len()) as int) =~= pb);
        assert(pa == pb);
        lemma_padded_injective(a as nat, b as nat);
    }
}

proof fn lemma_padded_injective(a: nat, b: nat)
    requires
        zero_padded(decimal(a), 4) == zero_padded(decimal(b), 4),
    ensures
        a == b,
{
    lemma_decimal_len_small(a);
    lemma_decimal_len_small(b);
    let da = decimal(a);
    let db = decimal(b);
    if da.len() == db.len() {
        assert(da =~= zero_padded(da, 4).skip(zero_padded(da, 4).len() - da.len()));
        assert(db =~= zero_padded(db, 4).skip(zero_padded(db, 4).len() - db.len()));
        lemma_decimal_injective(a, b);
    } else {
        // The shorter one is padded with '0' where the longer one has its first digit,
        // which is not '0' for numbers of two or more digits.
        lemma_leading_digit(a);
        lemma_leading_digit(b);
        let pa = zero_padded(da, 4);
        if da.len() < db.len() {
            let k = pa.len() - db.len();
            assert(pa[k] == '0');
            assert(zero_padded(db, 4)[k] == db[0]);
        } else {
            let pb = zero_padded(db, 4);
            let k = pb.len() - da.len();
            assert(pb[k] == '0');
            assert(pa[k] == da[0]);
        }
    }
}

proof fn lemma_leading_digit(n: nat)
    ensures
        n >= 10 ==> decimal(n)[0] != '0',
        decimal(n).len() >= 1,
    decreases n,
{
    if n >= 10 {
        lemma_leading_digit(n / 10);
        assert(decimal(n)[0] == decimal(n / 10)[0]);
        if n / 10 < 10 {
            assert(((48 + n / 10) as char) as int == 48 + n / 10);
        }
    }
}

} // verus!
