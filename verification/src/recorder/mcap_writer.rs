//! MCAP channel registry: one channel per camera and per UDP stream, per-channel
//! message sequence numbers, and the JSON payload of every message.
//!
//! Camera frames use the `foxglove.CompressedImage` schema (JSON encoding),
//! which Foxglove Studio decodes out of the box; UDP packets use `RawUdpPacket`.
//! The registry decides what the MCAP file receives; the program that owns the
//! file performs the registrations and writes the messages that it hands out.

use crate::drivers::udp_capture::UdpFrame;
use crate::drivers::usb_camera::CameraFrame;
use crate::recorder::base64::{base64, base64_encode};
use crate::recorder::json::{
    json_object_bytes, json_object_bytes_of, json_object_insert, json_object_members,
    json_object_new, JsonItem, JsonObject, JsonValue,
};
use vstd::prelude::*;

verus! {

/// Minimal JSON Schema describing `foxglove.CompressedImage`.
pub const COMPRESSED_IMAGE_SCHEMA: &'static str = "{
  \"$schema\": \"https://json-schema.org/draft/2020-12/schema\",
  \"title\": \"foxglove.CompressedImage\",
  \"type\": \"object\",
  \"properties\": {
    \"timestamp\": {
      \"type\": \"object\",
      \"properties\": {
        \"sec\":  { \"type\": \"integer\" },
        \"nsec\": { \"type\": \"integer\" }
      }
    },
    \"frame_id\": { \"type\": \"string\" },
    \"data\":     { \"type\": \"string\", \"contentEncoding\": \"base64\" },
    \"format\":   { \"type\": \"string\" }
  }
}";

/// JSON Schema for raw UDP packets stored in MCAP.
pub const RAW_UDP_SCHEMA: &'static str = "{
  \"$schema\": \"https://json-schema.org/draft/2020-12/schema\",
  \"title\": \"RawUdpPacket\",
  \"type\": \"object\",
  \"properties\": {
    \"timestamp\": {
      \"type\": \"object\",
      \"properties\": {
        \"sec\":  { \"type\": \"integer\" },
        \"nsec\": { \"type\": \"integer\" }
      }
    },
    \"stream_name\": { \"type\": \"string\" },
    \"data\":        { \"type\": \"string\", \"contentEncoding\": \"base64\" }
  }
}";

pub const CAMERA_SCHEMA_NAME: &'static str = "foxglove.CompressedImage";

pub const UDP_SCHEMA_NAME: &'static str = "RawUdpPacket";

/// Encoding of both schemas.
pub const SCHEMA_ENCODING: &'static str = "jsonschema";

/// Encoding of every message.
pub const MESSAGE_ENCODING: &'static str = "json";

/// Metadata key of camera channels; its value is the clock source.
pub const CAMERA_METADATA_KEY: &'static str = "clock_source";

/// Metadata key of UDP channels.
pub const UDP_METADATA_KEY: &'static str = "source";

/// Metadata value of UDP channels.
pub const UDP_METADATA_VALUE: &'static str = "udp_capture";

/// Clock source recorded for a camera channel that was registered by its first
/// frame rather than ahead of it.
pub const UNKNOWN_CLOCK_SOURCE: &'static str = "unknown";

/// The two kinds of channel: camera frames and UDP packets.
#[derive(Debug, Clone, Copy, PartialEq, Eq, Structural)]
pub enum ChannelKind {
    Camera,
    Udp,
}

/// Registry key of a camera channel: its kind and the camera's name.
pub open spec fn camera_key(name: Seq<char>) -> (ChannelKind, Seq<char>) {
    (ChannelKind::Camera, name)
}

/// Registry key of a UDP channel: its kind and the stream's name.
pub open spec fn udp_key(name: Seq<char>) -> (ChannelKind, Seq<char>) {
    (ChannelKind::Udp, name)
}

/// Topic of a camera channel: `/camera/<name>/compressed`.
pub open spec fn camera_topic(name: Seq<char>) -> Seq<char> {
    "/camera/"@ + name + "/compressed"@
}

/// Topic of a UDP channel: `/udp/<name>/raw`.
pub open spec fn udp_topic(name: Seq<char>) -> Seq<char> {
    "/udp/"@ + name + "/raw"@
}

/// Whether no key occurs twice.
pub open spec fn distinct_keys(keys: Seq<(ChannelKind, Seq<char>)>) -> bool {
    forall|i: int, j: int| 0 <= i < keys.len() && 0 <= j < keys.len() && i != j ==> keys[i] != keys[j]
}

/// Whole seconds of a nanosecond timestamp.
pub open spec fn ts_sec(ts: u64) -> u64 {
    ts / 1_000_000_000
}

/// Nanoseconds within the second of a nanosecond timestamp.
pub open spec fn ts_nsec(ts: u64) -> u64 {
    ts % 1_000_000_000
}

/// The members of a message's `timestamp` object: `sec` and `nsec`.
pub open spec fn timestamp_members(ts: u64) -> Map<Seq<char>, JsonItem> {
    Map::<Seq<char>, JsonItem>::empty().insert("sec"@, JsonItem::UInt(ts_sec(ts))).insert(
        "nsec"@,
        JsonItem::UInt(ts_nsec(ts)),
    )
}

/// The members of a `foxglove.CompressedImage` message: `timestamp`, `frame_id`,
/// `data` (base64) and `format`.
pub open spec fn camera_message_members(
    ts: u64,
    frame_id: Seq<char>,
    data: Seq<char>,
    format: Seq<char>,
) -> Map<Seq<char>, JsonItem> {
    Map::<Seq<char>, JsonItem>::empty().insert(
        "timestamp"@,
        JsonItem::Object(timestamp_members(ts)),
    ).insert("frame_id"@, JsonItem::Str(frame_id)).insert("data"@, JsonItem::Str(data)).insert(
        "format"@,
        JsonItem::Str(format),
    )
}

/// The members of a `RawUdpPacket` message: `timestamp`, `stream_name` and
/// `data` (base64).
pub open spec fn udp_message_members(ts: u64, stream_name: Seq<char>, data: Seq<char>) -> Map<
    Seq<char>,
    JsonItem,
> {
    Map::<Seq<char>, JsonItem>::empty().insert(
        "timestamp"@,
        JsonItem::Object(timestamp_members(ts)),
    ).insert("stream_name"@, JsonItem::Str(stream_name)).insert("data"@, JsonItem::Str(data))
}

/// The `timestamp` object of a message stamped `ts`.
fn timestamp_object(ts: u64) -> (m: JsonObject)
    ensures
        json_object_members(m) == timestamp_members(ts),
{
    let mut m = json_object_new();
    json_object_insert(&mut m, "sec", JsonValue::UInt(ts / 1_000_000_000));
    json_object_insert(&mut m, "nsec", JsonValue::UInt(ts % 1_000_000_000));
    m
}

/// The JSON payload of a camera message.
pub fn camera_message_payload(ts: u64, frame_id: &str, data: &str, format: &str) -> (r: Vec<u8>)
    ensures
        r@ == json_object_bytes(camera_message_members(ts, frame_id@, data@, format@)),
{
    let mut m = json_object_new();
    let t = timestamp_object(ts);
    json_object_insert(&mut m, "timestamp", JsonValue::Object(t));
    json_object_insert(&mut m, "frame_id", JsonValue::Str(String::from_str(frame_id)));
    json_object_insert(&mut m, "data", JsonValue::Str(String::from_str(data)));
    json_object_insert(&mut m, "format", JsonValue::Str(String::from_str(format)));
    json_object_bytes_of(&m)
}

/// The JSON payload of a UDP message.
pub fn udp_message_payload(ts: u64, stream_name: &str, data: &str) -> (r: Vec<u8>)
    ensures
        r@ == json_object_bytes(udp_message_members(ts, stream_name@, data@)),
{
    let mut m = json_object_new();
    let t = timestamp_object(ts);
    json_object_insert(&mut m, "timestamp", JsonValue::Object(t));
    json_object_insert(&mut m, "stream_name", JsonValue::Str(String::from_str(stream_name)));
    json_object_insert(&mut m, "data", JsonValue::Str(String::from_str(data)));
    json_object_bytes_of(&m)
}

/// A channel to add to the MCAP file, with its schema and metadata.
#[derive(Debug)]
pub struct ChannelRegistration {
    /// Position of the channel in the registry; messages name their channel by it.
    pub channel: usize,
    pub topic: String,
    pub schema_name: &'static str,
    pub schema_encoding: &'static str,
    pub schema: &'static str,
    pub message_encoding: &'static str,
    pub metadata_key: &'static str,
    pub metadata_value: String,
}

/// A message to write to the MCAP file.
#[derive(Debug)]
pub struct MessageRecord {
    /// Registry position of the message's channel.
    pub channel: usize,
    pub sequence: u32,
    pub log_time: u64,
    pub publish_time: u64,
    pub data: Vec<u8>,
    /// Raw frame bytes that the message carries (before base64 and JSON).
    pub frame_bytes: usize,
}

/// What writing one frame asks of the MCAP file: a channel to add first when the
/// frame's channel was not registered yet, and the message.
#[derive(Debug)]
pub struct FrameWrite {
    pub registration: Option<ChannelRegistration>,
    pub message: MessageRecord,
}

/// Channel number of `key` in a registry with keys `keys`: its position when
/// registered, and otherwise the position that registering it would give.
pub open spec fn channel_index(keys: Seq<(ChannelKind, Seq<char>)>, key: (ChannelKind, Seq<char>)) -> int {
    if keys.contains(key) {
        choose|i: int| 0 <= i < keys.len() && keys[i] == key
    } else {
        keys.len() as int
    }
}

/// The keys after a message of `key` is written: `key` is registered first when
/// it was not yet.
pub open spec fn keys_after_write(
    keys: Seq<(ChannelKind, Seq<char>)>,
    key: (ChannelKind, Seq<char>),
) -> Seq<(ChannelKind, Seq<char>)> {
    if keys.contains(key) {
        keys
    } else {
        keys.push(key)
    }
}

/// The sequence numbers after a message of `key` is written, before its own
/// sequence number is taken.
pub open spec fn sequences_before_take(
    keys: Seq<(ChannelKind, Seq<char>)>,
    sequences: Seq<u32>,
    key: (ChannelKind, Seq<char>),
) -> Seq<u32> {
    if keys.contains(key) {
        sequences
    } else {
        sequences.push(0)
    }
}

/// Whether `r` registers channel `channel` as a camera channel for camera `name`
/// with clock source `clock_source`.
pub open spec fn is_camera_registration(
    r: ChannelRegistration,
    channel: int,
    name: Seq<char>,
    clock_source: Seq<char>,
) -> bool {
    &&& r.channel == channel
    &&& r.topic@ == camera_topic(name)
    &&& r.schema_name == CAMERA_SCHEMA_NAME
    &&& r.schema_encoding == SCHEMA_ENCODING
    &&& r.schema == COMPRESSED_IMAGE_SCHEMA
    &&& r.message_encoding == MESSAGE_ENCODING
    &&& r.metadata_key == CAMERA_METADATA_KEY
    &&& r.metadata_value@ == clock_source
}

/// Whether `r` registers channel `channel` as the UDP channel of stream `name`.
pub open spec fn is_udp_registration(r: ChannelRegistration, channel: int, name: Seq<char>) -> bool {
    &&& r.channel == channel
    &&& r.topic@ == udp_topic(name)
    &&& r.schema_name == UDP_SCHEMA_NAME
    &&& r.schema_encoding == SCHEMA_ENCODING
    &&& r.schema == RAW_UDP_SCHEMA
    &&& r.message_encoding == MESSAGE_ENCODING
    &&& r.metadata_key == UDP_METADATA_KEY
    &&& r.metadata_value@ == UDP_METADATA_VALUE@
}

/// The message of channel `channel` with sequence number `sequence`, logged and
/// published at `timestamp_ns`, carrying `payload` for `frame_bytes` raw bytes.
pub fn message_record(
    channel: usize,
    sequence: u32,
    timestamp_ns: u64,
    payload: Vec<u8>,
    frame_bytes: usize,
) -> (r: MessageRecord)
    ensures
        r.channel == channel,
        r.sequence == sequence,
        r.log_time == timestamp_ns,
        r.publish_time == timestamp_ns,
        r.data@ == payload@,
        r.frame_bytes == frame_bytes,
{
    MessageRecord {
        channel,
        sequence,
        log_time: timestamp_ns,
        publish_time: timestamp_ns,
        data: payload,
        frame_bytes,
    }
}

fn camera_registration(channel: usize, name: &str, clock_source: &str) -> (r: ChannelRegistration)
    ensures
        is_camera_registration(r, channel as int, name@, clock_source@),
{
    let mut topic = String::from_str("/camera/");
    topic.append(name);
    topic.append("/compressed");
    ChannelRegistration {
        channel,
        topic,
        schema_name: CAMERA_SCHEMA_NAME,
        schema_encoding: SCHEMA_ENCODING,
        schema: COMPRESSED_IMAGE_SCHEMA,
        message_encoding: MESSAGE_ENCODING,
        metadata_key: CAMERA_METADATA_KEY,
        metadata_value: String::from_str(clock_source),
    }
}

fn udp_registration(channel: usize, name: &str) -> (r: ChannelRegistration)
    ensures
        is_udp_registration(r, channel as int, name@),
{
    let mut topic = String::from_str("/udp/");
    topic.append(name);
    topic.append("/raw");
    ChannelRegistration {
        channel,
        topic,
        schema_name: UDP_SCHEMA_NAME,
        schema_encoding: SCHEMA_ENCODING,
        schema: RAW_UDP_SCHEMA,
        message_encoding: MESSAGE_ENCODING,
        metadata_key: UDP_METADATA_KEY,
        metadata_value: String::from_str(UDP_METADATA_VALUE),
    }
}

struct ChannelEntry {
    kind: ChannelKind,
    name: String,
    next_sequence: u32,
}

/// The registry of MCAP channels of one recording file.
pub struct McapWriter {
    channels: Vec<ChannelEntry>,
    total_frame_bytes: usize,
    /// Raw frame bytes of each message counted so far, in the order counted.
    written: Ghost<Seq<nat>>,
}

/// The sum of a sequence of byte counts.
pub open spec fn sum_of(counts: Seq<nat>) -> nat
    decreases counts.len(),
{
    if counts.len() == 0 {
        0
    } else {
        sum_of(counts.drop_last()) + counts.last()
    }
}

impl McapWriter {
    /// Registry keys of the channels, in registration order (the channel numbers).
    pub closed spec fn spec_keys(&self) -> Seq<(ChannelKind, Seq<char>)> {
        self.channels@.map_values(|e: ChannelEntry| (e.kind, e.name@))
    }

    /// Sequence number of the next message of each channel.
    pub closed spec fn spec_sequences(&self) -> Seq<u32> {
        self.channels@.map_values(|e: ChannelEntry| e.next_sequence)
    }

    /// Raw frame bytes of the messages written so far (MCAP framing excluded).
    pub closed spec fn spec_total_frame_bytes(&self) -> nat {
        self.total_frame_bytes as nat
    }

    /// Raw frame bytes of each message counted so far (`record_written`), in
    /// the order counted.
    pub closed spec fn spec_written_frame_bytes(&self) -> Seq<nat> {
        self.written@
    }

    /// No key is registered twice, every channel has a sequence number, and the
    /// total is the sum of the frame bytes of the messages counted.
    pub open spec fn wf(&self) -> bool {
        &&& distinct_keys(self.spec_keys())
        &&& self.spec_keys().len() == self.spec_sequences().len()
        &&& self.spec_total_frame_bytes() == sum_of(self.spec_written_frame_bytes())
    }

    /// An empty registry.
    pub fn new() -> (w: Self)
        ensures
            w.wf(),
            w.spec_keys() == Seq::<(ChannelKind, Seq<char>)>::empty(),
            w.spec_sequences() == Seq::<u32>::empty(),
            w.spec_total_frame_bytes() == 0,
            w.spec_written_frame_bytes() == Seq::<nat>::empty(),
    {
        let w = McapWriter { channels: Vec::new(), total_frame_bytes: 0, written: Ghost(Seq::empty()) };
        proof {
            assert(w.spec_keys() =~= Seq::<(ChannelKind, Seq<char>)>::empty());
            assert(w.spec_sequences() =~= Seq::<u32>::empty());
        }
        w
    }

    /// Total raw frame bytes written (excludes MCAP framing overhead).
    pub fn total_frame_bytes(&self) -> (r: usize)
        ensures
            r == self.spec_total_frame_bytes(),
    {
        self.total_frame_bytes
    }

    /// Number of registered channels.
    pub fn channel_count(&self) -> (r: usize)
        ensures
            r == self.spec_keys().len(),
    {
        self.channels.len()
    }

    /// Counts the raw frame bytes of a message once the MCAP file has taken it.
    pub fn record_written(&mut self, m: &MessageRecord)
        requires
            old(self).wf(),
            old(self).spec_total_frame_bytes() + m.frame_bytes <= usize::MAX,
        ensures
            final(self).wf(),
            final(self).spec_total_frame_bytes() == old(self).spec_total_frame_bytes()
                + m.frame_bytes,
            final(self).spec_written_frame_bytes() == old(self).spec_written_frame_bytes().push(
                m.frame_bytes as nat,
            ),
            final(self).spec_keys() == old(self).spec_keys(),
            final(self).spec_sequences() == old(self).spec_sequences(),
    {
        let ghost before = self.written@;
        self.total_frame_bytes = self.total_frame_bytes + m.frame_bytes;
        self.written = Ghost(before.push(m.frame_bytes as nat));
        proof {
            assert(before.push(m.frame_bytes as nat).drop_last() =~= before);
        }
    }

    /// The channel registered under `key`, if any.
    fn find(&self, kind: ChannelKind, name: &String) -> (r: Option<usize>)
        requires
            self.wf(),
        ensures
            match r {
                Some(i) => i < self.spec_keys().len() && self.spec_keys()[i as int] == (kind, name@),
                None => !self.spec_keys().contains((kind, name@)),
            },
    {
        let n = self.channels.len();
        let mut i: usize = 0;
        while i < n
            invariant
                n == self.channels@.len(),
                i <= n,
                forall|j: int| 0 <= j < i ==> self.spec_keys()[j] != (kind, name@),
            decreases n - i,
        {
            if self.channels[i].kind == kind && self.channels[i].name == *name {
                return Some(i);
            }
            i = i + 1;
        }
        proof {
            if self.spec_keys().contains((kind, name@)) {
                let j = choose|j: int|
                    0 <= j < self.spec_keys().len() && self.spec_keys()[j] == (kind, name@);
                assert(self.spec_keys()[j] != (kind, name@));
            }
        }
        None
    }

    /// Appends a channel under `key` with sequence number 0.
    fn add(&mut self, kind: ChannelKind, name: String)
        requires
            old(self).wf(),
            !old(self).spec_keys().contains((kind, name@)),
        ensures
            final(self).wf(),
            final(self).spec_keys() == old(self).spec_keys().push((kind, name@)),
            final(self).spec_sequences() == old(self).spec_sequences().push(0),
            final(self).spec_total_frame_bytes() == old(self).spec_total_frame_bytes(),
            final(self).spec_written_frame_bytes() == old(self).spec_written_frame_bytes(),
    {
        let ghost old_keys = self.spec_keys();
        let ghost key = (kind, name@);
        self.channels.push(ChannelEntry { kind, name, next_sequence: 0 });
        proof {
            assert(self.spec_keys() =~= old_keys.push(key));
            assert(self.spec_sequences() =~= old(self).spec_sequences().push(0));
            lemma_distinct_push(old_keys, key);
        }
    }

    /// Takes the next sequence number of channel `i` and advances it (wrapping).
    fn take_sequence(&mut self, i: usize) -> (s: u32)
        requires
            old(self).wf(),
            i < old(self).spec_keys().len(),
        ensures
            final(self).wf(),
            s == old(self).spec_sequences()[i as int],
            final(self).spec_keys() == old(self).spec_keys(),
            final(self).spec_sequences() == old(self).spec_sequences().update(
                i as int,
                s.wrapping_add(1),
            ),
            final(self).spec_total_frame_bytes() == old(self).spec_total_frame_bytes(),
            final(self).spec_written_frame_bytes() == old(self).spec_written_frame_bytes(),
    {
        let s = self.channels[i].next_sequence;
        let kind = self.channels[i].kind;
        let name = self.channels[i].name.clone();
        self.channels.set(i, ChannelEntry { kind, name, next_sequence: s.wrapping_add(1) });
        proof {
            assert(self.spec_keys() =~= old(self).spec_keys());
            assert(self.spec_sequences() =~= old(self).spec_sequences().update(
                i as int,
                s.wrapping_add(1),
            ));
        }
        s
    }

    /// Registers the channel of camera `name`; `clock_source` goes into the
    /// channel metadata so that readers know the time domain. Registering a name
    /// that is already registered changes nothing and returns `None`.
    pub fn register_camera(&mut self, name: &str, clock_source: &str) -> (r: Option<
        ChannelRegistration,
    >)
        requires
            old(self).wf(),
        ensures
            final(self).wf(),
            final(self).spec_total_frame_bytes() == old(self).spec_total_frame_bytes(),
            final(self).spec_written_frame_bytes() == old(self).spec_written_frame_bytes(),
            old(self).spec_keys().contains(camera_key(name@)) ==> r is None && final(self).spec_keys()
                == old(self).spec_keys() && final(self).spec_sequences() == old(
                self,
            ).spec_sequences(),
            !old(self).spec_keys().contains(camera_key(name@)) ==> (r matches Some(reg)
                && is_camera_registration(
                reg,
                old(self).spec_keys().len() as int,
                name@,
                clock_source@,
            )) && final(self).spec_keys() == old(self).spec_keys().push(camera_key(name@))
                && final(self).spec_sequences() == old(self).spec_sequences().push(0),
    {
        let key = String::from_str(name);
        if self.find(ChannelKind::Camera, &key).is_some() {
            return None;
        }
        let channel = self.channels.len();
        self.add(ChannelKind::Camera, key);
        Some(camera_registration(channel, name, clock_source))
    }

    /// Registers the channel of UDP stream `name`. Registering a stream that is
    /// already registered changes nothing and returns `None`.
    pub fn register_udp_stream(&mut self, name: &str) -> (r: Option<ChannelRegistration>)
        requires
            old(self).wf(),
        ensures
            final(self).wf(),
            final(self).spec_total_frame_bytes() == old(self).spec_total_frame_bytes(),
            final(self).spec_written_frame_bytes() == old(self).spec_written_frame_bytes(),
            old(self).spec_keys().contains(udp_key(name@)) ==> r is None && final(self).spec_keys()
                == old(self).spec_keys() && final(self).spec_sequences() == old(
                self,
            ).spec_sequences(),
            !old(self).spec_keys().contains(udp_key(name@)) ==> (r matches Some(reg)
                && is_udp_registration(reg, old(self).spec_keys().len() as int, name@))
                && final(self).spec_keys() == old(self).spec_keys().push(udp_key(name@))
                && final(self).spec_sequences() == old(self).spec_sequences().push(0),
    {
        let key = String::from_str(name);
        if self.find(ChannelKind::Udp, &key).is_some() {
            return None;
        }
        let channel = self.channels.len();
        self.add(ChannelKind::Udp, key);
        Some(udp_registration(channel, name))
    }

    /// The channel of `key` and the sequence number of its next message,
    /// registering the channel first when it is new; the channel's sequence
    /// number advances.
    fn claim(&mut self, kind: ChannelKind, name: String) -> (r: (usize, u32, bool))
        requires
            old(self).wf(),
        ensures
            final(self).wf(),
            r.2 == !old(self).spec_keys().contains((kind, name@)),
            r.0 == channel_index(old(self).spec_keys(), (kind, name@)),
            final(self).spec_keys() == keys_after_write(old(self).spec_keys(), (kind, name@)),
            final(self).spec_keys()[r.0 as int] == (kind, name@),
            r.1 == sequences_before_take(
                old(self).spec_keys(),
                old(self).spec_sequences(),
                (kind, name@),
            )[r.0 as int],
            final(self).spec_sequences() == sequences_before_take(
                old(self).spec_keys(),
                old(self).spec_sequences(),
                (kind, name@),
            ).update(r.0 as int, r.1.wrapping_add(1)),
            final(self).spec_total_frame_bytes() == old(self).spec_total_frame_bytes(),
            final(self).spec_written_frame_bytes() == old(self).spec_written_frame_bytes(),
    {
        let ghost keys0 = self.spec_keys();
        let ghost key = (kind, name@);
        match self.find(kind, &name) {
            Some(i) => {
                proof {
                    lemma_channel_index_of(keys0, key, i as int);
                }
                let s = self.take_sequence(i);
                (i, s, false)
            },
            None => {
                let i = self.channels.len();
                self.add(kind, name);
                let s = self.take_sequence(i);
                (i, s, true)
            },
        }
    }

    /// Records a camera frame: its channel (registered on first sight with the
    /// clock source `"unknown"`), its sequence number, and its
    /// `foxglove.CompressedImage` JSON payload with the image bytes in base64.
    /// The frame's bytes count once the program has written the message
    /// (`record_written`).
    pub fn write_frame(&mut self, frame: &CameraFrame) -> (w: FrameWrite)
        requires
            old(self).wf(),
        ensures
            final(self).wf(),
            final(self).spec_total_frame_bytes() == old(self).spec_total_frame_bytes(),
            final(self).spec_written_frame_bytes() == old(self).spec_written_frame_bytes(),
            ({
                let key = camera_key(frame.camera_name@);
                let keys0 = old(self).spec_keys();
                let ch = channel_index(keys0, key);
                let seqs = sequences_before_take(keys0, old(self).spec_sequences(), key);
                &&& final(self).spec_keys() == keys_after_write(keys0, key)
                &&& final(self).spec_sequences() == seqs.update(ch, seqs[ch].wrapping_add(1))
                &&& keys0.contains(key) ==> w.registration is None
                &&& !keys0.contains(key) ==> (w.registration matches Some(reg)
                    && is_camera_registration(reg, ch, frame.camera_name@, UNKNOWN_CLOCK_SOURCE@))
                &&& w.message.channel == ch
                &&& w.message.sequence == seqs[ch]
                &&& w.message.log_time == frame.timestamp_ns
                &&& w.message.publish_time == frame.timestamp_ns
                &&& w.message.frame_bytes == frame.data@.len()
                &&& w.message.data@ == json_object_bytes(
                    camera_message_members(
                        frame.timestamp_ns,
                        frame.camera_name@,
                        base64(frame.data@),
                        frame.encoding@,
                    ),
                )
            }),
    {
        let (channel, sequence, fresh) = self.claim(ChannelKind::Camera, frame.camera_name.clone());
        let registration = if fresh {
            Some(camera_registration(channel, frame.camera_name.as_str(), UNKNOWN_CLOCK_SOURCE))
        } else {
            None
        };
        let b64 = base64_encode(frame.data.as_slice());
        let payload = camera_message_payload(
            frame.timestamp_ns,
            frame.camera_name.as_str(),
            b64.as_str(),
            frame.encoding,
        );
        let message = message_record(
            channel,
            sequence,
            frame.timestamp_ns,
            payload,
            frame.data.len(),
        );
        FrameWrite { registration, message }
    }

    /// Records a UDP frame: its channel (registered on first sight), its sequence
    /// number, and its `RawUdpPacket` JSON payload with the packet bytes in base64.
    /// The frame's bytes count once the program has written the message
    /// (`record_written`).
    pub fn write_udp_frame(&mut self, frame: &UdpFrame) -> (w: FrameWrite)
        requires
            old(self).wf(),
        ensures
            final(self).wf(),
            final(self).spec_total_frame_bytes() == old(self).spec_total_frame_bytes(),
            final(self).spec_written_frame_bytes() == old(self).spec_written_frame_bytes(),
            ({
                let key = udp_key(frame.stream_name@);
                let keys0 = old(self).spec_keys();
                let ch = channel_index(keys0, key);
                let seqs = sequences_before_take(keys0, old(self).spec_sequences(), key);
                &&& final(self).spec_keys() == keys_after_write(keys0, key)
                &&& final(self).spec_sequences() == seqs.update(ch, seqs[ch].wrapping_add(1))
                &&& keys0.contains(key) ==> w.registration is None
                &&& !keys0.contains(key) ==> (w.registration matches Some(reg)
                    && is_udp_registration(reg, ch, frame.stream_name@))
                &&& w.message.channel == ch
                &&& w.message.sequence == seqs[ch]
                &&& w.message.log_time == frame.timestamp_ns
                &&& w.message.publish_time == frame.timestamp_ns
                &&& w.message.frame_bytes == frame.data@.len()
                &&& w.message.data@ == json_object_bytes(
                    udp_message_members(
                        frame.timestamp_ns,
                        frame.stream_name@,
                        base64(frame.data@),
                    ),
                )
            }),
    {
        let (channel, sequence, fresh) = self.claim(ChannelKind::Udp, frame.stream_name.clone());
        let registration = if fresh {
            Some(udp_registration(channel, frame.stream_name.as_str()))
        } else {
            None
        };
        let b64 = base64_encode(frame.data.as_slice());
        let payload = udp_message_payload(
            frame.timestamp_ns,
            frame.stream_name.as_str(),
            b64.as_str(),
        );
        let message = message_record(
            channel,
            sequence,
            frame.timestamp_ns,
            payload,
            frame.data.len(),
        );
        FrameWrite { registration, message }
    }
}

proof fn lemma_distinct_push(keys: Seq<(ChannelKind, Seq<char>)>, key: (ChannelKind, Seq<char>))
    requires
        distinct_keys(keys),
        !keys.contains(key),
    ensures
        distinct_keys(keys.push(key)),
{
    let k1 = keys.push(key);
    assert forall|i: int, j: int|
        0 <= i < k1.len() && 0 <= j < k1.len() && i != j implies k1[i] != k1[j] by {
        if i == keys.len() && keys[j] == key {
            assert(keys.contains(key));
        }
        if j == keys.len() && keys[i] == key {
            assert(keys.contains(key));
        }
    }
}

proof fn lemma_channel_index_of(keys: Seq<(ChannelKind, Seq<char>)>, key: (ChannelKind, Seq<char>), i: int)
    requires
        distinct_keys(keys),
        0 <= i < keys.len(),
        keys[i] == key,
    ensures
        channel_index(keys, key) == i,
{
    assert(keys.contains(key));
}

/// A write keeps the registry well formed and its channel in place, and the
/// sequence number it leaves for the channel is the one that the channel's next
/// message carries: consecutive messages of a channel are numbered
/// consecutively (modulo 2^32), and a channel's first message is numbered 0.
pub proof fn lemma_consecutive_sequences(keys: Seq<(ChannelKind, Seq<char>)>, sequences: Seq<u32>, key: (ChannelKind, Seq<char>))
    requires
        distinct_keys(keys),
        keys.len() == sequences.len(),
    ensures
        ({
            let ch = channel_index(keys, key);
            let s0 = sequences_before_take(keys, sequences, key);
            let s1 = s0.update(ch, s0[ch].wrapping_add(1));
            let k1 = keys_after_write(keys, key);
            &&& distinct_keys(k1)
            &&& k1.len() == s1.len()
            &&& 0 <= ch < k1.len()
            &&& k1[ch] == key
            &&& channel_index(k1, key) == ch
            &&& k1.contains(key)
            &&& sequences_before_take(k1, s1, key)[ch] == s0[ch].wrapping_add(1)
            &&& !keys.contains(key) ==> s0[ch] == 0
        }),
{
    let ch = channel_index(keys, key);
    if keys.contains(key) {
        assert(keys[ch] == key);
        lemma_channel_index_of(keys, key, ch);
    } else {
        lemma_distinct_push(keys, key);
        let k1 = keys.push(key);
        assert(k1[ch] == key);
        lemma_channel_index_of(k1, key, ch);
    }
}

/// A write touches only its own channel: every other registered channel keeps
/// its number and the sequence number of its next message.
pub proof fn lemma_write_isolates_channels(
    keys: Seq<(ChannelKind, Seq<char>)>,
    sequences: Seq<u32>,
    key: (ChannelKind, Seq<char>),
    other: (ChannelKind, Seq<char>),
)
    requires
        distinct_keys(keys),
        keys.len() == sequences.len(),
        keys.contains(other),
        other != key,
    ensures
        ({
            let ch = channel_index(keys, key);
            let s0 = sequences_before_take(keys, sequences, key);
            let s1 = s0.update(ch, s0[ch].wrapping_add(1));
            let k1 = keys_after_write(keys, key);
            let o = channel_index(keys, other);
            &&& channel_index(k1, other) == o
            &&& s1[o] == sequences[o]
        }),
{
    let o = channel_index(keys, other);
    assert(keys[o] == other);
    lemma_consecutive_sequences(keys, sequences, key);
    let ch = channel_index(keys, key);
    if keys.contains(key) {
        assert(keys[ch] == key);
    } else {
        lemma_distinct_push(keys, key);
        let k1 = keys.push(key);
        assert(k1[o] == other);
        lemma_channel_index_of(k1, other, o);
    }
}

/// Writing a message of a key that is not registered does what registering the
/// key and then writing does: the channel takes the next free number, the
/// registry ends with the same keys, and the message takes sequence number 0.
pub proof fn lemma_write_registers_unseen(
    keys: Seq<(ChannelKind, Seq<char>)>,
    sequences: Seq<u32>,
    key: (ChannelKind, Seq<char>),
)
    requires
        distinct_keys(keys),
        keys.len() == sequences.len(),
        !keys.contains(key),
    ensures
        ({
            let registered = keys.push(key);
            let seqs_registered = sequences.push(0);
            &&& channel_index(keys, key) == keys.len()
            &&& channel_index(registered, key) == keys.len()
            &&& keys_after_write(keys, key) == keys_after_write(registered, key)
            &&& sequences_before_take(keys, sequences, key) == sequences_before_take(
                registered,
                seqs_registered,
                key,
            )
            &&& sequences_before_take(keys, sequences, key)[keys.len() as int] == 0
        }),
{
    let registered = keys.push(key);
    lemma_distinct_push(keys, key);
    assert(registered[keys.len() as int] == key);
    lemma_channel_index_of(registered, key, keys.len() as int);
}

/// Counting one more message adds exactly its frame bytes to the running total,
/// and nothing counted sums to 0. With `wf` (the total is `sum_of` the counted
/// frame bytes), `new` (nothing counted) and `record_written` (appends the
/// message's `frame_bytes`, which `write_frame` and `write_udp_frame` set to the
/// length of the frame's data), the total is the sum of the data lengths of the
/// messages counted.
pub proof fn lemma_running_total(counts: Seq<nat>, more: nat)
    ensures
        sum_of(counts.push(more)) == sum_of(counts) + more,
        sum_of(Seq::<nat>::empty()) == 0,
{
    assert(counts.push(more).drop_last() =~= counts);
}

/// The `sec` and `nsec` fields of a payload describe its timestamp exactly.
pub proof fn lemma_timestamp_split(ts: u64)
    ensures
        ts_sec(ts) * 1_000_000_000 + ts_nsec(ts) == ts,
        ts_nsec(ts) < 1_000_000_000,
{
}

} // verus!
