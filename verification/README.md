# edge_capture

Verified core of an edge capture agent that records USB cameras (V4L2) and UDP
streams into MCAP files, with every timestamp in the CLOCK_TAI domain.

Layout:

- `src/` — the library, verified with Verus:
  - `config.rs` — camera and UDP stream configuration records and their defaults;
  - `time.rs` — clock readings, CLOCK_MONOTONIC → CLOCK_TAI calibration, `ptp4l` detection;
  - `drivers/udp_capture.rs` — CLOCK_REALTIME → CLOCK_TAI conversion, parsing of
    `SO_TIMESTAMPNS` control messages, decisions of the UDP receive loop;
  - `drivers/usb_camera.rs` — V4L2 timestamp conversion, format choice, decisions of
    the camera capture loop;
  - `recorder/base64.rs` — base64 encoding of payloads;
  - `recorder/json.rs` — the JSON objects of messages, built and serialised through
    `serde_json` (its insertion and serialisation are trusted; which members each
    message has is verified);
  - `recorder/mcap_writer.rs` — MCAP channel registry (camera and UDP channels kept
    apart), sequence numbers, message payloads;
  - `plan.rs` — session tags, channel capacity, recording file names, bind addresses.
- `app/` — the `capture` program: configuration file loading, devices, sockets,
  threads, the MCAP file itself and the session manifest.
- `tests/` — tests of the library on concrete values.
