# desklink

The logic of the DeskLink host daemon, which turns an Android device on a USB
cable into a touch-screen monitor for a Linux desktop, written in Verus.

`src/` is the verified library:

- `wire` — big-endian fields, through `byteorder`;
- `clock` — the wall clock, for packet time stamps;
- `protocol` — the 14-byte video header, the 15-byte touch and configuration
  packets, with encode/decode round-trip laws (touch coordinates are kept as
  IEEE-754 bit patterns, and clamped on those patterns);
- `touch` — the ten-slot multi-touch tracker that turns touch packets into
  Linux input-event batches (protocol B with single-touch emulation), and the
  virtual device's axis tables;
- `nalu` — Annex-B start-code search and the framer that cuts the encoder's
  byte stream into NAL units, each behind a video header, with a law over
  any sequence of reads;
- `text` — decimal formatting, substring search, `split_whitespace`, `lines`,
  `split_once` and `u32` parsing, each against an exact specification;
- `command`, `compositor`, `adb`, `streamer`, `server` — the decisions of the
  daemon: which commands switch the virtual output on and off, the `adb
  forward` rule, the encoder and GStreamer pipeline, where the virtual monitor
  sits in `xrandr` output, what a client packet is, and when the first and
  last client come and go.

`app/` is the daemon around it: argument parsing, process and device I/O,
the tokio server, and the two floating-point steps (choosing the closest
standard display mode, and scaling touch coordinates to device units).
