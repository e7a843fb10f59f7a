//! The DeskLink wire protocol: the video header sent to the client and the
//! touch and configuration packets received from it. Every multi-byte field
//! is big-endian.
use vstd::prelude::*;
use crate::wire::{
    lemma_be_u32_bytes_of_value, lemma_be_u32_value_of_bytes,
    lemma_be_u64_bytes_of_value, lemma_be_u64_value_of_bytes, lemma_be_u16_arith, lemma_be_u32_arith, lemma_be_u64_arith,
    be_bytes_u32, be_bytes_u64, be_value_u16, be_value_u32, be_value_u64, read_u16_be, read_u32_be,
    read_u64_be, write_u32_be, write_u64_be,
};

verus! {

/// First byte of every video packet (ASCII 'D').
pub const MAGIC_BYTE: u8 = 0x44;

/// Payload type of an H.264 Annex-B NAL unit.
pub const PAYLOAD_TYPE_VIDEO: u8 = 0x01;

/// Event type of a multi-touch packet.
pub const EVENT_TYPE_TOUCH: u8 = 0x02;

/// Event type of the client's display-configuration handshake.
pub const EVENT_TYPE_CONFIG: u8 = 0x03;

/// Bytes in a video header.
pub const VIDEO_HEADER_SIZE: usize = 14;

/// Bytes in a touch packet.
pub const TOUCH_PACKET_SIZE: usize = 15;

/// Bytes in a configuration packet.
pub const CONFIG_PACKET_SIZE: usize = 15;

/// Why a received packet was refused.
#[derive(Debug, Clone, Copy, PartialEq, Eq, Structural)]
pub enum ProtocolError {
    /// The first byte of a video header was not `MAGIC_BYTE`.
    InvalidMagic(u8),
    /// The second byte of a video header was not `PAYLOAD_TYPE_VIDEO`.
    InvalidPayloadType(u8),
    /// The first byte of a touch packet was not `EVENT_TYPE_TOUCH`.
    InvalidTouchEventType(u8),
    /// The action byte of a touch packet was not 0, 1 or 2.
    InvalidTouchAction(u8),
    /// The first byte of a configuration packet was not `EVENT_TYPE_CONFIG`.
    InvalidConfigEventType(u8),
}

/// What a finger did.
#[derive(Debug, Clone, Copy, PartialEq, Eq, Structural)]
pub enum TouchAction {
    Down,
    Move,
    Up,
}

/// The byte that stands for `a` on the wire.
pub open spec fn action_byte(a: TouchAction) -> u8 {
    match a {
        TouchAction::Down => 0x00,
        TouchAction::Move => 0x01,
        TouchAction::Up => 0x02,
    }
}

/// The action that byte `b` stands for, or the error for an unknown byte.
pub open spec fn action_of_byte(b: u8) -> Result<TouchAction, ProtocolError> {
    if b == 0x00 {
        Ok(TouchAction::Down)
    } else if b == 0x01 {
        Ok(TouchAction::Move)
    } else if b == 0x02 {
        Ok(TouchAction::Up)
    } else {
        Err(ProtocolError::InvalidTouchAction(b))
    }
}

impl TouchAction {
    /// The wire byte of this action.
    pub fn to_byte(self) -> (b: u8)
        ensures
            b == action_byte(self),
    {
        match self {
            TouchAction::Down => 0x00,
            TouchAction::Move => 0x01,
            TouchAction::Up => 0x02,
        }
    }

    /// The action a wire byte stands for; any byte but 0, 1 and 2 is refused.
    pub fn try_from(val: u8) -> (r: Result<TouchAction, ProtocolError>)
        ensures
            r == action_of_byte(val),
    {
        if val == 0x00 {
            Ok(TouchAction::Down)
        } else if val == 0x01 {
            Ok(TouchAction::Move)
        } else if val == 0x02 {
            Ok(TouchAction::Up)
        } else {
            Err(ProtocolError::InvalidTouchAction(val))
        }
    }
}

/// The 14-byte header in front of each NAL unit sent to the client.
#[derive(Debug, Clone, Copy, PartialEq, Eq, Structural)]
pub struct VideoHeader {
    pub magic: u8,
    pub payload_type: u8,
    pub payload_length: u32,
    /// Microseconds since the Unix epoch.
    pub pts: u64,
}

impl VideoHeader {
    /// A header with the right magic and payload type in its first bytes.
    pub open spec fn well_formed(self) -> bool {
        self.magic == MAGIC_BYTE && self.payload_type == PAYLOAD_TYPE_VIDEO
    }

    /// The 14 bytes that encode this header.
    pub open spec fn spec_bytes(self) -> Seq<u8> {
        seq![self.magic, self.payload_type] + be_bytes_u32(self.payload_length) + be_bytes_u64(
            self.pts,
        )
    }

    /// The well-formed header for a payload of `payload_length` bytes
    /// stamped `pts`.
    pub open spec fn new_spec(payload_length: u32, pts: u64) -> Self {
        VideoHeader { magic: MAGIC_BYTE, payload_type: PAYLOAD_TYPE_VIDEO, payload_length, pts }
    }

    /// A video header for a payload of `payload_length` bytes stamped `pts`.
    pub fn new(payload_length: u32, pts: u64) -> (h: Self)
        ensures
            h == Self::new_spec(payload_length, pts),
    {
        VideoHeader { magic: MAGIC_BYTE, payload_type: PAYLOAD_TYPE_VIDEO, payload_length, pts }
    }

    /// A video header stamped with the current time.
    pub fn new_now(payload_length: u32) -> (h: Self)
        ensures
            h == Self::new_spec(payload_length, h.pts),
    {
        let pts = crate::clock::now_micros();
        Self::new(payload_length, pts)
    }

    /// Writes the header into `buf`.
    pub fn encode(&self, buf: &mut [u8; VIDEO_HEADER_SIZE])
        ensures
            final(buf)@ == self.spec_bytes(),
    {
        buf[0] = self.magic;
        buf[1] = self.payload_type;
        write_u32_be(buf, 2, self.payload_length);
        write_u64_be(buf, 6, self.pts);
        assert(buf@ =~= self.spec_bytes());
    }

    /// Reads a header; refuses a wrong magic byte, then a wrong payload type.
    pub fn decode(buf: &[u8; VIDEO_HEADER_SIZE]) -> (r: Result<Self, ProtocolError>)
        ensures
            r == decode_video_header(buf@),
    {
        let magic = buf[0];
        if magic != MAGIC_BYTE {
            return Err(ProtocolError::InvalidMagic(magic));
        }
        let payload_type = buf[1];
        if payload_type != PAYLOAD_TYPE_VIDEO {
            return Err(ProtocolError::InvalidPayloadType(payload_type));
        }
        let payload_length = read_u32_be(buf, 2);
        let pts = read_u64_be(buf, 6);
        Ok(VideoHeader { magic, payload_type, payload_length, pts })
    }
}

/// What decoding the 14 bytes `b` of a video header gives.
pub open spec fn decode_video_header(b: Seq<u8>) -> Result<VideoHeader, ProtocolError> {
    if b[0] != MAGIC_BYTE {
        Err(ProtocolError::InvalidMagic(b[0]))
    } else if b[1] != PAYLOAD_TYPE_VIDEO {
        Err(ProtocolError::InvalidPayloadType(b[1]))
    } else {
        Ok(
            VideoHeader {
                magic: b[0],
                payload_type: b[1],
                payload_length: be_value_u32(b.subrange(2, 6)),
                pts: be_value_u64(b.subrange(6, 14)),
            },
        )
    }
}

/// Law: decoding the bytes of a well-formed header gives that header back.
pub proof fn lemma_video_header_roundtrip(h: VideoHeader)
    requires
        h.well_formed(),
    ensures
        decode_video_header(h.spec_bytes()) == Ok::<VideoHeader, ProtocolError>(h),
{
    let b = h.spec_bytes();
    assert(b.subrange(2, 6) =~= be_bytes_u32(h.payload_length));
    assert(b.subrange(6, 14) =~= be_bytes_u64(h.pts));
    lemma_be_u32_value_of_bytes(h.payload_length);
    lemma_be_u64_value_of_bytes(h.pts);
}

/// Law: a 14-byte buffer that decodes to a header is exactly that header's
/// encoding.
pub proof fn lemma_video_header_bytes_determined(b: Seq<u8>, h: VideoHeader)
    requires
        b.len() == VIDEO_HEADER_SIZE,
        decode_video_header(b) == Ok::<VideoHeader, ProtocolError>(h),
    ensures
        h.well_formed(),
        h.spec_bytes() == b,
{
    lemma_be_u32_bytes_of_value(b.subrange(2, 6));
    lemma_be_u64_bytes_of_value(b.subrange(6, 14));
    assert(h.spec_bytes() =~= b);
}

/// Law: the header sent in front of a unit of `payload_length` bytes
/// stamped `pts` is 14 bytes: the magic byte 0x44, the payload type 0x01,
/// then the length in four bytes and the time stamp in eight, most
/// significant byte first.
pub proof fn lemma_video_header_layout(payload_length: u32, pts: u64)
    ensures
        ({
            let b = VideoHeader::new_spec(payload_length, pts).spec_bytes();
            &&& b.len() == 14
            &&& b[0] == 0x44 && b[1] == 0x01
            &&& payload_length as int == 16777216 * (b[2] as int) + 65536 * (b[3] as int) + 256 * (
            b[4] as int) + (b[5] as int)
            &&& pts as int == 72057594037927936 * (b[6] as int) + 281474976710656 * (b[7] as int)
                + 1099511627776 * (b[8] as int) + 4294967296 * (b[9] as int) + 16777216 * (
            b[10] as int) + 65536 * (b[11] as int) + 256 * (b[12] as int) + (b[13] as int)
        }),
{
    let b = VideoHeader::new_spec(payload_length, pts).spec_bytes();
    assert(b.subrange(2, 6) =~= be_bytes_u32(payload_length));
    assert(b.subrange(6, 14) =~= be_bytes_u64(pts));
    lemma_be_u32_value_of_bytes(payload_length);
    lemma_be_u64_value_of_bytes(pts);
    lemma_be_u32_arith(b.subrange(2, 6));
    lemma_be_u64_arith(b.subrange(6, 14));
}

/// One finger's touch packet. The three coordinates are the IEEE-754 bit
/// patterns of single-precision floats, as they travel on the wire.
#[derive(Debug, Clone, Copy, PartialEq, Eq, Structural)]
pub struct TouchEvent {
    pub pointer_id: u8,
    pub action: TouchAction,
    /// Bits of the horizontal position, 0.0 to 1.0.
    pub normalized_x: u32,
    /// Bits of the vertical position, 0.0 to 1.0.
    pub normalized_y: u32,
    /// Bits of the pressure, 0.0 to 1.0.
    pub pressure: u32,
}

/// Highest pointer id (ten fingers, 0 to 9).
pub const MAX_POINTER_ID: u8 = 9;

/// Bits of the single-precision float 1.0.
pub const F32_ONE_BITS: u32 = 0x3f80_0000;

/// `b` is the bit pattern of a NaN: all exponent bits set, fraction not zero.
pub open spec fn f32_bits_is_nan(b: u32) -> bool {
    (b & 0x7fff_ffffu32) > 0x7f80_0000u32
}

/// The float with bits `b` is less than 0.0: a set sign bit on a number
/// that is neither zero nor NaN.
pub open spec fn f32_bits_below_zero(b: u32) -> bool {
    b >= 0x8000_0000u32 && (b & 0x7fff_ffffu32) != 0 && !f32_bits_is_nan(b)
}

/// The float with bits `b` is greater than 1.0: a clear sign bit and a
/// larger pattern than that of 1.0 (for non-negative floats the order of
/// the values is the order of the patterns), not NaN.
pub open spec fn f32_bits_above_one(b: u32) -> bool {
    b < 0x8000_0000u32 && b > F32_ONE_BITS && !f32_bits_is_nan(b)
}

/// The bits of `f32::clamp(x, 0.0, 1.0)` where `b` are the bits of `x`: a
/// value below 0.0 becomes 0.0, one above 1.0 becomes 1.0, and anything
/// else, NaN and -0.0 among them, is kept.
pub open spec fn clamp_unit_bits(b: u32) -> u32 {
    if f32_bits_below_zero(b) {
        0
    } else if f32_bits_above_one(b) {
        F32_ONE_BITS
    } else {
        b
    }
}

/// Clamps the float with bits `b` to the range 0.0 to 1.0.
pub fn clamp_unit_f32_bits(b: u32) -> (r: u32)
    ensures
        r == clamp_unit_bits(b),
{
    let magnitude: u32 = b & 0x7fff_ffffu32;
    let is_nan = magnitude > 0x7f80_0000u32;
    if b >= 0x8000_0000u32 && magnitude != 0 && !is_nan {
        0
    } else if b < 0x8000_0000u32 && b > F32_ONE_BITS && !is_nan {
        F32_ONE_BITS
    } else {
        b
    }
}

/// Law: a clamped coordinate that is not NaN lies between 0.0 and 1.0
/// (it may be -0.0, which equals 0.0), NaN passes through, and clamping
/// twice is clamping once.
pub proof fn lemma_clamp_unit_bits(b: u32)
    ensures
        !f32_bits_is_nan(b) ==> !f32_bits_below_zero(clamp_unit_bits(b)) && !f32_bits_above_one(
            clamp_unit_bits(b),
        ),
        f32_bits_is_nan(b) ==> clamp_unit_bits(b) == b,
        clamp_unit_bits(clamp_unit_bits(b)) == clamp_unit_bits(b),
{
    assert(0u32 & 0x7fff_ffffu32 == 0u32) by (bit_vector);
    assert(0x3f80_0000u32 & 0x7fff_ffffu32 == 0x3f80_0000u32) by (bit_vector);
}

impl TouchEvent {
    /// The 15 bytes that encode this event.
    pub open spec fn spec_bytes(self) -> Seq<u8> {
        seq![EVENT_TYPE_TOUCH, self.pointer_id, action_byte(self.action)] + be_bytes_u32(
            self.normalized_x,
        ) + be_bytes_u32(self.normalized_y) + be_bytes_u32(self.pressure)
    }

    /// A touch event with the pointer id capped at 9 and the three
    /// coordinates clamped to 0.0 to 1.0 (given and kept as float bits).
    pub fn new(
        pointer_id: u8,
        action: TouchAction,
        normalized_x: u32,
        normalized_y: u32,
        pressure: u32,
    ) -> (e: Self)
        ensures
            e.pointer_id == (if pointer_id > MAX_POINTER_ID {
                MAX_POINTER_ID
            } else {
                pointer_id
            }),
            e.action == action,
            e.normalized_x == clamp_unit_bits(normalized_x),
            e.normalized_y == clamp_unit_bits(normalized_y),
            e.pressure == clamp_unit_bits(pressure),
    {
        let id: u8 = if pointer_id > MAX_POINTER_ID {
            MAX_POINTER_ID
        } else {
            pointer_id
        };
        TouchEvent {
            pointer_id: id,
            action,
            normalized_x: clamp_unit_f32_bits(normalized_x),
            normalized_y: clamp_unit_f32_bits(normalized_y),
            pressure: clamp_unit_f32_bits(pressure),
        }
    }

    /// Writes the event into `buf`.
    pub fn encode(&self, buf: &mut [u8; TOUCH_PACKET_SIZE])
        ensures
            final(buf)@ == self.spec_bytes(),
    {
        buf[0] = EVENT_TYPE_TOUCH;
        buf[1] = self.pointer_id;
        buf[2] = self.action.to_byte();
        write_u32_be(buf, 3, self.normalized_x);
        write_u32_be(buf, 7, self.normalized_y);
        write_u32_be(buf, 11, self.pressure);
        assert(buf@ =~= self.spec_bytes());
    }

    /// Reads a touch packet; refuses a wrong event type, then an unknown
    /// action. The pointer id is taken as it comes.
    pub fn decode(buf: &[u8; TOUCH_PACKET_SIZE]) -> (r: Result<Self, ProtocolError>)
        ensures
            r == decode_touch_event(buf@),
    {
        let event_type = buf[0];
        if event_type != EVENT_TYPE_TOUCH {
            return Err(ProtocolError::InvalidTouchEventType(event_type));
        }
        let pointer_id = buf[1];
        let action = match TouchAction::try_from(buf[2]) {
            Ok(a) => a,
            Err(e) => {
                return Err(e);
            },
        };
        let normalized_x = read_u32_be(buf, 3);
        let normalized_y = read_u32_be(buf, 7);
        let pressure = read_u32_be(buf, 11);
        Ok(TouchEvent { pointer_id, action, normalized_x, normalized_y, pressure })
    }
}

/// What decoding the 15 bytes `b` of a touch packet gives.
pub open spec fn decode_touch_event(b: Seq<u8>) -> Result<TouchEvent, ProtocolError> {
    if b[0] != EVENT_TYPE_TOUCH {
        Err(ProtocolError::InvalidTouchEventType(b[0]))
    } else {
        match action_of_byte(b[2]) {
            Err(e) => Err(e),
            Ok(action) => Ok(
                TouchEvent {
                    pointer_id: b[1],
                    action,
                    normalized_x: be_value_u32(b.subrange(3, 7)),
                    normalized_y: be_value_u32(b.subrange(7, 11)),
                    pressure: be_value_u32(b.subrange(11, 15)),
                },
            ),
        }
    }
}

/// Law: decoding the bytes of any touch event gives that event back.
pub proof fn lemma_touch_event_roundtrip(e: TouchEvent)
    ensures
        decode_touch_event(e.spec_bytes()) == Ok::<TouchEvent, ProtocolError>(e),
{
    let b = e.spec_bytes();
    assert(b.subrange(3, 7) =~= be_bytes_u32(e.normalized_x));
    assert(b.subrange(7, 11) =~= be_bytes_u32(e.normalized_y));
    assert(b.subrange(11, 15) =~= be_bytes_u32(e.pressure));
    lemma_be_u32_value_of_bytes(e.normalized_x);
    lemma_be_u32_value_of_bytes(e.normalized_y);
    lemma_be_u32_value_of_bytes(e.pressure);
}

/// Law: a 15-byte buffer that decodes to a touch event is exactly that
/// event's encoding.
pub proof fn lemma_touch_event_bytes_determined(b: Seq<u8>, e: TouchEvent)
    requires
        b.len() == TOUCH_PACKET_SIZE,
        decode_touch_event(b) == Ok::<TouchEvent, ProtocolError>(e),
    ensures
        e.spec_bytes() == b,
{
    lemma_be_u32_bytes_of_value(b.subrange(3, 7));
    lemma_be_u32_bytes_of_value(b.subrange(7, 11));
    lemma_be_u32_bytes_of_value(b.subrange(11, 15));
    assert(e.spec_bytes() =~= b);
}

/// Law: a 15-byte touch packet is refused for a first byte other than 2,
/// then for an action byte other than 0 (down), 1 (move) or 2 (up);
/// otherwise it decodes to the pointer id in byte 1, that action, and the
/// horizontal position, vertical position and pressure read from bytes 3
/// to 6, 7 to 10 and 11 to 14, most significant byte first.
pub proof fn lemma_touch_event_fields(b: Seq<u8>)
    requires
        b.len() == TOUCH_PACKET_SIZE,
    ensures
        b[0] != 2 ==> decode_touch_event(b) == Err::<TouchEvent, ProtocolError>(
            ProtocolError::InvalidTouchEventType(b[0]),
        ),
        b[0] == 2 && b[2] > 2 ==> decode_touch_event(b) == Err::<TouchEvent, ProtocolError>(
            ProtocolError::InvalidTouchAction(b[2]),
        ),
        b[0] == 2 && b[2] <= 2 ==> ({
            let e = decode_touch_event(b)->Ok_0;
            &&& decode_touch_event(b) is Ok
            &&& e.pointer_id == b[1]
            &&& e.action == (if b[2] == 0 {
                TouchAction::Down
            } else if b[2] == 1 {
                TouchAction::Move
            } else {
                TouchAction::Up
            })
            &&& e.normalized_x as int == 16777216 * (b[3] as int) + 65536 * (b[4] as int) + 256 * (
            b[5] as int) + (b[6] as int)
            &&& e.normalized_y as int == 16777216 * (b[7] as int) + 65536 * (b[8] as int) + 256 * (
            b[9] as int) + (b[10] as int)
            &&& e.pressure as int == 16777216 * (b[11] as int) + 65536 * (b[12] as int) + 256 * (
            b[13] as int) + (b[14] as int)
        }),
{
    lemma_be_u32_arith(b.subrange(3, 7));
    lemma_be_u32_arith(b.subrange(7, 11));
    lemma_be_u32_arith(b.subrange(11, 15));
}

/// The display the client announces when it connects.
#[derive(Debug, Clone, Copy, PartialEq, Eq, Structural)]
pub struct ClientConfigEvent {
    pub width: u32,
    pub height: u32,
    pub fps: u32,
    pub density: u16,
}

/// Smallest width taken from a client.
pub const MIN_CLIENT_WIDTH: u32 = 320;

/// Smallest height taken from a client.
pub const MIN_CLIENT_HEIGHT: u32 = 240;

/// Frame rates taken from a client lie between these two.
pub const MIN_CLIENT_FPS: u32 = 30;

/// See `MIN_CLIENT_FPS`.
pub const MAX_CLIENT_FPS: u32 = 240;

/// What decoding the 15 bytes `b` of a configuration packet gives: width,
/// height (both 32 bits), frame rate and density (both 16 bits), with the
/// width raised to at least 320, the height to at least 240 and the frame
/// rate brought into 30 to 240. The last two bytes are not read.
pub open spec fn decode_client_config(b: Seq<u8>) -> Result<ClientConfigEvent, ProtocolError> {
    if b[0] != EVENT_TYPE_CONFIG {
        Err(ProtocolError::InvalidConfigEventType(b[0]))
    } else {
        let w = be_value_u32(b.subrange(1, 5));
        let h = be_value_u32(b.subrange(5, 9));
        let f = be_value_u16(b.subrange(9, 11)) as u32;
        Ok(
            ClientConfigEvent {
                width: if w < MIN_CLIENT_WIDTH {
                    MIN_CLIENT_WIDTH
                } else {
                    w
                },
                height: if h < MIN_CLIENT_HEIGHT {
                    MIN_CLIENT_HEIGHT
                } else {
                    h
                },
                fps: if f < MIN_CLIENT_FPS {
                    MIN_CLIENT_FPS
                } else if f > MAX_CLIENT_FPS {
                    MAX_CLIENT_FPS
                } else {
                    f
                },
                density: be_value_u16(b.subrange(11, 13)),
            },
        )
    }
}

/// Law: a decoded configuration always lies within the accepted ranges.
pub proof fn lemma_client_config_in_range(b: Seq<u8>)
    requires
        decode_client_config(b) is Ok,
    ensures
        ({
            let c = decode_client_config(b)->Ok_0;
            &&& c.width >= MIN_CLIENT_WIDTH
            &&& c.height >= MIN_CLIENT_HEIGHT
            &&& MIN_CLIENT_FPS <= c.fps <= MAX_CLIENT_FPS
        }),
{
}

/// Law: a packet of the configuration type decodes to the width and height
/// read from bytes 1 to 4 and 5 to 8, the frame rate read from bytes 9 and
/// 10 and the density read from bytes 11 and 12 (all most significant byte
/// first), with only this changed: a width below 320 becomes 320, a height
/// below 240 becomes 240, and a frame rate outside 30 to 240 becomes the
/// nearer of the two. Any other first byte is refused with that byte.
pub proof fn lemma_client_config_fields(b: Seq<u8>)
    requires
        b.len() == CONFIG_PACKET_SIZE,
    ensures
        b[0] != 3 ==> decode_client_config(b) == Err::<ClientConfigEvent, ProtocolError>(
            ProtocolError::InvalidConfigEventType(b[0]),
        ),
        b[0] == 3 ==> ({
            let w: int = 16777216 * (b[1] as int) + 65536 * (b[2] as int) + 256 * (b[3] as int) + (
            b[4] as int);
            let h: int = 16777216 * (b[5] as int) + 65536 * (b[6] as int) + 256 * (b[7] as int) + (
            b[8] as int);
            let f: int = 256 * (b[9] as int) + (b[10] as int);
            let d: int = 256 * (b[11] as int) + (b[12] as int);
            &&& decode_client_config(b) is Ok
            &&& decode_client_config(b)->Ok_0.width as int == (if w < 320 {
                320
            } else {
                w
            })
            &&& decode_client_config(b)->Ok_0.height as int == (if h < 240 {
                240
            } else {
                h
            })
            &&& decode_client_config(b)->Ok_0.fps as int == (if f < 30 {
                30
            } else if f > 240 {
                240
            } else {
                f
            })
            &&& decode_client_config(b)->Ok_0.density as int == d
        }),
{
    lemma_be_u32_arith(b.subrange(1, 5));
    lemma_be_u32_arith(b.subrange(5, 9));
    lemma_be_u16_arith(b.subrange(9, 11));
    lemma_be_u16_arith(b.subrange(11, 13));
}

impl ClientConfigEvent {
    /// Reads a configuration packet; refuses a wrong event type.
    pub fn decode(buf: &[u8; CONFIG_PACKET_SIZE]) -> (r: Result<Self, ProtocolError>)
        ensures
            r == decode_client_config(buf@),
    {
        let event_type = buf[0];
        if event_type != EVENT_TYPE_CONFIG {
            return Err(ProtocolError::InvalidConfigEventType(event_type));
        }
        let width = read_u32_be(buf, 1);
        let height = read_u32_be(buf, 5);
        let fps: u32 = read_u16_be(buf, 9) as u32;
        let density = read_u16_be(buf, 11);
        let width: u32 = if width < MIN_CLIENT_WIDTH {
            MIN_CLIENT_WIDTH
        } else {
            width
        };
        let height: u32 = if height < MIN_CLIENT_HEIGHT {
            MIN_CLIENT_HEIGHT
        } else {
            height
        };
        let fps: u32 = if fps < MIN_CLIENT_FPS {
            MIN_CLIENT_FPS
        } else if fps > MAX_CLIENT_FPS {
            MAX_CLIENT_FPS
        } else {
            fps
        };
        Ok(ClientConfigEvent { width, height, fps, density })
    }
}

} // verus!
