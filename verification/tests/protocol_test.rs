use desklink::protocol::{
    ClientConfigEvent, ProtocolError, TouchAction, TouchEvent, VideoHeader, CONFIG_PACKET_SIZE,
    EVENT_TYPE_CONFIG, EVENT_TYPE_TOUCH, MAGIC_BYTE, PAYLOAD_TYPE_VIDEO, TOUCH_PACKET_SIZE,
    VIDEO_HEADER_SIZE,
};
use desklink::protocol::clamp_unit_f32_bits;
use desklink::clock::pts_from_micros;

#[test]
fn test_video_header_serialization() {
    let payload_len: u32 = 1048576; // 1 MB NALU
    let pts: u64 = 1723608000123456; // microsecond timestamp
    let header = VideoHeader::new(payload_len, pts);

    let mut buf = [0u8; VIDEO_HEADER_SIZE];
    header.encode(&mut buf);

    assert_eq!(buf[0], MAGIC_BYTE);
    assert_eq!(buf[1], PAYLOAD_TYPE_VIDEO);

    assert_eq!(&buf[2..6], &payload_len.to_be_bytes());
    assert_eq!(&buf[6..14], &pts.to_be_bytes());

    let decoded = VideoHeader::decode(&buf).expect("Failed to decode valid header");
    assert_eq!(decoded.magic, MAGIC_BYTE);
    assert_eq!(decoded.payload_type, PAYLOAD_TYPE_VIDEO);
    assert_eq!(decoded.payload_length, payload_len);
    assert_eq!(decoded.pts, pts);
}

#[test]
fn test_touch_event_serialization() {
    let event = TouchEvent::new(
        2,
        TouchAction::Move,
        0.4567f32.to_bits(),
        0.8912f32.to_bits(),
        0.75f32.to_bits(),
    );

    let mut buf = [0u8; TOUCH_PACKET_SIZE];
    event.encode(&mut buf);

    assert_eq!(buf[0], EVENT_TYPE_TOUCH);
    assert_eq!(buf[1], 2);
    assert_eq!(buf[2], 0x01);

    let decoded = TouchEvent::decode(&buf).expect("Failed to decode valid touch event");
    assert_eq!(decoded.pointer_id, 2);
    assert_eq!(decoded.action, TouchAction::Move);
    assert!((f32::from_bits(decoded.normalized_x) - 0.4567).abs() < 1e-5);
    assert!((f32::from_bits(decoded.normalized_y) - 0.8912).abs() < 1e-5);
    assert!((f32::from_bits(decoded.pressure) - 0.75).abs() < 1e-5);
}

#[test]
fn test_touch_clamping() {
    let event = TouchEvent::new(
        15,
        TouchAction::Down,
        (-0.5f32).to_bits(),
        1.5f32.to_bits(),
        2.0f32.to_bits(),
    );
    assert_eq!(event.pointer_id, 9);
    assert_eq!(f32::from_bits(event.normalized_x), 0.0);
    assert_eq!(f32::from_bits(event.normalized_y), 1.0);
    assert_eq!(f32::from_bits(event.pressure), 1.0);
}

#[test]
fn video_header_exact_bytes() {
    let header = VideoHeader::new(0x0102_0304, 0x1112_1314_1516_1718);
    let mut buf = [0u8; VIDEO_HEADER_SIZE];
    header.encode(&mut buf);
    assert_eq!(
        buf,
        [0x44, 0x01, 0x01, 0x02, 0x03, 0x04, 0x11, 0x12, 0x13, 0x14, 0x15, 0x16, 0x17, 0x18]
    );
}

#[test]
fn video_header_roundtrip_extremes() {
    for (len, pts) in [(0u32, 0u64), (u32::MAX, u64::MAX), (7, 1)] {
        let h = VideoHeader::new(len, pts);
        let mut buf = [0u8; VIDEO_HEADER_SIZE];
        h.encode(&mut buf);
        assert_eq!(VideoHeader::decode(&buf), Ok(h));
    }
}

#[test]
fn video_header_rejects_bad_magic_first() {
    let mut buf = [0u8; VIDEO_HEADER_SIZE];
    buf[0] = 0x45;
    buf[1] = 0x07;
    assert_eq!(VideoHeader::decode(&buf), Err(ProtocolError::InvalidMagic(0x45)));
}

#[test]
fn video_header_rejects_bad_payload_type() {
    let mut buf = [0u8; VIDEO_HEADER_SIZE];
    buf[0] = MAGIC_BYTE;
    buf[1] = 0x07;
    assert_eq!(VideoHeader::decode(&buf), Err(ProtocolError::InvalidPayloadType(0x07)));
}

#[test]
fn video_header_new_now_is_stamped() {
    let h = VideoHeader::new_now(42);
    assert_eq!(h.magic, MAGIC_BYTE);
    assert_eq!(h.payload_type, PAYLOAD_TYPE_VIDEO);
    assert_eq!(h.payload_length, 42);
    // 2020-01-01 in microseconds since the epoch.
    assert!(h.pts > 1_577_836_800_000_000);
}

#[test]
fn touch_event_roundtrip_and_bytes() {
    let e = TouchEvent::new(3, TouchAction::Up, 0x3f00_0000, 0x3e80_0000, 0x3f80_0000);
    let mut buf = [0u8; TOUCH_PACKET_SIZE];
    e.encode(&mut buf);
    assert_eq!(
        buf,
        [0x02, 3, 0x02, 0x3f, 0x00, 0x00, 0x00, 0x3e, 0x80, 0x00, 0x00, 0x3f, 0x80, 0x00, 0x00]
    );
    assert_eq!(TouchEvent::decode(&buf), Ok(e));
}

#[test]
fn touch_event_rejects_wrong_type() {
    let mut buf = [0u8; TOUCH_PACKET_SIZE];
    buf[0] = 0x05;
    assert_eq!(TouchEvent::decode(&buf), Err(ProtocolError::InvalidTouchEventType(0x05)));
}

#[test]
fn touch_event_rejects_unknown_action() {
    let mut buf = [0u8; TOUCH_PACKET_SIZE];
    buf[0] = EVENT_TYPE_TOUCH;
    buf[2] = 0x03;
    assert_eq!(TouchEvent::decode(&buf), Err(ProtocolError::InvalidTouchAction(0x03)));
}

#[test]
fn touch_event_decode_keeps_large_pointer_id() {
    let mut buf = [0u8; TOUCH_PACKET_SIZE];
    buf[0] = EVENT_TYPE_TOUCH;
    buf[1] = 200;
    let e = TouchEvent::decode(&buf).unwrap();
    assert_eq!(e.pointer_id, 200);
    assert_eq!(e.action, TouchAction::Down);
}

#[test]
fn touch_action_bytes() {
    assert_eq!(TouchAction::try_from(0), Ok(TouchAction::Down));
    assert_eq!(TouchAction::try_from(1), Ok(TouchAction::Move));
    assert_eq!(TouchAction::try_from(2), Ok(TouchAction::Up));
    assert_eq!(TouchAction::try_from(9), Err(ProtocolError::InvalidTouchAction(9)));
    assert_eq!(TouchAction::Up.to_byte(), 2);
}

#[test]
fn clamp_unit_matches_f32_clamp() {
    let samples: [f32; 12] = [
        -0.5,
        0.0,
        -0.0,
        0.25,
        1.0,
        1.0000001,
        7.5,
        f32::INFINITY,
        f32::NEG_INFINITY,
        f32::MIN_POSITIVE,
        -f32::MIN_POSITIVE,
        0.9999999,
    ];
    for x in samples {
        let got = clamp_unit_f32_bits(x.to_bits());
        assert_eq!(got, x.clamp(0.0, 1.0).to_bits(), "clamp of {}", x);
    }
    let nan = f32::NAN.to_bits();
    assert_eq!(clamp_unit_f32_bits(nan), nan);
    let neg_nan = (-f32::NAN).to_bits();
    assert_eq!(clamp_unit_f32_bits(neg_nan), neg_nan);
}

#[test]
fn client_config_decode_clamps() {
    let mut buf = [0u8; CONFIG_PACKET_SIZE];
    buf[0] = EVENT_TYPE_CONFIG;
    buf[1..5].copy_from_slice(&100u32.to_be_bytes());
    buf[5..9].copy_from_slice(&2000u32.to_be_bytes());
    buf[9..11].copy_from_slice(&500u16.to_be_bytes());
    buf[11..13].copy_from_slice(&420u16.to_be_bytes());
    let c = ClientConfigEvent::decode(&buf).unwrap();
    assert_eq!(c, ClientConfigEvent { width: 320, height: 2000, fps: 240, density: 420 });

    buf[1..5].copy_from_slice(&2560u32.to_be_bytes());
    buf[5..9].copy_from_slice(&10u32.to_be_bytes());
    buf[9..11].copy_from_slice(&12u16.to_be_bytes());
    let c = ClientConfigEvent::decode(&buf).unwrap();
    assert_eq!(c, ClientConfigEvent { width: 2560, height: 240, fps: 30, density: 420 });

    buf[9..11].copy_from_slice(&120u16.to_be_bytes());
    assert_eq!(ClientConfigEvent::decode(&buf).unwrap().fps, 120);
}

#[test]
fn client_config_rejects_wrong_type() {
    let buf = [0x02u8; CONFIG_PACKET_SIZE];
    assert_eq!(ClientConfigEvent::decode(&buf), Err(ProtocolError::InvalidConfigEventType(0x02)));
}

#[test]
fn pts_conversion() {
    assert_eq!(pts_from_micros(None), 0);
    assert_eq!(pts_from_micros(Some(1_723_608_000_123_456)), 1_723_608_000_123_456);
    assert_eq!(pts_from_micros(Some(u64::MAX as u128 + 7)), 6);
}
