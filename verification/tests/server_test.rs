use desklink::protocol::{
    ClientConfigEvent, ProtocolError, TouchAction, TouchEvent, EVENT_TYPE_CONFIG, TOUCH_PACKET_SIZE,
};
use desklink::server::{decode_client_packet, ClientPacket, ClientTracker};

#[test]
fn packets_are_told_apart() {
    let mut buf = [0u8; TOUCH_PACKET_SIZE];
    buf[0] = EVENT_TYPE_CONFIG;
    buf[1..5].copy_from_slice(&2560u32.to_be_bytes());
    buf[5..9].copy_from_slice(&1600u32.to_be_bytes());
    buf[9..11].copy_from_slice(&120u16.to_be_bytes());
    buf[11..13].copy_from_slice(&320u16.to_be_bytes());
    assert_eq!(
        decode_client_packet(&buf),
        Ok(ClientPacket::Config(ClientConfigEvent { width: 2560, height: 1600, fps: 120, density: 320 }))
    );
    let e = TouchEvent::new(1, TouchAction::Down, 0, 0, 0);
    let mut tbuf = [0u8; TOUCH_PACKET_SIZE];
    e.encode(&mut tbuf);
    assert_eq!(decode_client_packet(&tbuf), Ok(ClientPacket::Touch(e)));
    tbuf[0] = 0x09;
    assert_eq!(decode_client_packet(&tbuf), Err(ProtocolError::InvalidTouchEventType(0x09)));
}

#[test]
fn first_and_last_client() {
    let mut t = ClientTracker::new();
    assert!(t.client_connected());
    assert!(!t.client_connected());
    assert_eq!(t.active_clients(), 2);
    assert!(!t.client_disconnected());
    assert!(t.client_disconnected());
    assert_eq!(t.active_clients(), 0);
    assert!(t.client_connected());
}
