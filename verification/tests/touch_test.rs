use desklink::protocol::{TouchAction, TouchEvent};
use desklink::touch::{
    device_abs_codes, device_abs_ranges, device_event_types, device_key_codes, InputEvent,
    VirtualTouchscreen, ABS_MT_POSITION_X, ABS_MT_POSITION_Y, ABS_MT_PRESSURE, ABS_MT_SLOT,
    ABS_MT_TOUCH_MAJOR, ABS_MT_TRACKING_ID, ABS_PRESSURE, ABS_X, ABS_Y, BTN_TOUCH, EV_ABS, EV_KEY,
    EV_SYN, SYN_REPORT, VIRTUAL_COORD_MAX,
};

fn ev(type_: u16, code: u16, value: i32) -> InputEvent {
    InputEvent { type_, code, value }
}

fn touch(id: u8, action: TouchAction) -> TouchEvent {
    TouchEvent { pointer_id: id, action, normalized_x: 0, normalized_y: 0, pressure: 0 }
}

#[test]
fn touch_down_batch() {
    let mut t = VirtualTouchscreen::new(1920, 1080);
    let events = t.handle_touch(&touch(3, TouchAction::Down), 100, 200, 0);
    assert_eq!(
        events,
        vec![
            ev(EV_ABS, ABS_MT_SLOT, 3),
            ev(EV_ABS, ABS_MT_TRACKING_ID, 1),
            ev(EV_ABS, ABS_MT_POSITION_X, 100),
            ev(EV_ABS, ABS_MT_POSITION_Y, 200),
            ev(EV_ABS, ABS_MT_PRESSURE, 1),
            ev(EV_ABS, ABS_MT_TOUCH_MAJOR, 10),
            ev(EV_KEY, BTN_TOUCH, 1),
            ev(EV_ABS, ABS_X, 100),
            ev(EV_ABS, ABS_Y, 200),
            ev(EV_ABS, ABS_PRESSURE, 1),
            ev(EV_SYN, SYN_REPORT, 0),
        ]
    );
}

#[test]
fn touch_move_and_up_batches() {
    let mut t = VirtualTouchscreen::new(1920, 1080);
    t.handle_touch(&touch(0, TouchAction::Down), 1, 2, 128);
    let moved = t.handle_touch(&touch(0, TouchAction::Move), 5, 6, 200);
    assert_eq!(
        moved,
        vec![
            ev(EV_ABS, ABS_MT_SLOT, 0),
            ev(EV_ABS, ABS_MT_POSITION_X, 5),
            ev(EV_ABS, ABS_MT_POSITION_Y, 6),
            ev(EV_ABS, ABS_MT_PRESSURE, 200),
            ev(EV_ABS, ABS_X, 5),
            ev(EV_ABS, ABS_Y, 6),
            ev(EV_ABS, ABS_PRESSURE, 200),
            ev(EV_SYN, SYN_REPORT, 0),
        ]
    );
    let up = t.handle_touch(&touch(0, TouchAction::Up), 0, 0, 0);
    assert_eq!(
        up,
        vec![
            ev(EV_ABS, ABS_MT_SLOT, 0),
            ev(EV_ABS, ABS_MT_TRACKING_ID, -1),
            ev(EV_KEY, BTN_TOUCH, 0),
            ev(EV_ABS, ABS_PRESSURE, 0),
            ev(EV_SYN, SYN_REPORT, 0),
        ]
    );
}

#[test]
fn touch_button_held_while_other_finger_down() {
    let mut t = VirtualTouchscreen::new(800, 600);
    t.handle_touch(&touch(0, TouchAction::Down), 1, 1, 1);
    let second = t.handle_touch(&touch(1, TouchAction::Down), 2, 2, 2);
    assert_eq!(second[1], ev(EV_ABS, ABS_MT_TRACKING_ID, 2));
    let up = t.handle_touch(&touch(0, TouchAction::Up), 0, 0, 0);
    assert_eq!(
        up,
        vec![ev(EV_ABS, ABS_MT_SLOT, 0), ev(EV_ABS, ABS_MT_TRACKING_ID, -1), ev(EV_SYN, SYN_REPORT, 0)]
    );
    let last = t.handle_touch(&touch(1, TouchAction::Up), 0, 0, 0);
    assert_eq!(last.len(), 5);
    assert_eq!(last[2], ev(EV_KEY, BTN_TOUCH, 0));
}

#[test]
fn touch_idle_finger_and_out_of_range_slot() {
    let mut t = VirtualTouchscreen::new(800, 600);
    let moved = t.handle_touch(&touch(4, TouchAction::Move), 9, 9, 9);
    assert_eq!(moved, vec![ev(EV_ABS, ABS_MT_SLOT, 4), ev(EV_SYN, SYN_REPORT, 0)]);
    let up = t.handle_touch(&touch(4, TouchAction::Up), 9, 9, 9);
    assert_eq!(up, vec![ev(EV_ABS, ABS_MT_SLOT, 4), ev(EV_SYN, SYN_REPORT, 0)]);
    assert!(t.handle_touch(&touch(10, TouchAction::Down), 1, 1, 1).is_empty());
    // The ignored touch-down did not use up a tracking id.
    let down = t.handle_touch(&touch(9, TouchAction::Down), 1, 1, 1);
    assert_eq!(down[1], ev(EV_ABS, ABS_MT_TRACKING_ID, 1));
}

#[test]
fn touch_tracking_ids_wrap_to_one() {
    let mut t = VirtualTouchscreen::new(800, 600);
    let mut last = 0;
    for _ in 0..65534 {
        let down = t.handle_touch(&touch(0, TouchAction::Down), 0, 0, 0);
        last = down[1].value;
    }
    assert_eq!(last, 65534);
    let down = t.handle_touch(&touch(0, TouchAction::Down), 0, 0, 0);
    assert_eq!(down[1], ev(EV_ABS, ABS_MT_TRACKING_ID, 1));
}

#[test]
fn device_setup_tables() {
    assert_eq!(device_event_types(), vec![EV_SYN, EV_KEY, EV_ABS]);
    assert_eq!(device_key_codes(), vec![BTN_TOUCH]);
    let codes = device_abs_codes();
    assert_eq!(codes.len(), 9);
    for axis in device_abs_ranges() {
        assert!(codes.contains(&axis.code));
        assert_eq!(axis.minimum, 0);
    }
    let ranges = device_abs_ranges();
    assert_eq!(ranges[0].maximum, 9);
    assert_eq!(ranges[2].maximum, VIRTUAL_COORD_MAX);
}
