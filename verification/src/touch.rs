//! The multi-touch slot tracker behind the virtual touchscreen: it turns
//! each touch packet into the batch of Linux input events (multi-touch
//! protocol B, with single-touch emulation) that the uinput device is fed.
use vstd::prelude::*;
use crate::protocol::{TouchAction, TouchEvent};

verus! {

/// Event type: synchronisation.
pub const EV_SYN: u16 = 0x00;

/// Event type: key or button.
pub const EV_KEY: u16 = 0x01;

/// Event type: absolute axis.
pub const EV_ABS: u16 = 0x03;

/// `EV_SYN` code that closes a batch.
pub const SYN_REPORT: u16 = 0x00;

/// `EV_KEY` code of the touch button.
pub const BTN_TOUCH: u16 = 0x14a;

/// Single-touch horizontal axis.
pub const ABS_X: u16 = 0x00;

/// Single-touch vertical axis.
pub const ABS_Y: u16 = 0x01;

/// Single-touch pressure axis.
pub const ABS_PRESSURE: u16 = 0x18;

/// Selects the slot that the following multi-touch events are about.
pub const ABS_MT_SLOT: u16 = 0x2f;

/// Contact size.
pub const ABS_MT_TOUCH_MAJOR: u16 = 0x30;

/// Multi-touch horizontal axis.
pub const ABS_MT_POSITION_X: u16 = 0x35;

/// Multi-touch vertical axis.
pub const ABS_MT_POSITION_Y: u16 = 0x36;

/// Tracking id of the contact in the current slot; -1 lifts it.
pub const ABS_MT_TRACKING_ID: u16 = 0x39;

/// Multi-touch pressure axis.
pub const ABS_MT_PRESSURE: u16 = 0x3a;

/// Number of contact slots (ten fingers).
pub const MAX_SLOTS: usize = 10;

/// Largest coordinate on either axis of the virtual touchscreen.
pub const VIRTUAL_COORD_MAX: i32 = 32767;

/// Tracking ids run from 1 up to one less than this, then start over at 1.
pub const TRACKING_ID_MODULUS: i32 = 65535;

/// Contact size reported on touch-down.
pub const TOUCH_MAJOR_DOWN: i32 = 10;

/// One Linux input event, without its timestamp (the device fills it in).
#[derive(Debug, Clone, Copy, PartialEq, Eq, Structural)]
pub struct InputEvent {
    pub type_: u16,
    pub code: u16,
    pub value: i32,
}

/// The event of type `type_`, code `code` and value `value`.
pub open spec fn ev(type_: u16, code: u16, value: i32) -> InputEvent {
    InputEvent { type_, code, value }
}

/// Builds an input event.
pub fn make_event(type_: u16, code: u16, value: i32) -> (e: InputEvent)
    ensures
        e == ev(type_, code, value),
{
    InputEvent { type_, code, value }
}

/// The tracker's state as the contracts see it: for each slot whether a
/// finger is down and its tracking id, and the id the next touch-down gets.
pub struct SlotsView {
    pub active: Seq<bool>,
    pub tracking: Seq<i32>,
    pub next_id: i32,
}

/// The tracker of the virtual touchscreen's contacts.
pub struct VirtualTouchscreen {
    width: u32,
    height: u32,
    active_touches: [bool; MAX_SLOTS],
    tracking_ids: [i32; MAX_SLOTS],
    next_tracking_id: i32,
}

/// The state of a fresh tracker: no finger down, every tracking id -1, and
/// the first touch-down gets id 1.
pub open spec fn initial_slots() -> SlotsView {
    SlotsView {
        active: Seq::new(MAX_SLOTS as nat, |i: int| false),
        tracking: Seq::new(MAX_SLOTS as nat, |i: int| -1i32),
        next_id: 1,
    }
}

/// The invariant of the tracker: ten slots; a slot is down exactly when its
/// tracking id is not -1, and then its id lies in 1 to 65534; the next id
/// lies in 1 to 65534 as well.
pub open spec fn slots_wf(s: SlotsView) -> bool {
    &&& s.active.len() == MAX_SLOTS
    &&& s.tracking.len() == MAX_SLOTS
    &&& 1 <= s.next_id < TRACKING_ID_MODULUS
    &&& forall|i: int|
        0 <= i < MAX_SLOTS ==> (#[trigger] s.active[i] <==> s.tracking[i] != -1) && (s.active[i]
            ==> 1 <= s.tracking[i] < TRACKING_ID_MODULUS)
}

/// Some finger other than none is down in `active`.
pub open spec fn any_active(active: Seq<bool>) -> bool {
    exists|i: int| 0 <= i < active.len() && #[trigger] active[i]
}

/// The id that follows `id`: one more, wrapping from 65534 back to 1.
pub open spec fn following_id(id: i32) -> i32 {
    if (id + 1) % (TRACKING_ID_MODULUS as int) == 0 {
        1
    } else {
        ((id + 1) % (TRACKING_ID_MODULUS as int)) as i32
    }
}

/// A pressure of at least 1, as reported while a finger is down.
pub open spec fn contact_pressure(p: i32) -> i32 {
    if p < 1 {
        1
    } else {
        p
    }
}

/// What one touch packet does: the state after it and the batch of events
/// it produces. `x`, `y` and `p` are the packet's position and pressure
/// already scaled to the device's axes. A slot beyond the tenth is ignored.
/// Otherwise the batch selects the slot, then
/// - on a touch-down: gives the slot the next tracking id, reports position,
///   pressure (at least 1) and contact size, presses the touch button and
///   reports the single-touch position and pressure;
/// - on a move of a finger that is down: reports the new position and
///   pressure, multi-touch and single-touch;
/// - on a lift of a finger that is down: lifts the slot (tracking id -1),
///   and releases the touch button and zeroes the single-touch pressure if
///   no finger is down any more;
/// - a move or a lift of a finger that is not down adds nothing;
/// and the batch closes with a report.
pub open spec fn touch_step(
    s: SlotsView,
    slot: int,
    action: TouchAction,
    x: i32,
    y: i32,
    p: i32,
) -> (SlotsView, Seq<InputEvent>) {
    if slot >= MAX_SLOTS {
        (s, Seq::empty())
    } else {
        let select = seq![ev(EV_ABS, ABS_MT_SLOT, slot as i32)];
        let report = seq![ev(EV_SYN, SYN_REPORT, 0)];
        let cp = contact_pressure(p);
        match action {
            TouchAction::Down => {
                let id = s.next_id;
                (
                    SlotsView {
                        active: s.active.update(slot, true),
                        tracking: s.tracking.update(slot, id),
                        next_id: following_id(id),
                    },
                    select + seq![
                        ev(EV_ABS, ABS_MT_TRACKING_ID, id),
                        ev(EV_ABS, ABS_MT_POSITION_X, x),
                        ev(EV_ABS, ABS_MT_POSITION_Y, y),
                        ev(EV_ABS, ABS_MT_PRESSURE, cp),
                        ev(EV_ABS, ABS_MT_TOUCH_MAJOR, TOUCH_MAJOR_DOWN),
                        ev(EV_KEY, BTN_TOUCH, 1),
                        ev(EV_ABS, ABS_X, x),
                        ev(EV_ABS, ABS_Y, y),
                        ev(EV_ABS, ABS_PRESSURE, cp),
                    ] + report,
                )
            },
            TouchAction::Move => {
                if s.active[slot] {
                    (
                        s,
                        select + seq![
                            ev(EV_ABS, ABS_MT_POSITION_X, x),
                            ev(EV_ABS, ABS_MT_POSITION_Y, y),
                            ev(EV_ABS, ABS_MT_PRESSURE, cp),
                            ev(EV_ABS, ABS_X, x),
                            ev(EV_ABS, ABS_Y, y),
                            ev(EV_ABS, ABS_PRESSURE, cp),
                        ] + report,
                    )
                } else {
                    (s, select + report)
                }
            },
            TouchAction::Up => {
                if s.active[slot] {
                    let active = s.active.update(slot, false);
                    let lift = seq![ev(EV_ABS, ABS_MT_TRACKING_ID, -1i32)];
                    let release = if any_active(active) {
                        Seq::empty()
                    } else {
                        seq![ev(EV_KEY, BTN_TOUCH, 0), ev(EV_ABS, ABS_PRESSURE, 0)]
                    };
                    (
                        SlotsView {
                            active,
                            tracking: s.tracking.update(slot, -1i32),
                            next_id: s.next_id,
                        },
                        select + lift + release + report,
                    )
                } else {
                    (s, select + report)
                }
            },
        }
    }
}

/// Law: every packet keeps the tracker's invariant.
pub proof fn lemma_touch_step_keeps_invariant(
    s: SlotsView,
    slot: int,
    action: TouchAction,
    x: i32,
    y: i32,
    p: i32,
)
    requires
        slots_wf(s),
        0 <= slot,
    ensures
        slots_wf(touch_step(s, slot, action, x, y, p).0),
{
    let t = touch_step(s, slot, action, x, y, p).0;
    if slot < MAX_SLOTS {
        assert forall|i: int| 0 <= i < MAX_SLOTS implies (#[trigger] t.active[i] <==> t.tracking[i]
            != -1) && (t.active[i] ==> 1 <= t.tracking[i] < TRACKING_ID_MODULUS) by {
            if i != slot {
                assert(t.active[i] == s.active[i] && t.tracking[i] == s.tracking[i]);
            }
        }
    }
}

/// Law: a packet for a slot beyond the tenth changes nothing and produces
/// no event; any other packet produces a batch that starts by selecting its
/// slot and ends with a report.
pub proof fn lemma_touch_batch_framing(
    s: SlotsView,
    slot: int,
    action: TouchAction,
    x: i32,
    y: i32,
    p: i32,
)
    requires
        0 <= slot,
    ensures
        slot >= MAX_SLOTS ==> touch_step(s, slot, action, x, y, p) == (s, Seq::<InputEvent>::empty()),
        slot < MAX_SLOTS ==> {
            let b = touch_step(s, slot, action, x, y, p).1;
            &&& b.len() >= 2
            &&& b[0] == ev(EV_ABS, ABS_MT_SLOT, slot as i32)
            &&& b[b.len() - 1] == ev(EV_SYN, SYN_REPORT, 0)
        },
{
}

/// Law: a move or a lift of a finger that is not down changes nothing and
/// produces only the slot selection and the report.
pub proof fn lemma_touch_idle_finger_ignored(
    s: SlotsView,
    slot: int,
    action: TouchAction,
    x: i32,
    y: i32,
    p: i32,
)
    requires
        slots_wf(s),
        0 <= slot < MAX_SLOTS,
        !s.active[slot],
        action != TouchAction::Down,
    ensures
        touch_step(s, slot, action, x, y, p) == (
            s,
            seq![ev(EV_ABS, ABS_MT_SLOT, slot as i32), ev(EV_SYN, SYN_REPORT, 0)],
        ),
{
    assert(touch_step(s, slot, action, x, y, p).1 =~= seq![
        ev(EV_ABS, ABS_MT_SLOT, slot as i32),
        ev(EV_SYN, SYN_REPORT, 0),
    ]);
}

/// Law: a touch-down followed by a lift of the same finger leaves that slot
/// free again (tracking id -1) and every other slot as it was; the lift
/// batch lifts the slot's contact.
pub proof fn lemma_touch_down_then_up(
    s: SlotsView,
    slot: int,
    x1: i32,
    y1: i32,
    p1: i32,
    x2: i32,
    y2: i32,
    p2: i32,
)
    requires
        slots_wf(s),
        0 <= slot < MAX_SLOTS,
    ensures
        ({
            let after_down = touch_step(s, slot, TouchAction::Down, x1, y1, p1).0;
            let (after_up, lift) = touch_step(after_down, slot, TouchAction::Up, x2, y2, p2);
            &&& after_up.active == s.active.update(slot, false)
            &&& after_up.tracking == s.tracking.update(slot, -1i32)
            &&& lift[1] == ev(EV_ABS, ABS_MT_TRACKING_ID, -1i32)
        }),
{
    let after_down = touch_step(s, slot, TouchAction::Down, x1, y1, p1).0;
    let after_up = touch_step(after_down, slot, TouchAction::Up, x2, y2, p2).0;
    assert(after_up.active =~= s.active.update(slot, false));
    assert(after_up.tracking =~= s.tracking.update(slot, -1i32));
}

/// Law: lifting a finger releases the touch button (and zeroes the
/// single-touch pressure) exactly when no other finger is down.
pub proof fn lemma_touch_release_when_last_lifted(
    s: SlotsView,
    slot: int,
    x: i32,
    y: i32,
    p: i32,
)
    requires
        slots_wf(s),
        0 <= slot < MAX_SLOTS,
        s.active[slot],
    ensures
        ({
            let b = touch_step(s, slot, TouchAction::Up, x, y, p).1;
            let others_down = exists|i: int| 0 <= i < MAX_SLOTS && i != slot && #[trigger] s.active[i];
            &&& !others_down ==> b.len() == 5 && b[2] == ev(EV_KEY, BTN_TOUCH, 0) && b[3] == ev(
                EV_ABS,
                ABS_PRESSURE,
                0,
            )
            &&& others_down ==> b.len() == 3
        }),
{
    let active = s.active.update(slot, false);
    if exists|i: int| 0 <= i < MAX_SLOTS && i != slot && #[trigger] s.active[i] {
        let i = choose|i: int| 0 <= i < MAX_SLOTS && i != slot && #[trigger] s.active[i];
        assert(active[i]);
    } else {
        assert forall|i: int| 0 <= i < active.len() implies !#[trigger] active[i] by {
            if i != slot {
                assert(!s.active[i]);
            }
        }
    }
}

/// Law: the tracking id a touch-down hands out is never the one the next
/// touch-down will get.
pub proof fn lemma_touch_down_id_fresh(s: SlotsView, slot: int, x: i32, y: i32, p: i32)
    requires
        slots_wf(s),
        0 <= slot < MAX_SLOTS,
    ensures
        ({
            let t = touch_step(s, slot, TouchAction::Down, x, y, p).0;
            &&& t.tracking[slot] == s.next_id
            &&& t.next_id != s.next_id
            &&& t.active[slot]
        }),
{
}

/// Law: a move of a finger that is down reports its new position and its
/// pressure (raised to at least 1), multi-touch and single-touch, in the
/// batch of its slot, and changes no slot.
pub proof fn lemma_touch_move_reports_position(s: SlotsView, slot: int, x: i32, y: i32, p: i32)
    requires
        0 <= slot < MAX_SLOTS,
        s.active[slot],
    ensures
        ({
            let q: i32 = if p >= 1 {
                p
            } else {
                1i32
            };
            touch_step(s, slot, TouchAction::Move, x, y, p) == (
                s,
                seq![
                    ev(EV_ABS, ABS_MT_SLOT, slot as i32),
                    ev(EV_ABS, ABS_MT_POSITION_X, x),
                    ev(EV_ABS, ABS_MT_POSITION_Y, y),
                    ev(EV_ABS, ABS_MT_PRESSURE, q),
                    ev(EV_ABS, ABS_X, x),
                    ev(EV_ABS, ABS_Y, y),
                    ev(EV_ABS, ABS_PRESSURE, q),
                    ev(EV_SYN, SYN_REPORT, 0),
                ],
            )
        }),
{
    let q: i32 = if p >= 1 {
        p
    } else {
        1i32
    };
    assert(touch_step(s, slot, TouchAction::Move, x, y, p).1 =~= seq![
        ev(EV_ABS, ABS_MT_SLOT, slot as i32),
        ev(EV_ABS, ABS_MT_POSITION_X, x),
        ev(EV_ABS, ABS_MT_POSITION_Y, y),
        ev(EV_ABS, ABS_MT_PRESSURE, q),
        ev(EV_ABS, ABS_X, x),
        ev(EV_ABS, ABS_Y, y),
        ev(EV_ABS, ABS_PRESSURE, q),
        ev(EV_SYN, SYN_REPORT, 0),
    ]);
}

/// Law: a touch-down in any of the ten slots marks the slot down with the
/// id the tracker had ready, readies the next id (one more, or 1 after
/// 65534), leaves every other slot as it was, and reports, in the batch of
/// its slot, the id, the position, the pressure (raised to at least 1), the
/// contact size, the button press and the single-touch position and
/// pressure.
pub proof fn lemma_touch_down_reports_contact(s: SlotsView, slot: int, x: i32, y: i32, p: i32)
    requires
        slots_wf(s),
        0 <= slot < MAX_SLOTS,
    ensures
        ({
            let q: i32 = if p >= 1 {
                p
            } else {
                1i32
            };
            let (t, b) = touch_step(s, slot, TouchAction::Down, x, y, p);
            &&& t.next_id == (if s.next_id == 65534 {
                1i32
            } else {
                (s.next_id + 1) as i32
            })
            &&& t.active.len() == MAX_SLOTS && t.tracking.len() == MAX_SLOTS
            &&& t.active[slot] && t.tracking[slot] == s.next_id
            &&& forall|i: int|
                0 <= i < MAX_SLOTS && i != slot ==> #[trigger] t.active[i] == s.active[i]
                    && t.tracking[i] == s.tracking[i]
            &&& b == seq![
                ev(EV_ABS, ABS_MT_SLOT, slot as i32),
                ev(EV_ABS, ABS_MT_TRACKING_ID, s.next_id),
                ev(EV_ABS, ABS_MT_POSITION_X, x),
                ev(EV_ABS, ABS_MT_POSITION_Y, y),
                ev(EV_ABS, ABS_MT_PRESSURE, q),
                ev(EV_ABS, ABS_MT_TOUCH_MAJOR, 10i32),
                ev(EV_KEY, BTN_TOUCH, 1i32),
                ev(EV_ABS, ABS_X, x),
                ev(EV_ABS, ABS_Y, y),
                ev(EV_ABS, ABS_PRESSURE, q),
                ev(EV_SYN, SYN_REPORT, 0),
            ]
        }),
{
    let q: i32 = if p >= 1 {
        p
    } else {
        1i32
    };
    assert(touch_step(s, slot, TouchAction::Down, x, y, p).1 =~= seq![
        ev(EV_ABS, ABS_MT_SLOT, slot as i32),
        ev(EV_ABS, ABS_MT_TRACKING_ID, s.next_id),
        ev(EV_ABS, ABS_MT_POSITION_X, x),
        ev(EV_ABS, ABS_MT_POSITION_Y, y),
        ev(EV_ABS, ABS_MT_PRESSURE, q),
        ev(EV_ABS, ABS_MT_TOUCH_MAJOR, 10i32),
        ev(EV_KEY, BTN_TOUCH, 1i32),
        ev(EV_ABS, ABS_X, x),
        ev(EV_ABS, ABS_Y, y),
        ev(EV_ABS, ABS_PRESSURE, q),
        ev(EV_SYN, SYN_REPORT, 0),
    ]);
}

/// Law: lifting a finger that is down frees its slot (tracking id -1),
/// keeps every other slot and the next id, and reports, in the batch of
/// its slot, the lift, followed by the button release and a zero
/// single-touch pressure when no other finger is down.
pub proof fn lemma_touch_up_lifts_contact(s: SlotsView, slot: int, x: i32, y: i32, p: i32)
    requires
        slots_wf(s),
        0 <= slot < MAX_SLOTS,
        s.active[slot],
    ensures
        ({
            let (t, b) = touch_step(s, slot, TouchAction::Up, x, y, p);
            let others_down = exists|i: int| 0 <= i < MAX_SLOTS && i != slot && #[trigger] s.active[i];
            &&& t.next_id == s.next_id
            &&& t.active.len() == MAX_SLOTS && t.tracking.len() == MAX_SLOTS
            &&& !t.active[slot] && t.tracking[slot] == -1
            &&& forall|i: int|
                0 <= i < MAX_SLOTS && i != slot ==> #[trigger] t.active[i] == s.active[i]
                    && t.tracking[i] == s.tracking[i]
            &&& others_down ==> b == seq![
                ev(EV_ABS, ABS_MT_SLOT, slot as i32),
                ev(EV_ABS, ABS_MT_TRACKING_ID, -1i32),
                ev(EV_SYN, SYN_REPORT, 0),
            ]
            &&& !others_down ==> b == seq![
                ev(EV_ABS, ABS_MT_SLOT, slot as i32),
                ev(EV_ABS, ABS_MT_TRACKING_ID, -1i32),
                ev(EV_KEY, BTN_TOUCH, 0i32),
                ev(EV_ABS, ABS_PRESSURE, 0i32),
                ev(EV_SYN, SYN_REPORT, 0),
            ]
        }),
{
    let active = s.active.update(slot, false);
    let b = touch_step(s, slot, TouchAction::Up, x, y, p).1;
    if exists|i: int| 0 <= i < MAX_SLOTS && i != slot && #[trigger] s.active[i] {
        let i = choose|i: int| 0 <= i < MAX_SLOTS && i != slot && #[trigger] s.active[i];
        assert(active[i]);
        assert(b =~= seq![
            ev(EV_ABS, ABS_MT_SLOT, slot as i32),
            ev(EV_ABS, ABS_MT_TRACKING_ID, -1i32),
            ev(EV_SYN, SYN_REPORT, 0),
        ]);
    } else {
        assert forall|i: int| 0 <= i < active.len() implies !#[trigger] active[i] by {
            if i != slot {
                assert(!s.active[i]);
            }
        }
        assert(b =~= seq![
            ev(EV_ABS, ABS_MT_SLOT, slot as i32),
            ev(EV_ABS, ABS_MT_TRACKING_ID, -1i32),
            ev(EV_KEY, BTN_TOUCH, 0i32),
            ev(EV_ABS, ABS_PRESSURE, 0i32),
            ev(EV_SYN, SYN_REPORT, 0),
        ]);
    }
}

/// One packet as the tracker sees it: slot, action, and position and
/// pressure scaled to the device's axes.
pub type TouchInput = (int, TouchAction, i32, i32, i32);

/// The tracker after the packets `ps`, from the state `s`, and every event
/// it produced, in order.
pub open spec fn touch_run(s: SlotsView, ps: Seq<TouchInput>) -> (SlotsView, Seq<InputEvent>)
    decreases ps.len(),
{
    if ps.len() == 0 {
        (s, Seq::empty())
    } else {
        let (s1, e1) = touch_run(s, ps.drop_last());
        let p = ps.last();
        let (s2, e2) = touch_step(s1, p.0, p.1, p.2, p.3, p.4);
        (s2, e1 + e2)
    }
}

/// `p` is a touch-down the tracker takes (its slot is one of the ten).
pub open spec fn is_counted_down(p: TouchInput) -> bool {
    p.1 == TouchAction::Down && 0 <= p.0 < MAX_SLOTS
}

/// How many touch-downs among `ps` the tracker takes.
pub open spec fn count_downs(ps: Seq<TouchInput>) -> nat
    decreases ps.len(),
{
    if ps.len() == 0 {
        0
    } else {
        count_downs(ps.drop_last()) + if is_counted_down(ps.last()) {
            1nat
        } else {
            0nat
        }
    }
}

/// `e` presses or releases the touch button.
pub open spec fn is_button_event(e: InputEvent) -> bool {
    e.type_ == EV_KEY && e.code == BTN_TOUCH
}

/// The value of the last touch-button event in `es`, if there is one.
pub open spec fn last_button(es: Seq<InputEvent>) -> Option<i32>
    decreases es.len(),
{
    if es.len() == 0 {
        None
    } else if is_button_event(es.last()) {
        Some(es.last().value)
    } else {
        last_button(es.drop_last())
    }
}

/// The last button event of two batches is that of the second, if it has
/// one.
proof fn lemma_last_button_concat(a: Seq<InputEvent>, b: Seq<InputEvent>)
    ensures
        last_button(a + b) == (match last_button(b) {
            Some(v) => Some(v),
            None => last_button(a),
        }),
    decreases b.len(),
{
    if b.len() == 0 {
        assert(a + b =~= a);
    } else {
        assert((a + b).drop_last() =~= a + b.drop_last());
        lemma_last_button_concat(a, b.drop_last());
    }
}

/// The id after the id for `n` touch-downs is the id for `n + 1`.
proof fn lemma_following_id_counts(n: nat)
    ensures
        following_id((n % 65534 + 1) as i32) == ((n + 1) % 65534 + 1) as i32,
{
    let m = n % 65534;
    assert(0 <= m < 65534);
    assert((n + 1) % 65534 == if m == 65533 {
        0
    } else {
        m + 1
    }) by (nonlinear_arith)
        requires
            m == n % 65534,
            0 <= m < 65534,
    ;
}

/// The button event a single packet's batch ends on, if any: a press on a
/// touch-down, a release when the last finger lifts.
proof fn lemma_step_button(s: SlotsView, slot: int, action: TouchAction, x: i32, y: i32, p: i32)
    requires
        slots_wf(s),
        0 <= slot,
    ensures
        ({
            let (t, b) = touch_step(s, slot, action, x, y, p);
            &&& slot < MAX_SLOTS && action == TouchAction::Down ==> last_button(b) == Some(1i32)
            &&& slot < MAX_SLOTS && action == TouchAction::Up && s.active[slot] && !any_active(
                t.active,
            ) ==> last_button(b) == Some(0i32)
            &&& !(slot < MAX_SLOTS && action == TouchAction::Down) && !(slot < MAX_SLOTS && action
                == TouchAction::Up && s.active[slot] && !any_active(t.active)) ==> last_button(b)
                is None
        }),
{
    reveal_with_fuel(last_button, 12);
    let (t, b) = touch_step(s, slot, action, x, y, p);
    if slot < MAX_SLOTS {
        assert(b.len() <= 11);
    }
}

/// Law: from a fresh tracker, over any packets, the invariant holds; the
/// next touch-down gets id `n % 65534 + 1` after `n` counted touch-downs
/// (so ids run 1 to 65534 and start over); and the last touch-button event
/// written is a press exactly while some finger is down.
pub proof fn lemma_touch_run(ps: Seq<TouchInput>)
    requires
        forall|i: int| 0 <= i < ps.len() ==> 0 <= #[trigger] ps[i].0,
    ensures
        ({
            let (s, es) = touch_run(initial_slots(), ps);
            &&& slots_wf(s)
            &&& s.next_id == (count_downs(ps) % 65534 + 1) as i32
            &&& any_active(s.active) <==> last_button(es) == Some(1i32)
        }),
    decreases ps.len(),
{
    if ps.len() == 0 {
        let s = initial_slots();
        assert(!any_active(s.active)) by {
            assert forall|i: int| 0 <= i < s.active.len() implies !#[trigger] s.active[i] by {}
        }
    } else {
        let prev = ps.drop_last();
        assert forall|i: int| 0 <= i < prev.len() implies 0 <= #[trigger] prev[i].0 by {
            assert(prev[i] == ps[i]);
        }
        lemma_touch_run(prev);
        let (s1, e1) = touch_run(initial_slots(), prev);
        let p = ps.last();
        assert(0 <= p.0) by {
            assert(ps[ps.len() - 1] == p);
        }
        let (s2, e2) = touch_step(s1, p.0, p.1, p.2, p.3, p.4);
        lemma_touch_step_keeps_invariant(s1, p.0, p.1, p.2, p.3, p.4);
        lemma_step_button(s1, p.0, p.1, p.2, p.3, p.4);
        lemma_last_button_concat(e1, e2);
        if is_counted_down(p) {
            lemma_following_id_counts(count_downs(prev));
            assert(s2.active[p.0]);
        } else if p.0 < MAX_SLOTS && p.1 == TouchAction::Up && s1.active[p.0] {
            if any_active(s2.active) {
                let i = choose|i: int| 0 <= i < s2.active.len() && #[trigger] s2.active[i];
                assert(s1.active[i]);
            }
            assert(any_active(s1.active)) by {
                assert(s1.active[p.0]);
            }
        }
    }
}

/// Law: the touch-down at position `i` of a packet run from a fresh
/// tracker gets the tracking id `n % 65534 + 1`, `n` the number of
/// counted touch-downs before it: ids run 1, 2, ..., 65534, 1, ...
pub proof fn lemma_touch_run_down_ids(ps: Seq<TouchInput>, i: int)
    requires
        forall|j: int| 0 <= j < ps.len() ==> 0 <= #[trigger] ps[j].0,
        0 <= i < ps.len(),
        is_counted_down(ps[i]),
    ensures
        ({
            let s = touch_run(initial_slots(), ps.take(i)).0;
            let b = touch_step(s, ps[i].0, ps[i].1, ps[i].2, ps[i].3, ps[i].4).1;
            &&& b[1] == ev(EV_ABS, ABS_MT_TRACKING_ID, (count_downs(ps.take(i)) % 65534 + 1) as i32)
            &&& 1 <= count_downs(ps.take(i)) % 65534 + 1 <= 65534
        }),
{
    let pre = ps.take(i);
    assert forall|j: int| 0 <= j < pre.len() implies 0 <= #[trigger] pre[j].0 by {
        assert(pre[j] == ps[j]);
    }
    lemma_touch_run(pre);
}

impl VirtualTouchscreen {
    /// The tracker's state.
    pub closed spec fn view_slots(&self) -> SlotsView {
        SlotsView {
            active: self.active_touches@,
            tracking: self.tracking_ids@,
            next_id: self.next_tracking_id,
        }
    }

    /// The width the screen was made for.
    pub closed spec fn spec_width(&self) -> u32 {
        self.width
    }

    /// The height the screen was made for.
    pub closed spec fn spec_height(&self) -> u32 {
        self.height
    }

    /// The tracker keeps its invariant.
    pub open spec fn wf(&self) -> bool {
        slots_wf(self.view_slots())
    }

    /// A tracker for a `width` by `height` screen, with no finger down.
    pub fn new(width: u32, height: u32) -> (t: Self)
        ensures
            t.wf(),
            t.view_slots() == initial_slots(),
            t.spec_width() == width,
            t.spec_height() == height,
    {
        let t = VirtualTouchscreen {
            width,
            height,
            active_touches: [false; MAX_SLOTS],
            tracking_ids: [-1i32; MAX_SLOTS],
            next_tracking_id: 1,
        };
        assert(t.view_slots().active =~= initial_slots().active);
        assert(t.view_slots().tracking =~= initial_slots().tracking);
        t
    }

    /// Whether any finger is down.
    fn any_touch_active(&self) -> (r: bool)
        ensures
            r == any_active(self.active_touches@),
    {
        let mut i: usize = 0;
        while i < MAX_SLOTS
            invariant
                i <= MAX_SLOTS,
                self.active_touches@.len() == MAX_SLOTS,
                forall|j: int| 0 <= j < i ==> !self.active_touches@[j],
            decreases MAX_SLOTS - i,
        {
            if self.active_touches[i] {
                return true;
            }
            i = i + 1;
        }
        false
    }

    /// Applies one touch packet, whose position and pressure the caller has
    /// already scaled to the device's axes (`abs_x`, `abs_y`, `pressure`),
    /// and gives back the events to write to the device, in order.
    pub fn handle_touch(&mut self, event: &TouchEvent, abs_x: i32, abs_y: i32, pressure: i32) -> (events: Vec<InputEvent>)
        requires
            old(self).wf(),
        ensures
            final(self).wf(),
            (final(self).view_slots(), events@) == touch_step(
                old(self).view_slots(),
                event.pointer_id as int,
                event.action,
                abs_x,
                abs_y,
                pressure,
            ),
            final(self).spec_width() == old(self).spec_width(),
            final(self).spec_height() == old(self).spec_height(),
    {
        let ghost s0 = self.view_slots();
        let mut events: Vec<InputEvent> = Vec::new();
        let slot: usize = event.pointer_id as usize;
        if slot >= MAX_SLOTS {
            assert(events@ =~= Seq::<InputEvent>::empty());
            return events;
        }
        let cp: i32 = if pressure < 1 {
            1
        } else {
            pressure
        };
        events.push(make_event(EV_ABS, ABS_MT_SLOT, slot as i32));
        match event.action {
            TouchAction::Down => {
                let tracking_id = self.next_tracking_id;
                self.next_tracking_id = (self.next_tracking_id + 1) % TRACKING_ID_MODULUS;
                if self.next_tracking_id == 0 {
                    self.next_tracking_id = 1;
                }
                self.tracking_ids[slot] = tracking_id;
                self.active_touches[slot] = true;
                events.push(make_event(EV_ABS, ABS_MT_TRACKING_ID, tracking_id));
                events.push(make_event(EV_ABS, ABS_MT_POSITION_X, abs_x));
                events.push(make_event(EV_ABS, ABS_MT_POSITION_Y, abs_y));
                events.push(make_event(EV_ABS, ABS_MT_PRESSURE, cp));
                events.push(make_event(EV_ABS, ABS_MT_TOUCH_MAJOR, TOUCH_MAJOR_DOWN));
                events.push(make_event(EV_KEY, BTN_TOUCH, 1));
                events.push(make_event(EV_ABS, ABS_X, abs_x));
                events.push(make_event(EV_ABS, ABS_Y, abs_y));
                events.push(make_event(EV_ABS, ABS_PRESSURE, cp));
            },
            TouchAction::Move => {
                if self.active_touches[slot] {
                    events.push(make_event(EV_ABS, ABS_MT_POSITION_X, abs_x));
                    events.push(make_event(EV_ABS, ABS_MT_POSITION_Y, abs_y));
                    events.push(make_event(EV_ABS, ABS_MT_PRESSURE, cp));
                    events.push(make_event(EV_ABS, ABS_X, abs_x));
                    events.push(make_event(EV_ABS, ABS_Y, abs_y));
                    events.push(make_event(EV_ABS, ABS_PRESSURE, cp));
                }
            },
            TouchAction::Up => {
                if self.active_touches[slot] {
                    self.active_touches[slot] = false;
                    self.tracking_ids[slot] = -1;
                    events.push(make_event(EV_ABS, ABS_MT_TRACKING_ID, -1));
                    if !self.any_touch_active() {
                        events.push(make_event(EV_KEY, BTN_TOUCH, 0));
                        events.push(make_event(EV_ABS, ABS_PRESSURE, 0));
                    }
                }
            },
        }
        events.push(make_event(EV_SYN, SYN_REPORT, 0));
        let ghost step = touch_step(s0, slot as int, event.action, abs_x, abs_y, pressure);
        assert(self.view_slots().active =~= step.0.active);
        assert(self.view_slots().tracking =~= step.0.tracking);
        assert(events@ =~= step.1);
        events
    }
}

/// Bus type the virtual device claims (USB).
pub const BUS_USB: u16 = 0x03;

/// Vendor id of the virtual device.
pub const DEVICE_VENDOR: u16 = 0x1234;

/// Product id of the virtual device.
pub const DEVICE_PRODUCT: u16 = 0x5678;

/// Version of the virtual device.
pub const DEVICE_VERSION: u16 = 1;

/// Highest tracking id the device declares.
pub const TRACKING_ID_AXIS_MAX: i32 = 65535;

/// Highest pressure and contact size the device declares.
pub const PRESSURE_AXIS_MAX: i32 = 255;

/// One absolute axis of the virtual device and its range.
#[derive(Debug, Clone, Copy, PartialEq, Eq, Structural)]
pub struct AbsAxis {
    pub code: u16,
    pub minimum: i32,
    pub maximum: i32,
}

/// The event types the virtual device sends: synchronisation, keys and
/// absolute axes.
pub open spec fn device_event_types_spec() -> Seq<u16> {
    seq![EV_SYN, EV_KEY, EV_ABS]
}

/// The absolute axes the virtual device has, in the order they are enabled.
pub open spec fn device_abs_codes_spec() -> Seq<u16> {
    seq![
        ABS_X,
        ABS_Y,
        ABS_PRESSURE,
        ABS_MT_SLOT,
        ABS_MT_TOUCH_MAJOR,
        ABS_MT_POSITION_X,
        ABS_MT_POSITION_Y,
        ABS_MT_TRACKING_ID,
        ABS_MT_PRESSURE,
    ]
}

/// The ranges of the absolute axes: ten slots, tracking ids up to 65535,
/// positions up to `VIRTUAL_COORD_MAX`, pressure and contact size up to
/// 255; each starts at 0.
pub open spec fn device_abs_ranges_spec() -> Seq<AbsAxis> {
    seq![
        AbsAxis { code: ABS_MT_SLOT, minimum: 0, maximum: (MAX_SLOTS - 1) as i32 },
        AbsAxis { code: ABS_MT_TRACKING_ID, minimum: 0, maximum: TRACKING_ID_AXIS_MAX },
        AbsAxis { code: ABS_MT_POSITION_X, minimum: 0, maximum: VIRTUAL_COORD_MAX },
        AbsAxis { code: ABS_MT_POSITION_Y, minimum: 0, maximum: VIRTUAL_COORD_MAX },
        AbsAxis { code: ABS_MT_PRESSURE, minimum: 0, maximum: PRESSURE_AXIS_MAX },
        AbsAxis { code: ABS_MT_TOUCH_MAJOR, minimum: 0, maximum: PRESSURE_AXIS_MAX },
        AbsAxis { code: ABS_X, minimum: 0, maximum: VIRTUAL_COORD_MAX },
        AbsAxis { code: ABS_Y, minimum: 0, maximum: VIRTUAL_COORD_MAX },
        AbsAxis { code: ABS_PRESSURE, minimum: 0, maximum: PRESSURE_AXIS_MAX },
    ]
}

/// The event types to enable on the virtual device.
pub fn device_event_types() -> (v: Vec<u16>)
    ensures
        v@ == device_event_types_spec(),
{
    let v = vec![EV_SYN, EV_KEY, EV_ABS];
    assert(v@ =~= device_event_types_spec());
    v
}

/// The key the virtual device has: the touch button.
pub fn device_key_codes() -> (v: Vec<u16>)
    ensures
        v@ == seq![BTN_TOUCH],
{
    let v = vec![BTN_TOUCH];
    assert(v@ =~= seq![BTN_TOUCH]);
    v
}

/// The absolute axes to enable on the virtual device.
pub fn device_abs_codes() -> (v: Vec<u16>)
    ensures
        v@ == device_abs_codes_spec(),
{
    let v = vec![
        ABS_X,
        ABS_Y,
        ABS_PRESSURE,
        ABS_MT_SLOT,
        ABS_MT_TOUCH_MAJOR,
        ABS_MT_POSITION_X,
        ABS_MT_POSITION_Y,
        ABS_MT_TRACKING_ID,
        ABS_MT_PRESSURE,
    ];
    assert(v@ =~= device_abs_codes_spec());
    v
}

/// The ranges to declare for the absolute axes.
pub fn device_abs_ranges() -> (v: Vec<AbsAxis>)
    ensures
        v@ == device_abs_ranges_spec(),
{
    let v = vec![
        AbsAxis { code: ABS_MT_SLOT, minimum: 0, maximum: (MAX_SLOTS - 1) as i32 },
        AbsAxis { code: ABS_MT_TRACKING_ID, minimum: 0, maximum: TRACKING_ID_AXIS_MAX },
        AbsAxis { code: ABS_MT_POSITION_X, minimum: 0, maximum: VIRTUAL_COORD_MAX },
        AbsAxis { code: ABS_MT_POSITION_Y, minimum: 0, maximum: VIRTUAL_COORD_MAX },
        AbsAxis { code: ABS_MT_PRESSURE, minimum: 0, maximum: PRESSURE_AXIS_MAX },
        AbsAxis { code: ABS_MT_TOUCH_MAJOR, minimum: 0, maximum: PRESSURE_AXIS_MAX },
        AbsAxis { code: ABS_X, minimum: 0, maximum: VIRTUAL_COORD_MAX },
        AbsAxis { code: ABS_Y, minimum: 0, maximum: VIRTUAL_COORD_MAX },
        AbsAxis { code: ABS_PRESSURE, minimum: 0, maximum: PRESSURE_AXIS_MAX },
    ];
    assert(v@ =~= device_abs_ranges_spec());
    v
}

/// Law: every axis the device declares a range for is one it enables, and
/// every event a batch can carry on an absolute axis is one of them.
pub proof fn lemma_device_declares_reported_axes(
    s: SlotsView,
    slot: int,
    action: TouchAction,
    x: i32,
    y: i32,
    p: i32,
)
    requires
        0 <= slot,
    ensures
        forall|i: int|
            0 <= i < device_abs_ranges_spec().len() ==> device_abs_codes_spec().contains(
                #[trigger] device_abs_ranges_spec()[i].code,
            ),
        ({
            let b = touch_step(s, slot, action, x, y, p).1;
            forall|i: int|
                0 <= i < b.len() && (#[trigger] b[i]).type_ == EV_ABS ==> device_abs_codes_spec().contains(
                    b[i].code,
                )
        }),
{
    let codes = device_abs_codes_spec();
    assert(codes[0] == ABS_X && codes[1] == ABS_Y && codes[2] == ABS_PRESSURE && codes[3]
        == ABS_MT_SLOT && codes[4] == ABS_MT_TOUCH_MAJOR && codes[5] == ABS_MT_POSITION_X
        && codes[6] == ABS_MT_POSITION_Y && codes[7] == ABS_MT_TRACKING_ID && codes[8]
        == ABS_MT_PRESSURE);
    assert(codes.contains(ABS_X) && codes.contains(ABS_Y) && codes.contains(ABS_PRESSURE)
        && codes.contains(ABS_MT_SLOT) && codes.contains(ABS_MT_TOUCH_MAJOR) && codes.contains(
        ABS_MT_POSITION_X,
    ) && codes.contains(ABS_MT_POSITION_Y) && codes.contains(ABS_MT_TRACKING_ID)
        && codes.contains(ABS_MT_PRESSURE));
}

} // verus!
