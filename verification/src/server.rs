//! The server's decisions: what a packet from the client is, and when the
//! virtual output and the stream go up and down as clients come and go.
use vstd::prelude::*;
use crate::protocol::{
    decode_client_config, decode_touch_event, lemma_touch_event_roundtrip, ClientConfigEvent, ProtocolError, TouchEvent,
    EVENT_TYPE_CONFIG, TOUCH_PACKET_SIZE,
};

verus! {

/// A packet from the client.
#[derive(Debug, Clone, Copy, PartialEq, Eq, Structural)]
pub enum ClientPacket {
    /// The display-configuration handshake.
    Config(ClientConfigEvent),
    /// A touch.
    Touch(TouchEvent),
}

/// What the 15 bytes `b` read from the client are: a configuration packet
/// if the first byte says so, otherwise a touch packet.
pub open spec fn decode_client_packet_spec(b: Seq<u8>) -> Result<ClientPacket, ProtocolError> {
    if b[0] == EVENT_TYPE_CONFIG {
        match decode_client_config(b) {
            Ok(c) => Ok(ClientPacket::Config(c)),
            Err(e) => Err(e),
        }
    } else {
        match decode_touch_event(b) {
            Ok(t) => Ok(ClientPacket::Touch(t)),
            Err(e) => Err(e),
        }
    }
}

/// Reads one packet from the client; see `decode_client_packet_spec`.
pub fn decode_client_packet(buf: &[u8; TOUCH_PACKET_SIZE]) -> (r: Result<ClientPacket, ProtocolError>)
    ensures
        r == decode_client_packet_spec(buf@),
{
    if buf[0] == EVENT_TYPE_CONFIG {
        match ClientConfigEvent::decode(buf) {
            Ok(c) => Ok(ClientPacket::Config(c)),
            Err(e) => Err(e),
        }
    } else {
        match TouchEvent::decode(buf) {
            Ok(t) => Ok(ClientPacket::Touch(t)),
            Err(e) => Err(e),
        }
    }
}

/// Law: a packet whose first byte announces a configuration is never
/// refused.
pub proof fn lemma_config_packet_accepted(b: Seq<u8>)
    requires
        b.len() == TOUCH_PACKET_SIZE,
        b[0] == EVENT_TYPE_CONFIG,
    ensures
        decode_client_packet_spec(b) is Ok,
        decode_client_packet_spec(b)->Ok_0 is Config,
{
}

/// A client connects to `n` connected clients: there are one more, and
/// the flag says whether it is the only one.
pub open spec fn connect_step(n: nat) -> (nat, bool) {
    (n + 1, n == 0)
}

/// A client leaves `n` connected clients: there are one fewer, and the flag
/// says whether it was the last.
pub open spec fn disconnect_step(n: nat) -> (nat, bool) {
    ((n - 1) as nat, n == 1)
}

/// Law: a client that connects and leaves again restores the count, and
/// the virtual output goes up on its arrival exactly when it goes down on
/// its departure (when no other client was there).
pub proof fn lemma_connect_then_disconnect(n: nat)
    ensures
        disconnect_step(connect_step(n).0).0 == n,
        connect_step(n).1 == disconnect_step(connect_step(n).0).1,
{
}

/// Law: the bytes of any touch event are read back as that touch event.
pub proof fn lemma_touch_packet_dispatch(e: TouchEvent)
    ensures
        decode_client_packet_spec(e.spec_bytes()) == Ok::<ClientPacket, ProtocolError>(
            ClientPacket::Touch(e),
        ),
{
    lemma_touch_event_roundtrip(e);
}

/// A run of client arrivals (`true`) and departures (`false`) from no
/// client: the number connected after it, and whether the virtual output
/// and stream are up, switched on when a client arrives first and off when
/// the last one leaves.
pub open spec fn clients_run(events: Seq<bool>) -> (nat, bool)
    decreases events.len(),
{
    if events.len() == 0 {
        (0, false)
    } else {
        let (n, up) = clients_run(events.drop_last());
        if events.last() {
            let (m, first) = connect_step(n);
            (m, up || first)
        } else {
            let (m, last) = disconnect_step(n);
            (m, up && !last)
        }
    }
}

/// No client leaves that has not arrived.
pub open spec fn clients_well_ordered(events: Seq<bool>) -> bool
    decreases events.len(),
{
    events.len() == 0 || (clients_well_ordered(events.drop_last()) && (events.last() || clients_run(
        events.drop_last(),
    ).0 >= 1))
}

/// The number of arrivals in `events`.
pub open spec fn arrivals(events: Seq<bool>) -> nat
    decreases events.len(),
{
    if events.len() == 0 {
        0
    } else {
        arrivals(events.drop_last()) + if events.last() {
            1nat
        } else {
            0nat
        }
    }
}

/// Law: over any well-ordered run of arrivals and departures, the count is
/// arrivals minus departures, and the virtual output and stream are up
/// exactly while some client is connected.
pub proof fn lemma_clients_run(events: Seq<bool>)
    requires
        clients_well_ordered(events),
    ensures
        clients_run(events).0 + (events.len() - arrivals(events)) == arrivals(events),
        clients_run(events).1 <==> clients_run(events).0 > 0,
    decreases events.len(),
{
    if events.len() > 0 {
        lemma_clients_run(events.drop_last());
    }
}

/// The number of connected clients.
pub struct ClientTracker {
    active_clients: usize,
}

impl ClientTracker {
    /// The number of connected clients.
    pub closed spec fn spec_count(&self) -> nat {
        self.active_clients as nat
    }

    /// No client yet.
    pub fn new() -> (t: Self)
        ensures
            t.spec_count() == 0,
    {
        ClientTracker { active_clients: 0 }
    }

    /// The number of connected clients.
    pub fn active_clients(&self) -> (n: usize)
        ensures
            n == self.spec_count(),
    {
        self.active_clients
    }

    /// A client connected; gives whether it is the only one, in which case
    /// the virtual output goes up.
    pub fn client_connected(&mut self) -> (first: bool)
        requires
            old(self).spec_count() < usize::MAX,
        ensures
            (final(self).spec_count(), first) == connect_step(old(self).spec_count()),
    {
        self.active_clients = self.active_clients + 1;
        self.active_clients == 1
    }

    /// A client went away; gives whether it was the last, in which case
    /// the stream stops and the virtual output goes down.
    pub fn client_disconnected(&mut self) -> (last: bool)
        requires
            old(self).spec_count() >= 1,
        ensures
            (final(self).spec_count(), last) == disconnect_step(old(self).spec_count()),
    {
        self.active_clients = self.active_clients - 1;
        self.active_clients == 0
    }
}

} // verus!
