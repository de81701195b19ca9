//! Accepted TCP connections as a way in.
use vstd::prelude::*;

use crate::bus;
use crate::bus::{AppEvent, EventData};
use crate::domain::ConnState;
use crate::protocol::SimpleFrameCodec;
use crate::session::{DeviceSession, SessionConfig, SessionData};
use crate::text;
use crate::time::Instant;

verus! {

/// The session of a connection that was accepted from `peer`, and the message about it. The
/// other side keeps the connection up: no heartbeat, no reconnecting.
pub fn accepted(peer: &str, max_payload: usize, now: Instant) -> (r: (
    DeviceSession<SimpleFrameCodec>,
    AppEvent,
))
    ensures
        r.0@.wf(),
        r.0@ == (SessionData {
            device_id: "tcp://"@ + peer@,
            state: ConnState::Disconnected,
            config: SessionConfig::usual(false),
            backoff: SessionConfig::usual(false).reconnect_base,
            pending: Map::empty(),
            unread: Seq::empty(),
            last_rx: now,
            started: now,
        }),
        r.0.codec().max_payload == max_payload,
        r.1@ == EventData::System("connected: "@ + peer@),
{
    let mut device_id = text::owned("tcp://");
    text::push_text(&mut device_id, peer);
    let session = DeviceSession::new(
        device_id.as_str(),
        SimpleFrameCodec::new(max_payload),
        SessionConfig::passive(),
        now,
    );
    let mut msg = text::owned("connected: ");
    text::push_text(&mut msg, peer);
    (session, bus::status(msg))
}

} // verus!
