//! The session of one device: connection states, heartbeat, requests that wait for their
//! answer, and what comes in. The session decides; whoever drives it reads, writes, waits
//! and publishes.
use bytes::BytesMut;
use std::collections::HashMap;
use std::time::SystemTime;
use vstd::prelude::*;
use vstd::slice::slice_to_vec;

use crate::buffer;
use crate::bus::{
    AppEvent, DeviceEvent, EventData, SampleData, SampleTime, Store, TelemetrySample,
    TelemetrySourceKind,
};
use crate::bus;
use crate::domain;
use crate::domain::{
    Command, CommandData, ConnState, DeviceSnapshot, Response, ResponseData, SnapshotData,
};
use crate::ingress::payload;
use crate::number::{Number, NumberData};
use crate::protocol::{CodecError, Frame, FrameCodec, FrameData};
use crate::text;
use crate::time::{Duration, Instant};
use crate::transport::TransportError;

verus! {

broadcast use vstd::std_specs::hash::group_hash_axioms;

/// The kind of a telemetry frame.
pub const KIND_TELEMETRY: u8 = 0x34;

/// The kind of the answer to a telemetry frame.
pub const KIND_ACK: u8 = 0x90;

/// The kind of a heartbeat.
pub const KIND_HEARTBEAT: u8 = 0xF0;

/// The kind of the answer to a heartbeat.
pub const KIND_HEARTBEAT_REPLY: u8 = 0xF1;

#[derive(Debug)]
pub enum SessionError {
    Closed,
    Timeout,
    Transport(TransportError),
    Codec(String),
    Busy,
}

/// What went wrong in a session.
pub ghost enum SessionErrorData {
    Closed,
    Timeout,
    Transport(Seq<char>),
    Codec(Seq<char>),
    Busy,
}

impl View for SessionError {
    type V = SessionErrorData;

    open spec fn view(&self) -> SessionErrorData {
        match self {
            SessionError::Closed => SessionErrorData::Closed,
            SessionError::Timeout => SessionErrorData::Timeout,
            SessionError::Transport(error) => SessionErrorData::Transport(error@),
            SessionError::Codec(text) => SessionErrorData::Codec(text@),
            SessionError::Busy => SessionErrorData::Busy,
        }
    }
}

impl SessionErrorData {
    /// The error as text.
    pub open spec fn text(self) -> Seq<char> {
        match self {
            SessionErrorData::Closed => "session closed"@,
            SessionErrorData::Timeout => "command timeout"@,
            SessionErrorData::Transport(error) => "transport error: "@ + error,
            SessionErrorData::Codec(error) => "codec error: "@ + error,
            SessionErrorData::Busy => "command channel full"@,
        }
    }
}

impl SessionError {
    pub fn to_text(&self) -> (r: String)
        ensures
            r@ == self@.text(),
    {
        match self {
            SessionError::Closed => text::owned("session closed"),
            SessionError::Timeout => text::owned("command timeout"),
            SessionError::Transport(error) => {
                let mut r = text::owned("transport error: ");
                text::push_text(&mut r, error.to_text().as_str());
                r
            },
            SessionError::Codec(error) => {
                let mut r = text::owned("codec error: ");
                text::push_text(&mut r, error.as_str());
                r
            },
            SessionError::Busy => text::owned("command channel full"),
        }
    }
}

#[derive(Clone, Copy, Debug, PartialEq, Eq, Structural)]
pub struct SessionConfig {
    pub heartbeat_interval: Duration,
    pub heartbeat_timeout: Duration,
    pub reconnect_base: Duration,
    pub reconnect_max: Duration,
    pub enable_heartbeat: bool,
    pub reconnect_enabled: bool,
}

impl SessionConfig {
    /// The usual configuration, of a session that keeps its connection up or leaves that to
    /// the other side.
    pub open spec fn usual(keeps_up: bool) -> SessionConfig {
        SessionConfig {
            heartbeat_interval: Duration { nanos: 2_000_000_000 },
            heartbeat_timeout: Duration { nanos: 8_000_000_000 },
            reconnect_base: Duration { nanos: 200_000_000 },
            reconnect_max: Duration { nanos: 5_000_000_000 },
            enable_heartbeat: keeps_up,
            reconnect_enabled: keeps_up,
        }
    }

    /// Lengths of time that a clock can count.
    pub open spec fn in_range(self) -> bool {
        self.reconnect_base.in_range() && self.reconnect_max.in_range()
    }

    /// For connections that are not kept up from this side: no heartbeat, no reconnecting.
    pub fn passive() -> (r: Self)
        ensures
            r == SessionConfig::usual(false),
            r.in_range(),
    {
        SessionConfig {
            enable_heartbeat: false,
            reconnect_enabled: false,
            ..SessionConfig::default()
        }
    }
}

impl Default for SessionConfig {
    fn default() -> (r: Self)
        ensures
            r == SessionConfig::usual(true),
            r.in_range(),
    {
        SessionConfig {
            heartbeat_interval: Duration::from_secs(2),
            heartbeat_timeout: Duration::from_secs(8),
            reconnect_base: Duration::from_millis(200),
            reconnect_max: Duration::from_secs(5),
            enable_heartbeat: true,
            reconnect_enabled: true,
        }
    }
}

/// A request that waits for its answer. The ticket tells whom to answer.
struct PendingRequest {
    cmd: Command,
    ticket: u64,
    deadline: Instant,
    attempts: u32,
}

/// What is known of a request that waits for its answer.
#[verifier::ext_equal]
pub ghost struct PendingData {
    pub cmd: CommandData,
    pub ticket: u64,
    pub deadline: Instant,
    pub attempts: u32,
}

impl View for PendingRequest {
    type V = PendingData;

    closed spec fn view(&self) -> PendingData {
        PendingData {
            cmd: self.cmd@,
            ticket: self.ticket,
            deadline: self.deadline,
            attempts: self.attempts,
        }
    }
}

/// The session of a device.
pub struct DeviceSession<C: FrameCodec> {
    device_id: String,
    state: ConnState,
    codec: C,
    config: SessionConfig,
    backoff: Duration,
    pending: HashMap<u64, PendingRequest>,
    in_buf: BytesMut,
    last_rx: Instant,
    started: Instant,
}

/// What a session is at a moment.
#[verifier::ext_equal]
pub ghost struct SessionData {
    pub device_id: Seq<char>,
    pub state: ConnState,
    pub config: SessionConfig,
    /// How long the next wait before a new connection is.
    pub backoff: Duration,
    pub pending: Map<u64, PendingData>,
    /// What has been read and not decoded yet.
    pub unread: Seq<u8>,
    pub last_rx: Instant,
    pub started: Instant,
}

impl SessionData {
    /// Requests wait under their own number, and have been sent at most as often as their
    /// retry policy allows.
    pub open spec fn wf(self) -> bool {
        &&& self.config.in_range()
        &&& self.backoff.in_range()
        &&& forall|id: u64| #[trigger]
            self.pending.contains_key(id) ==> {
                let p = self.pending[id];
                &&& p.cmd.request_id == id
                &&& p.cmd.timeout.in_range()
                &&& 1 <= p.attempts
                &&& p.attempts == 1 || (p.cmd.idempotent && p.attempts
                    <= p.cmd.retry.max_attempts)
            }
    }
}

/// The frame that carries a command.
pub open spec fn command_frame(cmd: CommandData) -> FrameData {
    FrameData { request_id: cmd.request_id, kind: cmd.kind.frame_kind(), payload: cmd.payload }
}

/// The heartbeat frame.
pub open spec fn heartbeat_frame() -> FrameData {
    FrameData { request_id: 0, kind: KIND_HEARTBEAT, payload: Seq::empty() }
}

/// What the acknowledgement of a telemetry frame says.
pub open spec fn ack_payload() -> Seq<u8> {
    seq![0x64u8, 0x65u8, 0x6Du8, 0x6Fu8, 0x32u8, 0x2Du8, 0x61u8, 0x63u8, 0x6Bu8]
}

/// The acknowledgement of a telemetry frame.
pub open spec fn ack_frame(request_id: u64) -> FrameData {
    FrameData { request_id, kind: KIND_ACK, payload: ack_payload() }
}

/// The latest snapshot of a device, or a fresh one.
pub open spec fn snapshot_or_fresh(
    store: Map<Seq<char>, SnapshotData>,
    device_id: Seq<char>,
) -> SnapshotData {
    if store.contains_key(device_id) {
        store[device_id]
    } else {
        domain::fresh_snapshot(device_id)
    }
}

/// The snapshot of a device that has changed its state.
pub open spec fn state_snapshot(
    s: SessionData,
    store: Map<Seq<char>, SnapshotData>,
    next: ConnState,
    wall: SystemTime,
) -> SnapshotData {
    SnapshotData {
        conn_state: next,
        last_seen: Some(wall),
        ..snapshot_or_fresh(store, s.device_id)
    }
}

/// A session in another state: a change is stored in the snapshot and announced, the same
/// state again is not.
pub open spec fn with_state(s: SessionData, next: ConnState) -> SessionData {
    SessionData { state: next, ..s }
}

pub open spec fn state_events(
    s: SessionData,
    store: Map<Seq<char>, SnapshotData>,
    next: ConnState,
    wall: SystemTime,
) -> Seq<EventData> {
    if s.state == next {
        Seq::empty()
    } else {
        seq![
            EventData::ConnStateChanged { device_id: s.device_id, from: s.state, to: next },
            EventData::TelemetryUpdated {
                device_id: s.device_id,
                snapshot: state_snapshot(s, store, next, wall),
            },
        ]
    }
}

pub open spec fn state_store(
    s: SessionData,
    store: Map<Seq<char>, SnapshotData>,
    next: ConnState,
    wall: SystemTime,
) -> Map<Seq<char>, SnapshotData> {
    if s.state == next {
        store
    } else {
        let snapshot = state_snapshot(s, store, next, wall);
        store.insert(snapshot.device_id, snapshot)
    }
}

/// What became of a call whose frame was written, or not.
#[derive(Debug)]
pub enum CallOutcome {
    /// The request waits. A request that waited under the same number is forgotten; its
    /// ticket is given back unanswered.
    Waiting { displaced: Option<u64> },
    /// The caller is answered, and the connection ends.
    Failed { reply: SessionError, end: SessionError },
}

/// What becomes of a request whose time is up.
#[derive(Debug)]
pub enum Expiry {
    /// No request waits under the number.
    Gone,
    /// The request is sent again.
    Resend { bytes: Vec<u8> },
    /// The caller is told that time is up, and so is everybody else.
    Expired { ticket: u64, event: AppEvent },
    /// The request cannot be sent again; the connection ends.
    Ended { ticket: u64, error: SessionError },
}

/// What becomes of a request whose time is up.
pub ghost enum ExpiryData {
    Gone,
    Resend { bytes: Seq<u8> },
    Expired { ticket: u64, event: EventData },
    Ended { ticket: u64, error: SessionErrorData },
}

impl View for Expiry {
    type V = ExpiryData;

    open spec fn view(&self) -> ExpiryData {
        match self {
            Expiry::Gone => ExpiryData::Gone,
            Expiry::Resend { bytes } => ExpiryData::Resend { bytes: bytes@ },
            Expiry::Expired { ticket, event } => ExpiryData::Expired {
                ticket: *ticket,
                event: event@,
            },
            Expiry::Ended { ticket, error } => ExpiryData::Ended { ticket: *ticket, error: error@ },
        }
    }
}

/// The session behind a call whose frame was written: the request waits until its time is up.
pub open spec fn after_call(
    s: SessionData,
    cmd: CommandData,
    ticket: u64,
    now: Instant,
) -> SessionData {
    SessionData {
        pending: s.pending.insert(
            cmd.request_id,
            PendingData {
                cmd,
                ticket,
                deadline: Instant { nanos: (now.nanos + cmd.timeout.nanos) as u128 },
                attempts: 1,
            },
        ),
        ..s
    }
}

/// The session behind a request whose time is up, and what becomes of the request. One that
/// may be repeated and has tries left is sent again, with a new deadline; any other is given
/// up.
pub open spec fn expired<C: FrameCodec>(
    codec: C,
    s: SessionData,
    id: u64,
    now: Instant,
) -> (SessionData, ExpiryData) {
    if !s.pending.contains_key(id) {
        (s, ExpiryData::Gone)
    } else {
        let p = s.pending[id];
        let given_up = SessionData { pending: s.pending.remove(id), ..s };
        if p.cmd.idempotent && p.attempts < p.cmd.retry.max_attempts {
            match codec.encoding(command_frame(p.cmd)) {
                Ok(bytes) => (
                    SessionData {
                        pending: s.pending.insert(
                            id,
                            PendingData {
                                deadline: Instant {
                                    nanos: (now.nanos + p.cmd.timeout.nanos) as u128,
                                },
                                attempts: (p.attempts + 1) as u32,
                                ..p
                            },
                        ),
                        ..s
                    },
                    ExpiryData::Resend { bytes },
                ),
                Err(error) => (
                    given_up,
                    ExpiryData::Ended {
                        ticket: p.ticket,
                        error: SessionErrorData::Codec(error.text()),
                    },
                ),
            }
        } else {
            (
                given_up,
                ExpiryData::Expired {
                    ticket: p.ticket,
                    event: EventData::CommandResult {
                        device_id: s.device_id,
                        request_id: id,
                        ok: false,
                    },
                },
            )
        }
    }
}

/// What a frame that came in leads to, in this order: an answer, events, bytes to write.
pub struct FrameStep {
    pub reply: Option<(u64, Response)>,
    pub events: Vec<AppEvent>,
    pub write: Option<Vec<u8>>,
    pub end: Option<SessionError>,
}

/// What a frame leads to.
#[verifier::ext_equal]
pub ghost struct StepData {
    pub reply: Option<(u64, ResponseData)>,
    pub events: Seq<EventData>,
    pub write: Option<Seq<u8>>,
    pub end: Option<SessionErrorData>,
}

impl View for FrameStep {
    type V = StepData;

    open spec fn view(&self) -> StepData {
        StepData {
            reply: match self.reply {
                Some((ticket, response)) => Some((ticket, response@)),
                None => None,
            },
            events: bus::event_data(self.events@),
            write: match self.write {
                Some(bytes) => Some(bytes@),
                None => None,
            },
            end: match self.end {
                Some(error) => Some(error@),
                None => None,
            },
        }
    }
}

/// The snapshot of a device that has sent a value.
pub open spec fn sample_snapshot(
    s: SessionData,
    store: Map<Seq<char>, SnapshotData>,
    sensor_id: nat,
    value: Seq<char>,
    wall: SystemTime,
) -> SnapshotData {
    let before = snapshot_or_fresh(store, s.device_id);
    SnapshotData {
        last_seen: Some(wall),
        telemetry: before.telemetry.insert(
            "sensor_"@ + text::decimal(sensor_id),
            NumberData::Text(value),
        ),
        ..before
    }
}

/// Where the samples of a device come from.
pub open spec fn source_of(device_id: Seq<char>) -> TelemetrySourceKind {
    if text::begins_with(device_id, "tcp://"@) {
        TelemetrySourceKind::TcpFrame
    } else {
        TelemetrySourceKind::FrameStream
    }
}

/// How long a connection has lasted.
pub open spec fn elapsed(s: SessionData, clock: Instant) -> u128 {
    if clock.nanos >= s.started.nanos {
        (clock.nanos - s.started.nanos) as u128
    } else {
        0
    }
}

/// What a frame leads to. The answer to a heartbeat leads to nothing. A frame under the
/// number of a waiting request answers it. Otherwise a telemetry frame becomes a sample and
/// is acknowledged; a telemetry frame that cannot be read, or any other frame, is logged.
pub open spec fn frame_step<C: FrameCodec>(
    codec: C,
    s: SessionData,
    frame: FrameData,
    clock: Instant,
    wall: SystemTime,
) -> StepData {
    let nothing = StepData { reply: None, events: Seq::empty(), write: None, end: None };
    if frame.kind == KIND_HEARTBEAT_REPLY {
        nothing
    } else if s.pending.contains_key(frame.request_id) {
        StepData {
            reply: Some(
                (
                    s.pending[frame.request_id].ticket,
                    ResponseData {
                        request_id: frame.request_id,
                        code: frame.kind,
                        payload: frame.payload,
                        ts: wall,
                    },
                ),
            ),
            events: seq![
                EventData::CommandResult {
                    device_id: s.device_id,
                    request_id: frame.request_id,
                    ok: true,
                },
            ],
            ..nothing
        }
    } else if frame.kind == KIND_TELEMETRY {
        match payload::sensor_value(frame.payload) {
            Some((sensor_id, value)) => {
                let sample = EventData::TelemetrySample(
                    SampleData {
                        device_id: s.device_id,
                        sensor_id: sensor_id as usize,
                        t_sec: SampleTime::Elapsed { nanos: elapsed(s, clock), groups: 0 },
                        value: NumberData::Text(value),
                        req_id: frame.request_id,
                        alarm_bit: false,
                        source_kind: source_of(s.device_id),
                    },
                );
                match codec.encoding(ack_frame(frame.request_id)) {
                    Ok(bytes) => StepData { events: seq![sample], write: Some(bytes), ..nothing },
                    Err(error) => StepData {
                        events: seq![sample],
                        end: Some(SessionErrorData::Codec(error.text())),
                        ..nothing
                    },
                }
            },
            None => StepData {
                events: seq![
                    EventData::Log {
                        device_id: s.device_id,
                        level: "warn"@,
                        msg: "invalid telemetry payload for kind=0x34"@,
                    },
                ],
                ..nothing
            },
        }
    } else {
        StepData {
            events: seq![
                EventData::Log {
                    device_id: s.device_id,
                    level: "warn"@,
                    msg: "unsolicited frame kind="@ + text::decimal(frame.kind as nat),
                },
            ],
            ..nothing
        }
    }
}

/// The session behind a frame: the request that was answered waits no more.
pub open spec fn after_frame(s: SessionData, frame: FrameData) -> SessionData {
    if frame.kind != KIND_HEARTBEAT_REPLY && s.pending.contains_key(frame.request_id) {
        SessionData { pending: s.pending.remove(frame.request_id), ..s }
    } else {
        s
    }
}

/// The store behind a frame: it holds the value of a sample.
pub open spec fn store_after_frame(
    s: SessionData,
    store: Map<Seq<char>, SnapshotData>,
    frame: FrameData,
    wall: SystemTime,
) -> Map<Seq<char>, SnapshotData> {
    if frame.kind == KIND_TELEMETRY && !s.pending.contains_key(frame.request_id) {
        match payload::sensor_value(frame.payload) {
            Some((sensor_id, value)) => {
                let snapshot = sample_snapshot(s, store, sensor_id, value, wall);
                store.insert(snapshot.device_id, snapshot)
            },
            None => store,
        }
    } else {
        store
    }
}

/// What to do once a connection is over or could not be made.
#[derive(Clone, Copy, Debug, PartialEq, Eq, Structural)]
pub enum AfterConnection {
    /// Close the transport; the session is over.
    Stop,
    /// Close the transport, wait so long, and connect again.
    Retry(Duration),
}

/// The wait before the connection after the next: twice as long, up to the limit.
pub open spec fn next_backoff(s: SessionData) -> Duration {
    if 2 * s.backoff.nanos <= s.config.reconnect_max.nanos {
        Duration { nanos: (2 * s.backoff.nanos) as u128 }
    } else {
        s.config.reconnect_max
    }
}

/// The session behind a connection that is over, and what is to be done. One that ended as it
/// should ends the session; after any other the session tries again, where it may, after a
/// wait that grows from one time to the next.
pub open spec fn connection_over(s: SessionData, orderly: bool) -> (SessionData, AfterConnection) {
    if orderly || !s.config.reconnect_enabled {
        (with_state(s, ConnState::Disconnected), AfterConnection::Stop)
    } else {
        (
            SessionData { state: ConnState::Reconnecting, backoff: next_backoff(s), ..s },
            AfterConnection::Retry(s.backoff),
        )
    }
}

impl<C: FrameCodec> View for DeviceSession<C> {
    type V = SessionData;

    closed spec fn view(&self) -> SessionData {
        SessionData {
            device_id: self.device_id@,
            state: self.state,
            config: self.config,
            backoff: self.backoff,
            pending: self.pending@.map_values(|p: PendingRequest| p@),
            unread: buffer::contents(self.in_buf),
            last_rx: self.last_rx,
            started: self.started,
        }
    }
}

impl<C: FrameCodec> DeviceSession<C> {
    /// The codec of the connection.
    pub closed spec fn codec(&self) -> C {
        self.codec
    }

    /// A session that has not connected yet.
    pub fn new(device_id: &str, codec: C, config: SessionConfig, now: Instant) -> (r: Self)
        requires
            config.in_range(),
        ensures
            r.codec() == codec,
            r@ == (SessionData {
                device_id: device_id@,
                state: ConnState::Disconnected,
                config,
                backoff: config.reconnect_base,
                pending: Map::empty(),
                unread: Seq::empty(),
                last_rx: now,
                started: now,
            }),
            r@.wf(),
    {
        let r = DeviceSession {
            device_id: text::owned(device_id),
            state: ConnState::Disconnected,
            codec,
            config,
            backoff: config.reconnect_base,
            pending: HashMap::new(),
            in_buf: buffer::new_buffer(),
            last_rx: now,
            started: now,
        };
        proof {
            assert(r@.pending =~= Map::<u64, PendingData>::empty());
        }
        r
    }

    pub fn device_id(&self) -> (r: &str)
        ensures
            r@ == self@.device_id,
    {
        self.device_id.as_str()
    }

    pub fn state(&self) -> (r: ConnState)
        ensures
            r == self@.state,
    {
        self.state
    }

    /// How many bytes have been read and not decoded yet.
    pub fn unread_len(&self) -> (r: usize)
        ensures
            r == self@.unread.len(),
    {
        buffer::as_bytes(&self.in_buf).len()
    }

    /// Goes over to another state. A change is kept in the store and announced.
    pub fn set_state(&mut self, next: ConnState, store: &mut Store, wall: SystemTime) -> (r: Vec<
        AppEvent,
    >)
        ensures
            final(self)@ == with_state(old(self)@, next),
            final(self).codec() == old(self).codec(),
            final(store)@ == state_store(old(self)@, old(store)@, next, wall),
            bus::event_data(r@) == state_events(old(self)@, old(store)@, next, wall),
    {
        let mut events: Vec<AppEvent> = Vec::new();
        proof {
            bus::lemma_no_events(events@);
        }
        if self.state == next {
            return events;
        }
        let ghost before = self@;
        let prev = self.state;
        self.state = next;
        events.push(
            AppEvent::Device(
                DeviceEvent::ConnStateChanged {
                    device_id: text::owned(self.device_id.as_str()),
                    from: prev,
                    to: next,
                },
            ),
        );
        let mut snapshot = match store.snapshot(self.device_id.as_str()) {
            Some(snapshot) => snapshot,
            None => DeviceSnapshot::fresh(self.device_id.as_str()),
        };
        snapshot.conn_state = next;
        snapshot.last_seen = Some(wall);
        store.upsert_snapshot(snapshot.clone());
        events.push(
            AppEvent::Device(
                DeviceEvent::TelemetryUpdated {
                    device_id: text::owned(self.device_id.as_str()),
                    snapshot,
                },
            ),
        );
        proof {
            assert(snapshot@ =~= state_snapshot(before, old(store)@, next, wall));
            assert(bus::event_data(events@) =~= state_events(
                before,
                old(store)@,
                next,
                wall,
            ));
        }
        events
    }

    /// The frame of a call, ready to be written; or the error that ends the connection.
    pub fn begin_call(&self, cmd: &Command) -> (r: Result<Vec<u8>, SessionError>)
        ensures
            match self.codec().encoding(command_frame(cmd@)) {
                Ok(bytes) => r is Ok && r->Ok_0@ == bytes,
                Err(error) => r is Err && r->Err_0@ == SessionErrorData::Codec(error.text()),
            },
    {
        let frame = Frame {
            request_id: cmd.request_id,
            kind: cmd.kind.code(),
            payload: slice_to_vec(cmd.payload.as_slice()),
        };
        proof {
            assert(frame@ =~= command_frame(cmd@));
        }
        self.encode_frame(&frame)
    }

    fn encode_frame(&self, frame: &Frame) -> (r: Result<Vec<u8>, SessionError>)
        ensures
            match self.codec().encoding(frame@) {
                Ok(bytes) => r is Ok && r->Ok_0@ == bytes,
                Err(error) => r is Err && r->Err_0@ == SessionErrorData::Codec(error.text()),
            },
    {
        let mut out = buffer::new_buffer();
        proof {
            self.codec.encoding_is_short(frame@);
        }
        match self.codec.encode(frame, &mut out) {
            Ok(()) => {
                let bytes: Vec<u8> = slice_to_vec(buffer::as_bytes(&out));
                proof {
                    assert(bytes@ =~= self.codec.encoding(frame@)->Ok_0);
                }
                Ok(bytes)
            },
            Err(error) => Err(SessionError::Codec(error.to_text())),
        }
    }

    /// Takes note of what became of the frame of a call. Once written, the request waits
    /// until its time is up; otherwise the caller is told, and the connection ends.
    pub fn finish_call(
        &mut self,
        cmd: Command,
        ticket: u64,
        written: Result<(), TransportError>,
        now: Instant,
    ) -> (r: CallOutcome)
        requires
            old(self)@.wf(),
            now.in_range(),
            cmd.timeout.in_range(),
        ensures
            final(self)@.wf(),
            final(self).codec() == old(self).codec(),
            match written {
                Ok(()) => {
                    &&& final(self)@ == after_call(old(self)@, cmd@, ticket, now)
                    &&& r matches CallOutcome::Waiting { displaced } && displaced == (
                    if old(self)@.pending.contains_key(cmd.request_id) {
                        Some(old(self)@.pending[cmd.request_id].ticket)
                    } else {
                        None
                    })
                },
                Err(error) => {
                    &&& final(self)@ == old(self)@
                    &&& r matches CallOutcome::Failed { reply, end } && reply@
                        == SessionErrorData::Transport(error@) && end@
                        == SessionErrorData::Closed
                },
            },
    {
        match written {
            Ok(()) => {
                let ghost before = self@;
                let id: u64 = cmd.request_id;
                let deadline = now.after(cmd.timeout);
                let request = PendingRequest { cmd, ticket, deadline, attempts: 1 };
                let displaced = self.pending.insert(id, request);
                proof {
                    assert(self@.pending =~= before.pending.insert(id, request@));
                }
                CallOutcome::Waiting {
                    displaced: match displaced {
                        Some(p) => Some(p.ticket),
                        None => None,
                    },
                }
            },
            Err(error) => CallOutcome::Failed {
                reply: SessionError::Transport(error),
                end: SessionError::Closed,
            },
        }
    }

    fn waiting_ids(&self) -> (r: Vec<u64>)
        ensures
            r@.no_duplicates(),
            r@.to_set() == self@.pending.dom(),
    {
        let mut ids: Vec<u64> = Vec::new();
        let ghost keys = vstd::std_specs::iter::IteratorSpec::remaining(
            &self.pending.keys(),
        ).unref();
        for id in it: self.pending.keys()
            invariant
                it.seq().unref() == keys,
                ids@ == keys.take(it.index() as int),
        {
            ids.push(*id);
            proof {
                assert(*id == it.seq().unref()[it.index() as int]);
                assert(ids@ =~= keys.take(it.index() + 1));
            }
        }
        proof {
            assert(ids@ =~= keys);
            assert(self@.pending.dom() =~= self.pending@.dom());
        }
        ids
    }

    /// Ends all requests: gives out the ticket of every request that waits, in no
    /// particular order. Each caller is answered that the session is closed.
    pub fn stop(&mut self) -> (r: Vec<(u64, u64)>)
        ensures
            final(self)@ == (SessionData { pending: Map::empty(), ..old(self)@ }),
            final(self).codec() == old(self).codec(),
            r@.no_duplicates(),
            forall|id: u64, ticket: u64| #[trigger]
                r@.contains((id, ticket)) <==> (old(self)@.pending.contains_key(id)
                    && old(self)@.pending[id].ticket == ticket),
    {
        let ids: Vec<u64> = self.waiting_ids();
        let mut out: Vec<(u64, u64)> = Vec::new();
        let ghost before = self@.pending;
        for i in 0..ids.len()
            invariant
                before == self@.pending,
                ids@.no_duplicates(),
                ids@.to_set() == before.dom(),
                out@.len() == i,
                forall|k: int|
                    0 <= k < i ==> (#[trigger] out@[k]).0 == ids@[k] && out@[k].1
                        == before[ids@[k]].ticket,
        {
            proof {
                assert(ids@.to_set().contains(ids@[i as int]));
                assert(self.pending@.contains_key(ids@[i as int]));
            }
            let ticket: u64 = match self.pending.get(&ids[i]) {
                Some(p) => p.ticket,
                None => 0,
            };
            out.push((ids[i], ticket));
        }
        self.pending.clear();
        proof {
            assert(self@.pending =~= Map::<u64, PendingData>::empty());
            assert forall|id: u64, ticket: u64| #[trigger] out@.contains((id, ticket)) <==> (
            before.contains_key(id) && before[id].ticket == ticket) by {
                if out@.contains((id, ticket)) {
                    let k = choose|k: int| 0 <= k < out@.len() && out@[k] == (id, ticket);
                    assert(ids@.to_set().contains(ids@[k]));
                }
                if before.contains_key(id) && before[id].ticket == ticket {
                    assert(ids@.to_set().contains(id));
                    let k = choose|k: int| 0 <= k < ids@.len() && ids@[k] == id;
                    assert(out@[k] == (id, ticket));
                }
            }
            assert forall|a: int, b: int|
                0 <= a < out@.len() && 0 <= b < out@.len() && a != b implies out@[a] != out@[b] by {
                assert(out@[a].0 == ids@[a] && out@[b].0 == ids@[b]);
            }
        }
        out
    }

    /// The heartbeat frame, ready to be written; nothing where heartbeats are off.
    pub fn begin_heartbeat(&self) -> (r: Result<Option<Vec<u8>>, SessionError>)
        ensures
            if !self@.config.enable_heartbeat {
                r is Ok && r->Ok_0 is None
            } else {
                match self.codec().encoding(heartbeat_frame()) {
                    Ok(bytes) => r is Ok && r->Ok_0 is Some && r->Ok_0->0@ == bytes,
                    Err(error) => r is Err && r->Err_0@ == SessionErrorData::Codec(error.text()),
                }
            },
    {
        if !self.config.enable_heartbeat {
            return Ok(None);
        }
        let frame = Frame { request_id: 0, kind: KIND_HEARTBEAT, payload: Vec::new() };
        proof {
            assert(frame@ =~= heartbeat_frame());
        }
        match self.encode_frame(&frame) {
            Ok(bytes) => Ok(Some(bytes)),
            Err(error) => Err(error),
        }
    }

    /// After a heartbeat: where nothing has been received for longer than the heartbeat
    /// timeout, the session is degraded and the connection ends.
    pub fn finish_heartbeat(&mut self, store: &mut Store, now: Instant, wall: SystemTime) -> (r: (
        Vec<AppEvent>,
        Option<SessionError>,
    ))
        ensures
            final(self).codec() == old(self).codec(),
            if now.nanos - old(self)@.last_rx.nanos > old(self)@.config.heartbeat_timeout.nanos {
                &&& final(self)@ == with_state(old(self)@, ConnState::Degraded)
                &&& final(store)@ == state_store(
                    old(self)@,
                    old(store)@,
                    ConnState::Degraded,
                    wall,
                )
                &&& bus::event_data(r.0@) == state_events(
                    old(self)@,
                    old(store)@,
                    ConnState::Degraded,
                    wall,
                )
                &&& r.1 is Some && r.1->0@ == SessionErrorData::Timeout
            } else {
                &&& final(self)@ == old(self)@
                &&& final(store)@ == old(store)@
                &&& r.0@.len() == 0
                &&& r.1 is None
            },
    {
        if now.since(self.last_rx).nanos > self.config.heartbeat_timeout.nanos {
            let events = self.set_state(ConnState::Degraded, store, wall);
            (events, Some(SessionError::Timeout))
        } else {
            (Vec::new(), None)
        }
    }

    /// The numbers of the requests whose time is up, in no particular order.
    pub fn due(&self, now: Instant) -> (r: Vec<u64>)
        ensures
            r@.no_duplicates(),
            forall|id: u64| #[trigger]
                r@.contains(id) <==> (self@.pending.contains_key(id)
                    && self@.pending[id].deadline.nanos <= now.nanos),
    {
        let ids: Vec<u64> = self.waiting_ids();
        let mut out: Vec<u64> = Vec::new();
        let ghost pending = self@.pending;
        for i in 0..ids.len()
            invariant
                pending == self@.pending,
                ids@.no_duplicates(),
                ids@.to_set() == pending.dom(),
                out@.no_duplicates(),
                forall|id: u64| #[trigger]
                    out@.contains(id) <==> (ids@.take(i as int).contains(id)
                        && pending[id].deadline.nanos <= now.nanos),
        {
            let id: u64 = ids[i];
            proof {
                assert(ids@.to_set().contains(id));
                assert(self.pending@.contains_key(id));
                assert(!ids@.take(i as int).contains(id));
                assert(ids@.take(i + 1) =~= ids@.take(i as int).push(id));
            }
            let expired: bool = match self.pending.get(&id) {
                Some(p) => now.nanos >= p.deadline.nanos,
                None => false,
            };
            let ghost before = out@;
            proof {
                assert(!before.contains(id));
            }
            if expired {
                out.push(id);
                proof {
                    assert(out@.no_duplicates());
                }
            }
            proof {
                assert forall|k: u64| #[trigger] out@.contains(k) <==> (ids@.take(
                    i + 1,
                ).contains(k) && pending[k].deadline.nanos <= now.nanos) by {
                    assert(ids@.take(i + 1).contains(k) <==> (ids@.take(i as int).contains(k) || k
                        == id)) by {
                        if ids@.take(i as int).contains(k) {
                            let j = choose|j: int|
                                0 <= j < i && ids@.take(i as int)[j] == k;
                            assert(ids@.take(i + 1)[j] == k);
                        }
                        assert(ids@.take(i + 1)[i as int] == id);
                    }
                    if before.contains(k) {
                        let j = choose|j: int| 0 <= j < before.len() && before[j] == k;
                        assert(out@[j] == k);
                    }
                    if expired {
                        assert(out@[before.len() as int] == id);
                    }
                }
            }
        }
        proof {
            assert(ids@.take(ids@.len() as int) =~= ids@);
            assert forall|id: u64| #[trigger] out@.contains(id) <==> (pending.contains_key(id)
                && pending[id].deadline.nanos <= now.nanos) by {
                assert(ids@.contains(id) <==> ids@.to_set().contains(id));
            }
        }
        out
    }

    /// Deals with a request whose time is up: sends it again, or gives it up.
    pub fn expire(&mut self, id: u64, now: Instant) -> (r: Expiry)
        requires
            old(self)@.wf(),
            now.in_range(),
        ensures
            final(self)@.wf(),
            final(self).codec() == old(self).codec(),
            final(self)@ == expired(old(self).codec(), old(self)@, id, now).0,
            r@ == expired(old(self).codec(), old(self)@, id, now).1,
    {
        let ghost before = self@;
        let removed = self.pending.remove(&id);
        proof {
            assert(self@.pending =~= before.pending.remove(id));
        }
        match removed {
            None => {
                proof {
                    assert(self@.pending =~= before.pending);
                }
                Expiry::Gone
            },
            Some(p) => {
                proof {
                    assert(before.pending.contains_key(id) && before.pending[id] == p@);
                    assert(p@.cmd.timeout == p.cmd.timeout);
                }
                if p.cmd.idempotent && p.attempts < p.cmd.retry.max_attempts {
                    match self.begin_call(&p.cmd) {
                        Ok(bytes) => {
                            let deadline = now.after(p.cmd.timeout);
                            let again = PendingRequest {
                                cmd: p.cmd,
                                ticket: p.ticket,
                                deadline,
                                attempts: p.attempts + 1,
                            };
                            let _ = self.pending.insert(id, again);
                            proof {
                                assert(self@.pending =~= before.pending.insert(id, again@));
                            }
                            Expiry::Resend { bytes }
                        },
                        Err(error) => Expiry::Ended { ticket: p.ticket, error },
                    }
                } else {
                    Expiry::Expired {
                        ticket: p.ticket,
                        event: AppEvent::Device(
                            DeviceEvent::CommandResult {
                                device_id: text::owned(self.device_id.as_str()),
                                request_id: id,
                                ok: false,
                            },
                        ),
                    }
                }
            },
        }
    }

    /// Takes in what was read. Nothing read means that the other side has closed the
    /// connection. Anything else is a sign of life: a degraded session is ready again.
    pub fn receive(
        &mut self,
        data: &[u8],
        store: &mut Store,
        now: Instant,
        wall: SystemTime,
    ) -> (r: (Vec<AppEvent>, Option<SessionError>))
        requires
            buffer::fits_buffer(old(self)@.unread, data@.len()),
        ensures
            final(self).codec() == old(self).codec(),
            if data@.len() == 0 {
                &&& final(self)@ == old(self)@
                &&& final(store)@ == old(store)@
                &&& r.0@.len() == 0
                &&& r.1 is Some && r.1->0@ == SessionErrorData::Closed
            } else {
                let s = SessionData {
                    unread: old(self)@.unread + data@,
                    last_rx: now,
                    ..old(self)@
                };
                &&& r.1 is None
                &&& if old(self)@.state == ConnState::Degraded {
                    &&& final(self)@ == with_state(s, ConnState::Ready)
                    &&& final(store)@ == state_store(s, old(store)@, ConnState::Ready, wall)
                    &&& bus::event_data(r.0@) == state_events(
                        s,
                        old(store)@,
                        ConnState::Ready,
                        wall,
                    )
                } else {
                    &&& final(self)@ == s
                    &&& final(store)@ == old(store)@
                    &&& r.0@.len() == 0
                }
            },
    {
        if data.len() == 0 {
            return (Vec::new(), Some(SessionError::Closed));
        }
        buffer::extend_from_slice(&mut self.in_buf, data);
        self.last_rx = now;
        if self.state == ConnState::Degraded {
            let events = self.set_state(ConnState::Ready, store, wall);
            (events, None)
        } else {
            (Vec::new(), None)
        }
    }

    /// Deals with the next frame of what was read, if there is one.
    pub fn next_frame(&mut self, store: &mut Store, clock: Instant, wall: SystemTime) -> (r: Option<
        FrameStep,
    >)
        requires
            old(self)@.wf(),
        ensures
            final(self)@.wf(),
            final(self).codec() == old(self).codec(),
            ({
                let (found, rest) = old(self).codec().decoding(old(self)@.unread);
                let s = SessionData { unread: rest, ..old(self)@ };
                match found {
                    Ok(Some(frame)) => {
                        &&& r is Some
                        &&& r->0@ == frame_step(old(self).codec(), s, frame, clock, wall)
                        &&& final(self)@ == after_frame(s, frame)
                        &&& final(store)@ == store_after_frame(s, old(store)@, frame, wall)
                    },
                    Ok(None) => r is None && final(self)@ == s && final(store)@ == old(store)@,
                    Err(error) => {
                        &&& r is Some
                        &&& r->0@ == (StepData {
                            reply: None,
                            events: Seq::empty(),
                            write: None,
                            end: Some(SessionErrorData::Codec(error.text())),
                        })
                        &&& final(self)@ == s
                        &&& final(store)@ == old(store)@
                    },
                }
            }),
    {
        match self.codec.try_decode(&mut self.in_buf) {
            Ok(Some(frame)) => Some(self.handle_frame(frame, store, clock, wall)),
            Ok(None) => None,
            Err(error) => {
                let events: Vec<AppEvent> = Vec::new();
                proof {
                    bus::lemma_no_events(events@);
                }
                Some(
                    FrameStep {
                        reply: None,
                        events,
                        write: None,
                        end: Some(SessionError::Codec(error.to_text())),
                    },
                )
            },
        }
    }

    fn handle_frame(
        &mut self,
        frame: Frame,
        store: &mut Store,
        clock: Instant,
        wall: SystemTime,
    ) -> (r: FrameStep)
        requires
            old(self)@.wf(),
        ensures
            final(self)@.wf(),
            final(self).codec() == old(self).codec(),
            r@ == frame_step(old(self).codec(), old(self)@, frame@, clock, wall),
            final(self)@ == after_frame(old(self)@, frame@),
            final(store)@ == store_after_frame(old(self)@, old(store)@, frame@, wall),
    {
        let ghost s = self@;
        let mut events: Vec<AppEvent> = Vec::new();
        proof {
            bus::lemma_no_events(events@);
        }
        if frame.kind == KIND_HEARTBEAT_REPLY {
            return FrameStep { reply: None, events, write: None, end: None };
        }
        let waiting = self.pending.remove(&frame.request_id);
        proof {
            assert(self@.pending =~= s.pending.remove(frame.request_id));
        }
        if let Some(request) = waiting {
            proof {
                assert(s.pending[frame.request_id] == request@);
            }
            events.push(
                AppEvent::Device(
                    DeviceEvent::CommandResult {
                        device_id: text::owned(self.device_id.as_str()),
                        request_id: frame.request_id,
                        ok: true,
                    },
                ),
            );
            proof {
                assert(bus::event_data(events@) =~= seq![
                    EventData::CommandResult {
                        device_id: s.device_id,
                        request_id: frame.request_id,
                        ok: true,
                    },
                ]);
            }
            let response = Response {
                request_id: frame.request_id,
                code: frame.kind,
                payload: frame.payload,
                ts: wall,
            };
            return FrameStep {
                reply: Some((request.ticket, response)),
                events,
                write: None,
                end: None,
            };
        }
        proof {
            assert(self@.pending =~= s.pending);
        }
        if frame.kind == KIND_TELEMETRY {
            match payload::parse_sensor_value(frame.payload.as_slice()) {
                Some((sensor_id, value)) => {
                    self.keep_sample(sensor_id, value.as_str(), store, wall);
                    let sample = TelemetrySample {
                        device_id: text::owned(self.device_id.as_str()),
                        sensor_id,
                        t_sec: SampleTime::Elapsed {
                            nanos: clock.since(self.started).nanos,
                            groups: 0,
                        },
                        value: Number::Text(value),
                        req_id: frame.request_id,
                        alarm_bit: false,
                        source_kind: if text::starts_with(self.device_id.as_str(), "tcp://") {
                            TelemetrySourceKind::TcpFrame
                        } else {
                            TelemetrySourceKind::FrameStream
                        },
                    };
                    let events = bus::one_event(
                        AppEvent::Device(DeviceEvent::TelemetrySample(sample)),
                    );
                    let ack = Frame {
                        request_id: frame.request_id,
                        kind: KIND_ACK,
                        payload: ack_bytes(),
                    };
                    proof {
                        assert(ack@ =~= ack_frame(frame.request_id));
                    }
                    match self.encode_frame(&ack) {
                        Ok(bytes) => FrameStep {
                            reply: None,
                            events,
                            write: Some(bytes),
                            end: None,
                        },
                        Err(error) => FrameStep {
                            reply: None,
                            events,
                            write: None,
                            end: Some(error),
                        },
                    }
                },
                None => {
                    let events = bus::one_event(
                        self.warning(text::owned("invalid telemetry payload for kind=0x34")),
                    );
                    FrameStep { reply: None, events, write: None, end: None }
                },
            }
        } else {
            let mut msg = text::owned("unsolicited frame kind=");
            text::push_decimal(&mut msg, frame.kind as u64);
            let events = bus::one_event(self.warning(msg));
            FrameStep { reply: None, events, write: None, end: None }
        }
    }

    fn warning(&self, msg: String) -> (r: AppEvent)
        ensures
            r@ == (EventData::Log {
                device_id: self@.device_id,
                level: "warn"@,
                msg: msg@,
            }),
    {
        AppEvent::Device(
            DeviceEvent::Log {
                device_id: text::owned(self.device_id.as_str()),
                level: "warn",
                msg,
            },
        )
    }

    fn keep_sample(&self, sensor_id: usize, value: &str, store: &mut Store, wall: SystemTime)
        ensures
            ({
                let snapshot = sample_snapshot(
                    self@,
                    old(store)@,
                    sensor_id as nat,
                    value@,
                    wall,
                );
                final(store)@ == old(store)@.insert(snapshot.device_id, snapshot)
            }),
    {
        let mut snapshot = match store.snapshot(self.device_id.as_str()) {
            Some(snapshot) => snapshot,
            None => DeviceSnapshot::fresh(self.device_id.as_str()),
        };
        snapshot.last_seen = Some(wall);
        let mut name = text::owned("sensor_");
        text::push_decimal(&mut name, sensor_id as u64);
        snapshot.telemetry.insert(name, Number::Text(text::owned(value)));
        proof {
            assert(snapshot@ =~= sample_snapshot(
                self@,
                old(store)@,
                sensor_id as nat,
                value@,
                wall,
            ));
        }
        store.upsert_snapshot(snapshot);
    }

    /// A connection is about to be made.
    pub fn connecting(&mut self, store: &mut Store, wall: SystemTime) -> (r: Vec<AppEvent>)
        ensures
            final(self)@ == with_state(old(self)@, ConnState::Connecting),
            final(self).codec() == old(self).codec(),
            final(store)@ == state_store(old(self)@, old(store)@, ConnState::Connecting, wall),
            bus::event_data(r@) == state_events(
                old(self)@,
                old(store)@,
                ConnState::Connecting,
                wall,
            ),
    {
        self.set_state(ConnState::Connecting, store, wall)
    }

    /// The connection is there: after the handshake the session is ready, with nothing
    /// waiting and nothing unread.
    pub fn connected(&mut self, store: &mut Store, now: Instant, wall: SystemTime) -> (r: Vec<
        AppEvent,
    >)
        requires
            old(self)@.wf(),
        ensures
            final(self)@.wf(),
            final(self).codec() == old(self).codec(),
            final(self)@ == (SessionData {
                state: ConnState::Ready,
                pending: Map::empty(),
                unread: Seq::empty(),
                last_rx: now,
                started: now,
                ..old(self)@
            }),
            ({
                let s = old(self)@;
                let shaking = with_state(s, ConnState::Handshaking);
                let store1 = state_store(s, old(store)@, ConnState::Handshaking, wall);
                &&& final(store)@ == state_store(shaking, store1, ConnState::Ready, wall)
                &&& bus::event_data(r@) == state_events(
                    s,
                    old(store)@,
                    ConnState::Handshaking,
                    wall,
                ) + state_events(shaking, store1, ConnState::Ready, wall)
            }),
    {
        let mut events = self.set_state(ConnState::Handshaking, store, wall);
        let ghost first = events@;
        let mut more = self.set_state(ConnState::Ready, store, wall);
        let ghost second = more@;
        events.append(&mut more);
        proof {
            assert(bus::event_data(first + second) =~= bus::event_data(first) + bus::event_data(
                second,
            ));
        }
        self.pending.clear();
        buffer::clear(&mut self.in_buf);
        self.last_rx = now;
        self.started = now;
        proof {
            assert(self@.pending =~= Map::<u64, PendingData>::empty());
        }
        events
    }

    /// The connection is over, or could not be made.
    pub fn disconnected(&mut self, orderly: bool, store: &mut Store, wall: SystemTime) -> (r: (
        Vec<AppEvent>,
        AfterConnection,
    ))
        requires
            old(self)@.wf(),
        ensures
            final(self)@.wf(),
            final(self).codec() == old(self).codec(),
            ({
                let (after, next) = connection_over(old(self)@, orderly);
                &&& final(self)@ == after
                &&& r.1 == next
                &&& final(store)@ == state_store(old(self)@, old(store)@, after.state, wall)
                &&& bus::event_data(r.0@) == state_events(
                    old(self)@,
                    old(store)@,
                    after.state,
                    wall,
                )
            }),
    {
        if orderly || !self.config.reconnect_enabled {
            let events = self.set_state(ConnState::Disconnected, store, wall);
            (events, AfterConnection::Stop)
        } else {
            let events = self.set_state(ConnState::Reconnecting, store, wall);
            let delay = self.backoff;
            self.backoff = delay.doubled_up_to(self.config.reconnect_max);
            (events, AfterConnection::Retry(delay))
        }
    }
}

/// The bytes of `demo2-ack`.
fn ack_bytes() -> (r: Vec<u8>)
    ensures
        r@ == ack_payload(),
{
    let bytes: [u8; 9] = [0x64, 0x65, 0x6D, 0x6F, 0x32, 0x2D, 0x61, 0x63, 0x6B];
    let r: Vec<u8> = slice_to_vec(&bytes);
    proof {
        assert(r@ =~= ack_payload());
    }
    r
}

/// A change of state is announced as one from the state before it, and only where there is a
/// change; the announcements of one change after another join up.
pub proof fn law_state_changes_join_up(
    s: SessionData,
    store: Map<Seq<char>, SnapshotData>,
    first: ConnState,
    second: ConnState,
    wall: SystemTime,
    later: SystemTime,
)
    requires
        first != s.state,
        second != first,
    ensures
        ({
            let one = state_events(s, store, first, wall);
            let two = state_events(
                with_state(s, first),
                state_store(s, store, first, wall),
                second,
                later,
            );
            &&& one[0] == (EventData::ConnStateChanged {
                device_id: s.device_id,
                from: s.state,
                to: first,
            })
            &&& two[0] == (EventData::ConnStateChanged {
                device_id: s.device_id,
                from: first,
                to: second,
            })
            &&& state_events(with_state(s, first), store, first, later).len() == 0
        }),
{
}

/// The wait before the `k`-th new connection, counted from zero.
pub open spec fn wait_before(config: SessionConfig, k: nat) -> nat
    decreases k,
{
    if k == 0 {
        config.reconnect_base.nanos as nat
    } else {
        let doubled = 2 * wait_before(config, (k - 1) as nat);
        if doubled <= config.reconnect_max.nanos {
            doubled
        } else {
            config.reconnect_max.nanos as nat
        }
    }
}

/// The waits before new connections double from one to the next until they reach the limit,
/// and stay there.
pub proof fn law_backoff(config: SessionConfig, k: nat)
    ensures
        k > 0 ==> wait_before(config, k) == ({
            let unlimited = config.reconnect_base.nanos * vstd::arithmetic::power2::pow2(k);
            if unlimited <= config.reconnect_max.nanos {
                unlimited
            } else {
                config.reconnect_max.nanos as int
            }
        }),
        k > 0 ==> wait_before(config, k) <= config.reconnect_max.nanos,
        config.reconnect_base.nanos <= config.reconnect_max.nanos ==> wait_before(config, k)
            <= wait_before(config, k + 1),
    decreases k,
{
    vstd::arithmetic::power2::lemma2_to64();
    if k > 0 {
        law_backoff(config, (k - 1) as nat);
        vstd::arithmetic::power2::lemma_pow2_unfold(k);
        let base = config.reconnect_base.nanos as int;
        let half = vstd::arithmetic::power2::pow2((k - 1) as nat) as int;
        assert(base * (2 * half) == 2 * (base * half)) by (nonlinear_arith);
        if k == 1 {
            assert(base * 2 == 2 * base);
        }
    }
}

/// `disconnected` walks along these waits.
pub proof fn law_backoff_step(s: SessionData, k: nat)
    requires
        s.backoff.nanos == wait_before(s.config, k),
    ensures
        next_backoff(s).nanos == wait_before(s.config, k + 1),
{
}

/// What has come of a run of connections that could not be made.
#[verifier::ext_equal]
pub ghost struct FailedRun {
    pub session: SessionData,
    pub store: Map<Seq<char>, SnapshotData>,
    /// What was announced.
    pub events: Seq<EventData>,
    /// What was to be done after each.
    pub after: Seq<AfterConnection>,
}

/// A run of connections that could not be made, each tried at one moment and given up at
/// another: `connecting`, then `disconnected`.
pub open spec fn failed_run(
    s: SessionData,
    store: Map<Seq<char>, SnapshotData>,
    moments: Seq<(SystemTime, SystemTime)>,
) -> FailedRun
    decreases moments.len(),
{
    if moments.len() == 0 {
        FailedRun { session: s, store, events: Seq::empty(), after: Seq::empty() }
    } else {
        let (tried, given_up) = moments.last();
        let run = failed_run(s, store, moments.drop_last());
        let trying = with_state(run.session, ConnState::Connecting);
        let store1 = state_store(run.session, run.store, ConnState::Connecting, tried);
        let (session, after) = connection_over(trying, false);
        FailedRun {
            session,
            store: state_store(trying, store1, session.state, given_up),
            events: run.events + state_events(
                run.session,
                run.store,
                ConnState::Connecting,
                tried,
            ) + state_events(trying, store1, session.state, given_up),
            after: run.after.push(after),
        }
    }
}

/// Over any number of connections that could not be made, a session that may reconnect is
/// connecting and reconnecting in turn, and announces each of these changes. It waits a first
/// time as long as the configuration says, and twice as long each time after that, up to the
/// limit. Its requests, what it has read and its configuration stay as they were.
pub proof fn law_failed_connections(
    s: SessionData,
    store: Map<Seq<char>, SnapshotData>,
    moments: Seq<(SystemTime, SystemTime)>,
)
    requires
        s.config.reconnect_enabled,
        s.backoff == s.config.reconnect_base,
        s.state != ConnState::Connecting,
    ensures
        ({
            let n = moments.len();
            let run = failed_run(s, store, moments);
            &&& run.session == (SessionData {
                state: if n == 0 {
                    s.state
                } else {
                    ConnState::Reconnecting
                },
                backoff: run.session.backoff,
                ..s
            })
            &&& run.session.backoff.nanos == wait_before(s.config, n)
            &&& run.after.len() == n
            &&& run.events.len() == 4 * n
            &&& forall|k: int| 0 <= k < n ==> #[trigger] is_failed_round(s, run, k)
        }),
    decreases moments.len(),
{
    let n = moments.len();
    let run = failed_run(s, store, moments);
    if n > 0 {
        let earlier = failed_run(s, store, moments.drop_last());
        law_failed_connections(s, store, moments.drop_last());
        let trying = with_state(earlier.session, ConnState::Connecting);
        law_backoff_step(trying, (n - 1) as nat);
        assert forall|k: int| 0 <= k < n implies #[trigger] is_failed_round(s, run, k) by {
            if k < n - 1 {
                assert(is_failed_round(s, earlier, k));
                assert(run.after[k] == earlier.after[k]);
                assert(run.events[4 * k] == earlier.events[4 * k]);
                assert(run.events[4 * k + 1] == earlier.events[4 * k + 1]);
                assert(run.events[4 * k + 2] == earlier.events[4 * k + 2]);
                assert(run.events[4 * k + 3] == earlier.events[4 * k + 3]);
            }
        }
    }
}

/// Whether a run has, as the `k`-th connection that could not be made, one that the session
/// began from the state it was in, announced, and gave up to wait as long as the configuration
/// says.
pub open spec fn is_failed_round(s: SessionData, run: FailedRun, k: int) -> bool {
    &&& run.after[k] matches AfterConnection::Retry(wait) && wait.nanos == wait_before(
        s.config,
        k as nat,
    )
    &&& run.events[4 * k] == (EventData::ConnStateChanged {
        device_id: s.device_id,
        from: if k == 0 {
            s.state
        } else {
            ConnState::Reconnecting
        },
        to: ConnState::Connecting,
    })
    &&& run.events[4 * k + 1] matches EventData::TelemetryUpdated { device_id, snapshot }
        && device_id == s.device_id && snapshot.conn_state == ConnState::Connecting
    &&& run.events[4 * k + 2] == (EventData::ConnStateChanged {
        device_id: s.device_id,
        from: ConnState::Connecting,
        to: ConnState::Reconnecting,
    })
    &&& run.events[4 * k + 3] matches EventData::TelemetryUpdated { device_id, snapshot }
        && device_id == s.device_id && snapshot.conn_state == ConnState::Reconnecting
}

/// What may happen to a session, as far as its requests go.
pub ghost enum Happening {
    /// The frame of a call was written.
    Called { cmd: CommandData, ticket: u64, now: Instant },
    /// The time of a request was up.
    Expired { id: u64, now: Instant },
    /// A frame came in.
    Frame(FrameData),
    /// All requests were ended: the session was stopped, or has a new connection.
    Ended,
    /// Something that leaves the requests alone.
    Else(SessionData),
}

/// The session behind what happened to it, and the number of the request whose frame was
/// written, where one was.
pub open spec fn happened<C: FrameCodec>(codec: C, s: SessionData, what: Happening) -> (
    SessionData,
    Option<u64>,
) {
    match what {
        Happening::Called { cmd, ticket, now } => (
            after_call(s, cmd, ticket, now),
            Some(cmd.request_id),
        ),
        Happening::Expired { id, now } => {
            let (after, outcome) = expired(codec, s, id, now);
            (
                after,
                if outcome is Resend {
                    Some(id)
                } else {
                    None
                },
            )
        },
        Happening::Frame(frame) => (after_frame(s, frame), None),
        Happening::Ended => (SessionData { pending: Map::empty(), ..s }, None),
        Happening::Else(after) => (SessionData { pending: s.pending, ..after }, None),
    }
}

/// How often the frame of a request is written while things happen to a session.
pub open spec fn times_written<C: FrameCodec>(
    codec: C,
    s: SessionData,
    whats: Seq<Happening>,
    id: u64,
) -> nat
    decreases whats.len(),
{
    if whats.len() == 0 {
        0
    } else {
        let (after, written) = happened(codec, s, whats[0]);
        let rest = times_written(codec, after, whats.skip(1), id);
        if written == Some(id) {
            1 + rest
        } else {
            rest
        }
    }
}

/// How often a command may be written: as often as its retry policy says where it may be
/// repeated, and once in any case.
pub open spec fn write_limit(cmd: CommandData) -> nat {
    if cmd.idempotent && cmd.retry.max_attempts > 1 {
        cmd.retry.max_attempts as nat
    } else {
        1
    }
}

/// How often the command that waits under a number may still be written.
pub open spec fn writes_left(s: SessionData, id: u64) -> nat {
    if s.pending.contains_key(id) && s.pending[id].cmd.idempotent && s.pending[id].attempts
        < s.pending[id].cmd.retry.max_attempts {
        (s.pending[id].cmd.retry.max_attempts - s.pending[id].attempts) as nat
    } else {
        0
    }
}

proof fn lemma_times_written<C: FrameCodec>(
    codec: C,
    s: SessionData,
    whats: Seq<Happening>,
    id: u64,
)
    requires
        forall|i: int|
            0 <= i < whats.len() ==> ((#[trigger] whats[i]) matches Happening::Called { cmd, .. }
                ==> cmd.request_id != id),
    ensures
        times_written(codec, s, whats, id) <= writes_left(s, id),
    decreases whats.len(),
{
    if whats.len() > 0 {
        let (after, written) = happened(codec, s, whats[0]);
        let rest = whats.skip(1);
        assert forall|i: int| 0 <= i < rest.len() implies ((
        #[trigger] rest[i]) matches Happening::Called { cmd, .. } ==> cmd.request_id != id) by {
            assert(rest[i] == whats[i + 1]);
        }
        lemma_times_written(codec, after, rest, id);
    }
}

/// A command is written at most as often as its retry policy allows where it may be repeated,
/// and once otherwise, whatever happens to the session after the call, as long as no other
/// command is called under its number.
pub proof fn law_writes_are_limited<C: FrameCodec>(
    codec: C,
    s: SessionData,
    cmd: CommandData,
    ticket: u64,
    now: Instant,
    whats: Seq<Happening>,
)
    requires
        forall|i: int|
            0 <= i < whats.len() ==> ((#[trigger] whats[i]) matches Happening::Called {
                cmd: other,
                ..
            } ==> other.request_id != cmd.request_id),
    ensures
        1 + times_written(codec, after_call(s, cmd, ticket, now), whats, cmd.request_id)
            <= write_limit(cmd),
{
    lemma_times_written(codec, after_call(s, cmd, ticket, now), whats, cmd.request_id);
}

/// The time of a request was up at each of some moments.
pub open spec fn expiries(id: u64, moments: Seq<Instant>) -> Seq<Happening> {
    moments.map_values(|now: Instant| Happening::Expired { id, now })
}

proof fn lemma_written_again<C: FrameCodec>(
    codec: C,
    s: SessionData,
    id: u64,
    moments: Seq<Instant>,
)
    requires
        s.pending.contains_key(id) ==> codec.encoding(command_frame(s.pending[id].cmd)) is Ok,
    ensures
        times_written(codec, s, expiries(id, moments), id) == if moments.len() <= writes_left(
            s,
            id,
        ) {
            moments.len()
        } else {
            writes_left(s, id)
        },
    decreases moments.len(),
{
    let whats = expiries(id, moments);
    if moments.len() > 0 {
        let (after, written) = happened(codec, s, whats[0]);
        assert(whats.skip(1) =~= expiries(id, moments.skip(1)));
        lemma_written_again(codec, after, id, moments.skip(1));
    }
}

/// A command that may be repeated and gets no answer is written once more each time its time
/// is up, until it has been written as often as it may be.
pub proof fn law_unanswered_is_repeated<C: FrameCodec>(
    codec: C,
    s: SessionData,
    cmd: CommandData,
    ticket: u64,
    now: Instant,
    moments: Seq<Instant>,
)
    requires
        codec.encoding(command_frame(cmd)) is Ok,
    ensures
        1 + times_written(
            codec,
            after_call(s, cmd, ticket, now),
            expiries(cmd.request_id, moments),
            cmd.request_id,
        ) == if 1 + moments.len() <= write_limit(cmd) {
            1 + moments.len()
        } else {
            write_limit(cmd)
        },
{
    lemma_written_again(codec, after_call(s, cmd, ticket, now), cmd.request_id, moments);
}

/// A request is answered once: a frame under its number gives the answer to whoever asked,
/// and a second frame under that number gives no answer any more.
pub proof fn law_answered_once<C: FrameCodec>(
    codec: C,
    s: SessionData,
    first: FrameData,
    second: FrameData,
    clock: Instant,
    wall: SystemTime,
)
    requires
        s.pending.contains_key(first.request_id),
        first.kind != KIND_HEARTBEAT_REPLY,
        second.request_id == first.request_id,
    ensures
        frame_step(codec, s, first, clock, wall).reply == Some(
            (
                s.pending[first.request_id].ticket,
                ResponseData {
                    request_id: first.request_id,
                    code: first.kind,
                    payload: first.payload,
                    ts: wall,
                },
            ),
        ),
        frame_step(codec, after_frame(s, first), second, clock, wall).reply is None,
        forall|id: u64|
            id != first.request_id ==> after_frame(s, first).pending.contains_key(id)
                == s.pending.contains_key(id),
{
}

/// A telemetry frame from a sender becomes one sample with the sensor and the value that the
/// sender wrote, and is acknowledged under its own number; the acknowledgement can be read
/// back by the sender.
pub proof fn law_telemetry_is_acknowledged(
    codec: crate::protocol::SimpleFrameCodec,
    s: SessionData,
    request_id: u64,
    sensor_id: nat,
    value: Seq<char>,
    clock: Instant,
    wall: SystemTime,
)
    requires
        codec.max_payload >= 9,
        sensor_id <= usize::MAX,
        text::is_float(value),
        !s.pending.contains_key(request_id),
    ensures
        ({
            let frame = FrameData {
                request_id,
                kind: KIND_TELEMETRY,
                payload: vstd::utf8::encode_utf8(payload::payload_text(sensor_id, value)),
            };
            let step = frame_step(codec, s, frame, clock, wall);
            &&& step.events.len() == 1
            &&& step.events[0] matches EventData::TelemetrySample(sample) && sample.sensor_id
                == sensor_id && sample.value == NumberData::Text(value) && sample.req_id
                == request_id && sample.device_id == s.device_id
            &&& step.end is None
            &&& step.write is Some
            &&& crate::protocol::stream::first_frame(codec.scan(), step.write->0) == (
                Some(ack_frame(request_id)),
                Seq::<u8>::empty(),
            )
        }),
{
    payload::law_payload_round_trip(sensor_id, value);
    crate::protocol::law_frame_round_trip(
        codec.max_payload as nat,
        ack_frame(request_id),
        Seq::empty(),
    );
    let bytes = crate::protocol::frame_bytes(ack_frame(request_id));
    assert(bytes + Seq::<u8>::empty() =~= bytes);
}

// ---- what holds of all commands, frames and states ----

/// A command to read a parameter goes out in a frame of the kind 0x01, one to write a parameter
/// in one of 0x02, one to control in one of 0x03, and any other in one of its own code, with
/// the command's number and payload. In the bytes that are written, the kind stands at byte 12
/// and the payload behind it; the other side reads the frame back.
pub proof fn law_command_goes_out(codec: crate::protocol::SimpleFrameCodec, cmd: CommandData)
    ensures
        ({
            let kind = match cmd.kind {
                domain::CommandKind::ReadParam => 0x01u8,
                domain::CommandKind::WriteParam => 0x02u8,
                domain::CommandKind::Control => 0x03u8,
                domain::CommandKind::Custom(code) => code,
            };
            let frame = command_frame(cmd);
            &&& frame.kind == kind
            &&& frame.request_id == cmd.request_id
            &&& frame.payload == cmd.payload
            &&& cmd.payload.len() <= codec.max_payload && cmd.payload.len() <= 65_526
                ==> (codec.encoding(frame) matches Ok(bytes) && {
                &&& bytes.len() == cmd.payload.len() + 15
                &&& bytes[0] == 0xAA
                &&& bytes[1] == 0x55
                &&& bytes[12] == kind
                &&& bytes.subrange(13, 13 + cmd.payload.len() as int) == cmd.payload
                &&& crate::protocol::stream::first_frame(codec.scan(), bytes) == (
                    Some(FrameData { request_id: cmd.request_id, kind, payload: cmd.payload }),
                    Seq::<u8>::empty(),
                )
            })
        }),
{
    let frame = command_frame(cmd);
    if cmd.payload.len() <= codec.max_payload && cmd.payload.len() <= 65_526 {
        crate::protocol::law_frame_layout(frame);
        crate::protocol::law_frame_round_trip(codec.max_payload as nat, frame, Seq::empty());
        let bytes = crate::protocol::frame_bytes(frame);
        assert(bytes + Seq::<u8>::empty() =~= bytes);
    }
}

/// A heartbeat is a frame of the kind 0xF0 under the number 0, with nothing in it; a telemetry
/// frame is acknowledged under its own number by one of the kind 0x90 that spells "demo2-ack".
pub proof fn law_heartbeat_and_ack(request_id: u64)
    ensures
        heartbeat_frame().kind == 0xF0,
        heartbeat_frame().request_id == 0,
        heartbeat_frame().payload.len() == 0,
        ack_frame(request_id).kind == 0x90,
        ack_frame(request_id).request_id == request_id,
        ack_frame(request_id).payload.len() == "demo2-ack"@.len(),
        forall|i: int|
            0 <= i < 9 ==> (#[trigger] ack_frame(request_id).payload[i]) as int
                == "demo2-ack"@[i] as int,
{
    reveal_strlit("demo2-ack");
}

/// What comes of a frame that answers no request. The kind 0xF1, an answered heartbeat, leads
/// to nothing; one of the kind 0x34 that can be read becomes one sample, without an alarm bit,
/// of the device under the frame's number; one that cannot be read, and one of any other kind,
/// becomes one warning. Nobody is answered, and the session stays as it was.
pub proof fn law_frame_without_request<C: FrameCodec>(
    codec: C,
    s: SessionData,
    frame: FrameData,
    clock: Instant,
    wall: SystemTime,
)
    requires
        !s.pending.contains_key(frame.request_id),
    ensures
        ({
            let step = frame_step(codec, s, frame, clock, wall);
            &&& step.reply is None
            &&& after_frame(s, frame) == s
            &&& frame.kind == 0xF1 ==> step.events.len() == 0 && step.write is None && step.end
                is None
            &&& frame.kind != 0xF1 ==> step.events.len() == 1
            &&& frame.kind == 0x34 ==> match payload::sensor_value(frame.payload) {
                Some((sensor_id, value)) => {
                    &&& step.events[0] matches EventData::TelemetrySample(sample)
                        && sample.device_id == s.device_id && sample.sensor_id
                        == sensor_id as usize && sample.value == NumberData::Text(value)
                        && sample.req_id == frame.request_id && !sample.alarm_bit
                        && sample.source_kind == source_of(s.device_id) && sample.t_sec
                        == (SampleTime::Elapsed { nanos: elapsed(s, clock), groups: 0 })
                    &&& match codec.encoding(ack_frame(frame.request_id)) {
                        Ok(bytes) => step.write == Some(bytes) && step.end is None,
                        Err(error) => step.write is None && step.end == Some(
                            SessionErrorData::Codec(error.text()),
                        ),
                    }
                },
                None => {
                    &&& step.events[0] == (EventData::Log {
                        device_id: s.device_id,
                        level: "warn"@,
                        msg: "invalid telemetry payload for kind=0x34"@,
                    })
                    &&& step.write is None
                    &&& step.end is None
                },
            }
            &&& frame.kind != 0x34 && frame.kind != 0xF1 ==> {
                &&& step.events[0] == (EventData::Log {
                    device_id: s.device_id,
                    level: "warn"@,
                    msg: "unsolicited frame kind="@ + text::decimal(frame.kind as nat),
                })
                &&& step.write is None
                &&& step.end is None
            }
        }),
{
}

/// A frame under the number of a request that waits answers whoever asked, with the frame's
/// kind, payload and moment; success is announced once, and the request waits no more. Nothing
/// else changes. The answer to a heartbeat answers no request.
pub proof fn law_frame_answers<C: FrameCodec>(
    codec: C,
    s: SessionData,
    frame: FrameData,
    clock: Instant,
    wall: SystemTime,
    store: Map<Seq<char>, SnapshotData>,
)
    requires
        s.pending.contains_key(frame.request_id),
    ensures
        ({
            let step = frame_step(codec, s, frame, clock, wall);
            let after = after_frame(s, frame);
            if frame.kind == 0xF1 {
                step.reply is None && step.events.len() == 0 && after == s
            } else {
                &&& step.reply matches Some((ticket, response)) && ticket
                    == s.pending[frame.request_id].ticket && response.request_id
                    == frame.request_id && response.code == frame.kind && response.payload
                    == frame.payload && response.ts == wall
                &&& step.events.len() == 1
                &&& step.events[0] == (EventData::CommandResult {
                    device_id: s.device_id,
                    request_id: frame.request_id,
                    ok: true,
                })
                &&& step.write is None
                &&& step.end is None
                &&& after.pending == s.pending.remove(frame.request_id)
                &&& after.state == s.state
                &&& after.device_id == s.device_id
                &&& after.unread == s.unread
                &&& after.backoff == s.backoff
                &&& after.last_rx == s.last_rx
                &&& after.started == s.started
            }
        }),
        store_after_frame(s, store, frame, wall) == store,
{
}

/// The store holds a value that was read from a telemetry frame under the name of its sensor,
/// with the moment it came; what else is known of the device, and of other devices, stays.
pub proof fn law_value_is_stored(
    s: SessionData,
    store: Map<Seq<char>, SnapshotData>,
    frame: FrameData,
    wall: SystemTime,
    other: Seq<char>,
    name: Seq<char>,
)
    requires
        !s.pending.contains_key(frame.request_id),
        forall|id: Seq<char>| #[trigger]
            store.contains_key(id) ==> store[id].device_id == id,
    ensures
        ({
            let after = store_after_frame(s, store, frame, wall);
            let before = if store.contains_key(s.device_id) {
                store[s.device_id]
            } else {
                domain::fresh_snapshot(s.device_id)
            };
            &&& frame.kind == 0x34 ==> (payload::sensor_value(frame.payload) matches Some(
                (sensor_id, value),
            ) ==> {
                let key = "sensor_"@ + text::decimal(sensor_id);
                &&& after.contains_key(s.device_id)
                &&& after[s.device_id].device_id == s.device_id
                &&& after[s.device_id].last_seen == Some(wall)
                &&& after[s.device_id].conn_state == before.conn_state
                &&& after[s.device_id].alarms_active == before.alarms_active
                &&& after[s.device_id].telemetry.contains_key(key)
                &&& after[s.device_id].telemetry[key] == NumberData::Text(value)
                &&& name != key ==> (after[s.device_id].telemetry.contains_key(name)
                    <==> before.telemetry.contains_key(name))
                &&& name != key && before.telemetry.contains_key(name)
                    ==> after[s.device_id].telemetry[name] == before.telemetry[name]
            })
            &&& frame.kind != 0x34 || payload::sensor_value(frame.payload) is None ==> after
                == store
            &&& other != s.device_id ==> (after.contains_key(other) <==> store.contains_key(other))
            &&& other != s.device_id && store.contains_key(other) ==> after[other] == store[other]
        }),
{
}

/// A device that is reached over TCP gives samples of that source, any other samples of a
/// frame stream.
pub proof fn law_source_by_address(address: Seq<char>, device_id: Seq<char>)
    ensures
        source_of("tcp://"@ + address) == TelemetrySourceKind::TcpFrame,
        device_id.len() < 6 || device_id[0] != 't' || device_id[1] != 'c' || device_id[2] != 'p'
            || device_id[3] != ':' || device_id[4] != '/' || device_id[5] != '/' ==> source_of(
            device_id,
        ) == TelemetrySourceKind::FrameStream,
{
    reveal_strlit("tcp://");
    assert(("tcp://"@ + address).take(6) =~= "tcp://"@);
    let p = device_id.take(6);
    if device_id.len() >= 6 && p == "tcp://"@ {
        assert(p[0] == device_id[0] && p[1] == device_id[1] && p[2] == device_id[2] && p[3]
            == device_id[3] && p[4] == device_id[4] && p[5] == device_id[5]);
    }
}

/// The latest snapshot of a device tells the state that its session has gone over to and when;
/// its values and alarms stay, and so does what is known of other devices. To stay in a state
/// changes nothing and announces nothing.
pub proof fn law_state_is_stored(
    s: SessionData,
    store: Map<Seq<char>, SnapshotData>,
    next: ConnState,
    wall: SystemTime,
    other: Seq<char>,
)
    requires
        forall|id: Seq<char>| #[trigger]
            store.contains_key(id) ==> store[id].device_id == id,
    ensures
        with_state(s, next).state == next,
        with_state(s, next).pending == s.pending,
        with_state(s, next).unread == s.unread,
        with_state(s, next).backoff == s.backoff,
        with_state(s, next).device_id == s.device_id,
        s.state == next ==> state_store(s, store, next, wall) == store && state_events(
            s,
            store,
            next,
            wall,
        ).len() == 0,
        s.state != next ==> ({
            let after = state_store(s, store, next, wall);
            let events = state_events(s, store, next, wall);
            &&& after.contains_key(s.device_id)
            &&& after[s.device_id].device_id == s.device_id
            &&& after[s.device_id].conn_state == next
            &&& after[s.device_id].last_seen == Some(wall)
            &&& store.contains_key(s.device_id) ==> after[s.device_id].telemetry
                == store[s.device_id].telemetry && after[s.device_id].alarms_active
                == store[s.device_id].alarms_active
            &&& !store.contains_key(s.device_id) ==> after[s.device_id].telemetry == Map::<
                Seq<char>,
                NumberData,
            >::empty() && after[s.device_id].alarms_active.len() == 0
            &&& other != s.device_id ==> (after.contains_key(other) <==> store.contains_key(other))
            &&& other != s.device_id && store.contains_key(other) ==> after[other] == store[other]
            &&& events.len() == 2
            &&& events[0] == (EventData::ConnStateChanged {
                device_id: s.device_id,
                from: s.state,
                to: next,
            })
            &&& events[1] == (EventData::TelemetryUpdated {
                device_id: s.device_id,
                snapshot: after[s.device_id],
            })
        }),
{
}

/// A request that was written waits under its number, written once, until its time is up
/// counted from now; other requests, and the rest of the session, stay as they were.
pub proof fn law_call_waits(
    s: SessionData,
    cmd: CommandData,
    ticket: u64,
    now: Instant,
    other: u64,
)
    requires
        now.nanos + cmd.timeout.nanos <= u128::MAX,
    ensures
        ({
            let after = after_call(s, cmd, ticket, now);
            &&& after.pending.contains_key(cmd.request_id)
            &&& after.pending[cmd.request_id].cmd == cmd
            &&& after.pending[cmd.request_id].ticket == ticket
            &&& after.pending[cmd.request_id].attempts == 1
            &&& after.pending[cmd.request_id].deadline.nanos == now.nanos + cmd.timeout.nanos
            &&& other != cmd.request_id ==> (after.pending.contains_key(other)
                <==> s.pending.contains_key(other))
            &&& other != cmd.request_id && s.pending.contains_key(other)
                ==> after.pending[other] == s.pending[other]
            &&& after.state == s.state
            &&& after.unread == s.unread
            &&& after.backoff == s.backoff
            &&& after.last_rx == s.last_rx
        }),
{
}

/// A request whose time is up is written again, as the same command, where it may be repeated
/// and has been written less often than allowed: one time more, with a new deadline. Otherwise
/// it is forgotten, its caller is answered, and that it failed is announced. Other requests
/// stay as they were.
pub proof fn law_time_is_up<C: FrameCodec>(
    codec: C,
    s: SessionData,
    id: u64,
    now: Instant,
    other: u64,
)
    requires
        s.pending.contains_key(id),
        now.nanos + s.pending[id].cmd.timeout.nanos <= u128::MAX,
    ensures
        ({
            let p = s.pending[id];
            let (after, what) = expired(codec, s, id, now);
            let again = p.cmd.idempotent && p.attempts < p.cmd.retry.max_attempts;
            &&& again ==> match codec.encoding(command_frame(p.cmd)) {
                Ok(bytes) => {
                    &&& what == (ExpiryData::Resend { bytes })
                    &&& after.pending.contains_key(id)
                    &&& after.pending[id].cmd == p.cmd
                    &&& after.pending[id].ticket == p.ticket
                    &&& after.pending[id].attempts == p.attempts + 1
                    &&& after.pending[id].deadline.nanos == now.nanos + p.cmd.timeout.nanos
                },
                Err(error) => {
                    &&& what == (ExpiryData::Ended {
                        ticket: p.ticket,
                        error: SessionErrorData::Codec(error.text()),
                    })
                    &&& !after.pending.contains_key(id)
                },
            }
            &&& !again ==> {
                &&& what == (ExpiryData::Expired {
                    ticket: p.ticket,
                    event: EventData::CommandResult {
                        device_id: s.device_id,
                        request_id: id,
                        ok: false,
                    },
                })
                &&& !after.pending.contains_key(id)
            }
            &&& other != id ==> (after.pending.contains_key(other) <==> s.pending.contains_key(
                other,
            ))
            &&& other != id && s.pending.contains_key(other) ==> after.pending[other]
                == s.pending[other]
            &&& after.state == s.state
            &&& after.backoff == s.backoff
            &&& after.unread == s.unread
        }),
{
}

/// A connection that ended as it should, or in a session that does not reconnect, leaves the
/// session disconnected for good. After any other the session waits as long as it was to wait,
/// and the wait after that is twice as long, up to the limit.
pub proof fn law_connection_over(s: SessionData, orderly: bool)
    ensures
        ({
            let (after, what) = connection_over(s, orderly);
            &&& orderly || !s.config.reconnect_enabled ==> after.state == ConnState::Disconnected
                && what == AfterConnection::Stop && after.backoff == s.backoff
            &&& !orderly && s.config.reconnect_enabled ==> {
                &&& after.state == ConnState::Reconnecting
                &&& what == AfterConnection::Retry(s.backoff)
                &&& after.backoff.nanos <= s.config.reconnect_max.nanos
                &&& after.backoff.nanos == 2 * s.backoff.nanos || (after.backoff
                    == s.config.reconnect_max && 2 * s.backoff.nanos
                    > s.config.reconnect_max.nanos)
            }
            &&& after.pending == s.pending
            &&& after.unread == s.unread
            &&& after.config == s.config
            &&& after.device_id == s.device_id
        }),
{
}

/// The usual session sends a heartbeat every two seconds, takes a connection for lost after
/// eight seconds of silence, and waits between a fifth of a second and five seconds before it
/// connects again; whether it does either is for the one who makes it to say.
pub proof fn law_usual_config(keeps_up: bool)
    ensures
        SessionConfig::usual(keeps_up).heartbeat_interval.nanos == 2_000_000_000,
        SessionConfig::usual(keeps_up).heartbeat_timeout.nanos == 8_000_000_000,
        SessionConfig::usual(keeps_up).reconnect_base.nanos == 200_000_000,
        SessionConfig::usual(keeps_up).reconnect_max.nanos == 5_000_000_000,
        SessionConfig::usual(keeps_up).enable_heartbeat == keeps_up,
        SessionConfig::usual(keeps_up).reconnect_enabled == keeps_up,
{
}

/// How long a connection has lasted grows with the clock from the moment it began.
pub proof fn law_elapsed(s: SessionData, clock: Instant)
    ensures
        clock.nanos >= s.started.nanos ==> s.started.nanos + elapsed(s, clock) == clock.nanos,
        clock.nanos < s.started.nanos ==> elapsed(s, clock) == 0,
{
}

/// The words for what went wrong in a session, with the cause where there is one.
pub proof fn law_session_error_texts(cause: Seq<char>)
    ensures
        SessionErrorData::Closed.text() == "session closed"@,
        SessionErrorData::Timeout.text() == "command timeout"@,
        SessionErrorData::Busy.text() == "command channel full"@,
        SessionErrorData::Transport(cause).text() == "transport error: "@ + cause,
        SessionErrorData::Codec(cause).text() == "codec error: "@ + cause,
{
}

} // verus!
