//! Events that the layers publish, and the store of the latest snapshots.
use vstd::prelude::*;

use crate::domain::{
    AlarmData, AlarmEvent, ConnState, DeviceId, DeviceSnapshot, RequestId, SnapshotData,
};
use crate::number::{Number, NumberData, Real};
use crate::table::Table;
use crate::text;

verus! {

#[derive(Clone, Copy, Debug, PartialEq, Eq, Structural)]
pub enum TelemetrySourceKind {
    Unknown,
    SerialDemo,
    SerialSent1,
    SerialSent2,
    SerialSent3,
    CanAxis,
    CanSent,
    TcpFrame,
    FrameStream,
}

impl Default for TelemetrySourceKind {
    fn default() -> (r: Self)
        ensures
            r == TelemetrySourceKind::Unknown,
    {
        TelemetrySourceKind::Unknown
    }
}

/// When a sample was taken.
#[derive(Clone, Copy, Debug, PartialEq, Eq, Structural)]
pub enum SampleTime {
    /// So long after the connection began, and so many demo groups (6250 to the second)
    /// later.
    Elapsed { nanos: u128, groups: u32 },
    /// So many seconds after the connection began.
    Seconds(Real),
}

/// A single telemetry sample.
#[derive(Debug)]
pub struct TelemetrySample {
    pub device_id: DeviceId,
    pub sensor_id: usize,
    pub t_sec: SampleTime,
    pub value: Number,
    pub req_id: RequestId,
    pub alarm_bit: bool,
    pub source_kind: TelemetrySourceKind,
}

/// What a sample says.
#[verifier::ext_equal]
pub ghost struct SampleData {
    pub device_id: Seq<char>,
    pub sensor_id: usize,
    pub t_sec: SampleTime,
    pub value: NumberData,
    pub req_id: RequestId,
    pub alarm_bit: bool,
    pub source_kind: TelemetrySourceKind,
}

impl View for TelemetrySample {
    type V = SampleData;

    open spec fn view(&self) -> SampleData {
        SampleData {
            device_id: self.device_id@,
            sensor_id: self.sensor_id,
            t_sec: self.t_sec,
            value: self.value@,
            req_id: self.req_id,
            alarm_bit: self.alarm_bit,
            source_kind: self.source_kind,
        }
    }
}

impl Clone for TelemetrySample {
    fn clone(&self) -> (r: Self)
        ensures
            r@ == self@,
    {
        TelemetrySample {
            device_id: text::owned(self.device_id.as_str()),
            sensor_id: self.sensor_id,
            t_sec: self.t_sec,
            value: self.value.clone(),
            req_id: self.req_id,
            alarm_bit: self.alarm_bit,
            source_kind: self.source_kind,
        }
    }
}

/// Device domain events emitted by session/transport/app layers.
#[derive(Debug)]
pub enum DeviceEvent {
    /// Connection state transition for a specific device.
    ConnStateChanged { device_id: DeviceId, from: ConnState, to: ConnState },
    /// Full snapshot update (coarser-grained state sync).
    TelemetryUpdated { device_id: DeviceId, snapshot: DeviceSnapshot },
    /// Single telemetry sample (fine-grained stream for charts/alerts).
    TelemetrySample(TelemetrySample),
    /// Alarm lifecycle events.
    AlarmRaised(AlarmEvent),
    AlarmCleared(AlarmEvent),
    /// Command execution result.
    CommandResult { device_id: DeviceId, request_id: RequestId, ok: bool },
    /// Structured runtime log for UI/diagnostics.
    Log { device_id: DeviceId, level: &'static str, msg: String },
}

/// App-level event envelope.
#[derive(Debug)]
pub enum AppEvent {
    Device(DeviceEvent),
    System(String),
}

/// What an event says.
pub ghost enum EventData {
    ConnStateChanged { device_id: Seq<char>, from: ConnState, to: ConnState },
    TelemetryUpdated { device_id: Seq<char>, snapshot: SnapshotData },
    TelemetrySample(SampleData),
    AlarmRaised(AlarmData),
    AlarmCleared(AlarmData),
    CommandResult { device_id: Seq<char>, request_id: RequestId, ok: bool },
    Log { device_id: Seq<char>, level: Seq<char>, msg: Seq<char> },
    System(Seq<char>),
}

impl View for AppEvent {
    type V = EventData;

    open spec fn view(&self) -> EventData {
        match self {
            AppEvent::Device(
                DeviceEvent::ConnStateChanged { device_id, from, to },
            ) => EventData::ConnStateChanged { device_id: device_id@, from: *from, to: *to },
            AppEvent::Device(
                DeviceEvent::TelemetryUpdated { device_id, snapshot },
            ) => EventData::TelemetryUpdated { device_id: device_id@, snapshot: snapshot@ },
            AppEvent::Device(DeviceEvent::TelemetrySample(sample)) => EventData::TelemetrySample(
                sample@,
            ),
            AppEvent::Device(DeviceEvent::AlarmRaised(alarm)) => EventData::AlarmRaised(alarm@),
            AppEvent::Device(DeviceEvent::AlarmCleared(alarm)) => EventData::AlarmCleared(alarm@),
            AppEvent::Device(
                DeviceEvent::CommandResult { device_id, request_id, ok },
            ) => EventData::CommandResult {
                device_id: device_id@,
                request_id: *request_id,
                ok: *ok,
            },
            AppEvent::Device(DeviceEvent::Log { device_id, level, msg }) => EventData::Log {
                device_id: device_id@,
                level: level@,
                msg: msg@,
            },
            AppEvent::System(msg) => EventData::System(msg@),
        }
    }
}

impl Clone for AppEvent {
    fn clone(&self) -> (r: Self)
        ensures
            r@ == self@,
    {
        match self {
            AppEvent::Device(DeviceEvent::ConnStateChanged { device_id, from, to }) => {
                AppEvent::Device(
                    DeviceEvent::ConnStateChanged {
                        device_id: text::owned(device_id.as_str()),
                        from: *from,
                        to: *to,
                    },
                )
            },
            AppEvent::Device(DeviceEvent::TelemetryUpdated { device_id, snapshot }) => {
                AppEvent::Device(
                    DeviceEvent::TelemetryUpdated {
                        device_id: text::owned(device_id.as_str()),
                        snapshot: snapshot.clone(),
                    },
                )
            },
            AppEvent::Device(DeviceEvent::TelemetrySample(sample)) => {
                AppEvent::Device(DeviceEvent::TelemetrySample(sample.clone()))
            },
            AppEvent::Device(DeviceEvent::AlarmRaised(alarm)) => {
                AppEvent::Device(DeviceEvent::AlarmRaised(alarm.clone()))
            },
            AppEvent::Device(DeviceEvent::AlarmCleared(alarm)) => {
                AppEvent::Device(DeviceEvent::AlarmCleared(alarm.clone()))
            },
            AppEvent::Device(DeviceEvent::CommandResult { device_id, request_id, ok }) => {
                AppEvent::Device(
                    DeviceEvent::CommandResult {
                        device_id: text::owned(device_id.as_str()),
                        request_id: *request_id,
                        ok: *ok,
                    },
                )
            },
            AppEvent::Device(DeviceEvent::Log { device_id, level, msg }) => {
                AppEvent::Device(
                    DeviceEvent::Log {
                        device_id: text::owned(device_id.as_str()),
                        level,
                        msg: text::owned(msg.as_str()),
                    },
                )
            },
            AppEvent::System(msg) => AppEvent::System(text::owned(msg.as_str())),
        }
    }
}

/// What a run of events says.
pub open spec fn event_data(events: Seq<AppEvent>) -> Seq<EventData> {
    events.map_values(|event: AppEvent| event@)
}

pub proof fn lemma_event_push(events: Seq<AppEvent>, event: AppEvent)
    ensures
        event_data(events.push(event)) == event_data(events).push(event@),
{
    assert(event_data(events.push(event)) =~= event_data(events).push(event@));
}

pub proof fn lemma_no_events(events: Seq<AppEvent>)
    requires
        events.len() == 0,
    ensures
        event_data(events) == Seq::<EventData>::empty(),
{
    assert(event_data(events) =~= Seq::<EventData>::empty());
}

/// A list with one event.
pub fn one_event(event: AppEvent) -> (r: Vec<AppEvent>)
    ensures
        event_data(r@) == seq![event@],
{
    let mut r: Vec<AppEvent> = Vec::new();
    r.push(event);
    proof {
        assert(event_data(r@) =~= seq![event@]);
    }
    r
}

/// A status message.
pub fn status(msg: String) -> (r: AppEvent)
    ensures
        r@ == EventData::System(msg@),
{
    AppEvent::System(msg)
}

/// Lightweight state store for latest device snapshots.
pub struct Store {
    snapshots: Table<String, DeviceSnapshot>,
}

impl View for Store {
    type V = Map<Seq<char>, SnapshotData>;

    closed spec fn view(&self) -> Map<Seq<char>, SnapshotData> {
        self.snapshots@.map_values(|s: DeviceSnapshot| s@)
    }
}

impl Store {
    pub fn new() -> (r: Self)
        ensures
            r@ == Map::<Seq<char>, SnapshotData>::empty(),
    {
        let r = Store { snapshots: Table::new() };
        proof {
            assert(r@ =~= Map::<Seq<char>, SnapshotData>::empty());
        }
        r
    }

    /// Keeps a snapshot as the latest of its device.
    pub fn upsert_snapshot(&mut self, snapshot: DeviceSnapshot)
        ensures
            final(self)@ == old(self)@.insert(snapshot@.device_id, snapshot@),
    {
        let ghost data = snapshot@;
        let ghost before = self@;
        let key: String = text::owned(snapshot.device_id.as_str());
        self.snapshots.insert(key, snapshot);
        proof {
            assert(self@ =~= before.insert(data.device_id, data));
        }
    }

    /// The latest snapshot of a device.
    pub fn snapshot(&self, device_id: &str) -> (r: Option<DeviceSnapshot>)
        ensures
            match r {
                Some(snapshot) => self@.contains_key(device_id@) && self@[device_id@]
                    == snapshot@,
                None => !self@.contains_key(device_id@),
            },
    {
        match self.snapshots.get(&text::owned(device_id)) {
            Some(snapshot) => Some(snapshot.clone()),
            None => None,
        }
    }
}

impl Default for Store {
    fn default() -> (r: Self)
        ensures
            r@ == Map::<Seq<char>, SnapshotData>::empty(),
    {
        Store::new()
    }
}

/// Of the snapshots of a device the one that was kept last stays, and the snapshots of other
/// devices are left alone.
pub proof fn law_latest_snapshot_stays(
    store: Map<Seq<char>, SnapshotData>,
    first: SnapshotData,
    second: SnapshotData,
    other: Seq<char>,
)
    requires
        first.device_id == second.device_id,
        other != first.device_id,
    ensures
        ({
            let after = store.insert(first.device_id, first).insert(second.device_id, second);
            &&& after == store.insert(second.device_id, second)
            &&& after[second.device_id] == second
            &&& after.contains_key(other) == store.contains_key(other)
            &&& after[other] == store[other]
        }),
{
    let after = store.insert(first.device_id, first).insert(second.device_id, second);
    assert(after =~= store.insert(second.device_id, second));
}

} // verus!
