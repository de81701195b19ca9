//! What goes to the user interface, and who is connected.
use vstd::prelude::*;

use crate::bus::{
    AppEvent, DeviceEvent, EventData, SampleData, SampleTime, TelemetrySample,
    TelemetrySourceKind,
};
use crate::domain::{AlarmData, AlarmEvent, ConnState};
use crate::number::{Number, NumberData};
use crate::table::Table;
use crate::text;

verus! {

/// Of the samples of the demo board every eighth goes to the user interface.
pub const DEMO_UI_STRIDE: u64 = 8;

/// The name of an axis.
pub open spec fn axis_of(source_kind: TelemetrySourceKind, sensor_id: usize) -> Seq<char> {
    match source_kind {
        TelemetrySourceKind::SerialDemo | TelemetrySourceKind::CanAxis => if sensor_id == 0 {
            "x"@
        } else if sensor_id == 1 {
            "y"@
        } else if sensor_id == 2 {
            "z"@
        } else {
            ""@
        },
        TelemetrySourceKind::CanSent => if sensor_id == 0 {
            "t1_angle"@
        } else if sensor_id == 1 {
            "t1_torque"@
        } else if sensor_id == 2 {
            "t2_angle"@
        } else if sensor_id == 3 {
            "t2_torque"@
        } else if sensor_id == 4 {
            "s_angle"@
        } else {
            ""@
        },
        _ => ""@,
    }
}

pub fn axis_name(source_kind: TelemetrySourceKind, sensor_id: usize) -> (r: &'static str)
    ensures
        r@ == axis_of(source_kind, sensor_id),
{
    match source_kind {
        TelemetrySourceKind::SerialDemo | TelemetrySourceKind::CanAxis => match sensor_id {
            0 => "x",
            1 => "y",
            2 => "z",
            _ => "",
        },
        TelemetrySourceKind::CanSent => match sensor_id {
            0 => "t1_angle",
            1 => "t1_torque",
            2 => "t2_angle",
            3 => "t2_torque",
            4 => "s_angle",
            _ => "",
        },
        _ => "",
    }
}

/// A sample with the name of its axis.
#[derive(Debug)]
pub struct TelemetryMsg {
    pub device_id: String,
    pub sensor_id: usize,
    pub axis: String,
    pub alarm_bit: bool,
    pub t_sec: SampleTime,
    pub value: Number,
    pub request_id: u64,
    pub source_kind: TelemetrySourceKind,
}

/// What a message about a sample says.
#[verifier::ext_equal]
pub ghost struct MsgData {
    pub device_id: Seq<char>,
    pub sensor_id: usize,
    pub axis: Seq<char>,
    pub alarm_bit: bool,
    pub t_sec: SampleTime,
    pub value: NumberData,
    pub request_id: u64,
    pub source_kind: TelemetrySourceKind,
}

impl View for TelemetryMsg {
    type V = MsgData;

    open spec fn view(&self) -> MsgData {
        MsgData {
            device_id: self.device_id@,
            sensor_id: self.sensor_id,
            axis: self.axis@,
            alarm_bit: self.alarm_bit,
            t_sec: self.t_sec,
            value: self.value@,
            request_id: self.request_id,
            source_kind: self.source_kind,
        }
    }
}

/// The message about a sample.
pub open spec fn msg_of(sample: SampleData) -> MsgData {
    MsgData {
        device_id: sample.device_id,
        sensor_id: sample.sensor_id,
        axis: axis_of(sample.source_kind, sample.sensor_id),
        alarm_bit: sample.alarm_bit,
        t_sec: sample.t_sec,
        value: sample.value,
        request_id: sample.req_id,
        source_kind: sample.source_kind,
    }
}

pub fn telemetry_msg(sample: TelemetrySample) -> (r: TelemetryMsg)
    ensures
        r@ == msg_of(sample@),
{
    TelemetryMsg {
        axis: text::owned(axis_name(sample.source_kind, sample.sensor_id)),
        device_id: sample.device_id,
        sensor_id: sample.sensor_id,
        alarm_bit: sample.alarm_bit,
        t_sec: sample.t_sec,
        value: sample.value,
        request_id: sample.req_id,
        source_kind: sample.source_kind,
    }
}

/// The sample behind a message.
pub open spec fn sample_of(msg: MsgData) -> SampleData {
    SampleData {
        device_id: msg.device_id,
        sensor_id: msg.sensor_id,
        t_sec: msg.t_sec,
        value: msg.value,
        req_id: msg.request_id,
        alarm_bit: msg.alarm_bit,
        source_kind: msg.source_kind,
    }
}

pub fn telemetry_sample(msg: TelemetryMsg) -> (r: TelemetrySample)
    ensures
        r@ == sample_of(msg@),
{
    TelemetrySample {
        device_id: msg.device_id,
        sensor_id: msg.sensor_id,
        t_sec: msg.t_sec,
        value: msg.value,
        req_id: msg.request_id,
        alarm_bit: msg.alarm_bit,
        source_kind: msg.source_kind,
    }
}

/// A sample that goes through a message comes out as it was.
pub proof fn law_msg_round_trip(sample: SampleData)
    ensures
        sample_of(msg_of(sample)) == sample,
{
}

/// What goes to the user interface.
#[derive(Debug)]
pub enum UiFeedMsg {
    Telemetry(TelemetryMsg),
    Alarm(AlarmEvent),
    Status(String),
}

/// What a message to the user interface says.
pub ghost enum FeedData {
    Telemetry(MsgData),
    Alarm(AlarmData),
    Status(Seq<char>),
}

impl View for UiFeedMsg {
    type V = FeedData;

    open spec fn view(&self) -> FeedData {
        match self {
            UiFeedMsg::Telemetry(msg) => FeedData::Telemetry(msg@),
            UiFeedMsg::Alarm(alarm) => FeedData::Alarm(alarm@),
            UiFeedMsg::Status(msg) => FeedData::Status(msg@),
        }
    }
}

/// How many samples of the demo board have come, by device and sensor.
pub struct UiForwarder {
    counters: Table<(String, usize), u64>,
}

/// The number of samples that have come from a sensor.
pub open spec fn count_of(counters: Map<(Seq<char>, usize), u64>, key: (Seq<char>, usize)) -> u64 {
    if counters.contains_key(key) {
        counters[key]
    } else {
        0
    }
}

/// The number of samples behind one more.
pub open spec fn counted(n: u64) -> u64 {
    if n == u64::MAX {
        n
    } else {
        (n + 1) as u64
    }
}

/// What goes to the user interface for an event, if anything does.
pub open spec fn forwarded(
    counters: Map<(Seq<char>, usize), u64>,
    event: EventData,
) -> Option<FeedData> {
    match event {
        EventData::TelemetrySample(sample) => if sample.source_kind
            == TelemetrySourceKind::SerialDemo && counted(
            count_of(counters, (sample.device_id, sample.sensor_id)),
        ) % DEMO_UI_STRIDE != 0 {
            None
        } else {
            Some(FeedData::Telemetry(msg_of(sample)))
        },
        EventData::AlarmRaised(alarm) => Some(FeedData::Alarm(alarm)),
        EventData::AlarmCleared(alarm) => Some(FeedData::Alarm(alarm)),
        EventData::System(msg) => Some(FeedData::Status(msg)),
        _ => None,
    }
}

/// The counters behind an event.
pub open spec fn counters_after(
    counters: Map<(Seq<char>, usize), u64>,
    event: EventData,
) -> Map<(Seq<char>, usize), u64> {
    match event {
        EventData::TelemetrySample(sample) => if sample.source_kind
            == TelemetrySourceKind::SerialDemo {
            counters.insert(
                (sample.device_id, sample.sensor_id),
                counted(count_of(counters, (sample.device_id, sample.sensor_id))),
            )
        } else {
            counters
        },
        _ => counters,
    }
}

impl View for UiForwarder {
    type V = Map<(Seq<char>, usize), u64>;

    closed spec fn view(&self) -> Map<(Seq<char>, usize), u64> {
        self.counters@
    }
}

impl UiForwarder {
    pub fn new() -> (r: Self)
        ensures
            r@ == Map::<(Seq<char>, usize), u64>::empty(),
    {
        UiForwarder { counters: Table::new() }
    }

    /// What goes to the user interface for an event, if anything does.
    pub fn forward(&mut self, event: AppEvent) -> (r: Option<UiFeedMsg>)
        ensures
            final(self)@ == counters_after(old(self)@, event@),
            match forwarded(old(self)@, event@) {
                Some(data) => r is Some && r->0@ == data,
                None => r is None,
            },
    {
        match event {
            AppEvent::Device(DeviceEvent::TelemetrySample(sample)) => {
                let msg = telemetry_msg(sample);
                if msg.source_kind == TelemetrySourceKind::SerialDemo {
                    let key = (text::owned(msg.device_id.as_str()), msg.sensor_id);
                    let count: u64 = match self.counters.get(&key) {
                        Some(count) => *count,
                        None => 0,
                    };
                    let count: u64 = count.saturating_add(1);
                    self.counters.insert(key, count);
                    if count % DEMO_UI_STRIDE != 0 {
                        return None;
                    }
                }
                Some(UiFeedMsg::Telemetry(msg))
            },
            AppEvent::Device(DeviceEvent::AlarmRaised(alarm)) => Some(UiFeedMsg::Alarm(alarm)),
            AppEvent::Device(DeviceEvent::AlarmCleared(alarm)) => Some(UiFeedMsg::Alarm(alarm)),
            AppEvent::System(msg) => Some(UiFeedMsg::Status(msg)),
            _ => None,
        }
    }
}

/// Of any eight samples in a row of one sensor of the demo board, exactly one goes to the
/// user interface.
pub proof fn law_demo_stride(count: u64)
    requires
        count <= u64::MAX - 8,
    ensures
        exists|i: int| 0 <= i < 8 && #[trigger] counted((count + i) as u64) % DEMO_UI_STRIDE == 0,
        forall|i: int, j: int|
            0 <= i < 8 && 0 <= j < 8 && #[trigger] counted((count + i) as u64) % DEMO_UI_STRIDE == 0
                && #[trigger] counted((count + j) as u64) % DEMO_UI_STRIDE == 0 ==> i == j,
{
    let next = count as int + 1;
    let k = 7 - count as int % 8;
    assert(counted((count + k) as u64) == next + k);
    assert((next + k) % 8 == 0);
    assert forall|i: int, j: int|
        0 <= i < 8 && 0 <= j < 8 && #[trigger] counted((count + i) as u64) % DEMO_UI_STRIDE == 0
            && #[trigger] counted((count + j) as u64) % DEMO_UI_STRIDE == 0 implies i == j by {
        assert(counted((count + i) as u64) == next + i);
        assert(counted((count + j) as u64) == next + j);
        lemma_one_in_eight(next, i, j);
    }
}

proof fn lemma_one_in_eight(n: int, i: int, j: int)
    requires
        0 <= i < 8,
        0 <= j < 8,
        (n + i) % 8 == 0,
        (n + j) % 8 == 0,
    ensures
        i == j,
{
}

/// The devices whose sessions are ready.
pub struct ActiveSessions {
    devices: Table<String, bool>,
}

/// The devices that are ready behind a change of state.
pub open spec fn ready_after(ready: Set<Seq<char>>, device_id: Seq<char>, to: ConnState) -> Set<
    Seq<char>,
> {
    match to {
        ConnState::Ready => ready.insert(device_id),
        ConnState::Disconnected => ready.remove(device_id),
        _ => ready,
    }
}

impl View for ActiveSessions {
    type V = Set<Seq<char>>;

    closed spec fn view(&self) -> Set<Seq<char>> {
        self.devices@.dom()
    }
}

impl ActiveSessions {
    pub fn new() -> (r: Self)
        ensures
            r@ == Set::<Seq<char>>::empty(),
    {
        let r = ActiveSessions { devices: Table::new() };
        proof {
            assert(r@ =~= Set::<Seq<char>>::empty());
        }
        r
    }

    /// Takes note of a change of state; gives the number of devices that are ready.
    pub fn state_changed(&mut self, device_id: String, to: ConnState) -> (r: u64)
        ensures
            final(self)@ == ready_after(old(self)@, device_id@, to),
            final(self)@.finite(),
            r == final(self)@.len(),
    {
        let ghost before = self@;
        match to {
            ConnState::Ready => {
                self.devices.insert(device_id, true);
                proof {
                    assert(self@ =~= before.insert(device_id@));
                }
            },
            ConnState::Disconnected => {
                let _ = self.devices.remove(&device_id);
                proof {
                    assert(self@ =~= before.remove(device_id@));
                }
            },
            _ => {},
        }
        self.devices.len() as u64
    }
}

// ---- what holds of all events ----

/// An alarm that is raised or cleared goes to the user interface whatever has been counted,
/// exactly as it is, and so does a status. A sample that is not of the demo board always goes,
/// and whatever sample goes is the sample that came. Nothing else goes.
pub proof fn law_forwarding(
    counters: Map<(Seq<char>, usize), u64>,
    sample: SampleData,
    alarm: AlarmData,
    msg: Seq<char>,
    event: EventData,
)
    ensures
        forwarded(counters, EventData::AlarmRaised(alarm)) == Some(FeedData::Alarm(alarm)),
        forwarded(counters, EventData::AlarmCleared(alarm)) == Some(FeedData::Alarm(alarm)),
        forwarded(counters, EventData::System(msg)) == Some(FeedData::Status(msg)),
        sample.source_kind != TelemetrySourceKind::SerialDemo ==> forwarded(
            counters,
            EventData::TelemetrySample(sample),
        ) is Some,
        forwarded(counters, EventData::TelemetrySample(sample)) matches Some(data) ==> {
            &&& data matches FeedData::Telemetry(sent)
            &&& sent.device_id == sample.device_id
            &&& sent.sensor_id == sample.sensor_id
            &&& sent.alarm_bit == sample.alarm_bit
            &&& sent.t_sec == sample.t_sec
            &&& sent.value == sample.value
            &&& sent.request_id == sample.req_id
            &&& sent.source_kind == sample.source_kind
        },
        event is ConnStateChanged || event is TelemetryUpdated || event is CommandResult
            || event is Log ==> forwarded(counters, event) is None,
{
}

/// Only a sample of the demo board is counted, under its device and sensor and under no other:
/// the count goes up by one, and the sample goes to the user interface where the new count is a
/// multiple of eight.
pub proof fn law_demo_samples_are_counted(
    counters: Map<(Seq<char>, usize), u64>,
    sample: SampleData,
    event: EventData,
    other: (Seq<char>, usize),
)
    requires
        sample.source_kind == TelemetrySourceKind::SerialDemo,
    ensures
        ({
            let key = (sample.device_id, sample.sensor_id);
            let before = if counters.contains_key(key) {
                counters[key]
            } else {
                0
            };
            let after = counters_after(counters, EventData::TelemetrySample(sample));
            &&& after.contains_key(key)
            &&& before < u64::MAX ==> after[key] == before + 1
            &&& before == u64::MAX ==> after[key] == before
            &&& other != key ==> (after.contains_key(other) <==> counters.contains_key(other))
            &&& other != key && counters.contains_key(other) ==> after[other] == counters[other]
            &&& forwarded(counters, EventData::TelemetrySample(sample)) is Some <==> after[key] % 8
                == 0
        }),
        !(event is TelemetrySample) ==> counters_after(counters, event) == counters,
        event matches EventData::TelemetrySample(s) ==> (s.source_kind
            != TelemetrySourceKind::SerialDemo ==> counters_after(counters, event) == counters),
{
}

/// A sensor of the demo board or on an axis of the bus is named x, y or z, a SENT sensor by
/// what it measures; any other has no name. The names of the sensors of one source differ.
pub proof fn law_axis_names(source_kind: TelemetrySourceKind, a: usize, b: usize)
    ensures
        source_kind == TelemetrySourceKind::SerialDemo || source_kind
            == TelemetrySourceKind::CanAxis ==> {
            &&& axis_of(source_kind, 0) == "x"@
            &&& axis_of(source_kind, 1) == "y"@
            &&& axis_of(source_kind, 2) == "z"@
            &&& a >= 3 ==> axis_of(source_kind, a) == ""@
            &&& a < b < 3 ==> axis_of(source_kind, a) != axis_of(source_kind, b)
        },
        source_kind == TelemetrySourceKind::CanSent ==> {
            &&& axis_of(source_kind, 0) == "t1_angle"@
            &&& axis_of(source_kind, 1) == "t1_torque"@
            &&& axis_of(source_kind, 2) == "t2_angle"@
            &&& axis_of(source_kind, 3) == "t2_torque"@
            &&& axis_of(source_kind, 4) == "s_angle"@
            &&& a >= 5 ==> axis_of(source_kind, a) == ""@
            &&& a < b < 5 ==> axis_of(source_kind, a) != axis_of(source_kind, b)
        },
        source_kind != TelemetrySourceKind::SerialDemo && source_kind
            != TelemetrySourceKind::CanAxis && source_kind != TelemetrySourceKind::CanSent
            ==> axis_of(source_kind, a) == ""@,
{
    reveal_strlit("x");
    reveal_strlit("y");
    reveal_strlit("z");
    reveal_strlit("t1_angle");
    reveal_strlit("t1_torque");
    reveal_strlit("t2_angle");
    reveal_strlit("t2_torque");
    reveal_strlit("s_angle");
    assert("x"@[0] != "y"@[0] && "y"@[0] != "z"@[0] && "x"@[0] != "z"@[0]);
    assert("t1_angle"@[1] != "t2_angle"@[1] && "t1_torque"@[1] != "t2_torque"@[1]);
    assert("s_angle"@.len() == 7 && "t1_angle"@.len() == 8 && "t1_torque"@.len() == 9
        && "t2_angle"@.len() == 8 && "t2_torque"@.len() == 9);
}

/// A device counts as ready from the moment it is ready until it is disconnected; no other
/// state, and no other device, changes that.
pub proof fn law_ready_devices(
    ready: Set<Seq<char>>,
    device_id: Seq<char>,
    to: ConnState,
    other: Seq<char>,
)
    ensures
        ready_after(ready, device_id, ConnState::Ready).contains(device_id),
        !ready_after(ready, device_id, ConnState::Disconnected).contains(device_id),
        to != ConnState::Ready && to != ConnState::Disconnected ==> ready_after(
            ready,
            device_id,
            to,
        ) == ready,
        other != device_id ==> (ready_after(ready, device_id, to).contains(other)
            <==> ready.contains(other)),
{
}

} // verus!
