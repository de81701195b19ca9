//! The serial port as a way in: frames of the device protocol, packets of the demo board, or
//! SENT frames become samples, alarms and status messages.
use bytes::BytesMut;
use std::time::SystemTime;
use vstd::prelude::*;

use crate::buffer;
use crate::bus;
use crate::bus::{
    AppEvent, DeviceEvent, EventData, SampleData, SampleTime, TelemetrySample,
    TelemetrySourceKind,
};
use crate::domain::{AlarmData, AlarmEvent, AlarmLevel};
use crate::ingress::payload;
use crate::number::{Number, NumberData};
use crate::protocol;
use crate::protocol::demo_serial;
use crate::protocol::demo_serial::{Packet, PacketData, SampleGroup, SerialDemoCodec};
use crate::protocol::sent;
use crate::protocol::stream;
use crate::protocol::{FrameCodec, FrameData, SentFrame, SentFrameCodec, SimpleFrameCodec};
use crate::text;
use crate::transport::TransportError;

pub use crate::ingress::payload::parse_sensor_value;

verus! {

/// The largest payload of a frame on the serial port.
pub const LEGACY_MAX_PAYLOAD: usize = 4096;

#[derive(Clone, Copy, Debug, PartialEq, Eq, Structural)]
pub enum SerialIngressMode {
    Legacy,
    Demo,
    Sent,
}

impl SerialIngressMode {
    pub open spec fn name(self) -> Seq<char> {
        match self {
            SerialIngressMode::Legacy => "legacy"@,
            SerialIngressMode::Demo => "demo"@,
            SerialIngressMode::Sent => "sent"@,
        }
    }

    pub fn label(&self) -> (r: &'static str)
        ensures
            r@ == self.name(),
    {
        match self {
            SerialIngressMode::Legacy => "legacy",
            SerialIngressMode::Demo => "demo",
            SerialIngressMode::Sent => "sent",
        }
    }
}

/// The mode that a setting names, whatever its capitals and the space around it.
pub open spec fn mode_of(s: Seq<char>) -> Option<SerialIngressMode> {
    let word = text::lowered(text::trimmed(s));
    if word == "legacy"@ {
        Some(SerialIngressMode::Legacy)
    } else if word == "demo"@ {
        Some(SerialIngressMode::Demo)
    } else if word == "sent"@ || word == "sent1"@ || word == "sent2"@ || word == "sent3"@ {
        Some(SerialIngressMode::Sent)
    } else {
        None
    }
}

pub fn parse_serial_mode(setting: &str) -> (r: Option<SerialIngressMode>)
    ensures
        r == mode_of(setting@),
{
    let chars: Vec<char> = text::chars_of(setting);
    let word: &[char] = text::trim(chars.as_slice());
    if text::is_word(word, "legacy") {
        Some(SerialIngressMode::Legacy)
    } else if text::is_word(word, "demo") {
        Some(SerialIngressMode::Demo)
    } else if text::is_word(word, "sent") || text::is_word(word, "sent1") || text::is_word(
        word,
        "sent2",
    ) || text::is_word(word, "sent3") {
        Some(SerialIngressMode::Sent)
    } else {
        None
    }
}

/// Adds a status message to the events.
pub fn publish_status(events: &mut Vec<AppEvent>, msg: String)
    ensures
        bus::event_data(final(events)@) == bus::event_data(old(events)@).push(
            EventData::System(msg@),
        ),
{
    let event = AppEvent::System(msg);
    proof {
        bus::lemma_event_push(events@, event);
    }
    events.push(event);
}

/// Adds a sample to the events.
pub fn publish_telemetry_sample(
    events: &mut Vec<AppEvent>,
    device_id: &str,
    sensor_id: usize,
    t_sec: SampleTime,
    value: Number,
    req_id: u64,
    alarm_bit: bool,
    source_kind: TelemetrySourceKind,
)
    ensures
        bus::event_data(final(events)@) == bus::event_data(old(events)@).push(
            EventData::TelemetrySample(
                SampleData {
                    device_id: device_id@,
                    sensor_id,
                    t_sec,
                    value: value@,
                    req_id,
                    alarm_bit,
                    source_kind,
                },
            ),
        ),
{
    let event = AppEvent::Device(
        DeviceEvent::TelemetrySample(
            TelemetrySample {
                device_id: text::owned(device_id),
                sensor_id,
                t_sec,
                value,
                req_id,
                alarm_bit,
                source_kind,
            },
        ),
    );
    proof {
        bus::lemma_event_push(events@, event);
    }
    events.push(event);
}

/// What comes in through a serial port.
pub struct SerialIngress {
    device_id: String,
    mode: SerialIngressMode,
    legacy_codec: SimpleFrameCodec,
    demo_codec: SerialDemoCodec,
    sent_codec: SentFrameCodec,
    unread: BytesMut,
    groups: Vec<SampleGroup>,
    next_group: usize,
    req_id: u64,
    alarm: Option<bool>,
}

/// What is known of a serial port.
#[verifier::ext_equal]
pub ghost struct SerialData {
    pub device_id: Seq<char>,
    pub mode: SerialIngressMode,
    /// What has been read and not decoded yet.
    pub unread: Seq<u8>,
    /// The groups of the stream frame at hand, and how many of them are done.
    pub groups: Seq<SampleGroup>,
    pub next_group: int,
    /// The number of the next group or SENT frame.
    pub req_id: u64,
    /// The alarm bit of the last group.
    pub alarm: Option<bool>,
}

impl View for SerialIngress {
    type V = SerialData;

    closed spec fn view(&self) -> SerialData {
        SerialData {
            device_id: self.device_id@,
            mode: self.mode,
            unread: buffer::contents(self.unread),
            groups: self.groups@,
            next_group: self.next_group as int,
            req_id: self.req_id,
            alarm: self.alarm,
        }
    }
}

/// One more, but never past the end of the numbers.
pub open spec fn saturating_next(n: u64) -> u64 {
    if n == u64::MAX {
        n
    } else {
        (n + 1) as u64
    }
}

pub open spec fn asserted_or_cleared(alarm: bool) -> Seq<char> {
    if alarm {
        "asserted"@
    } else {
        "cleared"@
    }
}

/// The sample of one axis of a demo group.
pub open spec fn axis_sample(
    d: SerialData,
    sensor_id: usize,
    value: i16,
    elapsed_nanos: u128,
) -> EventData {
    EventData::TelemetrySample(
        SampleData {
            device_id: d.device_id,
            sensor_id,
            t_sec: SampleTime::Elapsed { nanos: elapsed_nanos, groups: d.next_group as u32 },
            value: NumberData::Integer(value as i64),
            req_id: d.req_id,
            alarm_bit: d.groups[d.next_group].ch1.alarm,
            source_kind: TelemetrySourceKind::SerialDemo,
        },
    )
}

/// What a change of the alarm bit leads to: the alarm, raised or cleared, and a message.
pub open spec fn alarm_events(d: SerialData, alarm: bool, wall: SystemTime) -> Seq<EventData> {
    let data = AlarmData {
        device_id: d.device_id,
        alarm_id: "demo_alarm_bit"@,
        level: AlarmLevel::Warning,
        message: "demo alarm bit "@ + asserted_or_cleared(alarm),
        raised_at: wall,
        cleared: !alarm,
    };
    if d.alarm == Some(alarm) {
        Seq::empty()
    } else {
        seq![
            if alarm {
                EventData::AlarmRaised(data)
            } else {
                EventData::AlarmCleared(data)
            },
            EventData::System("collector serial demo alarm "@ + asserted_or_cleared(alarm)),
        ]
    }
}

/// What the next group of a stream frame leads to: three samples of channel 1.
pub open spec fn group_events(d: SerialData, elapsed_nanos: u128, wall: SystemTime) -> Seq<
    EventData,
> {
    let axes = d.groups[d.next_group].ch1;
    alarm_events(d, axes.alarm, wall) + seq![
        axis_sample(d, 0, axes.x, elapsed_nanos),
        axis_sample(d, 1, axes.y, elapsed_nanos),
        axis_sample(d, 2, axes.z, elapsed_nanos),
    ]
}

pub open spec fn after_group(d: SerialData) -> SerialData {
    SerialData {
        next_group: d.next_group + 1,
        req_id: saturating_next(d.req_id),
        alarm: Some(d.groups[d.next_group].ch1.alarm),
        ..d
    }
}

/// What an answer of the demo board leads to.
pub open spec fn response_message(cmd: u8, status: u8, payload_len: nat) -> Seq<char> {
    "collector serial response cmd=0x"@ + text::zero_padded(text::hex(cmd as nat), 2)
        + " status=0x"@ + text::zero_padded(text::hex(status as nat), 2) + " payload_len="@
        + text::decimal(payload_len)
}

/// The sample of one channel of a SENT frame.
pub open spec fn sent_sample(
    d: SerialData,
    sensor_id: usize,
    value: u16,
    source_kind: TelemetrySourceKind,
    elapsed_nanos: u128,
) -> EventData {
    EventData::TelemetrySample(
        SampleData {
            device_id: d.device_id,
            sensor_id,
            t_sec: SampleTime::Elapsed { nanos: elapsed_nanos, groups: 0 },
            value: NumberData::Integer(value as i64),
            req_id: d.req_id,
            alarm_bit: false,
            source_kind,
        },
    )
}

/// What a SENT frame leads to. Its pause nibble tells the sensor that sent it.
pub open spec fn sent_events(d: SerialData, frame: SentFrame, elapsed_nanos: u128) -> Seq<
    EventData,
> {
    if frame.pause == 0x1 {
        seq![
            sent_sample(d, 0, frame.channel_1, TelemetrySourceKind::SerialSent1, elapsed_nanos),
            sent_sample(d, 1, frame.channel_2, TelemetrySourceKind::SerialSent1, elapsed_nanos),
        ]
    } else if frame.pause == 0x6 {
        seq![
            sent_sample(d, 2, frame.channel_1, TelemetrySourceKind::SerialSent2, elapsed_nanos),
            sent_sample(d, 3, frame.channel_2, TelemetrySourceKind::SerialSent2, elapsed_nanos),
        ]
    } else if frame.pause == 0xB {
        seq![
            sent_sample(d, 4, frame.channel_1, TelemetrySourceKind::SerialSent3, elapsed_nanos),
        ]
    } else {
        seq![
            EventData::System(
                "collector serial sent unsupported pause=0x"@ + text::hex(frame.pause as nat)
                    + " status=0x"@ + text::hex(frame.status as nat),
            ),
        ]
    }
}

/// What a frame of the device protocol leads to: a sample, where the payload can be read.
pub open spec fn legacy_events(d: SerialData, frame: FrameData, elapsed_nanos: u128) -> Seq<
    EventData,
> {
    match payload::sensor_value(frame.payload) {
        Some((sensor_id, value)) => seq![
            EventData::TelemetrySample(
                SampleData {
                    device_id: d.device_id,
                    sensor_id: sensor_id as usize,
                    t_sec: SampleTime::Elapsed { nanos: elapsed_nanos, groups: 0 },
                    value: NumberData::Text(value),
                    req_id: frame.request_id,
                    alarm_bit: false,
                    source_kind: TelemetrySourceKind::FrameStream,
                },
            ),
        ],
        None => Seq::empty(),
    }
}

/// The scan of frames of the device protocol.
pub open spec fn legacy_scan() -> spec_fn(Seq<u8>) -> stream::Scan<FrameData> {
    |src: Seq<u8>| protocol::scan_frame(LEGACY_MAX_PAYLOAD as nat, src)
}

/// What the port is behind one step, and what the step leads to; no step is left where
/// there is nothing to decode. A step is the next group of the stream frame at hand, or the
/// next frame of what was read.
pub open spec fn serial_step(d: SerialData, elapsed_nanos: u128, wall: SystemTime) -> (
    SerialData,
    Option<Seq<EventData>>,
) {
    if d.next_group < d.groups.len() {
        (after_group(d), Some(group_events(d, elapsed_nanos, wall)))
    } else {
        match d.mode {
            SerialIngressMode::Legacy => {
                let (found, rest) = stream::first_frame(legacy_scan(), d.unread);
                let left = SerialData { unread: rest, ..d };
                match found {
                    Some(frame) => (left, Some(legacy_events(left, frame, elapsed_nanos))),
                    None => (left, None),
                }
            },
            SerialIngressMode::Demo => {
                let (found, rest) = stream::first_frame(demo_serial::packet_scan(), d.unread);
                let left = SerialData { unread: rest, ..d };
                match found {
                    Some(PacketData::Stream { body }) => (
                        SerialData {
                            groups: demo_serial::groups_of(body),
                            next_group: 0,
                            ..left
                        },
                        Some(Seq::empty()),
                    ),
                    Some(PacketData::Response { cmd, status, payload }) => (
                        left,
                        Some(
                            seq![
                                EventData::System(response_message(cmd, status, payload.len())),
                            ],
                        ),
                    ),
                    None => (left, None),
                }
            },
            SerialIngressMode::Sent => {
                let (found, rest) = stream::first_frame(sent::sent_scan(), d.unread);
                let left = SerialData { unread: rest, ..d };
                match found {
                    Some(frame) => (
                        SerialData { req_id: saturating_next(d.req_id), ..left },
                        Some(sent_events(left, frame, elapsed_nanos)),
                    ),
                    None => (left, None),
                }
            },
        }
    }
}

impl SerialData {
    /// The groups at hand are those of one stream frame.
    pub open spec fn wf(self) -> bool {
        &&& 0 <= self.next_group <= self.groups.len()
        &&& self.groups.len() <= demo_serial::GROUP_COUNT
    }
}

impl SerialIngress {
    /// The codec of the frames has the payload limit of the serial port.
    pub closed spec fn wf(&self) -> bool {
        self.legacy_codec.max_payload == LEGACY_MAX_PAYLOAD && self@.wf()
    }

    /// A port that was just opened.
    pub fn new(port_name: &str, mode: SerialIngressMode) -> (r: Self)
        ensures
            r.wf(),
            r@ == (SerialData {
                device_id: "serial://"@ + port_name@,
                mode,
                unread: Seq::empty(),
                groups: Seq::empty(),
                next_group: 0,
                req_id: 1,
                alarm: None,
            }),
    {
        let mut device_id = text::owned("serial://");
        text::push_text(&mut device_id, port_name);
        let r = SerialIngress {
            device_id,
            mode,
            legacy_codec: SimpleFrameCodec::new(LEGACY_MAX_PAYLOAD),
            demo_codec: SerialDemoCodec,
            sent_codec: SentFrameCodec,
            unread: buffer::new_buffer(),
            groups: Vec::new(),
            next_group: 0,
            req_id: 1,
            alarm: None,
        };
        proof {
            assert(r@.groups =~= Seq::<SampleGroup>::empty());
        }
        r
    }

    pub fn device_id(&self) -> (r: &str)
        ensures
            r@ == self@.device_id,
    {
        self.device_id.as_str()
    }

    /// How many bytes have been read and not decoded yet.
    pub fn unread_len(&self) -> (r: usize)
        ensures
            r == self@.unread.len(),
    {
        buffer::as_bytes(&self.unread).len()
    }

    /// Takes in what was read.
    pub fn receive(&mut self, data: &[u8])
        requires
            old(self).wf(),
            buffer::fits_buffer(old(self)@.unread, data@.len()),
        ensures
            final(self).wf(),
            final(self)@ == (SerialData { unread: old(self)@.unread + data@, ..old(self)@ }),
    {
        buffer::extend_from_slice(&mut self.unread, data);
    }

    /// Does one step; gives the events that it leads to, or nothing where no step is left.
    pub fn step(&mut self, elapsed_nanos: u128, wall: SystemTime) -> (r: Option<Vec<AppEvent>>)
        requires
            old(self).wf(),
        ensures
            final(self).wf(),
            ({
                let (after, events) = serial_step(old(self)@, elapsed_nanos, wall);
                &&& final(self)@ == after
                &&& match events {
                    Some(events) => r is Some && bus::event_data(r->0@) == events,
                    None => r is None,
                }
            }),
    {
        if self.next_group < self.groups.len() {
            return Some(self.group_step(elapsed_nanos, wall));
        }
        let mut events: Vec<AppEvent> = Vec::new();
        proof {
            bus::lemma_no_events(events@);
        }
        match self.mode {
            SerialIngressMode::Legacy => {
                proof {
                    assert(self.legacy_codec.scan() =~= legacy_scan());
                }
                match self.legacy_codec.try_decode(&mut self.unread) {
                    Ok(Some(frame)) => {
                        if let Some((sensor_id, value)) = parse_sensor_value(
                            frame.payload.as_slice(),
                        ) {
                            publish_telemetry_sample(
                                &mut events,
                                self.device_id.as_str(),
                                sensor_id,
                                SampleTime::Elapsed { nanos: elapsed_nanos, groups: 0 },
                                Number::Text(value),
                                frame.request_id,
                                false,
                                TelemetrySourceKind::FrameStream,
                            );
                        }
                        proof {
                            let left = SerialData {
                                unread: buffer::contents(self.unread),
                                ..old(self)@
                            };
                            assert(bus::event_data(events@) =~= legacy_events(
                                left,
                                frame@,
                                elapsed_nanos,
                            ));
                        }
                        Some(events)
                    },
                    _ => None,
                }
            },
            SerialIngressMode::Demo => {
                proof {
                    demo_serial::law_stream_body_len(buffer::contents(self.unread));
                }
                match self.demo_codec.try_decode(&mut self.unread) {
                    Ok(Some(Packet::Stream(frame))) => {
                        self.groups = frame.groups();
                        self.next_group = 0;
                        Some(events)
                    },
                    Ok(Some(Packet::Response(response))) => {
                        let mut msg = text::owned("collector serial response cmd=0x");
                        text::push_hex_padded(&mut msg, response.cmd as u64, 2);
                        text::push_text(&mut msg, " status=0x");
                        text::push_hex_padded(&mut msg, response.status as u64, 2);
                        text::push_text(&mut msg, " payload_len=");
                        let payload_len: usize = buffer::run_bytes(&response.payload).len();
                        text::push_decimal(&mut msg, payload_len as u64);
                        publish_status(&mut events, msg);
                        proof {
                            assert(bus::event_data(events@) =~= seq![
                                EventData::System(
                                    response_message(
                                        response.cmd,
                                        response.status,
                                        payload_len as nat,
                                    ),
                                ),
                            ]);
                        }
                        Some(events)
                    },
                    _ => None,
                }
            },
            SerialIngressMode::Sent => {
                match self.sent_codec.try_decode(&mut self.unread) {
                    Ok(Some(frame)) => {
                        let events = self.sent_frame_events(frame, elapsed_nanos);
                        self.req_id = self.req_id.saturating_add(1);
                        Some(events)
                    },
                    _ => None,
                }
            },
        }
    }

    fn group_step(&mut self, elapsed_nanos: u128, wall: SystemTime) -> (r: Vec<AppEvent>)
        requires
            old(self).wf(),
            old(self)@.next_group < old(self)@.groups.len(),
        ensures
            final(self).wf(),
            final(self)@ == after_group(old(self)@),
            bus::event_data(r@) == group_events(old(self)@, elapsed_nanos, wall),
    {
        let ghost d = self@;
        let group = self.groups[self.next_group];
        let alarm: bool = group.ch1.alarm;
        let t = SampleTime::Elapsed { nanos: elapsed_nanos, groups: self.next_group as u32 };
        let mut events: Vec<AppEvent> = Vec::new();
        proof {
            bus::lemma_no_events(events@);
        }
        let changed: bool = match self.alarm {
            Some(last) => last != alarm,
            None => true,
        };
        if changed {
            self.alarm = Some(alarm);
            let word: &str = if alarm {
                "asserted"
            } else {
                "cleared"
            };
            let mut message = text::owned("demo alarm bit ");
            text::push_text(&mut message, word);
            let alarm_event = AlarmEvent {
                device_id: text::owned(self.device_id.as_str()),
                alarm_id: text::owned("demo_alarm_bit"),
                level: AlarmLevel::Warning,
                message,
                raised_at: wall,
                cleared: !alarm,
            };
            let event = if alarm {
                AppEvent::Device(DeviceEvent::AlarmRaised(alarm_event))
            } else {
                AppEvent::Device(DeviceEvent::AlarmCleared(alarm_event))
            };
            proof {
                bus::lemma_event_push(events@, event);
            }
            events.push(event);
            let mut msg = text::owned("collector serial demo alarm ");
            text::push_text(&mut msg, word);
            publish_status(&mut events, msg);
        }
        proof {
            assert(bus::event_data(events@) =~= alarm_events(d, alarm, wall));
        }
        publish_telemetry_sample(
            &mut events,
            self.device_id.as_str(),
            0,
            t,
            Number::Integer(group.ch1.x as i64),
            self.req_id,
            alarm,
            TelemetrySourceKind::SerialDemo,
        );
        publish_telemetry_sample(
            &mut events,
            self.device_id.as_str(),
            1,
            t,
            Number::Integer(group.ch1.y as i64),
            self.req_id,
            alarm,
            TelemetrySourceKind::SerialDemo,
        );
        publish_telemetry_sample(
            &mut events,
            self.device_id.as_str(),
            2,
            t,
            Number::Integer(group.ch1.z as i64),
            self.req_id,
            alarm,
            TelemetrySourceKind::SerialDemo,
        );
        self.req_id = self.req_id.saturating_add(1);
        self.next_group = self.next_group + 1;
        proof {
            assert(bus::event_data(events@) =~= group_events(d, elapsed_nanos, wall));
        }
        events
    }

    fn sent_frame_events(&self, frame: SentFrame, elapsed_nanos: u128) -> (r: Vec<AppEvent>)
        ensures
            bus::event_data(r@) == sent_events(self@, frame, elapsed_nanos),
    {
        let t = SampleTime::Elapsed { nanos: elapsed_nanos, groups: 0 };
        let mut events: Vec<AppEvent> = Vec::new();
        proof {
            bus::lemma_no_events(events@);
        }
        if frame.pause == 0x1 || frame.pause == 0x6 {
            let first: usize = if frame.pause == 0x1 {
                0
            } else {
                2
            };
            let source = if frame.pause == 0x1 {
                TelemetrySourceKind::SerialSent1
            } else {
                TelemetrySourceKind::SerialSent2
            };
            publish_telemetry_sample(
                &mut events,
                self.device_id.as_str(),
                first,
                t,
                Number::Integer(frame.channel_1 as i64),
                self.req_id,
                false,
                source,
            );
            publish_telemetry_sample(
                &mut events,
                self.device_id.as_str(),
                first + 1,
                t,
                Number::Integer(frame.channel_2 as i64),
                self.req_id,
                false,
                source,
            );
        } else if frame.pause == 0xB {
            publish_telemetry_sample(
                &mut events,
                self.device_id.as_str(),
                4,
                t,
                Number::Integer(frame.channel_1 as i64),
                self.req_id,
                false,
                TelemetrySourceKind::SerialSent3,
            );
        } else {
            let mut msg = text::owned("collector serial sent unsupported pause=0x");
            text::push_hex(&mut msg, frame.pause as u64);
            text::push_text(&mut msg, " status=0x");
            text::push_hex(&mut msg, frame.status as u64);
            publish_status(&mut events, msg);
        }
        proof {
            assert(bus::event_data(events@) =~= sent_events(self@, frame, elapsed_nanos));
        }
        events
    }
}

/// The message that a port cannot be opened.
pub fn open_failed(port_name: &str, baud_rate: u32, error: &TransportError) -> (r: AppEvent)
    ensures
        r@ == EventData::System(
            "collector serial open failed "@ + port_name@ + "@"@ + text::decimal(
                baud_rate as nat,
            ) + ": "@ + error@,
        ),
{
    let mut msg = text::owned("collector serial open failed ");
    text::push_text(&mut msg, port_name);
    text::push_text(&mut msg, "@");
    text::push_decimal(&mut msg, baud_rate as u64);
    text::push_text(&mut msg, ": ");
    text::push_text(&mut msg, error.to_text().as_str());
    bus::status(msg)
}

/// The message that a port is open.
pub fn listening(port_name: &str, baud_rate: u32, mode: SerialIngressMode) -> (r: AppEvent)
    ensures
        r@ == EventData::System(
            "collector serial listening: "@ + port_name@ + " @ "@ + text::decimal(
                baud_rate as nat,
            ) + " ("@ + mode.name() + ")"@,
        ),
{
    let mut msg = text::owned("collector serial listening: ");
    text::push_text(&mut msg, port_name);
    text::push_text(&mut msg, " @ ");
    text::push_decimal(&mut msg, baud_rate as u64);
    text::push_text(&mut msg, " (");
    text::push_text(&mut msg, mode.label());
    text::push_text(&mut msg, ")");
    bus::status(msg)
}

/// What a failed read means: nothing where it only took too long; otherwise the port is
/// given up, with this message.
pub fn read_failed(port_name: &str, error: &TransportError) -> (r: Option<AppEvent>)
    ensures
        if error is Io && error->Io_0.timed_out {
            r is None
        } else {
            r is Some && r->0@ == EventData::System(
                "collector serial read error "@ + port_name@ + ": "@ + error@,
            )
        },
{
    if error.is_timeout() {
        return None;
    }
    let mut msg = text::owned("collector serial read error ");
    text::push_text(&mut msg, port_name);
    text::push_text(&mut msg, ": ");
    text::push_text(&mut msg, error.to_text().as_str());
    Some(bus::status(msg))
}

/// The alarm of the demo board is announced when it changes, and only then: of two groups
/// one after the other, the second announces it where their bits differ.
pub proof fn law_alarm_announced_on_change(d: SerialData, elapsed_nanos: u128, wall: SystemTime)
    requires
        d.wf(),
        d.next_group + 1 < d.groups.len(),
    ensures
        ({
            let next = after_group(d);
            let changed = d.groups[d.next_group].ch1.alarm != d.groups[d.next_group
                + 1].ch1.alarm;
            &&& group_events(next, elapsed_nanos, wall).len() == if changed {
                5nat
            } else {
                3nat
            }
            &&& changed ==> (if d.groups[d.next_group + 1].ch1.alarm {
                group_events(next, elapsed_nanos, wall)[0] is AlarmRaised
            } else {
                group_events(next, elapsed_nanos, wall)[0] is AlarmCleared
            })
        }),
{
}

// ---- what holds of all groups and frames ----

/// A group of the demo board gives three samples of its first channel, x as sensor 0, y as
/// sensor 1 and z as sensor 2, all under the number of the group and with its alarm bit; they
/// stand last. Before them stand an alarm and a message, where the alarm bit is not the one of
/// the group before, and nothing where it is.
pub proof fn law_group_samples(d: SerialData, elapsed_nanos: u128, wall: SystemTime)
    requires
        0 <= d.next_group < d.groups.len(),
    ensures
        ({
            let group = d.groups[d.next_group].ch1;
            let events = group_events(d, elapsed_nanos, wall);
            let first = events.len() - 3;
            let values = seq![group.x, group.y, group.z];
            &&& first == if d.alarm == Some(group.alarm) {
                0int
            } else {
                2
            }
            &&& forall|i: int|
                0 <= i < 3 ==> (#[trigger] events[first + i] matches EventData::TelemetrySample(
                    sample,
                ) && sample.sensor_id == i && sample.value == NumberData::Integer(
                    values[i] as i64,
                ) && sample.device_id == d.device_id && sample.req_id == d.req_id
                    && sample.alarm_bit == group.alarm && sample.source_kind
                    == TelemetrySourceKind::SerialDemo && sample.t_sec == (SampleTime::Elapsed {
                    nanos: elapsed_nanos,
                    groups: d.next_group as u32,
                }))
            &&& first == 2 && group.alarm ==> {
                &&& events[0] matches EventData::AlarmRaised(alarm) && alarm.device_id
                    == d.device_id && alarm.alarm_id == "demo_alarm_bit"@ && alarm.level
                    == AlarmLevel::Warning && alarm.message == "demo alarm bit "@ + "asserted"@
                    && alarm.raised_at == wall && !alarm.cleared
                &&& events[1] == EventData::System("collector serial demo alarm "@ + "asserted"@)
            }
            &&& first == 2 && !group.alarm ==> {
                &&& events[0] matches EventData::AlarmCleared(alarm) && alarm.device_id
                    == d.device_id && alarm.alarm_id == "demo_alarm_bit"@ && alarm.level
                    == AlarmLevel::Warning && alarm.message == "demo alarm bit "@ + "cleared"@
                    && alarm.raised_at == wall && alarm.cleared
                &&& events[1] == EventData::System("collector serial demo alarm "@ + "cleared"@)
            }
        }),
        after_group(d).next_group == d.next_group + 1,
        after_group(d).alarm == Some(d.groups[d.next_group].ch1.alarm),
        d.req_id < u64::MAX ==> after_group(d).req_id == d.req_id + 1,
        d.req_id == u64::MAX ==> after_group(d).req_id == d.req_id,
        after_group(d).groups == d.groups,
        after_group(d).unread == d.unread,
        after_group(d).device_id == d.device_id,
        after_group(d).mode == d.mode,
{
}

/// A SENT frame with the pause nibble 0x1 gives the sensors 0 and 1, one with 0x6 the sensors 2
/// and 3, the first channel before the second; one with 0xB gives sensor 4 from its first
/// channel. Any other gives a message and no sample.
pub proof fn law_sent_frame_samples(d: SerialData, frame: SentFrame, elapsed_nanos: u128)
    ensures
        ({
            let events = sent_events(d, frame, elapsed_nanos);
            let first = if frame.pause == 0x1 {
                0int
            } else if frame.pause == 0x6 {
                2
            } else {
                4
            };
            let known = frame.pause == 0x1 || frame.pause == 0x6 || frame.pause == 0xB;
            let values = seq![frame.channel_1, frame.channel_2];
            &&& events.len() == if frame.pause == 0x1 || frame.pause == 0x6 {
                2int
            } else {
                1
            }
            &&& known ==> forall|i: int|
                0 <= i < events.len() ==> (#[trigger] events[i] matches EventData::TelemetrySample(
                    sample,
                ) && sample.sensor_id == first + i && sample.value == NumberData::Integer(
                    values[i] as i64,
                ) && sample.device_id == d.device_id && sample.req_id == d.req_id
                    && !sample.alarm_bit && sample.t_sec == (SampleTime::Elapsed {
                    nanos: elapsed_nanos,
                    groups: 0,
                }) && sample.source_kind == if frame.pause == 0x1 {
                    TelemetrySourceKind::SerialSent1
                } else if frame.pause == 0x6 {
                    TelemetrySourceKind::SerialSent2
                } else {
                    TelemetrySourceKind::SerialSent3
                })
            &&& !known ==> events[0] == EventData::System(
                "collector serial sent unsupported pause=0x"@ + text::hex(frame.pause as nat)
                    + " status=0x"@ + text::hex(frame.status as nat),
            )
        }),
{
}

/// A plain frame that names a sensor and a value gives that one sample, under the frame's
/// number; one that does not gives nothing.
pub proof fn law_legacy_frame_samples(d: SerialData, frame: FrameData, elapsed_nanos: u128)
    ensures
        match payload::sensor_value(frame.payload) {
            Some((sensor_id, value)) => {
                let events = legacy_events(d, frame, elapsed_nanos);
                &&& events.len() == 1
                &&& events[0] matches EventData::TelemetrySample(sample) && sample.device_id
                    == d.device_id && sample.sensor_id == sensor_id as usize && sample.value
                    == NumberData::Text(value) && sample.req_id == frame.request_id
                    && !sample.alarm_bit && sample.source_kind
                    == TelemetrySourceKind::FrameStream && sample.t_sec == (SampleTime::Elapsed {
                    nanos: elapsed_nanos,
                    groups: 0,
                })
            },
            None => legacy_events(d, frame, elapsed_nanos).len() == 0,
        },
{
}

/// The groups at hand are done before anything more is read. After that each mode reads its own
/// frames, takes the frame it finds out of what was read, and gives nothing where it finds
/// none: a frame of groups puts its groups at hand, an answer of the board becomes a message,
/// and a SENT frame counts up.
pub proof fn law_serial_step(d: SerialData, elapsed_nanos: u128, wall: SystemTime)
    requires
        d.wf(),
    ensures
        ({
            let (after, events) = serial_step(d, elapsed_nanos, wall);
            let waiting = d.next_group < d.groups.len();
            &&& after.device_id == d.device_id
            &&& after.mode == d.mode
            &&& waiting ==> events == Some(group_events(d, elapsed_nanos, wall)) && after
                == after_group(d)
            &&& !waiting && d.mode == SerialIngressMode::Legacy ==> {
                let (found, rest) = stream::first_frame(legacy_scan(), d.unread);
                &&& after.unread == rest
                &&& after.req_id == d.req_id
                &&& events is Some <==> found is Some
                &&& found matches Some(frame) ==> events->0 == legacy_events(
                    d,
                    frame,
                    elapsed_nanos,
                )
            }
            &&& !waiting && d.mode == SerialIngressMode::Demo ==> {
                let (found, rest) = stream::first_frame(demo_serial::packet_scan(), d.unread);
                &&& after.unread == rest
                &&& after.req_id == d.req_id
                &&& events is Some <==> found is Some
                &&& found matches Some(PacketData::Stream { body }) ==> after.groups
                    == demo_serial::groups_of(body) && after.next_group == 0 && after.alarm
                    == d.alarm && events->0.len() == 0
                &&& found matches Some(PacketData::Response { cmd, status, payload }) ==> {
                    &&& after.groups == d.groups
                    &&& events->0.len() == 1
                    &&& events->0[0] == EventData::System(
                        "collector serial response cmd=0x"@ + text::zero_padded(
                            text::hex(cmd as nat),
                            2,
                        ) + " status=0x"@ + text::zero_padded(text::hex(status as nat), 2)
                            + " payload_len="@ + text::decimal(payload.len()),
                    )
                }
            }
            &&& !waiting && d.mode == SerialIngressMode::Sent ==> {
                let (found, rest) = stream::first_frame(sent::sent_scan(), d.unread);
                &&& after.unread == rest
                &&& events is Some <==> found is Some
                &&& found is None ==> after.req_id == d.req_id
                &&& found matches Some(frame) ==> {
                    &&& events->0 == sent_events(d, frame, elapsed_nanos)
                    &&& d.req_id < u64::MAX ==> after.req_id == d.req_id + 1
                    &&& d.req_id == u64::MAX ==> after.req_id == d.req_id
                }
            }
        }),
{
}

/// A mode is chosen by its name, in whatever case and with blanks around it; SENT also by a
/// name that ends in 1, 2 or 3. Any other word chooses none.
pub proof fn law_mode_names(s: Seq<char>)
    ensures
        ({
            let word = text::lowered(text::trimmed(s));
            &&& word == "legacy"@ ==> mode_of(s) == Some(SerialIngressMode::Legacy)
            &&& word == "demo"@ ==> mode_of(s) == Some(SerialIngressMode::Demo)
            &&& word == "sent"@ || word == "sent1"@ || word == "sent2"@ || word == "sent3"@
                ==> mode_of(s) == Some(SerialIngressMode::Sent)
            &&& mode_of(s) is Some ==> word == "legacy"@ || word == "demo"@ || word == "sent"@
                || word == "sent1"@ || word == "sent2"@ || word == "sent3"@
        }),
        SerialIngressMode::Legacy.name() == "legacy"@,
        SerialIngressMode::Demo.name() == "demo"@,
        SerialIngressMode::Sent.name() == "sent"@,
{
    reveal_strlit("legacy");
    reveal_strlit("demo");
    reveal_strlit("sent");
    reveal_strlit("sent1");
    reveal_strlit("sent2");
    reveal_strlit("sent3");
    assert("legacy"@.len() == 6 && "demo"@.len() == 4 && "sent"@.len() == 4 && "sent1"@.len() == 5
        && "sent2"@.len() == 5 && "sent3"@.len() == 5);
    assert("demo"@[0] != "sent"@[0]);
}

/// A mode is read back from its own name.
pub proof fn law_mode_name_is_read_back(mode: SerialIngressMode)
    ensures
        mode_of(mode.name()) == Some(mode),
{
    reveal_strlit("legacy");
    reveal_strlit("demo");
    reveal_strlit("sent");
    let name = mode.name();
    text::lemma_trimmed_already(name);
    assert(text::lowered(name) =~= name);
    law_mode_names(name);
}

/// A plain frame with up to 4096 bytes of payload is found on the serial port, and no larger
/// one is taken for a frame.
pub proof fn law_legacy_limit(frame: FrameData, rest: Seq<u8>, src: Seq<u8>)
    ensures
        frame.payload.len() <= 4096 ==> stream::first_frame(
            legacy_scan(),
            protocol::frame_bytes(frame) + rest,
        ) == (Some(frame), rest),
        LEGACY_MAX_PAYLOAD == 4096,
        (legacy_scan())(src) matches stream::Scan::Take(found, n) ==> found.payload.len() <= 4096,
{
    if frame.payload.len() <= 4096 {
        protocol::law_frame_round_trip(4096, frame, rest);
        assert(legacy_scan() =~= |s: Seq<u8>| protocol::scan_frame(4096, s));
    }
}

} // verus!
