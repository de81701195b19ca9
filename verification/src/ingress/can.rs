//! The CAN bus as a way in: frames become samples, alarms and messages; the channel is found
//! by trying candidates.
use std::collections::{HashSet, VecDeque};
use std::time::SystemTime;
use vstd::prelude::*;

use crate::bus;
use crate::bus::{
    AppEvent, DeviceEvent, EventData, SampleData, SampleTime, TelemetrySourceKind,
};
use crate::bytes_value;
use crate::domain::{AlarmData, AlarmEvent, AlarmLevel};
use crate::ingress::serial;
use crate::ingress::serial::{publish_status, publish_telemetry_sample};
use crate::number::{Number, NumberData, Real};
use crate::text;
use crate::transport::can::{
    CanConfigData, CanFrame, CanTransportConfig, CanTransportError, CanTxFrame,
};

verus! {

broadcast use vstd::std_specs::hash::group_hash_axioms;

#[derive(Clone, Copy, Debug, PartialEq, Eq, Structural)]
pub struct SentFilterConfig {
    pub enabled: bool,
    pub window_size: usize,
}

impl Default for SentFilterConfig {
    fn default() -> (r: Self)
        ensures
            r.enabled,
            r.window_size == 10,
    {
        SentFilterConfig { enabled: true, window_size: 10 }
    }
}

// ---- the channel ----

/// The hardware names that are tried: the one that was asked for, and the usual one where
/// the name asked for is another or `auto`.
pub open spec fn candidate_names(requested: Seq<char>) -> Seq<Seq<char>> {
    let name = text::trimmed(requested);
    let word = text::lowered(name);
    let first = if name.len() == 0 {
        Seq::empty()
    } else {
        seq![name]
    };
    if word == "tc1012"@ {
        first
    } else {
        first.push("TC1012"@)
    }
}

/// How many channels are tried: as many as the configuration counts, but no fewer than four
/// and no more than there are channel numbers.
pub open spec fn scan_limit(channel_count: i32) -> int {
    if channel_count < 4 {
        4
    } else if channel_count > 256 {
        256
    } else {
        channel_count as int
    }
}

/// The channels below `n`, in order, without one of them.
pub open spec fn channels_below(n: int, without: u8) -> Seq<u8>
    decreases n,
{
    if n <= 0 {
        Seq::empty()
    } else if n - 1 == without {
        channels_below(n - 1, without)
    } else {
        channels_below(n - 1, without).push((n - 1) as u8)
    }
}

/// The channels that are tried: the one that was asked for, then the others in order.
pub open spec fn candidate_channels(config: CanConfigData) -> Seq<u8> {
    seq![config.channel_index] + channels_below(
        scan_limit(config.channel_count),
        config.channel_index,
    )
}

/// The configuration with another name and channel.
pub open spec fn on_channel(config: CanConfigData, name: Seq<char>, channel: u8) -> CanConfigData {
    CanConfigData {
        hardware_name: name,
        channel_index: channel,
        channel_count: (channel + 1) as i32,
        ..config
    }
}

/// The candidates of one name: each channel once.
pub open spec fn candidates_of_name(config: CanConfigData, name: Seq<char>) -> Seq<CanConfigData> {
    candidate_channels(config).map_values(|channel: u8| on_channel(config, name, channel))
}

/// The candidates of several names, one name after the other.
pub open spec fn candidates_of_names(config: CanConfigData, names: Seq<Seq<char>>) -> Seq<
    CanConfigData,
>
    decreases names.len(),
{
    if names.len() == 0 {
        Seq::empty()
    } else {
        candidates_of_names(config, names.drop_last()) + candidates_of_name(config, names.last())
    }
}

/// All candidates for a configuration, in the order in which they are tried.
pub open spec fn candidates(config: CanConfigData) -> Seq<CanConfigData> {
    candidates_of_names(config, candidate_names(config.hardware_name))
}

/// The views of configurations.
pub open spec fn config_data(configs: Seq<CanTransportConfig>) -> Seq<CanConfigData> {
    configs.map_values(|config: CanTransportConfig| config@)
}

pub fn candidate_can_configs(config: &CanTransportConfig) -> (r: Vec<CanTransportConfig>)
    ensures
        config_data(r@) == candidates(config@),
{
    let requested: Vec<char> = text::chars_of(config.hardware_name.as_str());
    let name: &[char] = text::trim(requested.as_slice());
    let mut names: Vec<String> = Vec::new();
    let ghost mut name_views: Seq<Seq<char>> = Seq::empty();
    if name.len() > 0 {
        names.push(text::string_of(name));
        proof {
            name_views = name_views.push(name@);
        }
    }
    if !text::is_word(name, "tc1012") {
        names.push(text::owned("TC1012"));
        proof {
            name_views = name_views.push("TC1012"@);
        }
    }
    proof {
        assert(name_views =~= candidate_names(config@.hardware_name));
    }
    let limit: u32 = if config.channel_count < 4 {
        4
    } else if config.channel_count > 256 {
        256
    } else {
        config.channel_count as u32
    };
    let mut channels: Vec<u8> = Vec::new();
    channels.push(config.channel_index);
    let mut channel: u32 = 0;
    while channel < limit
        invariant
            channel <= limit <= 256,
            channels@ == seq![config.channel_index] + channels_below(
                channel as int,
                config.channel_index,
            ),
        decreases limit - channel,
    {
        let ghost before = channels@;
        if channel as u8 != config.channel_index {
            channels.push(channel as u8);
        }
        channel = channel + 1;
        proof {
            assert(channels@ =~= seq![config.channel_index] + channels_below(
                channel as int,
                config.channel_index,
            ));
        }
    }
    let mut result: Vec<CanTransportConfig> = Vec::new();
    proof {
        assert(config_data(result@) =~= candidates_of_names(config@, name_views.take(0)));
    }
    for i in 0..names.len()
        invariant
            names@.len() == name_views.len(),
            forall|k: int| 0 <= k < names@.len() ==> (#[trigger] names@[k])@ == name_views[k],
            channels@ == candidate_channels(config@),
            config_data(result@) == candidates_of_names(config@, name_views.take(i as int)),
    {
        let ghost before = config_data(result@);
        let ghost all = candidates_of_name(config@, name_views[i as int]);
        proof {
            assert(before + all.take(0) =~= before);
        }
        for j in 0..channels.len()
            invariant
                i < names@.len(),
                names@[i as int]@ == name_views[i as int],
                channels@ == candidate_channels(config@),
                all == candidates_of_name(config@, name_views[i as int]),
                config_data(result@) == before + all.take(j as int),
        {
            let mut candidate = config.clone();
            candidate.hardware_name = text::owned(names[i].as_str());
            candidate.channel_index = channels[j];
            candidate.channel_count = channels[j] as i32 + 1;
            let ghost so_far = config_data(result@);
            result.push(candidate);
            proof {
                assert(candidate@ =~= all[j as int]);
                assert(config_data(result@) =~= so_far.push(candidate@));
                assert(config_data(result@) =~= before + all.take(j + 1));
            }
        }
        proof {
            assert(all.take(channels@.len() as int) =~= all);
            assert(name_views.take(i + 1).drop_last() =~= name_views.take(i as int));
            assert(name_views.take(i + 1).last() == name_views[i as int]);
        }
    }
    proof {
        assert(name_views.take(names@.len() as int) =~= name_views);
    }
    result
}

proof fn lemma_channels_below(n: int, without: u8)
    requires
        n <= 256,
    ensures
        forall|i: int|
            0 <= i < channels_below(n, without).len() ==> (#[trigger] channels_below(n, without)[i])
                < n && channels_below(n, without)[i] != without,
        channels_below(n, without).no_duplicates(),
        forall|c: u8| c < n && c != without ==> #[trigger] channels_below(n, without).contains(c),
    decreases n,
{
    if n > 0 {
        lemma_channels_below(n - 1, without);
        let shorter = channels_below(n - 1, without);
        let all = channels_below(n, without);
        assert forall|c: u8| c < n && c != without implies #[trigger] all.contains(c) by {
            if c < n - 1 {
                assert(shorter.contains(c));
                let k = choose|k: int| 0 <= k < shorter.len() && shorter[k] == c;
                assert(all[k] == c);
            } else {
                assert(all[all.len() - 1] == c);
            }
        }
    }
}

/// The channel that was asked for is tried first, every channel below the limit is tried,
/// and no channel is tried twice.
pub proof fn law_candidate_channels(config: CanConfigData)
    ensures
        candidate_channels(config)[0] == config.channel_index,
        candidate_channels(config).no_duplicates(),
        forall|c: u8|
            c < scan_limit(config.channel_count) ==> #[trigger] candidate_channels(
                config,
            ).contains(c),
{
    let limit = scan_limit(config.channel_count);
    lemma_channels_below(limit, config.channel_index);
    let rest = channels_below(limit, config.channel_index);
    let all = candidate_channels(config);
    assert forall|c: u8| c < limit implies #[trigger] all.contains(c) by {
        if c == config.channel_index {
            assert(all[0] == c);
        } else {
            assert(rest.contains(c));
            let k = choose|k: int| 0 <= k < rest.len() && rest[k] == c;
            assert(all[k + 1] == c);
        }
    }
    assert forall|a: int, b: int| 0 <= a < all.len() && 0 <= b < all.len() && a != b implies all[a]
        != all[b] by {
        if a == 0 {
            assert(all[b] == rest[b - 1]);
        } else if b == 0 {
            assert(all[a] == rest[a - 1]);
        } else {
            assert(all[a] == rest[a - 1] && all[b] == rest[b - 1]);
        }
    }
}

/// How messages name a channel.
pub open spec fn target_text(config: CanConfigData) -> Seq<char> {
    "hw="@ + config.hardware_name + " ch="@ + text::decimal(config.channel_index as nat)
}

pub fn format_can_target(config: &CanTransportConfig) -> (r: String)
    ensures
        r@ == target_text(config@),
{
    let mut r = text::owned("hw=");
    text::push_text(&mut r, config.hardware_name.as_str());
    text::push_text(&mut r, " ch=");
    text::push_decimal(&mut r, config.channel_index as u64);
    r
}

/// The name of the device behind a channel.
pub open spec fn can_device_id(config: CanConfigData) -> Seq<char> {
    "can://"@ + config.hardware_name + ":ch"@ + text::decimal(config.channel_index as nat)
}

/// The search for a channel that can be opened.
pub struct CanProbe {
    requested: CanTransportConfig,
    candidates: Vec<CanTransportConfig>,
    next: usize,
    failures: Vec<String>,
}

/// How far the search is.
#[verifier::ext_equal]
pub ghost struct ProbeData {
    pub requested: CanConfigData,
    pub candidates: Seq<CanConfigData>,
    pub next: int,
    /// Why the candidates so far were not it.
    pub failures: Seq<Seq<char>>,
}

impl View for CanProbe {
    type V = ProbeData;

    closed spec fn view(&self) -> ProbeData {
        ProbeData {
            requested: self.requested@,
            candidates: config_data(self.candidates@),
            next: self.next as int,
            failures: self.failures@.map_values(|s: String| s@),
        }
    }
}

impl ProbeData {
    pub open spec fn wf(self) -> bool {
        0 <= self.next <= self.candidates.len()
    }

    /// Whether more than one candidate is tried.
    pub open spec fn scanning(self) -> bool {
        self.candidates.len() > 1
    }
}

impl CanProbe {
    /// Begins the search; where several candidates are tried, this is announced.
    pub fn new(config: &CanTransportConfig) -> (r: (Self, Vec<AppEvent>))
        ensures
            r.0@ == (ProbeData {
                requested: config@,
                candidates: candidates(config@),
                next: 0,
                failures: Seq::empty(),
            }),
            bus::event_data(r.1@) == if candidates(config@).len() > 1 {
                seq![
                    EventData::System(
                        "collector can auto-detect enabled, probing "@ + text::decimal(
                            candidates(config@).len(),
                        ) + " candidate(s)"@,
                    ),
                ]
            } else {
                Seq::empty()
            },
    {
        let candidates = candidate_can_configs(config);
        let mut events: Vec<AppEvent> = Vec::new();
        proof {
            bus::lemma_no_events(events@);
        }
        if candidates.len() > 1 {
            let mut msg = text::owned("collector can auto-detect enabled, probing ");
            text::push_decimal(&mut msg, candidates.len() as u64);
            text::push_text(&mut msg, " candidate(s)");
            publish_status(&mut events, msg);
            proof {
                assert(config_data(candidates@).len() == candidates@.len());
            }
        }
        let probe = CanProbe {
            requested: config.clone(),
            candidates,
            next: 0,
            failures: Vec::new(),
        };
        proof {
            assert(probe@.failures =~= Seq::<Seq<char>>::empty());
            assert(bus::event_data(events@) =~= if candidates@.len() > 1 {
                seq![
                    EventData::System(
                        "collector can auto-detect enabled, probing "@ + text::decimal(
                            candidates@.len(),
                        ) + " candidate(s)"@,
                    ),
                ]
            } else {
                Seq::empty()
            });
        }
        (probe, events)
    }

    /// The candidate to try next; none where all have been tried.
    pub fn candidate(&self) -> (r: Option<&CanTransportConfig>)
        ensures
            match r {
                Some(config) => self@.next < self@.candidates.len() && config@
                    == self@.candidates[self@.next],
                None => self@.next >= self@.candidates.len(),
            },
    {
        if self.next < self.candidates.len() {
            Some(&self.candidates[self.next])
        } else {
            None
        }
    }

    /// The candidate could be opened. A channel other than the one asked for is announced.
    pub fn succeeded(&self) -> (r: Vec<AppEvent>)
        requires
            self@.wf(),
            self@.next < self@.candidates.len(),
        ensures
            ({
                let found = self@.candidates[self@.next];
                bus::event_data(r@) == if found.hardware_name != self@.requested.hardware_name
                    || found.channel_index != self@.requested.channel_index {
                    seq![EventData::System("collector can auto-detected "@ + target_text(found))]
                } else {
                    Seq::empty()
                }
            }),
    {
        let found: &CanTransportConfig = &self.candidates[self.next];
        let mut events: Vec<AppEvent> = Vec::new();
        proof {
            bus::lemma_no_events(events@);
            assert(found@ == self@.candidates[self@.next]);
        }
        if !text::same_text(found.hardware_name.as_str(), self.requested.hardware_name.as_str())
            || found.channel_index != self.requested.channel_index {
            let mut msg = text::owned("collector can auto-detected ");
            text::push_text(&mut msg, format_can_target(found).as_str());
            publish_status(&mut events, msg);
            proof {
                assert(bus::event_data(events@) =~= seq![
                    EventData::System("collector can auto-detected "@ + target_text(found@)),
                ]);
            }
        }
        events
    }

    /// The candidate could not be opened; the search goes on with the next.
    pub fn failed(&mut self, error: &CanTransportError) -> (r: Vec<AppEvent>)
        requires
            old(self)@.wf(),
            old(self)@.next < old(self)@.candidates.len(),
        ensures
            final(self)@.wf(),
            ({
                let reason = target_text(old(self)@.candidates[old(self)@.next]) + ": "@ + error@;
                &&& final(self)@ == (ProbeData {
                    next: old(self)@.next + 1,
                    failures: old(self)@.failures.push(reason),
                    ..old(self)@
                })
                &&& bus::event_data(r@) == if old(self)@.scanning() {
                    seq![EventData::System("collector can probe failed "@ + reason)]
                } else {
                    Seq::empty()
                }
            }),
    {
        let ghost before = self@;
        let tried: &CanTransportConfig = &self.candidates[self.next];
        let mut events: Vec<AppEvent> = Vec::new();
        proof {
            bus::lemma_no_events(events@);
            assert(tried@ == self@.candidates[self@.next]);
        }
        let mut reason = format_can_target(tried);
        text::push_text(&mut reason, ": ");
        text::push_text(&mut reason, error.to_text().as_str());
        if self.candidates.len() > 1 {
            let mut msg = text::owned("collector can probe failed ");
            text::push_text(&mut msg, reason.as_str());
            publish_status(&mut events, msg);
            proof {
                assert(bus::event_data(events@) =~= seq![
                    EventData::System("collector can probe failed "@ + reason@),
                ]);
            }
        }
        self.failures.push(reason);
        self.next = self.next + 1;
        proof {
            assert(self@.failures =~= before.failures.push(reason@));
        }
        events
    }

    /// The message that no candidate could be opened.
    pub fn exhausted(&self) -> (r: AppEvent)
        ensures
            r@ == EventData::System(
                "collector can open failed "@ + target_text(self@.requested) + "; tried: "@
                    + text::join_with(self@.failures, " | "@),
            ),
    {
        let mut msg = text::owned("collector can open failed ");
        text::push_text(&mut msg, format_can_target(&self.requested).as_str());
        text::push_text(&mut msg, "; tried: ");
        text::push_text(&mut msg, text::join(&self.failures, " | ").as_str());
        bus::status(msg)
    }
}

/// The message that a channel is open.
pub fn listening(config: &CanTransportConfig) -> (r: AppEvent)
    ensures
        r@ == EventData::System(
            "collector can listening: hw="@ + config@.hardware_name + " ch="@ + text::decimal(
                config@.channel_index as nat,
            ) + " arb="@ + text::decimal(config@.arbitration_baud_kbps as nat) + "kbps data="@
                + text::decimal(config@.data_baud_kbps as nat) + "kbps"@,
        ),
{
    let mut msg = text::owned("collector can listening: hw=");
    text::push_text(&mut msg, config.hardware_name.as_str());
    text::push_text(&mut msg, " ch=");
    text::push_decimal(&mut msg, config.channel_index as u64);
    text::push_text(&mut msg, " arb=");
    text::push_decimal(&mut msg, config.arbitration_baud_kbps as u64);
    text::push_text(&mut msg, "kbps data=");
    text::push_decimal(&mut msg, config.data_baud_kbps as u64);
    text::push_text(&mut msg, "kbps");
    bus::status(msg)
}

/// A frame that waits to be sent goes out on the channel that is open.
pub fn for_channel(frame: CanTxFrame, channel_index: u8) -> (r: CanTxFrame)
    ensures
        r == (CanTxFrame { channel: channel_index, ..frame }),
{
    CanTxFrame { channel: channel_index, ..frame }
}

/// The message that a frame could not be sent.
pub fn tx_failed(device_id: &str, error: &CanTransportError) -> (r: AppEvent)
    ensures
        r@ == EventData::System("collector can tx failed "@ + device_id@ + ": "@ + error@),
{
    let mut msg = text::owned("collector can tx failed ");
    text::push_text(&mut msg, device_id);
    text::push_text(&mut msg, ": ");
    text::push_text(&mut msg, error.to_text().as_str());
    bus::status(msg)
}

/// The message that the channel is given up after a failed read.
pub fn read_failed(device_id: &str, error: &CanTransportError) -> (r: AppEvent)
    ensures
        r@ == EventData::System(
            if error is CallbackDisconnected {
                "collector can callback disconnected "@ + device_id@
            } else {
                "collector can read error "@ + device_id@ + ": "@ + error@
            },
        ),
{
    match error {
        CanTransportError::CallbackDisconnected => {
            let mut msg = text::owned("collector can callback disconnected ");
            text::push_text(&mut msg, device_id);
            bus::status(msg)
        },
        _ => {
            let mut msg = text::owned("collector can read error ");
            text::push_text(&mut msg, device_id);
            text::push_text(&mut msg, ": ");
            text::push_text(&mut msg, error.to_text().as_str());
            bus::status(msg)
        },
    }
}

/// What became of a frame that was put into the queue for sending.
#[derive(Debug)]
pub enum TxQueue {
    /// The queue cannot be reached.
    Poisoned,
    /// No channel is open.
    NotReady,
    /// The queue refused the frame, for this reason.
    Refused(String),
    Accepted,
}

/// The answer to whoever wanted to send a frame.
pub fn enqueue_can_tx(queue: TxQueue) -> (r: Result<(), String>)
    ensures
        match queue {
            TxQueue::Poisoned => r matches Err(error) && error@ == "CAN TX queue lock poisoned"@,
            TxQueue::NotReady => r matches Err(error) && error@
                == "collector CAN channel not ready"@,
            TxQueue::Refused(reason) => r matches Err(error) && error@
                == "collector CAN TX enqueue failed: "@ + reason@,
            TxQueue::Accepted => r is Ok,
        },
{
    match queue {
        TxQueue::Poisoned => Err(text::owned("CAN TX queue lock poisoned")),
        TxQueue::NotReady => Err(text::owned("collector CAN channel not ready")),
        TxQueue::Refused(reason) => {
            let mut error = text::owned("collector CAN TX enqueue failed: ");
            text::push_text(&mut error, reason.as_str());
            Err(error)
        },
        TxQueue::Accepted => Ok(()),
    }
}

// ---- frames ----

/// An error report of the SENT sensors.
#[derive(Clone, Copy, Debug, PartialEq, Eq, Structural)]
pub struct SentCanError {
    pub error_type: u8,
    pub t1_error: bool,
    pub t2_error: bool,
    pub s_error: bool,
}

/// The error report that a frame carries.
pub open spec fn sent_error_of(frame: CanFrame) -> Option<SentCanError> {
    let data = frame.payload();
    if frame.sent_here() || frame.identifier != 3 || data.len() < 4 {
        None
    } else {
        Some(
            SentCanError {
                error_type: data[0],
                t1_error: data[1] != 0,
                t2_error: data[2] != 0,
                s_error: data[3] != 0,
            },
        )
    }
}

pub fn decode_sent_error(frame: &CanFrame) -> (r: Option<SentCanError>)
    ensures
        r == sent_error_of(*frame),
{
    if frame.is_tx() || frame.identifier != 3 {
        return None;
    }
    let data: &[u8] = frame.data_bytes();
    if data.len() < 4 {
        return None;
    }
    Some(
        SentCanError {
            error_type: data[0],
            t1_error: data[1] != 0,
            t2_error: data[2] != 0,
            s_error: data[3] != 0,
        },
    )
}

/// The single-precision number at an offset, by its bits.
pub open spec fn single_at(data: Seq<u8>, offset: int) -> u32 {
    bytes_value::le_value(data.subrange(offset, offset + 4)) as u32
}

/// The bits of the little-endian single-precision number at an offset, where there are four
/// bytes.
pub fn read_f32_le(data: &[u8], offset: usize) -> (r: Option<u32>)
    ensures
        match r {
            Some(bits) => offset + 4 <= data@.len() && bits == single_at(data@, offset as int),
            None => offset + 4 > data@.len(),
        },
{
    if data.len() < 4 || offset > data.len() - 4 {
        return None;
    }
    let bits: u32 = data[offset] as u32 + 0x100 * data[offset + 1] as u32 + 0x1_0000 * data[offset
        + 2] as u32 + 0x100_0000 * data[offset + 3] as u32;
    proof {
        let s = data@.subrange(offset as int, offset + 4);
        reveal_with_fuel(bytes_value::le_value, 5);
        assert(s.skip(1).skip(1).skip(1).skip(1) =~= Seq::<u8>::empty());
        assert(s[0] == data@[offset as int]);
        assert(s.skip(1)[0] == data@[offset + 1]);
        assert(s.skip(1).skip(1)[0] == data@[offset + 2]);
        assert(s.skip(1).skip(1).skip(1)[0] == data@[offset + 3]);
    }
    Some(bits)
}

/// The five values of a SENT frame, by sensor: angle and torque of T1, angle and torque of
/// T2, angle of S.
pub open spec fn sent_values_of(frame: CanFrame) -> Option<Seq<(usize, u32)>> {
    let data = frame.payload();
    if frame.sent_here() || frame.identifier == 3 || data.len() < 53 {
        None
    } else {
        Some(
            seq![
                (0usize, single_at(data, 25)),
                (1usize, single_at(data, 29)),
                (2usize, single_at(data, 1)),
                (3usize, single_at(data, 5)),
                (4usize, single_at(data, 49)),
            ],
        )
    }
}

pub fn decode_sent_values(frame: &CanFrame) -> (r: Option<[(usize, u32); 5]>)
    ensures
        match r {
            Some(values) => sent_values_of(*frame) == Some(values@),
            None => sent_values_of(*frame) is None,
        },
{
    if frame.is_tx() || frame.identifier == 3 {
        return None;
    }
    let data: &[u8] = frame.data_bytes();
    if data.len() < 53 {
        return None;
    }
    match (
        read_f32_le(data, 25),
        read_f32_le(data, 29),
        read_f32_le(data, 1),
        read_f32_le(data, 5),
        read_f32_le(data, 49),
    ) {
        (Some(t1_angle), Some(t1_torque), Some(t2_angle), Some(t2_torque), Some(s_angle)) => {
            let values: [(usize, u32); 5] = [
                (0, t1_angle),
                (1, t1_torque),
                (2, t2_angle),
                (3, t2_torque),
                (4, s_angle),
            ];
            proof {
                assert(values@ =~= sent_values_of(*frame)->0);
            }
            Some(values)
        },
        _ => None,
    }
}

/// A big-endian number of four bytes in two's complement.
pub open spec fn signed32(v: nat) -> int {
    if v < 0x8000_0000 {
        v as int
    } else {
        v - 0x1_0000_0000
    }
}

/// The axis and the value that a frame carries.
pub open spec fn axis_of(frame: CanFrame) -> Option<(usize, i32)> {
    let data = frame.payload();
    let value = signed32(bytes_value::be_value(data.take(4))) as i32;
    if data.len() < 4 {
        None
    } else if frame.identifier == 0x100 {
        Some((0, value))
    } else if frame.identifier == 0x102 {
        Some((1, value))
    } else if frame.identifier == 0x104 {
        Some((2, value))
    } else {
        None
    }
}

pub fn decode_axis_sample(frame: &CanFrame) -> (r: Option<(usize, i32)>)
    ensures
        r == axis_of(*frame),
{
    let sensor_id: usize = match frame.identifier {
        0x100 => 0,
        0x102 => 1,
        0x104 => 2,
        _ => {
            return None;
        },
    };
    let data: &[u8] = frame.data_bytes();
    if data.len() < 4 {
        return None;
    }
    let v: i64 = data[0] as i64 * 0x100_0000 + data[1] as i64 * 0x1_0000 + data[2] as i64 * 0x100
        + data[3] as i64;
    proof {
        let s = data@.take(4);
        reveal_with_fuel(bytes_value::be_value, 5);
        assert(s.drop_last().drop_last().drop_last().drop_last() =~= Seq::<u8>::empty());
    }
    let raw: i32 = if v < 0x8000_0000 {
        v as i32
    } else {
        (v - 0x1_0000_0000) as i32
    };
    Some((sensor_id, raw))
}

/// What a self-test found for each axis.
pub open spec fn self_test_of(frame: CanFrame) -> Option<(bool, bool, bool)> {
    let data = frame.payload();
    if frame.sent_here() || frame.identifier != 0x123 || data.len() < 3 {
        None
    } else {
        Some((data[0] == 1, data[1] == 1, data[2] == 1))
    }
}

pub fn decode_self_test_response(frame: &CanFrame) -> (r: Option<(bool, bool, bool)>)
    ensures
        r == self_test_of(*frame),
{
    if frame.is_tx() || frame.identifier != 0x123 {
        return None;
    }
    let data: &[u8] = frame.data_bytes();
    if data.len() < 3 {
        return None;
    }
    Some((data[0] == 1, data[1] == 1, data[2] == 1))
}

/// The data bytes of a frame in hexadecimal.
pub open spec fn hex_bytes(data: Seq<u8>) -> Seq<Seq<char>> {
    data.map_values(|b: u8| text::zero_padded(text::hex(b as nat), 2))
}

/// A frame as a line of text.
pub open spec fn frame_text(frame: CanFrame) -> Seq<char> {
    (if frame.sent_here() {
        "TX"@
    } else {
        "RX"@
    }) + " ch="@ + text::decimal(frame.channel as nat) + " id=0x"@ + text::zero_padded(
        text::hex(frame.identifier as nat),
        3,
    ) + " dlc="@ + text::decimal(frame.dlc as nat) + " ts="@ + text::decimal(
        frame.timestamp_us as nat,
    ) + "us data="@ + text::join_with(hex_bytes(frame.payload()), " "@)
}

pub fn format_can_frame(frame: &CanFrame) -> (r: String)
    ensures
        r@ == frame_text(*frame),
{
    let data: &[u8] = frame.data_bytes();
    let mut parts: Vec<String> = Vec::new();
    for i in 0..data.len()
        invariant
            parts@.map_values(|s: String| s@) == hex_bytes(data@).take(i as int),
    {
        let mut part = String::new();
        text::push_hex_padded(&mut part, data[i] as u64, 2);
        let ghost before = parts@.map_values(|s: String| s@);
        parts.push(part);
        proof {
            assert(part@ =~= hex_bytes(data@)[i as int]);
            assert(parts@.map_values(|s: String| s@) =~= before.push(part@));
            assert(parts@.map_values(|s: String| s@) =~= hex_bytes(data@).take(i + 1));
        }
    }
    proof {
        assert(hex_bytes(data@).take(data@.len() as int) =~= hex_bytes(data@));
    }
    let mut r = if frame.is_tx() {
        text::owned("TX")
    } else {
        text::owned("RX")
    };
    text::push_text(&mut r, " ch=");
    text::push_decimal(&mut r, frame.channel as u64);
    text::push_text(&mut r, " id=0x");
    text::push_hex_padded(&mut r, frame.identifier as u64, 3);
    text::push_text(&mut r, " dlc=");
    text::push_decimal(&mut r, frame.dlc as u64);
    text::push_text(&mut r, " ts=");
    text::push_decimal(&mut r, frame.timestamp_us);
    text::push_text(&mut r, "us data=");
    text::push_text(&mut r, text::join(&parts, " ").as_str());
    r
}

// ---- error reports ----

pub open spec fn bit_text(b: bool) -> Seq<char> {
    if b {
        "1"@
    } else {
        "0"@
    }
}

/// How an error report reads.
pub open spec fn sent_error_text(error_type: u8, error: SentCanError, cleared: bool) -> Seq<char> {
    "SENT error type="@ + text::decimal(error_type as nat) + " t1="@ + bit_text(error.t1_error)
        + " t2="@ + bit_text(error.t2_error) + " s="@ + bit_text(error.s_error) + " "@ + (
    if cleared {
        "cleared"@
    } else {
        "active"@
    })
}

/// What an error that begins or ends leads to: an alarm and a message.
pub open spec fn sent_error_events(
    device_id: Seq<char>,
    error_type: u8,
    error: SentCanError,
    cleared: bool,
    wall: SystemTime,
) -> Seq<EventData> {
    let detail = sent_error_text(error_type, error, cleared);
    let alarm = AlarmData {
        device_id,
        alarm_id: "sent_error_"@ + text::decimal(error_type as nat),
        level: AlarmLevel::Warning,
        message: detail,
        raised_at: wall,
        cleared,
    };
    seq![
        if cleared {
            EventData::AlarmCleared(alarm)
        } else {
            EventData::AlarmRaised(alarm)
        },
        EventData::System(detail),
    ]
}

fn bit_word(b: bool) -> (r: &'static str)
    ensures
        r@ == bit_text(b),
{
    if b {
        "1"
    } else {
        "0"
    }
}

/// Adds what an error that begins or ends leads to.
pub fn publish_sent_error(
    events: &mut Vec<AppEvent>,
    device_id: &str,
    error_type: u8,
    error: SentCanError,
    cleared: bool,
    wall: SystemTime,
)
    ensures
        bus::event_data(final(events)@) == bus::event_data(old(events)@) + sent_error_events(
            device_id@,
            error_type,
            error,
            cleared,
            wall,
        ),
{
    let ghost before = bus::event_data(events@);
    let mut detail = text::owned("SENT error type=");
    text::push_decimal(&mut detail, error_type as u64);
    text::push_text(&mut detail, " t1=");
    text::push_text(&mut detail, bit_word(error.t1_error));
    text::push_text(&mut detail, " t2=");
    text::push_text(&mut detail, bit_word(error.t2_error));
    text::push_text(&mut detail, " s=");
    text::push_text(&mut detail, bit_word(error.s_error));
    text::push_text(&mut detail, " ");
    text::push_text(
        &mut detail,
        if cleared {
            "cleared"
        } else {
            "active"
        },
    );
    let mut alarm_id = text::owned("sent_error_");
    text::push_decimal(&mut alarm_id, error_type as u64);
    let alarm = AlarmEvent {
        device_id: text::owned(device_id),
        alarm_id,
        level: AlarmLevel::Warning,
        message: text::owned(detail.as_str()),
        raised_at: wall,
        cleared,
    };
    let event = if cleared {
        AppEvent::Device(DeviceEvent::AlarmCleared(alarm))
    } else {
        AppEvent::Device(DeviceEvent::AlarmRaised(alarm))
    };
    proof {
        bus::lemma_event_push(events@, event);
    }
    events.push(event);
    publish_status(events, detail);
    proof {
        assert(bus::event_data(events@) =~= before + sent_error_events(
            device_id@,
            error_type,
            error,
            cleared,
            wall,
        ));
    }
}

/// What the end of several errors leads to, in the given order.
pub open spec fn cleared_events(
    device_id: Seq<char>,
    order: Seq<u8>,
    error: SentCanError,
    wall: SystemTime,
) -> Seq<EventData>
    decreases order.len(),
{
    if order.len() == 0 {
        Seq::empty()
    } else {
        cleared_events(device_id, order.drop_last(), error, wall) + sent_error_events(
            device_id,
            order.last(),
            error,
            true,
            wall,
        )
    }
}

/// What a report leads to, and which errors are active behind it. A report of type 0 ends
/// all of them, in any order; a report of another type begins one that is not active yet.
pub open spec fn reconciled(
    device_id: Seq<char>,
    error: SentCanError,
    active: Set<u8>,
    wall: SystemTime,
    after: Set<u8>,
    events: Seq<EventData>,
) -> bool {
    if error.error_type == 0 {
        &&& after == Set::<u8>::empty()
        &&& exists|order: Seq<u8>|
            order.no_duplicates() && order.to_set() == active && events
                == #[trigger] cleared_events(device_id, order, error, wall)
    } else if active.contains(error.error_type) {
        after == active && events == Seq::<EventData>::empty()
    } else {
        &&& after == active.insert(error.error_type)
        &&& events == sent_error_events(device_id, error.error_type, error, false, wall)
    }
}

pub fn reconcile_sent_error(
    device_id: &str,
    error: SentCanError,
    active_errors: &mut HashSet<u8>,
    wall: SystemTime,
) -> (r: Vec<AppEvent>)
    ensures
        reconciled(
            device_id@,
            error,
            old(active_errors)@,
            wall,
            final(active_errors)@,
            bus::event_data(r@),
        ),
{
    let mut events: Vec<AppEvent> = Vec::new();
    proof {
        bus::lemma_no_events(events@);
    }
    if error.error_type == 0 {
        let ghost keys = vstd::std_specs::iter::IteratorSpec::remaining(
            &active_errors.iter(),
        ).unref();
        let ghost active = active_errors@;
        let mut order: Vec<u8> = Vec::new();
        for error_type in it: active_errors.iter()
            invariant
                it.seq().unref() == keys,
                order@ == keys.take(it.index() as int),
                bus::event_data(events@) == cleared_events(device_id@, order@, error, wall),
        {
            publish_sent_error(&mut events, device_id, *error_type, error, true, wall);
            let ghost before = order@;
            order.push(*error_type);
            proof {
                assert(*error_type == it.seq().unref()[it.index() as int]);
                assert(order@ =~= keys.take(it.index() + 1));
                assert(order@.drop_last() =~= before);
            }
        }
        active_errors.clear();
        proof {
            assert(order@ =~= keys);
            assert(order@.no_duplicates() && order@.to_set() == active);
        }
        return events;
    }
    let fresh: bool = active_errors.insert(error.error_type);
    if fresh {
        publish_sent_error(&mut events, device_id, error.error_type, error, false, wall);
        proof {
            assert(bus::event_data(events@) =~= sent_error_events(
                device_id@,
                error.error_type,
                error,
                false,
                wall,
            ));
        }
    } else {
        proof {
            assert(active_errors@ =~= old(active_errors)@);
        }
    }
    events
}

// ---- moving averages ----

/// The last values of each of the five sensors.
pub struct SentMovingAverage<V> {
    window_size: usize,
    windows: Vec<VecDeque<V>>,
}

/// The last `n` elements.
pub open spec fn last_of<V>(s: Seq<V>, n: nat) -> Seq<V> {
    if s.len() > n {
        s.skip(s.len() - n)
    } else {
        s
    }
}

/// The windows behind a value: the window of its sensor has taken it in and kept the last
/// values only.
pub open spec fn windows_after<V>(windows: Seq<Seq<V>>, size: nat, sensor_id: usize, value: V) -> Seq<
    Seq<V>,
> {
    if sensor_id < windows.len() {
        windows.update(sensor_id as int, last_of(windows[sensor_id as int].push(value), size))
    } else {
        windows
    }
}

/// The windows behind the first `k` of several values.
pub open spec fn windows_after_all<V>(
    windows: Seq<Seq<V>>,
    size: nat,
    values: Seq<(usize, V)>,
    k: int,
) -> Seq<Seq<V>>
    decreases k,
{
    if k <= 0 {
        windows
    } else {
        windows_after(
            windows_after_all(windows, size, values, k - 1),
            size,
            values[k - 1].0,
            values[k - 1].1,
        )
    }
}

/// Whether the sensor measures an angle, so that its values wrap around.
pub open spec fn measures_angle(sensor_id: usize) -> bool {
    sensor_id == 0 || sensor_id == 2 || sensor_id == 4
}

impl<V: Copy> SentMovingAverage<V> {
    /// The windows, by sensor.
    pub closed spec fn contents(&self) -> Seq<Seq<V>> {
        self.windows@.map_values(|w: VecDeque<V>| w@)
    }

    /// How many values a window holds at most.
    pub closed spec fn size(&self) -> nat {
        self.window_size as nat
    }

    /// Five windows, none longer than it may be.
    pub open spec fn wf(&self) -> bool {
        &&& self.size() >= 1
        &&& self.contents().len() == 5
        &&& forall|i: int|
            0 <= i < 5 ==> (#[trigger] self.contents()[i]).len() <= self.size()
    }

    pub fn new(window_size: usize) -> (r: Self)
        ensures
            r.wf(),
            r.size() == if window_size < 1 {
                1
            } else {
                window_size as nat
            },
            r.contents() == Seq::new(5, |i: int| Seq::<V>::empty()),
    {
        let window_size: usize = if window_size < 1 {
            1
        } else {
            window_size
        };
        let mut windows: Vec<VecDeque<V>> = Vec::new();
        let mut i: usize = 0;
        while i < 5
            invariant
                i <= 5,
                windows@.len() == i,
                forall|k: int| 0 <= k < i ==> (#[trigger] windows@[k])@ == Seq::<V>::empty(),
            decreases 5 - i,
        {
            windows.push(VecDeque::new());
            i = i + 1;
        }
        let r = SentMovingAverage { window_size, windows };
        proof {
            assert(r.contents() =~= Seq::new(5, |i: int| Seq::<V>::empty()));
        }
        r
    }

    /// Takes one value into the window of its sensor.
    fn push_value(&mut self, sensor_id: usize, value: V)
        requires
            old(self).wf(),
        ensures
            final(self).wf(),
            final(self).size() == old(self).size(),
            final(self).contents() == windows_after(
                old(self).contents(),
                old(self).size(),
                sensor_id,
                value,
            ),
    {
        if sensor_id >= self.windows.len() {
            return;
        }
        let ghost before = self.contents();
        let size: usize = self.window_size;
        let mut window: VecDeque<V> = VecDeque::new();
        std::mem::swap(&mut window, &mut self.windows[sensor_id]);
        let ghost start = window@;
        proof {
            assert(start == before[sensor_id as int]);
        }
        window.push_back(value);
        while window.len() > size
            invariant
                size >= 1,
                start.len() <= size,
                last_of(start.push(value), size as nat) == last_of(window@, size as nat),
            decreases window@.len(),
        {
            let _ = window.pop_front();
            proof {
                assert(last_of(start.push(value), size as nat) =~= last_of(window@, size as nat));
            }
        }
        self.windows.set(sensor_id, window);
        proof {
            assert(self.contents() =~= windows_after(before, size as nat, sensor_id, value));
        }
    }

    /// Takes in five values and gives their averages.
    pub fn apply<F: Fn(&VecDeque<V>, V, bool) -> V>(
        &mut self,
        values: [(usize, V); 5],
        mean: F,
    ) -> (r: [(usize, V); 5])
        requires
            old(self).wf(),
            forall|w: VecDeque<V>, v: V, angle: bool|
                w@.len() > 0 ==> #[trigger] call_requires(mean, (&w, v, angle)),
        ensures
            final(self).wf(),
            final(self).size() == old(self).size(),
            final(self).contents() == windows_after_all(
                old(self).contents(),
                old(self).size(),
                values@,
                5,
            ),
            forall|i: int|
                0 <= i < 5 ==> averaged(
                    old(self).contents(),
                    old(self).size(),
                    values@,
                    i,
                    mean,
                    #[trigger] r@[i],
                ),
    {
        let ghost start = self.contents();
        let ghost size = self.size();
        let mut out: [(usize, V); 5] = values;
        let mut i: usize = 0;
        while i < 5
            invariant
                i <= 5,
                self.wf(),
                self.size() == size,
                start == old(self).contents(),
                size == old(self).size(),
                self.contents() == windows_after_all(start, size, values@, i as int),
                out@.len() == 5,
                forall|w: VecDeque<V>, v: V, angle: bool|
                    w@.len() > 0 ==> #[trigger] call_requires(mean, (&w, v, angle)),
                forall|k: int|
                    0 <= k < i ==> averaged(start, size, values@, k, mean, #[trigger] out@[k]),
            decreases 5 - i,
        {
            let sensor_id: usize = values[i].0;
            let value: V = values[i].1;
            self.push_value(sensor_id, value);
            proof {
                assert(values@[i as int] == (sensor_id, value));
                assert(self.contents() == windows_after_all(start, size, values@, i + 1));
                assert(self.windows@.len() == 5) by {
                    assert(self.contents().len() == 5);
                }
            }
            if sensor_id < self.windows.len() {
                let angle: bool = sensor_id == 0 || sensor_id == 2 || sensor_id == 4;
                let window: &VecDeque<V> = &self.windows[sensor_id];
                proof {
                    assert(window@ == self.contents()[sensor_id as int]);
                }
                let average: V = mean(window, value, angle);
                proof {
                    assert(call_ensures(
                        mean,
                        (window, value, measures_angle(sensor_id)),
                        average,
                    ));
                }
                out[i] = (sensor_id, average);
                proof {
                    let w = *window;
                    assert(out@[i as int].1 == average);
                    assert(call_ensures(
                        mean,
                        (&w, values@[i as int].1, measures_angle(values@[i as int].0)),
                        out@[i as int].1,
                    ));
                }
            } else {
                out[i] = (sensor_id, value);
            }
            proof {
                assert(averaged(start, size, values@, i as int, mean, out@[i as int]));
            }
            i = i + 1;
        }
        out
    }
}

/// Whether an output is the average of value `i`: the sensor stays, and the value is what
/// the given mean makes of the window of the sensor, or stays where it has none.
pub open spec fn averaged<V, F: Fn(&VecDeque<V>, V, bool) -> V>(
    windows: Seq<Seq<V>>,
    size: nat,
    values: Seq<(usize, V)>,
    i: int,
    mean: F,
    output: (usize, V),
) -> bool {
    let sensor_id = values[i].0;
    let value = values[i].1;
    &&& output.0 == sensor_id
    &&& if sensor_id < 5 {
        exists|w: VecDeque<V>|
            w@ == windows_after_all(windows, size, values, i + 1)[sensor_id as int]
                && #[trigger] call_ensures(mean, (&w, value, measures_angle(sensor_id)), output.1)
    } else {
        output.1 == value
    }
}

// ---- the stream of frames ----

/// What comes in through a CAN channel.
pub struct CanIngress {
    device_id: String,
    filter_enabled: bool,
    filter: SentMovingAverage<Real>,
    active_errors: HashSet<u8>,
    frame_count: u64,
}

/// What is known of a CAN channel.
#[verifier::ext_equal]
pub ghost struct CanData {
    pub device_id: Seq<char>,
    pub filter_enabled: bool,
    pub active_errors: Set<u8>,
    /// How many frames have come in.
    pub frame_count: u64,
}

pub open spec fn verdict(passed: bool) -> Seq<char> {
    if passed {
        "通过"@
    } else {
        "失败"@
    }
}

/// What the answer to a self-test leads to.
pub open spec fn self_test_events(frame: CanFrame) -> Seq<EventData> {
    match self_test_of(frame) {
        Some((x, y, z)) => seq![
            EventData::System(
                "CAN 自检结果: X="@ + verdict(x) + " Y="@ + verdict(y) + " Z="@ + verdict(z),
            ),
        ],
        None => Seq::empty(),
    }
}

/// The sample of one sensor on the bus.
pub open spec fn can_sample(
    device_id: Seq<char>,
    sensor_id: usize,
    value: NumberData,
    source_kind: TelemetrySourceKind,
    elapsed_nanos: u128,
    frame_count: u64,
) -> EventData {
    EventData::TelemetrySample(
        SampleData {
            device_id,
            sensor_id,
            t_sec: SampleTime::Elapsed { nanos: elapsed_nanos, groups: 0 },
            value,
            req_id: frame_count,
            alarm_bit: false,
            source_kind,
        },
    )
}

/// The values of a SENT frame as they are passed on: averages where averages are taken, the
/// values themselves where not.
pub open spec fn sent_outputs(
    frame: CanFrame,
    averages: Option<Seq<(usize, Real)>>,
) -> Seq<(usize, NumberData)> {
    match sent_values_of(frame) {
        Some(values) => match averages {
            Some(averages) => averages.map_values(
                |output: (usize, Real)| (output.0, NumberData::Double(output.1)),
            ),
            None => values.map_values(
                |value: (usize, u32)| (value.0, NumberData::Single(value.1)),
            ),
        },
        None => Seq::empty(),
    }
}

/// The samples of a SENT frame.
pub open spec fn sent_samples(
    device_id: Seq<char>,
    outputs: Seq<(usize, NumberData)>,
    elapsed_nanos: u128,
    frame_count: u64,
) -> Seq<EventData> {
    outputs.map_values(
        |output: (usize, NumberData)|
            can_sample(
                device_id,
                output.0,
                output.1,
                TelemetrySourceKind::CanSent,
                elapsed_nanos,
                frame_count,
            ),
    )
}

/// The sample of an axis frame.
pub open spec fn axis_samples(
    device_id: Seq<char>,
    frame: CanFrame,
    elapsed_nanos: u128,
    frame_count: u64,
) -> Seq<EventData> {
    match axis_of(frame) {
        Some((sensor_id, value)) => seq![
            can_sample(
                device_id,
                sensor_id,
                NumberData::Integer(value as i64),
                TelemetrySourceKind::CanAxis,
                elapsed_nanos,
                frame_count,
            ),
        ],
        None => Seq::empty(),
    }
}

/// The first five frames and every hundredth are logged.
pub open spec fn is_logged(frame_count: u64) -> bool {
    frame_count <= 5 || frame_count % 100 == 0
}

pub open spec fn log_events(device_id: Seq<char>, frame: CanFrame, frame_count: u64) -> Seq<
    EventData,
> {
    let msg = device_id + " frame="@ + text::decimal(frame_count as nat) + " "@ + frame_text(frame);
    if is_logged(frame_count) {
        seq![EventData::System(msg), EventData::Log { device_id, level: "info"@, msg }]
    } else {
        Seq::empty()
    }
}

/// Whether these errors are active behind a frame, and these events come of its report.
pub open spec fn errors_after(
    d: CanData,
    frame: CanFrame,
    wall: SystemTime,
    after: Set<u8>,
    events: Seq<EventData>,
) -> bool {
    match sent_error_of(frame) {
        Some(error) => reconciled(d.device_id, error, d.active_errors, wall, after, events),
        None => after == d.active_errors && events == Seq::<EventData>::empty(),
    }
}

/// Whether these are the averages of a SENT frame, by `mean`, of its values, made
/// double-precision by `widen`, and these the windows behind them. None are taken where
/// averages are off or the frame carries no values.
pub open spec fn averages_of<W: Fn(u32) -> Real, F: Fn(&VecDeque<Real>, Real, bool) -> Real>(
    enabled: bool,
    frame: CanFrame,
    widen: W,
    mean: F,
    before: SentMovingAverage<Real>,
    after: SentMovingAverage<Real>,
    averages: Option<Seq<(usize, Real)>>,
) -> bool {
    match sent_values_of(frame) {
        Some(values) => if enabled {
            &&& averages is Some
            &&& averages->0.len() == 5
            &&& after.size() == before.size()
            &&& exists|wide: Seq<(usize, Real)>|
                {
                    &&& wide.len() == 5
                    &&& forall|i: int|
                        0 <= i < 5 ==> (#[trigger] wide[i]).0 == values[i].0 && call_ensures(
                            widen,
                            (values[i].1,),
                            wide[i].1,
                        )
                    &&& after.contents() == #[trigger] windows_after_all(
                        before.contents(),
                        before.size(),
                        wide,
                        5,
                    )
                    &&& forall|i: int|
                        0 <= i < 5 ==> averaged(
                            before.contents(),
                            before.size(),
                            wide,
                            i,
                            mean,
                            #[trigger] averages->0[i],
                        )
                }
        } else {
            averages is None && after == before
        },
        None => averages is None && after == before,
    }
}

/// The values of an array, where there is one.
pub open spec fn array_data(averages: Option<[(usize, Real); 5]>) -> Option<Seq<(usize, Real)>> {
    match averages {
        Some(averages) => Some(averages@),
        None => None,
    }
}

/// Whether this is the channel behind a frame with these averages, and these are the events:
/// what a self-test found, error reports, values or their averages, axis samples, and the log.
pub open spec fn frame_taken(
    d: CanData,
    frame: CanFrame,
    averages: Option<Seq<(usize, Real)>>,
    elapsed_nanos: u128,
    wall: SystemTime,
    after: CanData,
    events: Seq<EventData>,
) -> bool {
    let count = serial::saturating_next(d.frame_count);
    &&& after == (CanData { frame_count: count, active_errors: after.active_errors, ..d })
    &&& exists|errors: Seq<EventData>|
        {
            &&& #[trigger] errors_after(d, frame, wall, after.active_errors, errors)
            &&& events == self_test_events(frame) + errors + sent_samples(
                d.device_id,
                sent_outputs(frame, averages),
                elapsed_nanos,
                count,
            ) + axis_samples(d.device_id, frame, elapsed_nanos, count) + log_events(
                d.device_id,
                frame,
                count,
            )
        }
}

impl View for CanIngress {
    type V = CanData;

    closed spec fn view(&self) -> CanData {
        CanData {
            device_id: self.device_id@,
            filter_enabled: self.filter_enabled,
            active_errors: self.active_errors@,
            frame_count: self.frame_count,
        }
    }
}

impl CanIngress {
    /// The windows behind the averages.
    pub closed spec fn windows(&self) -> SentMovingAverage<Real> {
        self.filter
    }

    pub open spec fn wf(&self) -> bool {
        self.windows().wf()
    }

    /// A channel that was just opened.
    pub fn new(config: &CanTransportConfig, filter: SentFilterConfig) -> (r: Self)
        ensures
            r.wf(),
            r@ == (CanData {
                device_id: can_device_id(config@),
                filter_enabled: filter.enabled,
                active_errors: Set::empty(),
                frame_count: 0,
            }),
            r.windows().size() == if filter.window_size < 1 {
                1
            } else {
                filter.window_size as nat
            },
            r.windows().contents() == Seq::new(5, |i: int| Seq::<Real>::empty()),
    {
        let mut device_id = text::owned("can://");
        text::push_text(&mut device_id, config.hardware_name.as_str());
        text::push_text(&mut device_id, ":ch");
        text::push_decimal(&mut device_id, config.channel_index as u64);
        CanIngress {
            device_id,
            filter_enabled: filter.enabled,
            filter: SentMovingAverage::new(filter.window_size),
            active_errors: HashSet::new(),
            frame_count: 0,
        }
    }

    pub fn device_id(&self) -> (r: &str)
        ensures
            r@ == self@.device_id,
    {
        self.device_id.as_str()
    }

    /// Takes the values of a SENT frame into the windows and gives their averages, by the
    /// given mean; `widen` makes single-precision numbers double-precision. Nothing where
    /// averages are off or the frame carries no values.
    pub fn average<W: Fn(u32) -> Real, F: Fn(&VecDeque<Real>, Real, bool) -> Real>(
        &mut self,
        frame: &CanFrame,
        widen: W,
        mean: F,
    ) -> (r: Option<[(usize, Real); 5]>)
        requires
            old(self).wf(),
            forall|bits: u32| #[trigger] call_requires(widen, (bits,)),
            forall|w: VecDeque<Real>, v: Real, angle: bool|
                w@.len() > 0 ==> #[trigger] call_requires(mean, (&w, v, angle)),
        ensures
            final(self).wf(),
            final(self)@ == old(self)@,
            averages_of(
                old(self)@.filter_enabled,
                *frame,
                widen,
                mean,
                old(self).windows(),
                final(self).windows(),
                array_data(r),
            ),
    {
        if !self.filter_enabled {
            return None;
        }
        match decode_sent_values(frame) {
            Some(values) => {
                let wide: [(usize, Real); 5] = [
                    (values[0].0, widen(values[0].1)),
                    (values[1].0, widen(values[1].1)),
                    (values[2].0, widen(values[2].1)),
                    (values[3].0, widen(values[3].1)),
                    (values[4].0, widen(values[4].1)),
                ];
                let averages = self.filter.apply(wide, mean);
                proof {
                    assert(self.windows().contents() == windows_after_all(
                        old(self).windows().contents(),
                        old(self).windows().size(),
                        wide@,
                        5,
                    ));
                }
                Some(averages)
            },
            None => None,
        }
    }

    /// Deals with a frame that came in: its values are averaged, where averages are taken, and
    /// what it says is passed on.
    pub fn take_frame<W: Fn(u32) -> Real, F: Fn(&VecDeque<Real>, Real, bool) -> Real>(
        &mut self,
        frame: &CanFrame,
        widen: W,
        mean: F,
        elapsed_nanos: u128,
        wall: SystemTime,
    ) -> (r: Vec<AppEvent>)
        requires
            old(self).wf(),
            forall|bits: u32| #[trigger] call_requires(widen, (bits,)),
            forall|w: VecDeque<Real>, v: Real, angle: bool|
                w@.len() > 0 ==> #[trigger] call_requires(mean, (&w, v, angle)),
        ensures
            final(self).wf(),
            exists|averages: Option<Seq<(usize, Real)>>|
                {
                    &&& #[trigger] averages_of(
                        old(self)@.filter_enabled,
                        *frame,
                        widen,
                        mean,
                        old(self).windows(),
                        final(self).windows(),
                        averages,
                    )
                    &&& frame_taken(
                        old(self)@,
                        *frame,
                        averages,
                        elapsed_nanos,
                        wall,
                        final(self)@,
                        bus::event_data(r@),
                    )
                },
    {
        let averages = self.average(frame, widen, mean);
        let events = self.receive(frame, averages, elapsed_nanos, wall);
        proof {
            assert(averages_of(
                old(self)@.filter_enabled,
                *frame,
                widen,
                mean,
                old(self).windows(),
                self.windows(),
                array_data(averages),
            ));
        }
        events
    }

    /// Passes on what a frame says, with the averages of its values where averages are taken.
    pub fn receive(
        &mut self,
        frame: &CanFrame,
        averages: Option<[(usize, Real); 5]>,
        elapsed_nanos: u128,
        wall: SystemTime,
    ) -> (r: Vec<AppEvent>)
        requires
            old(self).wf(),
        ensures
            final(self).wf(),
            final(self).windows() == old(self).windows(),
            frame_taken(
                old(self)@,
                *frame,
                array_data(averages),
                elapsed_nanos,
                wall,
                final(self)@,
                bus::event_data(r@),
            ),
    {
        let ghost d = self@;
        self.frame_count = self.frame_count.saturating_add(1);
        let mut events: Vec<AppEvent> = Vec::new();
        proof {
            bus::lemma_no_events(events@);
        }
        if let Some((x_ok, y_ok, z_ok)) = decode_self_test_response(frame) {
            let mut msg = text::owned("CAN 自检结果: X=");
            text::push_text(&mut msg, verdict_word(x_ok));
            text::push_text(&mut msg, " Y=");
            text::push_text(&mut msg, verdict_word(y_ok));
            text::push_text(&mut msg, " Z=");
            text::push_text(&mut msg, verdict_word(z_ok));
            publish_status(&mut events, msg);
        }
        let ghost part_1 = bus::event_data(events@);
        proof {
            assert(part_1 =~= self_test_events(*frame));
        }
        let mut error_events: Vec<AppEvent> = Vec::new();
        proof {
            bus::lemma_no_events(error_events@);
        }
        if let Some(error) = decode_sent_error(frame) {
            error_events =
            reconcile_sent_error(self.device_id.as_str(), error, &mut self.active_errors, wall);
        }
        let ghost errors = bus::event_data(error_events@);
        proof {
            assert(errors_after(d, *frame, wall, self@.active_errors, errors));
        }
        events.append(&mut error_events);
        proof {
            assert(bus::event_data(events@) =~= part_1 + errors);
        }
        self.push_sent_samples(&mut events, frame, averages, elapsed_nanos);
        if let Some((sensor_id, value)) = decode_axis_sample(frame) {
            publish_telemetry_sample(
                &mut events,
                self.device_id.as_str(),
                sensor_id,
                SampleTime::Elapsed { nanos: elapsed_nanos, groups: 0 },
                Number::Integer(value as i64),
                self.frame_count,
                false,
                TelemetrySourceKind::CanAxis,
            );
        }
        let ghost given = array_data(averages);
        let ghost count = self.frame_count;
        let ghost part_4 = part_1 + errors + sent_samples(
            d.device_id,
            sent_outputs(*frame, given),
            elapsed_nanos,
            count,
        ) + axis_samples(d.device_id, *frame, elapsed_nanos, count);
        proof {
            assert(bus::event_data(events@) =~= part_4);
        }
        if self.frame_count <= 5 || self.frame_count % 100 == 0 {
            let mut msg = text::owned(self.device_id.as_str());
            text::push_text(&mut msg, " frame=");
            text::push_decimal(&mut msg, self.frame_count);
            text::push_text(&mut msg, " ");
            text::push_text(&mut msg, format_can_frame(frame).as_str());
            publish_status(&mut events, text::owned(msg.as_str()));
            let event = AppEvent::Device(
                DeviceEvent::Log {
                    device_id: text::owned(self.device_id.as_str()),
                    level: "info",
                    msg,
                },
            );
            proof {
                bus::lemma_event_push(events@, event);
            }
            events.push(event);
        }
        proof {
            assert(bus::event_data(events@) =~= part_4 + log_events(d.device_id, *frame, count));
        }
        events
    }

    fn push_sent_samples(
        &self,
        events: &mut Vec<AppEvent>,
        frame: &CanFrame,
        averages: Option<[(usize, Real); 5]>,
        elapsed_nanos: u128,
    )
        ensures
            bus::event_data(final(events)@) == bus::event_data(old(events)@) + sent_samples(
                self@.device_id,
                sent_outputs(*frame, array_data(averages)),
                elapsed_nanos,
                self@.frame_count,
            ),
    {
        let ghost before = bus::event_data(events@);
        let ghost given = array_data(averages);
        let ghost outputs = sent_outputs(*frame, given);
        let ghost all = sent_samples(self@.device_id, outputs, elapsed_nanos, self@.frame_count);
        match decode_sent_values(frame) {
            Some(values) => {
                let mut i: usize = 0;
                proof {
                    assert(outputs.len() == 5);
                    assert(before + all.take(0) =~= before);
                }
                while i < 5
                    invariant
                        i <= 5,
                        outputs == sent_outputs(*frame, given),
                        given == array_data(averages),
                        sent_values_of(*frame) == Some(values@),
                        outputs.len() == 5,
                        all == sent_samples(
                            self@.device_id,
                            outputs,
                            elapsed_nanos,
                            self@.frame_count,
                        ),
                        bus::event_data(events@) == before + all.take(i as int),
                    decreases 5 - i,
                {
                    let (sensor_id, value): (usize, Number) = match averages {
                        Some(averages) => (averages[i].0, Number::Double(averages[i].1)),
                        None => (values[i].0, Number::Single(values[i].1)),
                    };
                    proof {
                        assert(outputs[i as int] == (sensor_id, value@));
                    }
                    publish_telemetry_sample(
                        events,
                        self.device_id.as_str(),
                        sensor_id,
                        SampleTime::Elapsed { nanos: elapsed_nanos, groups: 0 },
                        value,
                        self.frame_count,
                        false,
                        TelemetrySourceKind::CanSent,
                    );
                    proof {
                        assert(before + all.take(i + 1) =~= (before + all.take(i as int)).push(
                            all[i as int],
                        ));
                    }
                    i = i + 1;
                }
                proof {
                    assert(all.take(5) =~= all);
                }
            },
            None => {
                proof {
                    assert(before + all =~= before);
                }
            },
        }
    }
}

fn verdict_word(passed: bool) -> (r: &'static str)
    ensures
        r@ == verdict(passed),
{
    if passed {
        "通过"
    } else {
        "失败"
    }
}

/// An error that is reported again while it is active leads to nothing, and a report of type
/// 0 leaves no error active: behind it the same error begins anew.
pub proof fn law_errors_begin_and_end(
    device_id: Seq<char>,
    error: SentCanError,
    active: Set<u8>,
    wall: SystemTime,
    after: Set<u8>,
    events: Seq<EventData>,
    again: Set<u8>,
    more: Seq<EventData>,
)
    requires
        error.error_type != 0,
        reconciled(device_id, error, active, wall, after, events),
        reconciled(device_id, error, after, wall, again, more),
    ensures
        after.contains(error.error_type),
        again == after,
        more == Seq::<EventData>::empty(),
        reconciled(
            device_id,
            error,
            Set::empty(),
            wall,
            Set::<u8>::empty().insert(error.error_type),
            sent_error_events(device_id, error.error_type, error, false, wall),
        ),
{
}

// ---- what holds of all frames ----

/// Four bytes of a run, spelled out as numbers.
proof fn lemma_four_bytes(data: Seq<u8>, at: int)
    requires
        0 <= at,
        at + 4 <= data.len(),
    ensures
        bytes_value::le_value(data.subrange(at, at + 4)) == data[at] + 0x100 * data[at + 1]
            + 0x1_0000 * data[at + 2] + 0x100_0000 * data[at + 3],
        bytes_value::be_value(data.subrange(at, at + 4)) == 0x100_0000 * data[at] + 0x1_0000
            * data[at + 1] + 0x100 * data[at + 2] + data[at + 3],
{
    let s = data.subrange(at, at + 4);
    reveal_with_fuel(bytes_value::le_value, 5);
    reveal_with_fuel(bytes_value::be_value, 5);
    assert(s.skip(1).skip(1).skip(1).skip(1) =~= Seq::<u8>::empty());
    assert(s.drop_last().drop_last().drop_last().drop_last() =~= Seq::<u8>::empty());
    assert(s.skip(1)[0] == data[at + 1]);
    assert(s.skip(1).skip(1)[0] == data[at + 2]);
    assert(s.skip(1).skip(1).skip(1)[0] == data[at + 3]);
}

/// A received frame that is no error report and is long enough carries five values, one for
/// each sensor from 0 to 4: the angle of T1 stands at byte 25, its torque at 29, the angle of
/// T2 at 1, its torque at 5, the angle of S at 49, each as four bytes, the lowest first. No
/// other frame carries values.
pub proof fn law_sent_values_stand_at_their_places(frame: CanFrame)
    ensures
        sent_values_of(frame) is Some <==> frame.properties % 2 == 0 && frame.identifier != 3
            && frame.dlc >= 15,
        sent_values_of(frame) matches Some(values) ==> {
            let d = frame.data@;
            &&& values.len() == 5
            &&& forall|i: int| 0 <= i < 5 ==> (#[trigger] values[i]).0 == i
            &&& values[0].1 == d[25] + 0x100 * d[26] + 0x1_0000 * d[27] + 0x100_0000 * d[28]
            &&& values[1].1 == d[29] + 0x100 * d[30] + 0x1_0000 * d[31] + 0x100_0000 * d[32]
            &&& values[2].1 == d[1] + 0x100 * d[2] + 0x1_0000 * d[3] + 0x100_0000 * d[4]
            &&& values[3].1 == d[5] + 0x100 * d[6] + 0x1_0000 * d[7] + 0x100_0000 * d[8]
            &&& values[4].1 == d[49] + 0x100 * d[50] + 0x1_0000 * d[51] + 0x100_0000 * d[52]
        },
{
    let data = frame.payload();
    if frame.dlc >= 15 {
        lemma_four_bytes(data, 25);
        lemma_four_bytes(data, 29);
        lemma_four_bytes(data, 1);
        lemma_four_bytes(data, 5);
        lemma_four_bytes(data, 49);
    }
}

/// A received frame with the identifier 3 and at least four bytes is an error report: its first
/// byte is the type of the error, and the three bytes behind it tell whether T1, T2 and S are
/// concerned. No other frame is one, and an error report carries no values.
pub proof fn law_error_report_layout(frame: CanFrame)
    ensures
        sent_error_of(frame) is Some <==> frame.properties % 2 == 0 && frame.identifier == 3
            && frame.dlc >= 4,
        sent_error_of(frame) matches Some(error) ==> {
            &&& error.error_type == frame.data@[0]
            &&& error.t1_error <==> frame.data@[1] != 0
            &&& error.t2_error <==> frame.data@[2] != 0
            &&& error.s_error <==> frame.data@[3] != 0
        },
        sent_error_of(frame) is Some ==> sent_values_of(frame) is None,
{
}

/// A frame with the identifier 0x100, 0x102 or 0x104 and at least four bytes carries a value of
/// the axis 0, 1 or 2: its first four bytes, the highest first, in two's complement. No other
/// frame carries one.
pub proof fn law_axis_layout(frame: CanFrame)
    ensures
        axis_of(frame) is Some <==> frame.dlc >= 4 && (frame.identifier == 0x100
            || frame.identifier == 0x102 || frame.identifier == 0x104),
        axis_of(frame) matches Some((sensor_id, value)) ==> {
            let d = frame.data@;
            let spelled = 0x100_0000 * d[0] + 0x1_0000 * d[1] + 0x100 * d[2] + d[3];
            &&& frame.identifier == 0x100 + 2 * sensor_id
            &&& sensor_id <= 2
            &&& spelled == if value < 0 {
                value + 0x1_0000_0000
            } else {
                value as int
            }
        },
{
    let data = frame.payload();
    if frame.dlc >= 4 {
        lemma_four_bytes(data, 0);
        assert(data.take(4) =~= data.subrange(0, 4));
    }
}

/// A received frame with the identifier 0x123 and at least three bytes answers a self-test: an
/// axis has passed where its byte is 1. Each answer leads to one message that names X, Y and Z
/// with what was found.
pub proof fn law_self_test_layout(frame: CanFrame)
    ensures
        self_test_of(frame) is Some <==> frame.properties % 2 == 0 && frame.identifier == 0x123
            && frame.dlc >= 3,
        self_test_of(frame) matches Some((x, y, z)) ==> {
            &&& x <==> frame.data@[0] == 1
            &&& y <==> frame.data@[1] == 1
            &&& z <==> frame.data@[2] == 1
            &&& self_test_events(frame).len() == 1
            &&& self_test_events(frame)[0] matches EventData::System(msg) && msg
                == "CAN 自检结果: X="@ + (if frame.data@[0] == 1 {
                "通过"@
            } else {
                "失败"@
            }) + " Y="@ + (if frame.data@[1] == 1 {
                "通过"@
            } else {
                "失败"@
            }) + " Z="@ + (if frame.data@[2] == 1 {
                "通过"@
            } else {
                "失败"@
            })
        },
        self_test_of(frame) is None ==> self_test_events(frame).len() == 0,
{
}

/// A frame on the bus is named as one that was sent or received by its own words, and every
/// data byte that counts stands in it with two hexadecimal digits.
pub proof fn law_frame_text(frame: CanFrame)
    ensures
        text::begins_with(
            frame_text(frame),
            if frame.properties % 2 == 1 {
                "TX ch="@
            } else {
                "RX ch="@
            },
        ),
        hex_bytes(frame.payload()).len() == frame.payload().len(),
{
    reveal_strlit("TX");
    reveal_strlit("RX");
    reveal_strlit(" ch=");
    reveal_strlit("TX ch=");
    reveal_strlit("RX ch=");
    let t = frame_text(frame);
    let want = if frame.properties % 2 == 1 {
        "TX ch="@
    } else {
        "RX ch="@
    };
    assert(t.len() >= 6);
    assert(t.take(6) =~= want);
}

/// An error that begins raises a warning, and one that ends clears it: an alarm of the device
/// under the name of the error's type, followed by a message with the same words. The words
/// give the type, the sensors concerned, and whether the error is active.
pub proof fn law_error_alarm(
    device_id: Seq<char>,
    error_type: u8,
    error: SentCanError,
    cleared: bool,
    wall: SystemTime,
)
    ensures
        ({
            let events = sent_error_events(device_id, error_type, error, cleared, wall);
            let message = "SENT error type="@ + text::decimal(error_type as nat) + " t1="@ + (
            if error.t1_error {
                "1"@
            } else {
                "0"@
            }) + " t2="@ + (if error.t2_error {
                "1"@
            } else {
                "0"@
            }) + " s="@ + (if error.s_error {
                "1"@
            } else {
                "0"@
            }) + " "@ + (if cleared {
                "cleared"@
            } else {
                "active"@
            });
            let alarm = match events[0] {
                EventData::AlarmRaised(alarm) => alarm,
                EventData::AlarmCleared(alarm) => alarm,
                _ => arbitrary(),
            };
            &&& events.len() == 2
            &&& events[0] is AlarmCleared <==> cleared
            &&& events[0] is AlarmRaised <==> !cleared
            &&& alarm.device_id == device_id
            &&& alarm.alarm_id == "sent_error_"@ + text::decimal(error_type as nat)
            &&& alarm.level == AlarmLevel::Warning
            &&& alarm.cleared == cleared
            &&& alarm.raised_at == wall
            &&& alarm.message == message
            &&& events[1] == EventData::System(alarm.message)
        }),
{
}

/// A report of a type other than zero makes that error active, raises its alarm where it was
/// not active, and says nothing where it was. All other errors stay as they were.
pub proof fn law_report_begins_one_error(
    device_id: Seq<char>,
    error: SentCanError,
    active: Set<u8>,
    wall: SystemTime,
    after: Set<u8>,
    events: Seq<EventData>,
)
    requires
        error.error_type != 0,
        reconciled(device_id, error, active, wall, after, events),
    ensures
        forall|t: u8| #[trigger]
            after.contains(t) <==> active.contains(t) || t == error.error_type,
        active.contains(error.error_type) ==> events.len() == 0,
        !active.contains(error.error_type) ==> {
            &&& events.len() == 2
            &&& events[0] matches EventData::AlarmRaised(alarm) && alarm.device_id == device_id
                && alarm.alarm_id == "sent_error_"@ + text::decimal(error.error_type as nat)
        },
{
}

/// The events of errors that end: for each of them one alarm that is cleared, and a message.
proof fn lemma_cleared_events(
    device_id: Seq<char>,
    order: Seq<u8>,
    error: SentCanError,
    wall: SystemTime,
)
    ensures
        cleared_events(device_id, order, error, wall).len() == 2 * order.len(),
        forall|i: int|
            0 <= i < order.len() ==> (#[trigger] cleared_events(device_id, order, error, wall)[2
                * i] matches EventData::AlarmCleared(alarm) && alarm.device_id == device_id
                && alarm.cleared && alarm.alarm_id == "sent_error_"@ + text::decimal(
                order[i] as nat,
            )),
    decreases order.len(),
{
    if order.len() > 0 {
        let front = order.drop_last();
        lemma_cleared_events(device_id, front, error, wall);
        let before = cleared_events(device_id, front, error, wall);
        let all = cleared_events(device_id, order, error, wall);
        assert forall|i: int| 0 <= i < order.len() implies (#[trigger] all[2
            * i] matches EventData::AlarmCleared(alarm) && alarm.device_id == device_id
            && alarm.cleared && alarm.alarm_id == "sent_error_"@ + text::decimal(
            order[i] as nat,
        )) by {
            if i < front.len() {
                assert(all[2 * i] == before[2 * i]);
                assert(front[i] == order[i]);
            }
        }
    }
}

/// A report of type zero leaves no error active, and clears the alarm of every error that was:
/// two events for each, in some order.
pub proof fn law_zero_report_ends_all_errors(
    device_id: Seq<char>,
    error: SentCanError,
    active: Set<u8>,
    wall: SystemTime,
    after: Set<u8>,
    events: Seq<EventData>,
    t: u8,
)
    requires
        error.error_type == 0,
        reconciled(device_id, error, active, wall, after, events),
    ensures
        !after.contains(t),
        active.contains(t) ==> exists|i: int|
            {
                &&& 0 <= i < events.len()
                &&& #[trigger] events[i] matches EventData::AlarmCleared(alarm)
                    && alarm.device_id == device_id && alarm.cleared && alarm.alarm_id
                    == "sent_error_"@ + text::decimal(t as nat)
            },
        active == Set::<u8>::empty() ==> events.len() == 0,
{
    let order = choose|order: Seq<u8>|
        order.no_duplicates() && order.to_set() == active && events == #[trigger] cleared_events(
            device_id,
            order,
            error,
            wall,
        );
    lemma_cleared_events(device_id, order, error, wall);
    if active.contains(t) {
        assert(order.to_set().contains(t));
        let i = choose|i: int| 0 <= i < order.len() && order[i] == t;
        assert(events[2 * i] is AlarmCleared);
    }
    if active == Set::<u8>::empty() && order.len() > 0 {
        assert(order.to_set().contains(order[0]));
    }
}

/// A value goes into the window of its own sensor, at the end; the window grows by one up to
/// its size, and what it holds are the last values in their order. The other windows stay.
pub proof fn law_window_holds_the_last_values<V>(
    windows: Seq<Seq<V>>,
    size: nat,
    sensor_id: usize,
    value: V,
)
    requires
        size >= 1,
        sensor_id < windows.len(),
        windows[sensor_id as int].len() <= size,
    ensures
        ({
            let after = windows_after(windows, size, sensor_id, value);
            let old_window = windows[sensor_id as int];
            let window = after[sensor_id as int];
            &&& after.len() == windows.len()
            &&& window.last() == value
            &&& window.len() == if old_window.len() < size {
                old_window.len() + 1
            } else {
                size
            }
            &&& forall|k: int|
                0 <= k < window.len() - 1 ==> #[trigger] window[k] == old_window[k + old_window.len()
                    - (window.len() - 1)]
            &&& forall|i: int|
                0 <= i < windows.len() && i != sensor_id ==> #[trigger] after[i] == windows[i]
        }),
{
}

proof fn lemma_windows_after_all<V>(
    windows: Seq<Seq<V>>,
    size: nat,
    values: Seq<(usize, V)>,
    k: int,
)
    requires
        windows.len() == 5,
        values.len() == 5,
        forall|i: int| 0 <= i < 5 ==> (#[trigger] values[i]).0 == i,
        0 <= k <= 5,
    ensures
        windows_after_all(windows, size, values, k).len() == 5,
        forall|i: int|
            0 <= i < k ==> #[trigger] windows_after_all(windows, size, values, k)[i] == last_of(
                windows[i].push(values[i].1),
                size,
            ),
        forall|i: int|
            k <= i < 5 ==> #[trigger] windows_after_all(windows, size, values, k)[i] == windows[i],
    decreases k,
{
    if k > 0 {
        lemma_windows_after_all(windows, size, values, k - 1);
        assert(values[k - 1].0 == k - 1);
    }
}

/// Of five values, one for each sensor, each is averaged over the window of its own sensor,
/// which ends with the value itself and holds no more than the last values; the sensors 0, 2
/// and 4 are averaged as angles, the others are not.
pub proof fn law_averages_are_of_the_own_window<F: Fn(&VecDeque<Real>, Real, bool) -> Real>(
    windows: Seq<Seq<Real>>,
    size: nat,
    values: Seq<(usize, Real)>,
    i: int,
    mean: F,
    angle: bool,
    output: (usize, Real),
)
    requires
        windows.len() == 5,
        values.len() == 5,
        forall|j: int| 0 <= j < 5 ==> (#[trigger] values[j]).0 == j,
        0 <= i < 5,
        angle == (i == 0 || i == 2 || i == 4),
        size >= 1,
        windows[i].len() <= size,
        averaged(windows, size, values, i, mean, output),
    ensures
        output.0 == i,
        exists|w: VecDeque<Real>|
            {
                &&& w@.len() == if windows[i].len() < size {
                    windows[i].len() + 1
                } else {
                    size
                }
                &&& w@.last() == values[i].1
                &&& forall|k: int|
                    0 <= k < w@.len() - 1 ==> w@[k] == windows[i][k + windows[i].len() - (w@.len()
                        - 1)]
                &&& #[trigger] call_ensures(mean, (&w, values[i].1, angle), output.1)
            },
{
    lemma_windows_after_all(windows, size, values, i + 1);
    assert(values[i].0 == i);
    let w = choose|w: VecDeque<Real>|
        w@ == windows_after_all(windows, size, values, i + 1)[values[i].0 as int]
            && #[trigger] call_ensures(
            mean,
            (&w, values[i].1, measures_angle(values[i].0)),
            output.1,
        );
    assert(measures_angle(values[i].0) == angle);
    assert(w@ == last_of(windows[i].push(values[i].1), size));
}

/// What a received frame gives is passed on as samples of the device, under the running number
/// of the frame and without an alarm bit: the averages of its five values where there are any,
/// the values themselves where not, and the value of its axis.
pub proof fn law_samples_of_a_frame(
    d: CanData,
    frame: CanFrame,
    averages: Option<Seq<(usize, Real)>>,
    elapsed_nanos: u128,
    count: u64,
)
    requires
        averages matches Some(averages) ==> averages.len() == 5,
    ensures
        ({
            let samples = sent_samples(
                d.device_id,
                sent_outputs(frame, averages),
                elapsed_nanos,
                count,
            );
            &&& samples.len() == if sent_values_of(frame) is Some {
                5int
            } else {
                0
            }
            &&& forall|i: int|
                0 <= i < samples.len() ==> {
                    &&& #[trigger] samples[i] matches EventData::TelemetrySample(sample)
                        && sample.device_id == d.device_id && sample.req_id == count
                        && !sample.alarm_bit && sample.source_kind == TelemetrySourceKind::CanSent
                        && sample.t_sec == (SampleTime::Elapsed { nanos: elapsed_nanos, groups: 0 })
                        && match averages {
                        Some(averages) => sample.sensor_id == averages[i].0 && sample.value
                            == NumberData::Double(averages[i].1),
                        None => sample.sensor_id == i && sample.value == NumberData::Single(
                            (sent_values_of(frame)->0)[i].1,
                        ),
                    }
                }
        }),
        ({
            let samples = axis_samples(d.device_id, frame, elapsed_nanos, count);
            match axis_of(frame) {
                Some((sensor_id, value)) => {
                    &&& samples.len() == 1
                    &&& samples[0] matches EventData::TelemetrySample(sample) && sample.device_id
                        == d.device_id && sample.req_id == count && !sample.alarm_bit
                        && sample.source_kind == TelemetrySourceKind::CanAxis && sample.sensor_id
                        == sensor_id && sample.value == NumberData::Integer(value as i64)
                        && sample.t_sec == (SampleTime::Elapsed { nanos: elapsed_nanos, groups: 0 })
                },
                None => samples.len() == 0,
            }
        }),
{
}

/// Whatever a frame is, it is counted, and its error report, its values and its axis lead to
/// what they lead to alone. A frame that this side has sent gives no error and no values.
pub proof fn law_frame_is_passed_on(
    d: CanData,
    frame: CanFrame,
    averages: Option<Seq<(usize, Real)>>,
    elapsed_nanos: u128,
    wall: SystemTime,
    after: CanData,
    events: Seq<EventData>,
)
    requires
        frame_taken(d, frame, averages, elapsed_nanos, wall, after, events),
    ensures
        after.device_id == d.device_id,
        after.filter_enabled == d.filter_enabled,
        after.frame_count == if d.frame_count < u64::MAX {
            d.frame_count + 1
        } else {
            u64::MAX as int
        },
        frame.identifier != 3 || frame.properties % 2 == 1 || frame.dlc < 4 ==> after.active_errors
            == d.active_errors,
        ({
            let values = sent_samples(
                d.device_id,
                sent_outputs(frame, averages),
                elapsed_nanos,
                after.frame_count,
            );
            let axis = axis_samples(d.device_id, frame, elapsed_nanos, after.frame_count);
            &&& forall|i: int|
                0 <= i < values.len() ==> events.contains(#[trigger] values[i])
            &&& forall|i: int| 0 <= i < axis.len() ==> events.contains(#[trigger] axis[i])
        }),
        after.frame_count <= 5 || after.frame_count % 100 == 0 ==> events.len() >= 2 && (
        events.last() matches EventData::Log { device_id, level, msg } && device_id == d.device_id
            && level == "info"@ && events[events.len() - 2] == EventData::System(msg)),
{
    let count = after.frame_count;
    let errors = choose|errors: Seq<EventData>|
        {
            &&& #[trigger] errors_after(d, frame, wall, after.active_errors, errors)
            &&& events == self_test_events(frame) + errors + sent_samples(
                d.device_id,
                sent_outputs(frame, averages),
                elapsed_nanos,
                count,
            ) + axis_samples(d.device_id, frame, elapsed_nanos, count) + log_events(
                d.device_id,
                frame,
                count,
            )
        };
    let head = self_test_events(frame) + errors;
    let values = sent_samples(d.device_id, sent_outputs(frame, averages), elapsed_nanos, count);
    let axis = axis_samples(d.device_id, frame, elapsed_nanos, count);
    let logged = log_events(d.device_id, frame, count);
    assert(events =~= head + values + axis + logged);
    assert forall|i: int| 0 <= i < values.len() implies events.contains(#[trigger] values[i]) by {
        assert(events[head.len() + i] == values[i]);
    }
    assert forall|i: int| 0 <= i < axis.len() implies events.contains(#[trigger] axis[i]) by {
        assert(events[head.len() + values.len() + i] == axis[i]);
    }
}

/// The search tries the name that was asked for first, on the channel that was asked for, and
/// tries the usual hardware too. Every candidate stands on a channel that is counted in, and
/// takes everything else from what was asked for.
pub proof fn law_candidates(config: CanConfigData, i: int)
    requires
        0 <= i < candidates(config).len(),
    ensures
        ({
            let c = candidates(config)[i];
            &&& c.channel_count == c.channel_index + 1
            &&& c.hardware_name == text::trimmed(config.hardware_name) || c.hardware_name
                == "TC1012"@
            &&& c.tsmaster_bin == config.tsmaster_bin
            &&& c.autostart_tsmaster == config.autostart_tsmaster
            &&& c.arbitration_baud_kbps == config.arbitration_baud_kbps
            &&& c.data_baud_kbps == config.data_baud_kbps
            &&& c.receive_timeout == config.receive_timeout
        }),
        candidates(config)[0].channel_index == config.channel_index,
        text::trimmed(config.hardware_name).len() > 0 ==> candidates(config)[0].hardware_name
            == text::trimmed(config.hardware_name),
{
    let names = candidate_names(config.hardware_name);
    lemma_candidates(config, names, i);
    lemma_first_candidate(config, names);
}

proof fn lemma_candidates(config: CanConfigData, names: Seq<Seq<char>>, i: int)
    requires
        0 <= i < candidates_of_names(config, names).len(),
    ensures
        exists|k: int, c: int|
            {
                &&& 0 <= k < names.len()
                &&& 0 <= c < candidate_channels(config).len()
                &&& candidates_of_names(config, names)[i] == on_channel(
                    config,
                    #[trigger] names[k],
                    #[trigger] candidate_channels(config)[c],
                )
            },
    decreases names.len(),
{
    let front = names.drop_last();
    let before = candidates_of_names(config, front);
    if i < before.len() {
        lemma_candidates(config, front, i);
        let (k, c) = choose|k: int, c: int|
            {
                &&& 0 <= k < front.len()
                &&& 0 <= c < candidate_channels(config).len()
                &&& candidates_of_names(config, front)[i] == on_channel(
                    config,
                    #[trigger] front[k],
                    #[trigger] candidate_channels(config)[c],
                )
            };
        assert(names[k] == front[k]);
        assert(candidate_channels(config)[c] == candidate_channels(config)[c]);
    } else {
        let c = i - before.len();
        assert(candidates_of_names(config, names)[i] == candidates_of_name(
            config,
            names.last(),
        )[c]);
        assert(names[names.len() - 1] == names.last());
        assert(candidate_channels(config)[c] == candidate_channels(config)[c]);
    }
}

proof fn lemma_first_candidate(config: CanConfigData, names: Seq<Seq<char>>)
    requires
        names.len() > 0,
    ensures
        candidates_of_names(config, names).len() > 0,
        candidates_of_names(config, names)[0] == on_channel(config, names[0], config.channel_index),
    decreases names.len(),
{
    assert(candidate_channels(config)[0] == config.channel_index);
    if names.len() == 1 {
        assert(names.drop_last() =~= Seq::<Seq<char>>::empty());
        assert(candidates_of_names(config, names.drop_last()).len() == 0);
        assert(candidates_of_names(config, names) =~= candidates_of_name(config, names[0]));
    } else {
        lemma_first_candidate(config, names.drop_last());
    }
}

/// Every channel from 0 to 3 is tried, and every channel that the configuration counts.
pub proof fn law_enough_channels_are_tried(config: CanConfigData, channel: u8)
    requires
        channel < 4 || channel < config.channel_count,
    ensures
        candidate_channels(config).contains(channel),
{
    law_candidate_channels(config);
    assert(channel < scan_limit(config.channel_count));
}

/// The usual hardware is among the names that are tried, in whatever case it was written, and
/// no name is tried twice.
pub proof fn law_usual_hardware_is_tried(requested: Seq<char>)
    ensures
        exists|k: int|
            0 <= k < candidate_names(requested).len() && text::lowered(
                #[trigger] candidate_names(requested)[k],
            ) == "tc1012"@,
        candidate_names(requested).len() <= 2,
        candidate_names(requested).len() == 2 ==> text::lowered(candidate_names(requested)[0])
            != text::lowered(candidate_names(requested)[1]),
{
    reveal_strlit("TC1012");
    reveal_strlit("tc1012");
    assert(text::lowered("TC1012"@) =~= "tc1012"@);
    let names = candidate_names(requested);
    let name = text::trimmed(requested);
    if text::lowered(name) == "tc1012"@ {
        if name.len() == 0 {
            assert(text::lowered(name).len() == 0);
        }
        assert(text::lowered(names[0]) == "tc1012"@);
    } else {
        assert(text::lowered(names[names.len() - 1]) == "tc1012"@);
    }
}

/// The device behind a channel is known as one on the CAN bus, and devices on different
/// channels of one hardware have different names.
pub proof fn law_can_device_id(config: CanConfigData, other: CanConfigData)
    ensures
        text::begins_with(can_device_id(config), "can://"@),
        config.hardware_name == other.hardware_name && config.channel_index != other.channel_index
            ==> can_device_id(config) != can_device_id(other),
{
    let a = can_device_id(config);
    let b = can_device_id(other);
    let head = "can://"@ + config.hardware_name + ":ch"@;
    reveal_strlit("can://");
    assert(a.take(6) =~= "can://"@);
    if config.hardware_name == other.hardware_name && a == b {
        assert(a.skip(head.len() as int) =~= text::decimal(config.channel_index as nat));
        assert(b.skip(head.len() as int) =~= text::decimal(other.channel_index as nat));
        text::lemma_decimal_digits(config.channel_index as nat);
        text::lemma_decimal_digits(other.channel_index as nat);
    }
}

/// An error report that is taken does what the report alone does: one of type zero leaves no
/// error active, any other makes its error active, raises its alarm where it was not active, and
/// leaves the other errors as they were.
pub proof fn law_report_is_passed_on(
    d: CanData,
    frame: CanFrame,
    averages: Option<Seq<(usize, Real)>>,
    elapsed_nanos: u128,
    wall: SystemTime,
    after: CanData,
    events: Seq<EventData>,
    t: u8,
)
    requires
        frame_taken(d, frame, averages, elapsed_nanos, wall, after, events),
        frame.properties % 2 == 0,
        frame.identifier == 3,
        frame.dlc >= 4,
    ensures
        frame.data@[0] == 0 ==> !after.active_errors.contains(t),
        frame.data@[0] != 0 ==> (after.active_errors.contains(t) <==> d.active_errors.contains(t)
            || t == frame.data@[0]),
        frame.data@[0] != 0 && !d.active_errors.contains(frame.data@[0]) ==> exists|i: int|
            {
                &&& 0 <= i < events.len()
                &&& #[trigger] events[i] matches EventData::AlarmRaised(alarm) && alarm.device_id
                    == d.device_id && alarm.alarm_id == "sent_error_"@ + text::decimal(
                    frame.data@[0] as nat,
                )
            },
        frame.data@[0] == 0 && d.active_errors.contains(t) ==> exists|i: int|
            {
                &&& 0 <= i < events.len()
                &&& #[trigger] events[i] matches EventData::AlarmCleared(alarm) && alarm.device_id
                    == d.device_id && alarm.alarm_id == "sent_error_"@ + text::decimal(t as nat)
            },
{
    let count = after.frame_count;
    let values = sent_samples(d.device_id, sent_outputs(frame, averages), elapsed_nanos, count);
    let axis = axis_samples(d.device_id, frame, elapsed_nanos, count);
    let logged = log_events(d.device_id, frame, count);
    let tests = self_test_events(frame);
    let errors = choose|errors: Seq<EventData>|
        {
            &&& #[trigger] errors_after(d, frame, wall, after.active_errors, errors)
            &&& events == self_test_events(frame) + errors + sent_samples(
                d.device_id,
                sent_outputs(frame, averages),
                elapsed_nanos,
                count,
            ) + axis_samples(d.device_id, frame, elapsed_nanos, count) + log_events(
                d.device_id,
                frame,
                count,
            )
        };
    let error = sent_error_of(frame)->0;
    assert(tests.len() == 0);
    assert forall|i: int| 0 <= i < errors.len() implies events[i] == #[trigger] errors[i] by {
        assert(events[tests.len() + i] == errors[i]);
    }
    if error.error_type != 0 {
        law_report_begins_one_error(
            d.device_id,
            error,
            d.active_errors,
            wall,
            after.active_errors,
            errors,
        );
        if !d.active_errors.contains(error.error_type) {
            assert(events[0] == errors[0]);
        }
    } else {
        law_zero_report_ends_all_errors(
            d.device_id,
            error,
            d.active_errors,
            wall,
            after.active_errors,
            errors,
            t,
        );
        if d.active_errors.contains(t) {
            let i = choose|i: int|
                {
                    &&& 0 <= i < errors.len()
                    &&& #[trigger] errors[i] matches EventData::AlarmCleared(alarm)
                        && alarm.device_id == d.device_id && alarm.cleared && alarm.alarm_id
                        == "sent_error_"@ + text::decimal(t as nat)
                };
            assert(events[i] == errors[i]);
        }
    }
}

/// The first five frames and every hundredth are logged, under the level "info", with the
/// device, the number and the frame; what is logged is also shown. No other frame is.
pub proof fn law_frame_log(device_id: Seq<char>, frame: CanFrame, frame_count: u64)
    ensures
        ({
            let events = log_events(device_id, frame, frame_count);
            let msg = device_id + " frame="@ + text::decimal(frame_count as nat) + " "@
                + frame_text(frame);
            &&& frame_count <= 5 || frame_count % 100 == 0 ==> {
                &&& events.len() == 2
                &&& events[0] == EventData::System(msg)
                &&& events[1] == (EventData::Log { device_id, level: "info"@, msg })
            }
            &&& frame_count > 5 && frame_count % 100 != 0 ==> events.len() == 0
        }),
{
}

/// Averages are taken where the filter is on and the frame carries values, one for each sensor
/// in order; otherwise there are none, and what was gathered stays.
pub proof fn law_averages_when_enabled<
    W: Fn(u32) -> Real,
    F: Fn(&VecDeque<Real>, Real, bool) -> Real,
>(
    enabled: bool,
    frame: CanFrame,
    widen: W,
    mean: F,
    before: SentMovingAverage<Real>,
    after: SentMovingAverage<Real>,
    averages: Option<Seq<(usize, Real)>>,
    i: int,
)
    requires
        averages_of(enabled, frame, widen, mean, before, after, averages),
        0 <= i < 5,
    ensures
        averages is Some <==> enabled && sent_values_of(frame) is Some,
        averages matches Some(averages) ==> averages.len() == 5 && averages[i].0 == i,
        averages is None ==> after == before,
{
    if averages is Some {
        let values = sent_values_of(frame)->0;
        let wide = choose|wide: Seq<(usize, Real)>|
            {
                &&& wide.len() == 5
                &&& forall|i: int|
                    0 <= i < 5 ==> (#[trigger] wide[i]).0 == values[i].0 && call_ensures(
                        widen,
                        (values[i].1,),
                        wide[i].1,
                    )
                &&& after.contents() == #[trigger] windows_after_all(
                    before.contents(),
                    before.size(),
                    wide,
                    5,
                )
                &&& forall|i: int|
                    0 <= i < 5 ==> averaged(
                        before.contents(),
                        before.size(),
                        wide,
                        i,
                        mean,
                        #[trigger] averages->0[i],
                    )
            };
        assert(averaged(before.contents(), before.size(), wide, i, mean, averages->0[i]));
        assert(wide[i].0 == values[i].0);
        law_sent_values_stand_at_their_places(frame);
    }
}

/// A target is named by its hardware and its channel.
pub proof fn law_target_text(config: CanConfigData)
    ensures
        target_text(config) == "hw="@ + config.hardware_name + " ch="@ + text::decimal(
            config.channel_index as nat,
        ),
{
}

/// A frame on the bus is told by its direction, its channel, its identifier in at least three
/// hexadecimal digits, its length code, its time and its data bytes.
pub proof fn law_frame_words(frame: CanFrame, i: int)
    ensures
        frame_text(frame) == (if frame.properties % 2 == 1 {
            "TX"@
        } else {
            "RX"@
        }) + " ch="@ + text::decimal(frame.channel as nat) + " id=0x"@ + text::zero_padded(
            text::hex(frame.identifier as nat),
            3,
        ) + " dlc="@ + text::decimal(frame.dlc as nat) + " ts="@ + text::decimal(
            frame.timestamp_us as nat,
        ) + "us data="@ + text::join_with(hex_bytes(frame.payload()), " "@),
        0 <= i < frame.payload().len() ==> hex_bytes(frame.payload())[i] == text::zero_padded(
            text::hex(frame.data@[i] as nat),
            2,
        ),
{
}

proof fn lemma_all_names_tried(config: CanConfigData, names: Seq<Seq<char>>, k: int, c: int)
    requires
        0 <= k < names.len(),
        0 <= c < candidate_channels(config).len(),
    ensures
        exists|i: int|
            {
                &&& 0 <= i < candidates_of_names(config, names).len()
                &&& #[trigger] candidates_of_names(config, names)[i] == on_channel(
                    config,
                    names[k],
                    candidate_channels(config)[c],
                )
            },
    decreases names.len(),
{
    let front = names.drop_last();
    let before = candidates_of_names(config, front);
    let all = candidates_of_names(config, names);
    if k < front.len() {
        lemma_all_names_tried(config, front, k, c);
        let i = choose|i: int|
            {
                &&& 0 <= i < before.len()
                &&& #[trigger] before[i] == on_channel(
                    config,
                    front[k],
                    candidate_channels(config)[c],
                )
            };
        assert(all[i] == before[i]);
        assert(front[k] == names[k]);
    } else {
        assert(all[before.len() + c] == candidates_of_name(config, names.last())[c]);
    }
}

/// Every name is tried on every channel.
pub proof fn law_all_candidates(config: CanConfigData, k: int, c: int)
    requires
        0 <= k < candidate_names(config.hardware_name).len(),
        0 <= c < candidate_channels(config).len(),
    ensures
        exists|i: int|
            {
                &&& 0 <= i < candidates(config).len()
                &&& (#[trigger] candidates(config)[i]).hardware_name == candidate_names(
                    config.hardware_name,
                )[k]
                &&& candidates(config)[i].channel_index == candidate_channels(config)[c]
            },
{
    let names = candidate_names(config.hardware_name);
    lemma_all_names_tried(config, names, k, c);
    let i = choose|i: int|
        {
            &&& 0 <= i < candidates_of_names(config, names).len()
            &&& #[trigger] candidates_of_names(config, names)[i] == on_channel(
                config,
                names[k],
                candidate_channels(config)[c],
            )
        };
    assert(candidates(config)[i].hardware_name == names[k]);
}

} // verus!
