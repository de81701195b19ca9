//! Threshold alarms with hysteresis.
use std::collections::HashMap;
use std::time::SystemTime;
use vstd::prelude::*;

use crate::bus;
use crate::bus::{AppEvent, DeviceEvent, EventData};
use crate::domain::{AlarmData, AlarmEvent, AlarmLevel};
use crate::number::Real;
use crate::table::Table;
use crate::text;

verus! {

broadcast use vstd::std_specs::hash::group_hash_axioms;

/// Per-sensor threshold rule.
///
/// - high/high_clear: raise high alarm when value >= high, clear when value <= high_clear.
/// - low/low_clear: raise low alarm when value <= low, clear when value >= low_clear.
#[derive(Debug)]
pub struct AlarmRule {
    pub high: Option<Real>,
    pub high_clear: Option<Real>,
    pub low: Option<Real>,
    pub low_clear: Option<Real>,
    pub level: AlarmLevel,
    pub name: String,
}

/// What a rule says.
#[verifier::ext_equal]
pub ghost struct RuleData {
    pub high: Option<Real>,
    pub high_clear: Option<Real>,
    pub low: Option<Real>,
    pub low_clear: Option<Real>,
    pub level: AlarmLevel,
    pub name: Seq<char>,
}

impl View for AlarmRule {
    type V = RuleData;

    open spec fn view(&self) -> RuleData {
        RuleData {
            high: self.high,
            high_clear: self.high_clear,
            low: self.low,
            low_clear: self.low_clear,
            level: self.level,
            name: self.name@,
        }
    }
}

impl Default for AlarmRule {
    /// High alarm from 90 on, cleared at 85; low alarm from 10 down, cleared at 15.
    fn default() -> (r: Self)
        ensures
            r@ == (RuleData {
                high: Some(Real { bits: 0x4056_8000_0000_0000 }),
                high_clear: Some(Real { bits: 0x4055_4000_0000_0000 }),
                low: Some(Real { bits: 0x4024_0000_0000_0000 }),
                low_clear: Some(Real { bits: 0x402E_0000_0000_0000 }),
                level: AlarmLevel::Warning,
                name: "default_rule"@,
            }),
    {
        AlarmRule {
            high: Some(Real { bits: 0x4056_8000_0000_0000 }),
            high_clear: Some(Real { bits: 0x4055_4000_0000_0000 }),
            low: Some(Real { bits: 0x4024_0000_0000_0000 }),
            low_clear: Some(Real { bits: 0x402E_0000_0000_0000 }),
            level: AlarmLevel::Warning,
            name: text::owned("default_rule"),
        }
    }
}

/// Which alarms of a sensor are active.
#[derive(Clone, Copy, Debug, PartialEq, Eq, Structural)]
pub struct SensorAlarmState {
    pub high_active: bool,
    pub low_active: bool,
}

/// Whether an alarm is active behind a value: raised where the value has reached the
/// threshold, cleared where it is back behind the other threshold, else as before.
pub open spec fn active_after(active: bool, reached: bool, back: bool) -> bool {
    if active {
        !back
    } else {
        reached
    }
}

/// `a >= b` where there is a threshold `b`.
pub open spec fn reaches_up(a: Real, b: Option<Real>) -> bool {
    b matches Some(limit) && a.at_least(limit)
}

/// `a <= b` where there is a threshold `b`.
pub open spec fn reaches_down(a: Real, b: Option<Real>) -> bool {
    b matches Some(limit) && limit.at_least(a)
}

/// The alarms of a sensor behind a value.
pub open spec fn state_after(rule: RuleData, state: SensorAlarmState, value: Real) -> SensorAlarmState {
    SensorAlarmState {
        high_active: active_after(
            state.high_active,
            reaches_up(value, rule.high),
            reaches_down(value, rule.high_clear),
        ),
        low_active: active_after(
            state.low_active,
            reaches_down(value, rule.low),
            reaches_up(value, rule.low_clear),
        ),
    }
}

/// What a change of one alarm leads to; no change leads to nothing.
pub open spec fn change_events(
    rule: RuleData,
    side: Seq<char>,
    device_id: Seq<char>,
    sensor_id: usize,
    before: bool,
    after: bool,
    wall: SystemTime,
) -> Seq<EventData> {
    let alarm = AlarmData {
        device_id,
        alarm_id: rule.name + "_"@ + side,
        level: rule.level,
        message: rule.name + ": sensor "@ + text::decimal(sensor_id as nat) + " "@ + side,
        raised_at: wall,
        cleared: !after,
    };
    if before == after {
        Seq::empty()
    } else if after {
        seq![EventData::AlarmRaised(alarm)]
    } else {
        seq![EventData::AlarmCleared(alarm)]
    }
}

/// The state of a sensor of which nothing is known.
pub open spec fn quiet() -> SensorAlarmState {
    SensorAlarmState { high_active: false, low_active: false }
}

/// Threshold alarms of all sensors, by rule. A sensor without a rule has none.
pub struct AlarmService {
    rules: HashMap<usize, AlarmRule>,
    states: Table<(String, usize), SensorAlarmState>,
}

/// The rules and the alarms that are active.
#[verifier::ext_equal]
pub ghost struct AlarmsData {
    pub rules: Map<usize, RuleData>,
    pub states: Map<(Seq<char>, usize), SensorAlarmState>,
}

impl AlarmsData {
    /// The alarms of a sensor.
    pub open spec fn state(self, device_id: Seq<char>, sensor_id: usize) -> SensorAlarmState {
        if self.states.contains_key((device_id, sensor_id)) {
            self.states[(device_id, sensor_id)]
        } else {
            quiet()
        }
    }
}

impl View for AlarmService {
    type V = AlarmsData;

    closed spec fn view(&self) -> AlarmsData {
        AlarmsData {
            rules: self.rules@.map_values(|r: AlarmRule| r@),
            states: self.states@,
        }
    }
}

impl AlarmService {
    pub fn new() -> (r: Self)
        ensures
            r@ == (AlarmsData { rules: Map::empty(), states: Map::empty() }),
    {
        let r = AlarmService { rules: HashMap::new(), states: Table::new() };
        proof {
            assert(r@.rules =~= Map::<usize, RuleData>::empty());
        }
        r
    }

    /// Set or replace rule by sensor id.
    pub fn set_rule(&mut self, sensor_id: usize, rule: AlarmRule)
        ensures
            final(self)@ == (AlarmsData {
                rules: old(self)@.rules.insert(sensor_id, rule@),
                ..old(self)@
            }),
    {
        let ghost before = self@;
        let _ = self.rules.insert(sensor_id, rule);
        proof {
            assert(self@.rules =~= before.rules.insert(sensor_id, rule@));
        }
    }

    /// Evaluate one telemetry sample: gives the alarms that it raises or clears.
    pub fn evaluate_sample(
        &mut self,
        device_id: &str,
        sensor_id: usize,
        value: Real,
        wall: SystemTime,
    ) -> (r: Vec<AppEvent>)
        ensures
            final(self)@.rules == old(self)@.rules,
            if old(self)@.rules.contains_key(sensor_id) {
                let rule = old(self)@.rules[sensor_id];
                let before = old(self)@.state(device_id@, sensor_id);
                let after = state_after(rule, before, value);
                &&& final(self)@.states == old(self)@.states.insert((device_id@, sensor_id), after)
                &&& bus::event_data(r@) == change_events(
                    rule,
                    "high"@,
                    device_id@,
                    sensor_id,
                    before.high_active,
                    after.high_active,
                    wall,
                ) + change_events(
                    rule,
                    "low"@,
                    device_id@,
                    sensor_id,
                    before.low_active,
                    after.low_active,
                    wall,
                )
            } else {
                final(self)@ == old(self)@ && r@.len() == 0
            },
    {
        let ghost start = self@;
        let rule: &AlarmRule = match self.rules.get(&sensor_id) {
            Some(rule) => rule,
            None => {
                return Vec::new();
            },
        };
        let key: (String, usize) = (text::owned(device_id), sensor_id);
        let before: SensorAlarmState = match self.states.get(&key) {
            Some(state) => *state,
            None => SensorAlarmState { high_active: false, low_active: false },
        };
        let after = SensorAlarmState {
            high_active: if before.high_active {
                !reached_down(value, rule.high_clear)
            } else {
                reached_up(value, rule.high)
            },
            low_active: if before.low_active {
                !reached_up(value, rule.low_clear)
            } else {
                reached_down(value, rule.low)
            },
        };
        let mut events = change(
            rule,
            "high",
            device_id,
            sensor_id,
            before.high_active,
            after.high_active,
            wall,
        );
        let ghost first = events@;
        let mut more = change(
            rule,
            "low",
            device_id,
            sensor_id,
            before.low_active,
            after.low_active,
            wall,
        );
        let ghost second = more@;
        events.append(&mut more);
        proof {
            assert(bus::event_data(first + second) =~= bus::event_data(first) + bus::event_data(
                second,
            ));
            assert(start.rules[sensor_id] == rule@);
        }
        self.states.insert(key, after);
        events
    }
}

fn reached_up(a: Real, b: Option<Real>) -> (r: bool)
    ensures
        r == reaches_up(a, b),
{
    match b {
        Some(limit) => a.ge(limit),
        None => false,
    }
}

fn reached_down(a: Real, b: Option<Real>) -> (r: bool)
    ensures
        r == reaches_down(a, b),
{
    match b {
        Some(limit) => limit.ge(a),
        None => false,
    }
}

fn change(
    rule: &AlarmRule,
    side: &str,
    device_id: &str,
    sensor_id: usize,
    before: bool,
    after: bool,
    wall: SystemTime,
) -> (r: Vec<AppEvent>)
    ensures
        bus::event_data(r@) == change_events(
            rule@,
            side@,
            device_id@,
            sensor_id,
            before,
            after,
            wall,
        ),
{
    if before == after {
        let r: Vec<AppEvent> = Vec::new();
        proof {
            bus::lemma_no_events(r@);
        }
        return r;
    }
    let mut alarm_id = text::owned(rule.name.as_str());
    text::push_text(&mut alarm_id, "_");
    text::push_text(&mut alarm_id, side);
    let mut message = text::owned(rule.name.as_str());
    text::push_text(&mut message, ": sensor ");
    text::push_decimal(&mut message, sensor_id as u64);
    text::push_text(&mut message, " ");
    text::push_text(&mut message, side);
    let alarm = AlarmEvent {
        device_id: text::owned(device_id),
        alarm_id,
        level: rule.level,
        message,
        raised_at: wall,
        cleared: !after,
    };
    bus::one_event(
        AppEvent::Device(
            if after {
                DeviceEvent::AlarmRaised(alarm)
            } else {
                DeviceEvent::AlarmCleared(alarm)
            },
        ),
    )
}

/// A value between the thresholds, on neither of them, changes nothing: an alarm that is
/// active stays active, one that is not stays so. This is what keeps alarms from
/// flickering.
pub proof fn law_hysteresis(rule: RuleData, state: SensorAlarmState, value: Real)
    requires
        rule.high matches Some(high) && !value.at_least(high),
        rule.high_clear matches Some(clear) && !clear.at_least(value),
        rule.low matches Some(low) && !low.at_least(value),
        rule.low_clear matches Some(clear) && !value.at_least(clear),
    ensures
        state_after(rule, state, value) == state,
{
}

/// An alarm is announced in turn: of two announcements for one side of one sensor, one
/// after the other, one raises it and one clears it.
pub proof fn law_alarms_alternate(
    rule: RuleData,
    side: Seq<char>,
    device_id: Seq<char>,
    sensor_id: usize,
    first: bool,
    second: bool,
    third: bool,
    wall: SystemTime,
)
    requires
        change_events(rule, side, device_id, sensor_id, first, second, wall).len() > 0,
        change_events(rule, side, device_id, sensor_id, second, third, wall).len() > 0,
    ensures
        change_events(rule, side, device_id, sensor_id, first, second, wall)[0] is AlarmRaised
            <==> change_events(rule, side, device_id, sensor_id, second, third, wall)[0] is AlarmCleared,
{
}

// ---- what holds of all values ----

/// An alarm that is not active becomes active where the value reaches its limit, from below for
/// the high one and from above for the low one; one that is active ends where the value is back
/// at its clearing limit. A limit that is not set is never reached.
pub proof fn law_limits(rule: RuleData, state: SensorAlarmState, value: Real)
    ensures
        ({
            let after = state_after(rule, state, value);
            &&& !state.high_active ==> (after.high_active <==> rule.high is Some && value.at_least(
                rule.high->0,
            ))
            &&& state.high_active ==> (!after.high_active <==> rule.high_clear is Some
                && rule.high_clear->0.at_least(value))
            &&& !state.low_active ==> (after.low_active <==> rule.low is Some
                && rule.low->0.at_least(value))
            &&& state.low_active ==> (!after.low_active <==> rule.low_clear is Some
                && value.at_least(rule.low_clear->0))
        }),
        !quiet().high_active,
        !quiet().low_active,
{
}

/// An alarm is announced where it begins or ends, once, and says which rule, which side and
/// which sensor; nothing is announced where nothing changes.
pub proof fn law_change_is_announced(
    rule: RuleData,
    side: Seq<char>,
    device_id: Seq<char>,
    sensor_id: usize,
    before: bool,
    after: bool,
    wall: SystemTime,
)
    ensures
        ({
            let events = change_events(rule, side, device_id, sensor_id, before, after, wall);
            let alarm = match events[0] {
                EventData::AlarmRaised(alarm) => alarm,
                EventData::AlarmCleared(alarm) => alarm,
                _ => arbitrary(),
            };
            &&& events.len() == if before == after {
                0int
            } else {
                1
            }
            &&& before != after ==> {
                &&& events[0] is AlarmRaised <==> after
                &&& events[0] is AlarmCleared <==> !after
                &&& alarm.device_id == device_id
                &&& alarm.alarm_id == rule.name + "_"@ + side
                &&& alarm.level == rule.level
                &&& alarm.message == rule.name + ": sensor "@ + text::decimal(sensor_id as nat)
                    + " "@ + side
                &&& alarm.raised_at == wall
                &&& alarm.cleared == !after
            }
        }),
{
}

/// A sensor of which nothing has come is quiet, and the sensors of one device, or one sensor of
/// two devices, have states of their own.
pub proof fn law_states_are_apart(
    d: AlarmsData,
    device_id: Seq<char>,
    sensor_id: usize,
    state: SensorAlarmState,
    other: (Seq<char>, usize),
)
    requires
        other != (device_id, sensor_id),
    ensures
        ({
            let after = AlarmsData { states: d.states.insert((device_id, sensor_id), state), ..d };
            &&& after.state(device_id, sensor_id) == state
            &&& after.state(other.0, other.1) == d.state(other.0, other.1)
        }),
        !d.states.contains_key(other) ==> !d.state(other.0, other.1).high_active && !d.state(
            other.0,
            other.1,
        ).low_active,
{
    assert((other.0, other.1) == other);
}

} // verus!
