//! What the user interface watches: values that leave their limits, and values that jump.
use std::time::SystemTime;
use vstd::prelude::*;

use crate::domain::{AlarmData, AlarmEvent, AlarmLevel};
use crate::number::Real;
use crate::table::Table;
use crate::text;

verus! {

// ---- limits as they are typed ----

/// A limit as it is typed, without the space around it; empty for none. Anything but a number
/// is refused.
pub open spec fn validated(input: Seq<char>) -> Result<Seq<char>, Seq<char>> {
    let t = text::trimmed(input);
    if t.len() == 0 || text::is_float(t) {
        Ok(t)
    } else {
        Err("无效阈值: "@ + t)
    }
}

pub fn validate_threshold_text(input: &str) -> (r: Result<String, String>)
    ensures
        match validated(input@) {
            Ok(t) => r is Ok && r->Ok_0@ == t,
            Err(message) => r is Err && r->Err_0@ == message,
        },
{
    let chars: Vec<char> = text::chars_of(input);
    let trimmed: &[char] = text::trim(chars.as_slice());
    let t: String = text::string_of(trimmed);
    if trimmed.len() == 0 || text::check_float(trimmed) {
        Ok(t)
    } else {
        let mut message = text::owned("无效阈值: ");
        text::push_text(&mut message, t.as_str());
        Err(message)
    }
}

/// The limits of the three axes on the CAN bus.
#[derive(Debug)]
pub struct LimitTexts {
    pub x_high: String,
    pub x_low: String,
    pub y_high: String,
    pub y_low: String,
    pub z_high: String,
    pub z_low: String,
}

/// The limits of the three axes: high and low of x, y and z.
pub open spec fn limit_list(t: LimitTexts) -> Seq<Seq<char>> {
    seq![t.x_high@, t.x_low@, t.y_high@, t.y_low@, t.z_high@, t.z_low@]
}

/// The limits without the space around them, or the first fault.
pub open spec fn all_validated(inputs: Seq<Seq<char>>) -> Result<Seq<Seq<char>>, Seq<char>>
    decreases inputs.len(),
{
    if inputs.len() == 0 {
        Ok(Seq::empty())
    } else {
        match all_validated(inputs.drop_last()) {
            Err(message) => Err(message),
            Ok(front) => match validated(inputs.last()) {
                Err(message) => Err(message),
                Ok(t) => Ok(front.push(t)),
            },
        }
    }
}

/// The limits of the axes, as they are typed and as they hold.
#[derive(Debug)]
pub struct CanAlarmThresholds {
    pub input: LimitTexts,
    pub applied: LimitTexts,
}

fn no_limits() -> (r: LimitTexts)
    ensures
        forall|i: int| 0 <= i < 6 ==> (#[trigger] limit_list(r)[i]).len() == 0,
{
    proof {
        reveal_strlit("");
    }
    LimitTexts {
        x_high: text::owned(""),
        x_low: text::owned(""),
        y_high: text::owned(""),
        y_low: text::owned(""),
        z_high: text::owned(""),
        z_low: text::owned(""),
    }
}

impl CanAlarmThresholds {
    /// No limits.
    pub fn new() -> (r: Self)
        ensures
            forall|i: int|
                0 <= i < 6 ==> (#[trigger] limit_list(r.input)[i]).len() == 0,
            forall|i: int|
                0 <= i < 6 ==> (#[trigger] limit_list(r.applied)[i]).len() == 0,
    {
        CanAlarmThresholds { input: no_limits(), applied: no_limits() }
    }

    /// Puts the typed limits into force, all of them or none.
    pub fn apply_can_alarm_thresholds(&mut self) -> (r: Result<(), String>)
        ensures
            final(self).input == old(self).input,
            match all_validated(limit_list(old(self).input)) {
                Ok(limits) => r is Ok && limit_list(final(self).applied) == limits,
                Err(message) => r is Err && r->Err_0@ == message && final(self).applied == old(
                    self,
                ).applied,
            },
    {
        let ghost inputs = limit_list(self.input);
        proof {
            reveal_with_fuel(all_validated, 7);
            assert(inputs.drop_last() =~= inputs.take(5));
            assert(inputs.take(5).drop_last() =~= inputs.take(4));
            assert(inputs.take(4).drop_last() =~= inputs.take(3));
            assert(inputs.take(3).drop_last() =~= inputs.take(2));
            assert(inputs.take(2).drop_last() =~= inputs.take(1));
            assert(inputs.take(1).drop_last() =~= Seq::<Seq<char>>::empty());
        }
        let x_high: String = match validate_threshold_text(self.input.x_high.as_str()) {
            Ok(t) => t,
            Err(message) => {
                return Err(message);
            },
        };
        let x_low: String = match validate_threshold_text(self.input.x_low.as_str()) {
            Ok(t) => t,
            Err(message) => {
                return Err(message);
            },
        };
        let y_high: String = match validate_threshold_text(self.input.y_high.as_str()) {
            Ok(t) => t,
            Err(message) => {
                return Err(message);
            },
        };
        let y_low: String = match validate_threshold_text(self.input.y_low.as_str()) {
            Ok(t) => t,
            Err(message) => {
                return Err(message);
            },
        };
        let z_high: String = match validate_threshold_text(self.input.z_high.as_str()) {
            Ok(t) => t,
            Err(message) => {
                return Err(message);
            },
        };
        let z_low: String = match validate_threshold_text(self.input.z_low.as_str()) {
            Ok(t) => t,
            Err(message) => {
                return Err(message);
            },
        };
        self.applied = LimitTexts { x_high, x_low, y_high, y_low, z_high, z_low };
        proof {
            assert(all_validated(inputs)->Ok_0 =~= limit_list(self.applied));
        }
        Ok(())
    }

    /// The limits of an axis that hold: high, then low.
    pub fn can_alarm_rule(&self, sensor_id: usize) -> (r: Option<(&str, &str)>)
        ensures
            if sensor_id <= 2 {
                &&& r is Some
                &&& (r->0).0@ == limit_list(self.applied)[2 * sensor_id as int]
                &&& (r->0).1@ == limit_list(self.applied)[2 * sensor_id as int + 1]
            } else {
                r is None
            },
    {
        match sensor_id {
            0 => Some((self.applied.x_high.as_str(), self.applied.x_low.as_str())),
            1 => Some((self.applied.y_high.as_str(), self.applied.y_low.as_str())),
            2 => Some((self.applied.z_high.as_str(), self.applied.z_low.as_str())),
            _ => None,
        }
    }
}

// ---- values that leave their limits ----

#[derive(Clone, Copy, Debug, PartialEq, Eq, Structural)]
pub enum Bound {
    High,
    Low,
}

/// A value that has passed a limit, in one direction or the other.
#[derive(Clone, Copy, Debug, PartialEq, Eq, Structural)]
pub struct LimitAlarm {
    pub sensor_id: usize,
    pub bound: Bound,
    pub threshold: Real,
    pub value: Real,
    pub cleared: bool,
}

/// Which limits of an axis are passed.
#[derive(Clone, Copy, Debug, PartialEq, Eq, Structural)]
pub struct CanAxisAlarmState {
    pub high_active: bool,
    pub low_active: bool,
}

/// Whether a value lies at a limit or beyond it.
pub open spec fn beyond(bound: Bound, value: Real, limit: Real) -> bool {
    match bound {
        Bound::High => value.at_least(limit),
        Bound::Low => limit.at_least(value),
    }
}

/// Whether a value lies inside a limit.
pub open spec fn inside(bound: Bound, value: Real, limit: Real) -> bool {
    match bound {
        Bound::High => limit.above(value),
        Bound::Low => value.above(limit),
    }
}

/// Whether a limit is passed after a value, and the alarm about it. Without a limit nothing
/// is passed.
pub open spec fn limit_step(
    sensor_id: usize,
    bound: Bound,
    active: bool,
    limit: Option<Real>,
    value: Real,
) -> (bool, Option<LimitAlarm>) {
    match limit {
        Some(threshold) => if !active && beyond(bound, value, threshold) {
            (true, Some(LimitAlarm { sensor_id, bound, threshold, value, cleared: false }))
        } else if active && inside(bound, value, threshold) {
            (false, Some(LimitAlarm { sensor_id, bound, threshold, value, cleared: true }))
        } else {
            (active, None)
        },
        None => if active {
            (false, Some(LimitAlarm { sensor_id, bound, threshold: value, value, cleared: true }))
        } else {
            (false, None)
        },
    }
}

fn step_limit(
    sensor_id: usize,
    bound: Bound,
    active: bool,
    limit: Option<Real>,
    value: Real,
) -> (r: (bool, Option<LimitAlarm>))
    ensures
        r == limit_step(sensor_id, bound, active, limit, value),
{
    match limit {
        Some(threshold) => {
            let is_beyond = match bound {
                Bound::High => value.ge(threshold),
                Bound::Low => threshold.ge(value),
            };
            let is_inside = match bound {
                Bound::High => threshold.gt(value),
                Bound::Low => value.gt(threshold),
            };
            if !active && is_beyond {
                (true, Some(LimitAlarm { sensor_id, bound, threshold, value, cleared: false }))
            } else if active && is_inside {
                (false, Some(LimitAlarm { sensor_id, bound, threshold, value, cleared: true }))
            } else {
                (active, None)
            }
        },
        None => if active {
            (false, Some(LimitAlarm { sensor_id, bound, threshold: value, value, cleared: true }))
        } else {
            (false, None)
        },
    }
}

/// An alarm is raised where none was, and cleared where one was.
pub proof fn law_limit_alarms_alternate(
    sensor_id: usize,
    bound: Bound,
    active: bool,
    limit: Option<Real>,
    value: Real,
)
    ensures
        ({
            let (next, alarm) = limit_step(sensor_id, bound, active, limit, value);
            &&& alarm is Some <==> next != active
            &&& alarm matches Some(a) ==> a.cleared == active
        }),
{
}

/// The alarms in a row, where there are any.
pub open spec fn both(first: Option<LimitAlarm>, second: Option<LimitAlarm>) -> Seq<LimitAlarm> {
    let front = match first {
        Some(alarm) => seq![alarm],
        None => Seq::empty(),
    };
    match second {
        Some(alarm) => front.push(alarm),
        None => front,
    }
}

/// Which limits are passed, by device and sensor.
pub struct LimitMonitor {
    states: Table<(String, usize), CanAxisAlarmState>,
}

impl View for LimitMonitor {
    type V = Map<(Seq<char>, usize), CanAxisAlarmState>;

    closed spec fn view(&self) -> Map<(Seq<char>, usize), CanAxisAlarmState> {
        self.states@
    }
}

/// Which limits are passed; none of a sensor that is not known.
pub open spec fn limit_state(
    states: Map<(Seq<char>, usize), CanAxisAlarmState>,
    key: (Seq<char>, usize),
) -> CanAxisAlarmState {
    if states.contains_key(key) {
        states[key]
    } else {
        CanAxisAlarmState { high_active: false, low_active: false }
    }
}

impl LimitMonitor {
    pub fn new() -> (r: Self)
        ensures
            r@ == Map::<(Seq<char>, usize), CanAxisAlarmState>::empty(),
    {
        LimitMonitor { states: Table::new() }
    }

    /// Holds a value of an axis on the CAN bus against the limits of the axis; other values
    /// do not count.
    pub fn evaluate_can_threshold_alarms(
        &mut self,
        device_id: &str,
        sensor_id: usize,
        value: Real,
        high: Option<Real>,
        low: Option<Real>,
    ) -> (r: Vec<LimitAlarm>)
        ensures
            ({
                let key = (device_id@, sensor_id);
                let state = limit_state(old(self)@, key);
                let (high_active, first) = limit_step(
                    sensor_id,
                    Bound::High,
                    state.high_active,
                    high,
                    value,
                );
                let (low_active, second) = limit_step(
                    sensor_id,
                    Bound::Low,
                    state.low_active,
                    low,
                    value,
                );
                if text::begins_with(device_id@, "can://"@) && sensor_id <= 2 {
                    &&& r@ == both(first, second)
                    &&& final(self)@ == old(self)@.insert(
                        key,
                        CanAxisAlarmState { high_active, low_active },
                    )
                } else {
                    r@.len() == 0 && final(self)@ == old(self)@
                }
            }),
    {
        let mut out: Vec<LimitAlarm> = Vec::new();
        if !text::starts_with(device_id, "can://") || sensor_id > 2 {
            return out;
        }
        let key = (text::owned(device_id), sensor_id);
        let state: CanAxisAlarmState = match self.states.get(&key) {
            Some(state) => *state,
            None => CanAxisAlarmState { high_active: false, low_active: false },
        };
        let (high_active, first) = step_limit(
            sensor_id,
            Bound::High,
            state.high_active,
            high,
            value,
        );
        let (low_active, second) = step_limit(sensor_id, Bound::Low, state.low_active, low, value);
        if let Some(alarm) = first {
            out.push(alarm);
        }
        if let Some(alarm) = second {
            out.push(alarm);
        }
        proof {
            assert(out@ =~= both(first, second));
        }
        self.states.insert(key, CanAxisAlarmState { high_active, low_active });
        out
    }
}

/// The name of an axis.
pub open spec fn axis_text(sensor_id: usize) -> Seq<char> {
    if sensor_id == 0 {
        "x"@
    } else if sensor_id == 1 {
        "y"@
    } else if sensor_id == 2 {
        "z"@
    } else {
        ""@
    }
}

/// The name of a bound.
pub open spec fn bound_text(bound: Bound) -> Seq<char> {
    match bound {
        Bound::High => "h"@,
        Bound::Low => "l"@,
    }
}

/// The alarm about a passed limit. The threshold and the value come in their notation.
pub fn limit_event(
    device_id: &str,
    alarm: LimitAlarm,
    threshold: &str,
    value: &str,
    raised_at: SystemTime,
) -> (r: AlarmEvent)
    ensures
        r@ == (AlarmData {
            device_id: device_id@,
            alarm_id: "can_"@ + axis_text(alarm.sensor_id) + "_"@ + bound_text(alarm.bound),
            level: AlarmLevel::Warning,
            message: "axis="@ + axis_text(alarm.sensor_id) + ", bound="@ + bound_text(alarm.bound)
                + ", threshold="@ + threshold@ + ", value="@ + value@,
            raised_at,
            cleared: alarm.cleared,
        }),
{
    let axis: &str = match alarm.sensor_id {
        0 => "x",
        1 => "y",
        2 => "z",
        _ => "",
    };
    let bound: &str = match alarm.bound {
        Bound::High => "h",
        Bound::Low => "l",
    };
    let mut alarm_id = text::owned("can_");
    text::push_text(&mut alarm_id, axis);
    text::push_text(&mut alarm_id, "_");
    text::push_text(&mut alarm_id, bound);
    let mut message = text::owned("axis=");
    text::push_text(&mut message, axis);
    text::push_text(&mut message, ", bound=");
    text::push_text(&mut message, bound);
    text::push_text(&mut message, ", threshold=");
    text::push_text(&mut message, threshold);
    text::push_text(&mut message, ", value=");
    text::push_text(&mut message, value);
    AlarmEvent {
        device_id: text::owned(device_id),
        alarm_id,
        level: AlarmLevel::Warning,
        message,
        raised_at,
        cleared: alarm.cleared,
    }
}

// ---- torques that jump ----

#[derive(Clone, Copy, Debug, PartialEq, Eq, Structural)]
pub enum SentJumpLevel {
    Normal,
    Warning,
    Critical,
    Purple,
}

impl SentJumpLevel {
    pub open spec fn rank(self) -> int {
        match self {
            SentJumpLevel::Normal => 0,
            SentJumpLevel::Warning => 1,
            SentJumpLevel::Critical => 2,
            SentJumpLevel::Purple => 3,
        }
    }

    fn rank_number(self) -> (r: u8)
        ensures
            r == self.rank(),
    {
        match self {
            SentJumpLevel::Normal => 0,
            SentJumpLevel::Warning => 1,
            SentJumpLevel::Critical => 2,
            SentJumpLevel::Purple => 3,
        }
    }

    pub fn as_str(self) -> (r: &'static str)
        ensures
            r@ == match self {
                SentJumpLevel::Normal => "OK"@,
                SentJumpLevel::Warning => "WARN"@,
                SentJumpLevel::Critical => "RED"@,
                SentJumpLevel::Purple => "PURPLE"@,
            },
    {
        match self {
            SentJumpLevel::Normal => "OK",
            SentJumpLevel::Warning => "WARN",
            SentJumpLevel::Critical => "RED",
            SentJumpLevel::Purple => "PURPLE",
        }
    }
}

/// From which jump on a level holds.
#[derive(Clone, Copy, Debug, PartialEq, Eq, Structural)]
pub struct JumpThresholds {
    pub warn: Real,
    pub red: Real,
    pub purple: Real,
}

/// The number, or another where there is none, without its sign.
pub open spec fn size_or(number: Option<Real>, otherwise: u64) -> Real {
    match number {
        Some(number) => number.absolute(),
        None => Real { bits: otherwise },
    }
}

/// One fifth, three tenths, two fifths.
pub const DEFAULT_WARN_BITS: u64 = 0x3FC9_9999_9999_999A;

pub const DEFAULT_RED_BITS: u64 = 0x3FD3_3333_3333_3333;

pub const DEFAULT_PURPLE_BITS: u64 = 0x3FD9_9999_9999_999A;

fn size_of_or(number: Option<Real>, otherwise: u64) -> (r: Real)
    ensures
        r == size_or(number, otherwise),
{
    match number {
        Some(number) => number.abs(),
        None => Real { bits: otherwise },
    }
}

/// The thresholds that hold: without their signs, and none below the one before it.
pub open spec fn thresholds_of(
    warn: Option<Real>,
    red: Option<Real>,
    purple: Option<Real>,
) -> JumpThresholds {
    let warn = size_or(warn, DEFAULT_WARN_BITS);
    let red = size_or(red, DEFAULT_RED_BITS).larger(warn);
    let purple = size_or(purple, DEFAULT_PURPLE_BITS).larger(red);
    JumpThresholds { warn, red, purple }
}

pub fn sent_jump_thresholds(warn: Option<Real>, red: Option<Real>, purple: Option<Real>) -> (r:
    JumpThresholds)
    ensures
        r == thresholds_of(warn, red, purple),
{
    let warn: Real = size_of_or(warn, DEFAULT_WARN_BITS);
    let red: Real = size_of_or(red, DEFAULT_RED_BITS).max(warn);
    let purple: Real = size_of_or(purple, DEFAULT_PURPLE_BITS).max(red);
    JumpThresholds { warn, red, purple }
}

/// The thresholds never cross, as long as they are numbers.
pub proof fn law_thresholds_in_order(warn: Option<Real>, red: Option<Real>, purple: Option<Real>)
    requires
        warn matches Some(n) ==> !n.is_nan(),
        red matches Some(n) ==> !n.is_nan(),
        purple matches Some(n) ==> !n.is_nan(),
    ensures
        thresholds_of(warn, red, purple).red.at_least(thresholds_of(warn, red, purple).warn),
        thresholds_of(warn, red, purple).purple.at_least(thresholds_of(warn, red, purple).red),
{
}

/// The thresholds that are put into force: the typed ones without their signs. The first
/// text that is no number is reported, then thresholds that cross.
pub open spec fn typed_thresholds(
    inputs: Seq<Seq<char>>,
    warn: Option<Real>,
    red: Option<Real>,
    purple: Option<Real>,
) -> Result<JumpThresholds, Seq<char>> {
    let t = JumpThresholds {
        warn: size_or(warn, DEFAULT_WARN_BITS),
        red: size_or(red, DEFAULT_RED_BITS),
        purple: size_or(purple, DEFAULT_PURPLE_BITS),
    };
    match all_validated(inputs) {
        Err(message) => Err(message),
        Ok(_) => if t.warn.above(t.red) {
            Err("red threshold must be >= warning threshold"@)
        } else if t.red.above(t.purple) {
            Err("purple threshold must be >= red threshold"@)
        } else {
            Ok(t)
        },
    }
}

/// Checks the typed thresholds; the numbers are what the texts spell.
pub fn apply_sent_jump_thresholds(
    warn_input: &str,
    red_input: &str,
    purple_input: &str,
    warn: Option<Real>,
    red: Option<Real>,
    purple: Option<Real>,
) -> (r: Result<JumpThresholds, String>)
    ensures
        match typed_thresholds(seq![warn_input@, red_input@, purple_input@], warn, red, purple) {
            Ok(t) => r is Ok && r->Ok_0 == t,
            Err(message) => r is Err && r->Err_0@ == message,
        },
{
    let ghost inputs = seq![warn_input@, red_input@, purple_input@];
    proof {
        reveal_with_fuel(all_validated, 4);
        assert(inputs.drop_last() =~= inputs.take(2));
        assert(inputs.take(2).drop_last() =~= inputs.take(1));
        assert(inputs.take(1).drop_last() =~= Seq::<Seq<char>>::empty());
    }
    match validate_threshold_text(warn_input) {
        Ok(_) => {},
        Err(message) => {
            return Err(message);
        },
    }
    match validate_threshold_text(red_input) {
        Ok(_) => {},
        Err(message) => {
            return Err(message);
        },
    }
    match validate_threshold_text(purple_input) {
        Ok(_) => {},
        Err(message) => {
            return Err(message);
        },
    }
    let t = JumpThresholds {
        warn: size_of_or(warn, DEFAULT_WARN_BITS),
        red: size_of_or(red, DEFAULT_RED_BITS),
        purple: size_of_or(purple, DEFAULT_PURPLE_BITS),
    };
    if t.warn.gt(t.red) {
        return Err(text::owned("red threshold must be >= warning threshold"));
    }
    if t.red.gt(t.purple) {
        return Err(text::owned("purple threshold must be >= red threshold"));
    }
    Ok(t)
}

/// The level of a jump.
pub open spec fn level_of(t: JumpThresholds, delta: Real) -> SentJumpLevel {
    if delta.at_least(t.purple) {
        SentJumpLevel::Purple
    } else if delta.at_least(t.red) {
        SentJumpLevel::Critical
    } else if delta.above(t.warn) {
        SentJumpLevel::Warning
    } else {
        SentJumpLevel::Normal
    }
}

pub fn sent_jump_level(t: &JumpThresholds, delta: Real) -> (r: SentJumpLevel)
    ensures
        r == level_of(*t, delta),
{
    if delta.ge(t.purple) {
        SentJumpLevel::Purple
    } else if delta.ge(t.red) {
        SentJumpLevel::Critical
    } else if delta.gt(t.warn) {
        SentJumpLevel::Warning
    } else {
        SentJumpLevel::Normal
    }
}

/// A larger jump is never of a lower level.
pub proof fn law_level_grows(t: JumpThresholds, small: Real, large: Real)
    requires
        large.at_least(small),
    ensures
        level_of(t, small).rank() <= level_of(t, large).rank(),
{
}

/// What is known of the torque of a sensor.
#[derive(Clone, Copy, Debug, PartialEq, Eq, Structural)]
pub struct SentTorqueJumpState {
    pub last_value: Option<Real>,
    pub last_delta: Real,
    pub alert_count: u64,
    pub level: SentJumpLevel,
}

/// An alarm about a torque that jumps.
#[derive(Clone, Copy, Debug, PartialEq, Eq, Structural)]
pub struct JumpAlarm {
    pub sensor_id: usize,
    pub delta: Real,
    pub level: SentJumpLevel,
    pub cleared: bool,
}

/// Nothing is known of a torque.
pub open spec fn no_jump() -> SentTorqueJumpState {
    SentTorqueJumpState {
        last_value: None,
        last_delta: Real { bits: 0 },
        alert_count: 0,
        level: SentJumpLevel::Normal,
    }
}

/// A count that grows as long as it can.
pub open spec fn one_more(n: u64) -> u64 {
    if n < u64::MAX {
        (n + 1) as u64
    } else {
        n
    }
}

/// What is known after a jump of the given size, and the alarms about it: where the level
/// changes, that of the level before is cleared and that of the new level raised.
pub open spec fn torque_step(
    previous: SentTorqueJumpState,
    sensor_id: usize,
    value: Real,
    delta: Real,
    level: SentJumpLevel,
) -> (SentTorqueJumpState, Seq<JumpAlarm>) {
    let changed = level != previous.level;
    let next = SentTorqueJumpState {
        last_value: Some(value),
        last_delta: delta,
        alert_count: if changed && level != SentJumpLevel::Normal {
            one_more(previous.alert_count)
        } else {
            previous.alert_count
        },
        level,
    };
    let clearing = if changed && previous.level != SentJumpLevel::Normal {
        seq![JumpAlarm { sensor_id, delta, level: previous.level, cleared: true }]
    } else {
        Seq::empty()
    };
    let raising = if changed && level != SentJumpLevel::Normal {
        seq![JumpAlarm { sensor_id, delta, level, cleared: false }]
    } else {
        Seq::empty()
    };
    (next, clearing + raising)
}

/// What is known of torques, by device and sensor.
pub struct TorqueMonitor {
    states: Table<(String, usize), SentTorqueJumpState>,
}

impl View for TorqueMonitor {
    type V = Map<(Seq<char>, usize), SentTorqueJumpState>;

    closed spec fn view(&self) -> Map<(Seq<char>, usize), SentTorqueJumpState> {
        self.states@
    }
}

/// What is known of a torque.
pub open spec fn torque_state(
    states: Map<(Seq<char>, usize), SentTorqueJumpState>,
    key: (Seq<char>, usize),
) -> SentTorqueJumpState {
    if states.contains_key(key) {
        states[key]
    } else {
        no_jump()
    }
}

impl TorqueMonitor {
    pub fn new() -> (r: Self)
        ensures
            r@ == Map::<(Seq<char>, usize), SentTorqueJumpState>::empty(),
    {
        TorqueMonitor { states: Table::new() }
    }

    fn state(&self, key: &(String, usize)) -> (r: SentTorqueJumpState)
        ensures
            r == torque_state(self@, (key.0@, key.1)),
    {
        match self.states.get(key) {
            Some(state) => *state,
            None => SentTorqueJumpState {
                last_value: None,
                last_delta: Real { bits: 0 },
                alert_count: 0,
                level: SentJumpLevel::Normal,
            },
        }
    }

    /// Takes in a torque whose distance from the one before is known.
    pub fn jumped(
        &mut self,
        device_id: &str,
        sensor_id: usize,
        value: Real,
        delta: Real,
        thresholds: &JumpThresholds,
    ) -> (r: Vec<JumpAlarm>)
        ensures
            ({
                let key = (device_id@, sensor_id);
                let (next, alarms) = torque_step(
                    torque_state(old(self)@, key),
                    sensor_id,
                    value,
                    delta,
                    level_of(*thresholds, delta),
                );
                r@ == alarms && final(self)@ == old(self)@.insert(key, next)
            }),
    {
        let key = (text::owned(device_id), sensor_id);
        let previous: SentTorqueJumpState = self.state(&key);
        let level: SentJumpLevel = sent_jump_level(thresholds, delta);
        let mut out: Vec<JumpAlarm> = Vec::new();
        let mut alert_count: u64 = previous.alert_count;
        if level != previous.level {
            if previous.level != SentJumpLevel::Normal {
                out.push(JumpAlarm { sensor_id, delta, level: previous.level, cleared: true });
            }
            if level != SentJumpLevel::Normal {
                if alert_count < u64::MAX {
                    alert_count = alert_count + 1;
                }
                out.push(JumpAlarm { sensor_id, delta, level, cleared: false });
            }
        }
        proof {
            assert(out@ =~= torque_step(previous, sensor_id, value, delta, level).1);
        }
        self.states.insert(
            key,
            SentTorqueJumpState { last_value: Some(value), last_delta: delta, alert_count, level },
        );
        out
    }

    /// Takes in a torque. `distance` tells how far a value lies from the one before; the
    /// first value of a sensor jumps nowhere.
    pub fn evaluate_sent_torque_jump<F: Fn(Real, Real) -> Real>(
        &mut self,
        device_id: &str,
        sensor_id: usize,
        value: Real,
        thresholds: &JumpThresholds,
        distance: F,
    ) -> (r: Vec<JumpAlarm>)
        requires
            forall|a: Real, b: Real| #[trigger] call_requires(distance, (a, b)),
        ensures
            ({
                let key = (device_id@, sensor_id);
                let state = torque_state(old(self)@, key);
                match state.last_value {
                    None => {
                        &&& r@.len() == 0
                        &&& final(self)@ == old(self)@.insert(
                            key,
                            SentTorqueJumpState { last_value: Some(value), ..state },
                        )
                    },
                    Some(last) => exists|delta: Real|
                        {
                            let (next, alarms) = torque_step(
                                state,
                                sensor_id,
                                value,
                                delta,
                                level_of(*thresholds, delta),
                            );
                            &&& #[trigger] call_ensures(distance, (value, last), delta)
                            &&& r@ == alarms
                            &&& final(self)@ == old(self)@.insert(key, next)
                        },
                }
            }),
    {
        let key = (text::owned(device_id), sensor_id);
        let previous: SentTorqueJumpState = self.state(&key);
        match previous.last_value {
            None => {
                self.states.insert(
                    key,
                    SentTorqueJumpState {
                        last_value: Some(value),
                        last_delta: previous.last_delta,
                        alert_count: previous.alert_count,
                        level: previous.level,
                    },
                );
                Vec::new()
            },
            Some(last) => {
                let delta: Real = distance(value, last);
                self.jumped(device_id, sensor_id, value, delta, thresholds)
            },
        }
    }

    /// The state of a sensor whose level is highest, of all devices that have it.
    pub fn state_for_sensor(&self, sensor_id: usize) -> (r: SentTorqueJumpState)
        ensures
            if exists|key: (Seq<char>, usize)| #[trigger]
                self@.contains_key(key) && key.1 == sensor_id {
                &&& exists|key: (Seq<char>, usize)| #[trigger]
                    self@.contains_key(key) && key.1 == sensor_id && self@[key] == r
                &&& forall|key: (Seq<char>, usize)| #[trigger]
                    self@.contains_key(key) && key.1 == sensor_id ==> self@[key].level.rank()
                        <= r.level.rank()
            } else {
                r == no_jump()
            },
    {
        let rows: &Vec<((String, usize), SentTorqueJumpState)> = self.states.rows();
        let mut found: Option<SentTorqueJumpState> = None;
        for i in 0..rows.len()
            invariant
                self@ == crate::table::row_map(rows@),
                crate::table::distinct(rows@),
                match found {
                    Some(state) => {
                        &&& exists|j: int|
                            0 <= j < i && (#[trigger] rows@[j]).0.1 == sensor_id && rows@[j].1
                                == state
                        &&& forall|j: int|
                            0 <= j < i && (#[trigger] rows@[j]).0.1 == sensor_id
                                ==> rows@[j].1.level.rank() <= state.level.rank()
                    },
                    None => forall|j: int| 0 <= j < i ==> (#[trigger] rows@[j]).0.1 != sensor_id,
                },
        {
            if rows[i].0.1 == sensor_id {
                let state: SentTorqueJumpState = rows[i].1;
                let higher = match found {
                    Some(known) => state.level.rank_number() >= known.level.rank_number(),
                    None => true,
                };
                proof {
                    assert(rows@[i as int].0.1 == sensor_id && rows@[i as int].1 == state);
                }
                if higher {
                    found = Some(state);
                }
            }
        }
        proof {
            assert forall|key: (Seq<char>, usize)| #[trigger]
                self@.contains_key(key) implies exists|j: int|
                0 <= j < rows@.len() && (#[trigger] rows@[j]).0.1 == key.1 && rows@[j].1
                    == self@[key] by {
                lemma_state_row(rows@, key);
            }
            if found is Some {
                let j = choose|j: int|
                    0 <= j < rows@.len() && (#[trigger] rows@[j]).0.1 == sensor_id && rows@[j].1
                        == found->0;
                crate::table::lemma_row(rows@, j);
                let key = (rows@[j].0.0@, rows@[j].0.1);
                assert(self@.contains_key(key) && self@[key] == found->0);
            }
        }
        match found {
            Some(state) => state,
            None => SentTorqueJumpState {
                last_value: None,
                last_delta: Real { bits: 0 },
                alert_count: 0,
                level: SentJumpLevel::Normal,
            },
        }
    }
}

proof fn lemma_state_row<V>(rows: Seq<((String, usize), V)>, key: (Seq<char>, usize))
    requires
        crate::table::distinct(rows),
        crate::table::row_map(rows).contains_key(key),
    ensures
        exists|j: int|
            0 <= j < rows.len() && (#[trigger] rows[j]).0.1 == key.1 && rows[j].1
                == crate::table::row_map(rows)[key],
{
    let j = crate::table::row_of(rows, key);
    assert(crate::table::has_row(rows, key));
    crate::table::lemma_row(rows, j);
    assert(rows[j].0.1 == key.1 && rows[j].1 == crate::table::row_map(rows)[key]);
}

/// The name of a torque.
pub open spec fn torque_name(sensor_id: usize) -> Seq<char> {
    if sensor_id == 1 {
        "T1 torque"@
    } else if sensor_id == 3 {
        "T2 torque"@
    } else {
        "SENT torque"@
    }
}

pub fn sent_torque_label(sensor_id: usize) -> (r: &'static str)
    ensures
        r@ == torque_name(sensor_id),
{
    match sensor_id {
        1 => "T1 torque",
        3 => "T2 torque",
        _ => "SENT torque",
    }
}

/// Numbers in their notation: a jump and the thresholds.
#[derive(Debug)]
pub struct JumpTexts {
    pub delta: String,
    pub warn: String,
    pub red: String,
    pub purple: String,
}

/// What the alarm about a torque that jumps is called.
pub open spec fn torque_alarm_id(sensor_id: usize) -> Seq<char> {
    "sent_torque_jump_"@ + if sensor_id == 1 {
        "t1"@
    } else {
        "t2"@
    }
}

/// How serious the alarm about a jump is.
pub open spec fn jump_alarm_level(level: SentJumpLevel) -> AlarmLevel {
    match level {
        SentJumpLevel::Purple => AlarmLevel::Purple,
        SentJumpLevel::Critical => AlarmLevel::Critical,
        _ => AlarmLevel::Warning,
    }
}

/// The alarm about a torque that jumps.
pub fn jump_event(
    device_id: &str,
    alarm: JumpAlarm,
    texts: &JumpTexts,
    raised_at: SystemTime,
) -> (r: AlarmEvent)
    ensures
        r@.alarm_id == torque_alarm_id(alarm.sensor_id),
        r@.level == jump_alarm_level(alarm.level),
        r@ == (AlarmData {
            device_id: device_id@,
            alarm_id: "sent_torque_jump_"@ + if alarm.sensor_id == 1 {
                "t1"@
            } else {
                "t2"@
            },
            level: match alarm.level {
                SentJumpLevel::Purple => AlarmLevel::Purple,
                SentJumpLevel::Critical => AlarmLevel::Critical,
                _ => AlarmLevel::Warning,
            },
            message: torque_name(alarm.sensor_id) + " jump="@ + texts.delta@ + ", warn="@
                + texts.warn@ + ", red="@ + texts.red@ + ", purple="@ + texts.purple@,
            raised_at,
            cleared: alarm.cleared,
        }),
{
    let mut alarm_id = text::owned("sent_torque_jump_");
    text::push_text(
        &mut alarm_id,
        if alarm.sensor_id == 1 {
            "t1"
        } else {
            "t2"
        },
    );
    let level: AlarmLevel = match alarm.level {
        SentJumpLevel::Purple => AlarmLevel::Purple,
        SentJumpLevel::Critical => AlarmLevel::Critical,
        _ => AlarmLevel::Warning,
    };
    let mut message = text::owned(sent_torque_label(alarm.sensor_id));
    text::push_text(&mut message, " jump=");
    text::push_text(&mut message, texts.delta.as_str());
    text::push_text(&mut message, ", warn=");
    text::push_text(&mut message, texts.warn.as_str());
    text::push_text(&mut message, ", red=");
    text::push_text(&mut message, texts.red.as_str());
    text::push_text(&mut message, ", purple=");
    text::push_text(&mut message, texts.purple.as_str());
    AlarmEvent {
        device_id: text::owned(device_id),
        alarm_id,
        level,
        message,
        raised_at,
        cleared: alarm.cleared,
    }
}

/// A torque whose level is not normal has an alarm raised, and one whose level is normal has
/// none: each change of the level clears what was raised and raises what holds.
pub proof fn law_torque_alarms_follow_level(
    previous: SentTorqueJumpState,
    sensor_id: usize,
    value: Real,
    delta: Real,
    level: SentJumpLevel,
)
    ensures
        ({
            let (next, alarms) = torque_step(previous, sensor_id, value, delta, level);
            &&& next.level == level
            &&& (level == previous.level ==> alarms.len() == 0)
            &&& (level != previous.level && previous.level != SentJumpLevel::Normal
                ==> alarms.len() > 0 && alarms[0].cleared && alarms[0].level == previous.level)
            &&& (level != previous.level && level != SentJumpLevel::Normal ==> alarms.len() > 0
                && !alarms.last().cleared && alarms.last().level == level)
        }),
{
}

// ---- angles that jump ----

/// What is known of the angle of a sensor.
#[derive(Clone, Copy, Debug, PartialEq, Eq, Structural)]
pub struct SentAngleJumpState {
    pub last_value: Option<Real>,
    pub last_delta: Real,
    pub alert_count: u64,
    pub active: bool,
}

/// An alarm about an angle that jumps.
#[derive(Clone, Copy, Debug, PartialEq, Eq, Structural)]
pub struct AngleAlarm {
    pub sensor_id: usize,
    pub delta: Real,
    pub cleared: bool,
}

/// The number one.
pub const DEFAULT_ANGLE_RED_BITS: u64 = 0x3FF0_0000_0000_0000;

/// The threshold for angles that holds.
pub fn sent_angle_jump_threshold(red: Option<Real>) -> (r: Real)
    ensures
        r == size_or(red, DEFAULT_ANGLE_RED_BITS),
{
    size_of_or(red, DEFAULT_ANGLE_RED_BITS)
}

/// Checks the typed threshold; the number is what the text spells.
pub fn apply_sent_angle_jump_threshold(red_input: &str, red: Option<Real>) -> (r: Result<
    Real,
    String,
>)
    ensures
        match validated(red_input@) {
            Ok(_) => r == Ok::<Real, String>(size_or(red, DEFAULT_ANGLE_RED_BITS)),
            Err(message) => r is Err && r->Err_0@ == message,
        },
{
    match validate_threshold_text(red_input) {
        Ok(_) => Ok(size_of_or(red, DEFAULT_ANGLE_RED_BITS)),
        Err(message) => Err(message),
    }
}

/// Nothing is known of an angle.
pub open spec fn no_angle() -> SentAngleJumpState {
    SentAngleJumpState {
        last_value: None,
        last_delta: Real { bits: 0 },
        alert_count: 0,
        active: false,
    }
}

/// What is known after a jump of the given size, and the alarm about it.
pub open spec fn angle_step(
    previous: SentAngleJumpState,
    sensor_id: usize,
    value: Real,
    delta: Real,
    red: Real,
) -> (SentAngleJumpState, Option<AngleAlarm>) {
    let active = delta.at_least(red);
    let changed = active != previous.active;
    (
        SentAngleJumpState {
            last_value: Some(value),
            last_delta: delta,
            alert_count: if changed && active {
                one_more(previous.alert_count)
            } else {
                previous.alert_count
            },
            active,
        },
        if changed {
            Some(AngleAlarm { sensor_id, delta, cleared: !active })
        } else {
            None
        },
    )
}

/// What is known of angles, by device and sensor.
pub struct AngleMonitor {
    states: Table<(String, usize), SentAngleJumpState>,
}

impl View for AngleMonitor {
    type V = Map<(Seq<char>, usize), SentAngleJumpState>;

    closed spec fn view(&self) -> Map<(Seq<char>, usize), SentAngleJumpState> {
        self.states@
    }
}

/// What is known of an angle.
pub open spec fn angle_state(
    states: Map<(Seq<char>, usize), SentAngleJumpState>,
    key: (Seq<char>, usize),
) -> SentAngleJumpState {
    if states.contains_key(key) {
        states[key]
    } else {
        no_angle()
    }
}

impl AngleMonitor {
    pub fn new() -> (r: Self)
        ensures
            r@ == Map::<(Seq<char>, usize), SentAngleJumpState>::empty(),
    {
        AngleMonitor { states: Table::new() }
    }

    fn state(&self, key: &(String, usize)) -> (r: SentAngleJumpState)
        ensures
            r == angle_state(self@, (key.0@, key.1)),
    {
        match self.states.get(key) {
            Some(state) => *state,
            None => SentAngleJumpState {
                last_value: None,
                last_delta: Real { bits: 0 },
                alert_count: 0,
                active: false,
            },
        }
    }

    /// Takes in an angle whose distance from the one before is known.
    pub fn jumped(
        &mut self,
        device_id: &str,
        sensor_id: usize,
        value: Real,
        delta: Real,
        red: Real,
    ) -> (r: Option<AngleAlarm>)
        ensures
            ({
                let key = (device_id@, sensor_id);
                let (next, alarm) = angle_step(
                    angle_state(old(self)@, key),
                    sensor_id,
                    value,
                    delta,
                    red,
                );
                r == alarm && final(self)@ == old(self)@.insert(key, next)
            }),
    {
        let key = (text::owned(device_id), sensor_id);
        let previous: SentAngleJumpState = self.state(&key);
        let active = delta.ge(red);
        let mut alert_count: u64 = previous.alert_count;
        let alarm = if active != previous.active {
            if active && alert_count < u64::MAX {
                alert_count = alert_count + 1;
            }
            Some(AngleAlarm { sensor_id, delta, cleared: !active })
        } else {
            None
        };
        self.states.insert(
            key,
            SentAngleJumpState { last_value: Some(value), last_delta: delta, alert_count, active },
        );
        alarm
    }

    /// Takes in an angle. `distance` tells how far an angle lies from the one before, the
    /// short way round; the first angle of a sensor jumps nowhere.
    pub fn evaluate_sent_angle_jump<F: Fn(Real, Real) -> Real>(
        &mut self,
        device_id: &str,
        sensor_id: usize,
        value: Real,
        red: Real,
        distance: F,
    ) -> (r: Option<AngleAlarm>)
        requires
            forall|a: Real, b: Real| #[trigger] call_requires(distance, (a, b)),
        ensures
            ({
                let key = (device_id@, sensor_id);
                let state = angle_state(old(self)@, key);
                match state.last_value {
                    None => {
                        &&& r is None
                        &&& final(self)@ == old(self)@.insert(
                            key,
                            SentAngleJumpState { last_value: Some(value), ..state },
                        )
                    },
                    Some(last) => exists|delta: Real|
                        {
                            let (next, alarm) = angle_step(state, sensor_id, value, delta, red);
                            &&& #[trigger] call_ensures(distance, (value, last), delta)
                            &&& r == alarm
                            &&& final(self)@ == old(self)@.insert(key, next)
                        },
                }
            }),
    {
        let key = (text::owned(device_id), sensor_id);
        let previous: SentAngleJumpState = self.state(&key);
        match previous.last_value {
            None => {
                self.states.insert(
                    key,
                    SentAngleJumpState {
                        last_value: Some(value),
                        last_delta: previous.last_delta,
                        alert_count: previous.alert_count,
                        active: previous.active,
                    },
                );
                None
            },
            Some(last) => {
                let delta: Real = distance(value, last);
                self.jumped(device_id, sensor_id, value, delta, red)
            },
        }
    }

    /// The state of a sensor, of all devices that have it; one that has jumped before the
    /// others.
    pub fn state_for_sensor(&self, sensor_id: usize) -> (r: SentAngleJumpState)
        ensures
            if exists|key: (Seq<char>, usize)| #[trigger]
                self@.contains_key(key) && key.1 == sensor_id {
                &&& exists|key: (Seq<char>, usize)| #[trigger]
                    self@.contains_key(key) && key.1 == sensor_id && self@[key] == r
                &&& forall|key: (Seq<char>, usize)| #[trigger]
                    self@.contains_key(key) && key.1 == sensor_id && self@[key].active ==> r.active
            } else {
                r == no_angle()
            },
    {
        let rows: &Vec<((String, usize), SentAngleJumpState)> = self.states.rows();
        let mut found: Option<SentAngleJumpState> = None;
        for i in 0..rows.len()
            invariant
                self@ == crate::table::row_map(rows@),
                crate::table::distinct(rows@),
                match found {
                    Some(state) => {
                        &&& exists|j: int|
                            0 <= j < i && (#[trigger] rows@[j]).0.1 == sensor_id && rows@[j].1
                                == state
                        &&& forall|j: int|
                            0 <= j < i && (#[trigger] rows@[j]).0.1 == sensor_id
                                && rows@[j].1.active ==> state.active
                    },
                    None => forall|j: int| 0 <= j < i ==> (#[trigger] rows@[j]).0.1 != sensor_id,
                },
        {
            if rows[i].0.1 == sensor_id {
                let state: SentAngleJumpState = rows[i].1;
                let higher = match found {
                    Some(known) => state.active || !known.active,
                    None => true,
                };
                proof {
                    assert(rows@[i as int].0.1 == sensor_id && rows@[i as int].1 == state);
                }
                if higher {
                    found = Some(state);
                }
            }
        }
        proof {
            assert forall|key: (Seq<char>, usize)| #[trigger]
                self@.contains_key(key) implies exists|j: int|
                0 <= j < rows@.len() && (#[trigger] rows@[j]).0.1 == key.1 && rows@[j].1
                    == self@[key] by {
                lemma_state_row(rows@, key);
            }
            if found is Some {
                let j = choose|j: int|
                    0 <= j < rows@.len() && (#[trigger] rows@[j]).0.1 == sensor_id && rows@[j].1
                        == found->0;
                crate::table::lemma_row(rows@, j);
                let key = (rows@[j].0.0@, rows@[j].0.1);
                assert(self@.contains_key(key) && self@[key] == found->0);
            }
        }
        match found {
            Some(state) => state,
            None => SentAngleJumpState {
                last_value: None,
                last_delta: Real { bits: 0 },
                alert_count: 0,
                active: false,
            },
        }
    }
}

/// The name of an angle.
pub open spec fn angle_name(sensor_id: usize) -> Seq<char> {
    if sensor_id == 0 {
        "T1 angle"@
    } else if sensor_id == 2 {
        "T2 angle"@
    } else if sensor_id == 4 {
        "S angle"@
    } else {
        "SENT angle"@
    }
}

pub fn sent_angle_label(sensor_id: usize) -> (r: &'static str)
    ensures
        r@ == angle_name(sensor_id),
{
    match sensor_id {
        0 => "T1 angle",
        2 => "T2 angle",
        4 => "S angle",
        _ => "SENT angle",
    }
}

/// What the alarm about an angle that jumps is called.
pub open spec fn angle_alarm_id(sensor_id: usize) -> Seq<char> {
    "sent_angle_jump_"@ + if sensor_id == 0 {
        "t1"@
    } else if sensor_id == 2 {
        "t2"@
    } else if sensor_id == 4 {
        "s"@
    } else {
        "unknown"@
    }
}

/// The alarm about an angle that jumps. The jump and the threshold come in their notation.
pub fn angle_event(
    device_id: &str,
    alarm: AngleAlarm,
    delta: &str,
    red: &str,
    raised_at: SystemTime,
) -> (r: AlarmEvent)
    ensures
        r@.alarm_id == angle_alarm_id(alarm.sensor_id),
        r@.level == AlarmLevel::Critical,
        r@ == (AlarmData {
            device_id: device_id@,
            alarm_id: "sent_angle_jump_"@ + if alarm.sensor_id == 0 {
                "t1"@
            } else if alarm.sensor_id == 2 {
                "t2"@
            } else if alarm.sensor_id == 4 {
                "s"@
            } else {
                "unknown"@
            },
            level: AlarmLevel::Critical,
            message: angle_name(alarm.sensor_id) + " jump="@ + delta@ + ", red="@ + red@,
            raised_at,
            cleared: alarm.cleared,
        }),
{
    let mut alarm_id = text::owned("sent_angle_jump_");
    text::push_text(
        &mut alarm_id,
        match alarm.sensor_id {
            0 => "t1",
            2 => "t2",
            4 => "s",
            _ => "unknown",
        },
    );
    let mut message = text::owned(sent_angle_label(alarm.sensor_id));
    text::push_text(&mut message, " jump=");
    text::push_text(&mut message, delta);
    text::push_text(&mut message, ", red=");
    text::push_text(&mut message, red);
    AlarmEvent {
        device_id: text::owned(device_id),
        alarm_id,
        level: AlarmLevel::Critical,
        message,
        raised_at,
        cleared: alarm.cleared,
    }
}

// ---- what holds of all limits and values ----

/// A typed limit is taken without the blanks around it, where it is a number or nothing; any
/// other is refused, and the message says what was typed. Limits are taken together or not at
/// all.
pub proof fn law_typed_limits(inputs: Seq<Seq<char>>, i: int)
    requires
        0 <= i < inputs.len(),
    ensures
        all_validated(inputs) matches Ok(taken) ==> taken.len() == inputs.len() && taken[i]
            == text::trimmed(inputs[i]) && (taken[i].len() == 0 || text::is_float(taken[i])),
        text::trimmed(inputs[i]).len() > 0 && !text::is_float(text::trimmed(inputs[i]))
            ==> all_validated(inputs) is Err,
        validated(inputs[i]) matches Err(message) ==> message == "无效阈值: "@ + text::trimmed(
            inputs[i],
        ),
        validated(inputs[i]) is Ok <==> text::trimmed(inputs[i]).len() == 0 || text::is_float(
            text::trimmed(inputs[i]),
        ),
    decreases inputs.len(),
{
    let front = inputs.drop_last();
    if i < front.len() {
        assert(front[i] == inputs[i]);
        law_typed_limits(front, i);
    } else if front.len() > 0 {
        law_typed_limits(front, 0);
    }
}

/// The six limits stand in the order x, y, z, the high one before the low one.
pub proof fn law_limit_list(t: LimitTexts)
    ensures
        limit_list(t).len() == 6,
        limit_list(t)[0] == t.x_high@,
        limit_list(t)[1] == t.x_low@,
        limit_list(t)[2] == t.y_high@,
        limit_list(t)[3] == t.y_low@,
        limit_list(t)[4] == t.z_high@,
        limit_list(t)[5] == t.z_low@,
{
}

/// A high limit raises its alarm at the limit and above, and clears it below; a low limit
/// raises at the limit and below, and clears above. What is not a number does neither. A limit
/// that is taken away clears what it had raised. The alarm tells the sensor, the side, the
/// limit and the value.
pub proof fn law_limit_is_kept(
    sensor_id: usize,
    bound: Bound,
    active: bool,
    limit: Option<Real>,
    value: Real,
)
    ensures
        ({
            let (after, alarm) = limit_step(sensor_id, bound, active, limit, value);
            &&& alarm matches Some(a) ==> a.sensor_id == sensor_id && a.bound == bound && a.value
                == value && a.cleared == !after && (limit is Some ==> a.threshold == limit->0) && (
            limit is None ==> a.threshold == value)
            &&& limit is None ==> !after
            &&& limit matches Some(t) ==> {
                &&& !active && bound == Bound::High ==> (after <==> value.at_least(t))
                &&& active && bound == Bound::High ==> (!after <==> t.above(value))
                &&& !active && bound == Bound::Low ==> (after <==> t.at_least(value))
                &&& active && bound == Bound::Low ==> (!after <==> value.above(t))
            }
        }),
{
}

/// What the two sides of a sensor give is told in order, the first side first.
pub proof fn law_both_sides(first: Option<LimitAlarm>, second: Option<LimitAlarm>)
    ensures
        both(first, second).len() == (if first is Some {
            1int
        } else {
            0
        }) + (if second is Some {
            1int
        } else {
            0
        }),
        first matches Some(alarm) ==> both(first, second)[0] == alarm,
        second matches Some(alarm) ==> both(first, second).last() == alarm,
{
}

/// The sensors 0, 1 and 2 are the axes x, y and z, and the sides are h and l.
pub proof fn law_limit_words(sensor_id: usize)
    ensures
        axis_text(0) == "x"@,
        axis_text(1) == "y"@,
        axis_text(2) == "z"@,
        sensor_id > 2 ==> axis_text(sensor_id) == ""@,
        axis_text(sensor_id) == crate::collector::feed::axis_of(
            crate::bus::TelemetrySourceKind::CanAxis,
            sensor_id,
        ),
        bound_text(Bound::High) == "h"@,
        bound_text(Bound::Low) == "l"@,
{
}

/// A sensor of which nothing has come has raised nothing, has no last value and has not
/// jumped.
pub proof fn law_unknown_sensor(
    limits: Map<(Seq<char>, usize), CanAxisAlarmState>,
    torques: Map<(Seq<char>, usize), SentTorqueJumpState>,
    angles: Map<(Seq<char>, usize), SentAngleJumpState>,
    key: (Seq<char>, usize),
)
    ensures
        !limits.contains_key(key) ==> !limit_state(limits, key).high_active && !limit_state(
            limits,
            key,
        ).low_active,
        limits.contains_key(key) ==> limit_state(limits, key) == limits[key],
        !torques.contains_key(key) ==> torque_state(torques, key).last_value is None
            && torque_state(torques, key).alert_count == 0 && torque_state(torques, key).level
            == SentJumpLevel::Normal && torque_state(torques, key).last_delta.bits == 0,
        torques.contains_key(key) ==> torque_state(torques, key) == torques[key],
        !angles.contains_key(key) ==> angle_state(angles, key).last_value is None && angle_state(
            angles,
            key,
        ).alert_count == 0 && !angle_state(angles, key).active && angle_state(
            angles,
            key,
        ).last_delta.bits == 0,
        angles.contains_key(key) ==> angle_state(angles, key) == angles[key],
{
}

/// A jump is purple from the purple threshold on, critical from the red one on, a warning above
/// the warning one, and normal otherwise; the highest level that applies counts.
pub proof fn law_jump_levels(t: JumpThresholds, delta: Real)
    ensures
        level_of(t, delta) == SentJumpLevel::Purple <==> delta.at_least(t.purple),
        level_of(t, delta) == SentJumpLevel::Critical <==> delta.at_least(t.red)
            && !delta.at_least(t.purple),
        level_of(t, delta) == SentJumpLevel::Warning <==> delta.above(t.warn) && !delta.at_least(
            t.red,
        ) && !delta.at_least(t.purple),
        level_of(t, delta) == SentJumpLevel::Normal <==> !delta.above(t.warn) && !delta.at_least(
            t.red,
        ) && !delta.at_least(t.purple),
        SentJumpLevel::Normal.rank() < SentJumpLevel::Warning.rank()
            < SentJumpLevel::Critical.rank() < SentJumpLevel::Purple.rank(),
{
}

/// The thresholds count without their signs; where none is given they are 0.2, 0.3 and 0.4, by
/// their bits, and 1 for an angle. A lower threshold above a higher one raises the higher one
/// to it.
pub proof fn law_jump_thresholds(warn: Real, red: Real, purple: Real)
    ensures
        thresholds_of(None, None, None).warn.bits == 0x3FC9_9999_9999_999A,
        thresholds_of(None, None, None).red.bits == 0x3FD3_3333_3333_3333,
        thresholds_of(None, None, None).purple.bits == 0x3FD9_9999_9999_999A,
        DEFAULT_ANGLE_RED_BITS == 0x3FF0_0000_0000_0000,
        thresholds_of(Some(warn), Some(red), Some(purple)).warn == warn.absolute(),
        red.absolute().at_least(warn.absolute()) ==> thresholds_of(
            Some(warn),
            Some(red),
            Some(purple),
        ).red == red.absolute(),
        warn.absolute().above(red.absolute()) ==> thresholds_of(
            Some(warn),
            Some(red),
            Some(purple),
        ).red == warn.absolute(),
        red.absolute().at_least(warn.absolute()) && purple.absolute().at_least(red.absolute())
            ==> thresholds_of(Some(warn), Some(red), Some(purple)).purple == purple.absolute(),
        red.absolute().at_least(warn.absolute()) && red.absolute().above(purple.absolute())
            ==> thresholds_of(Some(warn), Some(red), Some(purple)).purple == red.absolute(),
{
}

/// Typed thresholds are refused where one cannot be read, where the warning one is above the
/// red one, or the red one above the purple one; otherwise they count as typed, without their
/// signs.
pub proof fn law_typed_thresholds(
    inputs: Seq<Seq<char>>,
    warn: Real,
    red: Real,
    purple: Real,
)
    ensures
        ({
            let r = typed_thresholds(inputs, Some(warn), Some(red), Some(purple));
            let (w, e, p) = (warn.absolute(), red.absolute(), purple.absolute());
            &&& r is Ok <==> all_validated(inputs) is Ok && !w.above(e) && !e.above(p)
            &&& r matches Ok(t) ==> t.warn == w && t.red == e && t.purple == p
            &&& all_validated(inputs) matches Err(message) ==> r == Err::<
                JumpThresholds,
                Seq<char>,
            >(message)
            &&& all_validated(inputs) is Ok && w.above(e) ==> r == Err::<JumpThresholds, Seq<char>>(
                "red threshold must be >= warning threshold"@,
            )
            &&& all_validated(inputs) is Ok && !w.above(e) && e.above(p) ==> r == Err::<
                JumpThresholds,
                Seq<char>,
            >("purple threshold must be >= red threshold"@)
        }),
{
}

/// The last value and the last jump are kept. A change of level clears the alarm of the level
/// before, unless that was normal, and raises one of the new level, unless that is normal, and
/// only then counts one alert more. Each alarm tells the sensor and the jump.
pub proof fn law_torque_step(
    previous: SentTorqueJumpState,
    sensor_id: usize,
    value: Real,
    delta: Real,
    level: SentJumpLevel,
    i: int,
)
    ensures
        ({
            let (next, alarms) = torque_step(previous, sensor_id, value, delta, level);
            let normal = SentJumpLevel::Normal;
            &&& next.last_value == Some(value)
            &&& next.last_delta == delta
            &&& next.level == level
            &&& level != previous.level && level != normal && previous.alert_count < u64::MAX
                ==> next.alert_count == previous.alert_count + 1
            &&& level == previous.level || level == normal ==> next.alert_count
                == previous.alert_count
            &&& alarms.len() == if level == previous.level {
                0int
            } else if level == normal || previous.level == normal {
                1
            } else {
                2
            }
            &&& 0 <= i < alarms.len() ==> alarms[i].sensor_id == sensor_id && alarms[i].delta
                == delta && alarms[i].level == if alarms[i].cleared {
                previous.level
            } else {
                level
            }
            &&& alarms.len() == 2 ==> alarms[0].cleared && !alarms[1].cleared
            &&& alarms.len() == 1 ==> (alarms[0].cleared <==> level == normal)
        }),
{
}

/// An angle has jumped where the jump reaches the red threshold. The alarm is raised where it
/// has and had not before, cleared the other way round, and an alert is counted only where it
/// is raised.
pub proof fn law_angle_step(
    previous: SentAngleJumpState,
    sensor_id: usize,
    value: Real,
    delta: Real,
    red: Real,
)
    ensures
        ({
            let (next, alarm) = angle_step(previous, sensor_id, value, delta, red);
            &&& next.active <==> delta.at_least(red)
            &&& next.last_value == Some(value)
            &&& next.last_delta == delta
            &&& alarm is Some <==> next.active != previous.active
            &&& alarm matches Some(a) ==> a.sensor_id == sensor_id && a.delta == delta && a.cleared
                == !next.active
            &&& next.active && !previous.active && previous.alert_count < u64::MAX
                ==> next.alert_count == previous.alert_count + 1
            &&& !next.active || previous.active ==> next.alert_count == previous.alert_count
        }),
{
}

/// The sensors are called by what they measure, as the series of the recorded samples are.
pub proof fn law_jump_names(sensor_id: usize)
    ensures
        torque_name(1) == "T1 torque"@,
        torque_name(3) == "T2 torque"@,
        sensor_id != 1 && sensor_id != 3 ==> torque_name(sensor_id) == "SENT torque"@,
        angle_name(0) == "T1 angle"@,
        angle_name(2) == "T2 angle"@,
        angle_name(4) == "S angle"@,
        sensor_id != 0 && sensor_id != 2 && sensor_id != 4 ==> angle_name(sensor_id)
            == "SENT angle"@,
{
}

/// The alarms about jumps are called by what jumps, and are as serious as the jump.
pub proof fn law_jump_alarms(sensor_id: usize)
    ensures
        torque_alarm_id(1) == "sent_torque_jump_"@ + "t1"@,
        torque_alarm_id(3) == "sent_torque_jump_"@ + "t2"@,
        angle_alarm_id(0) == "sent_angle_jump_"@ + "t1"@,
        angle_alarm_id(2) == "sent_angle_jump_"@ + "t2"@,
        angle_alarm_id(4) == "sent_angle_jump_"@ + "s"@,
        sensor_id != 0 && sensor_id != 2 && sensor_id != 4 ==> angle_alarm_id(sensor_id)
            == "sent_angle_jump_"@ + "unknown"@,
        jump_alarm_level(SentJumpLevel::Warning) == AlarmLevel::Warning,
        jump_alarm_level(SentJumpLevel::Critical) == AlarmLevel::Critical,
        jump_alarm_level(SentJumpLevel::Purple) == AlarmLevel::Purple,
{
}

} // verus!
