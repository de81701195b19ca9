//! What the layers talk about: commands, responses, connection states, snapshots and alarms.
use std::time::SystemTime;
use vstd::prelude::*;
use vstd::slice::slice_to_vec;

use crate::number::NumberData;
use crate::telemetry::Telemetry;
use crate::text;
use crate::time::Duration;

verus! {

pub type DeviceId = String;

pub type RequestId = u64;

#[derive(Clone, Copy, Debug, PartialEq, Eq, Structural)]
pub struct RetryPolicy {
    pub max_attempts: u32,
    pub base_delay: Duration,
}

impl Default for RetryPolicy {
    fn default() -> (r: Self)
        ensures
            r.max_attempts == 1,
            r.base_delay.nanos == 100_000_000,
    {
        RetryPolicy { max_attempts: 1, base_delay: Duration::from_millis(100) }
    }
}

#[derive(Clone, Copy, Debug, PartialEq, Eq, Structural)]
pub enum CommandKind {
    ReadParam,
    WriteParam,
    Control,
    Custom(u8),
}

impl CommandKind {
    /// The frame kind that carries the command.
    pub open spec fn frame_kind(self) -> u8 {
        match self {
            CommandKind::ReadParam => 0x01,
            CommandKind::WriteParam => 0x02,
            CommandKind::Control => 0x03,
            CommandKind::Custom(v) => v,
        }
    }

    pub fn code(&self) -> (r: u8)
        ensures
            r == self.frame_kind(),
    {
        match self {
            CommandKind::ReadParam => 0x01,
            CommandKind::WriteParam => 0x02,
            CommandKind::Control => 0x03,
            CommandKind::Custom(v) => *v,
        }
    }
}

/// A command to a device.
#[derive(Debug)]
pub struct Command {
    pub request_id: RequestId,
    pub kind: CommandKind,
    pub payload: Vec<u8>,
    pub timeout: Duration,
    pub retry: RetryPolicy,
    pub idempotent: bool,
}

/// What a command says.
#[verifier::ext_equal]
pub ghost struct CommandData {
    pub request_id: RequestId,
    pub kind: CommandKind,
    pub payload: Seq<u8>,
    pub timeout: Duration,
    pub retry: RetryPolicy,
    pub idempotent: bool,
}

impl View for Command {
    type V = CommandData;

    open spec fn view(&self) -> CommandData {
        CommandData {
            request_id: self.request_id,
            kind: self.kind,
            payload: self.payload@,
            timeout: self.timeout,
            retry: self.retry,
            idempotent: self.idempotent,
        }
    }
}

impl Clone for Command {
    fn clone(&self) -> (r: Self)
        ensures
            r@ == self@,
    {
        Command {
            request_id: self.request_id,
            kind: self.kind,
            payload: slice_to_vec(self.payload.as_slice()),
            timeout: self.timeout,
            retry: self.retry,
            idempotent: self.idempotent,
        }
    }
}

/// What a device answers to a command.
#[derive(Debug)]
pub struct Response {
    pub request_id: RequestId,
    pub code: u8,
    pub payload: Vec<u8>,
    pub ts: SystemTime,
}

/// What a response says.
#[verifier::ext_equal]
pub ghost struct ResponseData {
    pub request_id: RequestId,
    pub code: u8,
    pub payload: Seq<u8>,
    pub ts: SystemTime,
}

impl View for Response {
    type V = ResponseData;

    open spec fn view(&self) -> ResponseData {
        ResponseData {
            request_id: self.request_id,
            code: self.code,
            payload: self.payload@,
            ts: self.ts,
        }
    }
}

impl Clone for Response {
    fn clone(&self) -> (r: Self)
        ensures
            r@ == self@,
    {
        Response {
            request_id: self.request_id,
            code: self.code,
            payload: slice_to_vec(self.payload.as_slice()),
            ts: self.ts,
        }
    }
}

#[derive(Clone, Copy, Debug, PartialEq, Eq, Structural)]
pub enum ConnState {
    Disconnected,
    Connecting,
    Handshaking,
    Ready,
    Degraded,
    Reconnecting,
}

impl Default for ConnState {
    fn default() -> (r: Self)
        ensures
            r == ConnState::Disconnected,
    {
        ConnState::Disconnected
    }
}

/// The latest that is known of a device.
#[derive(Debug)]
pub struct DeviceSnapshot {
    pub device_id: DeviceId,
    pub conn_state: ConnState,
    pub last_seen: Option<SystemTime>,
    pub telemetry: Telemetry,
    pub alarms_active: Vec<String>,
}

/// What a snapshot says.
#[verifier::ext_equal]
pub ghost struct SnapshotData {
    pub device_id: Seq<char>,
    pub conn_state: ConnState,
    pub last_seen: Option<SystemTime>,
    pub telemetry: Map<Seq<char>, NumberData>,
    pub alarms_active: Seq<Seq<char>>,
}

impl View for DeviceSnapshot {
    type V = SnapshotData;

    open spec fn view(&self) -> SnapshotData {
        SnapshotData {
            device_id: self.device_id@,
            conn_state: self.conn_state,
            last_seen: self.last_seen,
            telemetry: self.telemetry@,
            alarms_active: self.alarms_active@.map_values(|s: String| s@),
        }
    }
}

/// The snapshot of a device of which nothing is known but its name.
pub open spec fn fresh_snapshot(device_id: Seq<char>) -> SnapshotData {
    SnapshotData {
        device_id,
        conn_state: ConnState::Disconnected,
        last_seen: None,
        telemetry: Map::empty(),
        alarms_active: Seq::empty(),
    }
}

impl DeviceSnapshot {
    /// The snapshot of a device of which nothing is known but its name.
    pub fn fresh(device_id: &str) -> (r: Self)
        ensures
            r@ == fresh_snapshot(device_id@),
    {
        let r = DeviceSnapshot {
            device_id: text::owned(device_id),
            conn_state: ConnState::Disconnected,
            last_seen: None,
            telemetry: Telemetry::new(),
            alarms_active: Vec::new(),
        };
        proof {
            assert(r@ =~= fresh_snapshot(device_id@));
        }
        r
    }
}

impl Default for DeviceSnapshot {
    fn default() -> (r: Self)
        ensures
            r@ == fresh_snapshot(Seq::empty()),
    {
        let name = String::new();
        proof {
            assert(name@ =~= Seq::<char>::empty());
        }
        DeviceSnapshot::fresh(name.as_str())
    }
}

impl Clone for DeviceSnapshot {
    fn clone(&self) -> (r: Self)
        ensures
            r@ == self@,
    {
        let mut alarms: Vec<String> = Vec::new();
        for i in 0..self.alarms_active.len()
            invariant
                alarms@.len() == i,
                forall|k: int| 0 <= k < i ==> (#[trigger] alarms@[k])@ == self.alarms_active@[k]@,
        {
            alarms.push(text::owned(self.alarms_active[i].as_str()));
        }
        let r = DeviceSnapshot {
            device_id: text::owned(self.device_id.as_str()),
            conn_state: self.conn_state,
            last_seen: self.last_seen,
            telemetry: self.telemetry.clone(),
            alarms_active: alarms,
        };
        proof {
            assert(r@.alarms_active =~= self@.alarms_active);
        }
        r
    }
}

#[derive(Clone, Copy, Debug, PartialEq, Eq, Structural)]
pub enum AlarmLevel {
    Info,
    Warning,
    Critical,
    Purple,
}

/// An alarm, raised or cleared.
#[derive(Debug)]
pub struct AlarmEvent {
    pub device_id: DeviceId,
    pub alarm_id: String,
    pub level: AlarmLevel,
    pub message: String,
    pub raised_at: SystemTime,
    pub cleared: bool,
}

/// What an alarm event says.
#[verifier::ext_equal]
pub ghost struct AlarmData {
    pub device_id: Seq<char>,
    pub alarm_id: Seq<char>,
    pub level: AlarmLevel,
    pub message: Seq<char>,
    pub raised_at: SystemTime,
    pub cleared: bool,
}

impl View for AlarmEvent {
    type V = AlarmData;

    open spec fn view(&self) -> AlarmData {
        AlarmData {
            device_id: self.device_id@,
            alarm_id: self.alarm_id@,
            level: self.level,
            message: self.message@,
            raised_at: self.raised_at,
            cleared: self.cleared,
        }
    }
}

impl Clone for AlarmEvent {
    fn clone(&self) -> (r: Self)
        ensures
            r@ == self@,
    {
        AlarmEvent {
            device_id: text::owned(self.device_id.as_str()),
            alarm_id: text::owned(self.alarm_id.as_str()),
            level: self.level,
            message: text::owned(self.message.as_str()),
            raised_at: self.raised_at,
            cleared: self.cleared,
        }
    }
}

/// Of a device of which nothing is known but its name: it is disconnected, was never seen, and
/// has no values and no alarms.
pub proof fn law_fresh_snapshot(device_id: Seq<char>, name: Seq<char>)
    ensures
        fresh_snapshot(device_id).device_id == device_id,
        fresh_snapshot(device_id).conn_state == ConnState::Disconnected,
        fresh_snapshot(device_id).last_seen is None,
        !fresh_snapshot(device_id).telemetry.contains_key(name),
        fresh_snapshot(device_id).alarms_active.len() == 0,
{
}

/// The kinds of frames that commands go out in.
pub proof fn law_frame_kinds(code: u8)
    ensures
        CommandKind::ReadParam.frame_kind() == 0x01,
        CommandKind::WriteParam.frame_kind() == 0x02,
        CommandKind::Control.frame_kind() == 0x03,
        CommandKind::Custom(code).frame_kind() == code,
{
}

} // verus!
