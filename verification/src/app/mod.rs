//! Orchestration of several devices, and the services on top.
use dashmap::DashMap;
use std::hash::RandomState;
use vstd::prelude::*;

use crate::bus;
use crate::bus::{AppEvent, EventData};
use crate::session::{SessionConfig, SessionError, SessionErrorData};
use crate::text;

pub mod alarm_service;

pub use crate::app::alarm_service::{AlarmRule, AlarmService};

verus! {

/// `dashmap::DashMap`, a hash map in shards.
#[verifier::external_type_specification]
#[verifier::external_body]
#[verifier::reject_recursive_types(K)]
#[verifier::reject_recursive_types(V)]
#[verifier::reject_recursive_types(S)]
pub struct ExDashMap<K, V, S>(DashMap<K, V, S>);

/// The handles that a map of sessions holds, by device.
pub uninterp spec fn session_handles(sessions: DashMap<String, u64, RandomState>) -> Map<Seq<char>, u64>;

/// No device has a session.
pub open spec fn no_handles() -> Map<Seq<char>, u64> {
    Map::empty()
}

/// `DashMap::new`: the map is empty.
#[verifier::external_body]
fn new_sessions() -> (r: DashMap<String, u64, RandomState>)
    ensures
        session_handles(r) == no_handles(),
{
    DashMap::new()
}

/// `DashMap::insert` sets the value of a key and gives the value that the key had before.
#[verifier::external_body]
fn insert_session(
    sessions: &mut DashMap<String, u64, RandomState>,
    device_id: String,
    handle: u64,
) -> (r: Option<u64>)
    ensures
        session_handles(*final(sessions)) == session_handles(*old(sessions)).insert(
            device_id@,
            handle,
        ),
        r == if session_handles(*old(sessions)).contains_key(device_id@) {
            Some(session_handles(*old(sessions))[device_id@])
        } else {
            None
        },
{
    sessions.insert(device_id, handle)
}

/// `DashMap::get` finds the value of a key.
#[verifier::external_body]
fn get_session(sessions: &DashMap<String, u64, RandomState>, device_id: &str) -> (r: Option<u64>)
    ensures
        r == if session_handles(*sessions).contains_key(device_id@) {
            Some(session_handles(*sessions)[device_id@])
        } else {
            None
        },
{
    sessions.get(device_id).map(|entry| *entry.value())
}

/// `DashMap::remove` takes a key and its value out.
#[verifier::external_body]
fn remove_session(
    sessions: &mut DashMap<String, u64, RandomState>,
    device_id: &str,
) -> (r: Option<u64>)
    ensures
        session_handles(*final(sessions)) == session_handles(*old(sessions)).remove(device_id@),
        r == if session_handles(*old(sessions)).contains_key(device_id@) {
            Some(session_handles(*old(sessions))[device_id@])
        } else {
            None
        },
{
    sessions.remove(device_id).map(|entry| entry.1)
}

/// The sessions of all devices. A handle stands for a session; whoever drives the sessions
/// gives it out.
pub struct DeviceManager {
    sessions: DashMap<String, u64, RandomState>,
}

/// How a device was started.
pub struct Started {
    /// How its session is to behave.
    pub config: SessionConfig,
    /// The session that the device had before; nobody reaches it any more.
    pub displaced: Option<u64>,
    pub event: AppEvent,
}

/// The payload limit of sessions that are started by hand.
pub const DEVICE_MAX_PAYLOAD: usize = 4096;

impl View for DeviceManager {
    type V = Map<Seq<char>, u64>;

    closed spec fn view(&self) -> Map<Seq<char>, u64> {
        session_handles(self.sessions)
    }
}

/// The handle of a device, if it has a session.
pub open spec fn handle_of(sessions: Map<Seq<char>, u64>, device_id: Seq<char>) -> Option<u64> {
    if sessions.contains_key(device_id) {
        Some(sessions[device_id])
    } else {
        None
    }
}

impl DeviceManager {
    pub fn new() -> (r: Self)
        ensures
            r@ == Map::<Seq<char>, u64>::empty(),
    {
        DeviceManager { sessions: new_sessions() }
    }

    /// Starts a device on a TCP connection that is kept up from this side.
    pub fn start_tcp_device(&mut self, device_id: String, handle: u64) -> (r: Started)
        ensures
            final(self)@ == old(self)@.insert(device_id@, handle),
            r.displaced == handle_of(old(self)@, device_id@),
            r.config == SessionConfig::usual(true),
            r.config.in_range(),
            r.event@ == EventData::System("device started"@),
    {
        let displaced = insert_session(&mut self.sessions, device_id, handle);
        Started {
            config: SessionConfig::default(),
            displaced,
            event: bus::status(text::owned("device started")),
        }
    }

    /// Starts a device on a serial port: no heartbeat, no reconnecting.
    pub fn start_serial_device(&mut self, device_id: String, handle: u64) -> (r: Started)
        ensures
            final(self)@ == old(self)@.insert(device_id@, handle),
            r.displaced == handle_of(old(self)@, device_id@),
            r.config == SessionConfig::usual(false),
            r.config.in_range(),
            r.event@ == EventData::System("serial device started"@),
    {
        let displaced = insert_session(&mut self.sessions, device_id, handle);
        Started {
            config: SessionConfig::passive(),
            displaced,
            event: bus::status(text::owned("serial device started")),
        }
    }

    /// The session that a command to a device goes to; a device without one is closed.
    pub fn call(&self, device_id: &str) -> (r: Result<u64, SessionError>)
        ensures
            match handle_of(self@, device_id@) {
                Some(handle) => r == Ok::<u64, SessionError>(handle),
                None => r is Err && r->Err_0@ == SessionErrorData::Closed,
            },
    {
        match get_session(&self.sessions, device_id) {
            Some(handle) => Ok(handle),
            None => Err(SessionError::Closed),
        }
    }

    /// Forgets a device; gives the session that is to be stopped.
    pub fn stop_device(&mut self, device_id: &str) -> (r: Option<u64>)
        ensures
            final(self)@ == old(self)@.remove(device_id@),
            r == handle_of(old(self)@, device_id@),
    {
        remove_session(&mut self.sessions, device_id)
    }
}

/// One way in for commands to all devices.
pub struct CommandService {
    manager: DeviceManager,
}

impl View for CommandService {
    type V = Map<Seq<char>, u64>;

    closed spec fn view(&self) -> Map<Seq<char>, u64> {
        self.manager@
    }
}

impl CommandService {
    pub fn new(manager: DeviceManager) -> (r: Self)
        ensures
            r@ == manager@,
    {
        CommandService { manager }
    }

    pub fn call(&self, device_id: &str) -> (r: Result<u64, SessionError>)
        ensures
            match handle_of(self@, device_id@) {
                Some(handle) => r == Ok::<u64, SessionError>(handle),
                None => r is Err && r->Err_0@ == SessionErrorData::Closed,
            },
    {
        self.manager.call(device_id)
    }
}

/// A device that was started is reached by its own handle, and no other device's handle changes.
pub proof fn law_handles_are_apart(
    sessions: Map<Seq<char>, u64>,
    device_id: Seq<char>,
    handle: u64,
    other: Seq<char>,
)
    requires
        other != device_id,
    ensures
        handle_of(sessions.insert(device_id, handle), device_id) == Some(handle),
        handle_of(sessions.insert(device_id, handle), other) == handle_of(sessions, other),
        handle_of(sessions.remove(device_id), device_id) is None,
        handle_of(no_handles(), device_id) is None,
{
}

} // verus!
