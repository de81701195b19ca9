use bytes::BytesMut;
use demo2::bus::{AppEvent, DeviceEvent, SampleTime, Store, TelemetrySourceKind};
use demo2::domain::{Command, CommandKind, ConnState, DeviceSnapshot, RetryPolicy};
use demo2::number::Number;
use demo2::protocol::{Frame, FrameCodec, SimpleFrameCodec};
use demo2::session::{
    AfterConnection, CallOutcome, DeviceSession, Expiry, SessionConfig, SessionError,
};
use demo2::time::{Duration, Instant};
use demo2::transport::TransportError;
use std::time::SystemTime;

const WALL: SystemTime = SystemTime::UNIX_EPOCH;

fn at(millis: u128) -> Instant {
    Instant { nanos: millis * 1_000_000 }
}

fn session(device_id: &str) -> DeviceSession<SimpleFrameCodec> {
    DeviceSession::new(device_id, SimpleFrameCodec::new(256), SessionConfig::default(), at(0))
}

fn command(request_id: u64, attempts: u32) -> Command {
    Command {
        request_id,
        kind: CommandKind::ReadParam,
        payload: vec![1, 2],
        timeout: Duration::from_millis(500),
        retry: RetryPolicy { max_attempts: attempts, base_delay: Duration::from_millis(100) },
        idempotent: true,
    }
}

fn encoded(request_id: u64, kind: u8, payload: &[u8]) -> Vec<u8> {
    let mut out = BytesMut::new();
    SimpleFrameCodec::new(256)
        .encode(&Frame { request_id, kind, payload: payload.to_vec() }, &mut out)
        .unwrap();
    out.to_vec()
}

fn changes(events: &[AppEvent]) -> Vec<(ConnState, ConnState)> {
    events
        .iter()
        .filter_map(|event| match event {
            AppEvent::Device(DeviceEvent::ConnStateChanged { from, to, .. }) => Some((*from, *to)),
            _ => None,
        })
        .collect()
}

#[test]
fn state_changes_join_up() {
    let mut s = session("tcp://a");
    let mut store = Store::new();
    let mut seen = changes(&s.connecting(&mut store, WALL));
    seen.extend(changes(&s.connected(&mut store, at(1), WALL)));
    assert_eq!(seen[0].0, ConnState::Disconnected);
    for pair in seen.windows(2) {
        assert_eq!(pair[0].1, pair[1].0);
    }
    assert_eq!(seen.last().unwrap().1, s.state());
    assert_eq!(store.snapshot("tcp://a").unwrap().conn_state, s.state());
    assert!(changes(&s.set_state(s.state(), &mut store, WALL)).is_empty());
}

#[test]
fn waits_double_up_to_the_limit() {
    let mut s = session("tcp://a");
    let mut store = Store::new();
    let mut waits = Vec::new();
    for _ in 0..7 {
        match s.disconnected(false, &mut store, WALL).1 {
            AfterConnection::Retry(wait) => waits.push(wait.nanos / 1_000_000),
            AfterConnection::Stop => panic!("the session should go on"),
        }
    }
    assert_eq!(waits, vec![200, 400, 800, 1600, 3200, 5000, 5000]);
}

#[test]
fn passive_sessions_stop() {
    let config = SessionConfig::passive();
    let mut s = DeviceSession::new("tcp://a", SimpleFrameCodec::new(16), config, at(0));
    let mut store = Store::new();
    assert!(s.begin_heartbeat().unwrap().is_none());
    assert!(matches!(s.disconnected(false, &mut store, WALL).1, AfterConnection::Stop));
}

#[test]
fn calls_are_answered_once() {
    let mut s = session("tcp://a");
    let mut store = Store::new();
    let bytes = s.begin_call(&command(9, 1)).unwrap();
    assert_eq!(bytes, encoded(9, 0x01, &[1, 2]));
    let outcome = s.finish_call(command(9, 1), 77, Ok(()), at(10));
    assert!(matches!(outcome, CallOutcome::Waiting { displaced: None }));
    let again = s.finish_call(command(9, 1), 78, Ok(()), at(10));
    assert!(matches!(again, CallOutcome::Waiting { displaced: Some(77) }));

    let mut reply = encoded(9, 0x01, b"ok");
    reply.extend(encoded(9, 0x01, b"ok"));
    let (events, end) = s.receive(&reply, &mut store, at(20), WALL);
    assert!(end.is_none());
    assert!(changes(&events).len() <= 1);
    let step = s.next_frame(&mut store, at(20), WALL).unwrap();
    let (ticket, response) = step.reply.unwrap();
    assert_eq!(ticket, 78);
    assert_eq!(response.request_id, 9);
    assert_eq!(response.payload, b"ok".to_vec());
    assert!(matches!(
        &step.events[0],
        AppEvent::Device(DeviceEvent::CommandResult { request_id: 9, ok: true, .. })
    ));
    let second = s.next_frame(&mut store, at(20), WALL).unwrap();
    assert!(second.reply.is_none());
    assert!(matches!(
        &second.events[0],
        AppEvent::Device(DeviceEvent::Log { level: "warn", msg, .. })
            if msg == "unsolicited frame kind=1"
    ));
    assert!(s.next_frame(&mut store, at(20), WALL).is_none());
}

#[test]
fn failed_writes_end_the_connection() {
    let mut s = session("tcp://a");
    let outcome = s.finish_call(command(1, 1), 5, Err(TransportError::NotConnected), at(0));
    match outcome {
        CallOutcome::Failed { reply, end } => {
            assert!(matches!(reply, SessionError::Transport(TransportError::NotConnected)));
            assert!(matches!(end, SessionError::Closed));
        }
        CallOutcome::Waiting { .. } => panic!("the call failed"),
    }
    assert!(s.stop().is_empty());
}

#[test]
fn requests_expire_and_are_sent_again() {
    let mut s = session("tcp://a");
    s.finish_call(command(1, 2), 5, Ok(()), at(0));
    assert!(s.due(at(499)).is_empty());
    assert_eq!(s.due(at(500)), vec![1]);
    match s.expire(1, at(500)) {
        Expiry::Resend { bytes } => assert_eq!(bytes, encoded(1, 0x01, &[1, 2])),
        other => panic!("expected a second attempt, got {:?}", other),
    }
    assert!(s.due(at(600)).is_empty());
    let due = s.due(at(5000));
    assert_eq!(due, vec![1]);
    match s.expire(1, at(5000)) {
        Expiry::Expired { ticket, event } => {
            assert_eq!(ticket, 5);
            assert!(matches!(
                event,
                AppEvent::Device(DeviceEvent::CommandResult { request_id: 1, ok: false, .. })
            ));
        }
        other => panic!("expected the end of the request, got {:?}", other),
    }
    assert!(matches!(s.expire(1, at(6000)), Expiry::Gone));
}

/// How often a command is written that gets no answer.
fn times_written(cmd: Command) -> u32 {
    let mut s = session("tcp://a");
    let id = cmd.request_id;
    s.begin_call(&cmd).unwrap();
    s.finish_call(cmd, 5, Ok(()), at(0));
    let mut written = 1;
    for round in 1..20 {
        if let Expiry::Resend { .. } = s.expire(id, at(1000 * round)) {
            written += 1;
        }
    }
    written
}

#[test]
fn commands_are_written_as_often_as_they_may_be() {
    for (attempts, expected) in [(0, 1), (1, 1), (2, 2), (5, 5)] {
        assert_eq!(times_written(command(1, attempts)), expected);
        let once = Command { idempotent: false, ..command(1, attempts) };
        assert_eq!(times_written(once), 1);
    }
}

#[test]
fn answers_end_the_repeating() {
    let mut s = session("tcp://a");
    let mut store = Store::new();
    s.finish_call(command(1, 5), 5, Ok(()), at(0));
    assert!(matches!(s.expire(1, at(500)), Expiry::Resend { .. }));
    s.receive(&encoded(1, 0x01, b"ok"), &mut store, at(600), WALL);
    assert!(s.next_frame(&mut store, at(600), WALL).unwrap().reply.is_some());
    assert!(matches!(s.expire(1, at(1100)), Expiry::Gone));
}

#[test]
fn connections_that_fail_are_tried_again() {
    let mut s = session("tcp://a");
    let mut store = Store::new();
    let mut seen = Vec::new();
    let mut waits = Vec::new();
    for _ in 0..4 {
        seen.extend(changes(&s.connecting(&mut store, WALL)));
        let (events, after) = s.disconnected(false, &mut store, WALL);
        assert_eq!(events.len(), 2);
        seen.extend(changes(&events));
        match after {
            AfterConnection::Retry(wait) => waits.push(wait.nanos / 1_000_000),
            AfterConnection::Stop => panic!("the session should go on"),
        }
    }
    assert_eq!(waits, vec![200, 400, 800, 1600]);
    assert_eq!(seen.len(), 8);
    assert_eq!(seen[0], (ConnState::Disconnected, ConnState::Connecting));
    for round in 0..4 {
        assert_eq!(seen[2 * round].1, ConnState::Connecting);
        assert_eq!(seen[2 * round + 1], (ConnState::Connecting, ConnState::Reconnecting));
    }
    assert_eq!(seen[2].0, ConnState::Reconnecting);
    assert_eq!(s.state(), ConnState::Reconnecting);
}

#[test]
fn stopping_gives_every_ticket_back() {
    let mut s = session("tcp://a");
    s.finish_call(command(1, 1), 5, Ok(()), at(0));
    s.finish_call(command(2, 1), 6, Ok(()), at(0));
    let mut tickets = s.stop();
    tickets.sort();
    assert_eq!(tickets, vec![(1, 5), (2, 6)]);
    assert!(s.stop().is_empty());
}

#[test]
fn telemetry_is_kept_and_acknowledged() {
    let mut s = session("tcp://a");
    let mut store = Store::new();
    s.receive(&encoded(3, 0x34, b"sid=2,value=1.5"), &mut store, at(30), WALL);
    let step = s.next_frame(&mut store, at(30), WALL).unwrap();
    match &step.events[0] {
        AppEvent::Device(DeviceEvent::TelemetrySample(sample)) => {
            assert_eq!(sample.device_id, "tcp://a");
            assert_eq!(sample.sensor_id, 2);
            assert!(matches!(&sample.value, Number::Text(value) if value == "1.5"));
            assert_eq!(sample.req_id, 3);
            assert_eq!(sample.t_sec, SampleTime::Elapsed { nanos: 30_000_000, groups: 0 });
            assert_eq!(sample.source_kind, TelemetrySourceKind::TcpFrame);
        }
        other => panic!("expected a sample, got {:?}", other),
    }
    let ack = step.write.unwrap();
    let mut buf = BytesMut::from(&ack[..]);
    let frame = SimpleFrameCodec::new(256).try_decode(&mut buf).unwrap().unwrap();
    assert_eq!(frame.request_id, 3);
    let snapshot = store.snapshot("tcp://a").unwrap();
    assert_eq!(snapshot.telemetry.rows()[0].0, "sensor_2");

    s.receive(&encoded(4, 0x34, b"nonsense"), &mut store, at(31), WALL);
    let step = s.next_frame(&mut store, at(31), WALL).unwrap();
    assert!(step.write.is_none());
    assert!(matches!(
        &step.events[0],
        AppEvent::Device(DeviceEvent::Log { msg, .. })
            if msg == "invalid telemetry payload for kind=0x34"
    ));
}

#[test]
fn silence_degrades_the_session() {
    let mut s = session("tcp://a");
    let mut store = Store::new();
    s.connecting(&mut store, WALL);
    s.connected(&mut store, at(0), WALL);
    assert!(s.begin_heartbeat().unwrap().is_some());
    let (events, end) = s.finish_heartbeat(&mut store, at(8_000), WALL);
    assert!(events.is_empty() && end.is_none());
    let (events, end) = s.finish_heartbeat(&mut store, at(8_001), WALL);
    assert_eq!(changes(&events).last().unwrap().1, ConnState::Degraded);
    assert!(matches!(end, Some(SessionError::Timeout)));
}

#[test]
fn session_error_texts() {
    assert_eq!(SessionError::Closed.to_text(), "session closed");
    assert_eq!(SessionError::Timeout.to_text(), "command timeout");
    assert_eq!(SessionError::Busy.to_text(), "command channel full");
    assert_eq!(SessionError::Codec("bad".to_string()).to_text(), "codec error: bad");
    assert_eq!(SessionError::Transport(TransportError::NotConnected).to_text(), "transport error: not connected");
}

#[test]
fn store_keeps_the_latest_snapshot() {
    let mut store = Store::new();
    assert!(store.snapshot("a").is_none());
    store.upsert_snapshot(DeviceSnapshot::fresh("a"));
    let mut later = DeviceSnapshot::fresh("a");
    later.conn_state = ConnState::Ready;
    store.upsert_snapshot(later);
    assert_eq!(store.snapshot("a").unwrap().conn_state, ConnState::Ready);
    assert!(store.snapshot("b").is_none());
}
