use demo2::bus::{AppEvent, DeviceEvent, SampleTime, TelemetrySample, TelemetrySourceKind};
use demo2::collector::config::{
    can_settings, db_disabled, env_flag, filter_sections, serial_settings, CanEnvironment,
    CollectorConfig, SerialEnvironment,
};
use demo2::collector::feed::{
    axis_name, telemetry_msg, telemetry_sample, ActiveSessions, TelemetryMsg, UiFeedMsg, UiForwarder,
};
use demo2::collector::health::{answer, health_json, record_db_error, respond, CollectorStats};
use demo2::collector::persistence::{
    after_connect_failure, columns, db_command, level_name, partition_days, write_error,
    ConnectDecision, DbCmd, DbWrite, FilterBuilt, FilterRoute, Next, PersistenceFilter, PgBatcher,
};
use demo2::domain::{AlarmEvent, AlarmLevel, ConnState};
use demo2::ingress::serial::SerialIngressMode;
use demo2::number::{Number, Real};
use std::time::SystemTime;

fn some(text: &str) -> Option<String> {
    Some(text.to_string())
}

fn no_can() -> CanEnvironment {
    CanEnvironment {
        enabled: None,
        channel: None,
        tsmaster_bin: None,
        autostart_tsmaster: None,
        hardware_name: None,
        baud_kbps: None,
        data_baud_kbps: None,
        sent_filter_enabled: None,
        sent_filter_window: None,
    }
}

#[test]
fn switches_of_the_environment() {
    assert_eq!(env_flag(&some(" On ")), Some(true));
    assert_eq!(env_flag(&some("0")), Some(false));
    assert_eq!(env_flag(&some("maybe")), None);
    assert_eq!(env_flag(&None), None);
    assert!(db_disabled(&some("TRUE")));
    assert!(db_disabled(&some("1")));
    assert!(!db_disabled(&some("yes")));
    assert!(!db_disabled(&None));
}

#[test]
fn can_is_off_unless_switched_on() {
    let cfg = CollectorConfig::default();
    assert!(can_settings(&cfg, &no_can()).is_none());
    let mut env = no_can();
    env.enabled = some("1");
    env.channel = some("3");
    env.sent_filter_window = some("0");
    env.baud_kbps = some("nonsense");
    let (can, filter) = can_settings(&cfg, &env).unwrap();
    assert_eq!(can.channel_index, 3);
    assert_eq!(can.channel_count, 4);
    assert_eq!(can.arbitration_baud_kbps, 500);
    assert_eq!(filter.window_size, 1);
    assert!(filter.enabled);
}

#[test]
fn serial_port_of_the_configuration_comes_first() {
    let mut cfg = CollectorConfig::default();
    let env = SerialEnvironment { port: some("COM9"), baud: some("9600"), mode: some("demo") };
    let found = serial_settings(&cfg, &env).unwrap();
    assert_eq!((found.port_name.as_str(), found.baud_rate), ("COM9", 9600));
    assert_eq!(found.mode, SerialIngressMode::Demo);
    cfg.serial_port = some("COM1");
    assert_eq!(serial_settings(&cfg, &env).unwrap().port_name, "COM1");
    let none = SerialEnvironment { port: None, baud: None, mode: None };
    cfg.serial_port = None;
    assert!(serial_settings(&cfg, &none).is_none());
}

#[test]
fn filters_have_an_even_order() {
    assert_eq!(filter_sections(10).unwrap(), 5);
    assert!(filter_sections(0).is_err());
    assert!(filter_sections(3).is_err());
}

fn sample(source_kind: TelemetrySourceKind, sensor_id: usize) -> TelemetrySample {
    TelemetrySample {
        device_id: "d".to_string(),
        sensor_id,
        t_sec: SampleTime::Elapsed { nanos: 5, groups: 0 },
        value: Number::Integer(4),
        req_id: 6,
        alarm_bit: true,
        source_kind,
    }
}

fn msg(sensor_id: usize) -> TelemetryMsg {
    telemetry_msg(sample(TelemetrySourceKind::CanAxis, sensor_id))
}

#[test]
fn samples_get_the_names_of_their_axes() {
    assert_eq!(axis_name(TelemetrySourceKind::CanAxis, 1), "y");
    assert_eq!(axis_name(TelemetrySourceKind::CanSent, 3), "t2_torque");
    assert_eq!(axis_name(TelemetrySourceKind::TcpFrame, 0), "");
    let msg = msg(2);
    assert_eq!(msg.axis, "z");
    let back = telemetry_sample(msg);
    assert_eq!((back.sensor_id, back.req_id, back.alarm_bit), (2, 6, true));
    let moment = SampleTime::Seconds(Real { bits: 0.1f64.to_bits() });
    let seconds = TelemetrySample { t_sec: moment, ..sample(TelemetrySourceKind::CanAxis, 0) };
    assert_eq!(telemetry_msg(seconds).t_sec, moment);
}

#[test]
fn every_eighth_demo_sample_is_shown() {
    let mut forwarder = UiForwarder::new();
    let mut shown = 0;
    for _ in 0..80 {
        let event = AppEvent::Device(DeviceEvent::TelemetrySample(sample(
            TelemetrySourceKind::SerialDemo,
            0,
        )));
        if forwarder.forward(event).is_some() {
            shown += 1;
        }
    }
    assert_eq!(shown, 10);
    let other = AppEvent::Device(DeviceEvent::TelemetrySample(sample(
        TelemetrySourceKind::CanSent,
        0,
    )));
    assert!(matches!(forwarder.forward(other), Some(UiFeedMsg::Telemetry(_))));
    let status = AppEvent::System("hello".to_string());
    assert!(matches!(forwarder.forward(status), Some(UiFeedMsg::Status(s)) if s == "hello"));
}

#[test]
fn ready_devices_are_counted_once() {
    let mut sessions = ActiveSessions::new();
    assert_eq!(sessions.state_changed("a".to_string(), ConnState::Ready), 1);
    assert_eq!(sessions.state_changed("a".to_string(), ConnState::Ready), 1);
    assert_eq!(sessions.state_changed("b".to_string(), ConnState::Ready), 2);
    assert_eq!(sessions.state_changed("a".to_string(), ConnState::Degraded), 2);
    assert_eq!(sessions.state_changed("a".to_string(), ConnState::Disconnected), 1);
}

fn alarm() -> AlarmEvent {
    AlarmEvent {
        device_id: "d".to_string(),
        alarm_id: "a".to_string(),
        level: AlarmLevel::Info,
        message: "m".to_string(),
        raised_at: SystemTime::UNIX_EPOCH,
        cleared: false,
    }
}

#[test]
fn samples_are_written_in_batches_and_in_order() {
    let mut batcher = PgBatcher::new();
    for i in 0..255 {
        let (writes, next) = batcher.take(DbCmd::Telemetry(msg(i)));
        assert!(writes.is_empty());
        assert_eq!(next, Next::Poll);
    }
    let (writes, next) = batcher.take(DbCmd::Telemetry(msg(255)));
    assert_eq!(next, Next::Wait);
    assert!(matches!(&writes[..], [DbWrite::Batch(batch)] if batch.len() == 256 && batch[9].sensor_id == 9));

    batcher.take(DbCmd::Telemetry(msg(1)));
    let (writes, _) = batcher.take(DbCmd::Alarm(alarm()));
    assert!(matches!(&writes[..], [DbWrite::Batch(batch), DbWrite::Alarm(_)] if batch.len() == 1));
    batcher.take(DbCmd::Telemetry(msg(1)));
    assert!(matches!(&batcher.idle()[..], [DbWrite::Batch(_)]));
    assert!(batcher.idle().is_empty());
}

#[test]
fn events_that_are_written() {
    let event = AppEvent::Device(DeviceEvent::AlarmRaised(alarm()));
    assert!(matches!(db_command(event), Some(DbCmd::Alarm(_))));
    let event = AppEvent::System("up".to_string());
    assert!(matches!(db_command(event), Some(DbCmd::System { message, .. }) if message == "up"));
    let event = AppEvent::Device(DeviceEvent::CommandResult {
        device_id: "d".to_string(),
        request_id: 1,
        ok: true,
    });
    assert!(db_command(event).is_none());
    assert_eq!(level_name(AlarmLevel::Critical), "Critical");
}

#[test]
fn columns_stand_side_by_side() {
    let table = columns(vec![msg(0), msg(2)], vec![10, 20]);
    assert_eq!(table.ts_ms, vec![10, 20]);
    assert_eq!(table.sensor_ids, vec![0, 2]);
    assert_eq!(table.axes, vec!["x".to_string(), "z".to_string()]);
    assert_eq!(table.request_ids, vec![6, 6]);
}

#[test]
fn partitions_by_day() {
    let day = 86_400_000;
    assert_eq!(partition_days(&[5, day + 1, 7, -1]), vec![-day, 0, day]);
    assert!(partition_days(&[]).is_empty());
}

#[test]
fn connecting_to_the_database_is_tried_again() {
    match after_connect_failure(0, 3, 250, "down") {
        ConnectDecision::Retry { attempt, delay } => {
            assert_eq!((attempt, delay.nanos), (1, 250_000_000));
        }
        ConnectDecision::GiveUp { .. } => panic!("too early"),
    }
    match after_connect_failure(2, 3, 250, "down") {
        ConnectDecision::GiveUp { error } => {
            assert_eq!(error, "postgres connect failed after 3 attempts: down");
        }
        ConnectDecision::Retry { .. } => panic!("too late"),
    }
    assert!(write_error("insert", "down").contains("down"));
}

#[test]
fn filters_are_kept_by_device_sensor_and_axis() {
    let mut off = PersistenceFilter::new(false);
    assert_eq!(off.route(&msg(0)), FilterRoute::Bypass);
    let mut on = PersistenceFilter::new(true);
    assert_eq!(on.route(&msg(0)), FilterRoute::Missing);
    let first = match on.built(&msg(0), true) {
        FilterBuilt::Use(number) => number,
        other => panic!("expected a filter, got {:?}", other),
    };
    assert_eq!(on.route(&msg(0)), FilterRoute::Existing(first));
    assert_eq!(on.route(&msg(1)), FilterRoute::Missing);
    let failed = on.built(&msg(1), false);
    assert!(!matches!(failed, FilterBuilt::Use(_)));
    off = PersistenceFilter::new(false);
    assert_eq!(off.route(&msg(1)), FilterRoute::Bypass);
}

#[test]
fn health_is_reported_as_json() {
    let mut stats = CollectorStats::default();
    stats.ingress_ready = true;
    stats.samples_rx = 12;
    let json = health_json(&stats);
    let value: serde_json::Value = serde_json::from_str(&json).unwrap();
    assert_eq!(value["ingress_ready"], serde_json::Value::Bool(true));
    assert_eq!(value["samples_rx"].as_u64(), Some(12));
    assert!(value["last_db_error"].is_null());
    record_db_error(&mut stats, "down \"now\"".to_string());
    let value: serde_json::Value = serde_json::from_str(&health_json(&stats)).unwrap();
    assert_eq!(value["last_db_error"].as_str(), Some("down \"now\""));
}

#[test]
fn health_is_answered_over_http() {
    let text = respond("200 OK", "{\"a\":\"é\"}");
    assert_eq!(
        text,
        "HTTP/1.1 200 OK\r\nContent-Type: application/json\r\nContent-Length: 10\r\nConnection: close\r\n\r\n{\"a\":\"é\"}"
    );
    let mut stats = CollectorStats::default();
    let not_ready = answer(b"GET /ready HTTP/1.1\r\n\r\n", &stats);
    assert!(not_ready.starts_with("HTTP/1.1 503"));
    stats.ingress_ready = true;
    stats.ui_ready = true;
    let ready = answer(b"GET /ready HTTP/1.1\r\n\r\n", &stats);
    assert!(ready.starts_with("HTTP/1.1 200"));
    let health = answer(b"GET /health HTTP/1.1\r\n\r\n", &stats);
    assert!(health.ends_with(&health_json(&stats)));
}
