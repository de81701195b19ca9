use demo2::app::alarm_service::{AlarmRule, AlarmService};
use demo2::app::{CommandService, DeviceManager};
use demo2::bus::{AppEvent, DeviceEvent};
use demo2::domain::AlarmLevel;
use demo2::number::{Number, Real};
use demo2::session::{SessionConfig, SessionError};
use demo2::signal::{
    default_signal_specs, DerivedFormula, RawSample, SignalKind, SignalProcessor, SignalSpec,
};
use demo2::table::Table;
use demo2::telemetry::Telemetry;
use demo2::time::Duration;
use std::time::SystemTime;

const WALL: SystemTime = SystemTime::UNIX_EPOCH;

fn num(value: f64) -> Real {
    Real { bits: value.to_bits() }
}

#[test]
fn devices_are_reached_through_their_sessions() {
    let mut manager = DeviceManager::new();
    let started = manager.start_tcp_device("tcp://a".to_string(), 7);
    assert!(started.displaced.is_none());
    assert_eq!(
        started.config,
        SessionConfig {
            heartbeat_interval: Duration::from_secs(2),
            heartbeat_timeout: Duration::from_secs(8),
            reconnect_base: Duration::from_millis(200),
            reconnect_max: Duration::from_secs(5),
            enable_heartbeat: true,
            reconnect_enabled: true,
        }
    );
    let usual = started.config;
    assert!(matches!(&started.event, AppEvent::System(msg) if msg == "device started"));
    let started = manager.start_serial_device("serial://b".to_string(), 8);
    let passive = SessionConfig { enable_heartbeat: false, reconnect_enabled: false, ..usual };
    assert_eq!(started.config, passive);
    assert_eq!(manager.call("tcp://a").unwrap(), 7);
    assert_eq!(manager.call("serial://b").unwrap(), 8);
    assert_eq!(manager.start_tcp_device("tcp://a".to_string(), 9).displaced, Some(7));
    assert_eq!(manager.stop_device("tcp://a"), Some(9));
    assert_eq!(manager.stop_device("tcp://a"), None);
    assert!(matches!(manager.call("tcp://a"), Err(SessionError::Closed)));
    let service = CommandService::new(manager);
    assert_eq!(service.call("serial://b").unwrap(), 8);
    assert!(service.call("tcp://a").is_err());
}

fn rule() -> AlarmRule {
    AlarmRule {
        high: Some(num(10.0)),
        high_clear: Some(num(8.0)),
        low: Some(num(-10.0)),
        low_clear: Some(num(-8.0)),
        level: AlarmLevel::Critical,
        name: "load".to_string(),
    }
}

fn evaluate(service: &mut AlarmService, value: f64) -> Vec<(String, bool)> {
    service
        .evaluate_sample("d", 3, num(value), WALL)
        .into_iter()
        .map(|event| match event {
            AppEvent::Device(DeviceEvent::AlarmRaised(alarm)) => (alarm.alarm_id, true),
            AppEvent::Device(DeviceEvent::AlarmCleared(alarm)) => (alarm.alarm_id, false),
            other => panic!("unexpected event {:?}", other),
        })
        .collect()
}

#[test]
fn alarms_have_hysteresis() {
    let mut service = AlarmService::new();
    assert!(evaluate(&mut service, 99.0).is_empty());
    service.set_rule(3, rule());
    assert!(evaluate(&mut service, 9.9).is_empty());
    assert_eq!(evaluate(&mut service, 10.0), vec![("load_high".to_string(), true)]);
    assert!(evaluate(&mut service, 12.0).is_empty());
    assert!(evaluate(&mut service, 8.1).is_empty());
    assert_eq!(evaluate(&mut service, 8.0), vec![("load_high".to_string(), false)]);
    assert_eq!(evaluate(&mut service, -11.0), vec![("load_low".to_string(), true)]);
    assert_eq!(
        evaluate(&mut service, 11.0),
        vec![("load_high".to_string(), true), ("load_low".to_string(), false)]
    );
}

fn float(value: Real) -> f64 {
    f64::from_bits(value.bits)
}

fn compute(formula: &DerivedFormula, value: Real) -> Real {
    num(match formula {
        DerivedFormula::ScaleOffset { scale, offset, .. } => {
            float(value) * float(*scale) + float(*offset)
        }
        DerivedFormula::OffsetScale { input_offset, scale, .. } => {
            (float(value) - float(*input_offset)) * float(*scale)
        }
    })
}

fn raw(device_id: &str, sensor_id: usize, value: f64) -> RawSample {
    RawSample { device_id: device_id.to_string(), sensor_id, t_sec: num(1.0), value: num(value), req_id: 4 }
}

#[test]
fn angles_are_derived_from_raw_values() {
    let mut processor = SignalProcessor::new(default_signal_specs(10));
    assert_eq!(processor.specs().len(), 14);
    let out = processor.ingest_raw(raw("d", 0, 2048.0), compute);
    assert_eq!(out[0].signal_id, "sensor_0_raw");
    assert_eq!(out[1].signal_id, "sensor_0_angle");
    assert_eq!(f64::from_bits(out[1].value.bits), 0.0);
    assert_eq!(out.len(), 2);

    let out = processor.ingest_raw(raw("d", 1, 2047.5 + 4079.0), compute);
    let ids: Vec<&str> = out.iter().map(|s| s.signal_id.as_str()).collect();
    assert_eq!(ids, vec!["sensor_1_raw", "sensor_0_angle", "sensor_1_angle"]);
    assert!((f64::from_bits(out[2].value.bits) - 12.0).abs() < 1e-9);

    let other = processor.ingest_raw(raw("e", 5, 1.0), compute);
    assert_eq!(other.len(), 1);
    assert!(processor.ingest_raw(raw("d", 20, 1.0), compute).iter().all(|s| s.signal_id.ends_with("angle")));
}

#[test]
fn formulas_hold_any_numbers() {
    let spec = |id: &str, formula| SignalSpec {
        id: id.to_string(),
        name: id.to_string(),
        unit: "u".to_string(),
        decimals: 1,
        kind: SignalKind::Derived { formula },
    };
    let mut specs = default_signal_specs(1);
    let input = || "sensor_0_raw".to_string();
    specs.push(spec(
        "a",
        DerivedFormula::ScaleOffset { input_signal_id: input(), scale: num(0.1), offset: num(1e300) },
    ));
    specs.push(spec(
        "b",
        DerivedFormula::OffsetScale { input_signal_id: input(), input_offset: num(0.3), scale: num(-0.0) },
    ));
    let mut processor = SignalProcessor::new(specs);
    let out = processor.ingest_raw(raw("d", 0, 7.0), compute);
    assert_eq!(out[2].signal_id, "a");
    assert_eq!(float(out[2].value), 7.0 * 0.1 + 1e300);
    assert_eq!(out[3].signal_id, "b");
    assert_eq!(out[3].value, num((7.0 - 0.3) * -0.0));
}

#[test]
fn signals_have_names_and_units() {
    let processor = SignalProcessor::new(default_signal_specs(6));
    let spec = processor.spec("sensor_1_raw").unwrap();
    assert_eq!((spec.name.as_str(), spec.unit.as_str()), ("sent_t1_torque", "Nm"));
    let spec = processor.spec("sensor_5_raw").unwrap();
    assert_eq!((spec.name.as_str(), spec.unit.as_str()), ("Sensor 5", "raw"));
    assert!(matches!(spec.kind, SignalKind::SourceSensor { sensor_id: 5 }));
    assert!(processor.spec("sensor_6_raw").is_none());
}

#[test]
fn tables_hold_one_value_for_a_key() {
    let mut table: Table<(String, usize), u8> = Table::new();
    table.insert(("a".to_string(), 1), 1);
    table.insert(("a".to_string(), 2), 2);
    table.insert(("a".to_string(), 1), 3);
    assert_eq!(table.len(), 2);
    assert_eq!(table.get(&("a".to_string(), 1)), Some(&3));
    assert!(table.contains_key(&("a".to_string(), 2)));
    assert_eq!(table.remove(&("a".to_string(), 2)), Some(2));
    assert_eq!(table.remove(&("a".to_string(), 2)), None);
    table.clear();
    assert_eq!(table.rows().len(), 0);
}

#[test]
fn telemetry_is_sorted_by_name() {
    let mut telemetry = Telemetry::new();
    telemetry.insert("sensor_2".to_string(), Number::Integer(2));
    telemetry.insert("sensor_10".to_string(), Number::Integer(10));
    telemetry.insert("sensor_2".to_string(), Number::Integer(3));
    let names: Vec<&str> = telemetry.rows().iter().map(|row| row.0.as_str()).collect();
    assert_eq!(names, vec!["sensor_10", "sensor_2"]);
    assert!(matches!(telemetry.rows()[1].1, Number::Integer(3)));
}

#[test]
fn reals_compare_as_floating_point_numbers() {
    let values = [f64::NEG_INFINITY, -1.5, -0.0, 0.0, 1e-310, 2.5, f64::INFINITY, f64::NAN];
    for a in values {
        for b in values {
            assert_eq!(num(a).ge(num(b)), a >= b);
            assert_eq!(num(a).gt(num(b)), a > b);
        }
        assert_eq!(num(a).nan(), a.is_nan());
        assert_eq!(num(a).finite(), a.is_finite());
        assert_eq!(num(a).abs().bits, a.abs().to_bits());
    }
    assert_eq!(num(1.0).max(num(f64::NAN)), num(1.0));
    assert_eq!(num(f64::NAN).max(num(2.0)), num(2.0));
    assert_eq!(num(3.0).max(num(2.0)), num(3.0));
}
