use bytes::BytesMut;
use demo2::bus::{AppEvent, DeviceEvent, SampleTime, TelemetrySample, TelemetrySourceKind};
use demo2::ingress::can::{
    candidate_can_configs, decode_axis_sample, decode_self_test_response, decode_sent_error,
    decode_sent_values, enqueue_can_tx, format_can_frame, format_can_target, read_f32_le,
    reconcile_sent_error, CanIngress, CanProbe, SentCanError, SentFilterConfig, SentMovingAverage,
    TxQueue,
};
use demo2::ingress::payload::{parse_sensor_value, sensor_payload};
use demo2::ingress::serial::{parse_serial_mode, read_failed, SerialIngress, SerialIngressMode};
use demo2::ingress::tcp::accepted;
use demo2::number::{Number, Real};
use demo2::protocol::demo_serial::{CMD_STREAM, HEADER, STREAM_TOTAL_LEN};
use demo2::protocol::{Frame, FrameCodec, SentFrameCodec, SimpleFrameCodec};
use demo2::time::Instant;
use demo2::transport::can::{CanFrame, CanTransportConfig, CanTransportError};
use demo2::transport::{IoError, TransportError};
use std::collections::{HashSet, VecDeque};
use std::time::SystemTime;

const WALL: SystemTime = SystemTime::UNIX_EPOCH;

fn mean(window: &VecDeque<f64>, reference: f64, angle: bool) -> f64 {
    if !angle {
        return window.iter().sum::<f64>() / window.len() as f64;
    }
    let (sin_sum, cos_sum) = window.iter().fold((0.0, 0.0), |(s, c), value: &f64| {
        (s + value.to_radians().sin(), c + value.to_radians().cos())
    });
    let mut mean = f64::atan2(sin_sum, cos_sum).to_degrees();
    while mean - reference > 180.0 {
        mean -= 360.0;
    }
    while reference - mean > 180.0 {
        mean += 360.0;
    }
    mean
}

#[test]
fn sent_angle_filter_wraps_across_zero_degrees() {
    let mut filter = SentMovingAverage::new(3);

    let first = filter.apply([(0, 359.0), (1, 10.0), (2, 0.0), (3, 20.0), (4, 0.0)], mean);
    assert!((first[0].1 - 359.0).abs() < 0.001);

    let second = filter.apply([(0, 0.0), (1, 20.0), (2, 0.0), (3, 40.0), (4, 0.0)], mean);
    assert!(
        second[0].1 > 359.0 || second[0].1 < 1.0,
        "angle average should stay near wrap boundary, got {}",
        second[0].1
    );

    let third = filter.apply([(0, 1.0), (1, 30.0), (2, 0.0), (3, 60.0), (4, 0.0)], mean);
    assert!(
        third[0].1 > -1.0 && third[0].1 < 2.0,
        "359/0/1 should average near 0 degrees, got {}",
        third[0].1
    );
}

#[test]
fn sent_torque_filter_uses_arithmetic_average() {
    let mut filter = SentMovingAverage::new(3);

    let _ = filter.apply([(0, 0.0), (1, 10.0), (2, 0.0), (3, 20.0), (4, 0.0)], mean);
    let _ = filter.apply([(0, 0.0), (1, 20.0), (2, 0.0), (3, 40.0), (4, 0.0)], mean);
    let third = filter.apply([(0, 0.0), (1, 30.0), (2, 0.0), (3, 60.0), (4, 0.0)], mean);

    assert!((third[1].1 - 20.0).abs() < 0.001);
    assert!((third[3].1 - 40.0).abs() < 0.001);
}

#[test]
fn moving_average_forgets_old_values() {
    let mut filter = SentMovingAverage::new(2);
    let count = |window: &VecDeque<u32>, _: u32, _: bool| window.iter().sum::<u32>();
    let _ = filter.apply([(0, 1), (1, 1), (2, 1), (3, 1), (9, 1)], count);
    let _ = filter.apply([(0, 2), (1, 2), (2, 2), (3, 2), (9, 2)], count);
    let third = filter.apply([(0, 4), (1, 4), (2, 4), (3, 4), (9, 4)], count);
    assert_eq!(third, [(0, 6), (1, 6), (2, 6), (3, 6), (9, 4)]);
}

#[test]
fn payloads_are_read_back() {
    let payload = sensor_payload(12, "-3.25");
    assert_eq!(payload, b"sid=12,value=-3.25".to_vec());
    assert_eq!(parse_sensor_value(&payload), Some((12, "-3.25".to_string())));
    assert_eq!(parse_sensor_value(b" value = 1e3 , sid = 4 "), Some((4, "1e3".to_string())));
    assert_eq!(parse_sensor_value(b"sid=1"), None);
    assert_eq!(parse_sensor_value(b"value=1.0"), None);
    assert_eq!(parse_sensor_value(b"sid=x,value=1.0"), None);
    assert_eq!(parse_sensor_value(b"sid=1,value=one"), None);
    assert_eq!(parse_sensor_value(&[0xFF, 0xFE]), None);
}

#[test]
fn serial_modes() {
    assert_eq!(parse_serial_mode(" Legacy "), Some(SerialIngressMode::Legacy));
    assert_eq!(parse_serial_mode("demo"), Some(SerialIngressMode::Demo));
    assert_eq!(parse_serial_mode("SENT3"), Some(SerialIngressMode::Sent));
    assert_eq!(parse_serial_mode("other"), None);
    assert_eq!(SerialIngressMode::Sent.label(), "sent");
}

fn samples(events: &[AppEvent]) -> Vec<&TelemetrySample> {
    events
        .iter()
        .filter_map(|event| match event {
            AppEvent::Device(DeviceEvent::TelemetrySample(sample)) => Some(sample),
            _ => None,
        })
        .collect()
}

fn all_steps(port: &mut SerialIngress) -> Vec<AppEvent> {
    let mut events = Vec::new();
    while let Some(more) = port.step(5, WALL) {
        events.extend(more);
    }
    events
}

#[test]
fn sent_frames_become_samples() {
    let mut port = SerialIngress::new("COM1", SerialIngressMode::Sent);
    assert_eq!(port.device_id(), "serial://COM1");
    port.receive(&SentFrameCodec::encode_frame(SentFrameCodec::with_crc(0, 0x123, 0x456, 0x1)));
    port.receive(&SentFrameCodec::encode_frame(SentFrameCodec::with_crc(0, 0x111, 0x222, 0x6)));
    port.receive(&SentFrameCodec::encode_frame(SentFrameCodec::with_crc(0, 0x333, 0x000, 0xB)));
    let events = all_steps(&mut port);
    let found: Vec<(usize, i64, TelemetrySourceKind)> = samples(&events)
        .iter()
        .map(|s| match s.value {
            Number::Integer(value) => (s.sensor_id, value, s.source_kind),
            _ => panic!("expected an integer"),
        })
        .collect();
    assert_eq!(
        found,
        vec![
            (0, 0x123, TelemetrySourceKind::SerialSent1),
            (1, 0x456, TelemetrySourceKind::SerialSent1),
            (2, 0x111, TelemetrySourceKind::SerialSent2),
            (3, 0x222, TelemetrySourceKind::SerialSent2),
            (4, 0x333, TelemetrySourceKind::SerialSent3),
        ]
    );
    assert_eq!(port.unread_len(), 0);
}

#[test]
fn unknown_pauses_are_reported() {
    let mut port = SerialIngress::new("COM1", SerialIngressMode::Sent);
    port.receive(&SentFrameCodec::encode_frame(SentFrameCodec::with_crc(2, 1, 1, 0x4)));
    let events = all_steps(&mut port);
    assert!(matches!(
        &events[0],
        AppEvent::System(msg) if msg == "collector serial sent unsupported pause=0x4 status=0x2"
    ));
}

#[test]
fn demo_alarm_is_announced_on_change() {
    let mut port = SerialIngress::new("COM1", SerialIngressMode::Demo);
    let mut frame = vec![HEADER, 0x04, 0x20, CMD_STREAM];
    frame.resize(STREAM_TOTAL_LEN, 0);
    frame[4 + 32 + 30] = 1;
    port.receive(&frame);
    let events = all_steps(&mut port);
    assert_eq!(samples(&events).len(), 3 * 256);
    let alarms: Vec<bool> = events
        .iter()
        .filter_map(|event| match event {
            AppEvent::Device(DeviceEvent::AlarmRaised(alarm)) => Some(!alarm.cleared),
            AppEvent::Device(DeviceEvent::AlarmCleared(alarm)) => Some(!alarm.cleared),
            _ => None,
        })
        .collect();
    assert_eq!(alarms, vec![false, true, false]);
    assert!(matches!(samples(&events)[3].t_sec, SampleTime::Elapsed { groups: 1, .. }));
    assert!(samples(&events)[3].alarm_bit);
}

#[test]
fn legacy_frames_become_samples() {
    let mut port = SerialIngress::new("COM1", SerialIngressMode::Legacy);
    let mut out = BytesMut::new();
    let codec = SimpleFrameCodec::new(64);
    codec
        .encode(&Frame { request_id: 8, kind: 0x34, payload: sensor_payload(1, "2.5") }, &mut out)
        .unwrap();
    port.receive(&out[..7]);
    assert!(port.step(0, WALL).is_none());
    port.receive(&out[7..]);
    let events = all_steps(&mut port);
    let sample = samples(&events)[0];
    assert_eq!((sample.sensor_id, sample.req_id), (1, 8));
    assert_eq!(sample.source_kind, TelemetrySourceKind::FrameStream);
}

#[test]
fn timeouts_on_a_serial_port_are_no_errors() {
    let timeout = TransportError::Io(IoError { timed_out: true, message: "late".to_string() });
    let broken = TransportError::Io(IoError { timed_out: false, message: "gone".to_string() });
    assert!(read_failed("COM1", &timeout).is_none());
    assert!(read_failed("COM1", &broken).is_some());
}

#[test]
fn tcp_connections_are_passive_sessions() {
    let (mut session, event) = accepted("10.0.0.1:5", 64, Instant { nanos: 0 });
    assert_eq!(session.device_id(), "tcp://10.0.0.1:5");
    assert!(session.begin_heartbeat().unwrap().is_none());
    assert!(session.stop().is_empty());
    assert!(matches!(event, AppEvent::System(msg) if msg.contains("10.0.0.1:5")));
}

fn can_frame(identifier: u32, dlc: u8, bytes: &[u8]) -> CanFrame {
    let mut data = [0u8; 64];
    data[..bytes.len()].copy_from_slice(bytes);
    CanFrame { channel: 0, properties: 0, dlc, identifier, timestamp_us: 42, data }
}

#[test]
fn axis_samples_are_big_endian() {
    let frame = can_frame(0x102, 8, &[0xFF, 0xFF, 0xFF, 0xFE]);
    assert_eq!(decode_axis_sample(&frame), Some((1, -2)));
    assert_eq!(decode_axis_sample(&can_frame(0x104, 4, &[0, 0, 1, 0])), Some((2, 256)));
    assert_eq!(decode_axis_sample(&can_frame(0x104, 3, &[0, 0, 1])), None);
    assert_eq!(decode_axis_sample(&can_frame(0x105, 8, &[0, 0, 1, 0])), None);
}

#[test]
fn sent_values_stand_at_their_places() {
    let mut bytes = [0u8; 64];
    bytes[25..29].copy_from_slice(&1.5f32.to_le_bytes());
    bytes[49..53].copy_from_slice(&(-2.0f32).to_le_bytes());
    let frame = can_frame(0x10, 15, &bytes);
    let values = decode_sent_values(&frame).unwrap();
    assert_eq!(values[0], (0, 1.5f32.to_bits()));
    assert_eq!(values[4], (4, (-2.0f32).to_bits()));
    assert!(decode_sent_values(&can_frame(0x10, 14, &bytes)).is_none());
    assert!(decode_sent_values(&can_frame(3, 15, &bytes)).is_none());
    assert_eq!(read_f32_le(&bytes, 61), None);
}

#[test]
fn sent_errors_begin_and_end() {
    let error = decode_sent_error(&can_frame(3, 8, &[7, 1, 0, 1])).unwrap();
    assert_eq!(
        error,
        SentCanError { error_type: 7, t1_error: true, t2_error: false, s_error: true }
    );
    let mut active = HashSet::new();
    let begun = reconcile_sent_error("can://a", error, &mut active, WALL);
    assert!(matches!(
        &begun[0],
        AppEvent::Device(DeviceEvent::AlarmRaised(alarm))
            if alarm.alarm_id == "sent_error_7"
                && alarm.message == "SENT error type=7 t1=1 t2=0 s=1 active"
    ));
    assert!(reconcile_sent_error("can://a", error, &mut active, WALL).is_empty());
    let end = decode_sent_error(&can_frame(3, 8, &[0, 0, 0, 0])).unwrap();
    let ended = reconcile_sent_error("can://a", end, &mut active, WALL);
    assert!(matches!(&ended[0], AppEvent::Device(DeviceEvent::AlarmCleared(alarm)) if alarm.cleared));
    assert!(active.is_empty());
}

#[test]
fn can_frames_as_text() {
    let mut frame = can_frame(0x12, 3, &[1, 0xAB, 3]);
    assert_eq!(format_can_frame(&frame), "RX ch=0 id=0x012 dlc=3 ts=42us data=01 AB 03");
    frame.properties = 1;
    assert!(format_can_frame(&frame).starts_with("TX"));
    assert!(decode_self_test_response(&can_frame(0x123, 8, &[1, 0, 1])).is_some());
    assert_eq!(
        decode_self_test_response(&can_frame(0x123, 8, &[1, 0, 1])),
        Some((true, false, true))
    );
}

#[test]
fn candidates_begin_with_the_request() {
    let mut config = CanTransportConfig::default();
    config.hardware_name = " TC1016 ".to_string();
    config.channel_index = 2;
    config.channel_count = 1;
    let found: Vec<(String, u8)> = candidate_can_configs(&config)
        .into_iter()
        .map(|c| (c.hardware_name, c.channel_index))
        .collect();
    assert_eq!(found.len(), 8);
    assert_eq!(found[0], ("TC1016".to_string(), 2));
    assert_eq!(found[1], ("TC1016".to_string(), 0));
    assert_eq!(found[4], ("TC1012".to_string(), 2));
    assert_eq!(format_can_target(&config), "hw= TC1016  ch=2");
}

#[test]
fn probing_goes_through_all_candidates() {
    let config = CanTransportConfig::default();
    let (mut probe, _) = CanProbe::new(&config);
    let mut tried = 0;
    while probe.candidate().is_some() {
        probe.failed(&CanTransportError::NotConnected);
        tried += 1;
    }
    assert_eq!(tried, 4);
    assert!(matches!(probe.exhausted(), AppEvent::System(_)));
}

#[test]
fn frames_are_refused_without_a_channel() {
    assert!(enqueue_can_tx(TxQueue::Accepted).is_ok());
    assert!(enqueue_can_tx(TxQueue::NotReady).is_err());
    assert!(enqueue_can_tx(TxQueue::Poisoned).is_err());
    let refused = enqueue_can_tx(TxQueue::Refused("full".to_string())).unwrap_err();
    assert!(refused.contains("full"));
}

#[test]
fn can_ingress_passes_values_on() {
    let config = CanTransportConfig::default();
    let mut ingress = CanIngress::new(&config, SentFilterConfig { enabled: false, window_size: 3 });
    assert_eq!(ingress.device_id(), "can://TC1012:ch0");
    let frame = can_frame(0x100, 8, &[0, 0, 0, 9]);
    let events = ingress.receive(&frame, None, 7, WALL);
    let sample = samples(&events)[0];
    assert_eq!(sample.sensor_id, 0);
    assert!(matches!(sample.value, Number::Integer(9)));
    assert_eq!(sample.source_kind, TelemetrySourceKind::CanAxis);
}

#[test]
fn can_ingress_averages_where_it_is_told_to() {
    let config = CanTransportConfig::default();
    let mut ingress = CanIngress::new(&config, SentFilterConfig { enabled: true, window_size: 2 });
    let widen = |bits: u32| Real { bits: (f32::from_bits(bits) as f64).to_bits() };
    let average = |window: &VecDeque<Real>, _: Real, _: bool| {
        let sum: f64 = window.iter().map(|r| f64::from_bits(r.bits)).sum();
        Real { bits: (sum / window.len() as f64).to_bits() }
    };
    let mut bytes = [0u8; 64];
    bytes[29..33].copy_from_slice(&2.0f32.to_le_bytes());
    let first = ingress.average(&can_frame(0x10, 15, &bytes), widen, average).unwrap();
    assert_eq!(first[1], (1, Real { bits: 2.0f64.to_bits() }));
    bytes[29..33].copy_from_slice(&4.0f32.to_le_bytes());
    let second = ingress.average(&can_frame(0x10, 15, &bytes), widen, average).unwrap();
    assert_eq!(second[1], (1, Real { bits: 3.0f64.to_bits() }));
    let events = ingress.receive(&can_frame(0x10, 15, &bytes), Some(second), 0, WALL);
    assert!(matches!(
        samples(&events)[1].value,
        Number::Double(Real { bits }) if bits == 3.0f64.to_bits()
    ));
    bytes[29..33].copy_from_slice(&6.0f32.to_le_bytes());
    let events = ingress.take_frame(&can_frame(0x10, 15, &bytes), widen, average, 9, WALL);
    let published = samples(&events);
    assert_eq!(published.len(), 5);
    assert!(matches!(
        published[1].value,
        Number::Double(Real { bits }) if bits == 5.0f64.to_bits()
    ));
    assert_eq!((published[1].sensor_id, published[1].req_id), (1, 2));

    let mut plain = CanIngress::new(&config, SentFilterConfig { enabled: false, window_size: 2 });
    let events = plain.take_frame(&can_frame(0x10, 15, &bytes), widen, average, 9, WALL);
    assert!(matches!(samples(&events)[1].value, Number::Single(bits) if bits == 6.0f32.to_bits()));
}
