use demo2::bus::TelemetrySourceKind;
use demo2::calendar::format_datetime_input;
use demo2::domain::{AlarmEvent, AlarmLevel};
use demo2::number::Real;
use demo2::sender::replay::parse_can_export_file;
use demo2::signal::{DerivedFormula, RawSample, SignalKind};
use demo2::time::{Duration, Instant};
use demo2::ui::alarms::{alarm_key, alarm_level_text, AlarmBoard, AlarmGroup, MAX_ALARM_HISTORY};
use demo2::ui::client::{choose_setting, UiClient};
use demo2::ui::feed::{FeedAction, FeedEvent, FeedStats};
use demo2::ui::monitors::{
    angle_event, apply_sent_angle_jump_threshold, apply_sent_jump_thresholds, jump_event,
    limit_event, sent_jump_level, sent_jump_thresholds, validate_threshold_text, AngleMonitor,
    CanAlarmThresholds, JumpTexts, LimitMonitor, SentJumpLevel, TorqueMonitor,
};
use demo2::ui::replay::{export_head, export_row, total_span_ms, CanReplayState, ReplayMode};
use demo2::ui::series::{
    chart_lines, line_breaks, value_range, Placed, SensorSeries, SignalBoard, LINE_BREAK_GAP_BITS,
    WINDOW_SECS_BITS,
};
use demo2::ui::windows::{detect_view_for_sample, SignalBinding, TestSignalView, WindowBoard};
use std::time::SystemTime;

const WALL: SystemTime = SystemTime::UNIX_EPOCH;

fn num(value: f64) -> Real {
    Real { bits: value.to_bits() }
}

#[test]
fn samples_choose_their_view() {
    let view = |kind, device: &str, sensor| detect_view_for_sample(kind, device, sensor);
    assert_eq!(view(TelemetrySourceKind::SerialDemo, "x", 9), Some(TestSignalView::Demo));
    assert_eq!(view(TelemetrySourceKind::CanSent, "x", 9), Some(TestSignalView::Sent));
    assert_eq!(view(TelemetrySourceKind::CanAxis, "x", 9), Some(TestSignalView::CanFrame));
    assert_eq!(view(TelemetrySourceKind::TcpFrame, "x", 9), Some(TestSignalView::TcpFrame));
    assert_eq!(view(TelemetrySourceKind::Unknown, "can://a", 9), Some(TestSignalView::CanFrame));
    assert_eq!(view(TelemetrySourceKind::FrameStream, "tcp://a", 9), Some(TestSignalView::TcpFrame));
    assert_eq!(view(TelemetrySourceKind::Unknown, "x", 4), Some(TestSignalView::Sent));
    assert_eq!(view(TelemetrySourceKind::Unknown, "x", 5), None);
}

fn titles(board: &WindowBoard) -> Vec<&str> {
    board.windows.iter().map(|window| window.title.as_str()).collect()
}

#[test]
fn windows_come_in_groups() {
    let mut board = WindowBoard::new();
    board.add_dynamic_window();
    assert_eq!(board.windows.len(), 5);
    assert_eq!(titles(&board)[0], "sent_t1_angle_1");
    board.switch_to_view(TestSignalView::TcpFrame);
    assert_eq!(titles(&board)[3], "tcp_sensor_3_1");
    board.add_dynamic_window();
    assert_eq!(titles(&board)[4], "tcp_sensor_3_2");
    assert_eq!(titles(&board)[7], "tcp_sensor_6_2");
    let mut open = vec![true; 8];
    open[0] = false;
    open[7] = false;
    board.keep_open(&open);
    assert_eq!(board.windows.len(), 6);
    assert_eq!(titles(&board)[0], "tcp_sensor_1_1");
    assert!(board.show(Some(TestSignalView::Demo)));
    assert!(!board.show(Some(TestSignalView::Demo)));
    assert_eq!(titles(&board), vec!["demo_x_1", "demo_y_1", "demo_z_1"]);
    board.clear();
    assert!(board.show(Some(TestSignalView::Demo)));
    assert_eq!(titles(&board)[0], "demo_x_2");
    assert!(!board.show(None));
}

#[test]
fn bindings_know_their_signals() {
    assert_eq!(SignalBinding::Sent3Angle.sensor_id(), 4);
    assert_eq!(SignalBinding::TcpSensor(7).sensor_id(), 7);
    assert!(SignalBinding::TcpSensor(7).uses_tcp_series());
    assert!(SignalBinding::CanAxisZ.is_can_axis());
    assert_eq!(SignalBinding::Sent1P1.value_label(), "torque");
    assert_eq!(SignalBinding::DemoAxisX.chart_label(), Some("demo axis X"));
    assert_eq!(SignalBinding::TcpSensor(1).chart_label(), None);
    assert_eq!(SignalBinding::DemoAxisY.demo_derived_angle_id(), Some("sensor_1_angle"));
}

fn alarm(device: &str, id: &str, level: AlarmLevel, cleared: bool) -> AlarmEvent {
    AlarmEvent {
        device_id: device.to_string(),
        alarm_id: id.to_string(),
        level,
        message: String::new(),
        raised_at: WALL,
        cleared,
    }
}

#[test]
fn alarms_stay_until_they_are_cleared() {
    let mut board = AlarmBoard::new();
    assert!(board.summary_level().is_none());
    board.apply_alarm(alarm("can://a", "x", AlarmLevel::Warning, false), Instant { nanos: 1 });
    board.apply_alarm(alarm("d", "demo_alarm_bit", AlarmLevel::Info, false), Instant { nanos: 2 });
    assert_eq!(board.summary_level(), Some(AlarmLevel::Warning));
    assert_eq!(board.active_len(), 2);
    assert_eq!(board.active_items()[0].event.alarm_id, "demo_alarm_bit");
    assert!(matches!(board.indicator(AlarmGroup::Demo), Some((_, true))));
    board.apply_alarm(alarm("d", "demo_alarm_bit", AlarmLevel::Info, true), Instant { nanos: 3 });
    assert!(matches!(board.indicator(AlarmGroup::Demo), Some((item, false)) if item.event.cleared));
    assert!(matches!(board.indicator(AlarmGroup::Can), Some((_, true))));
    assert!(board.indicator(AlarmGroup::SentError).is_none());
    assert_eq!((board.active_len(), board.history_len(), board.total()), (1, 3, 3));
    assert_eq!(alarm_key(&board.history_item(2).event), "can://a::x");
    assert_eq!(alarm_level_text(&AlarmLevel::Purple), "PURPLE");
}

#[test]
fn alarm_history_is_limited() {
    let mut board = AlarmBoard::new();
    for i in 0..60u128 {
        board.apply_alarm(alarm("d", &format!("{i}"), AlarmLevel::Info, true), Instant { nanos: i });
    }
    assert_eq!(board.history_len(), MAX_ALARM_HISTORY);
    assert_eq!(board.history_item(0).event.alarm_id, "59");
    assert_eq!(board.total(), 60);
}

#[test]
fn limits_are_put_into_force_together() {
    let mut limits = CanAlarmThresholds::new();
    limits.input.x_high = " 5.5 ".to_string();
    limits.input.y_low = "bad".to_string();
    assert_eq!(limits.apply_can_alarm_thresholds().unwrap_err(), "无效阈值: bad");
    assert_eq!(limits.can_alarm_rule(0), Some(("", "")));
    limits.input.y_low = "-1".to_string();
    assert!(limits.apply_can_alarm_thresholds().is_ok());
    assert_eq!(limits.can_alarm_rule(0), Some(("5.5", "")));
    assert_eq!(limits.can_alarm_rule(1), Some(("", "-1")));
    assert_eq!(limits.can_alarm_rule(3), None);
    assert_eq!(validate_threshold_text("  "), Ok(String::new()));
}

#[test]
fn values_pass_their_limits() {
    let mut monitor = LimitMonitor::new();
    let high = Some(num(10.0));
    let mut check = |value: f64, high: Option<Real>| {
        monitor.evaluate_can_threshold_alarms("can://a", 0, num(value), high, Some(num(-10.0)))
    };
    assert!(check(9.0, high).is_empty());
    let raised = check(10.0, high);
    assert_eq!(raised.len(), 1);
    assert!(!raised[0].cleared);
    assert!(check(11.0, high).is_empty());
    let both = check(-11.0, high);
    assert_eq!((both[0].cleared, both[1].cleared), (true, false));
    let event = limit_event("can://a", both[1], "-10.000", "-11.000", WALL);
    assert_eq!(event.alarm_id, "can_x_l");
    assert_eq!(event.message, "axis=x, bound=l, threshold=-10.000, value=-11.000");
    check(12.0, high);
    let gone = check(12.0, None);
    assert!(gone[0].cleared);
    assert_eq!(gone[0].threshold, num(12.0));
    let other = monitor.evaluate_can_threshold_alarms("tcp://a", 0, num(99.0), high, None);
    assert!(other.is_empty());
}

fn distance(a: Real, b: Real) -> Real {
    num((f64::from_bits(a.bits) - f64::from_bits(b.bits)).abs())
}

#[test]
fn torques_that_jump() {
    let t = sent_jump_thresholds(None, None, None);
    assert_eq!((t.warn, t.red, t.purple), (num(0.2), num(0.3), num(0.4)));
    let mut monitor = TorqueMonitor::new();
    assert!(monitor.evaluate_sent_torque_jump("d", 1, num(1.0), &t, distance).is_empty());
    let alarms = monitor.evaluate_sent_torque_jump("d", 1, num(1.25), &t, distance);
    assert_eq!(alarms[0].level, SentJumpLevel::Warning);
    let alarms = monitor.evaluate_sent_torque_jump("d", 1, num(2.25), &t, distance);
    assert_eq!((alarms[0].cleared, alarms[0].level), (true, SentJumpLevel::Warning));
    assert_eq!((alarms[1].cleared, alarms[1].level), (false, SentJumpLevel::Purple));
    assert_eq!(monitor.state_for_sensor(1).alert_count, 2);
    monitor.evaluate_sent_torque_jump("e", 1, num(0.0), &t, distance);
    assert_eq!(monitor.state_for_sensor(1).level, SentJumpLevel::Purple);
    assert_eq!(monitor.state_for_sensor(3).level.as_str(), "OK");
    let texts = JumpTexts {
        delta: "1.000".to_string(),
        warn: "0.200".to_string(),
        red: "0.300".to_string(),
        purple: "0.400".to_string(),
    };
    let event = jump_event("d", alarms[1], &texts, WALL);
    assert_eq!(event.alarm_id, "sent_torque_jump_t1");
    assert_eq!(event.level, AlarmLevel::Purple);
    assert_eq!(event.message, "T1 torque jump=1.000, warn=0.200, red=0.300, purple=0.400");
    assert_eq!(sent_jump_level(&t, num(0.2)), SentJumpLevel::Normal);
    assert_eq!(sent_jump_level(&t, num(0.3)), SentJumpLevel::Critical);
}

#[test]
fn jump_thresholds_do_not_cross() {
    let t = sent_jump_thresholds(Some(num(-5.0)), Some(num(1.0)), None);
    assert_eq!((t.warn, t.red, t.purple), (num(5.0), num(5.0), num(5.0)));
    let apply = |warn: f64, red: f64, purple: f64| {
        apply_sent_jump_thresholds("1", "1", "1", Some(num(warn)), Some(num(red)), Some(num(purple)))
    };
    assert!(apply(1.0, 2.0, 3.0).is_ok());
    assert_eq!(apply(2.0, 1.0, 3.0).unwrap_err(), "red threshold must be >= warning threshold");
    assert_eq!(apply(1.0, 3.0, 2.0).unwrap_err(), "purple threshold must be >= red threshold");
    let err = apply_sent_jump_thresholds("1", "q", "1", None, None, None).unwrap_err();
    assert_eq!(err, "无效阈值: q");
    assert_eq!(apply_sent_angle_jump_threshold("-2", Some(num(-2.0))), Ok(num(2.0)));
    assert!(apply_sent_angle_jump_threshold("x", None).is_err());
}

#[test]
fn angles_that_jump() {
    let mut monitor = AngleMonitor::new();
    assert!(monitor.evaluate_sent_angle_jump("d", 0, num(10.0), num(1.0), distance).is_none());
    let alarm = monitor.evaluate_sent_angle_jump("d", 0, num(12.0), num(1.0), distance).unwrap();
    assert!(!alarm.cleared);
    let event = angle_event("d", alarm, "2.000", "1.000", WALL);
    assert_eq!(event.alarm_id, "sent_angle_jump_t1");
    assert_eq!(event.message, "T1 angle jump=2.000, red=1.000");
    assert!(monitor.state_for_sensor(0).active);
    let alarm = monitor.evaluate_sent_angle_jump("d", 0, num(12.5), num(1.0), distance).unwrap();
    assert!(alarm.cleared);
    assert_eq!(monitor.state_for_sensor(0).alert_count, 1);
}

fn minus(a: Real, b: Real) -> Real {
    num(f64::from_bits(a.bits) - f64::from_bits(b.bits))
}

#[test]
fn series_hold_a_window() {
    assert_eq!(f64::from_bits(WINDOW_SECS_BITS), 30.0);
    let mut series = SensorSeries::new();
    for i in 0..60 {
        let t = i as f64;
        series.push("d", num(t), num(t * 2.0), minus);
    }
    assert_eq!(series.points.len(), 31);
    assert_eq!(series.points[0].0, num(29.0));
    assert_eq!(series.latest, Some(num(118.0)));
    assert_eq!(value_range(&series.points), Some((num(58.0), num(118.0))));
    for _ in 0..5000 {
        series.push("d", num(59.0), num(0.0), minus);
    }
    assert_eq!(series.points.len(), 4096);
}

#[test]
fn points_within_the_window_stay() {
    let mut series = SensorSeries::new();
    series.push("d", num(0.0), num(1.0), minus);
    series.push("d", num(20.0), num(2.0), minus);
    assert_eq!(series.points, vec![(num(0.0), num(1.0)), (num(20.0), num(2.0))]);
    assert_eq!(series.latest, Some(num(2.0)));
    series.push("d", num(30.0), num(3.0), minus);
    assert_eq!(series.points.len(), 3);
    series.push("e", num(30.5), num(4.0), minus);
    assert_eq!(series.points.len(), 3);
    assert_eq!(series.points[0].0, num(20.0));
    assert_eq!(series.device_id, "e");
}

#[test]
fn charts_break_at_gaps() {
    let f = false;
    let t = true;
    assert_eq!(chart_lines(&vec![f, f, f, t, t, f, f]), vec![(0, 3), (4, 7)]);
    assert_eq!(chart_lines(&vec![f]), vec![]);
    assert_eq!(chart_lines(&vec![]), vec![]);
    let nothing = SensorSeries::new();
    assert_eq!(value_range(&nothing.points), None);
    assert!(line_breaks(&nothing.points, minus).is_empty());
}

#[test]
fn stretches_without_a_gap_are_drawn() {
    assert_eq!(f64::from_bits(LINE_BREAK_GAP_BITS), 2.0);
    let mut series = SensorSeries::new();
    for t in [0.0, 1.0, 3.0, 5.5, 8.0, 8.5] {
        series.push("d", num(t), num(t), minus);
    }
    let breaks = line_breaks(&series.points, minus);
    assert_eq!(breaks, vec![false, false, false, true, true, false]);
    assert_eq!(chart_lines(&breaks), vec![(0, 3), (4, 6)]);
}

#[test]
fn feed_is_read_until_nobody_listens() {
    let mut stats = FeedStats::new();
    let step = stats.step(FeedEvent::NotConnected { error: "refused".to_string() });
    assert_eq!(step.report.unwrap(), "等待 collector 中: refused");
    assert_eq!(step.action, FeedAction::Reconnect(Duration::from_millis(500)));
    let step = stats.step(FeedEvent::Connected { addr: "127.0.0.1:19011".to_string() });
    assert_eq!(step.report.unwrap(), "已连接 collector feed: 127.0.0.1:19011");
    assert_eq!(step.action, FeedAction::Read);
    assert_eq!(stats.step(FeedEvent::Message).action, FeedAction::Queue);
    assert_eq!(stats.step(FeedEvent::Queued).action, FeedAction::Read);
    let step = stats.step(FeedEvent::Broken);
    assert_eq!(step.report.unwrap(), "collector feed 已断开，正在重连");
    assert_eq!(step.action, FeedAction::Reconnect(Duration::from_millis(300)));
    let step = stats.step(FeedEvent::Ended);
    assert!(step.report.is_none());
    assert_eq!(step.action, FeedAction::Reconnect(Duration::from_millis(300)));
    assert_eq!(stats.step(FeedEvent::QueueGone).action, FeedAction::Stop);
    assert_eq!(stats, FeedStats::new());
}

#[test]
fn losses_of_the_feed_are_counted() {
    let mut stats = FeedStats::new();
    for _ in 0..3 {
        assert_eq!(stats.step(FeedEvent::QueueFull).action, FeedAction::Read);
    }
    let step = stats.step(FeedEvent::NoMessage);
    assert_eq!(step.report.unwrap(), "feed decode error");
    assert_eq!(step.action, FeedAction::Read);
    assert_eq!((stats.dropped_samples, stats.decode_errors), (3, 1));
    stats.dropped_samples = u64::MAX;
    stats.step(FeedEvent::QueueFull);
    assert_eq!((stats.dropped_samples, stats.decode_errors), (0, 1));
}

fn keep(_: &DerivedFormula, value: Real) -> Real {
    value
}

#[test]
fn samples_go_to_their_charts() {
    let mut board = SignalBoard::new();
    let raw = |device: &str, sensor_id| RawSample {
        device_id: device.to_string(),
        sensor_id,
        t_sec: num(1.0),
        value: num(5.0),
        req_id: 1,
    };
    let mut places = Vec::new();
    for sample in board.ingest_raw(raw("serial://a", 0), keep) {
        places.push(board.apply_signal_sample(&sample, minus));
    }
    assert_eq!(places, vec![Placed::Sensor(0), Placed::Derived]);
    for sample in board.ingest_raw(raw("tcp://a", 7), keep) {
        assert_eq!(board.apply_signal_sample(&sample, minus), Placed::Tcp(7));
    }
    assert_eq!(board.chart(SignalBinding::DemoAxisX).unwrap().latest, Some(num(5.0)));
    assert_eq!(board.chart(SignalBinding::TcpSensor(7)).unwrap().latest, Some(num(5.0)));
    assert_eq!(board.chart(SignalBinding::TcpSensor(6)).unwrap().latest, None);
    assert!(board.chart(SignalBinding::TcpSensor(10)).is_none());
    assert_eq!(
        board.latest_demo_derived_angle(SignalBinding::DemoAxisX, "serial://a"),
        Some(("sensor_0_angle", num(5.0)))
    );
    assert_eq!(board.latest_demo_derived_angle(SignalBinding::DemoAxisX, ""), None);
    assert_eq!(board.sensor_label(1), "sent_t1_torque [Nm]");
    assert_eq!(board.sensor_label(11), "Sensor 11");
    for (id, input, offset, scale) in [
        ("sensor_0_angle", "sensor_0_raw", 2048.0, 40.0 / 4092.0),
        ("sensor_1_angle", "sensor_1_raw", 2047.5, 12.0 / 4079.0),
        ("sensor_2_angle", "sensor_2_raw", 2048.0, -40.0 / 4092.0),
        ("sensor_3_angle", "sensor_3_raw", 2047.5, -12.0 / 4079.0),
    ] {
        match &board.spec(id).unwrap().kind {
            SignalKind::Derived {
                formula: DerivedFormula::OffsetScale { input_signal_id, input_offset, scale: by },
            } => {
                assert_eq!(input_signal_id, input);
                assert_eq!(*input_offset, num(offset));
                assert_eq!(*by, num(scale));
            }
            _ => panic!("{id} should be derived"),
        }
    }
}

#[test]
fn replay_asks_for_a_stretch_of_time() {
    let mut replay = CanReplayState::new();
    replay.open_can_replay(1_700_000_000_000);
    assert_eq!(replay.end_ts_input, format_datetime_input(1_700_000_000_000));
    let (from, to) = replay.request_can_replay_load().unwrap();
    assert_eq!(to - from, 300_000);
    assert!(replay.loading);
    assert!(replay.request_can_replay_load().is_none());
    assert!(!replay.loaded(ReplayMode::Sent, Ok(5)));
    assert!(!replay.loading && !replay.has_data);
    assert!(replay.loaded(ReplayMode::Can3Axis, Ok(5)));
    assert_eq!(replay.status, "已加载 5 条回放点位");
    assert!(replay.loaded(ReplayMode::Can3Axis, Err("down")));
    assert_eq!(replay.status, "加载失败: down");
    replay.choose_mode(ReplayMode::Sent);
    assert_eq!(replay.status, ReplayMode::Sent.empty_status());
}

#[test]
fn replay_refuses_bad_ranges() {
    let mut replay = CanReplayState::new();
    replay.start_ts_input = "x".to_string();
    replay.end_ts_input = "5".to_string();
    assert!(replay.request_can_replay_load().is_none());
    assert_eq!(replay.status, "开始时间请输入 ts_ms 或 YYYY-MM-DD HH:MM:SS");
    replay.start_ts_input = "5".to_string();
    assert!(replay.request_can_replay_export().is_none());
    assert_eq!(replay.status, "结束时间必须大于开始时间");
    replay.end_ts_input = "y".to_string();
    assert!(replay.request_can_replay_load().is_none());
    assert_eq!(replay.status, "结束时间请输入 ts_ms 或 YYYY-MM-DD HH:MM:SS");
}

#[test]
fn exports_choose_their_series() {
    let mut replay = CanReplayState::new();
    replay.start_ts_input = "1".to_string();
    replay.end_ts_input = "2".to_string();
    replay.show = [false, false, false, true, true];
    assert!(replay.request_can_replay_export().is_none());
    assert_eq!(replay.status, "至少勾选一个轴后再导出");
    replay.mode = ReplayMode::Sent;
    let request = replay.request_can_replay_export().unwrap();
    assert_eq!(request.show, [false, false, false, true, true]);
    assert!(replay.request_can_replay_export().is_none());
    replay.exported(Ok("a.txt"));
    assert_eq!(replay.status, "导出完成: a.txt");
    assert!(!replay.exporting);
    replay.exported(Err("disk"));
    assert_eq!(replay.status, "导出失败: disk");
    assert_eq!(ReplayMode::Sent.series_of("t2_torque"), Some(3));
    assert_eq!(ReplayMode::Can3Axis.series_of("t2_torque"), None);
    assert_eq!(total_span_ms(5, 3), 0);
    assert_eq!(total_span_ms(i64::MIN, i64::MAX), u64::MAX);
}

#[test]
fn exports_are_read_back() {
    let mut file = export_head(ReplayMode::Can3Axis, -5, 7);
    assert_eq!(
        file,
        "# CAN 3-axis export\n# start_ts_ms=-5\n# end_ts_ms=7\nts_ms\tdevice_id\taxis\tvalue\trequest_id\n"
    );
    file.push_str(&export_row(-5, "can://a b", "z", "1.500000", 9));
    file.push_str(&export_row(7, "can://a b", "x", "-2.000000", 10));
    let rows = parse_can_export_file(&file).unwrap();
    assert_eq!(rows.len(), 2);
    assert_eq!((rows[0].ts_ms, rows[0].item.identifier), (-5, 0x104));
    assert_eq!(rows[1].item.value, "-2.000000");
}

#[test]
fn client_takes_messages_in() {
    let mut client = UiClient::new();
    assert_eq!((client.status.as_str(), client.last_self_test.as_str()), ("starting...", "未执行"));
    assert!(client.windows.windows.is_empty());
    client.windows.add_dynamic_window();
    assert_eq!(client.windows.windows[0].title, "sent_t1_angle_1");
    client.windows.keep_open(&vec![false; 5]);
    client.take_status("CAN 自检结果: X=通过".to_string());
    client.take_status("something else".to_string());
    assert_eq!(client.status, "something else");
    assert_eq!(client.last_self_test, "CAN 自检结果: X=通过");
    let plan = client.take_sample("can://a", 1, 9, false, TelemetrySourceKind::CanSent);
    assert!(plan.windows_changed && plan.charted && plan.torque && !plan.angle);
    assert_eq!((client.total_samples, client.last_req), (1, 9));
    let plan = client.take_sample("can://a", 12, 10, false, TelemetrySourceKind::CanSent);
    assert!(!plan.charted && !plan.windows_changed);
    assert_eq!((client.total_samples, client.last_req), (1, 9));
    client.take_sample("serial://a", 0, 11, true, TelemetrySourceKind::SerialDemo);
    assert_eq!(client.demo_alarm_bit, Some(true));
}

#[test]
fn self_tests_are_sent() {
    let mut client = UiClient::new();
    let frame = client.send_can_self_test();
    assert_eq!((frame.identifier, frame.dlc, frame.data[0]), (0x123, 8, 0xA5));
    client.self_test_sent(&Ok(()));
    assert!(client.status.starts_with("CAN self-test queued: id=0x123 dlc=8 data=[A5, 22, 33"));
    client.self_test_sent(&Err("closed".to_string()));
    assert_eq!(client.last_self_test, "CAN self-test failed: closed");
    assert_eq!(client.self_tests, 1);
}

#[test]
fn settings_come_from_three_places() {
    let some = |s: &str| Some(s.to_string());
    assert_eq!(choose_setting(&some("a"), &some("b"), "c"), "a");
    assert_eq!(choose_setting(&some("  "), &some("b"), "c"), "b");
    assert_eq!(choose_setting(&None, &some(" "), "c"), "c");
}
