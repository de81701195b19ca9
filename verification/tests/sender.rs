use demo2::bus::{AppEvent, DeviceEvent};
use demo2::command_line::Parsed;
use demo2::ingress::can::decode_axis_sample;
use demo2::ingress::payload::parse_sensor_value;
use demo2::ingress::serial::{SerialIngress, SerialIngressMode};
use demo2::number::{Number, Real};
use demo2::protocol::{CodecError, Frame, FrameCodec, SentFrameCodec, SimpleFrameCodec};
use demo2::sender::config_sync::{
    set_can_collector, set_collector_mode, sync_can_collector_config, sync_collector_mode,
    SyncError,
};
use demo2::sender::format::OutputFormat;
use demo2::sender::frames::{
    build_demo_frame, build_sent_frame, encode_demo_axis_sample, encode_frame, sent_log,
    total_ticks, DemoSample, LineSender,
};
use demo2::sender::link::{
    ack_body_len, ack_line, best_stage, check_ack, tick_interval_us, tries_again, AckError, AckReader,
    FrameOutcome, FrameWrite, StageCounters, StageRate, WriteEvent, WriteStep,
};
use demo2::sender::options::{parse_args, SenderConfig, SenderEnvironment, SenderFields};
use demo2::sender::panel::{can_tx_message, SenderPanel, WorkerMsg, MAX_LOG_LINES};
use demo2::sender::replay::{
    delay_ms, export_frame, export_log, parse_can_export_file, parse_replay_file, reports_progress,
    rows_in_window, RowError,
};
use demo2::text::{read_float, read_signed, read_unsigned};
use demo2::transport::can::CanFrame;
use demo2::toml_doc::Document;
use bytes::BytesMut;
use std::time::SystemTime;

fn bare() -> SenderEnvironment {
    SenderEnvironment {
        port: None,
        baud: None,
        sensors: None,
        interval_ms: None,
        duration_secs: None,
        format: None,
    }
}

fn args(words: &[&str]) -> Vec<String> {
    words.iter().map(|word| word.to_string()).collect()
}

fn run(words: &[&str]) -> SenderConfig {
    match parse_args(&bare(), &args(words)) {
        Parsed::Run(cfg) => cfg,
        other => panic!("unexpected {:?}", other),
    }
}

fn fault(words: &[&str]) -> String {
    match parse_args(&bare(), &args(words)) {
        Parsed::Failed(fault) => fault.to_text(),
        other => panic!("unexpected {:?}", other),
    }
}

#[test]
fn sender_options() {
    let cfg = run(&[]);
    assert_eq!((cfg.port.as_str(), cfg.baud, cfg.sensor_count), ("COM4", 2_000_000, 4));
    assert_eq!((cfg.interval_ms, cfg.duration_secs, cfg.format), (30, 60, OutputFormat::Sent1));
    let cfg = run(&["--port", "X", "--baud", "9600", "--format", "Legacy", "--sensors", "2"]);
    assert_eq!((cfg.port.as_str(), cfg.baud, cfg.sensor_count), ("X", 9600, 2));
    assert_eq!(cfg.format, OutputFormat::Legacy);
    assert!(matches!(parse_args(&bare(), &args(&["--baud", "1", "-h"])), Parsed::Help));
}

#[test]
fn sender_option_faults() {
    assert_eq!(fault(&["--baud"]), "missing value for --baud");
    assert_eq!(
        fault(&["--baud", "x"]),
        "invalid --baud: invalid digit found in string"
    );
    assert_eq!(fault(&["--format", "demo"]), "invalid --format: demo");
    assert_eq!(
        fault(&["--sensors", "-1"]),
        "invalid --sensors: invalid digit found in string"
    );
    assert_eq!(
        fault(&["--interval-ms", ""]),
        "invalid --interval-ms: cannot parse integer from empty string"
    );
    assert_eq!(
        fault(&["--duration-secs", "1.5"]),
        "invalid --duration-secs: invalid digit found in string"
    );
    assert_eq!(fault(&["stray"]), "unknown argument: stray");
    assert_eq!(fault(&["--port", "  "]), "serial port cannot be empty");
    assert_eq!(fault(&["--baud", "0"]), "baud must be > 0");
    assert_eq!(fault(&["--sensors", "0"]), "sensor count must be > 0");
    assert_eq!(
        fault(&["--format", "legacy", "--interval-ms", "0"]),
        "interval must be > 0 in legacy mode"
    );
}

#[test]
fn sender_environment_fills_in() {
    let mut env = bare();
    env.port = Some("COM7".to_string());
    env.baud = Some("not a number".to_string());
    env.format = Some("sent539".to_string());
    match parse_args(&env, &args(&[])) {
        Parsed::Run(cfg) => {
            assert_eq!((cfg.port.as_str(), cfg.baud), ("COM7", 2_000_000));
            assert_eq!(cfg.format, OutputFormat::Sent3);
        }
        other => panic!("unexpected {:?}", other),
    }
}

fn fields() -> SenderFields {
    SenderFields {
        port: " COM4 ".to_string(),
        baud: " 115200 ".to_string(),
        format: "DEMO".to_string(),
        sensor_count: "4".to_string(),
        interval_ms: "30".to_string(),
        duration_secs: "60".to_string(),
    }
}

#[test]
fn fields_of_the_sender_window() {
    let cfg = fields().parse_config().unwrap();
    assert_eq!((cfg.port.as_str(), cfg.baud, cfg.format), ("COM4", 115200, OutputFormat::Demo));
    let fault = |change: &dyn Fn(&mut SenderFields)| {
        let mut f = fields();
        change(&mut f);
        f.parse_config().unwrap_err().to_text()
    };
    assert_eq!(fault(&|f| f.port = " ".to_string()), "serial port cannot be empty");
    assert_eq!(
        fault(&|f| f.baud = "x".to_string()),
        "invalid baud: invalid digit found in string"
    );
    assert_eq!(
        fault(&|f| f.sensor_count = "x".to_string()),
        "invalid sensors: invalid digit found in string"
    );
    assert_eq!(fault(&|f| f.format = "x".to_string()), "invalid format");
    assert_eq!(
        fault(&|f| f.interval_ms = "x".to_string()),
        "invalid interval: invalid digit found in string"
    );
    assert_eq!(
        fault(&|f| f.duration_secs = "x".to_string()),
        "invalid duration: invalid digit found in string"
    );
    assert_eq!(fault(&|f| f.baud = "0".to_string()), "baud and sensors must be > 0");
    assert_eq!(
        fault(&|f| {
            f.format = "legacy".to_string();
            f.interval_ms = "0".to_string();
        }),
        "interval must be > 0 in legacy mode"
    );
}

#[test]
fn formats_have_names() {
    for format in OutputFormat::all() {
        assert_eq!(OutputFormat::parse(format.label()), Some(format));
    }
    assert_eq!(OutputFormat::parse_line("demo"), None);
    assert_eq!(OutputFormat::Sent2.frame_us(), Some(484));
    assert_eq!(OutputFormat::Legacy.frame_us(), None);
    assert_eq!(OutputFormat::Sent3.collector_serial_mode(), "sent");
}

#[test]
fn line_sender_counts_up() {
    let mut sender = LineSender::new();
    let (id, bytes) = sender.next_frame(3, "1.250");
    assert_eq!(id, 10_000);
    let mut buf = BytesMut::from(&bytes.unwrap()[..]);
    let frame = SimpleFrameCodec::new(4096).try_decode(&mut buf).unwrap().unwrap();
    assert_eq!((frame.request_id, frame.kind), (10_000, 0x34));
    assert_eq!(parse_sensor_value(&frame.payload), Some((3, "1.250".to_string())));
    sender.written();
    sender.acknowledged(u64::MAX);
    sender.acknowledged(5);
    assert_eq!((sender.next_request_id, sender.sent_frames), (10_001, 1));
    assert_eq!(sender.ack_frames, u64::MAX);
    let too_long = "1".repeat(5000);
    assert!(matches!(sender.next_frame(0, &too_long).1, Err(CodecError::FrameTooLarge(5012))));
    assert_eq!(total_ticks(60, 30), 2000);
}

#[test]
fn raw_frames_are_those_of_the_codec() {
    let mut out = BytesMut::new();
    let frame = Frame { request_id: 5, kind: 0x34, payload: b"abc".to_vec() };
    SimpleFrameCodec::new(16).encode(&frame, &mut out).unwrap();
    assert_eq!(encode_frame(5, 0x34, b"abc"), out.to_vec());
    let long = encode_frame(1, 2, &vec![0; 65_536]);
    assert_eq!(long[2..4], [0, 9]);
}

#[test]
fn only_rolling_counters_add() {
    let frame = build_sent_frame(3, u64::MAX, 7, 8, OutputFormat::Sent1);
    assert_eq!((frame.status, frame.channel_1, frame.channel_2, frame.pause), (3, 7, 8, 1));
    let rolling = build_sent_frame(3, u64::MAX - 3, 7, 8, OutputFormat::Sent3);
    assert_eq!(rolling.pause, 0xB);
}

#[test]
fn sent_frames_tell_their_format() {
    let frame = build_sent_frame(0x12, 7, 100, 200, OutputFormat::Sent1);
    assert_eq!((frame.status, frame.pause), (2, 1));
    let frame = build_sent_frame(0x12, 7, 100, 200, OutputFormat::Sent2);
    assert_eq!(frame.pause, 6);
    let frame = build_sent_frame(0x12, 7, 100, 200, OutputFormat::Sent3);
    assert_eq!((frame.pause, frame.channel_2 & 0xF), (0xB, (7 + 0x12) & 0xF));
    let frame = build_sent_frame(1, 0, 0x123, 0x045, OutputFormat::Sent1);
    let raw = SentFrameCodec::encode_frame(frame);
    let line = sent_log(OutputFormat::Sent1, 1, 1, frame, &raw);
    assert!(line.starts_with("SENT1 frame=1 pair=1 status=0x1 p1=0x123 p2=0x045 crc=0x"));
    assert!(line.ends_with(&format!("raw={:02X?}", raw)));
}

#[test]
fn demo_frames_arrive() {
    let mut samples = vec![DemoSample { x: 0, y: 0, z: 0, alarm: false }; 256];
    samples[1] = DemoSample { x: -8192, y: 8191, z: -3, alarm: true };
    let raw = build_demo_frame(&samples);
    assert_eq!(raw.len(), 4 + 8192);
    let mut port = SerialIngress::new("p", SerialIngressMode::Demo);
    port.receive(&raw);
    let mut values = Vec::new();
    while let Some(events) = port.step(0, SystemTime::UNIX_EPOCH) {
        for event in events {
            if let AppEvent::Device(DeviceEvent::TelemetrySample(sample)) = event {
                if let Number::Integer(value) = sample.value {
                    values.push((value, sample.alarm_bit));
                }
            }
        }
    }
    assert_eq!(values[3..6], [(-8192, true), (8191, true), (-3, true)]);
    assert_eq!(values[6], (0, false));
    assert_eq!(encode_demo_axis_sample(i16::MAX), i16::MAX.to_le_bytes());
    assert_eq!(encode_demo_axis_sample(i16::MIN), i16::MIN.to_le_bytes());
}

#[test]
fn frames_are_written_whole() {
    let (mut write, step) = FrameWrite::new(10);
    assert_eq!(step, WriteStep::Write);
    assert_eq!(write.next(WriteEvent::Wrote(4)), WriteStep::Write);
    assert_eq!(write.offset, 4);
    assert_eq!(write.next(WriteEvent::TimedOut), WriteStep::Pause);
    assert_eq!(write.next(WriteEvent::Wrote(0)), WriteStep::Pause);
    assert_eq!(write.next(WriteEvent::Wrote(6)), WriteStep::Flush);
    assert_eq!(FrameWrite::new(0).1, WriteStep::Flush);
}

#[test]
fn writes_without_progress_are_given_up() {
    let (mut write, _) = FrameWrite::new(1);
    for _ in 0..20 {
        assert_eq!(write.next(WriteEvent::Wrote(0)), WriteStep::Pause);
    }
    assert_eq!(write.next(WriteEvent::Wrote(0)), WriteStep::NoProgress);
    assert_eq!(write.next(WriteEvent::TimedOut), WriteStep::Fail);
    assert_eq!(FrameWrite::new(1).0.next(WriteEvent::Failed), WriteStep::Fail);
}

#[test]
fn acknowledgements_are_logged() {
    let mut reader = AckReader::new();
    let mut bytes = encode_frame(7, 0x90, b"ok");
    bytes.extend(encode_frame(8, 0x91, &[0xFF]));
    reader = reader.receive(&bytes[..10]);
    let (next, lines) = reader.drain();
    assert!(lines.is_empty());
    assert_eq!(next.unread_len(), 10);
    let (next, lines) = next.receive(&bytes[10..]).drain();
    assert_eq!(
        lines,
        vec![
            "ack request_id=7 kind=0x90 payload=ok".to_string(),
            "ack request_id=8 kind=0x91 payload=\u{FFFD}".to_string(),
        ]
    );
    assert_eq!(next.unread_len(), 0);
}

#[test]
fn acknowledgements_are_checked() {
    let ack = encode_frame(7, 0x90, b"ok");
    let len = ack_body_len([ack[0], ack[1], ack[2], ack[3]]).unwrap();
    assert_eq!(len, 11);
    assert!(check_ack(&ack[4..]).is_ok());
    let mut bad = ack[4..].to_vec();
    bad[0] ^= 1;
    let err = check_ack(&bad).unwrap_err();
    assert_eq!((err, err.as_str()), (AckError::BadCrc, "bad crc"));
    let err = ack_body_len([0xAA, 0x54, 0, 11]).unwrap_err();
    assert_eq!((err, err.as_str()), (AckError::BadMagic, "bad magic"));
    let err = ack_body_len([0xAA, 0x55, 0, 8]).unwrap_err();
    assert_eq!((err, err.as_str()), (AckError::BadLength, "bad body length"));
    assert!(ack_body_len([0xAA, 0x55, 0x20, 0x01]).is_err());
}

#[test]
fn stages_are_counted_and_compared() {
    let mut counters = StageCounters::new();
    counters.count(FrameOutcome::Acknowledged);
    counters.count(FrameOutcome::NotAcknowledged);
    counters.count(FrameOutcome::NotWritten);
    counters.tick();
    assert_eq!((counters.sent_frames, counters.ack_ok, counters.ack_fail), (2, 1, 2));
    assert_eq!(counters.ticks, 1);
    assert_eq!(tick_interval_us(80), 12_500);
    assert_eq!(tick_interval_us(3_000_000), 1);
    assert!(tries_again(29) && !tries_again(30));

    let stage = |frame_hz: f64, loss: f64| StageRate {
        frame_hz: Real { bits: frame_hz.to_bits() },
        loss: Real { bits: loss.to_bits() },
    };
    let stages = vec![stage(10.0, 0.0), stage(50.0, 1.0), stage(50.0, 0.5), stage(90.0, 1.5)];
    assert_eq!(best_stage(&stages), Some(2));
    assert_eq!(best_stage(&vec![stage(10.0, 2.0)]), None);
    assert_eq!(best_stage(&Vec::new()), None);
}

const EXPORT: &str = "# CAN 3-axis export\n\nts_ms\tdevice_id\taxis\tvalue\trequest_id\n\
    300\tcan://a\ty\t2.5\t8\r\n100\tcan://a\tx\t-1\t7\n300\tcan://a\tz\t1e2\t9\n";

#[test]
fn recordings_are_read_in_the_order_of_time() {
    let rows = parse_can_export_file(EXPORT).unwrap();
    let found: Vec<(i64, u32, &str)> =
        rows.iter().map(|row| (row.ts_ms, row.item.identifier, row.item.value.as_str())).collect();
    assert_eq!(found, vec![(100, 0x100, "-1"), (300, 0x102, "2.5"), (300, 0x104, "1e2")]);
    let rows = parse_replay_file(EXPORT).unwrap();
    assert_eq!(rows.len(), 1);
    assert_eq!((rows[0].ts_ms, rows[0].item.request_id), (300, 8));
}

#[test]
fn faults_in_numbers_have_the_usual_words() {
    let chars = |s: &str| s.chars().collect::<Vec<char>>();
    for s in [
        "", "+", "-", "0", "+7", "-7", "--7", "+-7", "1.5", " 1", "12x", "x12", "４", "65535", "65536",
        "+65536", "655360x", "65x360", "4294967295", "4294967296", "18446744073709551615",
        "18446744073709551616", "18446744073709551616x", "1844674407370955161x6",
        "9223372036854775807", "9223372036854775808", "-9223372036854775808", "-9223372036854775809",
        "-9223372036854775809x", "-922337203685477580x9", "000000000000000000000000001",
    ] {
        let usual = s.parse::<u64>().map_err(|err| err.to_string());
        let read = read_unsigned(&chars(s), u64::MAX).map_err(|fault| fault.as_str().to_string());
        assert_eq!(read, usual, "{s:?} as u64");
        let usual = s.parse::<u16>().map(u64::from).map_err(|err| err.to_string());
        let read = read_unsigned(&chars(s), 65535).map_err(|fault| fault.as_str().to_string());
        assert_eq!(read, usual, "{s:?} as u16");
        let usual = s.parse::<u32>().map(u64::from).map_err(|err| err.to_string());
        let read = read_unsigned(&chars(s), 4294967295).map_err(|fault| fault.as_str().to_string());
        assert_eq!(read, usual, "{s:?} as u32");
        let usual = s.parse::<i64>().map_err(|err| err.to_string());
        let read = read_signed(&chars(s)).map_err(|fault| fault.as_str().to_string());
        assert_eq!(read, usual, "{s:?} as i64");
    }
    for s in ["", "+", "-", ".", "1.", ".5", "1e", "1e5", "e5", "nan", "-INF", "infinite", "1 ", "0x1"] {
        let usual = s.parse::<f64>().map(|_| ()).map_err(|err| err.to_string());
        let read = read_float(&chars(s)).map_err(|fault| fault.as_str().to_string());
        assert_eq!(read, usual, "{s:?} as f64");
    }
}

#[test]
fn faults_in_recordings_are_reported() {
    let fault = |source: &str| parse_can_export_file(source).unwrap_err();
    let short = fault("\n1\t2\t3");
    assert!(matches!(&short, RowError::TooFewColumns { line_no: 2, .. }));
    assert_eq!(short.to_text("CAN export"), "invalid CAN export row at line 2: 1\t2\t3");
    assert_eq!(
        fault("x\td\tx\t1\t1").to_text(""),
        "invalid ts_ms at line 1: invalid digit found in string"
    );
    assert_eq!(fault("1\td\tq\t1\t1").to_text(""), "invalid axis 'q' at line 1");
    assert_eq!(
        fault("1\td\tx\tq\t1").to_text(""),
        "invalid value at line 1: invalid float literal"
    );
    assert_eq!(
        fault("1\td\tx\t\t1").to_text(""),
        "invalid value at line 1: cannot parse float from empty string"
    );
    let late = fault("9223372036854775808\td\tx\t1\t1").to_fault("");
    assert_eq!(late.context, "invalid ts_ms at line 1");
    assert_eq!(late.cause.unwrap(), "number too large to fit in target type");
    let id = parse_replay_file("1\td\ty\t1\tq").unwrap_err();
    assert_eq!(
        id.to_text(""),
        "invalid request_id at line 1: invalid digit found in string"
    );
}

#[test]
fn recordings_keep_their_pace() {
    let rows = parse_can_export_file(
        "0\td\tx\t1\t1\n40\td\tx\t1\t1\n30000\td\tx\t1\t1\n30001\td\tx\t1\t1",
    )
    .unwrap();
    assert_eq!(rows_in_window(&rows), 3);
    assert_eq!(delay_ms(rows[0].ts_ms, rows[1].ts_ms), 40);
    assert_eq!(delay_ms(5, 3), 0);
    assert_eq!(delay_ms(i64::MIN, i64::MAX), u64::MAX);
    assert!(reports_progress(5) && !reports_progress(6) && reports_progress(400));
}

#[test]
fn recorded_values_arrive_on_the_bus() {
    let sent = export_frame(0x102, -70_000);
    let received = CanFrame {
        channel: 0,
        properties: 0,
        dlc: sent.dlc,
        identifier: sent.identifier,
        timestamp_us: 0,
        data: sent.data,
    };
    assert_eq!(decode_axis_sample(&received), Some((1, -70_000)));
    assert_eq!(
        export_log(3, -1, 0x104, 5),
        "CAN export sent row=3 axis=z ts_ms=-1 value=5 id=0x104"
    );
    assert!(export_log(3, 1, 0x105, 5).contains("axis=?"));
}

#[test]
fn collector_mode_is_synced() {
    let first = sync_collector_mode(None, OutputFormat::Demo).unwrap();
    assert_eq!(first.message, "updated collector.serial_mode -> 'demo'");
    let second = sync_collector_mode(Some(&first.file), OutputFormat::Demo).unwrap();
    assert_eq!(second.message, "collector.serial_mode already 'demo'");
    assert_eq!(second.file, first.file);
    let kept = sync_collector_mode(
        Some("title = \"t\"\n[collector]\nserial_port = \"COM1\"\n"),
        OutputFormat::Sent1,
    )
    .unwrap();
    let value: toml::Value = kept.file.parse().unwrap();
    assert_eq!(value["title"].as_str(), Some("t"));
    assert_eq!(value["collector"]["serial_port"].as_str(), Some("COM1"));
    assert_eq!(value["collector"]["serial_mode"].as_str(), Some("sent"));
}

#[test]
fn can_is_switched_on_in_the_configuration() {
    let first = sync_can_collector_config(Some("")).unwrap();
    assert_eq!(first.message, "enabled collector CAN ingress (TC1012 ch0, 500/2000 kbps)");
    let value: toml::Value = first.file.parse().unwrap();
    assert_eq!(value["collector"]["can_enabled"].as_bool(), Some(true));
    assert_eq!(value["collector"]["can_data_baud_kbps"].as_integer(), Some(2000));
    let second = sync_can_collector_config(Some(&first.file)).unwrap();
    assert_eq!(second.message, "collector.can_enabled already true");
}

#[test]
fn broken_configurations_are_refused() {
    let err = sync_can_collector_config(Some("= nonsense")).unwrap_err();
    assert!(matches!(err, SyncError::Parse));
    assert_eq!(err.as_str(), "parse config.toml failed");
    let err = sync_can_collector_config(Some("collector = 5")).unwrap_err();
    assert_eq!(err.as_str(), "config.toml [collector] must be a table");
}

#[test]
fn panel_runs_one_worker_at_a_time() {
    let mut panel = SenderPanel::new();
    assert!(!panel.is_running());
    let cfg = panel.start_worker().unwrap();
    panel.worker_started(&cfg, "synced".to_string());
    assert!(panel.is_running());
    assert_eq!(panel.status, "starting: COM4 @ 2000000");
    assert!(panel.send_can_frame_once().is_none());
    assert_eq!(panel.status, "background task still running");
    assert!(panel.start_can_export_replay().is_none());
    assert!(!panel.handle(WorkerMsg::Stats { sent_frames: 3, ack_frames: 2, last_req: 9 }));
    assert_eq!((panel.sent_frames, panel.ack_frames, panel.last_req), (3, 2, 9));
    assert!(panel.stop_worker());
    assert!(panel.handle(WorkerMsg::Finished { ok: true, message: "bye".to_string() }));
    assert_eq!(panel.status, "finished: bye");
    panel.worker_gone();
    assert!(!panel.is_running());
    assert!(!panel.stop_worker());
    assert_eq!(panel.fields.port, "COM4");
    assert!(panel.can_export_path.ends_with("04-22_13-18-25.txt"));
}

#[test]
fn panel_reports_faults() {
    let mut panel = SenderPanel::new();
    panel.fields.baud = "x".to_string();
    assert!(panel.start_worker().is_none());
    assert_eq!(panel.status, "config error: invalid baud");
    panel.sync_failed("disk");
    assert_eq!(panel.status, "config sync error: disk");
    panel.can_export_path = "  ".to_string();
    assert!(panel.start_can_export_replay().is_none());
    assert_eq!(panel.status, "CAN export path cannot be empty");
    panel.can_export_path = " file ".to_string();
    assert_eq!(panel.start_can_export_replay(), Some("file".to_string()));
    assert_eq!(panel.status, "replaying CAN export: file");
    panel.can_sync_failed("disk");
    assert_eq!(panel.status, "CAN config sync error: disk");
    assert_eq!((panel.can_export_path.as_str(), panel.fields.baud.as_str()), (" file ", "x"));
}

#[test]
fn panel_counts_frames_sent_by_hand() {
    let mut panel = SenderPanel::new();
    panel.can_tx_counter = 255;
    let frame = panel.send_can_frame_once().unwrap();
    assert_eq!(frame.identifier, 0x123);
    assert_eq!(frame.data[..8], [0xFF, 0x22, 0x33, 0x44, 0x55, 0x66, 0x77, 0x88]);
    assert_eq!(panel.status, "sending CAN frame counter=0xFF");
    assert_eq!(panel.can_tx_counter, 0);
    assert_eq!(
        can_tx_message(&frame.data[..2]),
        "CAN TX sent: ch=0 id=0x123 dlc=8 data=[FF, 22]"
    );
}

#[test]
fn panel_keeps_the_latest_lines() {
    let mut panel = SenderPanel::new();
    for i in 0..MAX_LOG_LINES + 5 {
        panel.push_log(format!("line {i}"));
    }
    assert_eq!(panel.logs.len(), MAX_LOG_LINES);
    assert_eq!(panel.logs[0], "line 5");
    panel.can_synced("done".to_string());
    assert_eq!(panel.status, "collector CAN config synced");
    assert_eq!(panel.logs.len(), MAX_LOG_LINES);
}

#[test]
fn documents_are_changed_in_place() {
    let mut collector = toml::map::Map::new();
    collector.insert("serial_mode".to_string(), toml::Value::String("demo".to_string()));
    collector.insert("can_enabled".to_string(), toml::Value::Boolean(true));
    let mut root = toml::map::Map::new();
    root.insert("collector".to_string(), toml::Value::Table(collector));
    let synced = set_collector_mode(Document::Table(root.clone()), OutputFormat::Demo).unwrap();
    assert_eq!(synced.message, "collector.serial_mode already 'demo'");
    let synced = set_collector_mode(Document::Table(root.clone()), OutputFormat::Legacy).unwrap();
    assert_eq!(synced.message, "updated collector.serial_mode -> 'legacy'");
    assert_eq!(synced.file, "[collector]\ncan_enabled = true\nserial_mode = \"legacy\"\n");
    let synced = set_can_collector(Document::Table(root)).unwrap();
    assert_eq!(synced.message, "collector.can_enabled already true");
    assert_eq!(set_can_collector(Document::Invalid).unwrap_err(), SyncError::Parse);
    let err = set_collector_mode(Document::NotTable, OutputFormat::Demo).unwrap_err();
    assert_eq!(err.as_str(), "config.toml root must be a table");
}

#[test]
fn acknowledgement_lines() {
    assert_eq!(ack_line(12, 0x9, "x y"), "ack request_id=12 kind=0x09 payload=x y");
}
