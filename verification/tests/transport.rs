use demo2::time::{Duration, Instant};
use demo2::transport::can::{
    can_dlc_len, check, plan_transmit, resolve_tsmaster_bin, tsmaster_exe_path, wide_null,
    CallbackSenders, CanFrame, CanTransportConfig, CanTransportError, CanTxFrame, ConnectStep,
    ExeChoice, RawTx,
};
use demo2::transport::{IoError, TransportError};

#[test]
fn dlc_lengths_grow() {
    let lengths: Vec<usize> = (0..=15u8).map(can_dlc_len).collect();
    assert_eq!(lengths, vec![0, 1, 2, 3, 4, 5, 6, 7, 8, 12, 16, 20, 24, 32, 48, 64]);
}

#[test]
fn frames_cross_the_driver() {
    let sent = CanTxFrame::new(1, 0x1FF, 8, [1, 2, 3, 4, 5, 6, 7, 8]);
    let raw = sent.to_raw();
    assert_eq!(raw.identifier, 0x1FF);
    assert_eq!(raw.data, [1, 2, 3, 4, 5, 6, 7, 8]);
    let back = CanFrame::of_driver(raw);
    assert_eq!(back.identifier, 0x1FF);
    assert_eq!(back.data_bytes(), &[1, 2, 3, 4, 5, 6, 7, 8]);

    let long: Vec<u8> = (0..20).collect();
    let sent = CanTxFrame::new_fd(0, 5, 11, &long);
    let back = CanFrame::of_driver_fd(sent.to_raw_fd());
    assert_eq!(back.data_len(), 20);
    assert_eq!(back.data_bytes(), &long[..]);
}

#[test]
fn long_frames_need_an_fd_driver() {
    let short = CanTxFrame::new(0, 1, 8, [0; 8]);
    let long = CanTxFrame::new_fd(0, 1, 9, &[0; 12]);
    assert!(matches!(plan_transmit(short, false), Ok(RawTx::Classic(_))));
    assert!(plan_transmit(long, false).is_err());
    assert!(matches!(plan_transmit(long, true), Ok(RawTx::Fd(_))));
}

#[test]
fn driver_calls_are_checked() {
    assert!(check("tsapp_connect", 0).is_ok());
    let err = check("tsapp_connect", -3).unwrap_err();
    assert_eq!(err.to_text(), "tsapp_connect failed: -3");
}

#[test]
fn can_error_texts() {
    assert_eq!(CanTransportError::Io("x".to_string()).to_text(), "io error: x");
    assert_eq!(CanTransportError::NotConnected.to_text(), "not connected");
    assert_eq!(CanTransportError::LockPoisoned.to_text(), "transport lock poisoned");
    assert_eq!(CanTransportError::InvalidCString("x".to_string()).to_text(), "invalid c string: x");
    assert_eq!(
        CanTransportError::DllNotFound("d".to_string()).to_text(),
        "TSMaster.dll not found: d"
    );
    assert_eq!(
        CanTransportError::CallbackDisconnected.to_text(),
        "callback channel disconnected"
    );
}

#[test]
fn stream_error_texts() {
    let error = TransportError::Io(IoError { timed_out: true, message: "slow".to_string() });
    assert_eq!(error.to_text(), "io error: slow");
    assert!(error.is_timeout());
    assert_eq!(TransportError::LockPoisoned.to_text(), "transport lock poisoned");
    assert!(!TransportError::NotConnected.is_timeout());
}

#[test]
fn connecting_goes_step_by_step() {
    let mut step = ConnectStep::SetLocation;
    let mut seen = vec![step];
    while step != ConnectStep::Done {
        step = step.next(true);
        seen.push(step);
    }
    assert_eq!(seen.len(), 10);
    assert_eq!(ConnectStep::RegisterCan.next(false), ConnectStep::Done);
    assert_eq!(ConnectStep::Connect.call_name(), "tsapp_connect");
    let undo = ConnectStep::SetLocation.undo();
    assert!(!undo.disconnect && !undo.unregister_sender);
    let undo = ConnectStep::RegisterCan.undo();
    assert!(undo.disconnect && undo.unregister_sender && undo.finalize);
}

#[test]
fn where_the_driver_is() {
    assert_eq!(
        resolve_tsmaster_bin(Some("a".to_string()), Some("b".to_string())),
        "a".to_string()
    );
    assert_eq!(resolve_tsmaster_bin(None, Some("b".to_string())), "b".to_string());
    assert_eq!(resolve_tsmaster_bin(None, None), "D:\\TSMaster\\bin64".to_string());
    assert_eq!(tsmaster_exe_path(true, Some(true)), ExeChoice::InRuntimeDir);
    assert_eq!(tsmaster_exe_path(false, Some(true)), ExeChoice::InParentDir);
    assert_eq!(tsmaster_exe_path(false, None), ExeChoice::Nothing);
}

#[test]
fn wide_text_ends_with_zero() {
    assert_eq!(wide_null("a中"), vec![0x61, 0x4E2D, 0]);
    assert_eq!(wide_null("\u{1F600}"), vec![0xD83D, 0xDE00, 0]);
}

#[test]
fn receivers_come_and_go() {
    let mut senders = CallbackSenders::new();
    assert!(senders.is_empty());
    let a = senders.register_callback_sender('a');
    let b = senders.register_callback_sender('b');
    assert_ne!(a, b);
    senders.unregister_callback_sender(a);
    assert_eq!(senders.entries_ref(), &vec![(b, 'b')]);
}

#[test]
fn default_can_channel() {
    let config = CanTransportConfig::default();
    assert_eq!(config.hardware_name, "TC1012");
    assert_eq!(config.arbitration_baud_kbps, 500);
    assert_eq!(config.data_baud_kbps, 2000);
}

#[test]
fn lengths_of_time() {
    assert_eq!(Duration::from_millis(3).nanos, 3_000_000);
    let limit = Duration::from_secs(5);
    assert_eq!(Duration::from_secs(2).doubled_up_to(limit), Duration::from_secs(4));
    assert_eq!(Duration::from_secs(4).doubled_up_to(limit), limit);
    let start = Instant { nanos: 10 };
    assert_eq!(start.after(Duration { nanos: 5 }), Instant { nanos: 15 });
    assert_eq!(start.since(Instant { nanos: 4 }), Duration { nanos: 6 });
    assert_eq!(start.since(Instant { nanos: 40 }), Duration { nanos: 0 });
}
