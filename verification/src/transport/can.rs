//! CAN and CAN FD frames, and the driver behind them.
use vstd::prelude::*;
use vstd::slice::slice_subrange;

use crate::text;
use crate::time::Duration;

verus! {

pub const MASK_CAN_PROP_DIR_TX: u8 = 0x01;

pub const MASK_CAN_PROP_EXTEND: u8 = 0x04;

#[derive(Debug)]
pub struct CanTransportConfig {
    pub tsmaster_bin: Option<String>,
    pub autostart_tsmaster: bool,
    pub hardware_name: String,
    pub channel_index: u8,
    pub channel_count: i32,
    pub arbitration_baud_kbps: u32,
    pub data_baud_kbps: u32,
    pub receive_timeout: Duration,
}

/// What a configuration says.
#[verifier::ext_equal]
pub ghost struct CanConfigData {
    pub tsmaster_bin: Option<Seq<char>>,
    pub autostart_tsmaster: bool,
    pub hardware_name: Seq<char>,
    pub channel_index: u8,
    pub channel_count: i32,
    pub arbitration_baud_kbps: u32,
    pub data_baud_kbps: u32,
    pub receive_timeout: Duration,
}

impl View for CanTransportConfig {
    type V = CanConfigData;

    open spec fn view(&self) -> CanConfigData {
        CanConfigData {
            tsmaster_bin: match self.tsmaster_bin {
                Some(path) => Some(path@),
                None => None,
            },
            autostart_tsmaster: self.autostart_tsmaster,
            hardware_name: self.hardware_name@,
            channel_index: self.channel_index,
            channel_count: self.channel_count,
            arbitration_baud_kbps: self.arbitration_baud_kbps,
            data_baud_kbps: self.data_baud_kbps,
            receive_timeout: self.receive_timeout,
        }
    }
}

impl Clone for CanTransportConfig {
    fn clone(&self) -> (r: Self)
        ensures
            r@ == self@,
    {
        CanTransportConfig {
            tsmaster_bin: match &self.tsmaster_bin {
                Some(path) => Some(text::owned(path.as_str())),
                None => None,
            },
            autostart_tsmaster: self.autostart_tsmaster,
            hardware_name: text::owned(self.hardware_name.as_str()),
            channel_index: self.channel_index,
            channel_count: self.channel_count,
            arbitration_baud_kbps: self.arbitration_baud_kbps,
            data_baud_kbps: self.data_baud_kbps,
            receive_timeout: self.receive_timeout,
        }
    }
}

impl Default for CanTransportConfig {
    fn default() -> (r: Self)
        ensures
            r@ == (CanConfigData {
                tsmaster_bin: None,
                autostart_tsmaster: true,
                hardware_name: "TC1012"@,
                channel_index: 0,
                channel_count: 1,
                arbitration_baud_kbps: 500,
                data_baud_kbps: 2_000,
                receive_timeout: Duration { nanos: 200_000_000 },
            }),
    {
        CanTransportConfig {
            tsmaster_bin: None,
            autostart_tsmaster: true,
            hardware_name: text::owned("TC1012"),
            channel_index: 0,
            channel_count: 1,
            arbitration_baud_kbps: 500,
            data_baud_kbps: 2_000,
            receive_timeout: Duration::from_millis(200),
        }
    }
}

/// A frame from the bus.
#[derive(Clone, Copy, Debug)]
pub struct CanFrame {
    pub channel: u8,
    pub properties: u8,
    pub dlc: u8,
    pub identifier: u32,
    pub timestamp_us: u64,
    pub data: [u8; 64],
}

/// A frame for the bus.
#[derive(Clone, Copy, Debug)]
pub struct CanTxFrame {
    pub channel: u8,
    pub identifier: u32,
    pub is_extended: bool,
    pub dlc: u8,
    pub data: [u8; 64],
}

/// A classic frame as the driver lays it out.
#[derive(Clone, Copy, Debug)]
pub struct RawCan {
    pub idx_chn: u8,
    pub properties: u8,
    pub dlc: u8,
    pub reserved: u8,
    pub identifier: i32,
    pub time_us: u64,
    pub data: [u8; 8],
}

/// An FD frame as the driver lays it out.
#[derive(Clone, Copy, Debug)]
pub struct RawCanFd {
    pub idx_chn: u8,
    pub properties: u8,
    pub dlc: u8,
    pub flags: u8,
    pub identifier: i32,
    pub time_us: u64,
    pub data: [u8; 64],
}

#[derive(Debug)]
pub enum CanTransportError {
    Io(String),
    NotConnected,
    LockPoisoned,
    InvalidCString(String),
    ApiCall { name: &'static str, code: i32 },
    DllNotFound(String),
    CallbackDisconnected,
}

impl View for CanTransportError {
    type V = Seq<char>;

    /// The error as text.
    open spec fn view(&self) -> Seq<char> {
        match self {
            CanTransportError::Io(error) => "io error: "@ + error@,
            CanTransportError::NotConnected => "not connected"@,
            CanTransportError::LockPoisoned => "transport lock poisoned"@,
            CanTransportError::InvalidCString(error) => "invalid c string: "@ + error@,
            CanTransportError::ApiCall { name, code } => name@ + " failed: "@ + text::decimal_int(
                *code as int,
            ),
            CanTransportError::DllNotFound(path) => "TSMaster.dll not found: "@ + path@,
            CanTransportError::CallbackDisconnected => "callback channel disconnected"@,
        }
    }
}

impl CanTransportError {
    pub fn to_text(&self) -> (r: String)
        ensures
            r@ == self@,
    {
        match self {
            CanTransportError::Io(error) => {
                let mut r = text::owned("io error: ");
                text::push_text(&mut r, error.as_str());
                r
            },
            CanTransportError::NotConnected => text::owned("not connected"),
            CanTransportError::LockPoisoned => text::owned("transport lock poisoned"),
            CanTransportError::InvalidCString(error) => {
                let mut r = text::owned("invalid c string: ");
                text::push_text(&mut r, error.as_str());
                r
            },
            CanTransportError::ApiCall { name, code } => {
                let mut r = text::owned(name);
                text::push_text(&mut r, " failed: ");
                text::push_decimal_int(&mut r, *code as i64);
                r
            },
            CanTransportError::DllNotFound(path) => {
                let mut r = text::owned("TSMaster.dll not found: ");
                text::push_text(&mut r, path.as_str());
                r
            },
            CanTransportError::CallbackDisconnected => text::owned("callback channel disconnected"),
        }
    }
}

/// The number of data bytes that a length code stands for.
pub open spec fn dlc_len(dlc: u8) -> nat {
    if dlc <= 8 {
        dlc as nat
    } else if dlc == 9 {
        12
    } else if dlc == 10 {
        16
    } else if dlc == 11 {
        20
    } else if dlc == 12 {
        24
    } else if dlc == 13 {
        32
    } else if dlc == 14 {
        48
    } else {
        64
    }
}

pub fn can_dlc_len(dlc: u8) -> (r: usize)
    ensures
        r == dlc_len(dlc),
        r <= 64,
{
    match dlc {
        0..=8 => dlc as usize,
        9 => 12,
        10 => 16,
        11 => 20,
        12 => 24,
        13 => 32,
        14 => 48,
        _ => 64,
    }
}

/// A larger length code never stands for fewer bytes, and no frame has more than 64.
pub proof fn law_dlc_len_grows(a: u8, b: u8)
    requires
        a <= b,
    ensures
        dlc_len(a) <= dlc_len(b) <= 64,
{
}

impl CanFrame {
    /// The data bytes that count.
    pub open spec fn payload(self) -> Seq<u8> {
        self.data@.take(dlc_len(self.dlc) as int)
    }

    /// Whether the frame is one that this side has sent.
    pub open spec fn sent_here(self) -> bool {
        self.properties % 2 == 1
    }

    pub fn data_len(&self) -> (r: usize)
        ensures
            r == dlc_len(self.dlc),
            r == self.payload().len(),
    {
        can_dlc_len(self.dlc)
    }

    pub fn data_bytes(&self) -> (r: &[u8])
        ensures
            r@ == self.payload(),
    {
        let r: &[u8] = slice_subrange(self.data.as_slice(), 0, self.data_len());
        proof {
            assert(r@ =~= self.payload());
        }
        r
    }

    pub fn is_tx(&self) -> (r: bool)
        ensures
            r == self.sent_here(),
    {
        self.properties % 2 == 1
    }

    /// A classic frame out of the driver.
    pub fn of_driver(raw: RawCan) -> (r: Self)
        ensures
            r.channel == raw.idx_chn,
            r.properties == raw.properties,
            r.dlc == raw.dlc,
            r.identifier == raw.identifier as u32,
            r.timestamp_us == raw.time_us,
            r.data@ == raw.data@ + Seq::new(56, |i: int| 0u8),
    {
        CanFrame {
            channel: raw.idx_chn,
            properties: raw.properties,
            dlc: raw.dlc,
            identifier: raw.identifier as u32,
            timestamp_us: raw.time_us,
            data: widened(raw.data.as_slice()),
        }
    }

    /// An FD frame out of the driver.
    pub fn of_driver_fd(raw: RawCanFd) -> (r: Self)
        ensures
            r.channel == raw.idx_chn,
            r.properties == raw.properties,
            r.dlc == raw.dlc,
            r.identifier == raw.identifier as u32,
            r.timestamp_us == raw.time_us,
            r.data@ == raw.data@,
    {
        CanFrame {
            channel: raw.idx_chn,
            properties: raw.properties,
            dlc: raw.dlc,
            identifier: raw.identifier as u32,
            timestamp_us: raw.time_us,
            data: raw.data,
        }
    }
}

/// Up to 64 bytes, followed by zeros.
pub open spec fn padded(data: Seq<u8>) -> Seq<u8> {
    if data.len() >= 64 {
        data.take(64)
    } else {
        data + Seq::new((64 - data.len()) as nat, |i: int| 0u8)
    }
}

fn widened(data: &[u8]) -> (r: [u8; 64])
    ensures
        r@ == padded(data@),
{
    let mut full: [u8; 64] = [0u8; 64];
    let len: usize = if data.len() < 64 {
        data.len()
    } else {
        64
    };
    let mut i: usize = 0;
    while i < len
        invariant
            i <= len <= 64,
            len <= data@.len(),
            full@.len() == 64,
            forall|k: int| 0 <= k < i ==> full@[k] == data@[k],
            forall|k: int| i <= k < 64 ==> full@[k] == 0,
        decreases len - i,
    {
        full[i] = data[i];
        i = i + 1;
    }
    proof {
        assert(full@ =~= padded(data@));
    }
    full
}

/// The properties of a frame that is to be sent.
pub open spec fn tx_properties(is_extended: bool) -> u8 {
    if is_extended {
        5
    } else {
        1
    }
}

impl CanTxFrame {
    pub fn new(channel: u8, identifier: u32, dlc: u8, data: [u8; 8]) -> (r: Self)
        ensures
            r.channel == channel,
            r.identifier == identifier,
            !r.is_extended,
            r.dlc == dlc,
            r.data@ == padded(data@),
    {
        CanTxFrame {
            channel,
            identifier,
            is_extended: false,
            dlc,
            data: widened(data.as_slice()),
        }
    }

    pub fn new_fd(channel: u8, identifier: u32, dlc: u8, data: &[u8]) -> (r: Self)
        ensures
            r.channel == channel,
            r.identifier == identifier,
            !r.is_extended,
            r.dlc == dlc,
            r.data@ == padded(data@),
    {
        CanTxFrame { channel, identifier, is_extended: false, dlc, data: widened(data) }
    }

    /// The frame as a classic frame for the driver; what does not fit is cut off.
    pub fn to_raw(self) -> (r: RawCan)
        ensures
            r.idx_chn == self.channel,
            r.properties == tx_properties(self.is_extended),
            r.dlc == if self.dlc < 8 {
                self.dlc
            } else {
                8
            },
            r.reserved == 0,
            r.identifier == self.identifier as i32,
            r.time_us == 0,
            r.data@ == self.data@.take(8),
    {
        let properties: u8 = if self.is_extended {
            MASK_CAN_PROP_DIR_TX + MASK_CAN_PROP_EXTEND
        } else {
            MASK_CAN_PROP_DIR_TX
        };
        let data: [u8; 8] = [
            self.data[0],
            self.data[1],
            self.data[2],
            self.data[3],
            self.data[4],
            self.data[5],
            self.data[6],
            self.data[7],
        ];
        proof {
            assert(data@ =~= self.data@.take(8));
        }
        RawCan {
            idx_chn: self.channel,
            properties,
            dlc: if self.dlc < 8 {
                self.dlc
            } else {
                8
            },
            reserved: 0,
            identifier: self.identifier as i32,
            time_us: 0,
            data,
        }
    }

    /// The frame as an FD frame for the driver.
    pub fn to_raw_fd(self) -> (r: RawCanFd)
        ensures
            r.idx_chn == self.channel,
            r.properties == tx_properties(self.is_extended),
            r.dlc == self.dlc,
            r.flags == 1,
            r.identifier == self.identifier as i32,
            r.time_us == 0,
            r.data@ == self.data@,
    {
        let properties: u8 = if self.is_extended {
            MASK_CAN_PROP_DIR_TX + MASK_CAN_PROP_EXTEND
        } else {
            MASK_CAN_PROP_DIR_TX
        };
        RawCanFd {
            idx_chn: self.channel,
            properties,
            dlc: self.dlc,
            flags: 1,
            identifier: self.identifier as i32,
            time_us: 0,
            data: self.data,
        }
    }
}

/// An identifier that goes through the driver comes back as it was.
pub proof fn law_identifier_round_trip(identifier: u32)
    ensures
        (identifier as i32) as u32 == identifier,
{
    assert((identifier as i32) as u32 == identifier) by (bit_vector);
}

/// How a frame goes to the driver.
#[derive(Clone, Copy, Debug)]
pub enum RawTx {
    Classic(RawCan),
    Fd(RawCanFd),
}

/// Chooses how a frame goes to the driver. Frames with more than eight bytes need a driver
/// that can send FD frames.
pub fn plan_transmit(frame: CanTxFrame, fd_available: bool) -> (r: Result<RawTx, CanTransportError>)
    ensures
        if frame.dlc > 8 && !fd_available {
            r matches Err(CanTransportError::ApiCall { name, code }) && name@
                == "tsapp_transmit_canfd_async"@ && code == -1
        } else if frame.dlc > 8 {
            r matches Ok(RawTx::Fd(raw)) && raw.data@ == frame.data@ && raw.dlc == frame.dlc
                && raw.idx_chn == frame.channel && raw.identifier == frame.identifier as i32
                && raw.properties == tx_properties(frame.is_extended) && raw.flags == 1
                && raw.time_us == 0
        } else {
            r matches Ok(RawTx::Classic(raw)) && raw.data@ == frame.data@.take(8) && raw.dlc
                == frame.dlc && raw.idx_chn == frame.channel && raw.identifier
                == frame.identifier as i32 && raw.properties == tx_properties(frame.is_extended)
                && raw.reserved == 0 && raw.time_us == 0
        },
{
    if frame.dlc > 8 {
        if !fd_available {
            return Err(
                CanTransportError::ApiCall { name: "tsapp_transmit_canfd_async", code: -1 },
            );
        }
        Ok(RawTx::Fd(frame.to_raw_fd()))
    } else {
        Ok(RawTx::Classic(frame.to_raw()))
    }
}

/// What the code of a driver call means: zero is success.
pub fn check(name: &'static str, code: i32) -> (r: Result<(), CanTransportError>)
    ensures
        code == 0 ==> r is Ok,
        code != 0 ==> (r matches Err(CanTransportError::ApiCall { name: n, code: c }) && n@
            == name@ && c == code),
{
    if code == 0 {
        Ok(())
    } else {
        Err(CanTransportError::ApiCall { name, code })
    }
}

/// The calls that open the driver, in their order.
#[derive(Clone, Copy, Debug, PartialEq, Eq, Structural)]
pub enum ConnectStep {
    SetLocation,
    Initialize,
    RegisterSender,
    SetChannelCount,
    SetMapping,
    ConfigureBaudrate,
    Connect,
    RegisterCan,
    RegisterCanFd,
    Done,
}

/// What undoes the calls that were made before one failed.
#[derive(Clone, Copy, Debug, PartialEq, Eq, Structural)]
pub struct ConnectUndo {
    pub unregister_sender: bool,
    pub disconnect: bool,
    pub finalize: bool,
}

impl ConnectStep {
    /// The place of the step in the order of the steps.
    pub open spec fn order(self) -> int {
        match self {
            ConnectStep::SetLocation => 0,
            ConnectStep::Initialize => 1,
            ConnectStep::RegisterSender => 2,
            ConnectStep::SetChannelCount => 3,
            ConnectStep::SetMapping => 4,
            ConnectStep::ConfigureBaudrate => 5,
            ConnectStep::Connect => 6,
            ConnectStep::RegisterCan => 7,
            ConnectStep::RegisterCanFd => 8,
            ConnectStep::Done => 9,
        }
    }

    /// The step that follows once this one has succeeded. A driver without FD frames has
    /// nothing to register for them.
    pub fn next(self, has_canfd: bool) -> (r: ConnectStep)
        ensures
            self is Done ==> r is Done,
            self is RegisterCan && !has_canfd ==> r is Done,
            !(self is Done) && !(self is RegisterCan && !has_canfd) ==> r.order() == self.order()
                + 1,
    {
        match self {
            ConnectStep::SetLocation => ConnectStep::Initialize,
            ConnectStep::Initialize => ConnectStep::RegisterSender,
            ConnectStep::RegisterSender => ConnectStep::SetChannelCount,
            ConnectStep::SetChannelCount => ConnectStep::SetMapping,
            ConnectStep::SetMapping => ConnectStep::ConfigureBaudrate,
            ConnectStep::ConfigureBaudrate => ConnectStep::Connect,
            ConnectStep::Connect => ConnectStep::RegisterCan,
            ConnectStep::RegisterCan => if has_canfd {
                ConnectStep::RegisterCanFd
            } else {
                ConnectStep::Done
            },
            ConnectStep::RegisterCanFd => ConnectStep::Done,
            ConnectStep::Done => ConnectStep::Done,
        }
    }

    /// What has to be undone when this step fails: nothing before the sender is
    /// registered, all of it after.
    pub fn undo(self) -> (r: ConnectUndo)
        ensures
            r.unregister_sender == (self.order() > ConnectStep::RegisterSender.order()),
            r.disconnect == r.unregister_sender,
            r.finalize == r.unregister_sender,
    {
        let open: bool = match self {
            ConnectStep::SetLocation => false,
            ConnectStep::Initialize => false,
            ConnectStep::RegisterSender => false,
            _ => true,
        };
        ConnectUndo { unregister_sender: open, disconnect: open, finalize: open }
    }

    /// The name of the driver call.
    pub open spec fn call(self) -> Seq<char> {
        match self {
            ConnectStep::SetLocation => "set_libtsmaster_location"@,
            ConnectStep::Initialize => "initialize_lib_tsmaster"@,
            ConnectStep::SetChannelCount => "tsapp_set_can_channel_count"@,
            ConnectStep::SetMapping => "tsapp_set_mapping_verbose"@,
            ConnectStep::ConfigureBaudrate => "tsapp_configure_baudrate_canfd"@,
            ConnectStep::Connect => "tsapp_connect"@,
            ConnectStep::RegisterCan => "tsapp_register_event_can"@,
            ConnectStep::RegisterCanFd => "tsapp_register_event_canfd"@,
            _ => ""@,
        }
    }

    pub fn call_name(self) -> (r: &'static str)
        ensures
            r@ == self.call(),
            r@ == match self {
                ConnectStep::SetLocation => "set_libtsmaster_location"@,
                ConnectStep::Initialize => "initialize_lib_tsmaster"@,
                ConnectStep::SetChannelCount => "tsapp_set_can_channel_count"@,
                ConnectStep::SetMapping => "tsapp_set_mapping_verbose"@,
                ConnectStep::ConfigureBaudrate => "tsapp_configure_baudrate_canfd"@,
                ConnectStep::Connect => "tsapp_connect"@,
                ConnectStep::RegisterCan => "tsapp_register_event_can"@,
                ConnectStep::RegisterCanFd => "tsapp_register_event_canfd"@,
                _ => ""@,
            },
    {
        match self {
            ConnectStep::SetLocation => "set_libtsmaster_location",
            ConnectStep::Initialize => "initialize_lib_tsmaster",
            ConnectStep::SetChannelCount => "tsapp_set_can_channel_count",
            ConnectStep::SetMapping => "tsapp_set_mapping_verbose",
            ConnectStep::ConfigureBaudrate => "tsapp_configure_baudrate_canfd",
            ConnectStep::Connect => "tsapp_connect",
            ConnectStep::RegisterCan => "tsapp_register_event_can",
            ConnectStep::RegisterCanFd => "tsapp_register_event_canfd",
            _ => "",
        }
    }
}

/// Where the driver is installed: as configured, else as the environment says, else in the
/// usual place.
pub fn resolve_tsmaster_bin(configured: Option<String>, environment: Option<String>) -> (r: String)
    ensures
        r@ == match configured {
            Some(path) => path@,
            None => match environment {
                Some(path) => path@,
                None => "D:\\TSMaster\\bin64"@,
            },
        },
{
    match configured {
        Some(path) => path,
        None => match environment {
            Some(path) => path,
            None => text::owned("D:\\TSMaster\\bin64"),
        },
    }
}

/// Which of two programs to start.
#[derive(Clone, Copy, Debug, PartialEq, Eq, Structural)]
pub enum ExeChoice {
    InRuntimeDir,
    InParentDir,
    Nothing,
}

/// Which program to start: the one beside the driver, else the one a directory up.
pub fn tsmaster_exe_path(direct_exists: bool, parent_exists: Option<bool>) -> (r: ExeChoice)
    ensures
        r == if direct_exists {
            ExeChoice::InRuntimeDir
        } else if parent_exists == Some(true) {
            ExeChoice::InParentDir
        } else {
            ExeChoice::Nothing
        },
{
    if direct_exists {
        ExeChoice::InRuntimeDir
    } else {
        match parent_exists {
            Some(true) => ExeChoice::InParentDir,
            _ => ExeChoice::Nothing,
        }
    }
}

/// A character in UTF-16: one unit, or a pair of surrogates.
pub open spec fn utf16_units(c: char) -> Seq<u16> {
    if (c as nat) < 0x1_0000 {
        seq![c as u16]
    } else {
        seq![
            (0xD800 + (c as nat - 0x1_0000) / 0x400) as u16,
            (0xDC00 + (c as nat - 0x1_0000) % 0x400) as u16,
        ]
    }
}

/// A text in UTF-16.
pub open spec fn utf16(s: Seq<char>) -> Seq<u16>
    decreases s.len(),
{
    if s.len() == 0 {
        Seq::empty()
    } else {
        utf16(s.drop_last()) + utf16_units(s.last())
    }
}

fn push_utf16(out: &mut Vec<u16>, c: char)
    ensures
        final(out)@ == old(out)@ + utf16_units(c),
{
    let code: u32 = c as u32;
    let ghost before = out@;
    if code < 0x1_0000 {
        out.push(code as u16);
    } else {
        let rest: u32 = code - 0x1_0000;
        out.push((0xD800 + rest / 0x400) as u16);
        out.push((0xDC00 + rest % 0x400) as u16);
    }
    proof {
        assert(out@ =~= before + utf16_units(c));
    }
}

/// A path in UTF-16, with a zero at its end.
pub fn wide_null(path: &str) -> (r: Vec<u16>)
    ensures
        r@ == utf16(path@).push(0),
{
    let chars: Vec<char> = text::chars_of(path);
    let mut out: Vec<u16> = Vec::new();
    for i in 0..chars.len()
        invariant
            out@ == utf16(chars@.take(i as int)),
    {
        proof {
            assert(chars@.take(i + 1).drop_last() =~= chars@.take(i as int));
        }
        push_utf16(&mut out, chars[i]);
    }
    proof {
        assert(chars@.take(chars@.len() as int) =~= chars@);
    }
    out.push(0);
    out
}

/// The receivers of frames, each under its number.
pub struct CallbackSenders<S> {
    senders: Vec<(u64, S)>,
    next_id: u64,
}

impl<S> CallbackSenders<S> {
    /// The receivers, in the order in which they came.
    pub closed spec fn entries(&self) -> Seq<(u64, S)> {
        self.senders@
    }

    /// The number of the next receiver.
    pub closed spec fn next_number(&self) -> u64 {
        self.next_id
    }

    pub fn new() -> (r: Self)
        ensures
            r.entries() == Seq::<(u64, S)>::empty(),
            r.next_number() == 1,
    {
        CallbackSenders { senders: Vec::new(), next_id: 1 }
    }

    /// Adds a receiver and gives its number.
    pub fn register_callback_sender(&mut self, sender: S) -> (r: u64)
        ensures
            r == old(self).next_number(),
            final(self).entries() == old(self).entries().push((r, sender)),
            final(self).next_number() == if r == u64::MAX {
                0
            } else {
                (r + 1) as u64
            },
    {
        let id: u64 = self.next_id;
        self.next_id = id.wrapping_add(1);
        self.senders.push((id, sender));
        id
    }

    /// Takes out the receivers with this number.
    pub fn unregister_callback_sender(&mut self, id: u64)
        ensures
            final(self).entries() == old(self).entries().filter(|e: (u64, S)| e.0 != id),
            final(self).next_number() == old(self).next_number(),
    {
        let ghost keep = |e: (u64, S)| e.0 != id;
        let ghost before = self.senders@;
        let mut kept: Vec<(u64, S)> = Vec::new();
        let mut all: Vec<(u64, S)> = Vec::new();
        std::mem::swap(&mut all, &mut self.senders);
        proof {
            assert(before.take(0).filter(keep) =~= Seq::<(u64, S)>::empty()) by {
                reveal(Seq::filter);
            }
            assert(all@ =~= before.skip(0));
        }
        let ghost mut done: int = 0;
        while all.len() > 0
            invariant
                0 <= done <= before.len(),
                all@ == before.skip(done),
                kept@ == before.take(done).filter(keep),
                keep == (|e: (u64, S)| e.0 != id),
            decreases all@.len(),
        {
            let entry = all.remove(0);
            proof {
                assert(entry == before[done]);
                assert(before.take(done + 1).drop_last() =~= before.take(done));
                assert(before.take(done + 1).last() == entry);
                reveal(Seq::filter);
                assert(all@ =~= before.skip(done + 1));
            }
            if entry.0 != id {
                kept.push(entry);
            }
            proof {
                done = done + 1;
            }
        }
        proof {
            assert(before.take(done) =~= before);
        }
        self.senders = kept;
    }

    pub fn is_empty(&self) -> (r: bool)
        ensures
            r == (self.entries().len() == 0),
    {
        self.senders.len() == 0
    }

    pub fn entries_ref(&self) -> (r: &Vec<(u64, S)>)
        ensures
            r@ == self.entries(),
    {
        &self.senders
    }
}

// ---- what holds of all frames ----

/// A length code up to 8 is the number of bytes itself; 9 to 15 stand for 12, 16, 20, 24, 32, 48
/// and 64 bytes. The payload of a frame is so many of its first data bytes.
pub proof fn law_length_codes(frame: CanFrame, i: int)
    ensures
        frame.dlc <= 8 ==> frame.payload().len() == frame.dlc,
        frame.dlc == 9 ==> frame.payload().len() == 12,
        frame.dlc == 10 ==> frame.payload().len() == 16,
        frame.dlc == 11 ==> frame.payload().len() == 20,
        frame.dlc == 12 ==> frame.payload().len() == 24,
        frame.dlc == 13 ==> frame.payload().len() == 32,
        frame.dlc == 14 ==> frame.payload().len() == 48,
        frame.dlc >= 15 ==> frame.payload().len() == 64,
        0 <= i < frame.payload().len() ==> frame.payload()[i] == frame.data@[i],
{
}

/// Data is written into 64 bytes from the front, and what is left of them is zero.
pub proof fn law_padded(data: Seq<u8>, i: int)
    requires
        0 <= i < 64,
    ensures
        padded(data).len() == 64,
        i < data.len() ==> padded(data)[i] == data[i],
        i >= data.len() ==> padded(data)[i] == 0,
{
}

/// A frame that is sent is marked as sent from here, by the lowest bit, and as one with a long
/// identifier, by the third, where it has one.
pub proof fn law_tx_properties(is_extended: bool)
    ensures
        tx_properties(is_extended) % 2 == 1,
        tx_properties(is_extended) / 4 % 2 == if is_extended {
            1int
        } else {
            0
        },
        tx_properties(is_extended) / 8 == 0,
        tx_properties(is_extended) / 2 % 2 == 0,
        MASK_CAN_PROP_DIR_TX == 1,
        MASK_CAN_PROP_EXTEND == 4,
{
}

/// A frame with the marks of one that is sent counts as sent from here.
pub proof fn law_sent_frame_is_known(frame: CanFrame, is_extended: bool)
    requires
        frame.properties == tx_properties(is_extended),
    ensures
        frame.sent_here(),
{
}

/// The words for what went wrong on the bus.
pub proof fn law_can_error_texts(error: String, name: &'static str, code: i32)
    ensures
        CanTransportError::Io(error)@ == "io error: "@ + error@,
        CanTransportError::NotConnected@ == "not connected"@,
        CanTransportError::LockPoisoned@ == "transport lock poisoned"@,
        CanTransportError::InvalidCString(error)@ == "invalid c string: "@ + error@,
        (CanTransportError::ApiCall { name, code })@ == name@ + " failed: "@ + text::decimal_int(
            code as int,
        ),
        CanTransportError::DllNotFound(error)@ == "TSMaster.dll not found: "@ + error@,
        CanTransportError::CallbackDisconnected@ == "callback channel disconnected"@,
{
}

/// The steps of a connection come in this order.
pub proof fn law_connect_order()
    ensures
        ConnectStep::SetLocation.order() == 0,
        ConnectStep::Initialize.order() == 1,
        ConnectStep::RegisterSender.order() == 2,
        ConnectStep::SetChannelCount.order() == 3,
        ConnectStep::SetMapping.order() == 4,
        ConnectStep::ConfigureBaudrate.order() == 5,
        ConnectStep::Connect.order() == 6,
        ConnectStep::RegisterCan.order() == 7,
        ConnectStep::RegisterCanFd.order() == 8,
        ConnectStep::Done.order() == 9,
{
}

/// A character is told again by its units: one below 0x10000 is its own unit, any other has two,
/// the first from 0xD800 and the second from 0xDC00 on, with ten bits each.
pub proof fn law_utf16_units(c: char)
    ensures
        (c as nat) < 0x1_0000 ==> utf16_units(c).len() == 1 && utf16_units(c)[0] == c as nat,
        (c as nat) >= 0x1_0000 ==> {
            let units = utf16_units(c);
            &&& units.len() == 2
            &&& 0xD800 <= units[0] < 0xDC00
            &&& 0xDC00 <= units[1] < 0xE000
            &&& 0x1_0000 + (units[0] - 0xD800) * 0x400 + (units[1] - 0xDC00) == c as nat
        },
{
    let n = c as int;
    assert(n <= 0x10_FFFF);
    if n >= 0x1_0000 {
        let m = n - 0x1_0000;
        assert(m / 0x400 < 0x400 && m / 0x400 * 0x400 + m % 0x400 == m);
    }
}

/// A text in units is its characters in units, one behind the other.
pub proof fn law_utf16(s: Seq<char>, c: char)
    ensures
        utf16(Seq::empty()).len() == 0,
        utf16(s.push(c)) == utf16(s) + utf16_units(c),
{
    assert(s.push(c).drop_last() =~= s);
}

/// Each step of a connection that calls the driver makes its own call.
pub proof fn law_connect_calls()
    ensures
        ConnectStep::SetLocation.call() == "set_libtsmaster_location"@,
        ConnectStep::Initialize.call() == "initialize_lib_tsmaster"@,
        ConnectStep::SetChannelCount.call() == "tsapp_set_can_channel_count"@,
        ConnectStep::SetMapping.call() == "tsapp_set_mapping_verbose"@,
        ConnectStep::ConfigureBaudrate.call() == "tsapp_configure_baudrate_canfd"@,
        ConnectStep::Connect.call() == "tsapp_connect"@,
        ConnectStep::RegisterCan.call() == "tsapp_register_event_can"@,
        ConnectStep::RegisterCanFd.call() == "tsapp_register_event_canfd"@,
        ConnectStep::RegisterSender.call() == ""@,
        ConnectStep::Done.call() == ""@,
{
}

} // verus!
