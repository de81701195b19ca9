//! The frames of the acceleration demo board: requests and responses with a checksum, and
//! stream frames of 256 sample groups without one.
use bytes::{Bytes, BytesMut};
use vstd::prelude::*;
use vstd::slice::slice_subrange;
use vstd::slice::slice_to_vec;

use crate::buffer;
use crate::bytes_value;
use crate::protocol::crc;
use crate::protocol::crc::crc16;
use crate::protocol::stream;
use crate::protocol::stream::Scan;

verus! {

pub const HEADER: u8 = 0x7B;

pub const CMD_STREAM: u8 = 0x07;

pub const STREAM_TOTAL_LEN: usize = 0x2004;

pub const STREAM_BODY_LEN: usize = 8192;

pub const GROUP_SIZE: usize = 32;

pub const GROUP_COUNT: usize = 256;

pub const MIN_RESPONSE_LEN: usize = 7;

pub const MAX_FRAME_LEN: usize = 65535;

pub const MAX_REQUEST_PAYLOAD_LEN: usize = 512;

#[derive(Debug, Clone, Copy, PartialEq, Eq, Structural)]
pub enum Command {
    UsbLinkCheck,
    A2BNetNodesDiscovery,
    GetNodeQuantity,
    GetAllNodesUid,
    ConfigureAdxl317,
    ReadAdxl317Config,
    StartAccelerationAcquisition,
    StopAccelerationAcquisition,
    ResetSystem,
    ReturnAccelerationData,
    ReportSystemError,
}

impl Command {
    /// The code of the command on the wire.
    pub open spec fn code(self) -> u8 {
        match self {
            Command::UsbLinkCheck => 0x01,
            Command::A2BNetNodesDiscovery => 0x02,
            Command::GetNodeQuantity => 0x03,
            Command::GetAllNodesUid => 0x04,
            Command::ConfigureAdxl317 => 0x05,
            Command::ReadAdxl317Config => 0x06,
            Command::StartAccelerationAcquisition => 0x07,
            Command::StopAccelerationAcquisition => 0x08,
            Command::ResetSystem => 0x09,
            Command::ReturnAccelerationData => 0x11,
            Command::ReportSystemError => 0x20,
        }
    }

    /// The code of the command on the wire.
    pub fn to_u8(self) -> (r: u8)
        ensures
            r == self.code(),
    {
        match self {
            Command::UsbLinkCheck => 0x01,
            Command::A2BNetNodesDiscovery => 0x02,
            Command::GetNodeQuantity => 0x03,
            Command::GetAllNodesUid => 0x04,
            Command::ConfigureAdxl317 => 0x05,
            Command::ReadAdxl317Config => 0x06,
            Command::StartAccelerationAcquisition => 0x07,
            Command::StopAccelerationAcquisition => 0x08,
            Command::ResetSystem => 0x09,
            Command::ReturnAccelerationData => 0x11,
            Command::ReportSystemError => 0x20,
        }
    }

    /// The command with this code, if there is one.
    pub fn from_u8(value: u8) -> (r: Option<Self>)
        ensures
            r matches Some(command) ==> command.code() == value,
            r is None ==> forall|command: Command| command.code() != value,
    {
        match value {
            0x01 => Some(Command::UsbLinkCheck),
            0x02 => Some(Command::A2BNetNodesDiscovery),
            0x03 => Some(Command::GetNodeQuantity),
            0x04 => Some(Command::GetAllNodesUid),
            0x05 => Some(Command::ConfigureAdxl317),
            0x06 => Some(Command::ReadAdxl317Config),
            0x07 => Some(Command::StartAccelerationAcquisition),
            0x08 => Some(Command::StopAccelerationAcquisition),
            0x09 => Some(Command::ResetSystem),
            0x11 => Some(Command::ReturnAccelerationData),
            0x20 => Some(Command::ReportSystemError),
            _ => None,
        }
    }
}

/// No two commands share a code, so that a code stands for at most one command.
pub proof fn law_command_codes_distinct(a: Command, b: Command)
    requires
        a.code() == b.code(),
    ensures
        a == b,
{
}

#[derive(Debug, Clone, Copy, PartialEq, Eq, Structural)]
pub enum CommandStatus {
    Okay,
    FrameError,
    FrameCrcErr,
    UnsupportedCmd,
    ParameterErr,
    CommandExecuteFailed,
    A2bNodeNotDiscovered,
    A2bDiscoverNodeError,
    A2bNodeDisconnected,
    A2bNodeConfigError,
    A2bNodeReadConfigError,
    A2bNodeDataCollectError,
    A2bNodeStoppingError,
}

impl CommandStatus {
    /// The code of the status on the wire.
    pub open spec fn code(self) -> u8 {
        match self {
            CommandStatus::Okay => 0x01,
            CommandStatus::FrameError => 0x02,
            CommandStatus::FrameCrcErr => 0x03,
            CommandStatus::UnsupportedCmd => 0x04,
            CommandStatus::ParameterErr => 0x05,
            CommandStatus::CommandExecuteFailed => 0x06,
            CommandStatus::A2bNodeNotDiscovered => 0x07,
            CommandStatus::A2bDiscoverNodeError => 0x08,
            CommandStatus::A2bNodeDisconnected => 0x09,
            CommandStatus::A2bNodeConfigError => 0x0A,
            CommandStatus::A2bNodeReadConfigError => 0x0B,
            CommandStatus::A2bNodeDataCollectError => 0x0C,
            CommandStatus::A2bNodeStoppingError => 0x0D,
        }
    }

    /// The status with this code, if there is one.
    pub fn from_u8(value: u8) -> (r: Option<Self>)
        ensures
            r matches Some(status) ==> status.code() == value,
            r is None ==> forall|status: CommandStatus| status.code() != value,
    {
        match value {
            0x01 => Some(CommandStatus::Okay),
            0x02 => Some(CommandStatus::FrameError),
            0x03 => Some(CommandStatus::FrameCrcErr),
            0x04 => Some(CommandStatus::UnsupportedCmd),
            0x05 => Some(CommandStatus::ParameterErr),
            0x06 => Some(CommandStatus::CommandExecuteFailed),
            0x07 => Some(CommandStatus::A2bNodeNotDiscovered),
            0x08 => Some(CommandStatus::A2bDiscoverNodeError),
            0x09 => Some(CommandStatus::A2bNodeDisconnected),
            0x0A => Some(CommandStatus::A2bNodeConfigError),
            0x0B => Some(CommandStatus::A2bNodeReadConfigError),
            0x0C => Some(CommandStatus::A2bNodeDataCollectError),
            0x0D => Some(CommandStatus::A2bNodeStoppingError),
            _ => None,
        }
    }
}

/// No two statuses share a code, so that a code stands for at most one status.
pub proof fn law_status_codes_distinct(a: CommandStatus, b: CommandStatus)
    requires
        a.code() == b.code(),
    ensures
        a == b,
{
}

/// A request to the board.
#[derive(Debug)]
pub struct RequestFrame {
    pub cmd: Command,
    pub payload: Vec<u8>,
}

impl Clone for RequestFrame {
    fn clone(&self) -> (r: Self)
        ensures
            r.cmd == self.cmd,
            r.payload@ == self.payload@,
    {
        RequestFrame { cmd: self.cmd, payload: slice_to_vec(self.payload.as_slice()) }
    }
}

impl RequestFrame {
    pub fn usb_link_check() -> (r: Self)
        ensures
            r.cmd == Command::UsbLinkCheck,
            r.payload@ == Seq::<u8>::empty(),
    {
        RequestFrame { cmd: Command::UsbLinkCheck, payload: Vec::new() }
    }

    pub fn a2b_net_nodes_discovery() -> (r: Self)
        ensures
            r.cmd == Command::A2BNetNodesDiscovery,
            r.payload@ == Seq::<u8>::empty(),
    {
        RequestFrame { cmd: Command::A2BNetNodesDiscovery, payload: Vec::new() }
    }

    pub fn get_node_quantity() -> (r: Self)
        ensures
            r.cmd == Command::GetNodeQuantity,
            r.payload@ == Seq::<u8>::empty(),
    {
        RequestFrame { cmd: Command::GetNodeQuantity, payload: Vec::new() }
    }

    pub fn get_all_nodes_uid() -> (r: Self)
        ensures
            r.cmd == Command::GetAllNodesUid,
            r.payload@ == Seq::<u8>::empty(),
    {
        RequestFrame { cmd: Command::GetAllNodesUid, payload: Vec::new() }
    }

    pub fn configure_adxl317(channel: u8, registers: &[u8]) -> (r: Self)
        ensures
            r.cmd == Command::ConfigureAdxl317,
            r.payload@ == seq![channel] + registers@,
    {
        let mut payload: Vec<u8> = Vec::new();
        payload.push(channel);
        payload.extend_from_slice(registers);
        proof {
            assert(payload@ =~= seq![channel] + registers@);
        }
        RequestFrame { cmd: Command::ConfigureAdxl317, payload }
    }

    pub fn read_adxl317_config(channel: u8) -> (r: Self)
        ensures
            r.cmd == Command::ReadAdxl317Config,
            r.payload@ == seq![channel],
    {
        let mut payload: Vec<u8> = Vec::new();
        payload.push(channel);
        proof {
            assert(payload@ =~= seq![channel]);
        }
        RequestFrame { cmd: Command::ReadAdxl317Config, payload }
    }

    pub fn start_acceleration_acquisition() -> (r: Self)
        ensures
            r.cmd == Command::StartAccelerationAcquisition,
            r.payload@ == Seq::<u8>::empty(),
    {
        RequestFrame { cmd: Command::StartAccelerationAcquisition, payload: Vec::new() }
    }

    pub fn stop_acceleration_acquisition() -> (r: Self)
        ensures
            r.cmd == Command::StopAccelerationAcquisition,
            r.payload@ == Seq::<u8>::empty(),
    {
        RequestFrame { cmd: Command::StopAccelerationAcquisition, payload: Vec::new() }
    }

    pub fn reset_system() -> (r: Self)
        ensures
            r.cmd == Command::ResetSystem,
            r.payload@ == Seq::<u8>::empty(),
    {
        RequestFrame { cmd: Command::ResetSystem, payload: Vec::new() }
    }
}

#[derive(Debug, Clone, Copy, PartialEq, Eq, Structural)]
pub enum SerialDemoCodecError {
    InvalidLength(usize),
    RequestTooLarge(usize),
}

impl SerialDemoCodecError {
    /// The error as text.
    pub open spec fn text(self) -> Seq<char> {
        match self {
            SerialDemoCodecError::InvalidLength(len) => "invalid frame length: "@
                + crate::text::decimal(len as nat),
            SerialDemoCodecError::RequestTooLarge(len) => "request payload too large: "@
                + crate::text::decimal(len as nat),
        }
    }

    pub fn to_text(&self) -> (r: String)
        ensures
            r@ == self.text(),
    {
        match self {
            SerialDemoCodecError::InvalidLength(len) => {
                let mut r = crate::text::owned("invalid frame length: ");
                crate::text::push_decimal(&mut r, *len as u64);
                r
            },
            SerialDemoCodecError::RequestTooLarge(len) => {
                let mut r = crate::text::owned("request payload too large: ");
                crate::text::push_decimal(&mut r, *len as u64);
                r
            },
        }
    }
}

/// What the board sends.
#[derive(Debug)]
pub enum Packet {
    Response(ResponseFrame),
    Stream(StreamFrame),
}

#[derive(Debug)]
pub struct ResponseFrame {
    pub cmd: u8,
    pub status: u8,
    pub payload: Bytes,
}

#[derive(Debug)]
pub struct StreamFrame {
    pub body: Bytes,
}

/// What a packet carries.
pub ghost enum PacketData {
    Response { cmd: u8, status: u8, payload: Seq<u8> },
    Stream { body: Seq<u8> },
}

impl View for Packet {
    type V = PacketData;

    open spec fn view(&self) -> PacketData {
        match self {
            Packet::Response(frame) => PacketData::Response {
                cmd: frame.cmd,
                status: frame.status,
                payload: buffer::frozen(frame.payload),
            },
            Packet::Stream(frame) => PacketData::Stream { body: buffer::frozen(frame.body) },
        }
    }
}

impl ResponseFrame {
    /// The command that is answered, where its code is known.
    pub fn command(&self) -> (r: Option<Command>)
        ensures
            r matches Some(command) ==> command.code() == self.cmd,
            r is None ==> forall|command: Command| command.code() != self.cmd,
    {
        Command::from_u8(self.cmd)
    }

    /// The status of the answer, where its code is known.
    pub fn command_status(&self) -> (r: Option<CommandStatus>)
        ensures
            r matches Some(status) ==> status.code() == self.status,
            r is None ==> forall|status: CommandStatus| status.code() != self.status,
    {
        CommandStatus::from_u8(self.status)
    }

    pub fn is_ok(&self) -> (r: bool)
        ensures
            r == (self.status == CommandStatus::Okay.code()),
    {
        match self.command_status() {
            Some(status) => status == CommandStatus::Okay,
            None => false,
        }
    }
}

/// The acceleration of one channel.
#[derive(Debug, Clone, Copy, PartialEq, Eq, Structural)]
pub struct Axis3 {
    pub x: i16,
    pub y: i16,
    pub z: i16,
    pub alarm: bool,
}

/// The samples of the four channels at one moment.
#[derive(Debug, Clone, Copy, PartialEq, Eq, Structural)]
pub struct SampleGroup {
    pub ch4: Axis3,
    pub ch3: Axis3,
    pub ch2: Axis3,
    pub ch1: Axis3,
}

/// A two-byte number in two's complement.
pub open spec fn signed16(v: nat) -> int {
    if v < 0x8000 {
        v as int
    } else {
        v - 0x1_0000
    }
}

/// The sample that two bytes hold: a little-endian number whose low two bits do not count.
pub open spec fn axis_value(low: u8, high: u8) -> i16 {
    (signed16((low + 256 * high) as nat) / 4) as i16
}

/// The channel that eight bytes hold: three samples, and the alarm in bit 0 of the seventh.
pub open spec fn channel_of(ch: Seq<u8>) -> Axis3 {
    Axis3 {
        x: axis_value(ch[0], ch[1]),
        y: axis_value(ch[2], ch[3]),
        z: axis_value(ch[4], ch[5]),
        alarm: ch[6] % 2 == 1,
    }
}

/// The group that 32 bytes hold: channels 4, 3, 2, 1.
pub open spec fn group_of(chunk: Seq<u8>) -> SampleGroup {
    SampleGroup {
        ch4: channel_of(chunk.subrange(0, 8)),
        ch3: channel_of(chunk.subrange(8, 16)),
        ch2: channel_of(chunk.subrange(16, 24)),
        ch1: channel_of(chunk.subrange(24, 32)),
    }
}

/// The groups that a stream body holds, in order; bytes behind the last whole group do not
/// count.
pub open spec fn groups_of(body: Seq<u8>) -> Seq<SampleGroup> {
    Seq::new(body.len() / 32, |i: int| group_of(body.subrange(32 * i, 32 * i + 32)))
}

impl StreamFrame {
    pub fn groups(&self) -> (r: Vec<SampleGroup>)
        ensures
            r@ == groups_of(buffer::frozen(self.body)),
    {
        let body: &[u8] = buffer::run_bytes(&self.body);
        let total: usize = body.len();
        let count: usize = total / GROUP_SIZE;
        let mut out: Vec<SampleGroup> = Vec::new();
        for i in 0..count
            invariant
                total == body@.len(),
                count == total / 32,
                out@ == groups_of(body@).take(i as int),
        {
            proof {
                assert(32 * i + 32 <= total);
            }
            let from: usize = 32 * i;
            let group = parse_group(slice_subrange(body, from, from + GROUP_SIZE));
            out.push(group);
            proof {
                assert(out@ =~= groups_of(body@).take(i + 1));
            }
        }
        proof {
            assert(out@ =~= groups_of(body@));
        }
        out
    }
}

pub fn parse_group(chunk: &[u8]) -> (r: SampleGroup)
    requires
        chunk@.len() >= 32,
    ensures
        r == group_of(chunk@),
{
    SampleGroup {
        ch4: parse_channel(slice_subrange(chunk, 0, 8)),
        ch3: parse_channel(slice_subrange(chunk, 8, 16)),
        ch2: parse_channel(slice_subrange(chunk, 16, 24)),
        ch1: parse_channel(slice_subrange(chunk, 24, 32)),
    }
}

pub fn parse_channel(ch: &[u8]) -> (r: Axis3)
    requires
        ch@.len() >= 7,
    ensures
        r == channel_of(ch@),
{
    Axis3 {
        x: raw_axis(slice_subrange(ch, 0, 2)),
        y: raw_axis(slice_subrange(ch, 2, 4)),
        z: raw_axis(slice_subrange(ch, 4, 6)),
        alarm: ch[6] % 2 == 1,
    }
}

pub fn raw_axis(two: &[u8]) -> (r: i16)
    requires
        two@.len() >= 2,
    ensures
        r == axis_value(two@[0], two@[1]),
{
    let v: i32 = two[0] as i32 + 256 * two[1] as i32;
    let signed: i32 = if v < 0x8000 {
        v
    } else {
        v - 0x1_0000
    };
    let quarter: i32 = (signed + 0x8000) / 4 - 0x2000;
    quarter as i16
}

#[derive(Clone, Copy)]
pub struct SerialDemoCodec;

impl Default for SerialDemoCodec {
    fn default() -> (r: Self) {
        SerialDemoCodec
    }
}

/// A request as it stands in the stream: header, length, command, payload and checksum.
pub open spec fn request_bytes(cmd: Command, payload: Seq<u8>) -> Seq<u8> {
    let head = seq![HEADER] + bytes_value::le_bytes(payload.len() + 6, 2) + seq![cmd.code()]
        + payload;
    head + bytes_value::le_bytes(crc::crc16_of(head) as nat, 2)
}

/// What stands at the front of the board's stream. Stream frames are known by command and
/// length alone; other frames must have a possible length and the right checksum, or one
/// byte is given up.
pub open spec fn scan_packet(src: Seq<u8>) -> Scan<PacketData> {
    let len = bytes_value::le_value(src.subrange(1, 3)) as int;
    if src.len() == 0 {
        Scan::Wait
    } else if src[0] != HEADER {
        Scan::Skip(1)
    } else if src.len() < 4 {
        Scan::Wait
    } else if src[3] == CMD_STREAM && len == STREAM_TOTAL_LEN {
        if src.len() < STREAM_TOTAL_LEN {
            Scan::Wait
        } else {
            Scan::Take(
                PacketData::Stream { body: src.subrange(4, STREAM_TOTAL_LEN as int) },
                STREAM_TOTAL_LEN as nat,
            )
        }
    } else if len < MIN_RESPONSE_LEN || len > MAX_FRAME_LEN {
        Scan::Skip(1)
    } else if src.len() < len {
        Scan::Wait
    } else if bytes_value::le_value(src.subrange(len - 2, len)) != crc::crc16_of(
        src.take(len - 2),
    ) {
        Scan::Skip(1)
    } else {
        Scan::Take(
            PacketData::Response {
                cmd: src[3],
                status: src[4],
                payload: src.subrange(5, len - 2),
            },
            len as nat,
        )
    }
}

/// The scan of the board's stream.
pub open spec fn packet_scan() -> spec_fn(Seq<u8>) -> Scan<PacketData> {
    |src: Seq<u8>| scan_packet(src)
}

impl SerialDemoCodec {
    /// Appends the request, or leaves the buffer as it was.
    pub fn encode_request(&self, request: &RequestFrame, dst: &mut BytesMut) -> (r: Result<
        (),
        SerialDemoCodecError,
    >)
        requires
            request.payload@.len() <= MAX_REQUEST_PAYLOAD_LEN ==> buffer::fits_buffer(
                buffer::contents(*old(dst)),
                request.payload@.len() + 6,
            ),
        ensures
            if request.payload@.len() > MAX_REQUEST_PAYLOAD_LEN {
                &&& r == Err::<(), SerialDemoCodecError>(
                    SerialDemoCodecError::RequestTooLarge(request.payload@.len() as usize),
                )
                &&& buffer::contents(*final(dst)) == buffer::contents(*old(dst))
            } else {
                &&& r is Ok
                &&& buffer::contents(*final(dst)) == buffer::contents(*old(dst)) + request_bytes(
                    request.cmd,
                    request.payload@,
                )
            },
    {
        if request.payload.len() > MAX_REQUEST_PAYLOAD_LEN {
            return Err(SerialDemoCodecError::RequestTooLarge(request.payload.len()));
        }
        let frame_len: usize = 1 + 2 + 1 + request.payload.len() + 2;
        let ghost before = buffer::contents(*dst);
        let ghost head = seq![HEADER] + bytes_value::le_bytes(frame_len as nat, 2) + seq![
            request.cmd.code(),
        ] + request.payload@;
        proof {
            bytes_value::lemma_u16_bytes(frame_len as u16);
            bytes_value::lemma_u16_bytes(crc::crc16_of(head));
        }
        buffer::reserve(dst, frame_len);
        buffer::put_u8(dst, HEADER);
        let len_bytes: [u8; 2] = u16_le(frame_len as u16);
        buffer::extend_from_slice(dst, &len_bytes);
        buffer::put_u8(dst, request.cmd.to_u8());
        buffer::extend_from_slice(dst, request.payload.as_slice());
        let filled: &[u8] = buffer::as_bytes(dst);
        let start: usize = filled.len() - (frame_len - 2);
        proof {
            assert(filled@ =~= before + head);
            assert(filled@.subrange(start as int, filled@.len() as int) =~= head);
        }
        let crc: u16 = crc16_modbus(slice_subrange(filled, start, filled.len()));
        let crc_bytes: [u8; 2] = u16_le(crc);
        buffer::extend_from_slice(dst, &crc_bytes);
        proof {
            assert(buffer::contents(*dst) =~= before + request_bytes(
                request.cmd,
                request.payload@,
            ));
        }
        Ok(())
    }

    /// The bytes of the request.
    pub fn build_request_bytes(&self, request: &RequestFrame) -> (r: Result<
        Vec<u8>,
        SerialDemoCodecError,
    >)
        ensures
            if request.payload@.len() > MAX_REQUEST_PAYLOAD_LEN {
                r == Err::<Vec<u8>, SerialDemoCodecError>(
                    SerialDemoCodecError::RequestTooLarge(request.payload@.len() as usize),
                )
            } else {
                r is Ok && r->Ok_0@ == request_bytes(request.cmd, request.payload@)
            },
    {
        let mut out = buffer::new_buffer();
        match self.encode_request(request, &mut out) {
            Ok(()) => {
                let bytes: Vec<u8> = slice_to_vec(buffer::as_bytes(&out));
                proof {
                    assert(bytes@ =~= request_bytes(request.cmd, request.payload@));
                }
                Ok(bytes)
            },
            Err(error) => Err(error),
        }
    }

    /// Takes the first packet out of the buffer, with everything before it.
    pub fn try_decode(&self, src: &mut BytesMut) -> (r: Result<
        Option<Packet>,
        SerialDemoCodecError,
    >)
        ensures
            ({
                let (packet, rest) = stream::first_frame(
                    packet_scan(),
                    buffer::contents(*old(src)),
                );
                &&& r is Ok
                &&& match packet {
                    Some(data) => r->Ok_0 is Some && r->Ok_0->0@ == data,
                    None => r->Ok_0 is None,
                }
                &&& buffer::contents(*final(src)) == rest
            }),
    {
        let ghost whole = buffer::contents(*src);
        loop
            invariant
                stream::first_frame(packet_scan(), whole) == stream::first_frame(
                    packet_scan(),
                    buffer::contents(*src),
                ),
                whole == buffer::contents(*old(src)),
            decreases buffer::contents(*src).len(),
        {
            let bytes: &[u8] = buffer::as_bytes(src);
            let ghost start = bytes@;
            let total: usize = bytes.len();
            let mut pos: usize = 0;
            proof {
                assert(start.skip(0) =~= start);
            }
            while pos < total && bytes[pos] != HEADER
                invariant
                    pos <= total,
                    total == bytes@.len(),
                    start == bytes@,
                    stream::first_frame(packet_scan(), start) == stream::first_frame(
                        packet_scan(),
                        start.skip(pos as int),
                    ),
                decreases total - pos,
            {
                proof {
                    let now = start.skip(pos as int);
                    assert((packet_scan())(now) == scan_packet(now));
                    assert(now.skip(1) =~= start.skip(pos + 1));
                }
                pos = pos + 1;
            }
            let ghost now = start.skip(pos as int);
            proof {
                assert((packet_scan())(now) == scan_packet(now));
            }
            if pos == total {
                buffer::clear(src);
                proof {
                    assert(now =~= Seq::<u8>::empty());
                }
                return Ok(None);
            }
            if pos > 0 {
                buffer::advance(src, pos);
            }
            proof {
                assert(buffer::contents(*src) =~= now);
            }
            let bytes: &[u8] = buffer::as_bytes(src);
            if bytes.len() < 4 {
                return Ok(None);
            }
            let len: usize = bytes[1] as usize + 256 * bytes[2] as usize;
            let cmd: u8 = bytes[3];
            proof {
                bytes_value::lemma_two_bytes(now[1], now[2]);
                assert(now.subrange(1, 3) =~= seq![now[1], now[2]]);
            }
            if cmd == CMD_STREAM && len == STREAM_TOTAL_LEN {
                if bytes.len() < STREAM_TOTAL_LEN {
                    return Ok(None);
                }
                let whole = buffer::freeze(buffer::split_to(src, STREAM_TOTAL_LEN));
                let body = buffer::slice(&whole, 4, STREAM_TOTAL_LEN);
                proof {
                    assert(buffer::frozen(body) =~= now.subrange(4, STREAM_TOTAL_LEN as int));
                }
                return Ok(Some(Packet::Stream(StreamFrame { body })));
            }
            if len < MIN_RESPONSE_LEN || len > MAX_FRAME_LEN {
                buffer::advance(src, 1);
                continue;
            }
            if bytes.len() < len {
                return Ok(None);
            }
            let crc_recv: u16 = bytes[len - 2] as u16 + 256 * bytes[len - 1] as u16;
            let crc_calc: u16 = crc16_modbus(slice_subrange(bytes, 0, len - 2));
            proof {
                bytes_value::lemma_two_bytes(now[len - 2], now[len - 1]);
                assert(now.subrange(len - 2, len as int) =~= seq![now[len - 2], now[len - 1]]);
                assert(now.subrange(0, len - 2) =~= now.take(len - 2));
            }
            if crc_recv != crc_calc {
                buffer::advance(src, 1);
                continue;
            }
            let whole = buffer::freeze(buffer::split_to(src, len));
            let status: u8 = buffer::run_bytes(&whole)[4];
            let payload = buffer::slice(&whole, 5, len - 2);
            proof {
                assert(buffer::frozen(payload) =~= now.subrange(5, len - 2));
            }
            return Ok(Some(Packet::Response(ResponseFrame { cmd, status, payload })));
        }
    }
}

/// The two bytes of a number, low byte first.
pub fn u16_le(v: u16) -> (r: [u8; 2])
    ensures
        r@ == bytes_value::le_bytes(v as nat, 2),
{
    proof {
        bytes_value::lemma_u16_bytes(v);
    }
    let r: [u8; 2] = [(v % 256) as u8, (v / 256) as u8];
    proof {
        assert(r@ =~= bytes_value::le_bytes(v as nat, 2));
    }
    r
}

pub fn crc16_modbus(data: &[u8]) -> (r: u16)
    ensures
        r == crc::crc16_of(data@),
{
    crc16(data)
}

/// More bytes behind a decision do not change it.
pub proof fn law_scan_packet_steady()
    ensures
        stream::steady(packet_scan()),
{
    assert forall|src: Seq<u8>, more: Seq<u8>|
        !((packet_scan())(src) is Wait) implies #[trigger] (packet_scan())(src + more) == (
    packet_scan())(src) by {
        let long = src + more;
        let len = bytes_value::le_value(src.subrange(1, 3)) as int;
        if src.len() >= 4 {
            assert(long.subrange(1, 3) =~= src.subrange(1, 3));
            if src.len() >= STREAM_TOTAL_LEN {
                assert(long.subrange(4, STREAM_TOTAL_LEN as int) =~= src.subrange(
                    4,
                    STREAM_TOTAL_LEN as int,
                ));
            }
            if len >= MIN_RESPONSE_LEN && src.len() >= len {
                assert(long.subrange(len - 2, len) =~= src.subrange(len - 2, len));
                assert(long.take(len - 2) =~= src.take(len - 2));
                assert(long.subrange(5, len - 2) =~= src.subrange(5, len - 2));
            }
        }
        assert(scan_packet(long) == scan_packet(src));
    }
}

/// A request is framed as the board frames its answers: read back, one with a payload gives
/// its command code, its first payload byte in the place of the status, and the rest of the
/// payload; exactly its bytes are used up.
pub proof fn law_request_framing(cmd: Command, payload: Seq<u8>, rest: Seq<u8>)
    requires
        1 <= payload.len() <= MAX_REQUEST_PAYLOAD_LEN,
    ensures
        stream::first_frame(packet_scan(), request_bytes(cmd, payload) + rest) == (
            Some(
                PacketData::Response { cmd: cmd.code(), status: payload[0], payload: payload.skip(1) },
            ),
            rest,
        ),
{
    let src = request_bytes(cmd, payload) + rest;
    let len = payload.len() as int + 6;
    let head = seq![HEADER] + bytes_value::le_bytes(payload.len() + 6, 2) + seq![cmd.code()]
        + payload;
    bytes_value::lemma_pow256();
    bytes_value::law_le_round_trip(len as nat, 2);
    bytes_value::law_le_round_trip(crc::crc16_of(head) as nat, 2);
    assert(src.subrange(1, 3) =~= bytes_value::le_bytes(len as nat, 2));
    assert(src.take(len - 2) =~= head);
    assert(src.subrange(len - 2, len) =~= bytes_value::le_bytes(crc::crc16_of(head) as nat, 2));
    assert(src.subrange(5, len - 2) =~= payload.skip(1));
    assert((packet_scan())(src) == scan_packet(src));
    assert(src.skip(len) =~= rest);
}

/// A stream frame is taken whole, whatever its body holds and whatever follows.
pub proof fn law_stream_frame(body: Seq<u8>, rest: Seq<u8>)
    requires
        body.len() == STREAM_BODY_LEN,
    ensures
        stream::first_frame(packet_scan(), seq![HEADER, 0x04, 0x20, CMD_STREAM] + body + rest) == (
            Some(PacketData::Stream { body }),
            rest,
        ),
        groups_of(body).len() == GROUP_COUNT,
{
    let src = seq![HEADER, 0x04, 0x20, CMD_STREAM] + body + rest;
    bytes_value::lemma_two_bytes(0x04, 0x20);
    assert(src.subrange(1, 3) =~= seq![0x04u8, 0x20u8]);
    assert((packet_scan())(src) == scan_packet(src));
    assert(src.subrange(4, STREAM_TOTAL_LEN as int) =~= body);
    assert(src.skip(STREAM_TOTAL_LEN as int) =~= rest);
}

/// A stream frame that comes out of a stream holds all 256 groups.
pub proof fn law_stream_body_len(src: Seq<u8>)
    ensures
        stream::first_frame(packet_scan(), src).0 matches Some(PacketData::Stream { body })
            ==> body.len() == STREAM_BODY_LEN && groups_of(body).len() == GROUP_COUNT,
    decreases src.len(),
{
    assert((packet_scan())(src) == scan_packet(src));
    match scan_packet(src) {
        Scan::Skip(n) => {
            if 0 < n <= src.len() {
                law_stream_body_len(src.skip(n as int));
            }
        },
        _ => {},
    }
}

/// Bytes that cannot begin a packet are passed over: what stands behind them is found as if
/// they were not there.
pub proof fn law_packet_after_noise(noise: Seq<u8>, src: Seq<u8>)
    requires
        forall|i: int| 0 <= i < noise.len() ==> noise[i] != HEADER,
    ensures
        stream::first_frame(packet_scan(), noise + src) == stream::first_frame(packet_scan(), src),
    decreases noise.len(),
{
    if noise.len() == 0 {
        assert(noise + src =~= src);
    } else {
        law_packet_after_noise(noise.skip(1), src);
        assert((packet_scan())(noise + src) == scan_packet(noise + src));
        assert((noise + src)[0] == noise[0]);
        assert((noise + src).skip(1) =~= noise.skip(1) + src);
    }
}

/// The codes of the commands.
pub proof fn law_command_codes()
    ensures
        Command::UsbLinkCheck.code() == 0x01,
        Command::A2BNetNodesDiscovery.code() == 0x02,
        Command::GetNodeQuantity.code() == 0x03,
        Command::GetAllNodesUid.code() == 0x04,
        Command::ConfigureAdxl317.code() == 0x05,
        Command::ReadAdxl317Config.code() == 0x06,
        Command::StartAccelerationAcquisition.code() == 0x07,
        Command::StopAccelerationAcquisition.code() == 0x08,
        Command::ResetSystem.code() == 0x09,
        Command::ReturnAccelerationData.code() == 0x11,
        Command::ReportSystemError.code() == 0x20,
{
}

/// The codes of the states that the board answers with.
pub proof fn law_status_codes()
    ensures
        CommandStatus::Okay.code() == 0x01,
        CommandStatus::FrameError.code() == 0x02,
        CommandStatus::FrameCrcErr.code() == 0x03,
        CommandStatus::UnsupportedCmd.code() == 0x04,
        CommandStatus::ParameterErr.code() == 0x05,
        CommandStatus::CommandExecuteFailed.code() == 0x06,
        CommandStatus::A2bNodeNotDiscovered.code() == 0x07,
        CommandStatus::A2bDiscoverNodeError.code() == 0x08,
        CommandStatus::A2bNodeDisconnected.code() == 0x09,
        CommandStatus::A2bNodeConfigError.code() == 0x0A,
        CommandStatus::A2bNodeReadConfigError.code() == 0x0B,
        CommandStatus::A2bNodeDataCollectError.code() == 0x0C,
        CommandStatus::A2bNodeStoppingError.code() == 0x0D,
{
}

/// Where everything stands in a request: 0x7B, the length of the whole in two bytes, the code
/// of the command, the payload, and the checksum of all before it; numbers have their lower
/// byte first.
pub proof fn law_request_layout(cmd: Command, payload: Seq<u8>)
    requires
        payload.len() <= 512,
    ensures
        ({
            let bytes = request_bytes(cmd, payload);
            let n = payload.len() as int;
            &&& bytes.len() == n + 6
            &&& bytes[0] == 0x7B
            &&& bytes[1] + 256 * bytes[2] == n + 6
            &&& bytes[3] == cmd.code()
            &&& bytes.subrange(4, 4 + n) == payload
            &&& bytes[4 + n] + 256 * bytes[5 + n] == crc::crc16_of(bytes.take(4 + n))
        }),
{
    let n = payload.len() as int;
    let head = seq![HEADER] + bytes_value::le_bytes(payload.len() + 6, 2) + seq![cmd.code()]
        + payload;
    let bytes = request_bytes(cmd, payload);
    bytes_value::lemma_u16_bytes((n + 6) as u16);
    bytes_value::lemma_u16_bytes(crc::crc16_of(head));
    assert(bytes.take(4 + n) =~= head);
    assert(bytes.subrange(4, 4 + n) =~= payload);
}

/// Where the samples stand in a frame: each group of 32 bytes holds the fourth, third, second
/// and first channel, eight bytes each. A channel holds x, y and z in two bytes each, the lower
/// first, in two's complement, four times as large as the value, rounded down; the lowest bit
/// of the seventh byte is the alarm bit.
pub proof fn law_sample_layout(body: Seq<u8>, i: int, c: int)
    requires
        0 <= i < body.len() / 32,
        0 <= c < 4,
    ensures
        groups_of(body).len() == body.len() / 32,
        ({
            let group = groups_of(body)[i];
            let ch = if c == 0 {
                group.ch4
            } else if c == 1 {
                group.ch3
            } else if c == 2 {
                group.ch2
            } else {
                group.ch1
            };
            let at = 32 * i + 8 * c;
            &&& scaled(ch.x, body[at], body[at + 1])
            &&& scaled(ch.y, body[at + 2], body[at + 3])
            &&& scaled(ch.z, body[at + 4], body[at + 5])
            &&& ch.alarm <==> body[at + 6] % 2 == 1
        }),
{
    let at = 32 * i + 8 * c;
    lemma_scaled(body[at], body[at + 1]);
    lemma_scaled(body[at + 2], body[at + 3]);
    lemma_scaled(body[at + 4], body[at + 5]);
}

/// Whether two bytes hold a value four times as large, rounded up by less than four.
pub open spec fn scaled(value: i16, low: u8, high: u8) -> bool {
    let spelled = low + 256 * high;
    let raw = if high >= 128 {
        spelled - 65_536
    } else {
        spelled
    };
    4 * value <= raw < 4 * value + 4
}

proof fn lemma_scaled(low: u8, high: u8)
    ensures
        scaled(axis_value(low, high), low, high),
{
    let spelled = low + 256 * high;
    let raw = signed16(spelled as nat);
    assert(high >= 128 <==> spelled >= 0x8000);
    assert(-8192 <= raw / 4 <= 8191);
    assert(4 * (raw / 4) <= raw < 4 * (raw / 4) + 4);
}

/// The words for a frame or request that cannot be written.
pub proof fn law_demo_error_texts(len: usize)
    ensures
        SerialDemoCodecError::InvalidLength(len).text() == "invalid frame length: "@
            + crate::text::decimal(len as nat),
        SerialDemoCodecError::RequestTooLarge(len).text() == "request payload too large: "@
            + crate::text::decimal(len as nat),
{
}

/// A frame of samples is 8196 bytes long, 8192 of them samples in 256 groups of 32 bytes; it
/// begins with 0x7B, its length, and 0x07. An answer is at least seven bytes long, and a
/// request carries at most 512 bytes.
pub proof fn law_demo_sizes(src: Seq<u8>)
    ensures
        STREAM_TOTAL_LEN == 8196,
        STREAM_BODY_LEN == 8192,
        GROUP_COUNT * GROUP_SIZE == 8192,
        GROUP_SIZE == 32,
        MIN_RESPONSE_LEN == 7,
        MAX_REQUEST_PAYLOAD_LEN == 512,
        scan_packet(src) matches Scan::Take(PacketData::Stream { body }, n) ==> {
            &&& n == 8196
            &&& body.len() == 8192
            &&& src[0] == 0x7B
            &&& src[3] == 0x07
        },
        scan_packet(src) matches Scan::Take(PacketData::Response { cmd, status, payload }, n)
            ==> {
            &&& 7 <= n <= src.len()
            &&& src[0] == 0x7B
            &&& cmd == src[3]
            &&& status == src[4]
            &&& payload == src.subrange(5, n - 2)
        },
        src.len() > 0 && src[0] != 0x7B ==> scan_packet(src) == Scan::<PacketData>::Skip(1),
{
}

} // verus!
