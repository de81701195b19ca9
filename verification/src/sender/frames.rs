//! The frames that the senders write.
use bytes::BytesMut;
use vstd::prelude::*;
use vstd::slice::slice_to_vec;

use crate::buffer;
use crate::bytes_value;
use crate::ingress::payload;
use crate::protocol;
use crate::protocol::crc;
use crate::protocol::demo_serial;
use crate::protocol::demo_serial::{CMD_STREAM, GROUP_COUNT, GROUP_SIZE, HEADER, STREAM_BODY_LEN};
use crate::protocol::sent;
use crate::protocol::stream;
use crate::protocol::{
    crc16, CodecError, Frame, FrameCodec, FrameData, SentFrame, SentFrameCodec, SimpleFrameCodec,
    MAGIC,
};
use crate::sender::format::OutputFormat;
use crate::text;

verus! {

/// The kind of the frames that carry a sample.
pub const SAMPLE_KIND: u8 = 0x34;

/// No frame of the senders has more payload bytes than this.
pub const SENDER_MAX_PAYLOAD: usize = 4096;

/// The request id of the first frame that the line sender writes.
pub const FIRST_REQUEST_ID: u64 = 10_000;

// ---- frames of the device protocol ----

/// Writes a frame of any size; of a length that two bytes do not hold, the low two bytes.
pub fn encode_frame(request_id: u64, kind: u8, payload: &[u8]) -> (r: Vec<u8>)
    requires
        payload@.len() + 15 <= isize::MAX as int / 8,
    ensures
        r@ == protocol::frame_bytes(FrameData { request_id, kind, payload: payload@ }),
{
    let body_len: usize = 8 + 1 + payload.len();
    let ghost frame = FrameData { request_id, kind, payload: payload@ };
    let ghost body = protocol::body_bytes(frame);
    let mut out: BytesMut = buffer::new_buffer();
    proof {
        bytes_value::lemma_be_bytes_len(MAGIC as nat, 2);
        bytes_value::lemma_be_bytes_len(body_len as nat, 2);
        bytes_value::lemma_be_bytes_len(request_id as nat, 8);
        bytes_value::lemma_be_bytes_len(crc::crc16_of(body) as nat, 2);
        lemma_low_two_bytes(body_len as nat);
    }
    buffer::put_u16(&mut out, MAGIC);
    buffer::put_u16(&mut out, (body_len % 0x1_0000) as u16);
    buffer::put_u64(&mut out, request_id);
    buffer::put_u8(&mut out, kind);
    buffer::extend_from_slice(&mut out, payload);
    let filled: &[u8] = buffer::as_bytes(&out);
    proof {
        assert(filled@.subrange(4, filled@.len() as int) =~= body);
    }
    let crc: u16 = crc16(vstd::slice::slice_subrange(filled, 4, filled.len()));
    buffer::put_u16(&mut out, crc);
    proof {
        assert(buffer::contents(out) =~= protocol::frame_bytes(frame));
    }
    slice_to_vec(buffer::as_bytes(&out))
}

proof fn lemma_low_two_bytes(n: nat)
    ensures
        bytes_value::be_bytes(n % 0x1_0000, 2) == bytes_value::be_bytes(n, 2),
{
    reveal_with_fuel(bytes_value::be_bytes, 3);
    assert((n % 0x1_0000) % 256 == n % 256);
    assert(((n % 0x1_0000) / 256) % 256 == (n / 256) % 256);
}

/// How many times the line sender sends: as often as the interval fits into the duration.
pub fn total_ticks(duration_secs: u64, interval_ms: u64) -> (r: u64)
    requires
        duration_secs * 1000 <= u64::MAX,
        interval_ms > 0,
    ensures
        r == duration_secs * 1000 / interval_ms as int,
{
    (duration_secs * 1000) / interval_ms
}

/// Whether a tick is reported: every tenth.
pub fn reports_tick(tick: u64) -> (r: bool)
    ensures
        r == (tick % 10 == 0),
{
    tick % 10 == 0
}

/// The frame for a sample.
pub open spec fn sample_frame(request_id: u64, sensor_id: nat, value: Seq<char>) -> FrameData {
    FrameData {
        request_id,
        kind: SAMPLE_KIND,
        payload: vstd::utf8::encode_utf8(payload::payload_text(sensor_id, value)),
    }
}

/// A number that is one larger, unless it is the largest.
pub open spec fn next_of(n: u64) -> u64 {
    if n < u64::MAX {
        (n + 1) as u64
    } else {
        n
    }
}

/// What the line sender has sent, and what was acknowledged.
#[derive(Debug)]
pub struct LineSender {
    pub next_request_id: u64,
    pub sent_frames: u64,
    pub ack_frames: u64,
}

impl LineSender {
    pub fn new() -> (r: Self)
        ensures
            r.next_request_id == FIRST_REQUEST_ID,
            r.sent_frames == 0,
            r.ack_frames == 0,
    {
        LineSender { next_request_id: FIRST_REQUEST_ID, sent_frames: 0, ack_frames: 0 }
    }

    /// The frame for the next sample, with its request id.
    pub fn next_frame(&mut self, sensor_id: usize, value: &str) -> (r: (
        u64,
        Result<Vec<u8>, CodecError>,
    ))
        ensures
            r.0 == old(self).next_request_id,
            final(self).next_request_id == next_of(old(self).next_request_id),
            final(self).sent_frames == old(self).sent_frames,
            final(self).ack_frames == old(self).ack_frames,
            ({
                let frame = sample_frame(r.0, sensor_id as nat, value@);
                if frame.payload.len() <= SENDER_MAX_PAYLOAD {
                    r.1 is Ok && r.1->Ok_0@ == protocol::frame_bytes(frame)
                } else {
                    r.1 == Err::<Vec<u8>, CodecError>(
                        CodecError::FrameTooLarge(frame.payload.len() as usize),
                    )
                }
            }),
    {
        let request_id: u64 = self.next_request_id;
        let frame = Frame {
            request_id,
            kind: SAMPLE_KIND,
            payload: payload::sensor_payload(sensor_id, value),
        };
        if self.next_request_id < u64::MAX {
            self.next_request_id = self.next_request_id + 1;
        }
        let codec = SimpleFrameCodec::new(SENDER_MAX_PAYLOAD);
        let mut out: BytesMut = buffer::new_buffer();
        proof {
            codec.encoding_is_short(frame@);
        }
        match codec.encode(&frame, &mut out) {
            Ok(_) => {
                let bytes: Vec<u8> = slice_to_vec(buffer::as_bytes(&out));
                proof {
                    assert(bytes@ =~= protocol::frame_bytes(frame@));
                }
                (request_id, Ok(bytes))
            },
            Err(error) => (request_id, Err(error)),
        }
    }

    /// A frame has been written.
    pub fn written(&mut self)
        ensures
            final(self).sent_frames == next_of(old(self).sent_frames),
            final(self).next_request_id == old(self).next_request_id,
            final(self).ack_frames == old(self).ack_frames,
    {
        if self.sent_frames < u64::MAX {
            self.sent_frames = self.sent_frames + 1;
        }
    }

    /// Some frames have been acknowledged.
    pub fn acknowledged(&mut self, frames: u64)
        ensures
            final(self).ack_frames == if old(self).ack_frames + frames <= u64::MAX {
                old(self).ack_frames + frames
            } else {
                u64::MAX as int
            },
            final(self).next_request_id == old(self).next_request_id,
            final(self).sent_frames == old(self).sent_frames,
    {
        if frames <= u64::MAX - self.ack_frames {
            self.ack_frames = self.ack_frames + frames;
        } else {
            self.ack_frames = u64::MAX;
        }
    }
}

/// What the line sender writes for a sample, the receiver reads back as that sample,
/// whatever follows.
pub proof fn law_sample_arrives(request_id: u64, sensor_id: nat, value: Seq<char>, rest: Seq<u8>)
    requires
        sensor_id <= usize::MAX,
        text::is_float(value),
        sample_frame(request_id, sensor_id, value).payload.len() <= SENDER_MAX_PAYLOAD,
    ensures
        ({
            let frame = sample_frame(request_id, sensor_id, value);
            &&& stream::first_frame(
                |src: Seq<u8>| protocol::scan_frame(SENDER_MAX_PAYLOAD as nat, src),
                protocol::frame_bytes(frame) + rest,
            ) == (Some(frame), rest)
            &&& payload::sensor_value(frame.payload) == Some((sensor_id, value))
        }),
{
    let frame = sample_frame(request_id, sensor_id, value);
    protocol::law_frame_round_trip(SENDER_MAX_PAYLOAD as nat, frame, rest);
    payload::law_payload_round_trip(sensor_id, value);
}

// ---- SENT frames ----

/// The SENT frame of a pair of channels. The status is the low half of the pair's number;
/// the pause tells the formats apart.
pub open spec fn pair_frame(
    pair_id: nat,
    frame_index: nat,
    channel_1: u16,
    channel_2: u16,
    format: OutputFormat,
) -> SentFrame {
    let status = (pair_id % 16) as u8;
    match format {
        OutputFormat::Sent1 => sent::sent_frame(status, channel_1, channel_2, 0x1),
        OutputFormat::Sent2 => sent::sent_frame(status, channel_1, channel_2, 0x6),
        OutputFormat::Sent3 => sent::sent3_frame(
            status,
            channel_1,
            ((frame_index + pair_id) % 16) as u8,
            0xB,
        ),
        OutputFormat::Legacy | OutputFormat::Demo => sent::sent_frame(
            status,
            channel_1,
            channel_2,
            0,
        ),
    }
}

pub fn build_sent_frame(
    pair_id: usize,
    frame_index: u64,
    channel_1: u16,
    channel_2: u16,
    format: OutputFormat,
) -> (r: SentFrame)
    requires
        format == OutputFormat::Sent3 ==> frame_index + pair_id <= u64::MAX,
    ensures
        r == pair_frame(pair_id as nat, frame_index as nat, channel_1, channel_2, format),
        sent::sent_valid(r),
{
    let status: u8 = (pair_id % 16) as u8;
    match format {
        OutputFormat::Sent1 => SentFrameCodec::with_crc(status, channel_1, channel_2, 0x1),
        OutputFormat::Sent2 => SentFrameCodec::with_crc(status, channel_1, channel_2, 0x6),
        OutputFormat::Sent3 => {
            let rolling_counter: u8 = ((frame_index + pair_id as u64) % 16) as u8;
            SentFrameCodec::sent3_with_crc(status, channel_1, rolling_counter, 0xB)
        },
        OutputFormat::Legacy | OutputFormat::Demo => SentFrameCodec::with_crc(
            status,
            channel_1,
            channel_2,
            0,
        ),
    }
}

/// Bytes as a list of two hexadecimal digits each.
pub open spec fn hex_list(bytes: Seq<u8>) -> Seq<char> {
    "["@ + text::join_with(
        bytes.map_values(|b: u8| text::zero_padded(text::hex(b as nat), 2)),
        ", "@,
    ) + "]"@
}

pub fn push_hex_list(out: &mut String, bytes: &[u8])
    ensures
        final(out)@ == old(out)@ + hex_list(bytes@),
{
    let mut parts: Vec<String> = Vec::new();
    for i in 0..bytes.len()
        invariant
            parts@.len() == i,
            forall|j: int|
                0 <= j < i ==> (#[trigger] parts@[j])@ == text::zero_padded(
                    text::hex(bytes@[j] as nat),
                    2,
                ),
    {
        let mut part = text::owned("");
        proof {
            reveal_strlit("");
        }
        text::push_hex_padded(&mut part, bytes[i] as u64, 2);
        proof {
            assert(part@ =~= text::zero_padded(text::hex(bytes@[i as int] as nat), 2));
        }
        parts.push(part);
    }
    proof {
        assert(parts@.map_values(|s: String| s@) =~= bytes@.map_values(
            |b: u8| text::zero_padded(text::hex(b as nat), 2),
        ));
    }
    let listed: String = text::join(&parts, ", ");
    text::push_text(out, "[");
    text::push_text(out, listed.as_str());
    text::push_text(out, "]");
}

/// What is logged of a SENT frame. In the third format the second channel is shown as its
/// three parts.
pub open spec fn sent_line(
    format: OutputFormat,
    frames: nat,
    pair_id: nat,
    frame: SentFrame,
    raw: Seq<u8>,
) -> Seq<char> {
    let head = format.name() + " frame="@ + text::decimal(frames) + " pair="@ + text::decimal(
        pair_id,
    ) + " status=0x"@ + text::hex(frame.status as nat);
    let tail = " crc=0x"@ + text::hex(frame.crc as nat) + " pause=0x"@ + text::hex(
        frame.pause as nat,
    ) + " raw="@ + hex_list(raw);
    let first = text::zero_padded(text::hex(frame.channel_1 as nat), 3);
    if format == OutputFormat::Sent3 {
        head + " angle=0x"@ + first + " rc=0x"@ + text::hex((frame.channel_2 % 16) as nat)
            + " inv=0x"@ + text::hex((frame.channel_2 / 16 % 16) as nat) + " chk=0x"@ + text::hex(
            (frame.channel_2 / 256 % 16) as nat,
        ) + tail
    } else {
        head + " p1=0x"@ + first + " p2=0x"@ + text::zero_padded(
            text::hex(frame.channel_2 as nat),
            3,
        ) + tail
    }
}

pub fn sent_log(
    format: OutputFormat,
    frames: u64,
    pair_id: usize,
    frame: SentFrame,
    raw: &[u8],
) -> (r: String)
    ensures
        r@ == sent_line(format, frames as nat, pair_id as nat, frame, raw@),
{
    let mut r = text::owned(format.label());
    text::push_text(&mut r, " frame=");
    text::push_decimal(&mut r, frames);
    text::push_text(&mut r, " pair=");
    text::push_decimal(&mut r, pair_id as u64);
    text::push_text(&mut r, " status=0x");
    text::push_hex(&mut r, frame.status as u64);
    if format == OutputFormat::Sent3 {
        text::push_text(&mut r, " angle=0x");
        text::push_hex_padded(&mut r, frame.channel_1 as u64, 3);
        text::push_text(&mut r, " rc=0x");
        text::push_hex(&mut r, (frame.channel_2 % 16) as u64);
        text::push_text(&mut r, " inv=0x");
        text::push_hex(&mut r, (frame.channel_2 / 16 % 16) as u64);
        text::push_text(&mut r, " chk=0x");
        text::push_hex(&mut r, (frame.channel_2 / 256 % 16) as u64);
    } else {
        text::push_text(&mut r, " p1=0x");
        text::push_hex_padded(&mut r, frame.channel_1 as u64, 3);
        text::push_text(&mut r, " p2=0x");
        text::push_hex_padded(&mut r, frame.channel_2 as u64, 3);
    }
    let mut tail = text::owned(" crc=0x");
    text::push_hex(&mut tail, frame.crc as u64);
    text::push_text(&mut tail, " pause=0x");
    text::push_hex(&mut tail, frame.pause as u64);
    text::push_text(&mut tail, " raw=");
    push_hex_list(&mut tail, raw);
    text::push_text(&mut r, tail.as_str());
    r
}

/// Whether a frame is logged: the first five and every two hundredth.
pub fn logs_sent_frame(frames: u64) -> (r: bool)
    ensures
        r == (frames <= 5 || frames % 200 == 0),
{
    frames <= 5 || frames % 200 == 0
}

// ---- frames of the demo board ----

/// A sample of the demo board's first channel.
#[derive(Clone, Copy, Debug, PartialEq, Eq, Structural)]
pub struct DemoSample {
    pub x: i16,
    pub y: i16,
    pub z: i16,
    pub alarm: bool,
}

/// Four times a sample, as far as two bytes hold it.
pub open spec fn raw_sample(value: i16) -> int {
    if 4 * value < i16::MIN {
        i16::MIN as int
    } else if 4 * value > i16::MAX {
        i16::MAX as int
    } else {
        4 * value
    }
}

/// The bytes of a number in two's complement, least significant first.
pub open spec fn sample_bytes(value: i16) -> Seq<u8> {
    bytes_value::le_bytes((raw_sample(value) % 0x1_0000) as nat, 2)
}

pub fn encode_demo_axis_sample(value: i16) -> (r: [u8; 2])
    ensures
        r@ == sample_bytes(value),
{
    let wide: i32 = value as i32 * 4;
    let raw: i32 = if wide < -0x8000 {
        -0x8000
    } else if wide > 0x7FFF {
        0x7FFF
    } else {
        wide
    };
    let v: u16 = if raw < 0 {
        (raw + 0x1_0000) as u16
    } else {
        raw as u16
    };
    proof {
        bytes_value::lemma_u16_bytes(v);
        assert(v == raw_sample(value) % 0x1_0000);
    }
    let r: [u8; 2] = [(v % 256) as u8, (v / 256) as u8];
    proof {
        assert(r@ =~= sample_bytes(value));
    }
    r
}

/// The bytes of a group of which only the first channel holds a sample.
pub open spec fn group_bytes(sample: DemoSample) -> Seq<u8> {
    Seq::new(24, |i: int| 0u8) + sample_bytes(sample.x) + sample_bytes(sample.y) + sample_bytes(
        sample.z,
    ) + seq![
        if sample.alarm {
            1u8
        } else {
            0u8
        },
        0u8,
    ]
}

/// The bytes of several groups in a row.
pub open spec fn body_of(samples: Seq<DemoSample>) -> Seq<u8>
    decreases samples.len(),
{
    if samples.len() == 0 {
        Seq::empty()
    } else {
        body_of(samples.drop_last()) + group_bytes(samples.last())
    }
}

/// The stream frame that holds the samples.
pub fn build_demo_frame(samples: &[DemoSample]) -> (r: Vec<u8>)
    requires
        samples@.len() == GROUP_COUNT,
    ensures
        r@ == seq![HEADER, 0x04, 0x20, CMD_STREAM] + body_of(samples@),
{
    let mut raw: Vec<u8> = Vec::new();
    raw.push(HEADER);
    raw.push(0x04);
    raw.push(0x20);
    raw.push(CMD_STREAM);
    proof {
        assert(samples@.take(0) =~= Seq::<DemoSample>::empty());
        assert(raw@ =~= seq![HEADER, 0x04, 0x20, CMD_STREAM] + body_of(samples@.take(0)));
    }
    for i in 0..samples.len()
        invariant
            raw@ == seq![HEADER, 0x04, 0x20, CMD_STREAM] + body_of(samples@.take(i as int)),
    {
        let ghost before = raw@;
        let sample: DemoSample = samples[i];
        proof {
            assert(samples@.take(i + 1).drop_last() =~= samples@.take(i as int));
        }
        let x: [u8; 2] = encode_demo_axis_sample(sample.x);
        let y: [u8; 2] = encode_demo_axis_sample(sample.y);
        let z: [u8; 2] = encode_demo_axis_sample(sample.z);
        for k in 0..24usize
            invariant
                raw@ == before + Seq::new(k as nat, |i: int| 0u8),
        {
            raw.push(0);
            proof {
                assert(raw@ =~= before + Seq::new((k + 1) as nat, |i: int| 0u8));
            }
        }
        raw.push(x[0]);
        raw.push(x[1]);
        raw.push(y[0]);
        raw.push(y[1]);
        raw.push(z[0]);
        raw.push(z[1]);
        let alarm: u8 = if sample.alarm {
            1
        } else {
            0
        };
        raw.push(alarm);
        raw.push(0);
        proof {
            assert(x@ =~= seq![x[0], x[1]]);
            assert(y@ =~= seq![y[0], y[1]]);
            assert(z@ =~= seq![z[0], z[1]]);
            assert(raw@ =~= before + group_bytes(sample));
            assert(raw@ =~= seq![HEADER, 0x04, 0x20, CMD_STREAM] + body_of(samples@.take(i + 1)));
        }
    }
    proof {
        assert(samples@.take(samples@.len() as int) =~= samples@);
    }
    raw
}

/// Whether a sample is sent without being cut off.
pub open spec fn in_sample_range(value: i16) -> bool {
    -8192 <= value <= 8191
}

proof fn lemma_sample_bytes(value: i16)
    ensures
        sample_bytes(value).len() == 2,
        in_sample_range(value) ==> demo_serial::axis_value(
            sample_bytes(value)[0],
            sample_bytes(value)[1],
        ) == value,
{
    let v = (raw_sample(value) % 0x1_0000) as u16;
    bytes_value::lemma_u16_bytes(v);
    let low = (v % 256) as u8;
    let high = (v / 256) as u8;
    assert(sample_bytes(value) =~= seq![low, high]);
    assert(low + 256 * high == v);
    if in_sample_range(value) {
        assert(demo_serial::signed16(v as nat) == 4 * value);
    }
}

proof fn lemma_group_bytes(sample: DemoSample)
    requires
        in_sample_range(sample.x),
        in_sample_range(sample.y),
        in_sample_range(sample.z),
    ensures
        group_bytes(sample).len() == GROUP_SIZE,
        demo_serial::group_of(group_bytes(sample)).ch1 == (demo_serial::Axis3 {
            x: sample.x,
            y: sample.y,
            z: sample.z,
            alarm: sample.alarm,
        }),
{
    lemma_sample_bytes(sample.x);
    lemma_sample_bytes(sample.y);
    lemma_sample_bytes(sample.z);
    let g = group_bytes(sample);
    let ch = g.subrange(24, 32);
    assert(ch[0] == sample_bytes(sample.x)[0] && ch[1] == sample_bytes(sample.x)[1]);
    assert(ch[2] == sample_bytes(sample.y)[0] && ch[3] == sample_bytes(sample.y)[1]);
    assert(ch[4] == sample_bytes(sample.z)[0] && ch[5] == sample_bytes(sample.z)[1]);
}

proof fn lemma_body_len(samples: Seq<DemoSample>)
    ensures
        body_of(samples).len() == 32 * samples.len(),
    decreases samples.len(),
{
    if samples.len() > 0 {
        lemma_body_len(samples.drop_last());
        lemma_sample_bytes(samples.last().x);
        lemma_sample_bytes(samples.last().y);
        lemma_sample_bytes(samples.last().z);
    }
}

proof fn lemma_body_group(samples: Seq<DemoSample>, i: int)
    requires
        0 <= i < samples.len(),
    ensures
        body_of(samples).len() == 32 * samples.len(),
        body_of(samples).subrange(32 * i, 32 * i + 32) == group_bytes(samples[i]),
    decreases samples.len(),
{
    let front = samples.drop_last();
    lemma_body_len(samples);
    lemma_body_len(front);
    if i == samples.len() - 1 {
        assert(body_of(samples).subrange(32 * i, 32 * i + 32) =~= group_bytes(samples[i]));
    } else {
        lemma_body_group(front, i);
        assert(body_of(samples).subrange(32 * i, 32 * i + 32) =~= body_of(front).subrange(
            32 * i,
            32 * i + 32,
        ));
    }
}

/// What the demo sender writes, the board's codec reads back: one stream frame, whose groups
/// hold the samples on the first channel, in order. Samples outside the range of fourteen
/// bits are cut off at its ends.
pub proof fn law_demo_frame_arrives(samples: Seq<DemoSample>, rest: Seq<u8>)
    requires
        samples.len() == GROUP_COUNT,
        forall|i: int|
            0 <= i < samples.len() ==> in_sample_range((#[trigger] samples[i]).x)
                && in_sample_range(samples[i].y) && in_sample_range(samples[i].z),
    ensures
        body_of(samples).len() == STREAM_BODY_LEN,
        stream::first_frame(
            demo_serial::packet_scan(),
            seq![HEADER, 0x04, 0x20, CMD_STREAM] + body_of(samples) + rest,
        ) == (Some(demo_serial::PacketData::Stream { body: body_of(samples) }), rest),
        forall|i: int|
            0 <= i < samples.len() ==> (#[trigger] demo_serial::groups_of(body_of(samples))[i]).ch1
                == (demo_serial::Axis3 {
                x: samples[i].x,
                y: samples[i].y,
                z: samples[i].z,
                alarm: samples[i].alarm,
            }),
{
    let body = body_of(samples);
    lemma_body_len(samples);
    demo_serial::law_stream_frame(body, rest);
    assert forall|i: int| 0 <= i < samples.len() implies (#[trigger] demo_serial::groups_of(
        body,
    )[i]).ch1 == (demo_serial::Axis3 {
        x: samples[i].x,
        y: samples[i].y,
        z: samples[i].z,
        alarm: samples[i].alarm,
    }) by {
        lemma_body_group(samples, i);
        lemma_group_bytes(samples[i]);
    }
}

/// Whether a frame of the demo board is logged: the first three and every twentieth.
pub fn logs_demo_frame(frames: u64) -> (r: bool)
    ensures
        r == (frames <= 3 || frames % 20 == 0),
{
    frames <= 3 || frames % 20 == 0
}

// ---- what holds of all frames that are sent ----

/// A sample goes out in a frame of the kind 0x34 under the next number; the first is 10 000.
pub proof fn law_sample_frame(request_id: u64, sensor_id: nat, value: Seq<char>)
    ensures
        sample_frame(request_id, sensor_id, value).kind == 0x34,
        sample_frame(request_id, sensor_id, value).request_id == request_id,
        sample_frame(request_id, sensor_id, value).payload == vstd::utf8::encode_utf8(
            payload::payload_text(sensor_id, value),
        ),
        FIRST_REQUEST_ID == 10_000,
        request_id < u64::MAX ==> next_of(request_id) == request_id + 1,
        request_id == u64::MAX ==> next_of(request_id) == request_id,
{
}

/// A pair of channels goes out under the number of the pair, in four bits, and with the pause
/// nibble by which the other side tells the sensors apart: 0x1 for SENT1, 0x6 for SENT2, 0xB
/// for SENT3 and 0 otherwise. The channels go out in twelve bits; in SENT3 only the first does,
/// and in place of the second goes a counter, in its lowest four bits, with its checks.
pub proof fn law_pair_frame(
    pair_id: nat,
    frame_index: nat,
    channel_1: u16,
    channel_2: u16,
    format: OutputFormat,
)
    ensures
        ({
            let frame = pair_frame(pair_id, frame_index, channel_1, channel_2, format);
            &&& frame.status == pair_id % 16
            &&& frame.channel_1 == channel_1 % 4096
            &&& format == OutputFormat::Sent1 ==> frame.pause == 0x1
            &&& format == OutputFormat::Sent2 ==> frame.pause == 0x6
            &&& format == OutputFormat::Sent3 ==> frame.pause == 0xB
            &&& format == OutputFormat::Legacy || format == OutputFormat::Demo ==> frame.pause == 0
            &&& format != OutputFormat::Sent3 ==> frame.channel_2 == channel_2 % 4096
            &&& format == OutputFormat::Sent3 ==> frame.channel_2 % 16 == (frame_index + pair_id)
                % 16
        }),
{
    let status = (pair_id % 16) as u8;
    let counter = ((frame_index + pair_id) % 16) as u8;
    if format == OutputFormat::Sent3 {
        sent::law_sent3_fields(status, channel_1, counter, 0xB);
    }
}

/// What goes out as SENT1, SENT2 or SENT3 comes in as the sensors 0 and 1, 2 and 3, or 4.
pub proof fn law_pair_frame_arrives(
    d: crate::ingress::serial::SerialData,
    pair_id: nat,
    frame_index: nat,
    channel_1: u16,
    channel_2: u16,
    format: OutputFormat,
    elapsed_nanos: u128,
)
    requires
        format == OutputFormat::Sent1 || format == OutputFormat::Sent2 || format
            == OutputFormat::Sent3,
    ensures
        ({
            let frame = pair_frame(pair_id, frame_index, channel_1, channel_2, format);
            let events = crate::ingress::serial::sent_events(d, frame, elapsed_nanos);
            let first = if format == OutputFormat::Sent1 {
                0int
            } else if format == OutputFormat::Sent2 {
                2
            } else {
                4
            };
            &&& events.len() == if format == OutputFormat::Sent3 {
                1int
            } else {
                2
            }
            &&& events[0] matches crate::bus::EventData::TelemetrySample(sample)
                && sample.sensor_id == first && sample.value == crate::number::NumberData::Integer(
                (channel_1 % 4096) as i64,
            )
            &&& format != OutputFormat::Sent3 ==> (
            events[1] matches crate::bus::EventData::TelemetrySample(sample) && sample.sensor_id
                == first + 1 && sample.value == crate::number::NumberData::Integer(
                (channel_2 % 4096) as i64,
            ))
        }),
{
    law_pair_frame(pair_id, frame_index, channel_1, channel_2, format);
    let frame = pair_frame(pair_id, frame_index, channel_1, channel_2, format);
    crate::ingress::serial::law_sent_frame_samples(d, frame, elapsed_nanos);
}

/// A value of the demo board goes out four times as large, and as large as sixteen bits allow
/// where that is too large: as two bytes in two's complement, the lower first. The alarm bit
/// goes out as a byte behind the three values, and the other channels are zero.
pub proof fn law_demo_group(sample: DemoSample, value: i16)
    ensures
        -8192 <= value <= 8191 ==> raw_sample(value) == 4 * value,
        value > 8191 ==> raw_sample(value) == 32_767,
        value < -8192 ==> raw_sample(value) == -32_768,
        sample_bytes(value).len() == 2,
        sample_bytes(value)[0] + 256 * sample_bytes(value)[1] == if raw_sample(value) < 0 {
            raw_sample(value) + 0x1_0000
        } else {
            raw_sample(value)
        },
        group_bytes(sample).len() == 32,
        group_bytes(sample).subrange(24, 26) == sample_bytes(sample.x),
        group_bytes(sample).subrange(26, 28) == sample_bytes(sample.y),
        group_bytes(sample).subrange(28, 30) == sample_bytes(sample.z),
        group_bytes(sample)[30] == if sample.alarm {
            1u8
        } else {
            0u8
        },
        group_bytes(sample)[31] == 0,
        forall|i: int| 0 <= i < 24 ==> #[trigger] group_bytes(sample)[i] == 0,
{
    let n = (raw_sample(value) % 0x1_0000) as u16;
    bytes_value::lemma_u16_bytes(n);
    bytes_value::lemma_u16_bytes((raw_sample(sample.x) % 0x1_0000) as u16);
    bytes_value::lemma_u16_bytes((raw_sample(sample.y) % 0x1_0000) as u16);
    bytes_value::lemma_u16_bytes((raw_sample(sample.z) % 0x1_0000) as u16);
    assert(sample_bytes(value) =~= seq![(n % 256) as u8, (n / 256) as u8]);
    assert(group_bytes(sample).subrange(24, 26) =~= sample_bytes(sample.x));
    assert(group_bytes(sample).subrange(26, 28) =~= sample_bytes(sample.y));
    assert(group_bytes(sample).subrange(28, 30) =~= sample_bytes(sample.z));
}

/// A frame is told by its format, its number, its pair and its status; then the angle with the
/// counter, the copy and the check in SENT3, and both channels otherwise; then the checksum, the
/// pause and the bytes.
pub proof fn law_sent_line(
    format: OutputFormat,
    frames: nat,
    pair_id: nat,
    frame: SentFrame,
    raw: Seq<u8>,
)
    ensures
        ({
            let head = format.name() + " frame="@ + text::decimal(frames) + " pair="@
                + text::decimal(pair_id) + " status=0x"@ + text::hex(frame.status as nat);
            let tail = " crc=0x"@ + text::hex(frame.crc as nat) + " pause=0x"@ + text::hex(
                frame.pause as nat,
            ) + " raw="@ + hex_list(raw);
            let first = text::zero_padded(text::hex(frame.channel_1 as nat), 3);
            &&& format == OutputFormat::Sent3 ==> sent_line(format, frames, pair_id, frame, raw)
                == head + " angle=0x"@ + first + " rc=0x"@ + text::hex(
                (frame.channel_2 % 16) as nat,
            ) + " inv=0x"@ + text::hex((frame.channel_2 / 16 % 16) as nat) + " chk=0x"@ + text::hex(
                (frame.channel_2 / 256 % 16) as nat,
            ) + tail
            &&& format != OutputFormat::Sent3 ==> sent_line(format, frames, pair_id, frame, raw)
                == head + " p1=0x"@ + first + " p2=0x"@ + text::zero_padded(
                text::hex(frame.channel_2 as nat),
                3,
            ) + tail
        }),
{
}

/// Bytes are listed with two hexadecimal digits each, with commas between them, in brackets.
pub proof fn law_hex_list(bytes: Seq<u8>, b: u8)
    ensures
        hex_list(Seq::empty()) == "["@ + "]"@,
        hex_list(seq![b]) == "["@ + text::zero_padded(text::hex(b as nat), 2) + "]"@,
        bytes.len() > 0 ==> hex_list(seq![b] + bytes) == "["@ + text::zero_padded(
            text::hex(b as nat),
            2,
        ) + ", "@ + hex_list(bytes).skip(1),
{
    reveal_strlit("[");
    let words = |s: Seq<u8>| s.map_values(|b: u8| text::zero_padded(text::hex(b as nat), 2));
    let word = text::zero_padded(text::hex(b as nat), 2);
    assert(words(Seq::empty()) =~= Seq::<Seq<char>>::empty());
    assert(hex_list(Seq::empty()) =~= "["@ + "]"@);
    assert(words(seq![b]) =~= seq![word]);
    if bytes.len() > 0 {
        let all = seq![b] + bytes;
        assert(words(all).skip(1) =~= words(bytes));
        assert(words(all)[0] == word);
        let rest = text::join_with(words(bytes), ", "@);
        assert(text::join_with(words(all), ", "@) == word + ", "@ + rest);
        assert(hex_list(bytes).skip(1) =~= rest + "]"@);
        assert(hex_list(all) =~= "["@ + word + ", "@ + (rest + "]"@));
    }
}

} // verus!
