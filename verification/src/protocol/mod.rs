//! Frame formats: the length-prefixed frame of the device protocol, the nibble frame of the
//! SENT sensors, and the frames of the acceleration demo board.
use bytes::BytesMut;
use vstd::prelude::*;
use vstd::slice::slice_subrange;
use vstd::slice::slice_to_vec;

use crate::buffer;
use crate::bytes_value;
use crate::protocol::stream::Scan;

pub mod crc;
pub mod demo_serial;
pub mod sent;


pub mod stream;

pub use crate::protocol::crc::crc16;
pub use crate::protocol::sent::{
    sent3_check_nibble, sent3_inverted_copy, sent_crc_nibble, SentFrame, SentFrameCodec,
    SENT_FRAME_LEN, SENT_SYNC_MARKER,
};

verus! {

pub const MAGIC: u16 = 0xAA55;

pub const HEADER_LEN: usize = 2 + 2 + 8 + 1;

pub const CRC_LEN: usize = 2;

/// One frame of the device protocol.
#[derive(Debug)]
pub struct Frame {
    pub request_id: u64,
    pub kind: u8,
    pub payload: Vec<u8>,
}

/// What a frame carries.
#[verifier::ext_equal]
pub ghost struct FrameData {
    pub request_id: u64,
    pub kind: u8,
    pub payload: Seq<u8>,
}

impl View for Frame {
    type V = FrameData;

    open spec fn view(&self) -> FrameData {
        FrameData { request_id: self.request_id, kind: self.kind, payload: self.payload@ }
    }
}

impl Clone for Frame {
    fn clone(&self) -> (r: Self)
        ensures
            r@ == self@,
    {
        Frame {
            request_id: self.request_id,
            kind: self.kind,
            payload: slice_to_vec(self.payload.as_slice()),
        }
    }
}

#[derive(Clone, Copy, Debug, PartialEq, Eq, Structural)]
pub enum CodecError {
    FrameTooLarge(usize),
    CrcMismatch,
    InvalidLength,
}

impl CodecError {
    /// The error as text.
    pub open spec fn text(self) -> Seq<char> {
        match self {
            CodecError::FrameTooLarge(len) => "frame too large: "@ + crate::text::decimal(len as nat),
            CodecError::CrcMismatch => "crc mismatch"@,
            CodecError::InvalidLength => "invalid length"@,
        }
    }

    pub fn to_text(&self) -> (r: String)
        ensures
            r@ == self.text(),
    {
        match self {
            CodecError::FrameTooLarge(len) => {
                let mut r = crate::text::owned("frame too large: ");
                crate::text::push_decimal(&mut r, *len as u64);
                r
            },
            CodecError::CrcMismatch => crate::text::owned("crc mismatch"),
            CodecError::InvalidLength => crate::text::owned("invalid length"),
        }
    }
}

/// No frame takes more bytes than this.
pub const MAX_ENCODED_LEN: usize = 0x1_0010;

/// A codec writes frames into a byte stream and finds them there again.
pub trait FrameCodec: Send + Sync {
    /// What is written for a frame, or why none is.
    spec fn encoding(&self, frame: FrameData) -> Result<Seq<u8>, CodecError>;

    /// What is found in a stream, and what is left of it.
    spec fn decoding(&self, src: Seq<u8>) -> (Result<Option<FrameData>, CodecError>, Seq<u8>);

    proof fn encoding_is_short(&self, frame: FrameData)
        ensures
            self.encoding(frame) matches Ok(bytes) ==> bytes.len() <= MAX_ENCODED_LEN,
    ;

    /// Appends the frame, or leaves the buffer as it was.
    fn encode(&self, frame: &Frame, out: &mut BytesMut) -> (r: Result<(), CodecError>)
        requires
            self.encoding(frame@) is Ok ==> buffer::fits_buffer(
                buffer::contents(*old(out)),
                self.encoding(frame@)->Ok_0.len(),
            ),
        ensures
            match self.encoding(frame@) {
                Ok(bytes) => r is Ok && buffer::contents(*final(out)) == buffer::contents(
                    *old(out),
                ) + bytes,
                Err(error) => r == Err::<(), CodecError>(error) && buffer::contents(*final(out))
                    == buffer::contents(*old(out)),
            },
    ;

    /// Takes the first frame out of the buffer, with everything before it.
    fn try_decode(&self, src: &mut BytesMut) -> (r: Result<Option<Frame>, CodecError>)
        ensures
            ({
                let (found, rest) = self.decoding(buffer::contents(*old(src)));
                &&& match found {
                    Ok(Some(data)) => r is Ok && r->Ok_0 is Some && r->Ok_0->0@ == data,
                    Ok(None) => r is Ok && r->Ok_0 is None,
                    Err(error) => r == Err::<Option<Frame>, CodecError>(error),
                }
                &&& buffer::contents(*final(src)) == rest
            }),
    ;
}

/// The codec of the device protocol: magic number, length, request id, kind, payload, CRC.
pub struct SimpleFrameCodec {
    pub max_payload: usize,
}

/// What the length and the checksum of a frame cover.
pub open spec fn body_bytes(frame: FrameData) -> Seq<u8> {
    bytes_value::be_bytes(frame.request_id as nat, 8) + seq![frame.kind] + frame.payload
}

/// A frame as it stands in the stream.
pub open spec fn frame_bytes(frame: FrameData) -> Seq<u8> {
    let body = body_bytes(frame);
    bytes_value::be_bytes(MAGIC as nat, 2) + bytes_value::be_bytes(body.len(), 2) + body
        + bytes_value::be_bytes(crc::crc16_of(body) as nat, 2)
}

/// The frame whose body is given.
pub open spec fn frame_of_body(body: Seq<u8>) -> FrameData {
    FrameData {
        request_id: bytes_value::be_value(body.take(8)) as u64,
        kind: body[8],
        payload: body.skip(9),
    }
}

/// What stands at the front of a stream of frames with at most `max_payload` payload bytes.
/// Too few bytes for the smallest frame, or for the length that the header announces,
/// decide nothing; a wrong magic number, length or checksum gives up one byte.
pub open spec fn scan_frame(max_payload: nat, src: Seq<u8>) -> Scan<FrameData> {
    let body_len = bytes_value::be_value(src.subrange(2, 4)) as int;
    if src.len() < HEADER_LEN + CRC_LEN {
        Scan::Wait
    } else if bytes_value::be_value(src.take(2)) != MAGIC {
        Scan::Skip(1)
    } else if body_len < 9 || body_len > max_payload + 9 {
        Scan::Skip(1)
    } else if src.len() < 4 + body_len + CRC_LEN {
        Scan::Wait
    } else if bytes_value::be_value(src.subrange(4 + body_len, 6 + body_len)) != crc::crc16_of(
        src.subrange(4, 4 + body_len),
    ) {
        Scan::Skip(1)
    } else {
        Scan::Take(frame_of_body(src.subrange(4, 4 + body_len)), (6 + body_len) as nat)
    }
}

impl SimpleFrameCodec {
    /// What the codec makes of the front of a stream.
    pub open spec fn scan(&self) -> spec_fn(Seq<u8>) -> Scan<FrameData> {
        |src: Seq<u8>| scan_frame(self.max_payload as nat, src)
    }

    pub fn new(max_payload: usize) -> (r: Self)
        ensures
            r.max_payload == max_payload,
    {
        SimpleFrameCodec { max_payload }
    }
}

impl Default for SimpleFrameCodec {
    fn default() -> (r: Self)
        ensures
            r.max_payload == 0,
    {
        SimpleFrameCodec { max_payload: 0 }
    }
}

impl FrameCodec for SimpleFrameCodec {
    open spec fn encoding(&self, frame: FrameData) -> Result<Seq<u8>, CodecError> {
        if frame.payload.len() > self.max_payload {
            Err(CodecError::FrameTooLarge(frame.payload.len() as usize))
        } else if frame.payload.len() + 9 > u16::MAX {
            Err(CodecError::InvalidLength)
        } else {
            Ok(frame_bytes(frame))
        }
    }

    open spec fn decoding(&self, src: Seq<u8>) -> (
        Result<Option<FrameData>, CodecError>,
        Seq<u8>,
    ) {
        let (frame, rest) = stream::first_frame(self.scan(), src);
        (Ok(frame), rest)
    }

    proof fn encoding_is_short(&self, frame: FrameData) {
        lemma_frame_bytes_len(frame);
    }

    fn encode(&self, frame: &Frame, out: &mut BytesMut) -> (r: Result<(), CodecError>) {
        if frame.payload.len() > self.max_payload {
            return Err(CodecError::FrameTooLarge(frame.payload.len()));
        }
        if frame.payload.len() > u16::MAX as usize - 9 {
            return Err(CodecError::InvalidLength);
        }
        let body_len: usize = 8 + 1 + frame.payload.len();
        let ghost before = buffer::contents(*out);
        let ghost body = body_bytes(frame@);
        proof {
            bytes_value::lemma_be_bytes_len(MAGIC as nat, 2);
            bytes_value::lemma_be_bytes_len(body_len as nat, 2);
            bytes_value::lemma_be_bytes_len(frame.request_id as nat, 8);
            bytes_value::lemma_be_bytes_len(crc::crc16_of(body) as nat, 2);
        }
        buffer::put_u16(out, MAGIC);
        buffer::put_u16(out, body_len as u16);
        buffer::put_u64(out, frame.request_id);
        buffer::put_u8(out, frame.kind);
        buffer::extend_from_slice(out, frame.payload.as_slice());
        let filled: &[u8] = buffer::as_bytes(out);
        let start: usize = filled.len() - body_len;
        proof {
            assert(filled@.skip(start as int) =~= body);
            assert(filled@.subrange(start as int, filled@.len() as int) =~= body);
        }
        let crc: u16 = crc16(slice_subrange(filled, start, filled.len()));
        buffer::put_u16(out, crc);
        proof {
            assert(buffer::contents(*out) =~= before + frame_bytes(frame@));
        }
        Ok(())
    }

    fn try_decode(&self, src: &mut BytesMut) -> (r: Result<Option<Frame>, CodecError>) {
        let ghost whole = buffer::contents(*src);
        loop
            invariant
                stream::first_frame(self.scan(), whole) == stream::first_frame(
                    self.scan(),
                    buffer::contents(*src),
                ),
                whole == buffer::contents(*old(src)),
            decreases buffer::contents(*src).len(),
        {
            let ghost now = buffer::contents(*src);
            proof {
                assert((self.scan())(now) == scan_frame(self.max_payload as nat, now));
            }
            let bytes: &[u8] = buffer::as_bytes(src);
            if bytes.len() < HEADER_LEN + CRC_LEN {
                return Ok(None);
            }
            proof {
                bytes_value::lemma_two_bytes(now[0], now[1]);
                bytes_value::lemma_two_bytes(now[2], now[3]);
                assert(now.take(2) =~= seq![now[0], now[1]]);
                assert(now.subrange(2, 4) =~= seq![now[2], now[3]]);
            }
            if bytes[0] != 0xAA || bytes[1] != 0x55 {
                buffer::advance(src, 1);
                continue;
            }
            let body_len: usize = bytes[2] as usize * 256 + bytes[3] as usize;
            if body_len < 9 || body_len - 9 > self.max_payload {
                buffer::advance(src, 1);
                continue;
            }
            let total_len: usize = HEADER_LEN + (body_len - 9) + CRC_LEN;
            if bytes.len() < total_len {
                return Ok(None);
            }
            let mut body: &[u8] = slice_subrange(bytes, 4, 4 + body_len);
            let recv_crc: u16 = bytes[4 + body_len] as u16 * 256 + bytes[4 + body_len + 1] as u16;
            let calc_crc: u16 = crc16(body);
            proof {
                bytes_value::lemma_two_bytes(now[4 + body_len], now[5 + body_len]);
                assert(now.subrange(4 + body_len, 6 + body_len) =~= seq![
                    now[4 + body_len],
                    now[5 + body_len],
                ]);
            }
            if recv_crc != calc_crc {
                buffer::advance(src, 1);
                continue;
            }
            let request_id: u64 = buffer::get_u64(&mut body);
            let kind: u8 = buffer::get_u8(&mut body);
            let payload: Vec<u8> = slice_to_vec(body);
            buffer::advance(src, total_len);
            let frame = Frame { request_id, kind, payload };
            proof {
                let whole_body = now.subrange(4, 4 + body_len);
                assert(whole_body.skip(8).skip(1) =~= whole_body.skip(9));
                assert(frame@ =~= frame_of_body(whole_body));
            }
            return Ok(Some(frame));
        }
    }
}

/// More bytes behind a decision do not change it.
pub proof fn law_scan_frame_steady(max_payload: nat)
    ensures
        stream::steady(|src: Seq<u8>| scan_frame(max_payload, src)),
        forall|src: Seq<u8>, more: Seq<u8>|
            !(scan_frame(max_payload, src) is Wait) ==> #[trigger] scan_frame(
                max_payload,
                src + more,
            ) == scan_frame(max_payload, src),
{
    let scan = |src: Seq<u8>| scan_frame(max_payload, src);
    assert forall|src: Seq<u8>, more: Seq<u8>|
        !(scan_frame(max_payload, src) is Wait) implies #[trigger] scan_frame(
        max_payload,
        src + more,
    ) == scan_frame(max_payload, src) by {
        let long = src + more;
        let body_len = bytes_value::be_value(src.subrange(2, 4)) as int;
        assert(long.take(2) =~= src.take(2));
        assert(long.subrange(2, 4) =~= src.subrange(2, 4));
        if src.len() >= 6 + body_len {
            assert(long.subrange(4, 4 + body_len) =~= src.subrange(4, 4 + body_len));
            assert(long.subrange(4 + body_len, 6 + body_len) =~= src.subrange(
                4 + body_len,
                6 + body_len,
            ));
        }
    }
    assert forall|src: Seq<u8>, more: Seq<u8>| !(scan(src) is Wait) implies #[trigger] scan(
        src + more,
    ) == scan(src) by {
        assert(scan_frame(max_payload, src + more) == scan_frame(max_payload, src));
    }
}

/// What is left in the buffer once all frames are out is shorter than one frame.
pub proof fn law_left_over_is_short(max_payload: nat, src: Seq<u8>)
    ensures
        stream::all_frames(|s: Seq<u8>| scan_frame(max_payload, s), src).1.len() < 15
            + max_payload,
{
    let scan = |s: Seq<u8>| scan_frame(max_payload, s);
    law_scan_frame_steady(max_payload);
    stream::law_all_frames_exhausts(scan, src);
    let left = stream::all_frames(scan, src).1;
    assert(scan(left) == scan_frame(max_payload, left));
}

/// What `encode` writes, `try_decode` reads back, whatever follows: the frame comes out as
/// it went in, and exactly its bytes are used up.
pub proof fn law_frame_round_trip(max_payload: nat, frame: FrameData, rest: Seq<u8>)
    requires
        frame.payload.len() <= max_payload,
        frame.payload.len() + 9 <= u16::MAX,
    ensures
        scan_frame(max_payload, frame_bytes(frame) + rest) == Scan::Take(
            frame,
            frame_bytes(frame).len(),
        ),
        stream::first_frame(
            |src: Seq<u8>| scan_frame(max_payload, src),
            frame_bytes(frame) + rest,
        ) == (Some(frame), rest),
{
    let bytes = frame_bytes(frame);
    let src = bytes + rest;
    let body = body_bytes(frame);
    let crc = crc::crc16_of(body);
    bytes_value::lemma_pow256();
    bytes_value::law_be_round_trip(MAGIC as nat, 2);
    bytes_value::law_be_round_trip(frame.request_id as nat, 8);
    assert(body.len() == 9 + frame.payload.len());
    bytes_value::law_be_round_trip(body.len(), 2);
    bytes_value::law_be_round_trip(crc as nat, 2);
    assert(src.take(2) =~= bytes_value::be_bytes(MAGIC as nat, 2));
    assert(src.subrange(2, 4) =~= bytes_value::be_bytes(body.len(), 2));
    let n = body.len() as int;
    assert(src.subrange(4, 4 + n) =~= body);
    assert(src.subrange(4 + n, 6 + n) =~= bytes_value::be_bytes(crc as nat, 2));
    assert(body.take(8) =~= bytes_value::be_bytes(frame.request_id as nat, 8));
    assert(body.skip(9) =~= frame.payload);
    assert(frame_of_body(body) =~= frame);
    assert(src.skip(bytes.len() as int) =~= rest);
}

/// The bytes of several frames, one after the other.
pub open spec fn frames_bytes(frames: Seq<FrameData>) -> Seq<u8>
    decreases frames.len(),
{
    if frames.len() == 0 {
        Seq::empty()
    } else {
        frame_bytes(frames[0]) + frames_bytes(frames.skip(1))
    }
}

/// Frames that stick together in the stream come out one by one, in the order in which they
/// were written; what follows them is read as if it stood alone.
pub proof fn law_sticky_frames(max_payload: nat, frames: Seq<FrameData>, rest: Seq<u8>)
    requires
        forall|i: int|
            0 <= i < frames.len() ==> (#[trigger] frames[i]).payload.len() <= max_payload
                && frames[i].payload.len() + 9 <= u16::MAX,
    ensures
        ({
            let scan = |src: Seq<u8>| scan_frame(max_payload, src);
            let (later, left) = stream::all_frames(scan, rest);
            stream::all_frames(scan, frames_bytes(frames) + rest) == (frames + later, left)
        }),
    decreases frames.len(),
{
    let scan = |src: Seq<u8>| scan_frame(max_payload, src);
    let (later, left) = stream::all_frames(scan, rest);
    if frames.len() == 0 {
        assert(frames_bytes(frames) + rest =~= rest);
        assert(frames + later =~= later);
    } else {
        let tail = frames.skip(1);
        let after = frames_bytes(tail) + rest;
        law_frame_round_trip(max_payload, frames[0], after);
        law_sticky_frames(max_payload, tail, rest);
        assert(frames_bytes(frames) + rest =~= frame_bytes(frames[0]) + after);
        assert(seq![frames[0]] + (tail + later) =~= frames + later);
    }
}

proof fn lemma_frame_bytes_len(frame: FrameData)
    ensures
        frame_bytes(frame).len() == 15 + frame.payload.len(),
{
    bytes_value::lemma_be_bytes_len(MAGIC as nat, 2);
    bytes_value::lemma_be_bytes_len(body_bytes(frame).len(), 2);
    bytes_value::lemma_be_bytes_len(frame.request_id as nat, 8);
    bytes_value::lemma_be_bytes_len(crc::crc16_of(body_bytes(frame)) as nat, 2);
}

/// Bytes that cannot begin a frame are passed over: a frame behind them is still found.
pub proof fn law_frame_after_noise(
    max_payload: nat,
    noise: Seq<u8>,
    frame: FrameData,
    rest: Seq<u8>,
)
    requires
        frame.payload.len() <= max_payload,
        frame.payload.len() + 9 <= u16::MAX,
        forall|i: int| 0 <= i < noise.len() ==> noise[i] != 0xAA,
    ensures
        stream::first_frame(
            |src: Seq<u8>| scan_frame(max_payload, src),
            noise + frame_bytes(frame) + rest,
        ) == (Some(frame), rest),
    decreases noise.len(),
{
    let scan = |src: Seq<u8>| scan_frame(max_payload, src);
    let src = noise + frame_bytes(frame) + rest;
    if noise.len() == 0 {
        law_frame_round_trip(max_payload, frame, rest);
        assert(src =~= frame_bytes(frame) + rest);
    } else {
        law_frame_after_noise(max_payload, noise.skip(1), frame, rest);
        bytes_value::lemma_two_bytes(src[0], src[1]);
        lemma_frame_bytes_len(frame);
        assert(src[0] == noise[0]);
        assert(src.take(2) =~= seq![src[0], src[1]]);
        assert(scan(src) == Scan::<FrameData>::Skip(1));
        assert(src.skip(1) =~= noise.skip(1) + frame_bytes(frame) + rest);
    }
}

/// A frame that comes out of a stream stood there as `encode` writes it: the bytes that were
/// used up end with it.
pub proof fn law_decoded_frame_was_encoded(max_payload: nat, src: Seq<u8>)
    requires
        stream::first_frame(|s: Seq<u8>| scan_frame(max_payload, s), src).0 is Some,
    ensures
        ({
            let (frame, rest) = stream::first_frame(
                |s: Seq<u8>| scan_frame(max_payload, s),
                src,
            );
            &&& frame->0.payload.len() <= max_payload
            &&& src == src.take(src.len() - rest.len() - frame_bytes(frame->0).len())
                + frame_bytes(frame->0) + rest
        }),
    decreases src.len(),
{
    let scan = |s: Seq<u8>| scan_frame(max_payload, s);
    let (frame, rest) = stream::first_frame(scan, src);
    match scan_frame(max_payload, src) {
        Scan::Wait => {},
        Scan::Skip(n) => {
            let tail = src.skip(1);
            law_decoded_frame_was_encoded(max_payload, tail);
            let k = tail.len() - rest.len() - frame_bytes(frame->0).len();
            assert(src =~= src.take(1) + tail);
            assert(src.take(k + 1) =~= src.take(1) + tail.take(k));
        },
        Scan::Take(data, n) => {
            lemma_taken_frame_was_encoded(max_payload, src, data, n);
            assert(src =~= src.take(0) + frame_bytes(data) + src.skip(n as int));
        },
    }
}

proof fn lemma_taken_frame_was_encoded(max_payload: nat, src: Seq<u8>, data: FrameData, n: nat)
    requires
        scan_frame(max_payload, src) == Scan::Take(data, n),
    ensures
        n <= src.len(),
        data.payload.len() <= max_payload,
        frame_bytes(data) == src.take(n as int),
{
    let body_len = bytes_value::be_value(src.subrange(2, 4)) as int;
    let body = src.subrange(4, 4 + body_len);
    lemma_be_value_inverse(src.take(2));
    lemma_be_value_inverse(src.subrange(2, 4));
    lemma_be_value_inverse(src.subrange(4 + body_len, 6 + body_len));
    lemma_be_value_inverse(body.take(8));
    bytes_value::lemma_pow256();
    assert(body_bytes(data) =~= body);
    assert(frame_bytes(data) =~= src.take(n as int));
}

proof fn lemma_be_value_inverse(s: Seq<u8>)
    ensures
        bytes_value::be_bytes(bytes_value::be_value(s), s.len()) == s,
        bytes_value::be_value(s) < bytes_value::pow256(s.len()),
    decreases s.len(),
{
    if s.len() > 0 {
        lemma_be_value_inverse(s.drop_last());
        let v = bytes_value::be_value(s);
        assert(v / 256 == bytes_value::be_value(s.drop_last()) && v % 256 == s.last());
        assert(bytes_value::be_bytes(v, s.len()) =~= s);
    }
}

/// Where the parts of a frame stand: magic number, length, body and checksum.
proof fn lemma_frame_parts(magic: Seq<u8>, len: Seq<u8>, body: Seq<u8>, sum: Seq<u8>)
    requires
        magic.len() == 2,
        len.len() == 2,
        sum.len() == 2,
    ensures
        ({
            let bytes = magic + len + body + sum;
            let n = body.len() as int;
            &&& bytes.len() == n + 6
            &&& bytes[0] == magic[0]
            &&& bytes[1] == magic[1]
            &&& bytes[2] == len[0]
            &&& bytes[3] == len[1]
            &&& bytes.subrange(4, 4 + n) == body
            &&& bytes[4 + n] == sum[0]
            &&& bytes[5 + n] == sum[1]
            &&& n >= 9 ==> bytes.subrange(4, 12) == body.subrange(0, 8)
            &&& n >= 9 ==> bytes[12] == body[8]
            &&& n >= 9 ==> bytes.subrange(13, 4 + n) == body.subrange(9, n)
        }),
{
    let bytes = magic + len + body + sum;
    let n = body.len() as int;
    assert(bytes.subrange(4, 4 + n) =~= body);
    if n >= 9 {
        assert(bytes.subrange(4, 12) =~= body.subrange(0, 8));
        assert(bytes.subrange(13, 4 + n) =~= body.subrange(9, n));
    }
}

proof fn lemma_two_bytes_spell(v: u16)
    ensures
        bytes_value::be_bytes(v as nat, 2).len() == 2,
        bytes_value::be_bytes(v as nat, 2)[0] * 256 + bytes_value::be_bytes(v as nat, 2)[1] == v,
{
    bytes_value::lemma_u16_bytes(v);
}

proof fn lemma_magic_bytes()
    ensures
        bytes_value::be_bytes(MAGIC as nat, 2).len() == 2,
        bytes_value::be_bytes(MAGIC as nat, 2)[0] == 0xAA,
        bytes_value::be_bytes(MAGIC as nat, 2)[1] == 0x55,
{
    bytes_value::lemma_u16_bytes(MAGIC);
}

/// Where the parts of a body stand: the number of the request, the kind and the payload.
proof fn lemma_body_parts(frame: FrameData)
    ensures
        ({
            let body = body_bytes(frame);
            let n = frame.payload.len() as int;
            &&& body.len() == n + 9
            &&& bytes_value::be_value(body.subrange(0, 8)) == frame.request_id
            &&& body[8] == frame.kind
            &&& body.subrange(9, 9 + n) == frame.payload
        }),
{
    let id = bytes_value::be_bytes(frame.request_id as nat, 8);
    let body = body_bytes(frame);
    bytes_value::lemma_pow256();
    bytes_value::law_be_round_trip(frame.request_id as nat, 8);
    assert(body.subrange(0, 8) =~= id);
    assert(body.subrange(9, 9 + frame.payload.len() as int) =~= frame.payload);
}

/// Where everything stands in bytes that are put together as those of a frame are.
proof fn lemma_layout(frame: FrameData, len: u16, sum: u16, bytes: Seq<u8>)
    requires
        bytes == bytes_value::be_bytes(MAGIC as nat, 2) + bytes_value::be_bytes(len as nat, 2)
            + body_bytes(frame) + bytes_value::be_bytes(sum as nat, 2),
    ensures
        ({
            let n = frame.payload.len() as int;
            &&& bytes.len() == n + 15
            &&& bytes[0] == 0xAA
            &&& bytes[1] == 0x55
            &&& bytes[2] * 256 + bytes[3] == len
            &&& bytes_value::be_value(bytes.subrange(4, 12)) == frame.request_id
            &&& bytes[12] == frame.kind
            &&& bytes.subrange(13, 13 + n) == frame.payload
            &&& bytes[13 + n] * 256 + bytes[14 + n] == sum
            &&& bytes.subrange(4, 13 + n) == body_bytes(frame)
        }),
{
    lemma_magic_bytes();
    lemma_two_bytes_spell(len);
    lemma_two_bytes_spell(sum);
    lemma_body_parts(frame);
    lemma_frame_parts(
        bytes_value::be_bytes(MAGIC as nat, 2),
        bytes_value::be_bytes(len as nat, 2),
        body_bytes(frame),
        bytes_value::be_bytes(sum as nat, 2),
    );
}

/// Where everything stands in a frame: 0xAA, 0x55, the length of what the checksum covers, the
/// number of the request in eight bytes, the kind at byte 12, the payload from byte 13 on, and
/// the checksum of all behind the length; numbers have their highest byte first.
pub proof fn law_frame_layout(frame: FrameData)
    requires
        frame.payload.len() + 9 <= 0xFFFF,
    ensures
        ({
            let bytes = frame_bytes(frame);
            let n = frame.payload.len() as int;
            &&& bytes.len() == n + 15
            &&& bytes[0] == 0xAA
            &&& bytes[1] == 0x55
            &&& bytes[2] * 256 + bytes[3] == n + 9
            &&& bytes_value::be_value(bytes.subrange(4, 12)) == frame.request_id
            &&& bytes[12] == frame.kind
            &&& bytes.subrange(13, 13 + n) == frame.payload
            &&& bytes[13 + n] * 256 + bytes[14 + n] == crc::crc16_of(bytes.subrange(4, 13 + n))
        }),
{
    lemma_body_parts(frame);
    lemma_layout(
        frame,
        (frame.payload.len() + 9) as u16,
        crc::crc16_of(body_bytes(frame)),
        frame_bytes(frame),
    );
}

/// A frame is written where its payload is within the codec's limit and its length can be
/// written in two bytes; one beyond the limit is too large, by its own count.
pub proof fn law_what_can_be_written(codec: SimpleFrameCodec, frame: FrameData)
    requires
        frame.payload.len() <= usize::MAX,
    ensures
        codec.encoding(frame) is Ok <==> frame.payload.len() <= codec.max_payload
            && frame.payload.len() <= 65_526,
        frame.payload.len() > codec.max_payload ==> codec.encoding(frame) == Err::<
            Seq<u8>,
            CodecError,
        >(CodecError::FrameTooLarge(frame.payload.len() as usize)),
        frame.payload.len() <= codec.max_payload && frame.payload.len() > 65_526
            ==> codec.encoding(frame) == Err::<Seq<u8>, CodecError>(CodecError::InvalidLength),
{
}

/// The words for what is wrong with a frame.
pub proof fn law_codec_error_texts(len: usize)
    ensures
        CodecError::FrameTooLarge(len).text() == "frame too large: "@ + crate::text::decimal(
            len as nat,
        ),
        CodecError::CrcMismatch.text() == "crc mismatch"@,
        CodecError::InvalidLength.text() == "invalid length"@,
{
}

} // verus!
