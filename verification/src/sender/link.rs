//! The link of a sender: writing frames whole, reading acknowledgements, and counting what
//! came of it.
use bytes::BytesMut;
use vstd::prelude::*;

use crate::buffer;
use crate::bytes_value;
use crate::number::Real;
use crate::protocol;
use crate::protocol::crc;
use crate::protocol::stream;
use crate::protocol::{crc16, FrameCodec, FrameData, SimpleFrameCodec};
use crate::sender::frames;
use crate::text;

verus! {

// ---- writing a frame ----

/// How often in a row a write may make no progress.
pub const WRITE_RETRIES: u32 = 20;

/// What came of a write.
#[derive(Clone, Copy, Debug, PartialEq, Eq, Structural)]
pub enum WriteEvent {
    Wrote(usize),
    TimedOut,
    Failed,
}

/// What to do next about a frame that is being written.
#[derive(Clone, Copy, Debug, PartialEq, Eq, Structural)]
pub enum WriteStep {
    /// Write what is left.
    Write,
    /// Wait a little, and write what is left.
    Pause,
    /// All is written.
    Flush,
    /// Give up: nothing gets written.
    NoProgress,
    /// Give up with the error of the write.
    Fail,
}

/// How far the writing of a frame has come.
#[derive(Clone, Copy, Debug, PartialEq, Eq, Structural)]
pub struct FrameWrite {
    pub len: usize,
    pub offset: usize,
    pub retries: u32,
}

/// How far the writing has come after an event, and what to do next.
pub open spec fn after_write(w: FrameWrite, event: WriteEvent) -> (FrameWrite, WriteStep) {
    let stalled = FrameWrite { retries: (w.retries + 1) as u32, ..w };
    match event {
        WriteEvent::Wrote(n) => if n > 0 {
            let next = FrameWrite { offset: (w.offset + n) as usize, retries: 0, ..w };
            (
                next,
                if next.offset < w.len {
                    WriteStep::Write
                } else {
                    WriteStep::Flush
                },
            )
        } else if w.retries < WRITE_RETRIES {
            (stalled, WriteStep::Pause)
        } else {
            (w, WriteStep::NoProgress)
        },
        WriteEvent::TimedOut => if w.retries < WRITE_RETRIES {
            (stalled, WriteStep::Pause)
        } else {
            (w, WriteStep::Fail)
        },
        WriteEvent::Failed => (w, WriteStep::Fail),
    }
}

impl FrameWrite {
    /// A write takes from what is left, and stops after too many retries.
    pub open spec fn wf(self) -> bool {
        self.offset <= self.len && self.retries <= WRITE_RETRIES
    }

    pub fn new(len: usize) -> (r: (Self, WriteStep))
        ensures
            r.0 == (FrameWrite { len, offset: 0, retries: 0 }),
            r.0.wf(),
            r.1 == if len > 0 {
                WriteStep::Write
            } else {
                WriteStep::Flush
            },
    {
        let step = if len > 0 {
            WriteStep::Write
        } else {
            WriteStep::Flush
        };
        (FrameWrite { len, offset: 0, retries: 0 }, step)
    }

    pub fn next(&mut self, event: WriteEvent) -> (r: WriteStep)
        requires
            old(self).wf(),
            event matches WriteEvent::Wrote(n) ==> n <= old(self).len - old(self).offset,
        ensures
            final(self).wf(),
            (*final(self), r) == after_write(*old(self), event),
    {
        match event {
            WriteEvent::Wrote(n) => {
                if n > 0 {
                    self.offset = self.offset + n;
                    self.retries = 0;
                    if self.offset < self.len {
                        WriteStep::Write
                    } else {
                        WriteStep::Flush
                    }
                } else {
                    if self.retries < WRITE_RETRIES {
                        self.retries = self.retries + 1;
                        WriteStep::Pause
                    } else {
                        WriteStep::NoProgress
                    }
                }
            },
            WriteEvent::TimedOut => {
                if self.retries < WRITE_RETRIES {
                    self.retries = self.retries + 1;
                    WriteStep::Pause
                } else {
                    WriteStep::Fail
                }
            },
            WriteEvent::Failed => WriteStep::Fail,
        }
    }
}

/// What a port has taken of a frame after some events: each write takes from what is left.
pub open spec fn taken(frame: Seq<u8>, events: Seq<WriteEvent>) -> (Seq<u8>, FrameWrite, WriteStep)
    decreases events.len(),
{
    if events.len() == 0 {
        (
            Seq::empty(),
            FrameWrite { len: frame.len() as usize, offset: 0, retries: 0 },
            if frame.len() > 0 {
                WriteStep::Write
            } else {
                WriteStep::Flush
            },
        )
    } else {
        let (bytes, w, _) = taken(frame, events.drop_last());
        let event = events.last();
        let more = match event {
            WriteEvent::Wrote(n) => frame.subrange(w.offset as int, w.offset + n),
            _ => Seq::empty(),
        };
        let (next, step) = after_write(w, event);
        (bytes + more, next, step)
    }
}

/// Whether events are what a port can answer: it takes no more than it is offered, and the
/// writing went on until the last of them.
pub open spec fn possible(frame: Seq<u8>, events: Seq<WriteEvent>) -> bool
    decreases events.len(),
{
    events.len() == 0 || {
        let (_, w, step) = taken(frame, events.drop_last());
        &&& possible(frame, events.drop_last())
        &&& step is Write || step is Pause
        &&& events.last() matches WriteEvent::Wrote(n) ==> n <= w.len - w.offset
    }
}

/// Where the writing ends well, the port has taken the frame: every byte, once, in order.
/// Where it has not ended, what was taken is a first part of the frame.
pub proof fn law_frame_is_written_whole(frame: Seq<u8>, events: Seq<WriteEvent>)
    requires
        frame.len() <= usize::MAX,
        possible(frame, events),
    ensures
        ({
            let (bytes, w, step) = taken(frame, events);
            &&& w.wf()
            &&& w.len == frame.len()
            &&& bytes == frame.take(w.offset as int)
            &&& (step is Flush ==> bytes == frame)
            &&& (step is Write || step is Pause ==> w.offset < frame.len())
        }),
    decreases events.len(),
{
    if events.len() > 0 {
        law_frame_is_written_whole(frame, events.drop_last());
        let (bytes, w, step) = taken(frame, events.drop_last());
        let (all, next, _) = taken(frame, events);
        assert(all =~= frame.take(next.offset as int));
    }
    assert(frame.take(frame.len() as int) =~= frame);
}

// ---- acknowledgements ----

/// What is logged of an acknowledgement whose payload reads so.
pub open spec fn ack_words(request_id: u64, kind: u8, payload: Seq<char>) -> Seq<char> {
    "ack request_id="@ + text::decimal(request_id as nat) + " kind=0x"@ + text::zero_padded(
        text::hex(kind as nat),
        2,
    ) + " payload="@ + payload
}

/// What is logged of an acknowledgement.
pub open spec fn ack_text(frame: FrameData) -> Seq<char> {
    ack_words(frame.request_id, frame.kind, text::shown_text(frame.payload))
}

/// The line that is logged of an acknowledgement whose payload reads so.
pub fn ack_line(request_id: u64, kind: u8, payload: &str) -> (r: String)
    ensures
        r@ == ack_words(request_id, kind, payload@),
{
    let mut line = text::owned("ack request_id=");
    text::push_decimal(&mut line, request_id);
    text::push_text(&mut line, " kind=0x");
    text::push_hex_padded(&mut line, kind as u64, 2);
    text::push_text(&mut line, " payload=");
    text::push_text(&mut line, payload);
    line
}

/// What has come back over the link and is not read yet.
pub struct AckReader {
    codec: SimpleFrameCodec,
    unread: BytesMut,
}

impl View for AckReader {
    type V = Seq<u8>;

    closed spec fn view(&self) -> Seq<u8> {
        buffer::contents(self.unread)
    }
}

/// The scan for acknowledgements.
pub open spec fn ack_scan() -> spec_fn(Seq<u8>) -> stream::Scan<FrameData> {
    |src: Seq<u8>| protocol::scan_frame(frames::SENDER_MAX_PAYLOAD as nat, src)
}

impl AckReader {
    #[verifier::type_invariant]
    spec fn inv(self) -> bool {
        self.codec.max_payload == frames::SENDER_MAX_PAYLOAD
    }

    pub fn new() -> (r: Self)
        ensures
            r@ == Seq::<u8>::empty(),
    {
        AckReader {
            codec: SimpleFrameCodec::new(frames::SENDER_MAX_PAYLOAD),
            unread: buffer::new_buffer(),
        }
    }

    pub fn unread_len(&self) -> (r: usize)
        ensures
            r == self@.len(),
    {
        buffer::as_bytes(&self.unread).len()
    }

    pub fn receive(self, bytes: &[u8]) -> (r: Self)
        requires
            buffer::fits_buffer(self@, bytes@.len()),
        ensures
            r@ == self@ + bytes@,
    {
        proof {
            use_type_invariant(&self);
        }
        let AckReader { codec, unread } = self;
        let mut unread = unread;
        buffer::extend_from_slice(&mut unread, bytes);
        AckReader { codec, unread }
    }

    /// Takes all acknowledgements that are complete, and what is logged of each.
    pub fn drain(self) -> (r: (Self, Vec<String>))
        ensures
            ({
                let (acks, left) = stream::all_frames(ack_scan(), self@);
                &&& r.0@ == left
                &&& r.1@.map_values(|line: String| line@) == acks.map_values(
                    |frame: FrameData| ack_text(frame),
                )
            }),
    {
        proof {
            use_type_invariant(&self);
        }
        let AckReader { codec, unread } = self;
        let mut unread = unread;
        let mut lines: Vec<String> = Vec::new();
        let ghost whole = buffer::contents(unread);
        let ghost scan = ack_scan();
        let ghost mut seen: Seq<FrameData> = Seq::empty();
        proof {
            assert(codec.scan() =~= scan);
            protocol::law_scan_frame_steady(frames::SENDER_MAX_PAYLOAD as nat);
            assert(stream::steady(scan));
            assert(seen + stream::all_frames(scan, whole).0 =~= stream::all_frames(scan, whole).0);
            assert(lines@.map_values(|line: String| line@) =~= seen.map_values(
                |frame: FrameData| ack_text(frame),
            ));
        }
        loop
            invariant
                codec.max_payload == frames::SENDER_MAX_PAYLOAD,
                codec.scan() == scan,
                stream::steady(scan),
                stream::all_frames(scan, whole) == (
                    seen + stream::all_frames(scan, buffer::contents(unread)).0,
                    stream::all_frames(scan, buffer::contents(unread)).1,
                ),
                lines@.map_values(|line: String| line@) == seen.map_values(
                    |frame: FrameData| ack_text(frame),
                ),
            ensures
                stream::all_frames(scan, whole) == (seen, buffer::contents(unread)),
                codec.max_payload == frames::SENDER_MAX_PAYLOAD,
                lines@.map_values(|line: String| line@) == seen.map_values(
                    |frame: FrameData| ack_text(frame),
                ),
            decreases buffer::contents(unread).len(),
        {
            let ghost before = buffer::contents(unread);
            proof {
                stream::law_first_frame_split(scan, before, Seq::empty());
            }
            match codec.try_decode(&mut unread) {
                Ok(Some(frame)) => {
                    let payload: String = text::from_utf8_lossy(frame.payload.as_slice());
                    let line = ack_line(frame.request_id, frame.kind, payload.as_str());
                    let ghost old_lines = lines@;
                    let ghost old_seen = seen;
                    lines.push(line);
                    proof {
                        let rest = buffer::contents(unread);
                        let later = stream::all_frames(scan, rest).0;
                        seen = seen.push(frame@);
                        assert(seen + later =~= old_seen + (seq![frame@] + later));
                        assert(lines@.map_values(|line: String| line@) =~= old_lines.map_values(
                            |line: String| line@,
                        ).push(line@));
                        assert(seen.map_values(|frame: FrameData| ack_text(frame))
                            =~= old_seen.map_values(|frame: FrameData| ack_text(frame)).push(
                            ack_text(frame@),
                        ));
                    }
                },
                _ => {
                    proof {
                        let rest = buffer::contents(unread);
                        assert(stream::all_frames(scan, before) == (Seq::<FrameData>::empty(), rest));
                        assert(seen + Seq::<FrameData>::empty() =~= seen);
                    }
                    break;
                },
            }
        }
        (AckReader { codec, unread }, lines)
    }
}

/// Why an acknowledgement is no good.
#[derive(Clone, Copy, Debug, PartialEq, Eq, Structural)]
pub enum AckError {
    BadMagic,
    BadLength,
    BadCrc,
}

impl AckError {
    pub fn as_str(self) -> (r: &'static str)
        ensures
            r@ == match self {
                AckError::BadMagic => "bad magic"@,
                AckError::BadLength => "bad body length"@,
                AckError::BadCrc => "bad crc"@,
            },
    {
        match self {
            AckError::BadMagic => "bad magic",
            AckError::BadLength => "bad body length",
            AckError::BadCrc => "bad crc",
        }
    }
}

/// The length of the body that the first four bytes of an acknowledgement announce.
pub open spec fn announced(head: Seq<u8>) -> Result<nat, AckError> {
    let len = bytes_value::be_value(head.subrange(2, 4));
    if bytes_value::be_value(head.take(2)) != protocol::MAGIC {
        Err(AckError::BadMagic)
    } else if len < 9 || len > 8192 {
        Err(AckError::BadLength)
    } else {
        Ok(len)
    }
}

pub fn ack_body_len(head: [u8; 4]) -> (r: Result<usize, AckError>)
    ensures
        match announced(head@) {
            Ok(len) => r is Ok && r->Ok_0 == len,
            Err(error) => r == Err::<usize, AckError>(error),
        },
{
    proof {
        bytes_value::lemma_two_bytes(head@[0], head@[1]);
        bytes_value::lemma_two_bytes(head@[2], head@[3]);
        assert(head@.take(2) =~= seq![head@[0], head@[1]]);
        assert(head@.subrange(2, 4) =~= seq![head@[2], head@[3]]);
    }
    if head[0] != 0xAA || head[1] != 0x55 {
        return Err(AckError::BadMagic);
    }
    let len: usize = head[2] as usize * 256 + head[3] as usize;
    if len < 9 || len > 8192 {
        return Err(AckError::BadLength);
    }
    Ok(len)
}

/// Whether the last two bytes are the checksum of those before them.
pub open spec fn checksum_fits(body_crc: Seq<u8>) -> bool {
    let n = body_crc.len() - 2;
    bytes_value::be_value(body_crc.skip(n)) == crc::crc16_of(body_crc.take(n))
}

/// Checks the body of an acknowledgement, and its checksum behind it.
pub fn check_ack(body_crc: &[u8]) -> (r: Result<(), AckError>)
    requires
        body_crc@.len() >= 2,
    ensures
        r == if checksum_fits(body_crc@) {
            Ok::<(), AckError>(())
        } else {
            Err(AckError::BadCrc)
        },
{
    let n: usize = body_crc.len() - 2;
    let body: &[u8] = vstd::slice::slice_subrange(body_crc, 0, n);
    let received: u16 = body_crc[n] as u16 * 256 + body_crc[n + 1] as u16;
    proof {
        bytes_value::lemma_two_bytes(body_crc@[n as int], body_crc@[n + 1]);
        assert(body_crc@.skip(n as int) =~= seq![body_crc@[n as int], body_crc@[n + 1]]);
        assert(body@ =~= body_crc@.take(n as int));
    }
    if received != crc16(body) {
        return Err(AckError::BadCrc);
    }
    Ok(())
}

/// Every frame of the device protocol that is not too long is a good acknowledgement.
pub proof fn law_frames_acknowledge(frame: FrameData)
    requires
        frame.payload.len() + 9 <= 8192,
    ensures
        announced(protocol::frame_bytes(frame).take(4)) == Ok::<nat, AckError>(
            frame.payload.len() + 9,
        ),
        protocol::frame_bytes(frame).len() == 4 + (frame.payload.len() + 9) + 2,
        checksum_fits(protocol::frame_bytes(frame).skip(4)),
{
    let bytes = protocol::frame_bytes(frame);
    let body = protocol::body_bytes(frame);
    let crc = crc::crc16_of(body);
    bytes_value::lemma_pow256();
    bytes_value::lemma_be_bytes_len(frame.request_id as nat, 8);
    bytes_value::law_be_round_trip(protocol::MAGIC as nat, 2);
    bytes_value::law_be_round_trip(body.len(), 2);
    bytes_value::law_be_round_trip(crc as nat, 2);
    assert(body.len() == frame.payload.len() + 9);
    assert(bytes.take(4).take(2) =~= bytes_value::be_bytes(protocol::MAGIC as nat, 2));
    assert(bytes.take(4).subrange(2, 4) =~= bytes_value::be_bytes(body.len(), 2));
    let n = bytes.skip(4).len() - 2;
    assert(bytes.skip(4).take(n) =~= body);
    assert(bytes.skip(4).skip(n) =~= bytes_value::be_bytes(crc as nat, 2));
}

// ---- connecting ----

/// How often a connection is tried.
pub const CONNECT_MAX_RETRIES: u32 = 30;

/// How long to wait between tries, in milliseconds.
pub const CONNECT_RETRY_MS: u64 = 300;

/// Whether another try follows one that failed; tries are counted from one.
pub fn tries_again(attempt: u32) -> (r: bool)
    ensures
        r == (attempt < CONNECT_MAX_RETRIES),
{
    attempt < CONNECT_MAX_RETRIES
}

// ---- stages of a stress run ----

/// How many sensors a stress run sends for.
pub const STRESS_SENSORS: u64 = 10;

/// What came of a frame.
#[derive(Clone, Copy, Debug, PartialEq, Eq, Structural)]
pub enum FrameOutcome {
    NotWritten,
    Acknowledged,
    NotAcknowledged,
}

/// What a stage has counted.
#[derive(Clone, Copy, Debug, PartialEq, Eq, Structural)]
pub struct StageCounters {
    pub ticks: u64,
    pub sent_frames: u64,
    pub ack_ok: u64,
    pub ack_fail: u64,
}

/// The counts after one more frame.
pub open spec fn counted(c: StageCounters, outcome: FrameOutcome) -> StageCounters {
    match outcome {
        FrameOutcome::NotWritten => StageCounters { ack_fail: frames::next_of(c.ack_fail), ..c },
        FrameOutcome::Acknowledged => StageCounters {
            sent_frames: frames::next_of(c.sent_frames),
            ack_ok: frames::next_of(c.ack_ok),
            ..c
        },
        FrameOutcome::NotAcknowledged => StageCounters {
            sent_frames: frames::next_of(c.sent_frames),
            ack_fail: frames::next_of(c.ack_fail),
            ..c
        },
    }
}

fn next_count(n: u64) -> (r: u64)
    ensures
        r == frames::next_of(n),
{
    if n < u64::MAX {
        n + 1
    } else {
        n
    }
}

impl StageCounters {
    pub fn new() -> (r: Self)
        ensures
            r == (StageCounters { ticks: 0, sent_frames: 0, ack_ok: 0, ack_fail: 0 }),
    {
        StageCounters { ticks: 0, sent_frames: 0, ack_ok: 0, ack_fail: 0 }
    }

    pub fn count(&mut self, outcome: FrameOutcome)
        ensures
            *final(self) == counted(*old(self), outcome),
    {
        match outcome {
            FrameOutcome::NotWritten => {
                self.ack_fail = next_count(self.ack_fail);
            },
            FrameOutcome::Acknowledged => {
                self.sent_frames = next_count(self.sent_frames);
                self.ack_ok = next_count(self.ack_ok);
            },
            FrameOutcome::NotAcknowledged => {
                self.sent_frames = next_count(self.sent_frames);
                self.ack_fail = next_count(self.ack_fail);
            },
        }
    }

    pub fn tick(&mut self)
        ensures
            *final(self) == (StageCounters { ticks: frames::next_of(old(self).ticks), ..*old(
                self,
            ) }),
    {
        self.ticks = next_count(self.ticks);
    }
}

/// The counts after several frames.
pub open spec fn counts_of(outcomes: Seq<FrameOutcome>) -> StageCounters
    decreases outcomes.len(),
{
    if outcomes.len() == 0 {
        StageCounters { ticks: 0, sent_frames: 0, ack_ok: 0, ack_fail: 0 }
    } else {
        counted(counts_of(outcomes.drop_last()), outcomes.last())
    }
}

/// Every frame is counted once: as acknowledged or as lost; and every acknowledged frame was
/// sent.
pub proof fn law_every_frame_counts(outcomes: Seq<FrameOutcome>)
    requires
        outcomes.len() <= u64::MAX,
    ensures
        counts_of(outcomes).ack_ok + counts_of(outcomes).ack_fail == outcomes.len(),
        counts_of(outcomes).ack_ok <= counts_of(outcomes).sent_frames <= outcomes.len(),
    decreases outcomes.len(),
{
    if outcomes.len() > 0 {
        law_every_frame_counts(outcomes.drop_last());
    }
}

/// The time between two ticks, in microseconds.
pub fn tick_interval_us(target_tick_hz: u64) -> (r: u64)
    requires
        target_tick_hz > 0,
    ensures
        r == if target_tick_hz <= 1_000_000 {
            1_000_000u64 / target_tick_hz
        } else {
            1
        },
{
    let interval: u64 = 1_000_000u64 / target_tick_hz;
    proof {
        assert(target_tick_hz <= 1_000_000 ==> 1_000_000u64 / target_tick_hz >= 1)
            by (nonlinear_arith)
            requires
                target_tick_hz > 0,
        ;
        assert(target_tick_hz > 1_000_000 ==> 1_000_000u64 / target_tick_hz == 0)
            by (nonlinear_arith)
            requires
                target_tick_hz > 0,
        ;
    }
    if interval < 1 {
        1
    } else {
        interval
    }
}

/// How many frames a second a stage aims at.
pub fn target_frame_hz(target_tick_hz: u64) -> (r: u64)
    requires
        target_tick_hz * STRESS_SENSORS <= u64::MAX,
    ensures
        r == target_tick_hz * STRESS_SENSORS,
{
    target_tick_hz * STRESS_SENSORS
}

/// How a stage went.
#[derive(Clone, Copy, Debug, PartialEq, Eq, Structural)]
pub struct StageRate {
    /// Frames a second.
    pub frame_hz: Real,
    /// Lost frames, in percent.
    pub loss: Real,
}

/// The number one.
pub open spec fn one() -> Real {
    Real { bits: 0x3FF0_0000_0000_0000 }
}

/// Which of the stages with at most one percent of loss was fastest: of several, the last.
pub open spec fn best_of(stages: Seq<StageRate>) -> Option<int>
    decreases stages.len(),
{
    if stages.len() == 0 {
        None
    } else {
        let last = stages.last();
        match best_of(stages.drop_last()) {
            None => if one().at_least(last.loss) {
                Some(stages.len() - 1)
            } else {
                None
            },
            Some(best) => if one().at_least(last.loss) && !stages[best].frame_hz.above(
                last.frame_hz,
            ) {
                Some(stages.len() - 1)
            } else {
                Some(best)
            },
        }
    }
}

pub fn best_stage(stages: &Vec<StageRate>) -> (r: Option<usize>)
    ensures
        match best_of(stages@) {
            Some(best) => r is Some && r->0 == best && best < stages@.len(),
            None => r is None,
        },
{
    let mut best: Option<usize> = None;
    let one = Real { bits: 0x3FF0_0000_0000_0000 };
    proof {
        assert(stages@.take(0) =~= Seq::<StageRate>::empty());
    }
    for i in 0..stages.len()
        invariant
            one == self::one(),
            match best_of(stages@.take(i as int)) {
                Some(found) => best is Some && best->0 == found && found < i,
                None => best is None,
            },
    {
        proof {
            assert(stages@.take(i + 1).drop_last() =~= stages@.take(i as int));
        }
        if one.ge(stages[i].loss) {
            match best {
                None => {
                    best = Some(i);
                },
                Some(found) => {
                    if !stages[found].frame_hz.gt(stages[i].frame_hz) {
                        best = Some(i);
                    }
                },
            }
        }
    }
    proof {
        assert(stages@.take(stages@.len() as int) =~= stages@);
    }
    best
}

/// The stage that is suggested lost at most one percent, and where all rates are numbers, no
/// stage of which that is true was faster.
pub proof fn law_best_stage(stages: Seq<StageRate>, i: int)
    requires
        0 <= i < stages.len(),
        forall|j: int| 0 <= j < stages.len() ==> !(#[trigger] stages[j]).frame_hz.is_nan(),
        one().at_least(stages[i].loss),
    ensures
        best_of(stages) is Some,
        0 <= best_of(stages)->0 < stages.len(),
        one().at_least(stages[best_of(stages)->0].loss),
        stages[best_of(stages)->0].frame_hz.at_least(stages[i].frame_hz),
    decreases stages.len(),
{
    let front = stages.drop_last();
    lemma_best_is_there(front);
    assert(!stages[stages.len() - 1].frame_hz.is_nan());
    assert forall|j: int| 0 <= j < front.len() implies !(#[trigger] front[j]).frame_hz.is_nan() by {
        assert(!stages[j].frame_hz.is_nan());
    }
    if i < stages.len() - 1 {
        law_best_stage(front, i);
    }
}

proof fn lemma_best_is_there(stages: Seq<StageRate>)
    ensures
        best_of(stages) matches Some(best) ==> 0 <= best < stages.len() && one().at_least(
            stages[best].loss,
        ),
    decreases stages.len(),
{
    if stages.len() > 0 {
        lemma_best_is_there(stages.drop_last());
    }
}

// ---- what holds of all writes and answers ----

/// After a write that got somewhere, what is left is written, and the count of failures begins
/// anew; once nothing is left, all is flushed. A write that got nowhere, or timed out, is tried
/// again after a pause, twenty times in a row, and then given up; a write that failed is given
/// up at once.
pub proof fn law_write_steps(w: FrameWrite, n: usize)
    requires
        w.offset + n <= usize::MAX,
        w.retries <= 20,
    ensures
        n > 0 ==> ({
            let (next, step) = after_write(w, WriteEvent::Wrote(n));
            &&& next.offset == w.offset + n
            &&& next.retries == 0
            &&& next.len == w.len
            &&& step == if w.offset + n < w.len {
                WriteStep::Write
            } else {
                WriteStep::Flush
            }
        }),
        ({
            let (nothing, after_nothing) = after_write(w, WriteEvent::Wrote(0));
            let (late, after_late) = after_write(w, WriteEvent::TimedOut);
            let (failed, after_failure) = after_write(w, WriteEvent::Failed);
            &&& w.retries < 20 ==> after_nothing == WriteStep::Pause && after_late
                == WriteStep::Pause && nothing.retries == w.retries + 1 && late.retries == w.retries
                + 1
            &&& w.retries == 20 ==> after_nothing == WriteStep::NoProgress && after_late
                == WriteStep::Fail
            &&& after_failure == WriteStep::Fail
            &&& nothing.offset == w.offset && late.offset == w.offset && failed.offset == w.offset
            &&& nothing.len == w.len && late.len == w.len && failed.len == w.len
        }),
{
}

/// The head of an answer is right where it begins with 0xAA and 0x55 and announces 9 to 8192
/// bytes, the higher byte first; a wrong beginning is told before a wrong length.
pub proof fn law_answer_head(head: Seq<u8>)
    requires
        head.len() == 4,
    ensures
        head[0] != 0xAA || head[1] != 0x55 ==> announced(head) == Err::<nat, AckError>(
            AckError::BadMagic,
        ),
        head[0] == 0xAA && head[1] == 0x55 ==> ({
            let len = head[2] * 256 + head[3];
            &&& 9 <= len <= 8192 ==> announced(head) == Ok::<nat, AckError>(len as nat)
            &&& len < 9 || len > 8192 ==> announced(head) == Err::<nat, AckError>(
                AckError::BadLength,
            )
        }),
{
    bytes_value::lemma_two_bytes(head[0], head[1]);
    bytes_value::lemma_two_bytes(head[2], head[3]);
    assert(head.take(2) =~= seq![head[0], head[1]]);
    assert(head.subrange(2, 4) =~= seq![head[2], head[3]]);
}

/// An answer is shown with its number, its kind in two hexadecimal digits, and what it says.
pub proof fn law_ack_words(frame: FrameData)
    ensures
        ack_text(frame) == "ack request_id="@ + text::decimal(frame.request_id as nat)
            + " kind=0x"@ + text::zero_padded(text::hex(frame.kind as nat), 2) + " payload="@
            + text::shown_text(frame.payload),
{
}

/// A frame that was written counts as sent, one that was answered also as acknowledged, and any
/// that was not answered as lost.
pub proof fn law_outcomes_count(c: StageCounters)
    requires
        c.sent_frames < u64::MAX,
        c.ack_ok < u64::MAX,
        c.ack_fail < u64::MAX,
    ensures
        counted(c, FrameOutcome::NotWritten) == (StageCounters {
            ack_fail: (c.ack_fail + 1) as u64,
            ..c
        }),
        counted(c, FrameOutcome::Acknowledged) == (StageCounters {
            sent_frames: (c.sent_frames + 1) as u64,
            ack_ok: (c.ack_ok + 1) as u64,
            ..c
        }),
        counted(c, FrameOutcome::NotAcknowledged) == (StageCounters {
            sent_frames: (c.sent_frames + 1) as u64,
            ack_fail: (c.ack_fail + 1) as u64,
            ..c
        }),
        one().bits == 0x3FF0_0000_0000_0000,
{
}

/// The service is tried thirty times, every three tenths of a second; ten sensors are written
/// for in turn.
pub proof fn law_connection_limits()
    ensures
        CONNECT_MAX_RETRIES == 30,
        CONNECT_RETRY_MS == 300,
        STRESS_SENSORS == 10,
        WRITE_RETRIES == 20,
{
}

/// Of the stages that lose no more than one in a hundred, none behind the best is as fast; where
/// there is no best stage, none of them loses so little.
pub proof fn law_last_of_the_best(stages: Seq<StageRate>, j: int)
    requires
        0 <= j < stages.len(),
        one().at_least(stages[j].loss),
    ensures
        best_of(stages) is Some,
        j > best_of(stages)->0 ==> stages[best_of(stages)->0].frame_hz.above(stages[j].frame_hz),
    decreases stages.len(),
{
    let front = stages.drop_last();
    lemma_best_is_there(front);
    if j < front.len() {
        assert(front[j] == stages[j]);
        law_last_of_the_best(front, j);
        assert(front[best_of(front)->0] == stages[best_of(front)->0]);
    }
}

/// The checksum stands in the last two bytes, the higher first, and covers all before them.
pub proof fn law_checksum_place(body_crc: Seq<u8>)
    requires
        body_crc.len() >= 2,
    ensures
        ({
            let n = body_crc.len() - 2;
            checksum_fits(body_crc) <==> body_crc[n] * 256 + body_crc[n + 1] == crc::crc16_of(
                body_crc.take(n),
            )
        }),
{
    let n = body_crc.len() - 2;
    bytes_value::lemma_two_bytes(body_crc[n], body_crc[n + 1]);
    assert(body_crc.skip(n) =~= seq![body_crc[n], body_crc[n + 1]]);
}

} // verus!
