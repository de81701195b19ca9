//! The nibble frame of the SENT sensors: a sync byte, a status nibble, two channels of three
//! nibbles, a checksum nibble and a pause nibble, one nibble per byte.
use bytes::BytesMut;
use vstd::prelude::*;

use crate::buffer;
use crate::protocol::stream;
use crate::protocol::stream::Scan;
use crate::protocol::CodecError;

verus! {

pub const SENT_SYNC_MARKER: u8 = 0xF0;

pub const SENT_FRAME_LEN: usize = 10;

#[derive(Clone, Copy, Debug, PartialEq, Eq, Structural)]
pub struct SentFrame {
    pub status: u8,
    pub channel_1: u16,
    pub channel_2: u16,
    pub crc: u8,
    pub pause: u8,
}

pub struct SentFrameCodec;

impl Default for SentFrameCodec {
    fn default() -> (r: Self) {
        SentFrameCodec
    }
}

/// Nibble `k` of a number, counted from the low end.
#[verifier::opaque]
pub open spec fn nibble(v: nat, k: nat) -> u8 {
    if k == 0 {
        (v % 16) as u8
    } else if k == 1 {
        (v / 16 % 16) as u8
    } else {
        (v / 256 % 16) as u8
    }
}

/// One step of the four-bit checksum register (polynomial 0xD).
pub open spec fn sent_shift(crc: u8) -> u8 {
    if crc & 0x08 != 0 {
        ((crc << 1) ^ 0x0D) & 0x0F
    } else {
        (crc << 1) & 0x0F
    }
}

/// Four steps of the checksum register.
pub open spec fn sent_shifts(crc: u8) -> u8 {
    sent_shift(sent_shift(sent_shift(sent_shift(crc))))
}

/// The checksum of a run of nibbles: the register starts at 5, each nibble is mixed in and
/// followed by four steps.
pub open spec fn sent_crc_of(nibbles: Seq<u8>) -> u8
    decreases nibbles.len(),
{
    if nibbles.len() == 0 {
        5
    } else {
        sent_shifts(sent_crc_of(nibbles.drop_last()) ^ nibbles.last())
    }
}

/// The nibbles that the checksum covers: status, channel 1 from its high end, channel 2 from
/// its low end.
pub open spec fn covered_nibbles(status: u8, channel_1: u16, channel_2: u16) -> Seq<u8> {
    seq![
        nibble(status as nat, 0),
        nibble(channel_1 as nat, 2),
        nibble(channel_1 as nat, 1),
        nibble(channel_1 as nat, 0),
        nibble(channel_2 as nat, 0),
        nibble(channel_2 as nat, 1),
        nibble(channel_2 as nat, 2),
    ]
}

/// The checksum nibble of a frame with these fields.
#[verifier::opaque]
pub open spec fn crc_nibble(status: u8, channel_1: u16, channel_2: u16) -> u8 {
    sent_crc_of(covered_nibbles(status, channel_1, channel_2))
}

/// A frame as it stands in the stream; of each field only the bits that fit are sent.
pub open spec fn sent_bytes(frame: SentFrame) -> Seq<u8> {
    seq![
        SENT_SYNC_MARKER,
        nibble(frame.status as nat, 0),
        nibble(frame.channel_1 as nat, 2),
        nibble(frame.channel_1 as nat, 1),
        nibble(frame.channel_1 as nat, 0),
        nibble(frame.channel_2 as nat, 0),
        nibble(frame.channel_2 as nat, 1),
        nibble(frame.channel_2 as nat, 2),
        nibble(frame.crc as nat, 0),
        nibble(frame.pause as nat, 0),
    ]
}

/// The frame that the nine bytes behind a sync byte spell; of each byte the low nibble
/// counts.
pub open spec fn sent_frame_of(src: Seq<u8>) -> SentFrame {
    SentFrame {
        status: src[1] % 16,
        channel_1: (src[2] % 16 * 256 + src[3] % 16 * 16 + src[4] % 16) as u16,
        channel_2: (src[7] % 16 * 256 + src[6] % 16 * 16 + src[5] % 16) as u16,
        crc: src[8] % 16,
        pause: src[9] % 16,
    }
}

/// Every field of the frame fits its nibbles, and the checksum is right.
pub open spec fn sent_valid(frame: SentFrame) -> bool {
    &&& frame.status < 16
    &&& frame.channel_1 < 4096
    &&& frame.channel_2 < 4096
    &&& frame.pause < 16
    &&& frame.crc == crc_nibble(frame.status, frame.channel_1, frame.channel_2)
}

/// What stands at the front of a SENT stream: anything but a sync byte is passed over, a
/// frame with a wrong checksum is dropped whole.
pub open spec fn scan_sent(src: Seq<u8>) -> Scan<SentFrame> {
    let frame = sent_frame_of(src);
    if src.len() == 0 {
        Scan::Wait
    } else if src[0] != SENT_SYNC_MARKER {
        Scan::Skip(1)
    } else if src.len() < SENT_FRAME_LEN {
        Scan::Wait
    } else if frame.crc != crc_nibble(frame.status, frame.channel_1, frame.channel_2) {
        Scan::Skip(SENT_FRAME_LEN as nat)
    } else {
        Scan::Take(frame, SENT_FRAME_LEN as nat)
    }
}

/// Nibbles below the twelfth bit do not see what stands above it, and three nibbles make up
/// a twelve-bit number.
proof fn lemma_nibbles(v: u16)
    ensures
        nibble(v as nat, 0) < 16,
        nibble(v as nat, 1) < 16,
        nibble(v as nat, 2) < 16,
        nibble((v % 16) as nat, 0) == nibble(v as nat, 0),
        nibble((v % 4096) as nat, 0) == nibble(v as nat, 0),
        nibble((v % 4096) as nat, 1) == nibble(v as nat, 1),
        nibble((v % 4096) as nat, 2) == nibble(v as nat, 2),
        v < 4096 ==> nibble(v as nat, 2) * 256 + nibble(v as nat, 1) * 16 + nibble(v as nat, 0)
            == v,
        v < 16 ==> nibble(v as nat, 0) == v,
{
    reveal(nibble);
    assert(v % 4096 % 16 == v % 16 && v % 16 % 16 == v % 16) by (bit_vector);
    assert(v % 4096 / 16 % 16 == v / 16 % 16) by (bit_vector);
    assert(v % 4096 / 256 % 16 == v / 256 % 16) by (bit_vector);
    assert(v < 4096 ==> v / 256 % 16 * 256 + v / 16 % 16 * 16 + v % 16 == v) by (bit_vector);
}

/// The nibbles of a number that is put together from three.
proof fn lemma_joined_nibbles(a: u8, b: u8, c: u8)
    requires
        a < 16,
        b < 16,
        c < 16,
    ensures
        nibble((a * 256 + b * 16 + c) as nat, 0) == c,
        nibble((a * 256 + b * 16 + c) as nat, 1) == b,
        nibble((a * 256 + b * 16 + c) as nat, 2) == a,
{
    reveal(nibble);
    let v = (a * 256 + b * 16 + c) as nat;
    assert(v / 16 == a * 16 + b);
    assert(v / 256 == a);
}

/// The scan of a SENT stream.
pub open spec fn sent_scan() -> spec_fn(Seq<u8>) -> Scan<SentFrame> {
    |src: Seq<u8>| scan_sent(src)
}

proof fn lemma_crc_below_16(nibbles: Seq<u8>)
    ensures
        sent_crc_of(nibbles) < 16,
{
    if nibbles.len() > 0 {
        let c = sent_crc_of(nibbles.drop_last()) ^ nibbles.last();
        let d = sent_shift(sent_shift(sent_shift(c)));
        assert(((d << 1) ^ 0x0D) & 0x0F < 16 && (d << 1) & 0x0F < 16) by (bit_vector);
    }
}

/// The checksum nibble of a frame with these fields.
pub fn sent_crc_nibble(status: u8, channel_1: u16, channel_2: u16) -> (r: u8)
    ensures
        r == crc_nibble(status, channel_1, channel_2),
        r < 16,
{
    let nibbles: [u8; 7] = [
        status % 16,
        (channel_1 / 256 % 16) as u8,
        (channel_1 / 16 % 16) as u8,
        (channel_1 % 16) as u8,
        (channel_2 % 16) as u8,
        (channel_2 / 16 % 16) as u8,
        (channel_2 / 256 % 16) as u8,
    ];
    proof {
        reveal(crc_nibble);
        reveal(nibble);
        assert(nibbles@ =~= covered_nibbles(status, channel_1, channel_2));
        lemma_crc_below_16(nibbles@);
    }
    let mut crc: u8 = 0x05;
    let mut i: usize = 0;
    while i < 7
        invariant
            i <= 7,
            crc == sent_crc_of(nibbles@.take(i as int)),
        decreases 7 - i,
    {
        proof {
            assert(nibbles@.take(i + 1).drop_last() =~= nibbles@.take(i as int));
        }
        crc = crc ^ nibbles[i];
        let ghost start = crc;
        let mut k: usize = 0;
        while k < 4
            invariant
                k <= 4,
                k == 0 ==> crc == start,
                k == 1 ==> crc == sent_shift(start),
                k == 2 ==> crc == sent_shift(sent_shift(start)),
                k == 3 ==> crc == sent_shift(sent_shift(sent_shift(start))),
                k == 4 ==> crc == sent_shifts(start),
            decreases 4 - k,
        {
            if (crc & 0x08) != 0 {
                crc = ((crc << 1) ^ 0x0D) & 0x0F;
            } else {
                crc = (crc << 1) & 0x0F;
            }
            k = k + 1;
        }
        i = i + 1;
    }
    proof {
        assert(nibbles@.take(7) =~= nibbles@);
    }
    crc
}

/// The high nibble of a twelve-bit angle, with its bits inverted.
pub open spec fn inverted_copy(secondary_angle: u16) -> u8 {
    (15 - nibble(secondary_angle as nat, 2)) as u8
}

/// The exclusive or of status, angle nibbles, counter and inverted copy, cut to a nibble.
pub open spec fn check_nibble(
    status: u8,
    secondary_angle: u16,
    rolling_counter: u8,
    inverted_copy: u8,
) -> u8 {
    (status ^ nibble(secondary_angle as nat, 2) ^ nibble(secondary_angle as nat, 1) ^ nibble(
        secondary_angle as nat,
        0,
    ) ^ (rolling_counter % 16) ^ (inverted_copy % 16)) % 16
}

pub fn sent3_inverted_copy(secondary_angle: u16) -> (r: u8)
    ensures
        r == inverted_copy(secondary_angle),
        r < 16,
{
    reveal(nibble);
    15 - (secondary_angle / 256 % 16) as u8
}

pub fn sent3_check_nibble(
    status: u8,
    secondary_angle: u16,
    rolling_counter: u8,
    inverted_copy: u8,
) -> (r: u8)
    ensures
        r == check_nibble(status, secondary_angle, rolling_counter, inverted_copy),
        r < 16,
{
    reveal(nibble);
    let angle_msn: u8 = (secondary_angle / 256 % 16) as u8;
    let angle_mid: u8 = (secondary_angle / 16 % 16) as u8;
    let angle_lsn: u8 = (secondary_angle % 16) as u8;
    (status ^ angle_msn ^ angle_mid ^ angle_lsn ^ (rolling_counter % 16) ^ (inverted_copy % 16))
        % 16
}

/// The frame that carries a secondary angle: channel 2 holds the rolling counter, the
/// inverted copy and the check nibble, low nibble first.
pub open spec fn sent3_frame(status: u8, secondary_angle: u16, counter: u8, pause: u8) -> SentFrame {
    let angle = (secondary_angle % 4096) as u16;
    let copy = inverted_copy(angle);
    let check = check_nibble(status, angle, (counter % 16) as u8, copy);
    sent_frame(status, angle, (counter % 16 + copy * 16 + check * 256) as u16, pause)
}

/// The frame with these fields, each cut to what fits, and its checksum.
pub open spec fn sent_frame(status: u8, channel_1: u16, channel_2: u16, pause: u8) -> SentFrame {
    SentFrame {
        status: status % 16,
        channel_1: channel_1 % 4096,
        channel_2: channel_2 % 4096,
        crc: crc_nibble(status, channel_1, channel_2),
        pause: pause % 16,
    }
}

impl SentFrameCodec {
    pub fn encode_frame(frame: SentFrame) -> (r: [u8; SENT_FRAME_LEN])
        ensures
            r@ == sent_bytes(frame),
    {
        let r: [u8; SENT_FRAME_LEN] = [
            SENT_SYNC_MARKER,
            frame.status % 16,
            (frame.channel_1 / 256 % 16) as u8,
            (frame.channel_1 / 16 % 16) as u8,
            (frame.channel_1 % 16) as u8,
            (frame.channel_2 % 16) as u8,
            (frame.channel_2 / 16 % 16) as u8,
            (frame.channel_2 / 256 % 16) as u8,
            frame.crc % 16,
            frame.pause % 16,
        ];
        proof {
            reveal(nibble);
            assert(r@ =~= sent_bytes(frame));
        }
        r
    }

    pub fn with_crc(status: u8, channel_1: u16, channel_2: u16, pause: u8) -> (r: SentFrame)
        ensures
            r == sent_frame(status, channel_1, channel_2, pause),
            sent_valid(r),
    {
        proof {
            lemma_crc_sees_low_bits(status, channel_1, channel_2);
        }
        SentFrame {
            status: status % 16,
            channel_1: channel_1 % 4096,
            channel_2: channel_2 % 4096,
            crc: sent_crc_nibble(status, channel_1, channel_2),
            pause: pause % 16,
        }
    }

    pub fn sent3_with_crc(
        status: u8,
        secondary_angle: u16,
        rolling_counter: u8,
        pause: u8,
    ) -> (r: SentFrame)
        ensures
            r == sent3_frame(status, secondary_angle, rolling_counter, pause),
            sent_valid(r),
    {
        let angle: u16 = secondary_angle % 4096;
        let counter: u8 = rolling_counter % 16;
        let inverted_copy: u8 = sent3_inverted_copy(angle);
        let check_nibble: u8 = sent3_check_nibble(status, angle, counter, inverted_copy);
        let channel_2: u16 = counter as u16 + inverted_copy as u16 * 16 + check_nibble as u16 * 256;
        Self::with_crc(status, angle, channel_2, pause)
    }

    /// Takes the first frame with a right checksum out of the buffer, with everything
    /// before it.
    pub fn try_decode(&self, src: &mut BytesMut) -> (r: Result<Option<SentFrame>, CodecError>)
        ensures
            ({
                let (frame, rest) = stream::first_frame(
                    sent_scan(),
                    buffer::contents(*old(src)),
                );
                r == Ok::<Option<SentFrame>, CodecError>(frame) && buffer::contents(*final(src))
                    == rest
            }),
    {
        let ghost whole = buffer::contents(*src);
        loop
            invariant
                stream::first_frame(sent_scan(), whole) == stream::first_frame(
                    sent_scan(),
                    buffer::contents(*src),
                ),
                whole == buffer::contents(*old(src)),
            decreases buffer::contents(*src).len(),
        {
            let bytes: &[u8] = buffer::as_bytes(src);
            let ghost start = bytes@;
            let len: usize = bytes.len();
            let mut sync_pos: usize = 0;
            proof {
                assert(start.skip(0) =~= start);
            }
            while sync_pos < len && bytes[sync_pos] != SENT_SYNC_MARKER
                invariant
                    sync_pos <= len,
                    len == bytes@.len(),
                    start == bytes@,
                    stream::first_frame(sent_scan(), start) == stream::first_frame(
                        sent_scan(),
                        start.skip(sync_pos as int),
                    ),
                decreases len - sync_pos,
            {
                proof {
                    let now = start.skip(sync_pos as int);
                    assert((sent_scan())(now) == scan_sent(now));
                    assert(now.skip(1) =~= start.skip(sync_pos + 1));
                }
                sync_pos = sync_pos + 1;
            }
            proof {
                let now = start.skip(sync_pos as int);
                assert((sent_scan())(now) == scan_sent(now));
            }
            if sync_pos == len {
                buffer::clear(src);
                proof {
                    assert(start.skip(len as int) =~= Seq::<u8>::empty());
                }
                return Ok(None);
            }
            if sync_pos > 0 {
                buffer::advance(src, sync_pos);
            }
            proof {
                assert(buffer::contents(*src) =~= start.skip(sync_pos as int));
            }
            if len - sync_pos < SENT_FRAME_LEN {
                return Ok(None);
            }
            let part = buffer::split_to(src, SENT_FRAME_LEN);
            let raw: &[u8] = buffer::as_bytes(&part);
            let status: u8 = raw[1] % 16;
            let channel_1: u16 = (raw[2] % 16) as u16 * 256 + (raw[3] % 16) as u16 * 16 + (raw[4]
                % 16) as u16;
            let channel_2: u16 = (raw[7] % 16) as u16 * 256 + (raw[6] % 16) as u16 * 16 + (raw[5]
                % 16) as u16;
            let crc: u8 = raw[8] % 16;
            let pause: u8 = raw[9] % 16;
            let expected_crc: u8 = sent_crc_nibble(status, channel_1, channel_2);
            let frame = SentFrame { status, channel_1, channel_2, crc, pause };
            proof {
                assert(frame == sent_frame_of(start.skip(sync_pos as int)));
            }
            if crc != expected_crc {
                continue;
            }
            return Ok(Some(frame));
        }
    }
}

proof fn lemma_crc_sees_low_bits(status: u8, channel_1: u16, channel_2: u16)
    ensures
        crc_nibble(status, channel_1, channel_2) == crc_nibble(
            status % 16,
            channel_1 % 4096,
            channel_2 % 4096,
        ),
        crc_nibble(status, channel_1, channel_2) < 16,
{
    reveal(crc_nibble);
    lemma_crc_below_16(covered_nibbles(status, channel_1, channel_2));
    lemma_nibbles(status as u16);
    lemma_nibbles(channel_1);
    lemma_nibbles(channel_2);
    assert(covered_nibbles(status, channel_1, channel_2) =~= covered_nibbles(
        status % 16,
        channel_1 % 4096,
        channel_2 % 4096,
    ));
}

/// More bytes behind a decision do not change it.
pub proof fn law_scan_sent_steady()
    ensures
        stream::steady(sent_scan()),
{
    assert forall|src: Seq<u8>, more: Seq<u8>| !((sent_scan())(src) is Wait) implies #[trigger] (
    sent_scan())(src + more) == (sent_scan())(src) by {
        if src.len() >= SENT_FRAME_LEN {
            assert(sent_frame_of(src + more) == sent_frame_of(src));
        }
    }
}

proof fn lemma_low_nibble(v: u8)
    requires
        v < 16,
    ensures
        v % 16 == v,
{
}

/// The bytes of a frame whose fields fit spell that frame.
proof fn lemma_sent_bytes_spell_frame(frame: SentFrame, src: Seq<u8>)
    requires
        frame.status < 16,
        frame.channel_1 < 4096,
        frame.channel_2 < 4096,
        frame.crc < 16,
        frame.pause < 16,
        src.len() >= SENT_FRAME_LEN,
        forall|i: int| 0 <= i < 10 ==> src[i] == sent_bytes(frame)[i],
    ensures
        sent_frame_of(src) == frame,
{
    lemma_nibbles(frame.status as u16);
    lemma_nibbles(frame.channel_1);
    lemma_nibbles(frame.channel_2);
    lemma_nibbles(frame.crc as u16);
    lemma_nibbles(frame.pause as u16);
    assert(src[1] == frame.status);
    assert(src[8] == frame.crc);
    assert(src[9] == frame.pause);
    lemma_low_nibble(src[1]);
    lemma_low_nibble(src[2]);
    lemma_low_nibble(src[3]);
    lemma_low_nibble(src[4]);
    lemma_low_nibble(src[5]);
    lemma_low_nibble(src[6]);
    lemma_low_nibble(src[7]);
    lemma_low_nibble(src[8]);
    lemma_low_nibble(src[9]);
}

/// A valid frame that was encoded is decoded to itself, whatever follows it.
pub proof fn law_sent_round_trip(frame: SentFrame, rest: Seq<u8>)
    requires
        sent_valid(frame),
    ensures
        stream::first_frame(sent_scan(), sent_bytes(frame) + rest) == (Some(frame), rest),
{
    let src = sent_bytes(frame) + rest;
    lemma_crc_sees_low_bits(frame.status, frame.channel_1, frame.channel_2);
    lemma_sent_bytes_spell_frame(frame, src);
    assert((sent_scan())(src) == scan_sent(src));
    assert(src.skip(10) =~= rest);
}

/// Every frame that comes out of a stream is valid.
pub proof fn law_decoded_sent_frame_is_valid(src: Seq<u8>)
    ensures
        stream::first_frame(sent_scan(), src).0 matches Some(frame) ==> sent_valid(frame),
    decreases src.len(),
{
    assert((sent_scan())(src) == scan_sent(src));
    match scan_sent(src) {
        Scan::Skip(n) => {
            law_decoded_sent_frame_is_valid(src.skip(n as int));
        },
        _ => {},
    }
}

/// A sync byte stands only at the front of an encoded frame, so that a reader that starts
/// inside a frame finds the next one.
pub proof fn law_sent_resynchronises(frame: SentFrame, cut: int, next: SentFrame, rest: Seq<u8>)
    requires
        1 <= cut <= SENT_FRAME_LEN,
        sent_valid(next),
    ensures
        stream::first_frame(sent_scan(), sent_bytes(frame).skip(cut) + (sent_bytes(next) + rest))
            == (Some(next), rest),
    decreases SENT_FRAME_LEN - cut,
{
    let tail = sent_bytes(frame).skip(cut);
    let src = tail + (sent_bytes(next) + rest);
    if cut == SENT_FRAME_LEN {
        law_sent_round_trip(next, rest);
        assert(src =~= sent_bytes(next) + rest);
    } else {
        lemma_nibbles(frame.status as u16);
        lemma_nibbles(frame.channel_1);
        lemma_nibbles(frame.channel_2);
        lemma_nibbles(frame.crc as u16);
        lemma_nibbles(frame.pause as u16);
        assert(src[0] == sent_bytes(frame)[cut]);
        assert(src[0] < 16);
        assert((sent_scan())(src) == scan_sent(src));
        law_sent_resynchronises(frame, cut + 1, next, rest);
        assert(src.skip(1) =~= sent_bytes(frame).skip(cut + 1) + (sent_bytes(next) + rest));
    }
}

/// The fields of a secondary-angle frame can be read back out of its channels.
pub proof fn law_sent3_fields(status: u8, secondary_angle: u16, counter: u8, pause: u8)
    ensures
        ({
            let frame = sent3_frame(status, secondary_angle, counter, pause);
            &&& frame.channel_1 == secondary_angle % 4096
            &&& nibble(frame.channel_2 as nat, 0) == counter % 16
            &&& nibble(frame.channel_2 as nat, 1) == inverted_copy(secondary_angle)
            &&& nibble(frame.channel_2 as nat, 2) == check_nibble(
                status,
                secondary_angle,
                counter,
                inverted_copy(secondary_angle),
            )
        }),
{
    let angle = (secondary_angle % 4096) as u16;
    let copy = inverted_copy(angle);
    let check = check_nibble(status, angle, (counter % 16) as u8, copy);
    lemma_nibbles(secondary_angle);
    lemma_joined_nibbles(check, copy, (counter % 16) as u8);
}

proof fn lemma_sent_shift_injective(a: u8, b: u8)
    by (bit_vector)
    requires
        a < 16,
        b < 16,
        (if a & 0x08 != 0 { ((a << 1) ^ 0x0D) & 0x0F } else { (a << 1) & 0x0F })
            == (if b & 0x08 != 0 { ((b << 1) ^ 0x0D) & 0x0F } else { (b << 1) & 0x0F }),
    ensures
        a == b,
{
}

proof fn lemma_sent_shift_small(a: u8)
    ensures
        sent_shift(a) < 16,
{
    assert(((a << 1) ^ 0x0D) & 0x0F < 16 && (a << 1) & 0x0F < 16) by (bit_vector);
}

proof fn lemma_sent_shifts_injective(a: u8, b: u8)
    requires
        a < 16,
        b < 16,
        sent_shifts(a) == sent_shifts(b),
    ensures
        a == b,
{
    let (a1, b1) = (sent_shift(a), sent_shift(b));
    let (a2, b2) = (sent_shift(a1), sent_shift(b1));
    let (a3, b3) = (sent_shift(a2), sent_shift(b2));
    lemma_sent_shift_small(a);
    lemma_sent_shift_small(b);
    lemma_sent_shift_small(a1);
    lemma_sent_shift_small(b1);
    lemma_sent_shift_small(a2);
    lemma_sent_shift_small(b2);
    lemma_sent_shift_injective(a3, b3);
    lemma_sent_shift_injective(a2, b2);
    lemma_sent_shift_injective(a1, b1);
    lemma_sent_shift_injective(a, b);
}

/// Runs of nibbles of one length that differ in exactly one nibble have different checksums.
pub proof fn law_sent_crc_detects_one_nibble(a: Seq<u8>, b: Seq<u8>, at: int)
    requires
        a.len() == b.len(),
        0 <= at < a.len(),
        a[at] != b[at],
        forall|i: int| 0 <= i < a.len() ==> (#[trigger] a[i]) < 16 && b[i] < 16,
        forall|i: int| 0 <= i < a.len() && i != at ==> #[trigger] a[i] == b[i],
    ensures
        sent_crc_of(a) != sent_crc_of(b),
    decreases a.len(),
{
    let (ca, cb) = (sent_crc_of(a.drop_last()), sent_crc_of(b.drop_last()));
    let (x, y) = (a.last(), b.last());
    lemma_crc_below_16(a.drop_last());
    lemma_crc_below_16(b.drop_last());
    assert(a[a.len() - 1] < 16);
    assert(ca ^ x < 16 && cb ^ y < 16) by (bit_vector)
        requires
            ca < 16,
            cb < 16,
            x < 16,
            y < 16,
    ;
    if sent_crc_of(a) == sent_crc_of(b) {
        lemma_sent_shifts_injective(ca ^ x, cb ^ y);
        if at == a.len() - 1 {
            assert(a.drop_last() =~= b.drop_last()) by {
                assert forall|i: int| 0 <= i < a.len() - 1 implies a.drop_last()[i]
                    == b.drop_last()[i] by {
                    assert(a[i] == b[i]);
                }
            }
            assert(ca ^ x == ca ^ y ==> x == y) by (bit_vector);
        } else {
            let (fa, fb) = (a.drop_last(), b.drop_last());
            assert forall|i: int| 0 <= i < fa.len() implies (#[trigger] fa[i]) < 16 && fb[i] < 16 by {
                assert(a[i] < 16);
            }
            assert forall|i: int| 0 <= i < fa.len() && i != at implies #[trigger] fa[i] == fb[i] by {
                assert(a[i] == b[i]);
            }
            law_sent_crc_detects_one_nibble(fa, fb, at);
            assert(a[a.len() - 1] == b[a.len() - 1]);
            assert(ca ^ x == cb ^ x ==> ca == cb) by (bit_vector);
        }
    }
}

/// The nibbles that the checksum of the frame in a run of bytes covers.
proof fn lemma_covered_nibbles_of(src: Seq<u8>)
    requires
        src.len() >= SENT_FRAME_LEN,
        forall|i: int| 1 <= i < 9 ==> (#[trigger] src[i]) < 16,
    ensures
        covered_nibbles(
            sent_frame_of(src).status,
            sent_frame_of(src).channel_1,
            sent_frame_of(src).channel_2,
        ) == src.subrange(1, 8),
        sent_frame_of(src).crc == src[8],
{
    assert(src[1] < 16 && src[2] < 16 && src[3] < 16 && src[4] < 16 && src[5] < 16 && src[6] < 16
        && src[7] < 16 && src[8] < 16);
    lemma_low_nibble(src[1]);
    lemma_low_nibble(src[2]);
    lemma_low_nibble(src[3]);
    lemma_low_nibble(src[4]);
    lemma_low_nibble(src[5]);
    lemma_low_nibble(src[6]);
    lemma_low_nibble(src[7]);
    lemma_low_nibble(src[8]);
    lemma_nibbles(src[1] as u16);
    lemma_joined_nibbles(src[2], src[3], src[4]);
    lemma_joined_nibbles(src[7], src[6], src[5]);
    assert(covered_nibbles(
        sent_frame_of(src).status,
        sent_frame_of(src).channel_1,
        sent_frame_of(src).channel_2,
    ) =~= src.subrange(1, 8));
}

/// A frame of which one nibble has been changed on the way, be it of the status, of a channel
/// or the checksum, is not taken: it is passed over whole.
pub proof fn law_changed_nibble_is_noticed(frame: SentFrame, at: int, nibble_there: u8, rest: Seq<u8>)
    requires
        sent_valid(frame),
        1 <= at <= 8,
        nibble_there < 16,
        nibble_there != sent_bytes(frame)[at],
    ensures
        scan_sent(sent_bytes(frame).update(at, nibble_there) + rest) == Scan::<SentFrame>::Skip(
            SENT_FRAME_LEN as nat,
        ),
{
    let sent = sent_bytes(frame);
    let src = sent.update(at, nibble_there) + rest;
    lemma_nibbles(frame.status as u16);
    lemma_nibbles(frame.channel_1);
    lemma_nibbles(frame.channel_2);
    lemma_nibbles(frame.crc as u16);
    lemma_crc_sees_low_bits(frame.status, frame.channel_1, frame.channel_2);
    reveal(crc_nibble);
    assert forall|i: int| 1 <= i < 9 implies (#[trigger] src[i]) < 16 by {
        if i != at {
            assert(src[i] == sent[i]);
        }
    }
    lemma_covered_nibbles_of(src);
    let before = covered_nibbles(frame.status, frame.channel_1, frame.channel_2);
    let after = src.subrange(1, 8);
    assert(before =~= sent.subrange(1, 8));
    assert(sent[8] == frame.crc);
    if at == 8 {
        assert(after =~= before);
    } else {
        assert forall|i: int| 0 <= i < 7 && i != at - 1 implies #[trigger] before[i] == after[i] by {
            assert(sent[i + 1] == src[i + 1]);
        }
        assert forall|i: int| 0 <= i < 7 implies (#[trigger] before[i]) < 16 && after[i] < 16 by {
            assert(src[i + 1] < 16);
            assert(before[i] == sent[i + 1]);
        }
        law_sent_crc_detects_one_nibble(before, after, at - 1);
    }
}

/// Bytes that cannot begin a frame are passed over: what stands behind them is found as if
/// they were not there.
pub proof fn law_sent_after_noise(noise: Seq<u8>, src: Seq<u8>)
    requires
        forall|i: int| 0 <= i < noise.len() ==> noise[i] != SENT_SYNC_MARKER,
    ensures
        stream::first_frame(sent_scan(), noise + src) == stream::first_frame(sent_scan(), src),
    decreases noise.len(),
{
    if noise.len() == 0 {
        assert(noise + src =~= src);
    } else {
        law_sent_after_noise(noise.skip(1), src);
        assert((sent_scan())(noise + src) == scan_sent(noise + src));
        assert((noise + src)[0] == noise[0]);
        assert((noise + src).skip(1) =~= noise.skip(1) + src);
    }
}

/// Where everything stands in a frame: 0xF0, then one nibble to a byte: the status, the first
/// channel with its highest nibble first, the second with its lowest first, the checksum and
/// the pause. The checksum covers the seven nibbles before it.
pub proof fn law_sent_layout(frame: SentFrame)
    requires
        sent_valid(frame),
    ensures
        ({
            let bytes = sent_bytes(frame);
            &&& bytes.len() == 10
            &&& bytes[0] == 0xF0
            &&& bytes[1] == frame.status
            &&& bytes[2] * 256 + bytes[3] * 16 + bytes[4] == frame.channel_1
            &&& bytes[7] * 256 + bytes[6] * 16 + bytes[5] == frame.channel_2
            &&& bytes[8] == frame.crc
            &&& bytes[9] == frame.pause
            &&& forall|i: int| 1 <= i < 10 ==> #[trigger] bytes[i] < 16
            &&& frame.crc == sent_crc_of(bytes.subrange(1, 8))
        }),
{
    let bytes = sent_bytes(frame);
    reveal(crc_nibble);
    lemma_nibbles(frame.channel_1);
    lemma_nibbles(frame.channel_2);
    lemma_nibbles(frame.status as u16);
    lemma_nibbles(frame.pause as u16);
    lemma_nibbles(frame.crc as u16);
    lemma_crc_below_16(covered_nibbles(frame.status, frame.channel_1, frame.channel_2));
    assert(bytes.subrange(1, 8) =~= covered_nibbles(
        frame.status,
        frame.channel_1,
        frame.channel_2,
    ));
}

/// The register starts at 5; a nibble is mixed in and shifted through, four times, by one bit
/// to the left, mixing in 0xD where a bit falls out.
pub proof fn law_sent_crc_register(nibbles: Seq<u8>, n: u8, crc: u8)
    requires
        crc < 16,
    ensures
        sent_crc_of(Seq::empty()) == 5,
        sent_crc_of(nibbles.push(n)) == sent_shift(
            sent_shift(sent_shift(sent_shift(sent_crc_of(nibbles) ^ n))),
        ),
        crc < 8 ==> sent_shift(crc) == 2 * crc,
        crc >= 8 ==> sent_shift(crc) == ((2 * crc - 16) as u8) ^ 0x0D,
{
    assert(nibbles.push(n).drop_last() =~= nibbles);
    assert(crc < 8 ==> crc & 0x08 == 0 && (crc << 1) & 0x0F == 2 * crc) by (bit_vector)
        requires
            crc < 16,
    ;
    let low = (2 * crc - 16) as u8;
    if crc >= 8 {
        assert(crc & 0x08 != 0 && ((crc << 1) ^ 0x0D) & 0x0F == low ^ 0x0D) by (bit_vector)
            requires
                8 <= crc < 16,
                low == 2 * crc - 16,
        ;
    }
}

/// The two checks that stand beside the angle of the third sensor: the copy is the highest
/// nibble with all bits turned over, and the check nibble makes all nibbles even, bit by bit.
pub proof fn law_sent3_checks(status: u8, secondary_angle: u16, counter: u8)
    requires
        status < 16,
        secondary_angle < 4096,
        counter < 16,
    ensures
        ({
            let copy = inverted_copy(secondary_angle);
            let check = check_nibble(status, secondary_angle, counter, copy);
            let (a, b, c) = (
                (secondary_angle / 256) as u8,
                (secondary_angle / 16 % 16) as u8,
                (secondary_angle % 16) as u8,
            );
            &&& copy + a == 15
            &&& check ^ status ^ a ^ b ^ c ^ counter ^ copy == 0
        }),
{
    let copy = inverted_copy(secondary_angle);
    let a = (secondary_angle / 256) as u8;
    let b = (secondary_angle / 16 % 16) as u8;
    let c = (secondary_angle % 16) as u8;
    reveal(nibble);
    assert(nibble(secondary_angle as nat, 2) == a);
    assert(nibble(secondary_angle as nat, 1) == b);
    assert(nibble(secondary_angle as nat, 0) == c);
    assert(counter % 16 == counter && copy % 16 == copy);
    assert(((status ^ a ^ b ^ c ^ counter ^ copy) % 16) ^ status ^ a ^ b ^ c ^ counter ^ copy == 0)
        by (bit_vector)
        requires
            status < 16,
            a < 16,
            b < 16,
            c < 16,
            counter < 16,
            copy < 16,
    ;
}

/// The fields of a frame are cut to what fits: four bits of status and pause, twelve of each
/// channel.
pub proof fn law_sent_frame_fields(status: u8, channel_1: u16, channel_2: u16, pause: u8)
    ensures
        sent_frame(status, channel_1, channel_2, pause).status == status % 16,
        sent_frame(status, channel_1, channel_2, pause).channel_1 == channel_1 % 4096,
        sent_frame(status, channel_1, channel_2, pause).channel_2 == channel_2 % 4096,
        sent_frame(status, channel_1, channel_2, pause).pause == pause % 16,
        status < 16 && channel_1 < 4096 && channel_2 < 4096 && pause < 16 ==> sent_valid(
            sent_frame(status, channel_1, channel_2, pause),
        ),
{
}

} // verus!
