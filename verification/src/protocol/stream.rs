//! What the frame codecs have in common: each looks at the front of a byte stream and
//! decides to wait for more bytes, to skip some, or to take a frame.
use vstd::prelude::*;

verus! {

/// What a codec makes of the front of a byte stream.
pub ghost enum Scan<T> {
    /// The bytes at hand do not decide it.
    Wait,
    /// The first bytes belong to no frame.
    Skip(nat),
    /// The first bytes are this frame.
    Take(T, nat),
}

/// The first frame of a stream, if it is there, and what is left of the stream.
pub open spec fn first_frame<T>(scan: spec_fn(Seq<u8>) -> Scan<T>, src: Seq<u8>) -> (
    Option<T>,
    Seq<u8>,
)
    decreases src.len(),
{
    match scan(src) {
        Scan::Wait => (None, src),
        Scan::Skip(n) => if 0 < n <= src.len() {
            first_frame(scan, src.skip(n as int))
        } else {
            (None, src)
        },
        Scan::Take(frame, n) => (Some(frame), src.skip(n as int)),
    }
}

/// All frames of a stream, in order, and what is left of the stream.
pub open spec fn all_frames<T>(scan: spec_fn(Seq<u8>) -> Scan<T>, src: Seq<u8>) -> (
    Seq<T>,
    Seq<u8>,
)
    decreases src.len(),
{
    match first_frame(scan, src) {
        (Some(frame), rest) => if rest.len() < src.len() {
            let (frames, left) = all_frames(scan, rest);
            (seq![frame] + frames, left)
        } else {
            (seq![frame], rest)
        },
        (None, rest) => (Seq::empty(), rest),
    }
}

/// A decision takes bytes that are there, and more bytes behind it do not change it.
pub open spec fn steady<T>(scan: spec_fn(Seq<u8>) -> Scan<T>) -> bool {
    &&& forall|src: Seq<u8>|
        match #[trigger] scan(src) {
            Scan::Wait => true,
            Scan::Skip(n) => 0 < n <= src.len(),
            Scan::Take(_, n) => 0 < n <= src.len(),
        }
    &&& forall|src: Seq<u8>, more: Seq<u8>|
        !(scan(src) is Wait) ==> #[trigger] scan(src + more) == scan(src)
}

/// What follows a frame does not change how the frame is read; where no frame was
/// complete, reading on from what was left is the same as reading the whole stream.
pub proof fn law_first_frame_split<T>(
    scan: spec_fn(Seq<u8>) -> Scan<T>,
    head: Seq<u8>,
    more: Seq<u8>,
)
    requires
        steady(scan),
    ensures
        first_frame(scan, head).1.len() <= head.len(),
        match first_frame(scan, head) {
            (Some(frame), rest) => {
                &&& rest.len() < head.len()
                &&& first_frame(scan, head + more) == (Some(frame), rest + more)
            },
            (None, rest) => first_frame(scan, head + more) == first_frame(scan, rest + more),
        },
    decreases head.len(),
{
    match scan(head) {
        Scan::Wait => {},
        Scan::Skip(n) => {
            assert(scan(head + more) == scan(head));
            assert((head + more).skip(n as int) =~= head.skip(n as int) + more);
            law_first_frame_split(scan, head.skip(n as int), more);
        },
        Scan::Take(frame, n) => {
            assert(scan(head + more) == scan(head));
            assert((head + more).skip(n as int) =~= head.skip(n as int) + more);
        },
    }
}

/// A stream that arrives in two pieces gives the same frames as the stream in one piece:
/// where the pieces are cut does not matter.
pub proof fn law_all_frames_split<T>(
    scan: spec_fn(Seq<u8>) -> Scan<T>,
    head: Seq<u8>,
    more: Seq<u8>,
)
    requires
        steady(scan),
    ensures
        ({
            let (frames, rest) = all_frames(scan, head);
            let (later, left) = all_frames(scan, rest + more);
            &&& all_frames(scan, head + more) == (frames + later, left)
            &&& rest.len() <= head.len()
        }),
    decreases head.len(),
{
    law_first_frame_split(scan, head, more);
    match first_frame(scan, head) {
        (Some(frame), rest) => {
            law_all_frames_split(scan, rest, more);
            let (frames, left) = all_frames(scan, rest);
            let (later, end) = all_frames(scan, left + more);
            assert(seq![frame] + (frames + later) =~= (seq![frame] + frames) + later);
        },
        (None, rest) => {
            let (later, left) = all_frames(scan, rest + more);
            law_first_frame_split(scan, rest + more, Seq::empty());
            assert(all_frames(scan, head + more) == all_frames(scan, rest + more));
            assert(Seq::<T>::empty() + later =~= later);
        },
    }
}

/// Once all frames are out, nothing more comes out of what is left.
pub proof fn law_all_frames_exhausts<T>(scan: spec_fn(Seq<u8>) -> Scan<T>, src: Seq<u8>)
    requires
        steady(scan),
    ensures
        scan(all_frames(scan, src).1) is Wait,
        first_frame(scan, all_frames(scan, src).1) == (None::<T>, all_frames(scan, src).1),
        all_frames(scan, all_frames(scan, src).1) == (Seq::<T>::empty(), all_frames(scan, src).1),
    decreases src.len(),
{
    law_first_frame_split(scan, src, Seq::empty());
    match first_frame(scan, src) {
        (Some(frame), rest) => {
            law_all_frames_exhausts(scan, rest);
        },
        (None, rest) => {
            lemma_left_over(scan, src);
        },
    }
}

/// What a search without result leaves is where the codec waits.
proof fn lemma_left_over<T>(scan: spec_fn(Seq<u8>) -> Scan<T>, src: Seq<u8>)
    requires
        steady(scan),
        first_frame(scan, src).0 is None,
    ensures
        scan(first_frame(scan, src).1) is Wait,
    decreases src.len(),
{
    match scan(src) {
        Scan::Skip(n) => {
            lemma_left_over(scan, src.skip(n as int));
        },
        _ => {},
    }
}

} // verus!
