//! What the charts show: the latest points of every signal.
use std::collections::VecDeque;
use vstd::prelude::*;

use crate::number::Real;
use crate::signal;
use crate::signal::{DerivedFormula, RawSample, SignalKind, SignalProcessor, SignalSample};
use crate::table::Table;
use crate::text;
use crate::ui::windows::{SignalBinding, SENSOR_COUNT};

verus! {

/// How many points a chart holds.
pub const MAX_POINTS_PER_SERIES: usize = 4096;

/// How far back a chart reaches: the bits of 30 seconds.
pub const WINDOW_SECS_BITS: u64 = 0x403E_0000_0000_0000;

/// How long after a point the next one stands apart from it: the bits of 2 seconds.
pub const LINE_BREAK_GAP_BITS: u64 = 0x4000_0000_0000_0000;

/// How far back a chart reaches, in seconds.
pub open spec fn window_secs() -> Real {
    Real { bits: WINDOW_SECS_BITS }
}

/// How long after a point the next one stands apart from it, in seconds.
pub open spec fn line_break_gap() -> Real {
    Real { bits: LINE_BREAK_GAP_BITS }
}

/// Whether `minus` takes any two numbers.
pub open spec fn is_total<F: Fn(Real, Real) -> Real>(minus: F) -> bool {
    forall|a: Real, b: Real| #[trigger] call_requires(minus, (a, b))
}

/// Whether `oldest` is where the window of a chart begins whose latest point came at `t_sec`:
/// what `minus` gives for that moment and the length of the window.
pub open spec fn is_window_start<F: Fn(Real, Real) -> Real>(
    minus: F,
    t_sec: Real,
    oldest: Real,
) -> bool {
    call_ensures(minus, (t_sec, window_secs()), oldest)
}

/// The points of a chart: moments and values, and the device of the latest.
#[derive(Debug)]
pub struct SensorSeries {
    pub points: VecDeque<(Real, Real)>,
    pub latest: Option<Real>,
    pub device_id: String,
}

/// The points of a chart, and the device of the latest.
#[verifier::ext_equal]
pub ghost struct SeriesData {
    pub points: Seq<(Real, Real)>,
    pub latest: Option<Real>,
    pub device_id: Seq<char>,
}

impl View for SensorSeries {
    type V = SeriesData;

    open spec fn view(&self) -> SeriesData {
        SeriesData { points: self.points@, latest: self.latest, device_id: self.device_id@ }
    }
}

/// Points without those at the front that are too old.
pub open spec fn recent(points: Seq<(Real, Real)>, oldest: Real) -> Seq<(Real, Real)>
    decreases points.len(),
{
    if points.len() > 0 && oldest.above(points[0].0) {
        recent(points.skip(1), oldest)
    } else {
        points
    }
}

/// The last points, as many as a chart holds.
pub open spec fn cut(points: Seq<(Real, Real)>) -> Seq<(Real, Real)> {
    if points.len() > MAX_POINTS_PER_SERIES {
        points.skip(points.len() - MAX_POINTS_PER_SERIES)
    } else {
        points
    }
}

impl SeriesData {
    pub open spec fn blank() -> SeriesData {
        SeriesData { points: Seq::empty(), latest: None, device_id: Seq::empty() }
    }

    /// With one more point; those before `oldest` make room.
    pub open spec fn with_point(
        self,
        device_id: Seq<char>,
        t_sec: Real,
        value: Real,
        oldest: Real,
    ) -> SeriesData {
        SeriesData {
            points: cut(recent(self.points.push((t_sec, value)), oldest)),
            latest: Some(value),
            device_id,
        }
    }
}

impl SensorSeries {
    pub fn new() -> (r: Self)
        ensures
            r@ == SeriesData::blank(),
    {
        proof {
            reveal_strlit("");
        }
        let r = SensorSeries { points: VecDeque::new(), latest: None, device_id: text::owned("") };
        proof {
            assert(r@ =~= SeriesData::blank());
        }
        r
    }

    /// Adds a point; those from before the window make room. `minus` takes one number from
    /// another.
    pub fn push<F: Fn(Real, Real) -> Real>(
        &mut self,
        device_id: &str,
        t_sec: Real,
        value: Real,
        minus: F,
    )
        requires
            old(self)@.points.len() <= MAX_POINTS_PER_SERIES,
            is_total(minus),
        ensures
            exists|oldest: Real|
                {
                    &&& #[trigger] is_window_start(minus, t_sec, oldest)
                    &&& final(self)@ == old(self)@.with_point(device_id@, t_sec, value, oldest)
                },
            final(self)@.points.len() <= MAX_POINTS_PER_SERIES,
    {
        let oldest: Real = minus(t_sec, Real { bits: WINDOW_SECS_BITS });
        self.push_from(device_id, t_sec, value, oldest);
        proof {
            assert(is_window_start(minus, t_sec, oldest));
        }
    }

    fn push_from(&mut self, device_id: &str, t_sec: Real, value: Real, oldest: Real)
        requires
            old(self)@.points.len() <= MAX_POINTS_PER_SERIES,
        ensures
            final(self)@ == old(self)@.with_point(device_id@, t_sec, value, oldest),
            final(self)@.points.len() <= MAX_POINTS_PER_SERIES,
    {
        self.points.push_back((t_sec, value));
        self.latest = Some(value);
        self.device_id = text::owned(device_id);
        let ghost all = self.points@;
        while self.points.len() > 0 && oldest.gt(self.points[0].0)
            invariant
                self.latest == Some(value),
                self.device_id@ == device_id@,
                recent(all, oldest) == recent(self.points@, oldest),
                self.points@.len() <= MAX_POINTS_PER_SERIES + 1,
            decreases self.points@.len(),
        {
            let ghost before = self.points@;
            let _ = self.points.pop_front();
            proof {
                assert(self.points@ =~= before.skip(1));
            }
        }
        let ghost kept = self.points@;
        if self.points.len() > MAX_POINTS_PER_SERIES {
            let _ = self.points.pop_front();
            proof {
                assert(self.points@ =~= kept.skip(1));
            }
        }
        proof {
            assert(self.points@ =~= cut(kept));
        }
    }
}

/// A chart never holds too many points, its last point is the latest sample, and where its
/// points come in the order of time, none of them is older than the window.
pub proof fn law_series_window(
    s: SeriesData,
    device_id: Seq<char>,
    t_sec: Real,
    value: Real,
    oldest: Real,
    i: int,
)
    requires
        t_sec.at_least(oldest),
        forall|a: int, b: int|
            0 <= a <= b < s.points.len() ==> (#[trigger] s.points[b]).0.at_least(
                (#[trigger] s.points[a]).0,
            ),
        forall|a: int| 0 <= a < s.points.len() ==> t_sec.at_least((#[trigger] s.points[a]).0),
        0 <= i < s.with_point(device_id, t_sec, value, oldest).points.len(),
    ensures
        s.with_point(device_id, t_sec, value, oldest).points.len() <= MAX_POINTS_PER_SERIES,
        s.with_point(device_id, t_sec, value, oldest).points.last() == (t_sec, value),
        s.with_point(device_id, t_sec, value, oldest).points[i].0.at_least(oldest),
{
    let all = s.points.push((t_sec, value));
    assert forall|a: int, b: int| 0 <= a <= b < all.len() implies (#[trigger] all[b]).0.at_least(
        (#[trigger] all[a]).0,
    ) by {
        if b < s.points.len() {
            assert(s.points[b].0.at_least(s.points[a].0));
        } else if a < s.points.len() {
            assert(t_sec.at_least(s.points[a].0));
        }
    }
    lemma_recent(all, oldest);
}

proof fn lemma_recent(points: Seq<(Real, Real)>, oldest: Real)
    requires
        points.len() > 0,
        points.last().0.at_least(oldest),
        forall|a: int, b: int|
            0 <= a <= b < points.len() ==> (#[trigger] points[b]).0.at_least(
                (#[trigger] points[a]).0,
            ),
    ensures
        recent(points, oldest).len() > 0,
        recent(points, oldest).last() == points.last(),
        forall|i: int|
            0 <= i < recent(points, oldest).len() ==> (#[trigger] recent(
                points,
                oldest,
            )[i]).0.at_least(oldest),
    decreases points.len(),
{
    if oldest.above(points[0].0) {
        let rest = points.skip(1);
        assert forall|a: int, b: int| 0 <= a <= b < rest.len() implies (
        #[trigger] rest[b]).0.at_least((#[trigger] rest[a]).0) by {
            assert(points[b + 1].0.at_least(points[a + 1].0));
        }
        assert(rest.len() > 0);
        lemma_recent(rest, oldest);
    } else {
        assert forall|i: int| 0 <= i < points.len() implies (#[trigger] points[i]).0.at_least(
            oldest,
        ) by {
            assert(points[i].0.at_least(points[0].0));
            assert(points[points.len() - 1].0.at_least(points[0].0));
        }
    }
}

/// A chart keeps every point that is not older than the window, as far as it has room: the
/// last of the points that have come stay, in their order.
pub proof fn law_series_keeps_window(
    s: SeriesData,
    device_id: Seq<char>,
    t_sec: Real,
    value: Real,
    oldest: Real,
    k: int,
)
    requires
        0 <= k <= s.points.len(),
        s.points.push((t_sec, value))[k].0.at_least(oldest),
        s.points.len() + 1 - k <= MAX_POINTS_PER_SERIES,
    ensures
        ({
            let all = s.points.push((t_sec, value));
            let kept = s.with_point(device_id, t_sec, value, oldest).points;
            &&& all.len() - k <= kept.len() <= all.len()
            &&& kept == all.skip(all.len() - kept.len())
            &&& kept[k - (all.len() - kept.len())] == all[k]
        }),
{
    let all = s.points.push((t_sec, value));
    lemma_recent_suffix(all, oldest, k);
    let rest = recent(all, oldest);
    let kept = s.with_point(device_id, t_sec, value, oldest).points;
    assert(kept =~= all.skip(all.len() - kept.len()));
}

proof fn lemma_recent_suffix(points: Seq<(Real, Real)>, oldest: Real, k: int)
    requires
        0 <= k < points.len(),
        points[k].0.at_least(oldest),
    ensures
        points.len() - k <= recent(points, oldest).len() <= points.len(),
        recent(points, oldest) == points.skip(points.len() - recent(points, oldest).len()),
    decreases points.len(),
{
    if oldest.above(points[0].0) {
        let rest = points.skip(1);
        assert(rest[k - 1] == points[k]);
        lemma_recent_suffix(rest, oldest, k - 1);
        assert(rest.skip(rest.len() - recent(rest, oldest).len()) =~= points.skip(
            points.len() - recent(rest, oldest).len(),
        ));
    } else {
        assert(points.skip(0) =~= points);
    }
}

// ---- lines of a chart ----

/// Whether the marks say of each point but the first whether it stands apart from the one
/// before it: whether what `minus` gives for their moments is more than the gap.
pub open spec fn marks_gaps<F: Fn(Real, Real) -> Real>(
    points: Seq<(Real, Real)>,
    minus: F,
    breaks: Seq<bool>,
) -> bool {
    &&& breaks.len() == points.len()
    &&& breaks.len() > 0 ==> !breaks[0]
    &&& forall|i: int|
        0 < i < points.len() ==> #[trigger] marks_gap(
            minus,
            points[i].0,
            points[i - 1].0,
            breaks[i],
        )
}

/// Whether a mark says whether a point stands apart from the one before it.
pub open spec fn marks_gap<F: Fn(Real, Real) -> Real>(
    minus: F,
    t_sec: Real,
    before: Real,
    apart: bool,
) -> bool {
    exists|since: Real| #[trigger]
        call_ensures(minus, (t_sec, before), since) && apart == since.above(line_break_gap())
}

/// Marks the points that stand apart from the one before them. `minus` takes one number from
/// another.
pub fn line_breaks<F: Fn(Real, Real) -> Real>(points: &VecDeque<(Real, Real)>, minus: F) -> (r: Vec<
    bool,
>)
    requires
        is_total(minus),
    ensures
        marks_gaps(points@, minus, r@),
{
    let mut breaks: Vec<bool> = Vec::new();
    for i in 0..points.len()
        invariant
            is_total(minus),
            breaks@.len() == i,
            breaks@.len() > 0 ==> !breaks@[0],
            forall|k: int|
                0 < k < i ==> #[trigger] marks_gap(
                    minus,
                    points@[k].0,
                    points@[k - 1].0,
                    breaks@[k],
                ),
    {
        let ghost marked = breaks@;
        let apart: bool = if i > 0 {
            let since: Real = minus(points[i].0, points[i - 1].0);
            since.gt(Real { bits: LINE_BREAK_GAP_BITS })
        } else {
            false
        };
        breaks.push(apart);
        proof {
            assert forall|k: int| 0 < k < i + 1 implies #[trigger] marks_gap(
                minus,
                points@[k].0,
                points@[k - 1].0,
                breaks@[k],
            ) by {
                if k < i {
                    assert(breaks@[k] == marked[k]);
                }
            }
        }
    }
    breaks
}

/// The stretches of points without a gap that are finished, and where the last one begins.
pub open spec fn stretches(breaks: Seq<bool>) -> (Seq<(usize, usize)>, int)
    decreases breaks.len(),
{
    if breaks.len() == 0 {
        (Seq::empty(), 0)
    } else {
        let (done, start) = stretches(breaks.drop_last());
        let here = breaks.len() - 1;
        if breaks.last() {
            (
                if here - start >= 2 {
                    done.push((start as usize, here as usize))
                } else {
                    done
                },
                here,
            )
        } else {
            (done, start)
        }
    }
}

/// The lines of a chart: the stretches of at least two points without a gap, each from its
/// first point to the one behind its last.
pub open spec fn lines_of(breaks: Seq<bool>) -> Seq<(usize, usize)> {
    let (done, start) = stretches(breaks);
    if breaks.len() - start >= 2 {
        done.push((start as usize, breaks.len() as usize))
    } else {
        done
    }
}

/// The lines of a chart; each point is marked where a gap lies before it.
pub fn chart_lines(breaks: &Vec<bool>) -> (r: Vec<(usize, usize)>)
    ensures
        r@ == lines_of(breaks@),
{
    let mut out: Vec<(usize, usize)> = Vec::new();
    let mut start: usize = 0;
    proof {
        assert(stretches(breaks@.take(0)).0 =~= out@);
    }
    for i in 0..breaks.len()
        invariant
            start <= i,
            stretches(breaks@.take(i as int)) == (out@, start as int),
    {
        proof {
            assert(breaks@.take(i + 1).drop_last() =~= breaks@.take(i as int));
        }
        if breaks[i] {
            if i - start >= 2 {
                out.push((start, i));
            }
            start = i;
        }
    }
    proof {
        assert(breaks@.take(breaks@.len() as int) =~= breaks@);
    }
    if breaks.len() - start >= 2 {
        out.push((start, breaks.len()));
    }
    out
}

proof fn lemma_stretches(breaks: Seq<bool>)
    requires
        breaks.len() <= usize::MAX,
    ensures
        0 <= stretches(breaks).1 <= breaks.len(),
        forall|i: int| stretches(breaks).1 < i < breaks.len() ==> !(#[trigger] breaks[i]),
        forall|k: int|
            0 <= k < stretches(breaks).0.len() ==> {
                let (a, b) = #[trigger] stretches(breaks).0[k];
                a + 2 <= b <= stretches(breaks).1
            },
        forall|k: int, i: int|
            0 <= k < stretches(breaks).0.len() && (#[trigger] stretches(breaks).0[k]).0 < i
                < stretches(breaks).0[k].1 ==> !(#[trigger] breaks[i]),
    decreases breaks.len(),
{
    if breaks.len() > 0 {
        let front = breaks.drop_last();
        lemma_stretches(front);
        let (done, start) = stretches(front);
        assert forall|i: int| stretches(breaks).1 < i < breaks.len() implies !(
        #[trigger] breaks[i]) by {
            if i < front.len() {
                assert(breaks[i] == front[i]);
            }
        }
        assert forall|k: int, i: int|
            0 <= k < stretches(breaks).0.len() && (#[trigger] stretches(breaks).0[k]).0 < i
                < stretches(breaks).0[k].1 implies !(#[trigger] breaks[i]) by {
            assert(i < front.len());
            assert(breaks[i] == front[i]);
            if k < done.len() {
                assert(stretches(breaks).0[k] == done[k]);
            }
        }
    }
}

/// No line of a chart runs over a gap, and every line has at least two points.
pub proof fn law_lines_keep_gaps(breaks: Seq<bool>, k: int)
    requires
        breaks.len() <= usize::MAX,
        0 <= k < lines_of(breaks).len(),
    ensures
        lines_of(breaks)[k].0 + 2 <= lines_of(breaks)[k].1 <= breaks.len(),
        forall|i: int|
            lines_of(breaks)[k].0 < i < lines_of(breaks)[k].1 ==> !(#[trigger] breaks[i]),
{
    lemma_stretches(breaks);
    let (done, start) = stretches(breaks);
    if k < done.len() {
        assert(lines_of(breaks)[k] == done[k]);
    }
}

proof fn lemma_stretch_found(breaks: Seq<bool>, a: int, b: int)
    requires
        breaks.len() <= usize::MAX,
        0 <= a,
        a + 2 <= b <= breaks.len(),
        forall|i: int| a < i < b ==> !(#[trigger] breaks[i]),
    ensures
        stretches(breaks).1 <= a || exists|k: int|
            0 <= k < stretches(breaks).0.len() && (#[trigger] stretches(breaks).0[k]).0 <= a && b
                <= stretches(breaks).0[k].1,
    decreases breaks.len(),
{
    let front = breaks.drop_last();
    let here = breaks.len() - 1;
    let (done, start) = stretches(front);
    lemma_stretches(front);
    lemma_stretch_begins(front);
    assert forall|i: int| a < i < b && i < here implies !(#[trigger] front[i]) by {
        assert(front[i] == breaks[i]);
    }
    if b <= here {
        lemma_stretch_found(front, a, b);
        if start <= a {
            if breaks.last() {
                assert(stretches(breaks).0[done.len() as int] == (start as usize, here as usize));
            }
        } else {
            let k = choose|k: int|
                0 <= k < done.len() && (#[trigger] done[k]).0 <= a && b <= done[k].1;
            assert(stretches(breaks).0[k] == done[k]);
        }
    } else {
        assert(!breaks[here]);
        if a + 2 <= here {
            lemma_stretch_found(front, a, here);
        }
    }
}

proof fn lemma_stretch_begins(breaks: Seq<bool>)
    ensures
        0 <= stretches(breaks).1 <= breaks.len(),
        breaks.len() > 0 ==> stretches(breaks).1 < breaks.len(),
        stretches(breaks).1 > 0 ==> breaks[stretches(breaks).1],
    decreases breaks.len(),
{
    if breaks.len() > 0 {
        lemma_stretch_begins(breaks.drop_last());
    }
}

/// Every stretch of two or more points without a gap is on a line, whole.
pub proof fn law_stretches_are_drawn(breaks: Seq<bool>, a: int, b: int)
    requires
        breaks.len() <= usize::MAX,
        0 <= a,
        a + 2 <= b <= breaks.len(),
        forall|i: int| a < i < b ==> !(#[trigger] breaks[i]),
    ensures
        exists|k: int|
            0 <= k < lines_of(breaks).len() && (#[trigger] lines_of(breaks)[k]).0 <= a && b
                <= lines_of(breaks)[k].1,
{
    lemma_stretch_found(breaks, a, b);
    lemma_stretches(breaks);
    let (done, start) = stretches(breaks);
    if start <= a {
        assert(lines_of(breaks)[done.len() as int] == (start as usize, breaks.len() as usize));
    } else {
        let k = choose|k: int|
            0 <= k < done.len() && (#[trigger] done[k]).0 <= a && b <= done[k].1;
        assert(lines_of(breaks)[k] == done[k]);
    }
}

proof fn lemma_stretches_in_order(breaks: Seq<bool>)
    requires
        breaks.len() <= usize::MAX,
    ensures
        forall|j: int, k: int|
            0 <= j < k < stretches(breaks).0.len() ==> (#[trigger] stretches(breaks).0[j]).1 <= (
            #[trigger] stretches(breaks).0[k]).0,
        forall|k: int|
            0 <= k < stretches(breaks).0.len() ==> {
                let (first, behind) = #[trigger] stretches(breaks).0[k];
                &&& first > 0 ==> breaks[first as int]
                &&& behind < breaks.len() && breaks[behind as int]
            },
    decreases breaks.len(),
{
    if breaks.len() > 0 {
        let front = breaks.drop_last();
        let (done, start) = stretches(front);
        lemma_stretches_in_order(front);
        lemma_stretches(front);
        lemma_stretch_begins(front);
        let all = stretches(breaks).0;
        assert forall|j: int, k: int| 0 <= j < k < all.len() implies (#[trigger] all[j]).1 <= (
        #[trigger] all[k]).0 by {
            assert(all[j] == done[j]);
            if k < done.len() {
                assert(all[k] == done[k]);
            }
        }
        assert forall|k: int| 0 <= k < all.len() implies {
            let (first, behind) = #[trigger] all[k];
            &&& first > 0 ==> breaks[first as int]
            &&& behind < breaks.len() && breaks[behind as int]
        } by {
            if k < done.len() {
                assert(all[k] == done[k]);
            }
        }
    }
}

/// The lines of a chart follow one another and share no point. Each begins at the first point
/// or at one that stands apart, and ends before the next such point or with the last one.
pub proof fn law_lines_in_order(breaks: Seq<bool>)
    requires
        breaks.len() <= usize::MAX,
    ensures
        forall|j: int, k: int|
            0 <= j < k < lines_of(breaks).len() ==> (#[trigger] lines_of(breaks)[j]).1 <= (
            #[trigger] lines_of(breaks)[k]).0,
        forall|k: int|
            0 <= k < lines_of(breaks).len() ==> {
                let (first, behind) = #[trigger] lines_of(breaks)[k];
                &&& first == 0 || breaks[first as int]
                &&& behind == breaks.len() || breaks[behind as int]
            },
{
    lemma_stretches_in_order(breaks);
    lemma_stretches(breaks);
    lemma_stretch_begins(breaks);
    let (done, start) = stretches(breaks);
    let lines = lines_of(breaks);
    assert forall|j: int, k: int| 0 <= j < k < lines.len() implies (#[trigger] lines[j]).1 <= (
    #[trigger] lines[k]).0 by {
        assert(lines[j] == done[j]);
        if k < done.len() {
            assert(lines[k] == done[k]);
        }
    }
    assert forall|k: int| 0 <= k < lines.len() implies {
        let (first, behind) = #[trigger] lines[k];
        &&& first == 0 || breaks[first as int]
        &&& behind == breaks.len() || breaks[behind as int]
    } by {
        if k < done.len() {
            assert(lines[k] == done[k]);
        }
    }
}

/// The smallest and the largest of some values; those that are not numbers do not count.
pub open spec fn extremes(values: Seq<Real>) -> Option<(Real, Real)>
    decreases values.len(),
{
    if values.len() == 0 {
        None
    } else {
        let v = values.last();
        match extremes(values.drop_last()) {
            None => if v.is_nan() {
                None
            } else {
                Some((v, v))
            },
            Some((low, high)) => Some(
                (
                    if low.above(v) {
                        v
                    } else {
                        low
                    },
                    if v.above(high) {
                        v
                    } else {
                        high
                    },
                ),
            ),
        }
    }
}

/// The range of the values of a chart; none without values, or where they are not finite.
pub fn value_range(points: &VecDeque<(Real, Real)>) -> (r: Option<(Real, Real)>)
    ensures
        r == match extremes(points@.map_values(|p: (Real, Real)| p.1)) {
            Some((low, high)) => if low.is_finite() && high.is_finite() {
                Some((low, high))
            } else {
                None
            },
            None => None,
        },
{
    let ghost values = points@.map_values(|p: (Real, Real)| p.1);
    let mut range: Option<(Real, Real)> = None;
    proof {
        assert(extremes(values.take(0)) is None);
    }
    for i in 0..points.len()
        invariant
            values == points@.map_values(|p: (Real, Real)| p.1),
            range == extremes(values.take(i as int)),
    {
        proof {
            assert(values.take(i + 1).drop_last() =~= values.take(i as int));
            assert(values.take(i + 1).last() == points@[i as int].1);
        }
        let v: Real = points[i].1;
        range = match range {
            None => if v.nan() {
                None
            } else {
                Some((v, v))
            },
            Some((low, high)) => Some(
                (
                    if low.gt(v) {
                        v
                    } else {
                        low
                    },
                    if v.gt(high) {
                        v
                    } else {
                        high
                    },
                ),
            ),
        };
    }
    proof {
        assert(values.take(values.len() as int) =~= values);
    }
    match range {
        Some((low, high)) => if low.finite() && high.finite() {
            Some((low, high))
        } else {
            None
        },
        None => None,
    }
}

// ---- all signals ----

/// Where a sample of a signal goes.
#[derive(Clone, Copy, Debug, PartialEq, Eq, Structural)]
pub enum Placed {
    /// To no chart: the signal is not known.
    Nowhere,
    /// To the chart of a sensor.
    Sensor(usize),
    /// To the chart of a sensor behind TCP.
    Tcp(usize),
    /// To the chart of a derived signal.
    Derived,
}

/// The signals, and the points of their charts.
pub struct SignalBoard {
    processor: SignalProcessor,
    sensors: Vec<SensorSeries>,
    tcp_sensors: Vec<SensorSeries>,
    derived: Table<(String, String), SensorSeries>,
}

/// The points of the charts, by sensor, and by device and derived signal.
#[verifier::ext_equal]
pub ghost struct ChartData {
    pub sensors: Seq<SeriesData>,
    pub tcp_sensors: Seq<SeriesData>,
    pub derived: Map<(Seq<char>, Seq<char>), SeriesData>,
}

impl View for SignalBoard {
    type V = ChartData;

    closed spec fn view(&self) -> ChartData {
        ChartData {
            sensors: self.sensors@.map_values(|s: SensorSeries| s@),
            tcp_sensors: self.tcp_sensors@.map_values(|s: SensorSeries| s@),
            derived: self.derived@.map_values(|s: SensorSeries| s@),
        }
    }
}

/// Whether no chart holds too many points.
pub open spec fn all_short(charts: Seq<SeriesData>) -> bool {
    forall|i: int| 0 <= i < charts.len() ==> (#[trigger] charts[i]).points.len()
        <= MAX_POINTS_PER_SERIES
}

impl ChartData {
    pub open spec fn wf(self) -> bool {
        &&& self.sensors.len() == SENSOR_COUNT
        &&& self.tcp_sensors.len() == SENSOR_COUNT
        &&& all_short(self.sensors)
        &&& all_short(self.tcp_sensors)
        &&& forall|key: (Seq<char>, Seq<char>)| #[trigger]
            self.derived.contains_key(key) ==> self.derived[key].points.len()
                <= MAX_POINTS_PER_SERIES
    }

    /// The chart of a derived signal.
    pub open spec fn derived_chart(self, key: (Seq<char>, Seq<char>)) -> SeriesData {
        if self.derived.contains_key(key) {
            self.derived[key]
        } else {
            SeriesData::blank()
        }
    }

    /// With a sample added to its chart.
    pub open spec fn with_sample(
        self,
        placed: Placed,
        sample: signal::SignalData,
        oldest: Real,
    ) -> ChartData {
        let key = (sample.device_id, sample.signal_id);
        match placed {
            Placed::Nowhere => self,
            Placed::Sensor(i) => ChartData {
                sensors: self.sensors.update(
                    i as int,
                    self.sensors[i as int].with_point(
                        sample.device_id,
                        sample.t_sec,
                        sample.value,
                        oldest,
                    ),
                ),
                ..self
            },
            Placed::Tcp(i) => ChartData {
                tcp_sensors: self.tcp_sensors.update(
                    i as int,
                    self.tcp_sensors[i as int].with_point(
                        sample.device_id,
                        sample.t_sec,
                        sample.value,
                        oldest,
                    ),
                ),
                ..self
            },
            Placed::Derived => ChartData {
                derived: self.derived.insert(
                    key,
                    self.derived_chart(key).with_point(
                        sample.device_id,
                        sample.t_sec,
                        sample.value,
                        oldest,
                    ),
                ),
                ..self
            },
        }
    }
}

/// Where a sample goes.
pub open spec fn place_of(specs: Seq<signal::SignalSpec>, sample: signal::SignalData) -> Placed {
    match signal::first_spec(specs, sample.signal_id) {
        None => Placed::Nowhere,
        Some(spec) => match spec.kind {
            SignalKind::SourceSensor { sensor_id } => if text::begins_with(
                sample.device_id,
                "tcp://"@,
            ) {
                Placed::Tcp(sensor_id)
            } else {
                Placed::Sensor(sensor_id)
            },
            SignalKind::Derived { .. } => Placed::Derived,
        },
    }
}

/// Whether every sensor of the signals has a chart.
pub open spec fn charted(specs: Seq<signal::SignalSpec>) -> bool {
    forall|i: int|
        0 <= i < specs.len() ==> ((#[trigger] specs[i]).kind matches SignalKind::SourceSensor {
            sensor_id,
        } ==> sensor_id < SENSOR_COUNT)
}

proof fn lemma_first_spec_charted(specs: Seq<signal::SignalSpec>, id: Seq<char>)
    requires
        charted(specs),
    ensures
        signal::first_spec(specs, id) matches Some(spec) ==> (spec.kind matches SignalKind::SourceSensor {
            sensor_id,
        } ==> sensor_id < SENSOR_COUNT),
    decreases specs.len(),
{
    if specs.len() > 0 && specs[0].id@ != id {
        assert forall|i: int| 0 <= i < specs.skip(1).len() implies ((#[trigger] specs.skip(
            1,
        )[i]).kind matches SignalKind::SourceSensor { sensor_id } ==> sensor_id
            < SENSOR_COUNT) by {
            assert(specs.skip(1)[i] == specs[i + 1]);
        }
        lemma_first_spec_charted(specs.skip(1), id);
    }
}

fn blank_charts() -> (r: Vec<SensorSeries>)
    ensures
        r@.len() == SENSOR_COUNT,
        forall|i: int| 0 <= i < r@.len() ==> (#[trigger] r@[i])@ == SeriesData::blank(),
{
    let mut out: Vec<SensorSeries> = Vec::new();
    for i in 0..SENSOR_COUNT
        invariant
            out@.len() == i,
            forall|j: int| 0 <= j < out@.len() ==> (#[trigger] out@[j])@ == SeriesData::blank(),
    {
        out.push(SensorSeries::new());
    }
    out
}

impl SignalBoard {
    pub closed spec fn signals(&self) -> Seq<signal::SignalSpec> {
        self.processor.signals()
    }

    pub closed spec fn latest(&self) -> Map<(Seq<char>, Seq<char>), signal::SignalData> {
        self.processor.latest()
    }

    pub open spec fn wf(&self) -> bool {
        self@.wf() && charted(self.signals())
    }

    /// The usual signals, with empty charts.
    pub fn new() -> (r: Self)
        ensures
            r.wf(),
            r.signals().len() == SENSOR_COUNT + 4,
            forall|i: int|
                0 <= i < SENSOR_COUNT ==> signal::is_sensor_spec(
                    #[trigger] r.signals()[i],
                    i as nat,
                ),
            signal::is_angle_spec(
                r.signals()[SENSOR_COUNT as int],
                "sensor_0_angle"@,
                "sensor_P1_angle"@,
                "sensor_0_raw"@,
                signal::POSITION_MIDDLE_BITS,
                signal::POSITION_SCALE_BITS,
            ),
            signal::is_angle_spec(
                r.signals()[SENSOR_COUNT + 1],
                "sensor_1_angle"@,
                "sensor_T1_angle"@,
                "sensor_1_raw"@,
                signal::TORQUE_MIDDLE_BITS,
                signal::TORQUE_SCALE_BITS,
            ),
            signal::is_angle_spec(
                r.signals()[SENSOR_COUNT + 2],
                "sensor_2_angle"@,
                "sensor_P2_angle"@,
                "sensor_2_raw"@,
                signal::POSITION_MIDDLE_BITS,
                signal::POSITION_DOWN_BITS,
            ),
            signal::is_angle_spec(
                r.signals()[SENSOR_COUNT + 3],
                "sensor_3_angle"@,
                "sensor_T2_angle"@,
                "sensor_3_raw"@,
                signal::TORQUE_MIDDLE_BITS,
                signal::TORQUE_DOWN_BITS,
            ),
            r.latest() == Map::<(Seq<char>, Seq<char>), signal::SignalData>::empty(),
            forall|i: int|
                0 <= i < SENSOR_COUNT ==> (#[trigger] r@.sensors[i]) == SeriesData::blank(),
            forall|i: int|
                0 <= i < SENSOR_COUNT ==> (#[trigger] r@.tcp_sensors[i]) == SeriesData::blank(),
            r@.derived == Map::<(Seq<char>, Seq<char>), SeriesData>::empty(),
    {
        let specs = signal::default_signal_specs(SENSOR_COUNT);
        proof {
            assert forall|i: int| 0 <= i < specs@.len() implies ((#[trigger] specs@[i]).kind
                matches SignalKind::SourceSensor { sensor_id } ==> sensor_id < SENSOR_COUNT) by {
                if i < SENSOR_COUNT {
                    assert(signal::is_sensor_spec(specs@[i], i as nat));
                }
            }
        }
        let r = SignalBoard {
            processor: SignalProcessor::new(specs),
            sensors: blank_charts(),
            tcp_sensors: blank_charts(),
            derived: Table::new(),
        };
        proof {
            assert(r@.derived =~= Map::<(Seq<char>, Seq<char>), SeriesData>::empty());
        }
        r
    }

    /// Takes in a sample; gives the samples of all signals that follow from it.
    pub fn ingest_raw<F: Fn(&DerivedFormula, Real) -> Real>(
        &mut self,
        raw: RawSample,
        compute: F,
    ) -> (r: Vec<SignalSample>)
        requires
            old(self).wf(),
            forall|formula: DerivedFormula, value: Real| #[trigger]
                call_requires(compute, (&formula, value)),
        ensures
            final(self).wf(),
            final(self)@ == old(self)@,
            final(self).signals() == old(self).signals(),
            ({
                let sources = signal::source_samples(old(self).signals(), raw);
                let latest = signal::latest_after(old(self).latest(), sources);
                let derived = signal::signal_data(r@).skip(sources.len() as int);
                &&& r@.len() >= sources.len()
                &&& signal::signal_data(r@).take(sources.len() as int) == sources
                &&& signal::derived_samples(old(self).signals(), latest, raw, compute, derived)
                &&& final(self).latest() == signal::latest_after(latest, derived)
            }),
    {
        self.processor.ingest_raw(raw, compute)
    }

    /// Adds a sample to its chart, and says where it went. `minus` takes one number from
    /// another.
    pub fn apply_signal_sample<F: Fn(Real, Real) -> Real>(
        &mut self,
        sample: &SignalSample,
        minus: F,
    ) -> (r: Placed)
        requires
            old(self).wf(),
            is_total(minus),
        ensures
            final(self).wf(),
            r == place_of(old(self).signals(), sample@),
            exists|oldest: Real|
                {
                    &&& #[trigger] is_window_start(minus, sample.t_sec, oldest)
                    &&& final(self)@ == old(self)@.with_sample(r, sample@, oldest)
                },
            final(self).signals() == old(self).signals(),
            final(self).latest() == old(self).latest(),
    {
        let oldest: Real = minus(sample.t_sec, Real { bits: WINDOW_SECS_BITS });
        let ghost before = self@;
        proof {
            lemma_first_spec_charted(self.signals(), sample.signal_id@);
        }
        let placed: Placed = match self.processor.spec(sample.signal_id.as_str()) {
            None => Placed::Nowhere,
            Some(spec) => match spec.kind {
                SignalKind::SourceSensor { sensor_id } => {
                    if text::starts_with(sample.device_id.as_str(), "tcp://") {
                        Placed::Tcp(sensor_id)
                    } else {
                        Placed::Sensor(sensor_id)
                    }
                },
                SignalKind::Derived { .. } => Placed::Derived,
            },
        };
        match placed {
            Placed::Nowhere => {},
            Placed::Sensor(i) => {
                proof {
                    assert(before.sensors[i as int] == self.sensors@[i as int]@);
                }
                push_at(&mut self.sensors, i, sample, oldest);
            },
            Placed::Tcp(i) => {
                proof {
                    assert(before.tcp_sensors[i as int] == self.tcp_sensors@[i as int]@);
                }
                push_at(&mut self.tcp_sensors, i, sample, oldest);
            },
            Placed::Derived => {
                let key = (
                    text::owned(sample.device_id.as_str()),
                    text::owned(sample.signal_id.as_str()),
                );
                let mut chart: SensorSeries = match self.derived.remove(&key) {
                    Some(chart) => {
                        proof {
                            assert(before.derived.contains_key(
                                (sample.device_id@, sample.signal_id@),
                            ));
                        }
                        chart
                    },
                    None => SensorSeries::new(),
                };
                chart.push_from(sample.device_id.as_str(), sample.t_sec, sample.value, oldest);
                self.derived.insert(key, chart);
                proof {
                    assert(self@ =~= before.with_sample(placed, sample@, oldest));
                }
            },
        }
        proof {
            assert(self@ =~= before.with_sample(placed, sample@, oldest));
            assert(is_window_start(minus, sample.t_sec, oldest));
        }
        placed
    }

    /// The chart that a window shows, where there is one.
    pub fn chart(&self, binding: SignalBinding) -> (r: Option<&SensorSeries>)
        requires
            self.wf(),
        ensures
            if binding.sensor() < SENSOR_COUNT {
                r is Some && r->0@ == if binding is TcpSensor {
                    self@.tcp_sensors[binding.sensor() as int]
                } else {
                    self@.sensors[binding.sensor() as int]
                }
            } else {
                r is None
            },
    {
        let sensor_id: usize = binding.sensor_id();
        proof {
            assert(self@.sensors.len() == self.sensors@.len());
            assert(self@.tcp_sensors.len() == self.tcp_sensors@.len());
        }
        if sensor_id >= SENSOR_COUNT {
            None
        } else if binding.uses_tcp_series() {
            Some(&self.tcp_sensors[sensor_id])
        } else {
            Some(&self.sensors[sensor_id])
        }
    }

    /// The latest value of the angle that is derived from an axis of the demo board, with the
    /// id of the angle.
    pub fn latest_demo_derived_angle(&self, binding: SignalBinding, device_id: &str) -> (r: Option<
        (&'static str, Real),
    >)
        ensures
            match binding.derived_angle() {
                Some(id) => {
                    let key = (device_id@, id);
                    if device_id@.len() > 0 && self@.derived.contains_key(key) {
                        match self@.derived[key].latest {
                            Some(value) => r is Some && (r->0).0@ == id && (r->0).1 == value,
                            None => r is None,
                        }
                    } else {
                        r is None
                    }
                },
                None => r is None,
            },
    {
        let chars: Vec<char> = text::chars_of(device_id);
        if chars.len() == 0 {
            return None;
        }
        match binding.demo_derived_angle_id() {
            Some(id) => {
                let key = (text::owned(device_id), text::owned(id));
                match self.derived.get(&key) {
                    Some(chart) => {
                        proof {
                            assert(self@.derived.contains_key((device_id@, id@)));
                        }
                        match chart.latest {
                            Some(value) => Some((id, value)),
                            None => None,
                        }
                    },
                    None => None,
                }
            },
            None => None,
        }
    }

    /// The signal with an id.
    pub fn spec(&self, signal_id: &str) -> (r: Option<&signal::SignalSpec>)
        ensures
            match signal::first_spec(self.signals(), signal_id@) {
                Some(found) => r is Some && *r->0 == found,
                None => r is None,
            },
    {
        self.processor.spec(signal_id)
    }

    /// How a sensor is called on a chart: its name and unit.
    pub fn sensor_label(&self, sensor_id: usize) -> (r: String)
        ensures
            r@ == match signal::first_spec(self.signals(), signal::raw_id(sensor_id as nat)) {
                Some(spec) => spec.name@ + " ["@ + spec.unit@ + "]"@,
                None => "Sensor "@ + text::decimal(sensor_id as nat),
            },
    {
        let mut id = text::owned("sensor_");
        text::push_decimal(&mut id, sensor_id as u64);
        text::push_text(&mut id, "_raw");
        match self.processor.spec(id.as_str()) {
            Some(spec) => {
                let mut r = text::owned(spec.name.as_str());
                text::push_text(&mut r, " [");
                text::push_text(&mut r, spec.unit.as_str());
                text::push_text(&mut r, "]");
                r
            },
            None => {
                let mut r = text::owned("Sensor ");
                text::push_decimal(&mut r, sensor_id as u64);
                r
            },
        }
    }
}

fn push_at(charts: &mut Vec<SensorSeries>, i: usize, sample: &SignalSample, oldest: Real)
    requires
        i < old(charts)@.len(),
        old(charts)@[i as int]@.points.len() <= MAX_POINTS_PER_SERIES,
    ensures
        final(charts)@.map_values(|s: SensorSeries| s@) == old(charts)@.map_values(
            |s: SensorSeries| s@,
        ).update(
            i as int,
            old(charts)@[i as int]@.with_point(
                sample.device_id@,
                sample.t_sec,
                sample.value,
                oldest,
            ),
        ),
        final(charts)@[i as int]@.points.len() <= MAX_POINTS_PER_SERIES,
        final(charts)@.len() == old(charts)@.len(),
{
    let ghost before = charts@.map_values(|s: SensorSeries| s@);
    let chart: &mut SensorSeries = &mut charts[i];
    chart.push_from(sample.device_id.as_str(), sample.t_sec, sample.value, oldest);
    proof {
        assert(charts@.map_values(|s: SensorSeries| s@) =~= before.update(
            i as int,
            charts@[i as int]@,
        ));
    }
}

// ---- what holds of all samples ----

/// Charts reach back thirty seconds and hold 4096 points; a line is broken where more than two
/// seconds lie between two points.
pub proof fn law_chart_limits()
    ensures
        window_secs().bits == 0x403E_0000_0000_0000,
        line_break_gap().bits == 0x4000_0000_0000_0000,
        MAX_POINTS_PER_SERIES == 4096,
{
}

/// A sample goes to the chart of the sensor that its signal is taken from, among the charts
/// behind TCP where its device is reached so and among the others where not; one of a derived
/// signal goes to the chart of that signal and device; one of an unknown signal goes nowhere.
pub proof fn law_place(specs: Seq<signal::SignalSpec>, sample: signal::SignalData)
    ensures
        match signal::first_spec(specs, sample.signal_id) {
            None => place_of(specs, sample) == Placed::Nowhere,
            Some(spec) => match spec.kind {
                SignalKind::SourceSensor { sensor_id } => {
                    &&& text::begins_with(sample.device_id, "tcp://"@) ==> place_of(specs, sample)
                        == Placed::Tcp(sensor_id)
                    &&& !text::begins_with(sample.device_id, "tcp://"@) ==> place_of(specs, sample)
                        == Placed::Sensor(sensor_id)
                },
                SignalKind::Derived { .. } => place_of(specs, sample) == Placed::Derived,
            },
        },
{
}

/// A sample is the latest of the chart it goes to, under its device, and all other charts stay
/// as they were.
pub proof fn law_one_chart_changes(
    d: ChartData,
    placed: Placed,
    sample: signal::SignalData,
    oldest: Real,
    i: int,
    key: (Seq<char>, Seq<char>),
)
    requires
        d.wf(),
        placed matches Placed::Sensor(k) ==> k < SENSOR_COUNT,
        placed matches Placed::Tcp(k) ==> k < SENSOR_COUNT,
        0 <= i < 10,
    ensures
        ({
            let after = d.with_sample(placed, sample, oldest);
            let own = (sample.device_id, sample.signal_id);
            &&& after.sensors.len() == 10
            &&& after.tcp_sensors.len() == 10
            &&& placed matches Placed::Sensor(k) ==> after.sensors[k as int].latest == Some(
                sample.value,
            ) && after.sensors[k as int].device_id == sample.device_id
            &&& placed matches Placed::Tcp(k) ==> after.tcp_sensors[k as int].latest == Some(
                sample.value,
            ) && after.tcp_sensors[k as int].device_id == sample.device_id
            &&& placed == Placed::Derived ==> after.derived.contains_key(own)
                && after.derived[own].latest == Some(sample.value) && after.derived[own].device_id
                == sample.device_id
            &&& placed != Placed::Sensor(i as usize) ==> after.sensors[i] == d.sensors[i]
            &&& placed != Placed::Tcp(i as usize) ==> after.tcp_sensors[i] == d.tcp_sensors[i]
            &&& placed != Placed::Derived || key != own ==> (after.derived.contains_key(key)
                <==> d.derived.contains_key(key)) && (d.derived.contains_key(key)
                ==> after.derived[key] == d.derived[key])
        }),
{
}

/// The extremes of values are two of them, and no value that is a number lies outside; there
/// are none only where no value is a number.
pub proof fn law_extremes(values: Seq<Real>, i: int)
    requires
        0 <= i < values.len(),
    ensures
        match extremes(values) {
            Some((low, high)) => {
                &&& !low.is_nan()
                &&& !high.is_nan()
                &&& high.at_least(low)
                &&& values.contains(low)
                &&& values.contains(high)
                &&& !values[i].is_nan() ==> values[i].at_least(low) && high.at_least(values[i])
            },
            None => values[i].is_nan(),
        },
    decreases values.len(),
{
    let front = values.drop_last();
    assert(values[values.len() - 1] == values.last());
    if front.len() > 0 {
        let j = if i < front.len() {
            i
        } else {
            0
        };
        law_extremes(front, j);
        assert(front[j] == values[j]);
        if let Some((low, high)) = extremes(front) {
            let a = choose|a: int| 0 <= a < front.len() && front[a] == low;
            let b = choose|b: int| 0 <= b < front.len() && front[b] == high;
            assert(values[a] == low && values[b] == high);
        }
    } else {
        assert(extremes(front) is None);
    }
}

} // verus!
