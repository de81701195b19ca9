//! Recorded samples: reading them from an export file, and playing them back at the pace at
//! which they came.
use vstd::prelude::*;

use crate::bytes_value;
use crate::fault::{Fault, FaultData};
use crate::text;
use crate::text::{FloatFault, IntFault};
use crate::transport::can;
use crate::transport::can::CanTxFrame;

verus! {

/// How much of a recording is played back, in milliseconds.
pub const REPLAY_WINDOW_MS: i64 = 30_000;

/// Something that happened at a moment.
#[derive(Debug)]
pub struct Timed<T> {
    pub ts_ms: i64,
    pub item: T,
}

/// A list with one more entry, behind all entries that are not later.
pub open spec fn inserted<T>(s: Seq<Timed<T>>, row: Timed<T>) -> Seq<Timed<T>>
    decreases s.len(),
{
    if s.len() == 0 || s.last().ts_ms <= row.ts_ms {
        s.push(row)
    } else {
        inserted(s.drop_last(), row).push(s.last())
    }
}

/// A list in the order of time; entries of one moment stay as they were.
pub open spec fn in_time_order<T>(s: Seq<Timed<T>>) -> Seq<Timed<T>>
    decreases s.len(),
{
    if s.len() == 0 {
        Seq::empty()
    } else {
        inserted(in_time_order(s.drop_last()), s.last())
    }
}

/// Whether no entry is later than one behind it.
pub open spec fn is_sorted<T>(s: Seq<Timed<T>>) -> bool {
    forall|i: int, j: int| 0 <= i <= j < s.len() ==> (#[trigger] s[i]).ts_ms <= (#[trigger] s[j]).ts_ms
}

/// Sorting puts the entries in the order of time, and neither loses nor adds any.
pub proof fn law_in_time_order<T>(s: Seq<Timed<T>>)
    ensures
        is_sorted(in_time_order(s)),
        in_time_order(s).to_multiset() == s.to_multiset(),
        in_time_order(s).len() == s.len(),
    decreases s.len(),
{
    broadcast use vstd::seq_lib::group_to_multiset_ensures;

    if s.len() > 0 {
        law_in_time_order(s.drop_last());
        lemma_inserted(in_time_order(s.drop_last()), s.last());
        assert(s =~= s.drop_last().push(s.last()));
    }
}

proof fn lemma_inserted<T>(s: Seq<Timed<T>>, row: Timed<T>)
    requires
        is_sorted(s),
    ensures
        is_sorted(inserted(s, row)),
        inserted(s, row).to_multiset() == s.to_multiset().insert(row),
        inserted(s, row).len() == s.len() + 1,
        forall|i: int|
            0 <= i < inserted(s, row).len() ==> (#[trigger] inserted(s, row)[i]).ts_ms <= if s.len()
                > 0 && s.last().ts_ms > row.ts_ms {
                s.last().ts_ms
            } else {
                row.ts_ms
            },
    decreases s.len(),
{
    broadcast use vstd::seq_lib::group_to_multiset_ensures;

    if s.len() == 0 || s.last().ts_ms <= row.ts_ms {
    } else {
        let shorter = s.drop_last();
        lemma_inserted(shorter, row);
        let front = inserted(shorter, row);
        assert(s =~= shorter.push(s.last()));
        assert(front.push(s.last()).to_multiset() =~= s.to_multiset().insert(row));
        assert forall|i: int, j: int| 0 <= i <= j < inserted(s, row).len() implies (#[trigger] inserted(
            s,
            row,
        )[i]).ts_ms <= (#[trigger] inserted(s, row)[j]).ts_ms by {
            if shorter.len() > 0 {
                assert(shorter.last().ts_ms <= s.last().ts_ms);
            }
            if i < front.len() {
                assert(inserted(s, row)[i] == front[i]);
            }
            if j < front.len() {
                assert(inserted(s, row)[j] == front[j]);
            }
        }
    }
}

/// Adds an entry in the order of time.
fn insert_row<T>(rows: &mut Vec<Timed<T>>, row: Timed<T>)
    ensures
        final(rows)@ == inserted(old(rows)@, row),
{
    let ghost before = rows@;
    let mut at: usize = rows.len();
    proof {
        assert(before.take(at as int) =~= before);
        assert(before.skip(at as int) =~= Seq::<Timed<T>>::empty());
        assert(inserted(before, row) =~= inserted(before.take(at as int), row) + before.skip(
            at as int,
        ));
    }
    while at > 0 && rows[at - 1].ts_ms > row.ts_ms
        invariant
            at <= rows@.len(),
            rows@ == before,
            inserted(before, row) == inserted(before.take(at as int), row) + before.skip(
                at as int,
            ),
        decreases at,
    {
        proof {
            let head = before.take(at as int);
            assert(head.drop_last() =~= before.take(at - 1));
            assert(inserted(head, row) + before.skip(at as int) =~= inserted(
                before.take(at - 1),
                row,
            ) + before.skip(at - 1)) by {
                assert(head.last() == before[at - 1]);
                assert(before.skip(at - 1) =~= seq![before[at - 1]] + before.skip(at as int));
            }
        }
        at = at - 1;
    }
    rows.insert(at, row);
    proof {
        assert(rows@ =~= before.take(at as int).push(row) + before.skip(at as int));
    }
}

/// A recorded sample that is sent again.
#[derive(Debug)]
pub struct ReplayRow {
    /// The value in its notation.
    pub value: String,
    pub request_id: u64,
}

/// A recorded sample that goes out on the CAN bus again.
#[derive(Debug)]
pub struct CanExportRow {
    pub identifier: u32,
    /// The value in its notation.
    pub value: String,
}

/// Why a recording cannot be read. Lines are counted from one.
#[derive(Debug)]
pub enum RowError {
    TooFewColumns { line_no: u64, line: String },
    BadTimestamp { line_no: u64, cause: IntFault },
    BadAxis { line_no: u64, axis: String },
    BadValue { line_no: u64, reason: FloatFault },
    BadRequestId { line_no: u64, cause: IntFault },
}

/// Why a recording cannot be read.
pub ghost enum RowErrorData {
    TooFewColumns { line_no: nat, line: Seq<char> },
    BadTimestamp { line_no: nat, cause: IntFault },
    BadAxis { line_no: nat, axis: Seq<char> },
    BadValue { line_no: nat, reason: FloatFault },
    BadRequestId { line_no: nat, cause: IntFault },
}

impl View for RowError {
    type V = RowErrorData;

    open spec fn view(&self) -> RowErrorData {
        match self {
            RowError::TooFewColumns { line_no, line } => RowErrorData::TooFewColumns {
                line_no: *line_no as nat,
                line: line@,
            },
            RowError::BadTimestamp { line_no, cause } => RowErrorData::BadTimestamp {
                line_no: *line_no as nat,
                cause: *cause,
            },
            RowError::BadAxis { line_no, axis } => RowErrorData::BadAxis {
                line_no: *line_no as nat,
                axis: axis@,
            },
            RowError::BadValue { line_no, reason } => RowErrorData::BadValue {
                line_no: *line_no as nat,
                reason: *reason,
            },
            RowError::BadRequestId { line_no, cause } => RowErrorData::BadRequestId {
                line_no: *line_no as nat,
                cause: *cause,
            },
        }
    }
}

impl RowErrorData {
    /// The error as it is reported; `what` names the kind of row.
    pub open spec fn fault(self, what: Seq<char>) -> FaultData {
        match self {
            RowErrorData::TooFewColumns { line_no, line } => FaultData::plain(
                "invalid "@ + what + " row at line "@ + text::decimal(line_no) + ": "@ + line,
            ),
            RowErrorData::BadTimestamp { line_no, cause } => FaultData::caused(
                "invalid ts_ms at line "@ + text::decimal(line_no),
                cause.text(),
            ),
            RowErrorData::BadAxis { line_no, axis } => FaultData::plain(
                "invalid axis '"@ + axis + "' at line "@ + text::decimal(line_no),
            ),
            RowErrorData::BadValue { line_no, reason } => FaultData::caused(
                "invalid value at line "@ + text::decimal(line_no),
                reason.text(),
            ),
            RowErrorData::BadRequestId { line_no, cause } => FaultData::caused(
                "invalid request_id at line "@ + text::decimal(line_no),
                cause.text(),
            ),
        }
    }
}

impl RowError {
    /// The error as it is reported, with its cause.
    pub fn to_fault(&self, what: &str) -> (r: Fault)
        ensures
            r@ == self@.fault(what@),
    {
        match self {
            RowError::TooFewColumns { line_no, line } => {
                let mut r = text::owned("invalid ");
                text::push_text(&mut r, what);
                text::push_text(&mut r, " row at line ");
                text::push_decimal(&mut r, *line_no);
                text::push_text(&mut r, ": ");
                text::push_text(&mut r, line.as_str());
                Fault::plain(r)
            },
            RowError::BadTimestamp { line_no, cause } => {
                let mut r = text::owned("invalid ts_ms at line ");
                text::push_decimal(&mut r, *line_no);
                Fault::caused(r, cause.as_str())
            },
            RowError::BadAxis { line_no, axis } => {
                let mut r = text::owned("invalid axis '");
                text::push_text(&mut r, axis.as_str());
                text::push_text(&mut r, "' at line ");
                text::push_decimal(&mut r, *line_no);
                Fault::plain(r)
            },
            RowError::BadValue { line_no, reason } => {
                let mut r = text::owned("invalid value at line ");
                text::push_decimal(&mut r, *line_no);
                Fault::caused(r, reason.as_str())
            },
            RowError::BadRequestId { line_no, cause } => {
                let mut r = text::owned("invalid request_id at line ");
                text::push_decimal(&mut r, *line_no);
                Fault::caused(r, cause.as_str())
            },
        }
    }

    /// The error in one line, with its cause.
    pub fn to_text(&self, what: &str) -> (r: String)
        ensures
            r@ == self@.fault(what@).text(),
    {
        self.to_fault(what).to_text()
    }
}

/// A line that says nothing about samples: empty, a remark, or the head of the columns.
pub open spec fn is_remark(line: Seq<char>) -> bool {
    line.len() == 0 || text::begins_with(line, "#"@) || text::begins_with(line, "ts_ms\t"@)
}

/// What a line gives.
pub ghost enum LineData<T> {
    Nothing,
    Row(i64, T),
    Bad(RowErrorData),
}

/// What a line gives of a recording of which the y axis is played back: the value, in its
/// notation, and the request id.
pub open spec fn replay_line(raw: Seq<char>, line_no: nat) -> LineData<(Seq<char>, u64)> {
    let line = text::trimmed(raw);
    let cols = text::split_on(line, '\t');
    if is_remark(line) {
        LineData::Nothing
    } else if cols.len() < 5 {
        LineData::Bad(RowErrorData::TooFewColumns { line_no, line })
    } else if text::trimmed(cols[2]) != "y"@ {
        LineData::Nothing
    } else if text::parsed_signed(cols[0]) is None {
        LineData::Bad(
            RowErrorData::BadTimestamp { line_no, cause: text::signed_fault(cols[0])->0 },
        )
    } else if !text::is_float(cols[3]) {
        LineData::Bad(
            RowErrorData::BadValue { line_no, reason: text::float_fault(cols[3])->0 },
        )
    } else if text::parsed_unsigned(cols[4], u64::MAX as nat) is None {
        LineData::Bad(
            RowErrorData::BadRequestId {
                line_no,
                cause: text::unsigned_fault(cols[4], u64::MAX as nat)->0,
            },
        )
    } else {
        LineData::Row(
            text::parsed_signed(cols[0])->0 as i64,
            (cols[3], text::parsed_unsigned(cols[4], u64::MAX as nat)->0 as u64),
        )
    }
}

/// The CAN identifier of an axis.
pub open spec fn axis_identifier(axis: Seq<char>) -> Option<u32> {
    if axis == "x"@ {
        Some(0x100)
    } else if axis == "y"@ {
        Some(0x102)
    } else if axis == "z"@ {
        Some(0x104)
    } else {
        None
    }
}

/// What a line gives of a recording that is played back on the CAN bus: the identifier of
/// the axis, and the value in its notation.
pub open spec fn can_line(raw: Seq<char>, line_no: nat) -> LineData<(u32, Seq<char>)> {
    let line = text::trimmed(raw);
    let cols = text::split_on(line, '\t');
    if is_remark(line) {
        LineData::Nothing
    } else if cols.len() < 5 {
        LineData::Bad(RowErrorData::TooFewColumns { line_no, line })
    } else if text::parsed_signed(cols[0]) is None {
        LineData::Bad(
            RowErrorData::BadTimestamp { line_no, cause: text::signed_fault(cols[0])->0 },
        )
    } else if axis_identifier(text::trimmed(cols[2])) is None {
        LineData::Bad(RowErrorData::BadAxis { line_no, axis: text::trimmed(cols[2]) })
    } else if !text::is_float(cols[3]) {
        LineData::Bad(
            RowErrorData::BadValue { line_no, reason: text::float_fault(cols[3])->0 },
        )
    } else {
        LineData::Row(
            text::parsed_signed(cols[0])->0 as i64,
            (axis_identifier(text::trimmed(cols[2]))->0, cols[3]),
        )
    }
}

/// What several lines give: their rows, or the first error.
pub open spec fn lines_rows<T>(
    lines: Seq<Seq<char>>,
    line_data: spec_fn(Seq<char>, nat) -> LineData<T>,
) -> Result<Seq<(i64, T)>, RowErrorData>
    decreases lines.len(),
{
    if lines.len() == 0 {
        Ok(Seq::empty())
    } else {
        match lines_rows(lines.drop_last(), line_data) {
            Err(error) => Err(error),
            Ok(rows) => match line_data(lines.last(), lines.len()) {
                LineData::Nothing => Ok(rows),
                LineData::Row(ts_ms, item) => Ok(rows.push((ts_ms, item))),
                LineData::Bad(error) => Err(error),
            },
        }
    }
}

/// One line more gives one row more, or none.
pub proof fn lemma_line_added<T>(
    lines: Seq<Seq<char>>,
    line_data: spec_fn(Seq<char>, nat) -> LineData<T>,
    rows: Seq<(i64, T)>,
)
    requires
        lines.len() > 0,
        lines_rows(lines.drop_last(), line_data) == Ok::<Seq<(i64, T)>, RowErrorData>(rows),
    ensures
        line_data(lines.last(), lines.len()) is Nothing ==> lines_rows(lines, line_data) == Ok::<
            Seq<(i64, T)>,
            RowErrorData,
        >(rows),
        line_data(lines.last(), lines.len()) matches LineData::Row(ts_ms, item) ==> lines_rows(
            lines,
            line_data,
        ) == Ok::<Seq<(i64, T)>, RowErrorData>(rows.push((ts_ms, item))),
{
}

proof fn lemma_first_error<T>(
    lines: Seq<Seq<char>>,
    line_data: spec_fn(Seq<char>, nat) -> LineData<T>,
    n: int,
)
    requires
        0 <= n <= lines.len(),
        lines_rows(lines.take(n), line_data) is Err,
    ensures
        lines_rows(lines, line_data) == lines_rows(lines.take(n), line_data),
    decreases lines.len(),
{
    if n < lines.len() {
        assert(lines.drop_last().take(n) =~= lines.take(n));
        lemma_first_error(lines.drop_last(), line_data, n);
    } else {
        assert(lines.take(n) =~= lines);
    }
}

pub open spec fn replay_line_fn() -> spec_fn(Seq<char>, nat) -> LineData<(Seq<char>, u64)> {
    |raw: Seq<char>, line_no: nat| replay_line(raw, line_no)
}

pub open spec fn can_line_fn() -> spec_fn(Seq<char>, nat) -> LineData<(u32, Seq<char>)> {
    |raw: Seq<char>, line_no: nat| can_line(raw, line_no)
}

/// What rows of the y axis say.
pub open spec fn replay_data(rows: Seq<Timed<ReplayRow>>) -> Seq<(i64, (Seq<char>, u64))> {
    rows.map_values(|row: Timed<ReplayRow>| (row.ts_ms, (row.item.value@, row.item.request_id)))
}

/// What rows for the CAN bus say.
pub open spec fn can_row_data(rows: Seq<Timed<CanExportRow>>) -> Seq<(i64, (u32, Seq<char>))> {
    rows.map_values(|row: Timed<CanExportRow>| (row.ts_ms, (row.item.identifier, row.item.value@)))
}

fn remark(line: &[char]) -> (r: bool)
    ensures
        r == is_remark(line@),
{
    let s: String = text::string_of(line);
    line.len() == 0 || text::starts_with(s.as_str(), "#") || text::starts_with(
        s.as_str(),
        "ts_ms\t",
    )
}

enum ParsedLine<T> {
    Nothing,
    Row(i64, T),
    Bad(RowError),
}

fn parse_replay_line(raw: &[char], line_no: u64) -> (r: ParsedLine<ReplayRow>)
    ensures
        match r {
            ParsedLine::Nothing => replay_line(raw@, line_no as nat) is Nothing,
            ParsedLine::Row(ts_ms, row) => replay_line(raw@, line_no as nat) == LineData::Row(
                ts_ms,
                (row.value@, row.request_id),
            ),
            ParsedLine::Bad(error) => replay_line(raw@, line_no as nat)
                == LineData::<(Seq<char>, u64)>::Bad(error@),
        },
{
    let line: &[char] = text::trim(raw);
    if remark(line) {
        return ParsedLine::Nothing;
    }
    let cols: Vec<Vec<char>> = text::split(line, '\t');
    let ghost views = text::views(cols@);
    proof {
        assert(views.len() == cols@.len());
    }
    if cols.len() < 5 {
        return ParsedLine::Bad(RowError::TooFewColumns { line_no, line: text::string_of(line) });
    }
    proof {
        assert(views[0] == cols@[0]@ && views[2] == cols@[2]@ && views[3] == cols@[3]@ && views[4]
            == cols@[4]@);
    }
    let axis: &[char] = text::trim(cols[2].as_slice());
    if !text::same_chars(axis, text::chars_of("y").as_slice()) {
        return ParsedLine::Nothing;
    }
    let ts_ms: i64 = match text::read_signed(cols[0].as_slice()) {
        Ok(ts_ms) => ts_ms,
        Err(cause) => {
            return ParsedLine::Bad(RowError::BadTimestamp { line_no, cause });
        },
    };
    if let Err(reason) = text::read_float(cols[3].as_slice()) {
        return ParsedLine::Bad(RowError::BadValue { line_no, reason });
    }
    let request_id: u64 = match text::read_unsigned(cols[4].as_slice(), u64::MAX) {
        Ok(request_id) => request_id,
        Err(cause) => {
            return ParsedLine::Bad(RowError::BadRequestId { line_no, cause });
        },
    };
    ParsedLine::Row(
        ts_ms,
        ReplayRow { value: text::string_of(cols[3].as_slice()), request_id },
    )
}

fn parse_can_line(raw: &[char], line_no: u64) -> (r: ParsedLine<CanExportRow>)
    ensures
        match r {
            ParsedLine::Nothing => can_line(raw@, line_no as nat) is Nothing,
            ParsedLine::Row(ts_ms, row) => can_line(raw@, line_no as nat) == LineData::Row(
                ts_ms,
                (row.identifier, row.value@),
            ),
            ParsedLine::Bad(error) => can_line(raw@, line_no as nat)
                == LineData::<(u32, Seq<char>)>::Bad(error@),
        },
{
    let line: &[char] = text::trim(raw);
    if remark(line) {
        return ParsedLine::Nothing;
    }
    let cols: Vec<Vec<char>> = text::split(line, '\t');
    let ghost views = text::views(cols@);
    proof {
        assert(views.len() == cols@.len());
    }
    if cols.len() < 5 {
        return ParsedLine::Bad(RowError::TooFewColumns { line_no, line: text::string_of(line) });
    }
    proof {
        assert(views[0] == cols@[0]@ && views[2] == cols@[2]@ && views[3] == cols@[3]@);
    }
    let ts_ms: i64 = match text::read_signed(cols[0].as_slice()) {
        Ok(ts_ms) => ts_ms,
        Err(cause) => {
            return ParsedLine::Bad(RowError::BadTimestamp { line_no, cause });
        },
    };
    let axis: &[char] = text::trim(cols[2].as_slice());
    let identifier: u32 = if text::same_chars(axis, text::chars_of("x").as_slice()) {
        0x100
    } else if text::same_chars(axis, text::chars_of("y").as_slice()) {
        0x102
    } else if text::same_chars(axis, text::chars_of("z").as_slice()) {
        0x104
    } else {
        return ParsedLine::Bad(RowError::BadAxis { line_no, axis: text::string_of(axis) });
    };
    if let Err(reason) = text::read_float(cols[3].as_slice()) {
        return ParsedLine::Bad(RowError::BadValue { line_no, reason });
    }
    ParsedLine::Row(
        ts_ms,
        CanExportRow { identifier, value: text::string_of(cols[3].as_slice()) },
    )
}

/// The rows of a recording of the y axis, in the order of time; or the first error.
pub fn parse_replay_file(source: &str) -> (r: Result<Vec<Timed<ReplayRow>>, RowError>)
    ensures
        match lines_rows(text::split_on(source@, '\n'), replay_line_fn()) {
            Ok(rows) => r is Ok && exists|found: Seq<Timed<ReplayRow>>|
                replay_data(found) == rows && r->Ok_0@ == #[trigger] in_time_order(found),
            Err(error) => r is Err && r->Err_0@ == error,
        },
{
    let chars: Vec<char> = text::chars_of(source);
    let lines: Vec<Vec<char>> = text::split(chars.as_slice(), '\n');
    let ghost all = text::views(lines@);
    let mut rows: Vec<Timed<ReplayRow>> = Vec::new();
    let ghost mut found: Seq<Timed<ReplayRow>> = Seq::empty();
    proof {
        assert(replay_data(found) =~= Seq::<(i64, (Seq<char>, u64))>::empty());
        assert(in_time_order(found) =~= rows@);
    }
    for i in 0..lines.len()
        invariant
            all == text::views(lines@),
            all == text::split_on(source@, '\n'),
            lines_rows(all.take(i as int), replay_line_fn()) == Ok::<
                Seq<(i64, (Seq<char>, u64))>,
                RowErrorData,
            >(replay_data(found)),
            rows@ == in_time_order(found),
    {
        proof {
            assert(all.take(i + 1).drop_last() =~= all.take(i as int));
            assert(all.take(i + 1).last() == lines@[i as int]@);
        }
        match parse_replay_line(lines[i].as_slice(), i as u64 + 1) {
            ParsedLine::Nothing => {},
            ParsedLine::Row(ts_ms, item) => {
                let row = Timed { ts_ms, item };
                let ghost before = replay_data(found);
                proof {
                    assert(found.push(row).drop_last() =~= found);
                    found = found.push(row);
                    assert(replay_data(found) =~= before.push(
                        (ts_ms, (item.value@, item.request_id)),
                    ));
                }
                insert_row(&mut rows, row);
            },
            ParsedLine::Bad(error) => {
                proof {
                    lemma_first_error(all, replay_line_fn(), i + 1);
                }
                return Err(error);
            },
        }
    }
    proof {
        assert(all.take(lines@.len() as int) =~= all);
    }
    Ok(rows)
}

/// The rows of a recording for the CAN bus, in the order of time; or the first error.
pub fn parse_can_export_file(source: &str) -> (r: Result<Vec<Timed<CanExportRow>>, RowError>)
    ensures
        match lines_rows(text::split_on(source@, '\n'), can_line_fn()) {
            Ok(rows) => r is Ok && exists|found: Seq<Timed<CanExportRow>>|
                can_row_data(found) == rows && r->Ok_0@ == #[trigger] in_time_order(found),
            Err(error) => r is Err && r->Err_0@ == error,
        },
{
    let chars: Vec<char> = text::chars_of(source);
    let lines: Vec<Vec<char>> = text::split(chars.as_slice(), '\n');
    let ghost all = text::views(lines@);
    let mut rows: Vec<Timed<CanExportRow>> = Vec::new();
    let ghost mut found: Seq<Timed<CanExportRow>> = Seq::empty();
    proof {
        assert(can_row_data(found) =~= Seq::<(i64, (u32, Seq<char>))>::empty());
        assert(in_time_order(found) =~= rows@);
    }
    for i in 0..lines.len()
        invariant
            all == text::views(lines@),
            all == text::split_on(source@, '\n'),
            lines_rows(all.take(i as int), can_line_fn()) == Ok::<
                Seq<(i64, (u32, Seq<char>))>,
                RowErrorData,
            >(can_row_data(found)),
            rows@ == in_time_order(found),
    {
        proof {
            assert(all.take(i + 1).drop_last() =~= all.take(i as int));
            assert(all.take(i + 1).last() == lines@[i as int]@);
        }
        match parse_can_line(lines[i].as_slice(), i as u64 + 1) {
            ParsedLine::Nothing => {},
            ParsedLine::Row(ts_ms, item) => {
                let row = Timed { ts_ms, item };
                let ghost before = can_row_data(found);
                proof {
                    assert(found.push(row).drop_last() =~= found);
                    found = found.push(row);
                    assert(can_row_data(found) =~= before.push(
                        (ts_ms, (item.identifier, item.value@)),
                    ));
                }
                insert_row(&mut rows, row);
            },
            ParsedLine::Bad(error) => {
                proof {
                    lemma_first_error(all, can_line_fn(), i + 1);
                }
                return Err(error);
            },
        }
    }
    proof {
        assert(all.take(lines@.len() as int) =~= all);
    }
    Ok(rows)
}

/// How many of the rows, from the first on, lie in the window that is played back.
pub fn rows_in_window<T>(rows: &Vec<Timed<T>>) -> (r: usize)
    requires
        is_sorted(rows@),
    ensures
        r <= rows@.len(),
        forall|i: int|
            0 <= i < rows@.len() ==> (i < r <==> (#[trigger] rows@[i]).ts_ms <= rows@[0].ts_ms
                + REPLAY_WINDOW_MS),
{
    if rows.len() == 0 {
        return 0;
    }
    let end: i128 = rows[0].ts_ms as i128 + REPLAY_WINDOW_MS as i128;
    let mut n: usize = 0;
    while n < rows.len() && rows[n].ts_ms as i128 <= end
        invariant
            n <= rows@.len(),
            rows@.len() > 0,
            end == rows@[0].ts_ms + REPLAY_WINDOW_MS,
            forall|i: int| 0 <= i < n ==> (#[trigger] rows@[i]).ts_ms <= end,
        decreases rows@.len() - n,
    {
        n = n + 1;
    }
    proof {
        assert forall|i: int| 0 <= i < rows@.len() implies (i < n <==> (#[trigger] rows@[i]).ts_ms
            <= end) by {
            if i >= n {
                assert(rows@[n as int].ts_ms <= rows@[i].ts_ms);
            }
        }
    }
    n
}

/// How long to wait before a row, in milliseconds: as long as it came after the one before
/// it, or not at all.
pub open spec fn wait_ms(last_ts_ms: i64, ts_ms: i64) -> int {
    if ts_ms > last_ts_ms {
        ts_ms - last_ts_ms
    } else {
        0
    }
}

pub fn delay_ms(last_ts_ms: i64, ts_ms: i64) -> (r: u64)
    ensures
        r == wait_ms(last_ts_ms, ts_ms),
{
    if ts_ms > last_ts_ms {
        (ts_ms as i128 - last_ts_ms as i128) as u64
    } else {
        0
    }
}

/// The waits before several rows in a row, all together.
pub open spec fn total_wait<T>(rows: Seq<Timed<T>>) -> int
    decreases rows.len(),
{
    if rows.len() <= 1 {
        0
    } else {
        total_wait(rows.drop_last()) + wait_ms(
            rows[rows.len() - 2].ts_ms,
            rows[rows.len() - 1].ts_ms,
        )
    }
}

/// Playing back takes as long as the recording did: the waits add up to the time between the
/// first row and the last.
pub proof fn law_replay_keeps_time<T>(rows: Seq<Timed<T>>)
    requires
        is_sorted(rows),
        rows.len() > 0,
    ensures
        total_wait(rows) == rows.last().ts_ms - rows[0].ts_ms,
    decreases rows.len(),
{
    if rows.len() > 1 {
        law_replay_keeps_time(rows.drop_last());
        assert(rows[rows.len() - 2].ts_ms <= rows[rows.len() - 1].ts_ms);
    }
}

/// Whether progress is reported: the first five times and every two hundredth time.
pub fn reports_progress(count: u64) -> (r: bool)
    ensures
        r == (count <= 5 || count % 200 == 0),
{
    count <= 5 || count % 200 == 0
}

/// The axis that an identifier on the CAN bus stands for.
pub open spec fn axis_name(identifier: u32) -> Seq<char> {
    if identifier == 0x100 {
        "x"@
    } else if identifier == 0x102 {
        "y"@
    } else if identifier == 0x104 {
        "z"@
    } else {
        "?"@
    }
}

fn axis_label(identifier: u32) -> (r: &'static str)
    ensures
        r@ == axis_name(identifier),
{
    match identifier {
        0x100 => "x",
        0x102 => "y",
        0x104 => "z",
        _ => "?",
    }
}

/// The axis of an identifier is the one that the identifier was chosen for.
pub proof fn law_axis_identifiers(axis: Seq<char>)
    requires
        axis_identifier(axis) is Some,
    ensures
        axis_name(axis_identifier(axis)->0) == axis,
{
}

/// Whether a frame carries a recorded value: the value's four bytes, most significant first,
/// and four zeros.
pub open spec fn carries(frame: CanTxFrame, identifier: u32, value: i32) -> bool {
    &&& frame.channel == 0
    &&& frame.identifier == identifier
    &&& !frame.is_extended
    &&& frame.dlc == 8
    &&& frame.data@ == can::padded(
        bytes_value::be_bytes((value as int % 0x1_0000_0000) as nat, 4) + seq![0u8, 0, 0, 0],
    )
}

/// The frame for a recorded value.
pub fn export_frame(identifier: u32, value: i32) -> (r: CanTxFrame)
    ensures
        carries(r, identifier, value),
{
    let v: u32 = if value < 0 {
        (value as i64 + 0x1_0000_0000) as u32
    } else {
        value as u32
    };
    let data: [u8; 8] = [
        (v / 0x100_0000) as u8,
        (v / 0x1_0000 % 256) as u8,
        (v / 256 % 256) as u8,
        (v % 256) as u8,
        0,
        0,
        0,
        0,
    ];
    proof {
        reveal_with_fuel(bytes_value::be_bytes, 5);
        assert(v == value as int % 0x1_0000_0000);
        let bytes = bytes_value::be_bytes(v as nat, 4);
        assert(v as nat / 256 / 256 == v / 0x1_0000);
        assert(v as nat / 256 / 256 / 256 == v / 0x100_0000);
        assert(bytes =~= data@.take(4));
        assert(data@ =~= bytes + seq![0u8, 0, 0, 0]);
    }
    CanTxFrame::new(0, identifier, 8, data)
}

/// What is sent of a recorded value, the receiver reads back as that axis and value.
pub proof fn law_export_frame_arrives(sent: CanTxFrame, received: can::CanFrame, axis: Seq<char>, value: i32)
    requires
        axis_identifier(axis) is Some,
        carries(sent, axis_identifier(axis)->0, value),
        received.identifier == sent.identifier,
        received.dlc == sent.dlc,
        received.data == sent.data,
    ensures
        crate::ingress::can::axis_of(received) == Some(
            (
                if axis == "x"@ {
                    0usize
                } else if axis == "y"@ {
                    1usize
                } else {
                    2usize
                },
                value,
            ),
        ),
{
    let v = (value as int % 0x1_0000_0000) as nat;
    bytes_value::lemma_pow256();
    bytes_value::law_be_round_trip(v, 4);
    let bytes = bytes_value::be_bytes(v, 4);
    assert(received.payload().take(4) =~= bytes);
    assert(crate::ingress::can::signed32(v) == value);
}

/// What is logged of a recorded value that has been sent.
pub fn export_log(sent_frames: u64, ts_ms: i64, identifier: u32, value: i32) -> (r: String)
    ensures
        r@ == "CAN export sent row="@ + text::decimal(sent_frames as nat) + " axis="@ + axis_name(
            identifier,
        ) + " ts_ms="@ + text::decimal_int(ts_ms as int) + " value="@ + text::decimal_int(
            value as int,
        ) + " id=0x"@ + text::hex(identifier as nat),
{
    let mut r = text::owned("CAN export sent row=");
    text::push_decimal(&mut r, sent_frames);
    text::push_text(&mut r, " axis=");
    text::push_text(&mut r, axis_label(identifier));
    text::push_text(&mut r, " ts_ms=");
    text::push_decimal_int(&mut r, ts_ms);
    text::push_text(&mut r, " value=");
    text::push_decimal_int(&mut r, value as i64);
    text::push_text(&mut r, " id=0x");
    text::push_hex(&mut r, identifier as u64);
    r
}

// ---- what holds of all lines ----

/// A line of a recording gives a row exactly where it is no remark, has five columns, is of the
/// axis y, and its first, fourth and fifth columns are a time, a number and a request: those
/// are the row's.
pub proof fn law_replay_line(raw: Seq<char>, line_no: nat, ts_ms: i64, value: Seq<char>, id: u64)
    ensures
        ({
            let line = text::trimmed(raw);
            let cols = text::split_on(line, '\t');
            &&& replay_line(raw, line_no) == LineData::Row(ts_ms, (value, id)) <==> {
                &&& !is_remark(line)
                &&& cols.len() >= 5
                &&& text::trimmed(cols[2]) == "y"@
                &&& text::parsed_signed(cols[0]) == Some(ts_ms as int)
                &&& cols[3] == value
                &&& text::is_float(value)
                &&& text::parsed_unsigned(cols[4], u64::MAX as nat) == Some(id as nat)
            }
            &&& replay_line(raw, line_no) is Nothing <==> is_remark(line) || (cols.len() >= 5
                && text::trimmed(cols[2]) != "y"@)
            &&& !is_remark(line) && cols.len() < 5 ==> replay_line(raw, line_no) == LineData::<
                (Seq<char>, u64),
            >::Bad(RowErrorData::TooFewColumns { line_no, line })
        }),
{
}

/// A line of an export gives a row exactly where it is no remark, has five columns, and its
/// first, third and fourth columns are a time, an axis and a number; the row has the axis's
/// identifier.
pub proof fn law_can_line(raw: Seq<char>, line_no: nat, ts_ms: i64, identifier: u32, value: Seq<char>)
    ensures
        ({
            let line = text::trimmed(raw);
            let cols = text::split_on(line, '\t');
            let axis = text::trimmed(cols[2]);
            &&& can_line(raw, line_no) == LineData::Row(ts_ms, (identifier, value)) <==> {
                &&& !is_remark(line)
                &&& cols.len() >= 5
                &&& text::parsed_signed(cols[0]) == Some(ts_ms as int)
                &&& axis == "x"@ && identifier == 0x100 || axis == "y"@ && identifier == 0x102
                    || axis == "z"@ && identifier == 0x104
                &&& cols[3] == value
                &&& text::is_float(value)
            }
            &&& can_line(raw, line_no) is Nothing <==> is_remark(line)
        }),
{
    reveal_strlit("x");
    reveal_strlit("y");
    reveal_strlit("z");
    assert("x"@[0] != "y"@[0] && "y"@[0] != "z"@[0] && "x"@[0] != "z"@[0]);
}

/// A line is a remark where it is empty, begins with a hash, or is the line of the column
/// names.
pub proof fn law_remarks(rest: Seq<char>, line: Seq<char>)
    ensures
        is_remark(Seq::empty()),
        is_remark(seq!['#'] + rest),
        is_remark("ts_ms\t"@ + rest),
        line.len() > 0 && line[0] != '#' && line[0] != 't' ==> !is_remark(line),
{
    reveal_strlit("#");
    reveal_strlit("ts_ms\t");
    assert((seq!['#'] + rest).take(1) =~= "#"@);
    assert(("ts_ms\t"@ + rest).take(6) =~= "ts_ms\t"@);
    if line.len() > 0 && line[0] != '#' && line[0] != 't' {
        assert(line.take(1)[0] != "#"@[0]);
        if line.len() >= 6 {
            assert(line.take(6)[0] != "ts_ms\t"@[0]);
        }
    }
}

/// Rows are taken from all lines, in their order, or the first line at fault is told: a file
/// gives rows exactly where no line is at fault, and then no more than it has lines.
pub proof fn law_lines_rows<T>(
    lines: Seq<Seq<char>>,
    line_data: spec_fn(Seq<char>, nat) -> LineData<T>,
    i: int,
)
    requires
        0 <= i < lines.len(),
    ensures
        lines_rows(lines, line_data) matches Ok(rows) ==> {
            &&& rows.len() <= lines.len()
            &&& !(line_data(lines[i], (i + 1) as nat) is Bad)
            &&& line_data(lines[i], (i + 1) as nat) matches LineData::Row(ts_ms, item)
                ==> rows.contains((ts_ms, item))
        },
        lines_rows(lines, line_data) matches Err(error) ==> exists|k: int|
            0 <= k < lines.len() && line_data(#[trigger] lines[k], (k + 1) as nat)
                == LineData::<T>::Bad(error),
    decreases lines.len(),
{
    let front = lines.drop_last();
    assert(lines[lines.len() - 1] == lines.last());
    if front.len() > 0 {
        let j = if i < front.len() {
            i
        } else {
            0
        };
        law_lines_rows(front, line_data, j);
        assert(front[j] == lines[j]);
        if let Err(error) = lines_rows(front, line_data) {
            let k = choose|k: int|
                0 <= k < front.len() && line_data(#[trigger] front[k], (k + 1) as nat)
                    == LineData::<T>::Bad(error);
            assert(lines[k] == front[k]);
        }
    }
    if let Ok(rows) = lines_rows(lines, line_data) {
        let before = lines_rows(front, line_data)->Ok_0;
        if let LineData::Row(ts_ms, item) = line_data(lines[i], (i + 1) as nat) {
            if i < front.len() {
                let k = choose|k: int| 0 <= k < before.len() && before[k] == (ts_ms, item);
                assert(rows[k] == (ts_ms, item));
            } else {
                assert(rows[before.len() as int] == (ts_ms, item));
            }
        }
    }
}

/// A row is sent as long after the one before it as it was recorded after it, and at once where
/// it was not recorded later.
pub proof fn law_wait(last_ts_ms: i64, ts_ms: i64)
    ensures
        ts_ms >= last_ts_ms ==> last_ts_ms + wait_ms(last_ts_ms, ts_ms) == ts_ms,
        ts_ms <= last_ts_ms ==> wait_ms(last_ts_ms, ts_ms) == 0,
        REPLAY_WINDOW_MS == 30_000,
{
}

/// The words for a line at fault tell what is at fault and the number of the line.
pub proof fn law_row_error_texts(
    what: Seq<char>,
    line_no: nat,
    line: Seq<char>,
    cause: IntFault,
    reason: FloatFault,
)
    ensures
        (RowErrorData::TooFewColumns { line_no, line }).fault(what) == FaultData::plain(
            "invalid "@ + what + " row at line "@ + text::decimal(line_no) + ": "@ + line,
        ),
        (RowErrorData::BadTimestamp { line_no, cause }).fault(what) == FaultData::caused(
            "invalid ts_ms at line "@ + text::decimal(line_no),
            cause.text(),
        ),
        (RowErrorData::BadAxis { line_no, axis: line }).fault(what) == FaultData::plain(
            "invalid axis '"@ + line + "' at line "@ + text::decimal(line_no),
        ),
        (RowErrorData::BadValue { line_no, reason }).fault(what) == FaultData::caused(
            "invalid value at line "@ + text::decimal(line_no),
            reason.text(),
        ),
        (RowErrorData::BadRequestId { line_no, cause }).fault(what) == FaultData::caused(
            "invalid request_id at line "@ + text::decimal(line_no),
            cause.text(),
        ),
{
}

/// The rows that are read say what the lines say: time, value and request of a recording; time,
/// identifier and value of an export.
pub proof fn law_rows_say(
    rows: Seq<Timed<ReplayRow>>,
    exported: Seq<Timed<CanExportRow>>,
    i: int,
)
    ensures
        0 <= i < rows.len() ==> replay_data(rows)[i] == (
            rows[i].ts_ms,
            (rows[i].item.value@, rows[i].item.request_id),
        ),
        0 <= i < exported.len() ==> can_row_data(exported)[i] == (
            exported[i].ts_ms,
            (exported[i].item.identifier, exported[i].item.value@),
        ),
        replay_data(rows).len() == rows.len(),
        can_row_data(exported).len() == exported.len(),
{
}

/// The entries of one moment, in their order.
pub open spec fn of_moment<T>(s: Seq<Timed<T>>, ts_ms: i64) -> Seq<Timed<T>>
    decreases s.len(),
{
    if s.len() == 0 {
        Seq::empty()
    } else if s.last().ts_ms == ts_ms {
        of_moment(s.drop_last(), ts_ms).push(s.last())
    } else {
        of_moment(s.drop_last(), ts_ms)
    }
}

proof fn lemma_inserted_of_moment<T>(s: Seq<Timed<T>>, row: Timed<T>, ts_ms: i64)
    ensures
        of_moment(inserted(s, row), ts_ms) == of_moment(s.push(row), ts_ms),
    decreases s.len(),
{
    assert(s.push(row).drop_last() =~= s);
    if s.len() > 0 && s.last().ts_ms > row.ts_ms {
        let front = s.drop_last();
        let put = inserted(front, row);
        lemma_inserted_of_moment(front, row, ts_ms);
        assert(front.push(row).drop_last() =~= front);
        assert(put.push(s.last()).drop_last() =~= put);
        assert(put.push(s.last()).last() == s.last());
        assert(front.push(row).last() == row && s.push(row).last() == row);
        let before = of_moment(front, ts_ms);
        assert(of_moment(front.push(row), ts_ms) == if row.ts_ms == ts_ms {
            before.push(row)
        } else {
            before
        });
        assert(of_moment(s, ts_ms) == if s.last().ts_ms == ts_ms {
            before.push(s.last())
        } else {
            before
        });
        assert(of_moment(s.push(row), ts_ms) == if row.ts_ms == ts_ms {
            of_moment(s, ts_ms).push(row)
        } else {
            of_moment(s, ts_ms)
        });
        assert(of_moment(put.push(s.last()), ts_ms) == if s.last().ts_ms == ts_ms {
            of_moment(put, ts_ms).push(s.last())
        } else {
            of_moment(put, ts_ms)
        });
    }
}

/// Entries of one moment stay in the order in which they came.
pub proof fn law_moments_stay_in_order<T>(s: Seq<Timed<T>>, ts_ms: i64)
    ensures
        of_moment(in_time_order(s), ts_ms) == of_moment(s, ts_ms),
    decreases s.len(),
{
    if s.len() > 0 {
        let front = s.drop_last();
        let sorted = in_time_order(front);
        law_moments_stay_in_order(front, ts_ms);
        lemma_inserted_of_moment(sorted, s.last(), ts_ms);
        assert(sorted.push(s.last()).drop_last() =~= sorted);
    }
}

} // verus!
