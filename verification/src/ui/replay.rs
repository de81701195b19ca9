//! Recorded samples on view, and their export to a file.
use vstd::prelude::*;

use crate::bus::TelemetrySourceKind;
use crate::calendar;
use crate::collector::feed;
use crate::sender::replay;
use crate::text;

verus! {

/// Which samples are on view.
#[derive(Clone, Copy, Debug, PartialEq, Eq, Structural)]
pub enum ReplayMode {
    Can3Axis,
    Sent,
}

impl ReplayMode {
    pub open spec fn loading(self) -> Seq<char> {
        match self {
            ReplayMode::Can3Axis => "正在加载 3轴 回放数据..."@,
            ReplayMode::Sent => "正在加载 SENT 回放数据..."@,
        }
    }

    pub fn load_status(self) -> (r: &'static str)
        ensures
            r@ == self.loading(),
    {
        match self {
            ReplayMode::Can3Axis => "正在加载 3轴 回放数据...",
            ReplayMode::Sent => "正在加载 SENT 回放数据...",
        }
    }

    pub open spec fn empty(self) -> Seq<char> {
        match self {
            ReplayMode::Can3Axis => "该时间段没有 3轴 数据"@,
            ReplayMode::Sent => "该时间段没有 SENT 数据"@,
        }
    }

    pub fn empty_status(self) -> (r: &'static str)
        ensures
            r@ == self.empty(),
    {
        match self {
            ReplayMode::Can3Axis => "该时间段没有 3轴 数据",
            ReplayMode::Sent => "该时间段没有 SENT 数据",
        }
    }

    pub open spec fn header(self) -> Seq<char> {
        match self {
            ReplayMode::Can3Axis => "# CAN 3-axis export"@,
            ReplayMode::Sent => "# SENT export"@,
        }
    }

    pub fn export_header(self) -> (r: &'static str)
        ensures
            r@ == self.header(),
    {
        match self {
            ReplayMode::Can3Axis => "# CAN 3-axis export",
            ReplayMode::Sent => "# SENT export",
        }
    }

    /// The name of a series; none where the view has no such series.
    pub open spec fn label(self, i: int) -> Seq<char> {
        match self {
            ReplayMode::Can3Axis => if i == 0 {
                "X"@
            } else if i == 1 {
                "Y"@
            } else if i == 2 {
                "Z"@
            } else {
                ""@
            },
            ReplayMode::Sent => if i == 0 {
                "T1 angle"@
            } else if i == 1 {
                "T1 torque"@
            } else if i == 2 {
                "T2 angle"@
            } else if i == 3 {
                "T2 torque"@
            } else if i == 4 {
                "S angle"@
            } else {
                ""@
            },
        }
    }

    /// The names of the series.
    pub fn series_labels(self) -> (r: [&'static str; 5])
        ensures
            forall|i: int| 0 <= i < 5 ==> (#[trigger] r@[i])@ == self.label(i),
            match self {
                ReplayMode::Can3Axis => {
                    &&& r@[0]@ == "X"@
                    &&& r@[1]@ == "Y"@
                    &&& r@[2]@ == "Z"@
                    &&& r@[3]@ == ""@
                    &&& r@[4]@ == ""@
                },
                ReplayMode::Sent => {
                    &&& r@[0]@ == "T1 angle"@
                    &&& r@[1]@ == "T1 torque"@
                    &&& r@[2]@ == "T2 angle"@
                    &&& r@[3]@ == "T2 torque"@
                    &&& r@[4]@ == "S angle"@
                },
            },
    {
        match self {
            ReplayMode::Can3Axis => ["X", "Y", "Z", "", ""],
            ReplayMode::Sent => ["T1 angle", "T1 torque", "T2 angle", "T2 torque", "S angle"],
        }
    }

    /// The axes of the series.
    pub open spec fn axes(self) -> Seq<Seq<char>> {
        match self {
            ReplayMode::Can3Axis => seq!["x"@, "y"@, "z"@, "__unused_4__"@, "__unused_5__"@],
            ReplayMode::Sent => seq![
                "t1_angle"@,
                "t1_torque"@,
                "t2_angle"@,
                "t2_torque"@,
                "s_angle"@,
            ],
        }
    }

    pub fn axis_filters(self) -> (r: [&'static str; 5])
        ensures
            r@.map_values(|s: &'static str| s@) == self.axes(),
    {
        let r = match self {
            ReplayMode::Can3Axis => ["x", "y", "z", "__unused_4__", "__unused_5__"],
            ReplayMode::Sent => ["t1_angle", "t1_torque", "t2_angle", "t2_torque", "s_angle"],
        };
        proof {
            assert(r@.map_values(|s: &'static str| s@) =~= self.axes());
        }
        r
    }

    /// The series that the samples of an axis belong to.
    pub open spec fn series(self, axis: Seq<char>) -> Option<int> {
        let axes = self.axes();
        if axis == axes[0] {
            Some(0)
        } else if axis == axes[1] {
            Some(1)
        } else if axis == axes[2] {
            Some(2)
        } else if axis == axes[3] {
            Some(3)
        } else if axis == axes[4] {
            Some(4)
        } else {
            None
        }
    }

    pub fn series_of(self, axis: &str) -> (r: Option<usize>)
        ensures
            match self.series(axis@) {
                Some(i) => r is Some && r->0 == i,
                None => r is None,
            },
    {
        let axes: [&'static str; 5] = self.axis_filters();
        proof {
            let views = axes@.map_values(|s: &'static str| s@);
            assert(views[0] == axes@[0]@ && views[1] == axes@[1]@ && views[2] == axes@[2]@
                && views[3] == axes@[3]@ && views[4] == axes@[4]@);
        }
        if text::same_text(axis, axes[0]) {
            Some(0)
        } else if text::same_text(axis, axes[1]) {
            Some(1)
        } else if text::same_text(axis, axes[2]) {
            Some(2)
        } else if text::same_text(axis, axes[3]) {
            Some(3)
        } else if text::same_text(axis, axes[4]) {
            Some(4)
        } else {
            None
        }
    }
}

/// How far back the view reaches where nothing is typed: five minutes, in milliseconds.
pub const CAN_REPLAY_DEFAULT_WINDOW_MS: i64 = 300_000;

/// The window for recorded samples.
#[derive(Debug)]
pub struct CanReplayState {
    pub open: bool,
    pub loading: bool,
    pub exporting: bool,
    pub status: String,
    pub start_ts_input: String,
    pub end_ts_input: String,
    pub mode: ReplayMode,
    pub show: [bool; 5],
    pub has_data: bool,
}

/// The window for recorded samples.
#[verifier::ext_equal]
pub ghost struct ReplayData {
    pub open: bool,
    pub loading: bool,
    pub exporting: bool,
    pub status: Seq<char>,
    pub start_ts_input: Seq<char>,
    pub end_ts_input: Seq<char>,
    pub mode: ReplayMode,
    pub show: [bool; 5],
    pub has_data: bool,
}

impl View for CanReplayState {
    type V = ReplayData;

    open spec fn view(&self) -> ReplayData {
        ReplayData {
            open: self.open,
            loading: self.loading,
            exporting: self.exporting,
            status: self.status@,
            start_ts_input: self.start_ts_input@,
            end_ts_input: self.end_ts_input@,
            mode: self.mode,
            show: self.show,
            has_data: self.has_data,
        }
    }
}

/// A moment some milliseconds earlier, as far as there is one.
pub open spec fn earlier(ts_ms: int, by: int) -> int {
    if ts_ms - by < i64::MIN {
        i64::MIN as int
    } else {
        ts_ms - by
    }
}

/// The typed stretch of time, or the fault in it.
pub open spec fn typed_range(start: Seq<char>, end: Seq<char>) -> Result<(int, int), Seq<char>> {
    match calendar::time_value(start) {
        None => Err("开始时间请输入 ts_ms 或 YYYY-MM-DD HH:MM:SS"@),
        Some(from) => match calendar::time_value(end) {
            None => Err("结束时间请输入 ts_ms 或 YYYY-MM-DD HH:MM:SS"@),
            Some(to) => if to <= from {
                Err("结束时间必须大于开始时间"@)
            } else {
                Ok((from, to))
            },
        },
    }
}

fn parse_range(start: &str, end: &str) -> (r: Result<(i64, i64), &'static str>)
    ensures
        match typed_range(start@, end@) {
            Ok((from, to)) => r is Ok && (r->Ok_0).0 == from && (r->Ok_0).1 == to,
            Err(message) => r is Err && r->Err_0@ == message,
        },
{
    let from: i64 = match calendar::parse_time_input(start) {
        Some(ts_ms) => ts_ms,
        None => {
            return Err("开始时间请输入 ts_ms 或 YYYY-MM-DD HH:MM:SS");
        },
    };
    let to: i64 = match calendar::parse_time_input(end) {
        Some(ts_ms) => ts_ms,
        None => {
            return Err("结束时间请输入 ts_ms 或 YYYY-MM-DD HH:MM:SS");
        },
    };
    if to <= from {
        return Err("结束时间必须大于开始时间");
    }
    Ok((from, to))
}

/// What is exported: a stretch of time, and which series.
#[derive(Clone, Copy, Debug)]
pub struct ExportRequest {
    pub start_ts_ms: i64,
    pub end_ts_ms: i64,
    pub mode: ReplayMode,
    pub show: [bool; 5],
}

impl ReplayData {
    /// Whether a series is chosen. The last two series are there in the view of SENT only.
    pub open spec fn shown(self, i: int) -> bool {
        self.show@[i] && (i < 3 || self.mode == ReplayMode::Sent)
    }

    pub open spec fn any_shown(self) -> bool {
        self.shown(0) || self.shown(1) || self.shown(2) || self.shown(3) || self.shown(4)
    }

    pub open spec fn with_status(self, status: Seq<char>) -> ReplayData {
        ReplayData { status, ..self }
    }

    /// With the latest minutes typed in.
    pub open spec fn recent(self, now_ms: int) -> ReplayData {
        ReplayData {
            start_ts_input: calendar::datetime_text(
                earlier(now_ms, CAN_REPLAY_DEFAULT_WINDOW_MS as int),
            ),
            end_ts_input: calendar::datetime_text(now_ms),
            ..self
        }
    }
}

impl CanReplayState {
    pub fn new() -> (r: Self)
        ensures
            r@ == (ReplayData {
                open: false,
                loading: false,
                exporting: false,
                status: "未加载"@,
                start_ts_input: ""@,
                end_ts_input: ""@,
                mode: ReplayMode::Can3Axis,
                show: [true, true, true, true, true],
                has_data: false,
            }),
    {
        CanReplayState {
            open: false,
            loading: false,
            exporting: false,
            status: text::owned("未加载"),
            start_ts_input: text::owned(""),
            end_ts_input: text::owned(""),
            mode: ReplayMode::Can3Axis,
            show: [true, true, true, true, true],
            has_data: false,
        }
    }

    /// Types the latest minutes in.
    pub fn show_recent(&mut self, now_ms: i64)
        ensures
            final(self)@ == old(self)@.recent(now_ms as int),
    {
        let start_ms: i64 = if now_ms < i64::MIN + CAN_REPLAY_DEFAULT_WINDOW_MS {
            i64::MIN
        } else {
            now_ms - CAN_REPLAY_DEFAULT_WINDOW_MS
        };
        self.start_ts_input = calendar::format_datetime_input(start_ms);
        self.end_ts_input = calendar::format_datetime_input(now_ms);
    }

    /// Opens the window; where a field is blank, the latest minutes are typed in.
    pub fn open_can_replay(&mut self, now_ms: i64)
        ensures
            ({
                let opened = ReplayData { open: true, ..old(self)@ };
                final(self)@ == if text::trimmed(opened.start_ts_input).len() == 0
                    || text::trimmed(opened.end_ts_input).len() == 0 {
                    opened.recent(now_ms as int)
                } else {
                    opened
                }
            }),
    {
        self.open = true;
        let start: Vec<char> = text::chars_of(self.start_ts_input.as_str());
        let end: Vec<char> = text::chars_of(self.end_ts_input.as_str());
        if text::trim(start.as_slice()).len() == 0 || text::trim(end.as_slice()).len() == 0 {
            self.show_recent(now_ms);
        }
    }

    /// The stretch of time to load, unless a load is under way or the fields are at fault.
    pub fn request_can_replay_load(&mut self) -> (r: Option<(i64, i64)>)
        ensures
            ({
                let p = old(self)@;
                if p.loading {
                    r is None && final(self)@ == p.with_status("正在加载，请稍候"@)
                } else {
                    match typed_range(p.start_ts_input, p.end_ts_input) {
                        Err(message) => r is None && final(self)@ == p.with_status(message),
                        Ok((from, to)) => {
                            &&& r is Some && (r->0).0 == from && (r->0).1 == to
                            &&& final(self)@ == ReplayData { loading: true, ..p }.with_status(
                                p.mode.loading(),
                            )
                        },
                    }
                }
            }),
    {
        if self.loading {
            self.status = text::owned("正在加载，请稍候");
            return None;
        }
        match parse_range(self.start_ts_input.as_str(), self.end_ts_input.as_str()) {
            Err(message) => {
                self.status = text::owned(message);
                None
            },
            Ok(range) => {
                self.loading = true;
                self.status = text::owned(self.mode.load_status());
                Some(range)
            },
        }
    }

    /// What to export, unless an export is under way, the fields are at fault, or no series
    /// is chosen.
    pub fn request_can_replay_export(&mut self) -> (r: Option<ExportRequest>)
        ensures
            ({
                let p = old(self)@;
                if p.exporting {
                    r is None && final(self)@ == p.with_status("正在导出，请稍候..."@)
                } else {
                    match typed_range(p.start_ts_input, p.end_ts_input) {
                        Err(message) => r is None && final(self)@ == p.with_status(message),
                        Ok((from, to)) => if !p.any_shown() {
                            r is None && final(self)@ == p.with_status("至少勾选一个轴后再导出"@)
                        } else {
                            &&& r is Some
                            &&& r->0.start_ts_ms == from
                            &&& r->0.end_ts_ms == to
                            &&& r->0.mode == p.mode
                            &&& forall|i: int| 0 <= i < 5 ==> (#[trigger] r->0.show@[i]) == p.shown(i)
                            &&& final(self)@ == ReplayData { exporting: true, ..p }.with_status(
                                "正在流式导出 txt..."@,
                            )
                        },
                    }
                }
            }),
    {
        if self.exporting {
            self.status = text::owned("正在导出，请稍候...");
            return None;
        }
        match parse_range(self.start_ts_input.as_str(), self.end_ts_input.as_str()) {
            Err(message) => {
                self.status = text::owned(message);
                None
            },
            Ok((start_ts_ms, end_ts_ms)) => {
                let sent = self.mode == ReplayMode::Sent;
                let show: [bool; 5] = [
                    self.show[0],
                    self.show[1],
                    self.show[2],
                    sent && self.show[3],
                    sent && self.show[4],
                ];
                if !(show[0] || show[1] || show[2] || show[3] || show[4]) {
                    self.status = text::owned("至少勾选一个轴后再导出");
                    return None;
                }
                self.exporting = true;
                self.status = text::owned("正在流式导出 txt...");
                Some(ExportRequest { start_ts_ms, end_ts_ms, mode: self.mode, show })
            },
        }
    }

    /// The outcome of a load: so many points, or an error. It counts only where the mode is
    /// still that of the load.
    pub fn loaded(&mut self, mode: ReplayMode, outcome: Result<usize, &str>) -> (r: bool)
        ensures
            r == (mode == old(self)@.mode),
            ({
                let p = ReplayData { loading: false, ..old(self)@ };
                final(self)@ == if mode != p.mode {
                    p
                } else {
                    match outcome {
                        Ok(points) => ReplayData {
                            has_data: true,
                            status: if points == 0 {
                                p.mode.empty()
                            } else {
                                "已加载 "@ + text::decimal(points as nat) + " 条回放点位"@
                            },
                            ..p
                        },
                        Err(error) => ReplayData {
                            has_data: false,
                            status: "加载失败: "@ + error@,
                            ..p
                        },
                    }
                }
            }),
    {
        self.loading = false;
        if mode != self.mode {
            return false;
        }
        match outcome {
            Ok(points) => {
                self.status = if points == 0 {
                    text::owned(self.mode.empty_status())
                } else {
                    let mut status = text::owned("已加载 ");
                    text::push_decimal(&mut status, points as u64);
                    text::push_text(&mut status, " 条回放点位");
                    status
                };
                self.has_data = true;
            },
            Err(error) => {
                let mut status = text::owned("加载失败: ");
                text::push_text(&mut status, error);
                self.status = status;
                self.has_data = false;
            },
        }
        true
    }

    /// The outcome of an export: the file's path, or an error.
    pub fn exported(&mut self, outcome: Result<&str, &str>)
        ensures
            final(self)@ == (ReplayData {
                exporting: false,
                status: match outcome {
                    Ok(path) => "导出完成: "@ + path@,
                    Err(error) => "导出失败: "@ + error@,
                },
                ..old(self)@
            }),
    {
        self.exporting = false;
        let mut status = match outcome {
            Ok(_) => text::owned("导出完成: "),
            Err(_) => text::owned("导出失败: "),
        };
        match outcome {
            Ok(path) => {
                text::push_text(&mut status, path);
            },
            Err(error) => {
                text::push_text(&mut status, error);
            },
        }
        self.status = status;
    }

    /// Puts another mode on view; what is loaded belongs to the mode before.
    pub fn choose_mode(&mut self, mode: ReplayMode)
        ensures
            final(self)@ == if mode == old(self)@.mode {
                old(self)@
            } else {
                ReplayData { mode, has_data: false, status: mode.empty(), ..old(self)@ }
            },
    {
        if mode != self.mode {
            self.mode = mode;
            self.has_data = false;
            self.status = text::owned(mode.empty_status());
        }
    }
}

/// How long a stretch of time is, in milliseconds.
pub fn total_span_ms(min_ts_ms: i64, max_ts_ms: i64) -> (r: u64)
    ensures
        r == if max_ts_ms > min_ts_ms {
            max_ts_ms - min_ts_ms
        } else {
            0
        },
{
    if max_ts_ms > min_ts_ms {
        (max_ts_ms as i128 - min_ts_ms as i128) as u64
    } else {
        0
    }
}

// ---- export files ----

/// The lines before the rows of an export.
pub open spec fn head_lines(mode: ReplayMode, start_ts_ms: int, end_ts_ms: int) -> Seq<Seq<char>> {
    seq![
        mode.header(),
        "# start_ts_ms="@ + text::decimal_int(start_ts_ms),
        "# end_ts_ms="@ + text::decimal_int(end_ts_ms),
        "ts_ms\tdevice_id\taxis\tvalue\trequest_id"@,
    ]
}

/// The text of a file with the given lines.
pub open spec fn file_text(lines: Seq<Seq<char>>) -> Seq<char>
    decreases lines.len(),
{
    if lines.len() == 0 {
        Seq::empty()
    } else {
        lines[0] + seq!['\n'] + file_text(lines.skip(1))
    }
}

/// The text of an export before its rows.
pub fn export_head(mode: ReplayMode, start_ts_ms: i64, end_ts_ms: i64) -> (r: String)
    ensures
        r@ == file_text(head_lines(mode, start_ts_ms as int, end_ts_ms as int)),
{
    let mut r = text::owned(mode.export_header());
    r.push('\n');
    text::push_text(&mut r, "# start_ts_ms=");
    text::push_decimal_int(&mut r, start_ts_ms);
    r.push('\n');
    text::push_text(&mut r, "# end_ts_ms=");
    text::push_decimal_int(&mut r, end_ts_ms);
    r.push('\n');
    text::push_text(&mut r, "ts_ms\tdevice_id\taxis\tvalue\trequest_id");
    r.push('\n');
    proof {
        reveal_with_fuel(file_text, 5);
        let lines = head_lines(mode, start_ts_ms as int, end_ts_ms as int);
        assert(lines.skip(1).skip(1) =~= lines.skip(2));
        assert(lines.skip(2).skip(1) =~= lines.skip(3));
        assert(lines.skip(3).skip(1) =~= Seq::<Seq<char>>::empty());
        assert(r@ =~= file_text(lines));
    }
    r
}

/// A sample in an export.
#[verifier::ext_equal]
pub ghost struct ExportRow {
    pub ts_ms: int,
    pub device_id: Seq<char>,
    pub axis: Seq<char>,
    /// The value in its notation.
    pub value: Seq<char>,
    pub request_id: int,
}

/// The line of a sample in an export.
pub open spec fn row_text(row: ExportRow) -> Seq<char> {
    text::decimal_int(row.ts_ms) + "\t"@ + row.device_id + "\t"@ + row.axis + "\t"@ + row.value
        + "\t"@ + text::decimal_int(row.request_id)
}

pub fn export_row(
    ts_ms: i64,
    device_id: &str,
    axis: &str,
    value: &str,
    request_id: i64,
) -> (r: String)
    ensures
        r@ == row_text(
            ExportRow {
                ts_ms: ts_ms as int,
                device_id: device_id@,
                axis: axis@,
                value: value@,
                request_id: request_id as int,
            },
        ) + seq!['\n'],
{
    let mut r = text::owned("");
    proof {
        reveal_strlit("");
    }
    text::push_decimal_int(&mut r, ts_ms);
    text::push_text(&mut r, "\t");
    text::push_text(&mut r, device_id);
    text::push_text(&mut r, "\t");
    text::push_text(&mut r, axis);
    text::push_text(&mut r, "\t");
    text::push_text(&mut r, value);
    text::push_text(&mut r, "\t");
    text::push_decimal_int(&mut r, request_id);
    r.push('\n');
    proof {
        let row = ExportRow {
            ts_ms: ts_ms as int,
            device_id: device_id@,
            axis: axis@,
            value: value@,
            request_id: request_id as int,
        };
        assert(r@ =~= row_text(row) + seq!['\n']);
    }
    r
}

/// Whether a sample can stand in a line: an axis, a number, and a device whose name stays on
/// the line and in its column.
pub open spec fn is_row(row: ExportRow) -> bool {
    &&& i64::MIN <= row.ts_ms <= i64::MAX
    &&& i64::MIN <= row.request_id <= i64::MAX
    &&& replay::axis_identifier(row.axis) is Some
    &&& text::is_float(row.value)
    &&& forall|i: int|
        0 <= i < row.device_id.len() ==> (#[trigger] row.device_id[i]) != '\t' && row.device_id[i]
            != '\n'
}

proof fn lemma_int_chars(n: int)
    ensures
        text::decimal_int(n).len() > 0,
        forall|i: int|
            0 <= i < text::decimal_int(n).len() ==> {
                let c = #[trigger] text::decimal_int(n)[i];
                text::is_digit(c) || c == '-'
            },
        text::is_digit(text::decimal_int(n).last()),
{
    reveal_strlit("-");
    if n < 0 {
        text::lemma_decimal_digits((-n) as nat);
    } else {
        text::lemma_decimal_digits(n as nat);
    }
}

proof fn lemma_axis_chars(axis: Seq<char>)
    requires
        replay::axis_identifier(axis) is Some,
    ensures
        axis.len() == 1,
        axis[0] == 'x' || axis[0] == 'y' || axis[0] == 'z',
{
    reveal_strlit("x");
    reveal_strlit("y");
    reveal_strlit("z");
}

proof fn lemma_row(row: ExportRow)
    requires
        is_row(row),
    ensures
        text::trimmed(row_text(row)) == row_text(row),
        !replay::is_remark(row_text(row)),
        text::split_on(row_text(row), '\t') == seq![
            text::decimal_int(row.ts_ms),
            row.device_id,
            row.axis,
            row.value,
            text::decimal_int(row.request_id),
        ],
        forall|i: int| 0 <= i < row_text(row).len() ==> row_text(row)[i] != '\n',
{
    let (a, b, c, d, e) = (
        text::decimal_int(row.ts_ms),
        row.device_id,
        row.axis,
        row.value,
        text::decimal_int(row.request_id),
    );
    reveal_strlit("\t");
    reveal_strlit("#");
    reveal_strlit("ts_ms\t");
    lemma_int_chars(row.ts_ms);
    lemma_int_chars(row.request_id);
    lemma_axis_chars(row.axis);
    text::lemma_float_chars(row.value);
    let line = row_text(row);
    assert("\t"@ =~= seq!['\t']);
    let d_on = d + seq!['\t'] + e;
    let c_on = c + seq!['\t'] + d_on;
    let b_on = b + seq!['\t'] + c_on;
    assert(line =~= a + seq!['\t'] + b_on);
    assert(forall|i: int| 0 <= i < d.len() ==> d[i] != '\t' && d[i] != '\n') by {
        assert forall|i: int| 0 <= i < d.len() implies d[i] != '\t' && d[i] != '\n' by {
            assert(text::is_float_char(d[i]));
        }
    }
    assert(forall|i: int| 0 <= i < a.len() ==> a[i] != '\t' && a[i] != '\n');
    assert(forall|i: int| 0 <= i < e.len() ==> e[i] != '\t' && e[i] != '\n');
    text::lemma_split_front(a, '\t', b_on);
    text::lemma_split_front(b, '\t', c_on);
    text::lemma_split_front(c, '\t', d_on);
    text::lemma_split_front(d, '\t', e);
    text::lemma_split_front(e, '\t', e);
    assert(text::split_on(line, '\t') =~= seq![a, b, c, d, e]);
    assert(line[0] == a[0]);
    assert(line.last() == e.last());
    text::lemma_trimmed_already(line);
    assert(line.take(1)[0] == a[0]);
    assert(line.take(6)[0] == a[0]);
    assert("#"@[0] == '#');
    assert("ts_ms\t"@[0] == 't');
}

/// A line that is exported is read as the sample that it holds.
pub proof fn law_exported_row_is_read(row: ExportRow, line_no: nat)
    requires
        is_row(row),
    ensures
        replay::can_line(row_text(row), line_no) == replay::LineData::Row(
            row.ts_ms as i64,
            (replay::axis_identifier(row.axis)->0, row.value),
        ),
        row.axis == "y"@ && row.request_id >= 0 ==> replay::replay_line(row_text(row), line_no)
            == replay::LineData::Row(row.ts_ms as i64, (row.value, row.request_id as u64)),
{
    lemma_row(row);
    lemma_axis_chars(row.axis);
    text::law_decimal_int_round_trip(row.ts_ms);
    text::lemma_trimmed_already(row.axis);
    if row.request_id >= 0 {
        text::law_decimal_round_trip(row.request_id as nat, u64::MAX as nat);
    }
}

/// The lines of an export that hold no samples are skipped by its readers.
pub proof fn law_export_head_is_skipped(
    mode: ReplayMode,
    start_ts_ms: int,
    end_ts_ms: int,
    i: int,
    line_no: nat,
)
    requires
        0 <= i < 4,
    ensures
        replay::can_line(head_lines(mode, start_ts_ms, end_ts_ms)[i], line_no) is Nothing,
        replay::replay_line(head_lines(mode, start_ts_ms, end_ts_ms)[i], line_no) is Nothing,
        forall|k: int|
            0 <= k < head_lines(mode, start_ts_ms, end_ts_ms)[i].len() ==> head_lines(
                mode,
                start_ts_ms,
                end_ts_ms,
            )[i][k] != '\n',
{
    reveal_strlit("# CAN 3-axis export");
    reveal_strlit("# SENT export");
    reveal_strlit("# start_ts_ms=");
    reveal_strlit("# end_ts_ms=");
    reveal_strlit("ts_ms\tdevice_id\taxis\tvalue\trequest_id");
    reveal_strlit("#");
    reveal_strlit("ts_ms\t");
    lemma_int_chars(start_ts_ms);
    lemma_int_chars(end_ts_ms);
    let line = head_lines(mode, start_ts_ms, end_ts_ms)[i];
    assert(line.len() > 6);
    if i == 1 {
        assert(line.last() == text::decimal_int(start_ts_ms).last());
    }
    if i == 2 {
        assert(line.last() == text::decimal_int(end_ts_ms).last());
    }
    text::lemma_trimmed_already(line);
    if i == 3 {
        assert(line.take(6) =~= "ts_ms\t"@);
    } else {
        assert(line.take(1) =~= "#"@);
    }
}

proof fn lemma_file_lines(lines: Seq<Seq<char>>)
    requires
        forall|i: int, k: int|
            0 <= i < lines.len() && 0 <= k < lines[i].len() ==> (#[trigger] lines[i][k]) != '\n',
    ensures
        text::split_on(file_text(lines), '\n') == lines.push(Seq::empty()),
    decreases lines.len(),
{
    if lines.len() == 0 {
        text::lemma_split_front(Seq::empty(), '\n', Seq::empty());
        assert(seq![Seq::<char>::empty()] =~= lines.push(Seq::empty()));
    } else {
        let rest = lines.skip(1);
        assert forall|i: int, k: int| 0 <= i < rest.len() && 0 <= k < rest[i].len() implies (
        #[trigger] rest[i][k]) != '\n' by {
            assert(lines[i + 1][k] != '\n');
        }
        lemma_file_lines(rest);
        assert forall|k: int| 0 <= k < lines[0].len() implies lines[0][k] != '\n' by {
            assert(lines[0][k] != '\n');
        }
        text::lemma_split_front(lines[0], '\n', file_text(rest));
        assert(seq![lines[0]] + rest.push(Seq::empty()) =~= lines.push(Seq::empty()));
    }
}

/// The lines of an export.
pub open spec fn export_lines(
    mode: ReplayMode,
    start_ts_ms: int,
    end_ts_ms: int,
    rows: Seq<ExportRow>,
) -> Seq<Seq<char>> {
    head_lines(mode, start_ts_ms, end_ts_ms) + rows.map_values(|row: ExportRow| row_text(row))
}

/// What the rows of an export are read as.
pub open spec fn rows_read(rows: Seq<ExportRow>) -> Seq<(i64, (u32, Seq<char>))> {
    rows.map_values(
        |row: ExportRow|
            (row.ts_ms as i64, (replay::axis_identifier(row.axis)->0, row.value)),
    )
}

proof fn lemma_head_read(mode: ReplayMode, start_ts_ms: int, end_ts_ms: int, n: int)
    requires
        0 <= n <= 4,
    ensures
        replay::lines_rows(
            head_lines(mode, start_ts_ms, end_ts_ms).take(n),
            replay::can_line_fn(),
        ) == Ok::<Seq<(i64, (u32, Seq<char>))>, replay::RowErrorData>(Seq::empty()),
    decreases n,
{
    if n > 0 {
        let head = head_lines(mode, start_ts_ms, end_ts_ms);
        lemma_head_read(mode, start_ts_ms, end_ts_ms, n - 1);
        assert(head.take(n).drop_last() =~= head.take(n - 1));
        law_export_head_is_skipped(mode, start_ts_ms, end_ts_ms, n - 1, n as nat);
        replay::lemma_line_added(head.take(n), replay::can_line_fn(), Seq::empty());
    }
}

#[verifier::spinoff_prover]
#[verifier::rlimit(40)]
proof fn lemma_rows_read(
    mode: ReplayMode,
    start_ts_ms: int,
    end_ts_ms: int,
    rows: Seq<ExportRow>,
)
    requires
        forall|i: int| 0 <= i < rows.len() ==> is_row(#[trigger] rows[i]),
    ensures
        replay::lines_rows(
            export_lines(mode, start_ts_ms, end_ts_ms, rows),
            replay::can_line_fn(),
        ) == Ok::<Seq<(i64, (u32, Seq<char>))>, replay::RowErrorData>(rows_read(rows)),
    decreases rows.len(),
{
    let head = head_lines(mode, start_ts_ms, end_ts_ms);
    let lines = export_lines(mode, start_ts_ms, end_ts_ms, rows);
    if rows.len() == 0 {
        lemma_head_read(mode, start_ts_ms, end_ts_ms, 4);
        assert(lines =~= head.take(4));
        assert(rows_read(rows) =~= Seq::<(i64, (u32, Seq<char>))>::empty());
    } else {
        let front = rows.drop_last();
        assert forall|i: int| 0 <= i < front.len() implies is_row(#[trigger] front[i]) by {
            assert(is_row(rows[i]));
        }
        lemma_rows_read(mode, start_ts_ms, end_ts_ms, front);
        assert(lines.drop_last() =~= export_lines(mode, start_ts_ms, end_ts_ms, front));
        assert(is_row(rows[rows.len() - 1]));
        law_exported_row_is_read(rows.last(), lines.len());
        assert(lines.last() == row_text(rows.last()));
        replay::lemma_line_added(lines, replay::can_line_fn(), rows_read(front));
        assert(rows_read(rows) =~= rows_read(front).push(
            (
                rows.last().ts_ms as i64,
                (replay::axis_identifier(rows.last().axis)->0, rows.last().value),
            ),
        ));
    }
}

/// A file that is exported is read back whole: its rows, in order, and nothing else.
pub proof fn law_export_is_read_back(
    mode: ReplayMode,
    start_ts_ms: int,
    end_ts_ms: int,
    rows: Seq<ExportRow>,
)
    requires
        forall|i: int| 0 <= i < rows.len() ==> is_row(#[trigger] rows[i]),
    ensures
        replay::lines_rows(
            text::split_on(file_text(export_lines(mode, start_ts_ms, end_ts_ms, rows)), '\n'),
            replay::can_line_fn(),
        ) == Ok::<Seq<(i64, (u32, Seq<char>))>, replay::RowErrorData>(rows_read(rows)),
{
    let lines = export_lines(mode, start_ts_ms, end_ts_ms, rows);
    assert forall|i: int, k: int| 0 <= i < lines.len() && 0 <= k < lines[i].len() implies (
    #[trigger] lines[i][k]) != '\n' by {
        if i < 4 {
            law_export_head_is_skipped(mode, start_ts_ms, end_ts_ms, i, 0);
            assert(lines[i] == head_lines(mode, start_ts_ms, end_ts_ms)[i]);
        } else {
            assert(is_row(rows[i - 4]));
            lemma_row(rows[i - 4]);
            assert(lines[i] == row_text(rows[i - 4]));
        }
    }
    lemma_file_lines(lines);
    lemma_rows_read(mode, start_ts_ms, end_ts_ms, rows);
    let all = lines.push(Seq::empty());
    assert(all.drop_last() =~= lines);
    assert(text::trimmed(Seq::<char>::empty()).len() == 0);
    replay::lemma_line_added(all, replay::can_line_fn(), rows_read(rows));
}

// ---- what holds of all axes ----

/// In the view of the three axes, the samples named x, y and z belong to the first, second and
/// third series, and no sample belongs to the others; in the view of SENT, each of the five
/// names belongs to a series of its own. No other name of an axis belongs to any.
pub proof fn law_series_of_axes()
    ensures
        ReplayMode::Can3Axis.series("x"@) == Some(0int),
        ReplayMode::Can3Axis.series("y"@) == Some(1int),
        ReplayMode::Can3Axis.series("z"@) == Some(2int),
        ReplayMode::Sent.series("t1_angle"@) == Some(0int),
        ReplayMode::Sent.series("t1_torque"@) == Some(1int),
        ReplayMode::Sent.series("t2_angle"@) == Some(2int),
        ReplayMode::Sent.series("t2_torque"@) == Some(3int),
        ReplayMode::Sent.series("s_angle"@) == Some(4int),
        ReplayMode::Sent.series("x"@) is None,
        ReplayMode::Sent.series("y"@) is None,
        ReplayMode::Sent.series("z"@) is None,
        ReplayMode::Can3Axis.series("t1_angle"@) is None,
        ReplayMode::Can3Axis.series("t1_torque"@) is None,
        ReplayMode::Can3Axis.series("t2_angle"@) is None,
        ReplayMode::Can3Axis.series("t2_torque"@) is None,
        ReplayMode::Can3Axis.series("s_angle"@) is None,
        ReplayMode::Can3Axis.series(""@) is None,
        ReplayMode::Sent.series(""@) is None,
{
    reveal_strlit("");
    reveal_strlit("x");
    reveal_strlit("y");
    reveal_strlit("z");
    reveal_strlit("t1_angle");
    reveal_strlit("t1_torque");
    reveal_strlit("t2_angle");
    reveal_strlit("t2_torque");
    reveal_strlit("s_angle");
    reveal_strlit("__unused_4__");
    reveal_strlit("__unused_5__");
    assert("x"@[0] != "y"@[0] && "y"@[0] != "z"@[0] && "x"@[0] != "z"@[0]);
    assert("t1_angle"@[1] != "t2_angle"@[1] && "t1_torque"@[1] != "t2_torque"@[1]);
    assert("s_angle"@.len() == 7 && "t1_angle"@.len() == 8 && "t1_torque"@.len() == 9
        && "t2_angle"@.len() == 8 && "t2_torque"@.len() == 9 && "__unused_4__"@.len() == 12
        && "__unused_5__"@.len() == 12 && "x"@.len() == 1 && "y"@.len() == 1 && "z"@.len() == 1);
}

/// A recorded sample is found again under its sensor: what is stored for sensor `i` on an axis
/// of the bus belongs to series `i` of the three axes, and what is stored for SENT sensor `i`
/// to series `i` of SENT. What is stored for a sensor beyond those belongs to no series.
pub proof fn law_sensor_is_its_series(sensor_id: usize)
    ensures
        ReplayMode::Can3Axis.series(
            feed::axis_of(TelemetrySourceKind::CanAxis, sensor_id),
        ) == if sensor_id < 3 {
            Some(sensor_id as int)
        } else {
            None
        },
        ReplayMode::Sent.series(
            feed::axis_of(TelemetrySourceKind::CanSent, sensor_id),
        ) == if sensor_id < 5 {
            Some(sensor_id as int)
        } else {
            None
        },
{
    law_series_of_axes();
    feed::law_axis_names(TelemetrySourceKind::CanAxis, sensor_id, sensor_id);
    feed::law_axis_names(TelemetrySourceKind::CanSent, sensor_id, sensor_id);
}

/// The samples of a series are those whose axis is the one that the series asks for, and
/// nothing else.
pub proof fn law_series_is_by_its_axis(mode: ReplayMode, axis: Seq<char>, i: int)
    requires
        0 <= i < 5,
    ensures
        mode.axes().len() == 5,
        mode.series(axis) == Some(i) <==> axis == mode.axes()[i],
{
    law_series_of_axes();
    reveal_strlit("x");
    reveal_strlit("y");
    reveal_strlit("z");
    reveal_strlit("__unused_4__");
    reveal_strlit("__unused_5__");
    assert("__unused_4__"@[9] != "__unused_5__"@[9]);
    assert("__unused_4__"@.len() == 12 && "__unused_5__"@.len() == 12);
    assert("x"@.len() == 1 && "y"@.len() == 1 && "z"@.len() == 1);
}

/// A stretch of time that is taken runs from what the first field says to what the second
/// says, and is not empty; a field that says no time, or an end that is not behind the start,
/// is refused.
pub proof fn law_typed_range(start: Seq<char>, end: Seq<char>)
    ensures
        typed_range(start, end) matches Ok((from, to)) ==> from < to && calendar::time_value(start)
            == Some(from) && calendar::time_value(end) == Some(to),
        typed_range(start, end) is Err <==> calendar::time_value(start) is None
            || calendar::time_value(end) is None || calendar::time_value(end)->0
            <= calendar::time_value(start)->0,
        calendar::time_value(start) is None ==> typed_range(start, end) == Err::<
            (int, int),
            Seq<char>,
        >("开始时间请输入 ts_ms 或 YYYY-MM-DD HH:MM:SS"@),
        calendar::time_value(start) is Some && calendar::time_value(end) is None ==> typed_range(
            start,
            end,
        ) == Err::<(int, int), Seq<char>>("结束时间请输入 ts_ms 或 YYYY-MM-DD HH:MM:SS"@),
        calendar::time_value(start) is Some && calendar::time_value(end) is Some && typed_range(
            start,
            end,
        ) is Err ==> typed_range(start, end) == Err::<(int, int), Seq<char>>(
            "结束时间必须大于开始时间"@,
        ),
{
}

/// The latest minutes end now and begin 300 000 milliseconds earlier; nothing else in the
/// window changes.
pub proof fn law_recent(p: ReplayData, now_ms: int)
    requires
        i64::MIN + 300_000 <= now_ms,
    ensures
        p.recent(now_ms).start_ts_input == calendar::datetime_text(now_ms - 300_000),
        p.recent(now_ms).end_ts_input == calendar::datetime_text(now_ms),
        p.recent(now_ms).status == p.status,
        p.recent(now_ms).mode == p.mode,
        p.recent(now_ms).show == p.show,
        p.recent(now_ms).open == p.open,
        p.recent(now_ms).loading == p.loading,
        p.recent(now_ms).exporting == p.exporting,
        p.recent(now_ms).has_data == p.has_data,
{
}

/// What the window says names the view it speaks of, and so does an export.
pub proof fn law_words_of_the_views()
    ensures
        ReplayMode::Can3Axis.loading() == "正在加载 3轴 回放数据..."@,
        ReplayMode::Sent.loading() == "正在加载 SENT 回放数据..."@,
        ReplayMode::Can3Axis.empty() == "该时间段没有 3轴 数据"@,
        ReplayMode::Sent.empty() == "该时间段没有 SENT 数据"@,
        ReplayMode::Can3Axis.header() == "# CAN 3-axis export"@,
        ReplayMode::Sent.header() == "# SENT export"@,
{
}

/// The first three series can be chosen in either view, the last two in that of SENT only.
pub proof fn law_series_on_view(p: ReplayData, i: int)
    requires
        0 <= i < 5,
    ensures
        p.mode == ReplayMode::Sent ==> p.shown(i) == p.show@[i],
        p.mode == ReplayMode::Can3Axis && i < 3 ==> p.shown(i) == p.show@[i],
        p.mode == ReplayMode::Can3Axis && i >= 3 ==> !p.shown(i),
        p.any_shown() <==> exists|k: int| 0 <= k < 5 && #[trigger] p.shown(k),
{
    assert(p.any_shown() ==> p.shown(0) || p.shown(1) || p.shown(2) || p.shown(3) || p.shown(4));
}

/// Before the rows, an export says which view it is of, where it starts, where it ends, and
/// what its columns are.
pub proof fn law_export_head(mode: ReplayMode, start_ts_ms: int, end_ts_ms: int)
    ensures
        head_lines(mode, start_ts_ms, end_ts_ms).len() == 4,
        head_lines(mode, start_ts_ms, end_ts_ms)[0] == match mode {
            ReplayMode::Can3Axis => "# CAN 3-axis export"@,
            ReplayMode::Sent => "# SENT export"@,
        },
        head_lines(mode, start_ts_ms, end_ts_ms)[1] == "# start_ts_ms="@ + text::decimal_int(
            start_ts_ms,
        ),
        head_lines(mode, start_ts_ms, end_ts_ms)[2] == "# end_ts_ms="@ + text::decimal_int(
            end_ts_ms,
        ),
        head_lines(mode, start_ts_ms, end_ts_ms)[3]
            == "ts_ms\tdevice_id\taxis\tvalue\trequest_id"@,
{
}

/// No moment is earlier than can be counted.
pub proof fn law_earlier(ts_ms: int, by: int)
    requires
        i64::MIN <= ts_ms <= i64::MAX,
        by >= 0,
    ensures
        i64::MIN <= earlier(ts_ms, by) <= ts_ms,
        i64::MIN <= ts_ms - by ==> earlier(ts_ms, by) == ts_ms - by,
        ts_ms - by < i64::MIN ==> earlier(ts_ms, by) == i64::MIN,
{
}

/// A series carries the label of its axis: x, y and z belong to the series labelled X, Y and Z,
/// and each SENT name to the series labelled by what the name says.
pub proof fn law_series_labels(mode: ReplayMode, axis: Seq<char>, i: int)
    requires
        mode.series(axis) == Some(i),
    ensures
        mode == ReplayMode::Can3Axis && axis == "x"@ ==> mode.label(i) == "X"@,
        mode == ReplayMode::Can3Axis && axis == "y"@ ==> mode.label(i) == "Y"@,
        mode == ReplayMode::Can3Axis && axis == "z"@ ==> mode.label(i) == "Z"@,
        mode == ReplayMode::Sent && axis == "t1_angle"@ ==> mode.label(i) == "T1 angle"@,
        mode == ReplayMode::Sent && axis == "t1_torque"@ ==> mode.label(i) == "T1 torque"@,
        mode == ReplayMode::Sent && axis == "t2_angle"@ ==> mode.label(i) == "T2 angle"@,
        mode == ReplayMode::Sent && axis == "t2_torque"@ ==> mode.label(i) == "T2 torque"@,
        mode == ReplayMode::Sent && axis == "s_angle"@ ==> mode.label(i) == "S angle"@,
        mode == ReplayMode::Can3Axis && i >= 3 ==> mode.label(i) == ""@,
{
    law_series_of_axes();
}

/// The series of the view of SENT are called as the alarms about them are: angles by the names
/// of angles, torques by the names of torques.
pub proof fn law_labels_are_those_of_alarms()
    ensures
        ReplayMode::Sent.label(0) == crate::ui::monitors::angle_name(0),
        ReplayMode::Sent.label(1) == crate::ui::monitors::torque_name(1),
        ReplayMode::Sent.label(2) == crate::ui::monitors::angle_name(2),
        ReplayMode::Sent.label(3) == crate::ui::monitors::torque_name(3),
        ReplayMode::Sent.label(4) == crate::ui::monitors::angle_name(4),
{
}

} // verus!
