//! What is kept in the database: which events, in which batches, in which columns.
use vstd::prelude::*;

use crate::bus::{AppEvent, DeviceEvent, EventData};
use crate::collector::feed;
use crate::collector::feed::{telemetry_msg, MsgData, TelemetryMsg};
use crate::domain::{AlarmData, AlarmEvent, AlarmLevel};
use crate::table::Table;
use crate::text;
use crate::time::Duration;

verus! {

/// How many samples are written at once, at most.
pub const TELEMETRY_BATCH_SIZE: usize = 256;

/// Milliseconds in a day.
pub const DAY_MS: i64 = 86_400_000;

/// What is to be written.
#[derive(Debug)]
pub enum DbCmd {
    Telemetry(TelemetryMsg),
    Alarm(AlarmEvent),
    System { level: String, message: String },
}

/// What a command to write says.
pub ghost enum DbData {
    Telemetry(MsgData),
    Alarm(AlarmData),
    System { level: Seq<char>, message: Seq<char> },
}

impl View for DbCmd {
    type V = DbData;

    open spec fn view(&self) -> DbData {
        match self {
            DbCmd::Telemetry(msg) => DbData::Telemetry(msg@),
            DbCmd::Alarm(alarm) => DbData::Alarm(alarm@),
            DbCmd::System { level, message } => DbData::System { level: level@, message: message@ },
        }
    }
}

/// What is written for an event, if anything is.
pub open spec fn written_for(event: EventData) -> Option<DbData> {
    match event {
        EventData::TelemetrySample(sample) => Some(DbData::Telemetry(feed::msg_of(sample))),
        EventData::AlarmRaised(alarm) => Some(DbData::Alarm(alarm)),
        EventData::AlarmCleared(alarm) => Some(DbData::Alarm(alarm)),
        EventData::System(msg) => Some(DbData::System { level: "info"@, message: msg }),
        EventData::Log { level, msg, .. } => Some(
            DbData::System { level, message: msg },
        ),
        _ => None,
    }
}

pub fn db_command(event: AppEvent) -> (r: Option<DbCmd>)
    ensures
        match written_for(event@) {
            Some(data) => r is Some && r->0@ == data,
            None => r is None,
        },
{
    match event {
        AppEvent::Device(DeviceEvent::TelemetrySample(sample)) => Some(
            DbCmd::Telemetry(telemetry_msg(sample)),
        ),
        AppEvent::Device(DeviceEvent::AlarmRaised(alarm)) => Some(DbCmd::Alarm(alarm)),
        AppEvent::Device(DeviceEvent::AlarmCleared(alarm)) => Some(DbCmd::Alarm(alarm)),
        AppEvent::System(msg) => Some(
            DbCmd::System { level: text::owned("info"), message: msg },
        ),
        AppEvent::Device(DeviceEvent::Log { level, msg, .. }) => Some(
            DbCmd::System { level: text::owned(level), message: msg },
        ),
        _ => None,
    }
}

/// The name of an alarm level in the database.
pub open spec fn level_text(level: AlarmLevel) -> Seq<char> {
    match level {
        AlarmLevel::Info => "Info"@,
        AlarmLevel::Warning => "Warning"@,
        AlarmLevel::Critical => "Critical"@,
        AlarmLevel::Purple => "Purple"@,
    }
}

pub fn level_name(level: AlarmLevel) -> (r: &'static str)
    ensures
        r@ == level_text(level),
        r@ == match level {
            AlarmLevel::Info => "Info"@,
            AlarmLevel::Warning => "Warning"@,
            AlarmLevel::Critical => "Critical"@,
            AlarmLevel::Purple => "Purple"@,
        },
{
    match level {
        AlarmLevel::Info => "Info",
        AlarmLevel::Warning => "Warning",
        AlarmLevel::Critical => "Critical",
        AlarmLevel::Purple => "Purple",
    }
}

/// A write to the database.
#[derive(Debug)]
pub enum DbWrite {
    /// Samples, written at once.
    Batch(Vec<TelemetryMsg>),
    Alarm(AlarmEvent),
    System { level: String, message: String },
}

/// What a write writes.
#[verifier::ext_equal]
pub ghost enum WriteData {
    Batch(Seq<MsgData>),
    Alarm(AlarmData),
    System { level: Seq<char>, message: Seq<char> },
}

/// What the samples say.
pub open spec fn batch_data(batch: Seq<TelemetryMsg>) -> Seq<MsgData> {
    batch.map_values(|msg: TelemetryMsg| msg@)
}

impl View for DbWrite {
    type V = WriteData;

    open spec fn view(&self) -> WriteData {
        match self {
            DbWrite::Batch(batch) => WriteData::Batch(batch_data(batch@)),
            DbWrite::Alarm(alarm) => WriteData::Alarm(alarm@),
            DbWrite::System { level, message } => WriteData::System {
                level: level@,
                message: message@,
            },
        }
    }
}

/// What several writes write, write by write.
pub open spec fn write_data(writes: Seq<DbWrite>) -> Seq<WriteData> {
    writes.map_values(|write: DbWrite| write@)
}

/// Samples as things to be written.
pub open spec fn samples(batch: Seq<MsgData>) -> Seq<DbData> {
    batch.map_values(|msg: MsgData| DbData::Telemetry(msg))
}

impl WriteData {
    /// The things that the write writes, in order.
    pub open spec fn things(self) -> Seq<DbData> {
        match self {
            WriteData::Batch(batch) => samples(batch),
            WriteData::Alarm(alarm) => seq![DbData::Alarm(alarm)],
            WriteData::System { level, message } => seq![DbData::System { level, message }],
        }
    }
}

/// The things that several writes write, in order.
pub open spec fn things_of(writes: Seq<WriteData>) -> Seq<DbData>
    decreases writes.len(),
{
    if writes.len() == 0 {
        Seq::empty()
    } else {
        things_of(writes.drop_last()) + writes.last().things()
    }
}

/// The write of the samples that wait: one batch, where any wait.
pub open spec fn flushed(waiting: Seq<MsgData>) -> Seq<WriteData> {
    if waiting.len() == 0 {
        Seq::empty()
    } else {
        seq![WriteData::Batch(waiting)]
    }
}

/// What follows from a command.
#[verifier::ext_equal]
pub ghost struct Taken {
    pub writes: Seq<WriteData>,
    pub waiting: Seq<MsgData>,
    pub next: Next,
}

/// What follows from a command while samples wait. A sample waits for others until a batch is
/// full, and the full batch is written; anything else is written at once, behind the samples.
pub open spec fn taken(waiting: Seq<MsgData>, cmd: DbData) -> Taken {
    match cmd {
        DbData::Telemetry(msg) => {
            let all = waiting.push(msg);
            if all.len() < TELEMETRY_BATCH_SIZE {
                Taken { writes: Seq::empty(), waiting: all, next: Next::Poll }
            } else {
                Taken { writes: flushed(all), waiting: Seq::empty(), next: Next::Wait }
            }
        },
        DbData::Alarm(alarm) => Taken {
            writes: flushed(waiting).push(WriteData::Alarm(alarm)),
            waiting: Seq::empty(),
            next: Next::Poll,
        },
        DbData::System { level, message } => Taken {
            writes: flushed(waiting).push(WriteData::System { level, message }),
            waiting: Seq::empty(),
            next: Next::Poll,
        },
    }
}

/// How the writer gets its next command.
#[derive(Clone, Copy, Debug, PartialEq, Eq, Structural)]
pub enum Next {
    /// It waits for one.
    Wait,
    /// It takes one if one is there.
    Poll,
}

/// Gathers samples into batches. Anything else is written at once, behind the samples that
/// came before it. Its view is the samples that have come and are not written yet.
pub struct PgBatcher {
    batch: Vec<TelemetryMsg>,
}

impl View for PgBatcher {
    type V = Seq<MsgData>;

    closed spec fn view(&self) -> Seq<MsgData> {
        batch_data(self.batch@)
    }
}

impl PgBatcher {
    /// Less than a full batch waits.
    pub open spec fn wf(&self) -> bool {
        self@.len() < TELEMETRY_BATCH_SIZE
    }

    pub fn new() -> (r: Self)
        ensures
            r.wf(),
            r@ == Seq::<MsgData>::empty(),
    {
        PgBatcher { batch: Vec::new() }
    }

    /// The samples that wait leave as one batch, where any wait.
    fn flush(&mut self, writes: &mut Vec<DbWrite>)
        ensures
            final(self)@ == Seq::<MsgData>::empty(),
            write_data(final(writes)@) == write_data(old(writes)@) + flushed(old(self)@),
    {
        if self.batch.len() > 0 {
            let mut batch: Vec<TelemetryMsg> = Vec::new();
            std::mem::swap(&mut batch, &mut self.batch);
            writes.push(DbWrite::Batch(batch));
        }
    }

    /// Takes a command, waited for or not.
    pub fn take(&mut self, cmd: DbCmd) -> (r: (Vec<DbWrite>, Next))
        requires
            old(self).wf(),
        ensures
            final(self).wf(),
            ({
                let after = taken(old(self)@, cmd@);
                &&& write_data(r.0@) == after.writes
                &&& final(self)@ == after.waiting
                &&& r.1 == after.next
            }),
    {
        let mut writes: Vec<DbWrite> = Vec::new();
        match cmd {
            DbCmd::Telemetry(msg) => {
                self.batch.push(msg);
                proof {
                    assert(self@ =~= old(self)@.push(msg@));
                }
                if self.batch.len() < TELEMETRY_BATCH_SIZE {
                    (writes, Next::Poll)
                } else {
                    self.flush(&mut writes);
                    (writes, Next::Wait)
                }
            },
            DbCmd::Alarm(alarm) => {
                self.flush(&mut writes);
                writes.push(DbWrite::Alarm(alarm));
                (writes, Next::Poll)
            },
            DbCmd::System { level, message } => {
                self.flush(&mut writes);
                writes.push(DbWrite::System { level, message });
                (writes, Next::Poll)
            },
        }
    }

    /// Nothing more is there for now, or ever: what waits is written.
    pub fn idle(&mut self) -> (r: Vec<DbWrite>)
        requires
            old(self).wf(),
        ensures
            final(self).wf(),
            final(self)@ == Seq::<MsgData>::empty(),
            write_data(r@) == flushed(old(self)@),
    {
        let mut writes: Vec<DbWrite> = Vec::new();
        self.flush(&mut writes);
        writes
    }
}

/// What has been written and what waits after a run of commands.
pub open spec fn taken_all(cmds: Seq<DbData>) -> (Seq<WriteData>, Seq<MsgData>)
    decreases cmds.len(),
{
    if cmds.len() == 0 {
        (Seq::empty(), Seq::empty())
    } else {
        let (writes, waiting) = taken_all(cmds.drop_last());
        let last = taken(waiting, cmds.last());
        (writes + last.writes, last.waiting)
    }
}

/// Whether no batch among the writes is empty or larger than allowed.
pub open spec fn batches_in_size(writes: Seq<WriteData>) -> bool {
    forall|i: int|
        0 <= i < writes.len() ==> ((#[trigger] writes[i]) matches WriteData::Batch(batch) ==> 1
            <= batch.len() <= TELEMETRY_BATCH_SIZE)
}

proof fn lemma_things_added(writes: Seq<WriteData>, more: Seq<WriteData>)
    ensures
        things_of(writes + more) == things_of(writes) + things_of(more),
    decreases more.len(),
{
    if more.len() == 0 {
        assert(writes + more =~= writes);
        assert(things_of(writes) + things_of(more) =~= things_of(writes));
    } else {
        lemma_things_added(writes, more.drop_last());
        assert((writes + more).drop_last() =~= writes + more.drop_last());
        assert(things_of(writes + more) =~= things_of(writes) + things_of(more));
    }
}

proof fn lemma_flushed(waiting: Seq<MsgData>)
    ensures
        things_of(flushed(waiting)) == samples(waiting),
{
    if waiting.len() == 0 {
        assert(samples(waiting) =~= Seq::<DbData>::empty());
    } else {
        let writes = flushed(waiting);
        assert(writes.drop_last() =~= Seq::<WriteData>::empty());
        assert(things_of(writes.drop_last()) =~= Seq::<DbData>::empty());
        assert(things_of(writes) =~= samples(waiting));
    }
}

proof fn lemma_taken(waiting: Seq<MsgData>, cmd: DbData)
    ensures
        ({
            let after = taken(waiting, cmd);
            things_of(after.writes) + samples(after.waiting) == samples(waiting).push(cmd)
        }),
{
    let after = taken(waiting, cmd);
    match cmd {
        DbData::Telemetry(msg) => {
            let all = waiting.push(msg);
            lemma_flushed(all);
            assert(samples(all) =~= samples(waiting).push(cmd));
            assert(samples(Seq::<MsgData>::empty()) =~= Seq::<DbData>::empty());
            assert(things_of(after.writes) + samples(after.waiting) =~= samples(all));
        },
        _ => {
            lemma_flushed(waiting);
            assert(after.writes.drop_last() =~= flushed(waiting));
            assert(after.writes.last().things() =~= seq![cmd]);
            assert(things_of(after.writes) =~= samples(waiting).push(cmd));
            assert(things_of(after.writes) + samples(after.waiting) =~= things_of(after.writes));
        },
    }
}

/// Whatever comes is written once, in the order in which it came: what has been written so
/// far, with what waits behind it, is what has come. No batch is empty or too large.
pub proof fn law_writes_keep_order(cmds: Seq<DbData>)
    ensures
        ({
            let (writes, waiting) = taken_all(cmds);
            &&& things_of(writes + flushed(waiting)) == cmds
            &&& waiting.len() < TELEMETRY_BATCH_SIZE
            &&& batches_in_size(writes + flushed(waiting))
        }),
    decreases cmds.len(),
{
    let (writes, waiting) = taken_all(cmds);
    if cmds.len() > 0 {
        let (before, waited) = taken_all(cmds.drop_last());
        let last = taken(waited, cmds.last());
        law_writes_keep_order(cmds.drop_last());
        lemma_things_added(before, flushed(waited));
        lemma_flushed(waited);
        lemma_taken(waited, cmds.last());
        lemma_things_added(before, last.writes);
        lemma_things_added(writes, flushed(waiting));
        lemma_flushed(waiting);
        let earlier = before + flushed(waited);
        assert forall|i: int| 0 <= i < (writes + flushed(waiting)).len() implies ((
        #[trigger] (writes + flushed(waiting))[i]) matches WriteData::Batch(batch) ==> 1
            <= batch.len() <= TELEMETRY_BATCH_SIZE) by {
            if i < before.len() {
                assert((writes + flushed(waiting))[i] == earlier[i]);
            }
        }
        assert(things_of(before) + samples(waited) == cmds.drop_last());
        assert(cmds.drop_last().push(cmds.last()) =~= cmds);
        assert(things_of(before) + samples(waited).push(cmds.last()) =~= cmds);
        assert(things_of(writes + flushed(waiting)) =~= things_of(before) + (things_of(last.writes)
            + samples(waiting)));
    } else {
        assert(writes + flushed(waiting) =~= Seq::<WriteData>::empty());
    }
}

/// The columns of a batch of samples.
#[derive(Debug)]
pub struct TelemetryColumns {
    pub ts_ms: Vec<i64>,
    pub device_ids: Vec<String>,
    pub sensor_ids: Vec<i32>,
    pub axes: Vec<String>,
    pub alarm_bits: Vec<bool>,
    pub t_secs: Vec<crate::bus::SampleTime>,
    pub values: Vec<crate::number::Number>,
    pub request_ids: Vec<i64>,
}

impl TelemetryColumns {
    /// Whether row `i` of the columns is this sample.
    pub open spec fn row_is(&self, i: int, msg: MsgData) -> bool {
        &&& self.device_ids@[i]@ == msg.device_id
        &&& self.sensor_ids@[i] == msg.sensor_id as i32
        &&& self.axes@[i]@ == msg.axis
        &&& self.alarm_bits@[i] == msg.alarm_bit
        &&& self.t_secs@[i] == msg.t_sec
        &&& self.values@[i]@ == msg.value
        &&& self.request_ids@[i] == msg.request_id as i64
    }

    pub open spec fn len_is(&self, n: nat) -> bool {
        &&& self.device_ids@.len() == n
        &&& self.sensor_ids@.len() == n
        &&& self.axes@.len() == n
        &&& self.alarm_bits@.len() == n
        &&& self.t_secs@.len() == n
        &&& self.values@.len() == n
        &&& self.request_ids@.len() == n
    }
}

/// The columns of a batch, with the time at which each sample is written.
pub fn columns(batch: Vec<TelemetryMsg>, ts_ms: Vec<i64>) -> (r: TelemetryColumns)
    requires
        ts_ms@.len() == batch@.len(),
    ensures
        r.ts_ms@ == ts_ms@,
        r.len_is(batch@.len()),
        forall|i: int| 0 <= i < batch@.len() ==> #[trigger] r.row_is(i, batch@[i]@),
{
    let mut r = TelemetryColumns {
        ts_ms,
        device_ids: Vec::new(),
        sensor_ids: Vec::new(),
        axes: Vec::new(),
        alarm_bits: Vec::new(),
        t_secs: Vec::new(),
        values: Vec::new(),
        request_ids: Vec::new(),
    };
    for i in 0..batch.len()
        invariant
            r.ts_ms@ == ts_ms@,
            r.len_is(i as nat),
            forall|k: int| 0 <= k < i ==> #[trigger] r.row_is(k, batch@[k]@),
    {
        let item: &TelemetryMsg = &batch[i];
        let ghost before = r;
        r.device_ids.push(text::owned(item.device_id.as_str()));
        r.sensor_ids.push(item.sensor_id as i32);
        r.axes.push(text::owned(item.axis.as_str()));
        r.alarm_bits.push(item.alarm_bit);
        r.t_secs.push(item.t_sec);
        r.values.push(item.value.clone());
        r.request_ids.push(item.request_id as i64);
        proof {
            assert forall|k: int| 0 <= k < i + 1 implies #[trigger] r.row_is(k, batch@[k]@) by {
                if k < i {
                    assert(before.row_is(k, batch@[k]@));
                }
            }
        }
    }
    r
}

/// The day on which a moment lies, counted from the epoch.
pub open spec fn day_of(ts_ms: i64) -> int {
    ts_ms as int / DAY_MS as int
}

/// The first millisecond of a day.
pub open spec fn day_start(ts_ms: i64) -> int {
    day_of(ts_ms) * DAY_MS
}

/// Whether one of the moments lies on the day that starts then.
pub open spec fn touches_day(ts_values: Seq<i64>, start: i64) -> bool {
    exists|i: int| 0 <= i < ts_values.len() && day_start(#[trigger] ts_values[i]) == start
}

/// The starts of the days on which the moments lie: each once, in order.
pub fn partition_days(ts_values: &[i64]) -> (r: Vec<i64>)
    requires
        forall|i: int|
            0 <= i < ts_values@.len() ==> day_start(#[trigger] ts_values@[i]) >= i64::MIN,
    ensures
        forall|i: int, j: int| 0 <= i < j < r@.len() ==> r@[i] < r@[j],
        forall|start: i64| #[trigger] r@.contains(start) <==> touches_day(ts_values@, start),
{
    let mut days: Vec<i64> = Vec::new();
    for i in 0..ts_values.len()
        invariant
            forall|i: int|
                0 <= i < ts_values@.len() ==> day_start(#[trigger] ts_values@[i]) >= i64::MIN,
            forall|a: int, b: int| 0 <= a < b < days@.len() ==> days@[a] < days@[b],
            forall|start: i64| #[trigger]
                days@.contains(start) <==> touches_day(ts_values@.take(i as int), start),
    {
        let start: i64 = floor_to_day(ts_values[i]);
        let mut at: usize = 0;
        while at < days.len() && days[at] < start
            invariant
                at <= days@.len(),
                forall|k: int| 0 <= k < at ==> days@[k] < start,
            decreases days@.len() - at,
        {
            at = at + 1;
        }
        let ghost before = days@;
        let present: bool = at < days.len() && days[at] == start;
        if !present {
            days.insert(at, start);
        }
        proof {
            let after = days@;
            assert(after[at as int] == start);
            assert forall|a: int, b: int| 0 <= a < b < after.len() implies after[a] < after[b] by {
                if !present {
                    let a0 = if a < at {
                        a
                    } else {
                        a - 1
                    };
                    let b0 = if b < at {
                        b
                    } else {
                        b - 1
                    };
                    if a != at {
                        assert(after[a] == before[a0]);
                    }
                    if b != at {
                        assert(after[b] == before[b0]);
                    }
                    if a == at && at < before.len() {
                        assert(before[at as int] <= before[b0]);
                    }
                }
            }
            let now = ts_values@.take(i as int);
            let next = ts_values@.take(i + 1);
            assert forall|d: i64| #[trigger] after.contains(d) <==> touches_day(next, d) by {
                if after.contains(d) {
                    let j = choose|j: int| 0 <= j < after.len() && after[j] == d;
                    if j == at {
                        assert(next[i as int] == ts_values@[i as int]);
                    } else {
                        let j0 = if present || j < at {
                            j
                        } else {
                            j - 1
                        };
                        assert(before[j0] == d);
                        assert(before.contains(d));
                        let k = choose|k: int|
                            0 <= k < now.len() && day_start(#[trigger] now[k]) == d;
                        assert(next[k] == now[k]);
                    }
                }
                if touches_day(next, d) {
                    let k = choose|k: int|
                        0 <= k < next.len() && day_start(#[trigger] next[k]) == d;
                    if k < i {
                        assert(now[k] == next[k]);
                        assert(before.contains(d));
                        let j = choose|j: int| 0 <= j < before.len() && before[j] == d;
                        let j1 = if present || j < at {
                            j
                        } else {
                            j + 1
                        };
                        assert(after[j1] == d);
                    } else {
                        assert(after[at as int] == d);
                    }
                }
            }
        }
    }
    proof {
        assert(ts_values@.take(ts_values@.len() as int) =~= ts_values@);
    }
    days
}

fn floor_to_day(ts_ms: i64) -> (r: i64)
    requires
        day_start(ts_ms) >= i64::MIN,
    ensures
        r == day_start(ts_ms),
{
    if ts_ms >= 0 {
        ts_ms - ts_ms % DAY_MS
    } else {
        // The distance up to the day's end is taken on the non-negative side.
        let past: i64 = (-(ts_ms + 1)) % DAY_MS;
        proof {
            let q = (-(ts_ms + 1)) / DAY_MS as int;
            assert(-(ts_ms + 1) == q * DAY_MS + past);
            assert(ts_ms == (-q - 1) * DAY_MS + (DAY_MS - 1 - past)) by (nonlinear_arith)
                requires
                    -(ts_ms + 1) == q * DAY_MS + past,
                    DAY_MS == 86_400_000,
            ;
            assert(day_of(ts_ms) == -q - 1);
        }
        ts_ms - (DAY_MS - 1 - past)
    }
}

/// What to do after the database could not be reached.
#[derive(Debug)]
pub enum ConnectDecision {
    /// Wait so long and try again.
    Retry { attempt: u32, delay: Duration },
    /// Do without the database.
    GiveUp { error: String },
}

/// Decides after a failed attempt to connect; `failed` attempts had failed before.
pub fn after_connect_failure(failed: u32, max_retries: u32, retry_ms: u64, error: &str) -> (r:
    ConnectDecision)
    ensures
        ({
            let attempt = if failed == u32::MAX {
                failed as int
            } else {
                failed + 1
            };
            if attempt >= max_retries {
                r matches ConnectDecision::GiveUp { error: text } && text@
                    == "postgres connect failed after "@ + text::decimal(attempt as nat)
                    + " attempts: "@ + error@
            } else {
                r matches ConnectDecision::Retry { attempt: a, delay } && a == attempt
                    && delay.nanos == retry_ms * 1_000_000
            }
        }),
{
    let attempt: u32 = failed.saturating_add(1);
    if attempt >= max_retries {
        let mut msg = text::owned("postgres connect failed after ");
        text::push_decimal(&mut msg, attempt as u64);
        text::push_text(&mut msg, " attempts: ");
        text::push_text(&mut msg, error);
        ConnectDecision::GiveUp { error: msg }
    } else {
        ConnectDecision::Retry { attempt, delay: Duration::from_millis(retry_ms) }
    }
}

/// How the last failed write is remembered: what was written, and why it failed.
pub fn write_error(operation: &str, error: &str) -> (r: String)
    ensures
        r@ == operation@ + ": "@ + error@,
{
    let mut r = text::owned(operation);
    text::push_text(&mut r, ": ");
    text::push_text(&mut r, error);
    r
}

// ---- filters ----

/// Which filter a sample goes through.
#[derive(Clone, Copy, Debug, PartialEq, Eq, Structural)]
pub enum FilterRoute {
    /// None: filters are off.
    Bypass,
    /// The one with this number.
    Existing(u64),
    /// A new one has to be built.
    Missing,
}

/// What becomes of a sample for which a filter was built, or could not be.
#[derive(Clone, Copy, Debug, PartialEq, Eq, Structural)]
pub enum FilterBuilt {
    /// It goes through the new filter, which has this number.
    Use(u64),
    /// It goes through none; the failure is logged the first time.
    Bypass { log: bool },
}

/// The filters that samples go through before they are passed on: one for each device,
/// sensor and axis.
pub struct PersistenceFilter {
    enabled: bool,
    filters: Table<(String, usize, String), u64>,
    next_filter: u64,
    init_error_logged: bool,
}

/// What is known of the filters.
#[verifier::ext_equal]
pub ghost struct FilterData {
    pub enabled: bool,
    pub filters: Map<(Seq<char>, usize, Seq<char>), u64>,
    pub next_filter: u64,
    pub init_error_logged: bool,
}

/// Under what a filter is kept.
pub open spec fn filter_key(msg: MsgData) -> (Seq<char>, usize, Seq<char>) {
    (msg.device_id, msg.sensor_id, msg.axis)
}

impl FilterData {
    /// Filters are numbered from zero on, and no two have the same number.
    pub open spec fn wf(self) -> bool {
        &&& forall|k: (Seq<char>, usize, Seq<char>)| #[trigger]
            self.filters.contains_key(k) ==> self.filters[k] < self.next_filter
        &&& forall|a: (Seq<char>, usize, Seq<char>), b: (Seq<char>, usize, Seq<char>)|
            self.filters.contains_key(a) && self.filters.contains_key(b) && a != b
                ==> #[trigger] self.filters[a] != #[trigger] self.filters[b]
    }
}

impl View for PersistenceFilter {
    type V = FilterData;

    closed spec fn view(&self) -> FilterData {
        FilterData {
            enabled: self.enabled,
            filters: self.filters@,
            next_filter: self.next_filter,
            init_error_logged: self.init_error_logged,
        }
    }
}

impl PersistenceFilter {
    pub fn new(enabled: bool) -> (r: Self)
        ensures
            r@ == (FilterData {
                enabled,
                filters: Map::empty(),
                next_filter: 0,
                init_error_logged: false,
            }),
            r@.wf(),
    {
        PersistenceFilter {
            enabled,
            filters: Table::new(),
            next_filter: 0,
            init_error_logged: false,
        }
    }

    fn key_of(msg: &TelemetryMsg) -> (r: (String, usize, String))
        ensures
            crate::table::TableKey::id(&r) == filter_key(msg@),
    {
        (text::owned(msg.device_id.as_str()), msg.sensor_id, text::owned(msg.axis.as_str()))
    }

    /// Which filter a sample goes through.
    pub fn route(&self, msg: &TelemetryMsg) -> (r: FilterRoute)
        ensures
            r == if !self@.enabled {
                FilterRoute::Bypass
            } else if self@.filters.contains_key(filter_key(msg@)) {
                FilterRoute::Existing(self@.filters[filter_key(msg@)])
            } else {
                FilterRoute::Missing
            },
    {
        if !self.enabled {
            return FilterRoute::Bypass;
        }
        match self.filters.get(&Self::key_of(msg)) {
            Some(filter) => FilterRoute::Existing(*filter),
            None => FilterRoute::Missing,
        }
    }

    /// Takes note of whether the filter for a sample could be built.
    pub fn built(&mut self, msg: &TelemetryMsg, ok: bool) -> (r: FilterBuilt)
        requires
            old(self)@.wf(),
            old(self)@.next_filter < u64::MAX,
        ensures
            final(self)@.wf(),
            if ok {
                &&& r == FilterBuilt::Use(old(self)@.next_filter)
                &&& final(self)@ == (FilterData {
                    filters: old(self)@.filters.insert(
                        filter_key(msg@),
                        old(self)@.next_filter,
                    ),
                    next_filter: (old(self)@.next_filter + 1) as u64,
                    ..old(self)@
                })
            } else {
                &&& r == (FilterBuilt::Bypass { log: !old(self)@.init_error_logged })
                &&& final(self)@ == (FilterData { init_error_logged: true, ..old(self)@ })
            },
    {
        if ok {
            let filter: u64 = self.next_filter;
            self.filters.insert(Self::key_of(msg), filter);
            self.next_filter = filter + 1;
            FilterBuilt::Use(filter)
        } else {
            let log: bool = !self.init_error_logged;
            self.init_error_logged = true;
            FilterBuilt::Bypass { log }
        }
    }
}

// ---- what holds of all events and moments ----

/// Every sample, whatever its fields, is written as itself; every alarm, raised or cleared, is
/// written as that alarm; a status is written under the level "info", a log under its own
/// level. Nothing else is written.
pub proof fn law_what_is_written(
    sample: crate::bus::SampleData,
    alarm: AlarmData,
    device_id: Seq<char>,
    level: Seq<char>,
    msg: Seq<char>,
    event: EventData,
)
    ensures
        written_for(EventData::TelemetrySample(sample)) matches Some(DbData::Telemetry(written))
            && feed::sample_of(written) == sample && written.device_id == sample.device_id
            && written.sensor_id == sample.sensor_id && written.alarm_bit == sample.alarm_bit
            && written.t_sec == sample.t_sec && written.value == sample.value
            && written.request_id == sample.req_id && written.source_kind == sample.source_kind
            && written.axis == feed::axis_of(sample.source_kind, sample.sensor_id),
        written_for(EventData::AlarmRaised(alarm)) == Some(DbData::Alarm(alarm)),
        written_for(EventData::AlarmCleared(alarm)) == Some(DbData::Alarm(alarm)),
        written_for(EventData::System(msg)) == Some(
            DbData::System { level: "info"@, message: msg },
        ),
        written_for(EventData::Log { device_id, level, msg }) == Some(
            DbData::System { level, message: msg },
        ),
        event is ConnStateChanged || event is TelemetryUpdated || event is CommandResult
            ==> written_for(event) is None,
{
}

/// Whatever goes to the user interface is written too.
pub proof fn law_what_is_seen_is_written(
    counters: Map<(Seq<char>, usize), u64>,
    event: EventData,
)
    ensures
        feed::forwarded(counters, event) matches Some(seen) ==> (written_for(event) matches Some(
            written,
        ) && match seen {
            feed::FeedData::Telemetry(msg) => written == DbData::Telemetry(msg),
            feed::FeedData::Alarm(alarm) => written == DbData::Alarm(alarm),
            feed::FeedData::Status(msg) => written == (DbData::System {
                level: "info"@,
                message: msg,
            }),
        }),
{
}

/// A sample waits as long as fewer than 256 wait with it, and the writer asks for more without
/// waiting; the sample that fills a batch of 256 sends it off. Anything else is written at
/// once, last, behind one batch of all that waited.
pub proof fn law_batches(waiting: Seq<MsgData>, cmd: DbData)
    requires
        waiting.len() < 256,
    ensures
        ({
            let after = taken(waiting, cmd);
            match cmd {
                DbData::Telemetry(msg) => if waiting.len() + 1 < 256 {
                    &&& after.writes.len() == 0
                    &&& after.waiting == waiting.push(msg)
                    &&& after.next == Next::Poll
                } else {
                    &&& after.writes.len() == 1
                    &&& after.writes[0] == WriteData::Batch(waiting.push(msg))
                    &&& after.waiting.len() == 0
                    &&& after.next == Next::Wait
                },
                _ => {
                    &&& after.waiting.len() == 0
                    &&& after.next == Next::Poll
                    &&& after.writes.len() == if waiting.len() == 0 {
                        1int
                    } else {
                        2
                    }
                    &&& waiting.len() > 0 ==> after.writes[0] == WriteData::Batch(waiting)
                    &&& after.writes.last() == match cmd {
                        DbData::Alarm(alarm) => WriteData::Alarm(alarm),
                        DbData::System { level, message } => WriteData::System { level, message },
                        DbData::Telemetry(_) => arbitrary(),
                    }
                },
            }
        }),
{
}

/// A moment lies on the day that starts at or before it, less than a day of 86 400 000
/// milliseconds earlier; days start at multiples of that length.
pub proof fn law_day_of_a_moment(ts_ms: i64)
    ensures
        day_start(ts_ms) <= ts_ms < day_start(ts_ms) + 86_400_000,
        day_start(ts_ms) % 86_400_000 == 0,
{
    let day = day_of(ts_ms);
    assert(day * 86_400_000 % 86_400_000 == 0) by (nonlinear_arith);
}

/// A row of the columns is the sample of that row, column by column.
pub proof fn law_row_is_the_sample(columns: TelemetryColumns, i: int, msg: MsgData)
    requires
        columns.row_is(i, msg),
    ensures
        columns.device_ids@[i]@ == msg.device_id,
        columns.sensor_ids@[i] == msg.sensor_id as i32,
        columns.axes@[i]@ == msg.axis,
        columns.alarm_bits@[i] == msg.alarm_bit,
        columns.t_secs@[i] == msg.t_sec,
        columns.values@[i]@ == msg.value,
        columns.request_ids@[i] == msg.request_id as i64,
{
}

/// All columns are as long as the batch.
pub proof fn law_columns_are_even(columns: TelemetryColumns, n: nat)
    requires
        columns.len_is(n),
    ensures
        columns.device_ids@.len() == n,
        columns.sensor_ids@.len() == n,
        columns.axes@.len() == n,
        columns.alarm_bits@.len() == n,
        columns.t_secs@.len() == n,
        columns.values@.len() == n,
        columns.request_ids@.len() == n,
{
}

/// A day is touched exactly where one of the moments lies in it: at its first millisecond or
/// later, and before the first of the next day.
pub proof fn law_touched_days(ts_values: Seq<i64>, start: i64)
    ensures
        touches_day(ts_values, start) <==> start % 86_400_000 == 0 && exists|i: int|
            0 <= i < ts_values.len() && start <= #[trigger] ts_values[i] < start + 86_400_000,
{
    if touches_day(ts_values, start) {
        let i = choose|i: int|
            0 <= i < ts_values.len() && day_start(#[trigger] ts_values[i]) == start;
        law_day_of_a_moment(ts_values[i]);
    }
    if start % 86_400_000 == 0 && exists|i: int|
        0 <= i < ts_values.len() && start <= #[trigger] ts_values[i] < start + 86_400_000 {
        let i = choose|i: int|
            0 <= i < ts_values.len() && start <= #[trigger] ts_values[i] < start + 86_400_000;
        let day = start as int / 86_400_000;
        let past = ts_values[i] - start;
        assert(start == day * 86_400_000);
        assert(ts_values[i] as int / 86_400_000 == day);
        assert(day_start(ts_values[i]) == start);
    }
}

/// Samples go through one filter only where they are of one device, one sensor and one axis.
pub proof fn law_filters_are_apart(a: MsgData, b: MsgData)
    ensures
        filter_key(a) == filter_key(b) <==> a.device_id == b.device_id && a.sensor_id == b.sensor_id
            && a.axis == b.axis,
{
}

/// The things that writes write: a batch its samples in order, any other write the one thing.
pub proof fn law_things_written(batch: Seq<MsgData>, alarm: AlarmData, i: int)
    ensures
        WriteData::Batch(batch).things().len() == batch.len(),
        0 <= i < batch.len() ==> WriteData::Batch(batch).things()[i] == DbData::Telemetry(batch[i]),
        WriteData::Alarm(alarm).things().len() == 1,
        WriteData::Alarm(alarm).things()[0] == DbData::Alarm(alarm),
{
}

/// The levels have their own names in the database.
pub proof fn law_level_texts()
    ensures
        level_text(AlarmLevel::Info) == "Info"@,
        level_text(AlarmLevel::Warning) == "Warning"@,
        level_text(AlarmLevel::Critical) == "Critical"@,
        level_text(AlarmLevel::Purple) == "Purple"@,
{
}

} // verus!
