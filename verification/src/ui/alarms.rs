//! The alarms on view: those that are raised, and the latest of all.
use std::collections::VecDeque;
use vstd::prelude::*;

use crate::domain::{AlarmData, AlarmEvent, AlarmLevel};
use crate::table;
use crate::table::{Table, TableKey};
use crate::text;
use crate::time::Instant;

verus! {

/// How many alarms the history holds.
pub const MAX_ALARM_HISTORY: usize = 50;

/// An alarm, and when it came in.
#[derive(Debug)]
pub struct AlarmViewItem {
    pub event: AlarmEvent,
    pub received_at: Instant,
}

/// An alarm, and when it came in.
#[verifier::ext_equal]
pub ghost struct ItemData {
    pub event: AlarmData,
    pub received_at: Instant,
}

impl View for AlarmViewItem {
    type V = ItemData;

    open spec fn view(&self) -> ItemData {
        ItemData { event: self.event@, received_at: self.received_at }
    }
}

impl Clone for AlarmViewItem {
    fn clone(&self) -> (r: Self)
        ensures
            r@ == self@,
    {
        AlarmViewItem { event: self.event.clone(), received_at: self.received_at }
    }
}

/// How grave a level is.
pub open spec fn rank_of(level: AlarmLevel) -> u8 {
    match level {
        AlarmLevel::Info => 1,
        AlarmLevel::Warning => 2,
        AlarmLevel::Critical => 3,
        AlarmLevel::Purple => 4,
    }
}

pub fn alarm_level_rank(level: &AlarmLevel) -> (r: u8)
    ensures
        r == rank_of(*level),
{
    match level {
        AlarmLevel::Info => 1,
        AlarmLevel::Warning => 2,
        AlarmLevel::Critical => 3,
        AlarmLevel::Purple => 4,
    }
}

/// The name of an alarm level on view.
pub open spec fn level_word(level: AlarmLevel) -> Seq<char> {
    match level {
        AlarmLevel::Info => "INFO"@,
        AlarmLevel::Warning => "WARNING"@,
        AlarmLevel::Critical => "CRITICAL"@,
        AlarmLevel::Purple => "PURPLE"@,
    }
}

pub fn alarm_level_text(level: &AlarmLevel) -> (r: &'static str)
    ensures
        r@ == level_word(*level),
        r@ == match level {
            AlarmLevel::Info => "INFO"@,
            AlarmLevel::Warning => "WARNING"@,
            AlarmLevel::Critical => "CRITICAL"@,
            AlarmLevel::Purple => "PURPLE"@,
        },
{
    match level {
        AlarmLevel::Info => "INFO",
        AlarmLevel::Warning => "WARNING",
        AlarmLevel::Critical => "CRITICAL",
        AlarmLevel::Purple => "PURPLE",
    }
}

/// What alarms are told apart by.
pub open spec fn key_of(event: AlarmData) -> Seq<char> {
    event.device_id + "::"@ + event.alarm_id
}

pub fn alarm_key(event: &AlarmEvent) -> (r: String)
    ensures
        r@ == key_of(event@),
{
    let mut r = text::owned(event.device_id.as_str());
    text::push_text(&mut r, "::");
    text::push_text(&mut r, event.alarm_id.as_str());
    r
}

/// The alarms that have an indicator of their own.
#[derive(Clone, Copy, Debug, PartialEq, Eq, Structural)]
pub enum AlarmGroup {
    Demo,
    Can,
    SentError,
}

/// Whether an alarm belongs to a group.
pub open spec fn belongs(event: AlarmData, group: AlarmGroup) -> bool {
    match group {
        AlarmGroup::Demo => event.alarm_id == "demo_alarm_bit"@,
        AlarmGroup::Can => text::begins_with(event.device_id, "can://"@),
        AlarmGroup::SentError => text::begins_with(event.alarm_id, "sent_error_"@),
    }
}

fn is_of_group(event: &AlarmEvent, group: AlarmGroup) -> (r: bool)
    ensures
        r == belongs(event@, group),
{
    match group {
        AlarmGroup::Demo => text::same_text(event.alarm_id.as_str(), "demo_alarm_bit"),
        AlarmGroup::Can => text::starts_with(event.device_id.as_str(), "can://"),
        AlarmGroup::SentError => text::starts_with(event.alarm_id.as_str(), "sent_error_"),
    }
}

/// The alarms on view.
pub struct AlarmBoard {
    active: Table<String, AlarmViewItem>,
    history: VecDeque<AlarmViewItem>,
    total: u64,
}

/// The alarms on view: the raised ones by their keys, the latest first, and how many there
/// were.
#[verifier::ext_equal]
pub ghost struct AlarmBoardData {
    pub active: Map<Seq<char>, ItemData>,
    pub history: Seq<ItemData>,
    pub total: u64,
}

impl View for AlarmBoard {
    type V = AlarmBoardData;

    closed spec fn view(&self) -> AlarmBoardData {
        AlarmBoardData {
            active: self.active@.map_values(|item: AlarmViewItem| item@),
            history: self.history@.map_values(|item: AlarmViewItem| item@),
            total: self.total,
        }
    }
}

impl AlarmBoardData {
    /// The history never grows beyond its limit.
    pub open spec fn wf(self) -> bool {
        self.history.len() <= MAX_ALARM_HISTORY
    }

    /// With one more alarm.
    pub open spec fn with_alarm(self, item: ItemData) -> AlarmBoardData {
        let key = key_of(item.event);
        let all = seq![item] + self.history;
        AlarmBoardData {
            active: if item.event.cleared {
                self.active.remove(key)
            } else {
                self.active.insert(key, item)
            },
            history: if all.len() > MAX_ALARM_HISTORY {
                all.take(MAX_ALARM_HISTORY as int)
            } else {
                all
            },
            total: if self.total < u64::MAX {
                (self.total + 1) as u64
            } else {
                self.total
            },
        }
    }

    /// Whether an alarm is among those that are raised.
    pub open spec fn raised(self, item: ItemData) -> bool {
        exists|key: Seq<char>| #[trigger]
            self.active.contains_key(key) && self.active[key] == item
    }

    /// Whether an alarm of a group is raised.
    pub open spec fn any_active(self, group: AlarmGroup) -> bool {
        exists|key: Seq<char>|
            #[trigger] self.active.contains_key(key) && belongs(self.active[key].event, group)
    }
}

impl AlarmBoard {
    pub fn new() -> (r: Self)
        ensures
            r@ == (AlarmBoardData { active: Map::empty(), history: Seq::empty(), total: 0 }),
            r@.wf(),
    {
        let r = AlarmBoard { active: Table::new(), history: VecDeque::new(), total: 0 };
        proof {
            assert(r@.active =~= Map::<Seq<char>, ItemData>::empty());
            assert(r@.history =~= Seq::<ItemData>::empty());
        }
        r
    }

    pub fn total(&self) -> (r: u64)
        ensures
            r == self@.total,
    {
        self.total
    }

    pub fn active_len(&self) -> (r: usize)
        ensures
            r == self@.active.dom().len(),
    {
        proof {
            assert(self@.active.dom() =~= self.active@.dom());
        }
        self.active.len()
    }

    pub fn history_len(&self) -> (r: usize)
        ensures
            r == self@.history.len(),
    {
        self.history.len()
    }

    pub fn history_item(&self, i: usize) -> (r: &AlarmViewItem)
        requires
            i < self@.history.len(),
        ensures
            r@ == self@.history[i as int],
    {
        &self.history[i]
    }

    /// Takes in an alarm.
    pub fn apply_alarm(&mut self, alarm: AlarmEvent, received_at: Instant)
        requires
            old(self)@.wf(),
        ensures
            final(self)@ == old(self)@.with_alarm(ItemData { event: alarm@, received_at }),
            final(self)@.wf(),
    {
        let ghost before = self@;
        let ghost item = ItemData { event: alarm@, received_at };
        let key: String = alarm_key(&alarm);
        if self.total < u64::MAX {
            self.total = self.total + 1;
        }
        if alarm.cleared {
            let _ = self.active.remove(&key);
        } else {
            self.active.insert(key, AlarmViewItem { event: alarm.clone(), received_at });
        }
        self.history.push_front(AlarmViewItem { event: alarm, received_at });
        proof {
            assert(self@.history =~= seq![item] + before.history);
        }
        if self.history.len() > MAX_ALARM_HISTORY {
            let _ = self.history.pop_back();
        }
        proof {
            assert(self@ =~= before.with_alarm(item));
        }
    }

    /// The gravest level that is raised.
    pub fn summary_level(&self) -> (r: Option<AlarmLevel>)
        ensures
            match r {
                Some(level) => {
                    &&& exists|key: Seq<char>|
                        #[trigger] self@.active.contains_key(key)
                            && self@.active[key].event.level == level
                    &&& forall|key: Seq<char>| #[trigger]
                        self@.active.contains_key(key) ==> rank_of(self@.active[key].event.level)
                            <= rank_of(level)
                },
                None => forall|key: Seq<char>| !(#[trigger] self@.active.contains_key(key)),
            },
    {
        let rows: &Vec<(String, AlarmViewItem)> = self.active.rows();
        let mut gravest: Option<AlarmLevel> = None;
        for i in 0..rows.len()
            invariant
                self.active@ == table::row_map(rows@),
                table::distinct(rows@),
                match gravest {
                    Some(level) => {
                        &&& exists|j: int|
                            0 <= j < i && (#[trigger] rows@[j]).1.event.level == level
                        &&& forall|j: int|
                            0 <= j < i ==> rank_of((#[trigger] rows@[j]).1.event.level) <= rank_of(
                                level,
                            )
                    },
                    None => i == 0,
                },
        {
            let level: AlarmLevel = rows[i].1.event.level;
            let graver = match gravest {
                Some(known) => alarm_level_rank(&level) > alarm_level_rank(&known),
                None => true,
            };
            proof {
                assert(rows@[i as int].1.event.level == level);
            }
            if graver {
                gravest = Some(level);
            }
        }
        proof {
            assert forall|key: Seq<char>| #[trigger] self@.active.contains_key(key) implies exists|
                j: int,
            |
                0 <= j < rows@.len() && (#[trigger] rows@[j]).1@ == self@.active[key] by {
                lemma_row_of_key(rows@, key);
            }
            if gravest is Some {
                let j = choose|j: int|
                    0 <= j < rows@.len() && (#[trigger] rows@[j]).1.event.level == gravest->0;
                lemma_key_of_row(rows@, j);
                let key = rows@[j].0@;
                assert(self@.active.contains_key(key));
                assert(self@.active[key].event.level == gravest->0);
            }
        }
        gravest
    }

    /// A raised alarm of a group, or the latest that is not raised any more. Of the errors of
    /// SENT only the raised ones show.
    pub fn indicator(&self, group: AlarmGroup) -> (r: Option<(&AlarmViewItem, bool)>)
        ensures
            match r {
                Some((item, true)) => exists|key: Seq<char>|
                    #[trigger] self@.active.contains_key(key) && self@.active[key] == item@
                        && belongs(item@.event, group),
                Some((item, false)) => {
                    &&& !self@.any_active(group)
                    &&& group != AlarmGroup::SentError
                    &&& exists|i: int|
                        {
                            &&& 0 <= i < self@.history.len()
                            &&& #[trigger] self@.history[i] == item@
                            &&& belongs(item@.event, group)
                            &&& forall|j: int|
                                0 <= j < i ==> !belongs((#[trigger] self@.history[j]).event, group)
                        }
                },
                None => {
                    &&& !self@.any_active(group)
                    &&& group == AlarmGroup::SentError || forall|i: int|
                        0 <= i < self@.history.len() ==> !belongs(
                            (#[trigger] self@.history[i]).event,
                            group,
                        )
                },
            },
    {
        let rows: &Vec<(String, AlarmViewItem)> = self.active.rows();
        for i in 0..rows.len()
            invariant
                self.active@ == table::row_map(rows@),
                table::distinct(rows@),
                forall|j: int| 0 <= j < i ==> !belongs((#[trigger] rows@[j]).1@.event, group),
        {
            if is_of_group(&rows[i].1.event, group) {
                proof {
                    lemma_key_of_row(rows@, i as int);
                    let key = rows@[i as int].0@;
                    assert(self@.active.contains_key(key));
                    assert(self@.active[key] == rows@[i as int].1@);
                }
                return Some((&rows[i].1, true));
            }
        }
        proof {
            assert forall|key: Seq<char>| #[trigger] self@.active.contains_key(key) implies !belongs(
                self@.active[key].event,
                group,
            ) by {
                lemma_row_of_key(rows@, key);
            }
        }
        if group == AlarmGroup::SentError {
            return None;
        }
        for i in 0..self.history.len()
            invariant
                group != AlarmGroup::SentError,
                !self@.any_active(group),
                forall|j: int| 0 <= j < i ==> !belongs((#[trigger] self@.history[j]).event, group),
        {
            if is_of_group(&self.history[i].event, group) {
                proof {
                    assert(self@.history[i as int] == self.history@[i as int]@);
                }
                return Some((&self.history[i], false));
            }
        }
        None
    }

    /// The raised alarms, the latest first.
    pub fn active_items(&self) -> (r: Vec<AlarmViewItem>)
        ensures
            r@.len() == self@.active.dom().len(),
            forall|i: int, j: int|
                0 <= i <= j < r@.len() ==> (#[trigger] r@[i]).received_at.nanos >= (
                #[trigger] r@[j]).received_at.nanos,
            forall|key: Seq<char>| #[trigger]
                self@.active.contains_key(key) ==> exists|i: int|
                    0 <= i < r@.len() && (#[trigger] r@[i])@ == self@.active[key],
            forall|i: int| 0 <= i < r@.len() ==> self@.raised((#[trigger] r@[i])@),
    {
        let rows: &Vec<(String, AlarmViewItem)> = self.active.rows();
        let mut out: Vec<AlarmViewItem> = Vec::new();
        for i in 0..rows.len()
            invariant
                out@.len() == i,
                forall|a: int, b: int|
                    0 <= a <= b < out@.len() ==> (#[trigger] out@[a]).received_at.nanos >= (
                    #[trigger] out@[b]).received_at.nanos,
                forall|j: int| 0 <= j < i ==> listed(out@, (#[trigger] rows@[j]).1@),
                forall|k: int| 0 <= k < out@.len() ==> row_shown(rows@, i as int, (#[trigger] out@[k])@),
        {
            let item: AlarmViewItem = rows[i].1.clone();
            let ghost before = out@;
            let ghost data = item@;
            let mut at: usize = out.len();
            while at > 0 && out[at - 1].received_at.nanos < item.received_at.nanos
                invariant
                    at <= out@.len(),
                    out@ == before,
                    forall|k: int|
                        at <= k < out@.len() ==> (#[trigger] out@[k]).received_at.nanos
                            < item.received_at.nanos,
                decreases at,
            {
                at = at - 1;
            }
            out.insert(at, item);
            proof {
                assert(out@ =~= before.insert(at as int, item));
                assert(out@[at as int]@ == data);
                assert(listed(out@, rows@[i as int].1@));
                assert forall|j: int| 0 <= j < i implies listed(out@, (#[trigger] rows@[j]).1@) by {
                    assert(listed(before, rows@[j].1@));
                    let k = choose|k: int|
                        0 <= k < before.len() && (#[trigger] before[k])@ == rows@[j].1@;
                    let moved = if k < at {
                        k
                    } else {
                        k + 1
                    };
                    assert(out@[moved]@ == rows@[j].1@);
                }
                assert forall|k: int| 0 <= k < out@.len() implies row_shown(
                    rows@,
                    i + 1,
                    (#[trigger] out@[k])@,
                ) by {
                    if k == at {
                        assert(rows@[i as int].1@ == out@[k]@);
                    } else {
                        let from = if k < at {
                            k
                        } else {
                            k - 1
                        };
                        assert(row_shown(rows@, i as int, before[from]@));
                    }
                }
            }
        }
        proof {
            assert(self@.active.dom() =~= self.active@.dom());
            table::lemma_dom_len(rows@);
            assert forall|key: Seq<char>| #[trigger] self@.active.contains_key(key) implies exists|
                i: int,
            |
                0 <= i < out@.len() && (#[trigger] out@[i])@ == self@.active[key] by {
                lemma_row_of_key(rows@, key);
                let j = choose|j: int|
                    0 <= j < rows@.len() && (#[trigger] rows@[j]).0@ == key && rows@[j].1
                        == table::row_map(rows@)[key];
                assert(listed(out@, rows@[j].1@));
            }
            assert forall|i: int| 0 <= i < out@.len() implies self@.raised((#[trigger] out@[i])@) by {
                assert(row_shown(rows@, rows@.len() as int, out@[i]@));
                let j = choose|j: int| 0 <= j < rows@.len() && (#[trigger] rows@[j]).1@ == out@[i]@;
                lemma_key_of_row(rows@, j);
                assert(self@.active.contains_key(rows@[j].0@));
            }
        }
        out
    }
}

spec fn listed(items: Seq<AlarmViewItem>, data: ItemData) -> bool {
    exists|k: int| 0 <= k < items.len() && (#[trigger] items[k])@ == data
}

spec fn row_shown(rows: Seq<(String, AlarmViewItem)>, n: int, data: ItemData) -> bool {
    exists|j: int| 0 <= j < n && (#[trigger] rows[j]).1@ == data
}

proof fn lemma_key_of_row(rows: Seq<(String, AlarmViewItem)>, i: int)
    requires
        table::distinct(rows),
        0 <= i < rows.len(),
    ensures
        table::row_map(rows).contains_key(rows[i].0@),
        table::row_map(rows)[rows[i].0@] == rows[i].1,
{
    table::lemma_row(rows, i);
    assert(rows[i].0.id() == rows[i].0@);
}

proof fn lemma_row_of_key(rows: Seq<(String, AlarmViewItem)>, key: Seq<char>)
    requires
        table::distinct(rows),
        table::row_map(rows).contains_key(key),
    ensures
        exists|j: int|
            0 <= j < rows.len() && (#[trigger] rows[j]).0@ == key && rows[j].1 == table::row_map(
                rows,
            )[key],
{
    let j = table::row_of(rows, key);
    assert(table::has_row(rows, key));
    assert(0 <= j < rows.len() && rows[j].0.id() == key);
    table::lemma_row(rows, j);
    assert(rows[j].0@ == key);
}

/// An alarm is on view from when it is raised until it is cleared, whatever other alarms come
/// in between.
pub proof fn law_alarm_stays_until_cleared(board: AlarmBoardData, raised: ItemData, other: ItemData)
    requires
        !raised.event.cleared,
        key_of(other.event) != key_of(raised.event),
    ensures
        board.with_alarm(raised).active.contains_key(key_of(raised.event)),
        board.with_alarm(raised).with_alarm(other).active.contains_key(key_of(raised.event)),
        board.with_alarm(raised).with_alarm(other).active[key_of(raised.event)] == raised,
{
}

/// Clearing an alarm takes it off the view, and leaves it in the history.
pub proof fn law_cleared_alarm_is_gone(board: AlarmBoardData, cleared: ItemData)
    requires
        cleared.event.cleared,
    ensures
        !board.with_alarm(cleared).active.contains_key(key_of(cleared.event)),
        board.with_alarm(cleared).history[0] == cleared,
{
}

/// What comes stands first in the history, and what stood there moves back by one place; of the
/// fifty that are kept the oldest leaves. Each that comes is counted.
pub proof fn law_history(board: AlarmBoardData, item: ItemData, i: int)
    requires
        board.wf(),
    ensures
        ({
            let after = board.with_alarm(item);
            &&& after.history[0] == item
            &&& after.history.len() == if board.history.len() < 50 {
                board.history.len() + 1
            } else {
                50
            }
            &&& 0 < i < after.history.len() ==> after.history[i] == board.history[i - 1]
            &&& board.total < u64::MAX ==> after.total == board.total + 1
            &&& board.total == u64::MAX ==> after.total == board.total
        }),
{
}

/// Alarms are told apart by device and name: one that comes changes what is raised under its
/// own key only.
pub proof fn law_other_alarms_stay(board: AlarmBoardData, item: ItemData, key: Seq<char>)
    requires
        key != item.event.device_id + "::"@ + item.event.alarm_id,
    ensures
        board.with_alarm(item).active.contains_key(key) <==> board.active.contains_key(key),
        board.active.contains_key(key) ==> board.with_alarm(item).active[key] == board.active[key],
        key_of(item.event) == item.event.device_id + "::"@ + item.event.alarm_id,
{
}

/// The levels rank from Info over Warning and Critical to Purple.
pub proof fn law_levels_rank()
    ensures
        0 < rank_of(AlarmLevel::Info) < rank_of(AlarmLevel::Warning) < rank_of(
            AlarmLevel::Critical,
        ) < rank_of(AlarmLevel::Purple),
{
}

/// The alarms of the demo board, of the CAN bus and of the SENT errors are those that their
/// sources raise: the alarm bit by its name, whatever comes from a device on the bus, and an
/// error by the name that it is raised under.
pub proof fn law_groups_of_alarms(event: AlarmData, rest: Seq<char>)
    ensures
        belongs(event, AlarmGroup::Demo) <==> event.alarm_id == "demo_alarm_bit"@,
        event.device_id == "can://"@ + rest ==> belongs(event, AlarmGroup::Can),
        event.device_id == "serial://"@ + rest ==> !belongs(event, AlarmGroup::Can),
        event.device_id == "tcp://"@ + rest ==> !belongs(event, AlarmGroup::Can),
        event.alarm_id == "sent_error_"@ + rest ==> belongs(event, AlarmGroup::SentError),
        event.alarm_id == "demo_alarm_bit"@ ==> !belongs(event, AlarmGroup::SentError),
{
    reveal_strlit("can://");
    reveal_strlit("serial://");
    reveal_strlit("tcp://");
    reveal_strlit("sent_error_");
    reveal_strlit("demo_alarm_bit");
    assert(("can://"@ + rest).take(6) =~= "can://"@);
    assert(("sent_error_"@ + rest).take(11) =~= "sent_error_"@);
    assert(("serial://"@ + rest).take(6)[0] == 's' && "can://"@[0] == 'c');
    assert(("tcp://"@ + rest).take(6)[0] == 't');
    assert("demo_alarm_bit"@.take(11)[0] == 'd' && "sent_error_"@[0] == 's');
}

/// A group has an alarm on view as long as one of its alarms is raised, and none once nothing
/// is raised.
pub proof fn law_group_is_on_view(board: AlarmBoardData, raised: ItemData, group: AlarmGroup)
    ensures
        !raised.event.cleared && belongs(raised.event, group) ==> board.with_alarm(
            raised,
        ).any_active(group),
        board.active == Map::<Seq<char>, ItemData>::empty() ==> !board.any_active(group),
        !raised.event.cleared ==> board.with_alarm(raised).raised(raised),
{
    let key = key_of(raised.event);
    if !raised.event.cleared {
        assert(board.with_alarm(raised).active.contains_key(key));
    }
}

/// The levels have their own names on view.
pub proof fn law_level_words()
    ensures
        level_word(AlarmLevel::Info) == "INFO"@,
        level_word(AlarmLevel::Warning) == "WARNING"@,
        level_word(AlarmLevel::Critical) == "CRITICAL"@,
        level_word(AlarmLevel::Purple) == "PURPLE"@,
{
}

} // verus!
