//! Reading the feed of the collector: what is reported, what is counted, and what comes next.
use vstd::prelude::*;

use crate::text;
use crate::time::Duration;

verus! {

/// How long to wait where the collector cannot be reached, in milliseconds.
pub const FEED_RETRY_MS: u64 = 500;

/// How long to wait after a connection, in milliseconds.
pub const FEED_REOPEN_MS: u64 = 300;

/// What has become of the last thing that was done for the feed.
#[derive(Debug)]
pub enum FeedEvent {
    /// The collector was reached at an address.
    Connected { addr: String },
    /// The collector was not reached.
    NotConnected { error: String },
    /// A line was read, and it holds a message.
    Message,
    /// A line was read that holds no message.
    NoMessage,
    /// No line could be read.
    Broken,
    /// There are no more lines.
    Ended,
    /// The message was put into the queue.
    Queued,
    /// The queue is full, and the message is lost.
    QueueFull,
    /// Nobody takes messages any more.
    QueueGone,
}

/// What comes next.
#[derive(Clone, Copy, Debug, PartialEq, Eq, Structural)]
pub enum FeedAction {
    /// Read a line.
    Read,
    /// Put the message into the queue.
    Queue,
    /// Wait so long, and connect again.
    Reconnect(Duration),
    Stop,
}

/// What is to be reported, if there is room for it, and what comes next.
#[derive(Debug)]
pub struct FeedStep {
    pub report: Option<String>,
    pub action: FeedAction,
}

/// What is to be reported and what comes next.
#[verifier::ext_equal]
pub ghost struct FeedStepData {
    pub report: Option<Seq<char>>,
    pub action: FeedAction,
}

impl View for FeedStep {
    type V = FeedStepData;

    open spec fn view(&self) -> FeedStepData {
        FeedStepData {
            report: match self.report {
                Some(report) => Some(report@),
                None => None,
            },
            action: self.action,
        }
    }
}

/// What is to be done after an event.
pub open spec fn feed_step(event: FeedEvent) -> FeedStepData {
    match event {
        FeedEvent::Connected { addr } => FeedStepData {
            report: Some("已连接 collector feed: "@ + addr@),
            action: FeedAction::Read,
        },
        FeedEvent::NotConnected { error } => FeedStepData {
            report: Some("等待 collector 中: "@ + error@),
            action: FeedAction::Reconnect(Duration { nanos: 500_000_000 }),
        },
        FeedEvent::Message => FeedStepData { report: None, action: FeedAction::Queue },
        FeedEvent::NoMessage => FeedStepData {
            report: Some("feed decode error"@),
            action: FeedAction::Read,
        },
        FeedEvent::Broken => FeedStepData {
            report: Some("collector feed 已断开，正在重连"@),
            action: FeedAction::Reconnect(Duration { nanos: 300_000_000 }),
        },
        FeedEvent::Ended => FeedStepData {
            report: None,
            action: FeedAction::Reconnect(Duration { nanos: 300_000_000 }),
        },
        FeedEvent::Queued => FeedStepData { report: None, action: FeedAction::Read },
        FeedEvent::QueueFull => FeedStepData { report: None, action: FeedAction::Read },
        FeedEvent::QueueGone => FeedStepData { report: None, action: FeedAction::Stop },
    }
}

/// What is counted of the feed. The counters begin at zero again behind their largest value.
#[derive(Clone, Copy, Debug, PartialEq, Eq, Structural)]
pub struct FeedStats {
    /// Messages that were lost because the queue was full.
    pub dropped_samples: u64,
    /// Lines that held no message.
    pub decode_errors: u64,
}

/// The next value of a counter.
pub open spec fn counted(n: u64) -> u64 {
    if n < u64::MAX {
        (n + 1) as u64
    } else {
        0
    }
}

fn count(n: u64) -> (r: u64)
    ensures
        r == counted(n),
{
    if n < u64::MAX {
        n + 1
    } else {
        0
    }
}

impl FeedStats {
    /// The counters behind an event.
    pub open spec fn after(self, event: FeedEvent) -> FeedStats {
        match event {
            FeedEvent::QueueFull => FeedStats {
                dropped_samples: counted(self.dropped_samples),
                ..self
            },
            FeedEvent::NoMessage => FeedStats {
                decode_errors: counted(self.decode_errors),
                ..self
            },
            _ => self,
        }
    }

    pub fn new() -> (r: Self)
        ensures
            r == (FeedStats { dropped_samples: 0, decode_errors: 0 }),
    {
        FeedStats { dropped_samples: 0, decode_errors: 0 }
    }

    /// Takes in an event; gives what is to be reported and what comes next.
    pub fn step(&mut self, event: FeedEvent) -> (r: FeedStep)
        ensures
            *final(self) == old(self).after(event),
            r@ == feed_step(event),
    {
        match event {
            FeedEvent::Connected { addr } => {
                let mut report = text::owned("已连接 collector feed: ");
                text::push_text(&mut report, addr.as_str());
                FeedStep { report: Some(report), action: FeedAction::Read }
            },
            FeedEvent::NotConnected { error } => {
                let mut report = text::owned("等待 collector 中: ");
                text::push_text(&mut report, error.as_str());
                let wait = Duration::from_millis(FEED_RETRY_MS);
                FeedStep { report: Some(report), action: FeedAction::Reconnect(wait) }
            },
            FeedEvent::Message => FeedStep { report: None, action: FeedAction::Queue },
            FeedEvent::NoMessage => {
                self.decode_errors = count(self.decode_errors);
                FeedStep {
                    report: Some(text::owned("feed decode error")),
                    action: FeedAction::Read,
                }
            },
            FeedEvent::Broken => {
                let wait = Duration::from_millis(FEED_REOPEN_MS);
                FeedStep {
                    report: Some(text::owned("collector feed 已断开，正在重连")),
                    action: FeedAction::Reconnect(wait),
                }
            },
            FeedEvent::Ended => {
                let wait = Duration::from_millis(FEED_REOPEN_MS);
                FeedStep { report: None, action: FeedAction::Reconnect(wait) }
            },
            FeedEvent::Queued => FeedStep { report: None, action: FeedAction::Read },
            FeedEvent::QueueFull => {
                self.dropped_samples = count(self.dropped_samples);
                FeedStep { report: None, action: FeedAction::Read }
            },
            FeedEvent::QueueGone => FeedStep { report: None, action: FeedAction::Stop },
        }
    }
}

/// The counters behind a run of events.
pub open spec fn stats_after(events: Seq<FeedEvent>) -> FeedStats
    decreases events.len(),
{
    if events.len() == 0 {
        FeedStats { dropped_samples: 0, decode_errors: 0 }
    } else {
        stats_after(events.drop_last()).after(events.last())
    }
}

/// Every message that is lost and every line that holds none is counted once, and nothing
/// else is; the counters run modulo 2 to the power of 64.
pub proof fn law_losses_are_counted(events: Seq<FeedEvent>)
    ensures
        stats_after(events).dropped_samples == events.filter(
            |event: FeedEvent| event is QueueFull,
        ).len() % 0x1_0000_0000_0000_0000,
        stats_after(events).decode_errors == events.filter(
            |event: FeedEvent| event is NoMessage,
        ).len() % 0x1_0000_0000_0000_0000,
    decreases events.len(),
{
    let full = |event: FeedEvent| event is QueueFull;
    let unread = |event: FeedEvent| event is NoMessage;
    reveal(Seq::filter);
    if events.len() > 0 {
        law_losses_are_counted(events.drop_last());
        lemma_next_count(
            stats_after(events.drop_last()).dropped_samples,
            events.drop_last().filter(full).len(),
        );
        lemma_next_count(
            stats_after(events.drop_last()).decode_errors,
            events.drop_last().filter(unread).len(),
        );
    }
}

proof fn lemma_next_count(counter: u64, n: nat)
    requires
        counter == n % 0x1_0000_0000_0000_0000,
    ensures
        counted(counter) == (n + 1) % 0x1_0000_0000_0000_0000,
{
}

/// What is done after each event: a line is read once the collector is reached, after a line
/// without a message, and after a message was queued or lost; a message is queued; half a
/// second is waited after the collector was not reached, three tenths after the feed broke or
/// ended; and all is over where nobody takes messages. What cannot be seen otherwise is
/// reported.
pub proof fn law_feed_steps(addr: String, error: String)
    ensures
        feed_step(FeedEvent::Connected { addr }).action == FeedAction::Read,
        feed_step(FeedEvent::Connected { addr }).report == Some(
            "已连接 collector feed: "@ + addr@,
        ),
        feed_step(FeedEvent::NotConnected { error }).action == FeedAction::Reconnect(
            Duration { nanos: 500_000_000 },
        ),
        feed_step(FeedEvent::NotConnected { error }).report == Some(
            "等待 collector 中: "@ + error@,
        ),
        feed_step(FeedEvent::Message).action == FeedAction::Queue,
        feed_step(FeedEvent::Message).report is None,
        feed_step(FeedEvent::NoMessage).action == FeedAction::Read,
        feed_step(FeedEvent::NoMessage).report == Some("feed decode error"@),
        feed_step(FeedEvent::Broken).action == FeedAction::Reconnect(
            Duration { nanos: 300_000_000 },
        ),
        feed_step(FeedEvent::Broken).report == Some("collector feed 已断开，正在重连"@),
        feed_step(FeedEvent::Ended).action == FeedAction::Reconnect(
            Duration { nanos: 300_000_000 },
        ),
        feed_step(FeedEvent::Ended).report is None,
        feed_step(FeedEvent::Queued).action == FeedAction::Read,
        feed_step(FeedEvent::Queued).report is None,
        feed_step(FeedEvent::QueueFull).action == FeedAction::Read,
        feed_step(FeedEvent::QueueFull).report is None,
        feed_step(FeedEvent::QueueGone).action == FeedAction::Stop,
        feed_step(FeedEvent::QueueGone).report is None,
{
}

/// A full queue counts a lost message, a line without a message counts an error, and nothing
/// else counts anything.
pub proof fn law_feed_counts(stats: FeedStats, event: FeedEvent)
    ensures
        event is QueueFull && stats.dropped_samples < u64::MAX ==> stats.after(
            event,
        ).dropped_samples == stats.dropped_samples + 1,
        event is NoMessage && stats.decode_errors < u64::MAX ==> stats.after(event).decode_errors
            == stats.decode_errors + 1,
        !(event is QueueFull) ==> stats.after(event).dropped_samples == stats.dropped_samples,
        !(event is NoMessage) ==> stats.after(event).decode_errors == stats.decode_errors,
{
}

/// The counts go round: behind the largest comes zero.
pub proof fn law_feed_counts_go_round(stats: FeedStats, event: FeedEvent)
    ensures
        event is QueueFull && stats.dropped_samples == u64::MAX ==> stats.after(
            event,
        ).dropped_samples == 0,
        event is NoMessage && stats.decode_errors == u64::MAX ==> stats.after(event).decode_errors
            == 0,
{
}

} // verus!
