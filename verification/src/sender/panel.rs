//! The sender's window: what its fields hold, what it reports, and what its buttons do.
use std::collections::VecDeque;
use vstd::prelude::*;

use crate::sender::frames;
use crate::sender::options;
use crate::sender::options::{SenderConfig, SenderFields};
use crate::text;
use crate::transport::can;
use crate::transport::can::CanTxFrame;

verus! {

/// How many lines the log holds.
pub const MAX_LOG_LINES: usize = 300;

/// The identifier of the frame that is sent by hand.
pub const CAN_TX_ID: u32 = 0x123;

/// What a worker in the background reports.
#[derive(Debug)]
pub enum WorkerMsg {
    Log(String),
    Stats { sent_frames: u64, ack_frames: u64, last_req: u64 },
    Finished { ok: bool, message: String },
}

/// What the window shows and remembers.
#[derive(Debug)]
pub struct SenderPanel {
    pub fields: SenderFields,
    pub can_export_path: String,
    pub status: String,
    pub logs: VecDeque<String>,
    pub sent_frames: u64,
    pub ack_frames: u64,
    pub last_req: u64,
    pub can_tx_counter: u8,
    /// A worker runs in the background.
    pub busy: bool,
    /// The worker can be stopped.
    pub stoppable: bool,
}

/// What the window shows and remembers, but for the fields that are typed in.
#[verifier::ext_equal]
pub ghost struct PanelData {
    pub status: Seq<char>,
    pub logs: Seq<Seq<char>>,
    pub sent_frames: u64,
    pub ack_frames: u64,
    pub last_req: u64,
    pub can_tx_counter: u8,
    pub busy: bool,
    pub stoppable: bool,
}

impl View for SenderPanel {
    type V = PanelData;

    open spec fn view(&self) -> PanelData {
        PanelData {
            status: self.status@,
            logs: self.logs@.map_values(|line: String| line@),
            sent_frames: self.sent_frames,
            ack_frames: self.ack_frames,
            last_req: self.last_req,
            can_tx_counter: self.can_tx_counter,
            busy: self.busy,
            stoppable: self.stoppable,
        }
    }
}

impl PanelData {
    /// The log never grows beyond its limit.
    pub open spec fn wf(self) -> bool {
        self.logs.len() <= MAX_LOG_LINES
    }

    /// With one more line in the log; the oldest makes room for it.
    pub open spec fn with_log(self, line: Seq<char>) -> PanelData {
        PanelData {
            logs: if self.logs.len() >= MAX_LOG_LINES {
                self.logs.skip(1).push(line)
            } else {
                self.logs.push(line)
            },
            ..self
        }
    }

    /// With a new status, which is logged too.
    pub open spec fn with_status(self, status: Seq<char>) -> PanelData {
        PanelData { status, ..self }.with_log(status)
    }

    /// With nothing sent yet.
    pub open spec fn from_zero(self) -> PanelData {
        PanelData { sent_frames: 0, ack_frames: 0, last_req: 0, ..self }
    }
}

/// The window after the sender's task has been written into the collector's configuration.
pub open spec fn started(p: PanelData, cfg: options::SenderData, message: Seq<char>) -> PanelData {
    PanelData { busy: true, stoppable: true, ..p.with_log(message) }.with_status(
        "starting: "@ + cfg.port + " @ "@ + text::decimal(cfg.baud as nat),
    ).with_log(
        "collector mode synced to '"@ + cfg.format.collector_mode()
            + "'; restart collector_service if it is already running"@,
    ).from_zero()
}

/// The window after a message of the worker.
pub open spec fn handled(p: PanelData, msg: WorkerMsg) -> PanelData {
    match msg {
        WorkerMsg::Log(line) => p.with_log(line@),
        WorkerMsg::Stats { sent_frames, ack_frames, last_req } => PanelData {
            sent_frames,
            ack_frames,
            last_req,
            ..p
        },
        WorkerMsg::Finished { ok, message } => p.with_status(
            if ok {
                "finished: "@ + message@
            } else {
                "failed: "@ + message@
            },
        ),
    }
}

impl SenderPanel {
    /// Whether all that is typed in stands as it does in another window.
    pub open spec fn typed_as(&self, other: SenderPanel) -> bool {
        self.fields == other.fields && self.can_export_path == other.can_export_path
    }

    pub fn new() -> (r: Self)
        ensures
            r@ == (PanelData {
                status: "idle"@,
                logs: Seq::empty(),
                sent_frames: 0,
                ack_frames: 0,
                last_req: 0,
                can_tx_counter: 0,
                busy: false,
                stoppable: false,
            }),
            r@.wf(),
            r.fields.port@ == "COM4"@,
            r.fields.baud@ == "2000000"@,
            r.fields.format@ == "sent1"@,
            r.fields.sensor_count@ == "4"@,
            r.fields.interval_ms@ == "30"@,
            r.fields.duration_secs@ == "60"@,
            r.can_export_path@
                == "C:\\Users\\admin\\Desktop\\xd\\target\\debug\\exports\\can_export_04-22_13-18-27_04-22_13-13-25_04-22_13-18-25.txt"@,
    {
        let r = SenderPanel {
            fields: SenderFields {
                port: text::owned("COM4"),
                baud: text::owned("2000000"),
                format: text::owned("sent1"),
                sensor_count: text::owned("4"),
                interval_ms: text::owned("30"),
                duration_secs: text::owned("60"),
            },
            can_export_path: text::owned(
                "C:\\Users\\admin\\Desktop\\xd\\target\\debug\\exports\\can_export_04-22_13-18-27_04-22_13-13-25_04-22_13-18-25.txt",
            ),
            status: text::owned("idle"),
            logs: VecDeque::new(),
            sent_frames: 0,
            ack_frames: 0,
            last_req: 0,
            can_tx_counter: 0,
            busy: false,
            stoppable: false,
        };
        proof {
            assert(r@.logs =~= Seq::<Seq<char>>::empty());
        }
        r
    }

    pub fn push_log(&mut self, line: String)
        requires
            old(self)@.wf(),
        ensures
            final(self)@ == old(self)@.with_log(line@),
            final(self)@.wf(),
            final(self).typed_as(*old(self)),
    {
        let ghost before = self@;
        if self.logs.len() >= MAX_LOG_LINES {
            let _ = self.logs.pop_front();
        }
        self.logs.push_back(line);
        proof {
            assert(self@ =~= before.with_log(line@));
        }
    }

    fn set_status(&mut self, status: String)
        requires
            old(self)@.wf(),
        ensures
            final(self)@ == old(self)@.with_status(status@),
            final(self)@.wf(),
            final(self).typed_as(*old(self)),
    {
        let line: String = text::owned(status.as_str());
        self.status = status;
        proof {
            assert(self@ == (PanelData { status: status@, ..old(self)@ }));
        }
        self.push_log(line);
    }

    pub fn is_running(&self) -> (r: bool)
        ensures
            r == self@.stoppable,
    {
        self.stoppable
    }

    /// The task that the fields give, or the fault in them, which is reported.
    pub fn start_worker(&mut self) -> (r: Option<SenderConfig>)
        requires
            old(self)@.wf(),
        ensures
            final(self)@.wf(),
            final(self).typed_as(*old(self)),
            match options::fields_config(old(self).fields) {
                Ok(cfg) => r is Some && r->0@ == cfg && final(self)@ == old(self)@,
                Err(fault) => r is None && final(self)@ == old(self)@.with_status(
                    "config error: "@ + fault.context,
                ),
            },
    {
        match self.fields.parse_config() {
            Ok(cfg) => Some(cfg),
            Err(fault) => {
                let mut status = text::owned("config error: ");
                text::push_text(&mut status, fault.context.as_str());
                self.set_status(status);
                None
            },
        }
    }

    /// The task stands in the collector's configuration, and the worker starts.
    pub fn worker_started(&mut self, cfg: &SenderConfig, message: String)
        requires
            old(self)@.wf(),
        ensures
            final(self)@ == started(old(self)@, cfg@, message@),
            final(self)@.wf(),
            final(self).typed_as(*old(self)),
    {
        self.push_log(message);
        let ghost logged = self@;
        self.busy = true;
        self.stoppable = true;
        proof {
            assert(self@ == (PanelData { busy: true, stoppable: true, ..logged }));
        }
        let mut status = text::owned("starting: ");
        text::push_text(&mut status, cfg.port.as_str());
        text::push_text(&mut status, " @ ");
        text::push_decimal(&mut status, cfg.baud as u64);
        self.set_status(status);
        let mut line = text::owned("collector mode synced to '");
        text::push_text(&mut line, cfg.format.collector_serial_mode());
        text::push_text(&mut line, "'; restart collector_service if it is already running");
        self.push_log(line);
        self.clear_counts();
    }

    fn clear_counts(&mut self)
        ensures
            final(self)@ == old(self)@.from_zero(),
            final(self).typed_as(*old(self)),
    {
        self.sent_frames = 0;
        self.ack_frames = 0;
        self.last_req = 0;
    }

    /// The collector's configuration could not be written.
    pub fn sync_failed(&mut self, error: &str)
        requires
            old(self)@.wf(),
        ensures
            final(self)@ == old(self)@.with_status("config sync error: "@ + error@),
            final(self)@.wf(),
            final(self).typed_as(*old(self)),
    {
        let mut status = text::owned("config sync error: ");
        text::push_text(&mut status, error);
        self.set_status(status);
    }

    /// The frame to send by hand, unless a worker is busy.
    pub fn send_can_frame_once(&mut self) -> (r: Option<CanTxFrame>)
        requires
            old(self)@.wf(),
        ensures
            final(self)@.wf(),
            final(self).typed_as(*old(self)),
            ({
                let p = old(self)@;
                let counter = p.can_tx_counter;
                if p.busy {
                    r is None && final(self)@ == p.with_status("background task still running"@)
                } else {
                    &&& r is Some && is_frame_by_hand(r->0, counter)
                    &&& final(self)@ == (PanelData {
                        busy: true,
                        can_tx_counter: ((counter + 1) % 256) as u8,
                        ..p
                    }).with_status(
                        "sending CAN frame counter=0x"@ + text::zero_padded(
                            text::hex(counter as nat),
                            2,
                        ),
                    )
                }
            }),
    {
        let ghost p = self@;
        if self.busy {
            self.set_status(text::owned("background task still running"));
            return None;
        }
        let counter: u8 = self.can_tx_counter;
        self.can_tx_counter = if counter == 255 {
            0
        } else {
            counter + 1
        };
        self.busy = true;
        proof {
            assert(self@ == (PanelData {
                busy: true,
                can_tx_counter: ((counter + 1) % 256) as u8,
                ..p
            }));
        }
        let mut status = text::owned("sending CAN frame counter=0x");
        text::push_hex_padded(&mut status, counter as u64, 2);
        self.set_status(status);
        Some(frame_by_hand(counter))
    }

    /// The recording to play back, unless a worker is busy or none is named.
    pub fn start_can_export_replay(&mut self) -> (r: Option<String>)
        requires
            old(self)@.wf(),
        ensures
            final(self)@.wf(),
            final(self).typed_as(*old(self)),
            ({
                let p = old(self)@;
                let path = text::trimmed(old(self).can_export_path@);
                if p.busy {
                    r is None && final(self)@ == p.with_status("background task still running"@)
                } else if path.len() == 0 {
                    r is None && final(self)@ == p.with_status("CAN export path cannot be empty"@)
                } else {
                    &&& r is Some && r->0@ == path
                    &&& final(self)@ == (PanelData {
                        busy: true,
                        stoppable: true,
                        ..p.from_zero()
                    }).with_status("replaying CAN export: "@ + path)
                }
            }),
    {
        let ghost p = self@;
        if self.busy {
            self.set_status(text::owned("background task still running"));
            return None;
        }
        let chars: Vec<char> = text::chars_of(self.can_export_path.as_str());
        let path: &[char] = text::trim(chars.as_slice());
        if path.len() == 0 {
            self.set_status(text::owned("CAN export path cannot be empty"));
            return None;
        }
        self.clear_counts();
        self.busy = true;
        self.stoppable = true;
        proof {
            assert(self@ == (PanelData { busy: true, stoppable: true, ..p.from_zero() }));
        }
        let path: String = text::string_of(path);
        let mut status = text::owned("replaying CAN export: ");
        text::push_text(&mut status, path.as_str());
        self.set_status(status);
        Some(path)
    }

    /// Whether the worker is told to stop: where it can be.
    pub fn stop_worker(&mut self) -> (r: bool)
        requires
            old(self)@.wf(),
        ensures
            r == old(self)@.stoppable,
            final(self)@ == if r {
                old(self)@.with_status("stop requested"@)
            } else {
                old(self)@
            },
            final(self)@.wf(),
            final(self).typed_as(*old(self)),
    {
        if self.stoppable {
            self.set_status(text::owned("stop requested"));
            true
        } else {
            false
        }
    }

    /// Takes in a message of the worker; says whether it was the last.
    pub fn handle(&mut self, msg: WorkerMsg) -> (r: bool)
        requires
            old(self)@.wf(),
        ensures
            final(self)@ == handled(old(self)@, msg),
            r == (msg is Finished),
            final(self)@.wf(),
            final(self).typed_as(*old(self)),
    {
        match msg {
            WorkerMsg::Log(line) => {
                self.push_log(line);
                false
            },
            WorkerMsg::Stats { sent_frames, ack_frames, last_req } => {
                self.sent_frames = sent_frames;
                self.ack_frames = ack_frames;
                self.last_req = last_req;
                false
            },
            WorkerMsg::Finished { ok, message } => {
                let mut status = if ok {
                    text::owned("finished: ")
                } else {
                    text::owned("failed: ")
                };
                text::push_text(&mut status, message.as_str());
                self.set_status(status);
                true
            },
        }
    }

    /// The worker is gone: after its last message, or because it broke off.
    pub fn worker_gone(&mut self)
        ensures
            final(self)@ == (PanelData { busy: false, stoppable: false, ..old(self)@ }),
            final(self).typed_as(*old(self)),
    {
        self.busy = false;
        self.stoppable = false;
    }

    /// CAN has been switched on in the collector's configuration.
    pub fn can_synced(&mut self, message: String)
        requires
            old(self)@.wf(),
        ensures
            final(self)@ == (PanelData { status: "collector CAN config synced"@, ..old(self)@ }).with_log(
                message@,
            ).with_log(
                "collector will start CAN listen after restart; frame parsing stays for the next step"@,
            ),
            final(self)@.wf(),
            final(self).typed_as(*old(self)),
    {
        self.status = text::owned("collector CAN config synced");
        proof {
            assert(self@ == (PanelData {
                status: "collector CAN config synced"@,
                ..old(self)@
            }));
        }
        self.push_log(message);
        self.push_log(
            text::owned(
                "collector will start CAN listen after restart; frame parsing stays for the next step",
            ),
        );
    }

    /// CAN could not be switched on in the collector's configuration.
    pub fn can_sync_failed(&mut self, error: &str)
        requires
            old(self)@.wf(),
        ensures
            final(self)@ == old(self)@.with_status("CAN config sync error: "@ + error@),
            final(self)@.wf(),
            final(self).typed_as(*old(self)),
    {
        let mut status = text::owned("CAN config sync error: ");
        text::push_text(&mut status, error);
        self.set_status(status);
    }
}

/// Whether a frame is the one that is sent by hand: a counter, and seven bytes that do not
/// change.
pub open spec fn is_frame_by_hand(frame: CanTxFrame, counter: u8) -> bool {
    &&& frame.channel == 0
    &&& frame.identifier == CAN_TX_ID
    &&& !frame.is_extended
    &&& frame.dlc == 8
    &&& frame.data@ == can::padded(seq![counter, 0x22, 0x33, 0x44, 0x55, 0x66, 0x77, 0x88])
}

fn frame_by_hand(counter: u8) -> (r: CanTxFrame)
    ensures
        is_frame_by_hand(r, counter),
{
    let data: [u8; 8] = [counter, 0x22, 0x33, 0x44, 0x55, 0x66, 0x77, 0x88];
    proof {
        assert(data@ =~= seq![counter, 0x22, 0x33, 0x44, 0x55, 0x66, 0x77, 0x88]);
    }
    CanTxFrame::new(0, CAN_TX_ID, 8, data)
}

/// What is reported when a frame has been sent by hand.
pub fn can_tx_message(data: &[u8]) -> (r: String)
    ensures
        r@ == "CAN TX sent: ch=0 id=0x123 dlc=8 data="@ + frames::hex_list(data@),
{
    let mut r = text::owned("CAN TX sent: ch=0 id=0x123 dlc=8 data=");
    frames::push_hex_list(&mut r, data);
    r
}

/// A worker that has come to its end leaves the window ready for the next one, with its
/// last message as the status.
pub proof fn law_worker_cycle(p: PanelData, msg: WorkerMsg)
    requires
        msg is Finished,
    ensures
        ({
            let after = PanelData { busy: false, stoppable: false, ..handled(p, msg) };
            &&& after.logs.len() > 0
            &&& after.logs.last() == after.status
            &&& after.sent_frames == p.sent_frames
            &&& after.ack_frames == p.ack_frames
            &&& after.can_tx_counter == p.can_tx_counter
        }),
{
}

/// A line is written at the end of the log, and stays the last one; of three hundred the oldest
/// leaves. A status is shown and written.
pub proof fn law_log(p: PanelData, line: Seq<char>, i: int)
    requires
        p.wf(),
    ensures
        ({
            let after = p.with_log(line);
            &&& after.wf()
            &&& after.logs.last() == line
            &&& after.logs.len() == if p.logs.len() < 300 {
                p.logs.len() + 1
            } else {
                300
            }
            &&& 0 <= i < after.logs.len() - 1 ==> after.logs[i] == p.logs[i + p.logs.len() - (
            after.logs.len() - 1)]
            &&& after.status == p.status
            &&& after.sent_frames == p.sent_frames
            &&& after.ack_frames == p.ack_frames
            &&& after.last_req == p.last_req
            &&& after.busy == p.busy
            &&& after.stoppable == p.stoppable
            &&& p.with_status(line).status == line
            &&& p.with_status(line).logs == after.logs
        }),
{
}

/// A sender that starts is busy and can be stopped, counts from zero, and says where it writes
/// and which mode the collector needs.
pub proof fn law_start(p: PanelData, cfg: options::SenderData, message: Seq<char>)
    requires
        p.wf(),
    ensures
        ({
            let after = started(p, cfg, message);
            let n = after.logs.len();
            &&& after.busy
            &&& after.stoppable
            &&& after.sent_frames == 0
            &&& after.ack_frames == 0
            &&& after.last_req == 0
            &&& after.can_tx_counter == p.can_tx_counter
            &&& after.status == "starting: "@ + cfg.port + " @ "@ + text::decimal(
                cfg.baud as nat,
            )
            &&& n >= 3
            &&& after.logs[n - 3] == message
            &&& after.logs[n - 2] == after.status
            &&& after.logs[n - 1] == "collector mode synced to '"@ + cfg.format.collector_mode()
                + "'; restart collector_service if it is already running"@
        }),
{
}

/// What a worker reports: a line is written, counts are shown as they are, and the end says
/// whether it went well.
pub proof fn law_reports(p: PanelData, message: String, sent: u64, acked: u64, last: u64)
    ensures
        handled(p, WorkerMsg::Log(message)) == p.with_log(message@),
        ({
            let after = handled(
                p,
                WorkerMsg::Stats { sent_frames: sent, ack_frames: acked, last_req: last },
            );
            &&& after.sent_frames == sent
            &&& after.ack_frames == acked
            &&& after.last_req == last
            &&& after.logs == p.logs
            &&& after.status == p.status
        }),
        handled(p, WorkerMsg::Finished { ok: true, message }).status == "finished: "@ + message@,
        handled(p, WorkerMsg::Finished { ok: false, message }).status == "failed: "@ + message@,
{
}

/// A frame that is sent by hand has the identifier 0x123 and eight bytes: the counter, and
/// seven that stay the same.
pub proof fn law_frame_by_hand(frame: CanTxFrame, counter: u8)
    requires
        is_frame_by_hand(frame, counter),
    ensures
        frame.identifier == 0x123,
        frame.dlc == 8,
        frame.channel == 0,
        !frame.is_extended,
        frame.data@[0] == counter,
        forall|i: int| 1 <= i < 8 ==> #[trigger] frame.data@[i] == 0x11 * (i + 1),
        forall|i: int| 8 <= i < 64 ==> #[trigger] frame.data@[i] == 0,
{
}

} // verus!
