//! The user interface as a whole: what it does with a message.
use vstd::prelude::*;

use crate::bus::TelemetrySourceKind;
use crate::sender::frames;
use crate::text;
use crate::transport::can;
use crate::transport::can::CanTxFrame;
use crate::ui::windows;
use crate::ui::windows::{WindowBoard, SENSOR_COUNT};

verus! {

/// Whether a text is nothing but white space.
pub open spec fn blank(s: Seq<char>) -> bool {
    text::trimmed(s).len() == 0
}

fn is_blank(s: &str) -> (r: bool)
    ensures
        r == blank(s@),
{
    let chars: Vec<char> = text::chars_of(s);
    text::trim(chars.as_slice()).len() == 0
}

/// A setting: that of the environment, that of the configuration, or the usual one; blank
/// settings do not count.
pub open spec fn chosen(
    environment: Option<Seq<char>>,
    configured: Option<Seq<char>>,
    usual: Seq<char>,
) -> Seq<char> {
    match (environment, configured) {
        (Some(s), _) if !blank(s) => s,
        (_, Some(s)) if !blank(s) => s,
        _ => usual,
    }
}

pub fn choose_setting(environment: &Option<String>, configured: &Option<String>, usual: &str) -> (r:
    String)
    ensures
        r@ == chosen(
            crate::collector::config::setting(*environment),
            crate::collector::config::setting(*configured),
            usual@,
        ),
{
    if let Some(s) = environment {
        if !is_blank(s.as_str()) {
            return text::owned(s.as_str());
        }
    }
    if let Some(s) = configured {
        if !is_blank(s.as_str()) {
            return text::owned(s.as_str());
        }
    }
    text::owned(usual)
}

/// Whether samples come from one of the sources of SENT values.
pub open spec fn is_sent_source(source_kind: TelemetrySourceKind) -> bool {
    source_kind is CanSent || source_kind is SerialSent1 || source_kind is SerialSent2
}

fn from_sent_source(source_kind: TelemetrySourceKind) -> (r: bool)
    ensures
        r == is_sent_source(source_kind),
{
    matches!(
        source_kind,
        TelemetrySourceKind::CanSent
            | TelemetrySourceKind::SerialSent1
            | TelemetrySourceKind::SerialSent2
    )
}

pub fn is_sent_torque_sample(source_kind: TelemetrySourceKind, sensor_id: usize) -> (r: bool)
    ensures
        r == (is_sent_source(source_kind) && (sensor_id == 1 || sensor_id == 3)),
{
    from_sent_source(source_kind) && (sensor_id == 1 || sensor_id == 3)
}

pub fn is_sent_angle_sample(source_kind: TelemetrySourceKind, sensor_id: usize) -> (r: bool)
    ensures
        r == (is_sent_source(source_kind) && (sensor_id == 0 || sensor_id == 2 || sensor_id == 4)),
{
    from_sent_source(source_kind) && (sensor_id == 0 || sensor_id == 2 || sensor_id == 4)
}

/// What is to be done with a sample.
#[derive(Clone, Copy, Debug, PartialEq, Eq, Structural)]
pub struct SamplePlan {
    /// The windows have been laid out anew.
    pub windows_changed: bool,
    /// The sample has a chart.
    pub charted: bool,
    /// The sample is a torque that may jump.
    pub torque: bool,
    /// The sample is an angle that may jump.
    pub angle: bool,
}

/// What is to be done with a sample, apart from the windows.
pub open spec fn plan_of(
    windows_changed: bool,
    source_kind: TelemetrySourceKind,
    sensor_id: usize,
) -> SamplePlan {
    let charted = sensor_id < SENSOR_COUNT;
    SamplePlan {
        windows_changed,
        charted,
        torque: charted && is_sent_source(source_kind) && (sensor_id == 1 || sensor_id == 3),
        angle: charted && is_sent_source(source_kind) && (sensor_id == 0 || sensor_id == 2
            || sensor_id == 4),
    }
}

/// What the user interface reports, counts and shows.
#[derive(Debug)]
pub struct UiClient {
    pub windows: WindowBoard,
    pub status: String,
    pub last_self_test: String,
    pub self_tests: u8,
    pub total_samples: u64,
    pub last_req: u64,
    pub demo_alarm_bit: Option<bool>,
}

/// What the user interface reports, counts and shows.
#[verifier::ext_equal]
pub ghost struct ClientData {
    pub windows: windows::BoardData,
    pub status: Seq<char>,
    pub last_self_test: Seq<char>,
    pub self_tests: u8,
    pub total_samples: u64,
    pub last_req: u64,
    pub demo_alarm_bit: Option<bool>,
}

impl View for UiClient {
    type V = ClientData;

    open spec fn view(&self) -> ClientData {
        ClientData {
            windows: self.windows@,
            status: self.status@,
            last_self_test: self.last_self_test@,
            self_tests: self.self_tests,
            total_samples: self.total_samples,
            last_req: self.last_req,
            demo_alarm_bit: self.demo_alarm_bit,
        }
    }
}

/// Whether a status is about a self-test of the CAN bus.
pub open spec fn about_self_test(status: Seq<char>) -> bool {
    text::has_part(status, "CAN self-test"@) || text::has_part(status, "CAN 自检"@)
}

impl ClientData {
    /// With a new status; one about a self-test is kept as its outcome.
    pub open spec fn with_status(self, status: Seq<char>) -> ClientData {
        ClientData {
            status,
            last_self_test: if about_self_test(status) {
                status
            } else {
                self.last_self_test
            },
            ..self
        }
    }

    /// With a sample taken in.
    pub open spec fn with_sample(
        self,
        device_id: Seq<char>,
        sensor_id: usize,
        request_id: u64,
        alarm_bit: bool,
        source_kind: TelemetrySourceKind,
    ) -> ClientData {
        let charted = sensor_id < SENSOR_COUNT;
        ClientData {
            windows: self.windows.showing(windows::view_of(source_kind, device_id, sensor_id)),
            demo_alarm_bit: if source_kind is SerialDemo {
                Some(alarm_bit)
            } else {
                self.demo_alarm_bit
            },
            total_samples: if charted && self.total_samples < u64::MAX {
                (self.total_samples + 1) as u64
            } else {
                self.total_samples
            },
            last_req: if charted {
                request_id
            } else {
                self.last_req
            },
            ..self
        }
    }
}

/// The outcome of asking for a self-test, as it is reported.
pub open spec fn self_test_text(outcome: Result<(), String>) -> Seq<char> {
    match outcome {
        Ok(_) => "CAN self-test queued: id=0x123 dlc=8 data="@ + frames::hex_list(
            self_test_data(),
        ) + "，等待 collector 回报自检结果"@,
        Err(error) => "CAN self-test failed: "@ + error@,
    }
}

/// What the frame of a self-test holds.
pub open spec fn self_test_data() -> Seq<u8> {
    seq![0xA5, 0x22, 0x33, 0x44, 0x55, 0x66, 0x77, 0x88]
}

impl UiClient {
    pub fn new() -> (r: Self)
        ensures
            r@ == (ClientData {
                windows: windows::BoardData {
                    selected_view: windows::TestSignalView::Sent,
                    windows: Seq::empty(),
                    demo_group: 1,
                    sent_group: 1,
                    can_group: 1,
                    tcp_group: 1,
                },
                status: "starting..."@,
                last_self_test: "未执行"@,
                self_tests: 0,
                total_samples: 0,
                last_req: 0,
                demo_alarm_bit: None,
            }),
    {
        UiClient {
            windows: WindowBoard::new(),
            status: text::owned("starting..."),
            last_self_test: text::owned("未执行"),
            self_tests: 0,
            total_samples: 0,
            last_req: 0,
            demo_alarm_bit: None,
        }
    }

    /// Takes in a status.
    pub fn take_status(&mut self, status: String)
        ensures
            final(self)@ == old(self)@.with_status(status@),
    {
        if text::contains(status.as_str(), "CAN self-test") || text::contains(
            status.as_str(),
            "CAN 自检",
        ) {
            self.last_self_test = text::owned(status.as_str());
        }
        self.status = status;
    }

    /// Takes in a sample, and says what else is to be done with it.
    pub fn take_sample(
        &mut self,
        device_id: &str,
        sensor_id: usize,
        request_id: u64,
        alarm_bit: bool,
        source_kind: TelemetrySourceKind,
    ) -> (r: SamplePlan)
        ensures
            final(self)@ == old(self)@.with_sample(
                device_id@,
                sensor_id,
                request_id,
                alarm_bit,
                source_kind,
            ),
            ({
                let view = windows::view_of(source_kind, device_id@, sensor_id);
                r == plan_of(
                    view matches Some(v) && (old(self)@.windows.selected_view != v || old(
                        self,
                    )@.windows.windows.len() == 0),
                    source_kind,
                    sensor_id,
                )
            }),
    {
        if matches!(source_kind, TelemetrySourceKind::SerialDemo) {
            self.demo_alarm_bit = Some(alarm_bit);
        }
        let view = windows::detect_view_for_sample(source_kind, device_id, sensor_id);
        let windows_changed = self.windows.show(view);
        let charted = sensor_id < SENSOR_COUNT;
        if charted {
            if self.total_samples < u64::MAX {
                self.total_samples = self.total_samples + 1;
            }
            self.last_req = request_id;
        }
        SamplePlan {
            windows_changed,
            charted,
            torque: charted && is_sent_torque_sample(source_kind, sensor_id),
            angle: charted && is_sent_angle_sample(source_kind, sensor_id),
        }
    }

    /// The frame of a self-test of the CAN bus.
    pub fn send_can_self_test(&mut self) -> (r: CanTxFrame)
        ensures
            final(self)@ == (ClientData {
                self_tests: ((old(self)@.self_tests + 1) % 256) as u8,
                ..old(self)@
            }),
            r.channel == 0,
            r.identifier == 0x123,
            !r.is_extended,
            r.dlc == 8,
            r.data@ == can::padded(self_test_data()),
    {
        self.self_tests = if self.self_tests == 255 {
            0
        } else {
            self.self_tests + 1
        };
        let data: [u8; 8] = [0xA5, 0x22, 0x33, 0x44, 0x55, 0x66, 0x77, 0x88];
        proof {
            assert(data@ =~= self_test_data());
        }
        CanTxFrame::new(0, 0x123, 8, data)
    }

    /// The outcome of handing the frame of a self-test over.
    pub fn self_test_sent(&mut self, outcome: &Result<(), String>)
        ensures
            final(self)@ == (ClientData {
                status: self_test_text(*outcome),
                last_self_test: self_test_text(*outcome),
                ..old(self)@
            }),
    {
        let message: String = match outcome {
            Ok(_) => {
                let data: [u8; 8] = [0xA5, 0x22, 0x33, 0x44, 0x55, 0x66, 0x77, 0x88];
                proof {
                    assert(data@ =~= self_test_data());
                }
                let mut message = text::owned("CAN self-test queued: id=0x123 dlc=8 data=");
                frames::push_hex_list(&mut message, data.as_slice());
                text::push_text(&mut message, "，等待 collector 回报自检结果");
                message
            },
            Err(error) => {
                let mut message = text::owned("CAN self-test failed: ");
                text::push_text(&mut message, error.as_str());
                message
            },
        };
        self.last_self_test = text::owned(message.as_str());
        self.status = message;
    }
}

// ---- what holds of all samples and settings ----

/// What the environment says goes before what is configured, and that before the usual; what is
/// blank counts as not said.
pub proof fn law_chosen(environment: Seq<char>, configured: Option<Seq<char>>, usual: Seq<char>)
    ensures
        text::trimmed(environment).len() > 0 ==> chosen(Some(environment), configured, usual)
            == environment,
        text::trimmed(environment).len() == 0 ==> chosen(Some(environment), configured, usual)
            == chosen(None, configured, usual),
        configured matches Some(s) ==> (text::trimmed(s).len() > 0 ==> chosen(
            None,
            configured,
            usual,
        ) == s),
        configured matches Some(s) ==> (text::trimmed(s).len() == 0 ==> chosen(
            None,
            configured,
            usual,
        ) == usual),
        chosen(None, None, usual) == usual,
{
}

/// Of the samples of the bus and of the first two serial SENT sources, those of the sensors 1
/// and 3 are watched as torques and those of 0, 2 and 4 as angles; no sample is watched as
/// both, and none of another source. The sensors below ten have charts.
pub proof fn law_plan(windows_changed: bool, source_kind: TelemetrySourceKind, sensor_id: usize)
    ensures
        ({
            let plan = plan_of(windows_changed, source_kind, sensor_id);
            let sent = source_kind == TelemetrySourceKind::CanSent || source_kind
                == TelemetrySourceKind::SerialSent1 || source_kind
                == TelemetrySourceKind::SerialSent2;
            &&& plan.windows_changed == windows_changed
            &&& plan.charted <==> sensor_id < 10
            &&& plan.torque <==> sent && (sensor_id == 1 || sensor_id == 3)
            &&& plan.angle <==> sent && (sensor_id == 0 || sensor_id == 2 || sensor_id == 4)
        }),
{
}

/// What is watched as an angle is what is called an angle, and what is watched as a torque is
/// what is called a torque where it is stored.
pub proof fn law_plan_follows_the_names(sensor_id: usize)
    requires
        sensor_id < 5,
    ensures
        ({
            let plan = plan_of(false, TelemetrySourceKind::CanSent, sensor_id);
            let name = crate::signal::sensor_unit(sensor_id as nat);
            &&& plan.angle <==> name == "deg"@
            &&& plan.torque <==> name == "Nm"@
        }),
{
    reveal_strlit("deg");
    reveal_strlit("Nm");
    assert("deg"@.len() == 3 && "Nm"@.len() == 2);
}

/// A sample of a sensor with a chart is counted and its number kept; a sample of any other
/// sensor is not. Only a sample of the demo board sets the alarm bit on view, to its own. The
/// status stays.
pub proof fn law_sample_is_noted(
    d: ClientData,
    device_id: Seq<char>,
    sensor_id: usize,
    request_id: u64,
    alarm_bit: bool,
    source_kind: TelemetrySourceKind,
)
    ensures
        ({
            let after = d.with_sample(device_id, sensor_id, request_id, alarm_bit, source_kind);
            &&& sensor_id < 10 ==> after.last_req == request_id
            &&& sensor_id < 10 && d.total_samples < u64::MAX ==> after.total_samples
                == d.total_samples + 1
            &&& sensor_id >= 10 || d.total_samples == u64::MAX ==> after.total_samples
                == d.total_samples
            &&& sensor_id >= 10 ==> after.last_req == d.last_req
            &&& source_kind == TelemetrySourceKind::SerialDemo ==> after.demo_alarm_bit == Some(
                alarm_bit,
            )
            &&& source_kind != TelemetrySourceKind::SerialDemo ==> after.demo_alarm_bit
                == d.demo_alarm_bit
            &&& after.status == d.status
            &&& after.last_self_test == d.last_self_test
            &&& after.self_tests == d.self_tests
            &&& windows::view_of(source_kind, device_id, sensor_id) matches Some(view)
                ==> after.windows.selected_view == view
        }),
{
}

/// The latest status is on view; one that speaks of the self-test is kept as its outcome, any
/// other leaves that outcome.
pub proof fn law_status_is_noted(d: ClientData, status: Seq<char>)
    ensures
        d.with_status(status).status == status,
        text::has_part(status, "CAN self-test"@) || text::has_part(status, "CAN 自检"@)
            ==> d.with_status(status).last_self_test == status,
        !text::has_part(status, "CAN self-test"@) && !text::has_part(status, "CAN 自检"@)
            ==> d.with_status(status).last_self_test == d.last_self_test,
        d.with_status(status).windows == d.windows,
        d.with_status(status).total_samples == d.total_samples,
        d.with_status(status).last_req == d.last_req,
        d.with_status(status).demo_alarm_bit == d.demo_alarm_bit,
{
}

/// A self-test asks with eight bytes, the first of them 0xA5; that it was queued, or why not,
/// is said.
pub proof fn law_self_test_words(error: String)
    ensures
        self_test_data().len() == 8,
        self_test_data()[0] == 0xA5,
        forall|i: int| 1 <= i < 8 ==> #[trigger] self_test_data()[i] == 0x11 * (i + 1),
        self_test_text(Ok(())) == "CAN self-test queued: id=0x123 dlc=8 data="@ + frames::hex_list(
            self_test_data(),
        ) + "，等待 collector 回报自检结果"@,
        self_test_text(Err(error)) == "CAN self-test failed: "@ + error@,
{
}

} // verus!
