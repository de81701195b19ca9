//! The windows of the user interface: which signal each shows, and which are open.
use vstd::prelude::*;

use crate::bus::TelemetrySourceKind;
use crate::text;

verus! {

/// How many sensors the user interface can show.
pub const SENSOR_COUNT: usize = 10;

/// The kind of signals on view.
#[derive(Clone, Copy, Debug, PartialEq, Eq, Structural)]
pub enum TestSignalView {
    Demo,
    Sent,
    CanFrame,
    TcpFrame,
}

/// The signal that a window shows.
#[derive(Clone, Copy, Debug, PartialEq, Eq, Structural)]
pub enum SignalBinding {
    DemoAxisX,
    DemoAxisY,
    DemoAxisZ,
    Sent1V1,
    Sent1P1,
    Sent2V2,
    Sent2P2,
    Sent3Angle,
    CanAxisX,
    CanAxisY,
    CanAxisZ,
    TcpSensor(usize),
}

impl SignalBinding {
    /// What the title of a window begins with.
    pub open spec fn stem(self) -> Seq<char> {
        match self {
            SignalBinding::DemoAxisX => "demo_x_"@,
            SignalBinding::DemoAxisY => "demo_y_"@,
            SignalBinding::DemoAxisZ => "demo_z_"@,
            SignalBinding::Sent1V1 => "sent_t1_angle_"@,
            SignalBinding::Sent1P1 => "sent_t1_torque_"@,
            SignalBinding::Sent2V2 => "sent_t2_angle_"@,
            SignalBinding::Sent2P2 => "sent_t2_torque_"@,
            SignalBinding::Sent3Angle => "sent_s_angle_"@,
            SignalBinding::CanAxisX => "can_x_"@,
            SignalBinding::CanAxisY => "can_y_"@,
            SignalBinding::CanAxisZ => "can_z_"@,
            SignalBinding::TcpSensor(sensor_id) => "tcp_sensor_"@ + text::decimal(sensor_id as nat)
                + "_"@,
        }
    }

    /// The title of a window of the given group.
    pub open spec fn title_text(self, index: u32) -> Seq<char> {
        self.stem() + text::decimal(index as nat)
    }

    pub fn title(self, index: u32) -> (r: String)
        ensures
            r@ == self.title_text(index),
    {
        let mut r = match self {
            SignalBinding::DemoAxisX => text::owned("demo_x_"),
            SignalBinding::DemoAxisY => text::owned("demo_y_"),
            SignalBinding::DemoAxisZ => text::owned("demo_z_"),
            SignalBinding::Sent1V1 => text::owned("sent_t1_angle_"),
            SignalBinding::Sent1P1 => text::owned("sent_t1_torque_"),
            SignalBinding::Sent2V2 => text::owned("sent_t2_angle_"),
            SignalBinding::Sent2P2 => text::owned("sent_t2_torque_"),
            SignalBinding::Sent3Angle => text::owned("sent_s_angle_"),
            SignalBinding::CanAxisX => text::owned("can_x_"),
            SignalBinding::CanAxisY => text::owned("can_y_"),
            SignalBinding::CanAxisZ => text::owned("can_z_"),
            SignalBinding::TcpSensor(sensor_id) => {
                let mut stem = text::owned("tcp_sensor_");
                text::push_decimal(&mut stem, sensor_id as u64);
                text::push_text(&mut stem, "_");
                stem
            },
        };
        text::push_decimal(&mut r, index as u64);
        r
    }

    pub open spec fn sensor(self) -> usize {
        match self {
            SignalBinding::DemoAxisX | SignalBinding::Sent1V1 | SignalBinding::CanAxisX => 0,
            SignalBinding::DemoAxisY | SignalBinding::Sent1P1 | SignalBinding::CanAxisY => 1,
            SignalBinding::DemoAxisZ | SignalBinding::Sent2V2 | SignalBinding::CanAxisZ => 2,
            SignalBinding::Sent2P2 => 3,
            SignalBinding::Sent3Angle => 4,
            SignalBinding::TcpSensor(sensor_id) => sensor_id,
        }
    }

    pub fn sensor_id(self) -> (r: usize)
        ensures
            r == self.sensor(),
    {
        match self {
            SignalBinding::DemoAxisX | SignalBinding::Sent1V1 | SignalBinding::CanAxisX => 0,
            SignalBinding::DemoAxisY | SignalBinding::Sent1P1 | SignalBinding::CanAxisY => 1,
            SignalBinding::DemoAxisZ | SignalBinding::Sent2V2 | SignalBinding::CanAxisZ => 2,
            SignalBinding::Sent2P2 => 3,
            SignalBinding::Sent3Angle => 4,
            SignalBinding::TcpSensor(sensor_id) => sensor_id,
        }
    }

    pub fn uses_tcp_series(self) -> (r: bool)
        ensures
            r == (self is TcpSensor),
    {
        matches!(self, SignalBinding::TcpSensor(_))
    }

    /// The name of the signal on a chart, where it has one of its own.
    pub open spec fn chart_text(self) -> Option<Seq<char>> {
        match self {
            SignalBinding::DemoAxisX => Some("demo axis X"@),
            SignalBinding::DemoAxisY => Some("demo axis Y"@),
            SignalBinding::DemoAxisZ => Some("demo axis Z"@),
            SignalBinding::Sent1V1 => Some("SENT T1 angle"@),
            SignalBinding::Sent1P1 => Some("SENT T1 torque"@),
            SignalBinding::Sent2V2 => Some("SENT T2 angle"@),
            SignalBinding::Sent2P2 => Some("SENT T2 torque"@),
            SignalBinding::Sent3Angle => Some("SENT S angle"@),
            SignalBinding::CanAxisX => Some("CAN axis X"@),
            SignalBinding::CanAxisY => Some("CAN axis Y"@),
            SignalBinding::CanAxisZ => Some("CAN axis Z"@),
            SignalBinding::TcpSensor(_) => None,
        }
    }

    pub fn chart_label(self) -> (r: Option<&'static str>)
        ensures
            match self.chart_text() {
                Some(label) => r is Some && r->0@ == label,
                None => r is None,
            },
            match self {
                SignalBinding::DemoAxisX => r is Some && r->0@ == "demo axis X"@,
                SignalBinding::DemoAxisY => r is Some && r->0@ == "demo axis Y"@,
                SignalBinding::DemoAxisZ => r is Some && r->0@ == "demo axis Z"@,
                SignalBinding::Sent1V1 => r is Some && r->0@ == "SENT T1 angle"@,
                SignalBinding::Sent1P1 => r is Some && r->0@ == "SENT T1 torque"@,
                SignalBinding::Sent2V2 => r is Some && r->0@ == "SENT T2 angle"@,
                SignalBinding::Sent2P2 => r is Some && r->0@ == "SENT T2 torque"@,
                SignalBinding::Sent3Angle => r is Some && r->0@ == "SENT S angle"@,
                SignalBinding::CanAxisX => r is Some && r->0@ == "CAN axis X"@,
                SignalBinding::CanAxisY => r is Some && r->0@ == "CAN axis Y"@,
                SignalBinding::CanAxisZ => r is Some && r->0@ == "CAN axis Z"@,
                SignalBinding::TcpSensor(_) => r is None,
            },
    {
        match self {
            SignalBinding::DemoAxisX => Some("demo axis X"),
            SignalBinding::DemoAxisY => Some("demo axis Y"),
            SignalBinding::DemoAxisZ => Some("demo axis Z"),
            SignalBinding::Sent1V1 => Some("SENT T1 angle"),
            SignalBinding::Sent1P1 => Some("SENT T1 torque"),
            SignalBinding::Sent2V2 => Some("SENT T2 angle"),
            SignalBinding::Sent2P2 => Some("SENT T2 torque"),
            SignalBinding::Sent3Angle => Some("SENT S angle"),
            SignalBinding::CanAxisX => Some("CAN axis X"),
            SignalBinding::CanAxisY => Some("CAN axis Y"),
            SignalBinding::CanAxisZ => Some("CAN axis Z"),
            SignalBinding::TcpSensor(_) => None,
        }
    }

    pub open spec fn can_axis(self) -> bool {
        self is CanAxisX || self is CanAxisY || self is CanAxisZ
    }

    pub fn is_can_axis(self) -> (r: bool)
        ensures
            r == self.can_axis(),
    {
        matches!(
            self,
            SignalBinding::CanAxisX | SignalBinding::CanAxisY | SignalBinding::CanAxisZ
        )
    }

    /// What the value of the signal is called.
    pub open spec fn value_text(self) -> Seq<char> {
        match self {
            SignalBinding::Sent1V1 | SignalBinding::Sent2V2 | SignalBinding::Sent3Angle => "angle"@,
            SignalBinding::Sent1P1 | SignalBinding::Sent2P2 => "torque"@,
            _ => "raw"@,
        }
    }

    pub fn value_label(self) -> (r: &'static str)
        ensures
            r@ == self.value_text(),
            r@ == match self {
                SignalBinding::Sent1V1 | SignalBinding::Sent2V2 | SignalBinding::Sent3Angle => "angle"@,
                SignalBinding::Sent1P1 | SignalBinding::Sent2P2 => "torque"@,
                _ => "raw"@,
            },
    {
        match self {
            SignalBinding::Sent1V1 | SignalBinding::Sent2V2 | SignalBinding::Sent3Angle => "angle",
            SignalBinding::Sent1P1 | SignalBinding::Sent2P2 => "torque",
            _ => "raw",
        }
    }

    /// The angle that is derived from an axis of the demo board.
    pub open spec fn derived_angle(self) -> Option<Seq<char>> {
        match self {
            SignalBinding::DemoAxisX => Some("sensor_0_angle"@),
            SignalBinding::DemoAxisY => Some("sensor_1_angle"@),
            SignalBinding::DemoAxisZ => Some("sensor_2_angle"@),
            _ => None,
        }
    }

    pub fn demo_derived_angle_id(self) -> (r: Option<&'static str>)
        ensures
            match self.derived_angle() {
                Some(id) => r is Some && r->0@ == id,
                None => r is None,
            },
    {
        match self {
            SignalBinding::DemoAxisX => Some("sensor_0_angle"),
            SignalBinding::DemoAxisY => Some("sensor_1_angle"),
            SignalBinding::DemoAxisZ => Some("sensor_2_angle"),
            _ => None,
        }
    }
}

/// The view that a sample belongs to, if one.
pub open spec fn view_of(
    source_kind: TelemetrySourceKind,
    device_id: Seq<char>,
    sensor_id: usize,
) -> Option<TestSignalView> {
    match source_kind {
        TelemetrySourceKind::SerialDemo => Some(TestSignalView::Demo),
        TelemetrySourceKind::SerialSent1
        | TelemetrySourceKind::SerialSent2
        | TelemetrySourceKind::SerialSent3
        | TelemetrySourceKind::CanSent => Some(TestSignalView::Sent),
        TelemetrySourceKind::CanAxis => Some(TestSignalView::CanFrame),
        TelemetrySourceKind::TcpFrame => Some(TestSignalView::TcpFrame),
        TelemetrySourceKind::Unknown | TelemetrySourceKind::FrameStream => if text::begins_with(
            device_id,
            "can://"@,
        ) {
            Some(TestSignalView::CanFrame)
        } else if text::begins_with(device_id, "tcp://"@) {
            Some(TestSignalView::TcpFrame)
        } else if sensor_id <= 4 {
            Some(TestSignalView::Sent)
        } else {
            None
        },
    }
}

pub fn detect_view_for_sample(
    source_kind: TelemetrySourceKind,
    device_id: &str,
    sensor_id: usize,
) -> (r: Option<TestSignalView>)
    ensures
        r == view_of(source_kind, device_id@, sensor_id),
{
    match source_kind {
        TelemetrySourceKind::SerialDemo => Some(TestSignalView::Demo),
        TelemetrySourceKind::SerialSent1
        | TelemetrySourceKind::SerialSent2
        | TelemetrySourceKind::SerialSent3
        | TelemetrySourceKind::CanSent => Some(TestSignalView::Sent),
        TelemetrySourceKind::CanAxis => Some(TestSignalView::CanFrame),
        TelemetrySourceKind::TcpFrame => Some(TestSignalView::TcpFrame),
        TelemetrySourceKind::Unknown | TelemetrySourceKind::FrameStream => if text::starts_with(
            device_id,
            "can://",
        ) {
            Some(TestSignalView::CanFrame)
        } else if text::starts_with(device_id, "tcp://") {
            Some(TestSignalView::TcpFrame)
        } else if sensor_id <= 4 {
            Some(TestSignalView::Sent)
        } else {
            None
        },
    }
}

/// A window.
#[derive(Debug)]
pub struct SignalWindow {
    pub title: String,
    pub binding: SignalBinding,
}

/// What a window shows.
#[verifier::ext_equal]
pub ghost struct WindowData {
    pub title: Seq<char>,
    pub binding: SignalBinding,
}

impl View for SignalWindow {
    type V = WindowData;

    open spec fn view(&self) -> WindowData {
        WindowData { title: self.title@, binding: self.binding }
    }
}

/// The open windows, in order, and how many groups of each kind were opened so far, plus
/// one.
#[derive(Debug)]
pub struct WindowBoard {
    pub selected_view: TestSignalView,
    pub windows: Vec<SignalWindow>,
    pub demo_group: u32,
    pub sent_group: u32,
    pub can_group: u32,
    pub tcp_group: u32,
}

/// The open windows, and how many groups of each kind were opened so far, plus one.
#[verifier::ext_equal]
pub ghost struct BoardData {
    pub selected_view: TestSignalView,
    pub windows: Seq<WindowData>,
    pub demo_group: u32,
    pub sent_group: u32,
    pub can_group: u32,
    pub tcp_group: u32,
}

impl View for WindowBoard {
    type V = BoardData;

    open spec fn view(&self) -> BoardData {
        BoardData {
            selected_view: self.selected_view,
            windows: self.windows@.map_values(|w: SignalWindow| w@),
            demo_group: self.demo_group,
            sent_group: self.sent_group,
            can_group: self.can_group,
            tcp_group: self.tcp_group,
        }
    }
}

/// The largest sensor of the windows of TCP sensors; zero without any.
pub open spec fn last_tcp_sensor(windows: Seq<WindowData>) -> usize
    decreases windows.len(),
{
    if windows.len() == 0 {
        0
    } else {
        let before = last_tcp_sensor(windows.drop_last());
        match windows.last().binding {
            SignalBinding::TcpSensor(sensor_id) => if sensor_id > before {
                sensor_id
            } else {
                before
            },
            _ => before,
        }
    }
}

/// Windows for the given signals.
pub open spec fn group_windows(bindings: Seq<SignalBinding>, index: u32) -> Seq<WindowData> {
    bindings.map_values(
        |b: SignalBinding| (WindowData { title: b.title_text(index), binding: b }),
    )
}

/// The sensors of a group of TCP windows: four from the given one on, as far as they go.
pub open spec fn tcp_bindings(start: usize) -> Seq<SignalBinding> {
    Seq::new(
        if start + 4 <= usize::MAX {
            4
        } else {
            (usize::MAX - start) as nat
        },
        |i: int| SignalBinding::TcpSensor((start + i) as usize),
    )
}

/// The number of the next group.
pub open spec fn next_group(n: u32) -> u32 {
    if n < u32::MAX {
        (n + 1) as u32
    } else {
        n
    }
}

impl BoardData {
    /// The signals of the group that is opened next.
    pub open spec fn next_bindings(self) -> Seq<SignalBinding> {
        match self.selected_view {
            TestSignalView::Demo => seq![
                SignalBinding::DemoAxisX,
                SignalBinding::DemoAxisY,
                SignalBinding::DemoAxisZ,
            ],
            TestSignalView::Sent => seq![
                SignalBinding::Sent1V1,
                SignalBinding::Sent1P1,
                SignalBinding::Sent2V2,
                SignalBinding::Sent2P2,
                SignalBinding::Sent3Angle,
            ],
            TestSignalView::CanFrame => seq![
                SignalBinding::CanAxisX,
                SignalBinding::CanAxisY,
                SignalBinding::CanAxisZ,
            ],
            TestSignalView::TcpFrame => tcp_bindings(last_tcp_sensor(self.windows)),
        }
    }

    /// The number of the group that is opened next.
    pub open spec fn group_index(self) -> u32 {
        match self.selected_view {
            TestSignalView::Demo => self.demo_group,
            TestSignalView::Sent => self.sent_group,
            TestSignalView::CanFrame => self.can_group,
            TestSignalView::TcpFrame => self.tcp_group,
        }
    }

    /// With one more group of windows of the kind on view.
    pub open spec fn with_group(self) -> BoardData {
        let counted = match self.selected_view {
            TestSignalView::Demo => BoardData { demo_group: next_group(self.demo_group), ..self },
            TestSignalView::Sent => BoardData { sent_group: next_group(self.sent_group), ..self },
            TestSignalView::CanFrame => BoardData { can_group: next_group(self.can_group), ..self },
            TestSignalView::TcpFrame => BoardData { tcp_group: next_group(self.tcp_group), ..self },
        };
        BoardData {
            windows: self.windows + group_windows(self.next_bindings(), self.group_index()),
            ..counted
        }
    }

    /// With another kind on view: one group of its windows and no others.
    pub open spec fn switched(self, view: TestSignalView) -> BoardData {
        BoardData { selected_view: view, windows: Seq::empty(), ..self }.with_group()
    }

    /// With the windows of a sample on view: those of its kind, opened where they are not
    /// there.
    pub open spec fn showing(self, view: Option<TestSignalView>) -> BoardData {
        match view {
            Some(view) => if self.selected_view != view || self.windows.len() == 0 {
                self.switched(view)
            } else {
                self
            },
            None => self,
        }
    }
}

fn count_group(n: u32) -> (r: u32)
    ensures
        r == next_group(n),
{
    if n < u32::MAX {
        n + 1
    } else {
        n
    }
}

impl WindowBoard {
    pub fn new() -> (r: Self)
        ensures
            r@ == (BoardData {
                selected_view: TestSignalView::Sent,
                windows: Seq::empty(),
                demo_group: 1,
                sent_group: 1,
                can_group: 1,
                tcp_group: 1,
            }),
    {
        let r = WindowBoard {
            selected_view: TestSignalView::Sent,
            windows: Vec::new(),
            demo_group: 1,
            sent_group: 1,
            can_group: 1,
            tcp_group: 1,
        };
        proof {
            assert(r@.windows =~= Seq::<WindowData>::empty());
        }
        r
    }

    fn push_window(&mut self, binding: SignalBinding, index: u32)
        ensures
            final(self)@ == (BoardData {
                windows: old(self)@.windows.push(
                    WindowData { title: binding.title_text(index), binding },
                ),
                ..old(self)@
            }),
    {
        self.windows.push(SignalWindow { title: binding.title(index), binding });
        proof {
            assert(self@ =~= (BoardData {
                windows: old(self)@.windows.push(
                    WindowData { title: binding.title_text(index), binding },
                ),
                ..old(self)@
            }));
        }
    }

    fn push_windows(&mut self, bindings: &[SignalBinding], index: u32)
        ensures
            final(self)@ == (BoardData {
                windows: old(self)@.windows + group_windows(bindings@, index),
                ..old(self)@
            }),
    {
        proof {
            assert(self@.windows =~= self@.windows + group_windows(bindings@.take(0), index));
        }
        for i in 0..bindings.len()
            invariant
                self@ == (BoardData {
                    windows: old(self)@.windows + group_windows(bindings@.take(i as int), index),
                    ..old(self)@
                }),
        {
            let ghost before = self@;
            self.push_window(bindings[i], index);
            proof {
                assert(self@.windows =~= old(self)@.windows + group_windows(
                    bindings@.take(i + 1),
                    index,
                ));
            }
        }
        proof {
            assert(bindings@.take(bindings@.len() as int) =~= bindings@);
        }
    }

    fn last_tcp(&self) -> (r: usize)
        ensures
            r == last_tcp_sensor(self@.windows),
    {
        let mut last: usize = 0;
        let ghost all = self@.windows;
        for i in 0..self.windows.len()
            invariant
                all == self@.windows,
                last == last_tcp_sensor(all.take(i as int)),
        {
            proof {
                assert(all.take(i + 1).drop_last() =~= all.take(i as int));
                assert(all.take(i + 1).last() == self.windows@[i as int]@);
            }
            if let SignalBinding::TcpSensor(sensor_id) = self.windows[i].binding {
                if sensor_id > last {
                    last = sensor_id;
                }
            }
        }
        proof {
            assert(all.take(all.len() as int) =~= all);
        }
        last
    }

    /// Opens one more group of windows of the kind on view.
    pub fn add_dynamic_window(&mut self)
        ensures
            final(self)@ == old(self)@.with_group(),
    {
        let ghost before = self@;
        match self.selected_view {
            TestSignalView::Demo => {
                let index: u32 = self.demo_group;
                let bindings: [SignalBinding; 3] = [
                    SignalBinding::DemoAxisX,
                    SignalBinding::DemoAxisY,
                    SignalBinding::DemoAxisZ,
                ];
                proof {
                    assert(bindings@ =~= before.next_bindings());
                }
                self.push_windows(bindings.as_slice(), index);
                self.demo_group = count_group(self.demo_group);
            },
            TestSignalView::Sent => {
                let index: u32 = self.sent_group;
                let bindings: [SignalBinding; 5] = [
                    SignalBinding::Sent1V1,
                    SignalBinding::Sent1P1,
                    SignalBinding::Sent2V2,
                    SignalBinding::Sent2P2,
                    SignalBinding::Sent3Angle,
                ];
                proof {
                    assert(bindings@ =~= before.next_bindings());
                }
                self.push_windows(bindings.as_slice(), index);
                self.sent_group = count_group(self.sent_group);
            },
            TestSignalView::CanFrame => {
                let index: u32 = self.can_group;
                let bindings: [SignalBinding; 3] = [
                    SignalBinding::CanAxisX,
                    SignalBinding::CanAxisY,
                    SignalBinding::CanAxisZ,
                ];
                proof {
                    assert(bindings@ =~= before.next_bindings());
                }
                self.push_windows(bindings.as_slice(), index);
                self.can_group = count_group(self.can_group);
            },
            TestSignalView::TcpFrame => {
                let index: u32 = self.tcp_group;
                let start: usize = self.last_tcp();
                let end: usize = if start <= usize::MAX - 4 {
                    start + 4
                } else {
                    usize::MAX
                };
                let mut bindings: Vec<SignalBinding> = Vec::new();
                for sensor_id in start..end
                    invariant
                        start <= end,
                        bindings@ == Seq::new(
                            (sensor_id - start) as nat,
                            |i: int| SignalBinding::TcpSensor((start + i) as usize),
                        ),
                {
                    bindings.push(SignalBinding::TcpSensor(sensor_id));
                    proof {
                        assert(bindings@ =~= Seq::new(
                            (sensor_id + 1 - start) as nat,
                            |i: int| SignalBinding::TcpSensor((start + i) as usize),
                        ));
                    }
                }
                proof {
                    assert(bindings@ =~= before.next_bindings());
                }
                self.push_windows(bindings.as_slice(), index);
                self.tcp_group = count_group(self.tcp_group);
            },
        }
        proof {
            assert(self@ =~= before.with_group());
        }
    }

    /// Closes all windows.
    pub fn clear(&mut self)
        ensures
            final(self)@ == (BoardData { windows: Seq::empty(), ..old(self)@ }),
    {
        self.windows = Vec::new();
        proof {
            assert(self@.windows =~= Seq::<WindowData>::empty());
        }
    }

    /// Puts another kind on view.
    pub fn switch_to_view(&mut self, view: TestSignalView)
        ensures
            final(self)@ == old(self)@.switched(view),
    {
        self.clear();
        self.selected_view = view;
        self.add_dynamic_window();
    }

    /// Puts the kind of a sample on view, where it is not; says whether the windows changed.
    pub fn show(&mut self, view: Option<TestSignalView>) -> (r: bool)
        ensures
            final(self)@ == old(self)@.showing(view),
            r == (view matches Some(v) && (old(self)@.selected_view != v
                || old(self)@.windows.len() == 0)),
    {
        match view {
            Some(view) => {
                if self.selected_view != view || self.windows.len() == 0 {
                    self.switch_to_view(view);
                    true
                } else {
                    false
                }
            },
            None => false,
        }
    }

    /// Closes the windows that are not marked as open.
    pub fn keep_open(&mut self, open: &Vec<bool>)
        requires
            open@.len() == old(self)@.windows.len(),
        ensures
            final(self)@ == (BoardData {
                windows: kept(old(self)@.windows, open@),
                ..old(self)@
            }),
    {
        let ghost before = self@;
        let ghost all = self@.windows;
        let mut i: usize = self.windows.len();
        proof {
            assert(kept(all.skip(i as int), open@.skip(i as int)) =~= Seq::<WindowData>::empty());
            assert(all =~= all.take(i as int) + kept(all.skip(i as int), open@.skip(i as int)));
        }
        while i > 0
            invariant
                i <= all.len(),
                open@.len() == all.len(),
                self@ == (BoardData {
                    windows: all.take(i as int) + kept(all.skip(i as int), open@.skip(i as int)),
                    ..before
                }),
            decreases i,
        {
            let ghost now = self@.windows;
            i = i - 1;
            proof {
                lemma_kept_front(all.skip(i as int), open@.skip(i as int));
                assert(all.skip(i as int).skip(1) =~= all.skip(i + 1));
                assert(open@.skip(i as int).skip(1) =~= open@.skip(i + 1));
                assert(all.take(i + 1) =~= all.take(i as int).push(all[i as int]));
            }
            if !open[i] {
                proof {
                    assert(self.windows@.len() == now.len());
                }
                let _ = self.windows.remove(i);
                proof {
                    assert(self@.windows =~= now.remove(i as int));
                }
            }
            proof {
                assert(self@.windows =~= all.take(i as int) + kept(
                    all.skip(i as int),
                    open@.skip(i as int),
                ));
            }
        }
        proof {
            assert(all.skip(0) =~= all);
            assert(open@.skip(0) =~= open@);
            assert(self@.windows =~= kept(all, open@));
        }
    }
}

/// The windows that are marked as open, in order.
pub open spec fn kept(windows: Seq<WindowData>, open: Seq<bool>) -> Seq<WindowData>
    decreases windows.len(),
{
    if windows.len() == 0 {
        Seq::empty()
    } else if open.last() {
        kept(windows.drop_last(), open.drop_last()).push(windows.last())
    } else {
        kept(windows.drop_last(), open.drop_last())
    }
}

proof fn lemma_kept_front(windows: Seq<WindowData>, open: Seq<bool>)
    requires
        windows.len() == open.len(),
        windows.len() > 0,
    ensures
        kept(windows, open) == if open[0] {
            seq![windows[0]] + kept(windows.skip(1), open.skip(1))
        } else {
            kept(windows.skip(1), open.skip(1))
        },
    decreases windows.len(),
{
    if windows.len() == 1 {
        reveal_with_fuel(kept, 2);
        assert(windows.drop_last() =~= Seq::<WindowData>::empty());
        assert(windows.skip(1) =~= Seq::<WindowData>::empty());
        assert(kept(windows, open) =~= if open[0] {
            seq![windows[0]]
        } else {
            Seq::empty()
        });
        assert(seq![windows[0]] + Seq::<WindowData>::empty() =~= seq![windows[0]]);
    } else {
        lemma_kept_front(windows.drop_last(), open.drop_last());
        assert(windows.drop_last().skip(1) =~= windows.skip(1).drop_last());
        assert(open.drop_last().skip(1) =~= open.skip(1).drop_last());
        let inner = kept(windows.skip(1).drop_last(), open.skip(1).drop_last());
        assert((seq![windows[0]] + inner).push(windows.last()) =~= seq![windows[0]] + inner.push(
            windows.last(),
        ));
    }
}

/// Once a sample of a kind has come in, that kind is on view and has windows.
pub proof fn law_sample_is_on_view(board: BoardData, view: TestSignalView)
    ensures
        board.showing(Some(view)).selected_view == view,
        board.showing(Some(view)).windows.len() > 0,
        board.showing(Some(view)).showing(Some(view)) == board.showing(Some(view)),
{
    let blank = BoardData { selected_view: view, windows: Seq::empty(), ..board };
    assert(last_tcp_sensor(blank.windows) == 0);
    assert(blank.next_bindings().len() > 0);
}

// ---- what holds of all windows ----

/// A sample is on view where its source says: that of the demo board, those of SENT, those of
/// an axis of the bus, those over TCP. A sample of no known source is on view by the address of
/// its device, or by its sensor where the address says nothing.
pub proof fn law_view_by_source(
    source_kind: TelemetrySourceKind,
    device_id: Seq<char>,
    sensor_id: usize,
    rest: Seq<char>,
)
    ensures
        view_of(TelemetrySourceKind::SerialDemo, device_id, sensor_id) == Some(
            TestSignalView::Demo,
        ),
        view_of(TelemetrySourceKind::SerialSent1, device_id, sensor_id) == Some(
            TestSignalView::Sent,
        ),
        view_of(TelemetrySourceKind::SerialSent2, device_id, sensor_id) == Some(
            TestSignalView::Sent,
        ),
        view_of(TelemetrySourceKind::SerialSent3, device_id, sensor_id) == Some(
            TestSignalView::Sent,
        ),
        view_of(TelemetrySourceKind::CanSent, device_id, sensor_id) == Some(TestSignalView::Sent),
        view_of(TelemetrySourceKind::CanAxis, device_id, sensor_id) == Some(
            TestSignalView::CanFrame,
        ),
        view_of(TelemetrySourceKind::TcpFrame, device_id, sensor_id) == Some(
            TestSignalView::TcpFrame,
        ),
        source_kind == TelemetrySourceKind::Unknown || source_kind
            == TelemetrySourceKind::FrameStream ==> {
            &&& device_id == "can://"@ + rest ==> view_of(source_kind, device_id, sensor_id)
                == Some(TestSignalView::CanFrame)
            &&& device_id == "tcp://"@ + rest ==> view_of(source_kind, device_id, sensor_id)
                == Some(TestSignalView::TcpFrame)
            &&& device_id == "serial://"@ + rest ==> view_of(source_kind, device_id, sensor_id)
                == if sensor_id <= 4 {
                Some(TestSignalView::Sent)
            } else {
                None
            }
        },
{
    reveal_strlit("can://");
    reveal_strlit("tcp://");
    reveal_strlit("serial://");
    assert(("can://"@ + rest).take(6) =~= "can://"@);
    assert(("tcp://"@ + rest).take(6) =~= "tcp://"@);
    assert(("tcp://"@ + rest).take(6)[0] == 't' && "can://"@[0] == 'c');
    assert(("serial://"@ + rest).take(6)[0] == 's' && "tcp://"@[0] == 't');
}

/// A window that is bound to an axis or a SENT value shows the sensor whose samples carry it,
/// and its title begins with what it shows and ends with the number of its group.
pub proof fn law_binding_shows(binding: SignalBinding, index: u32)
    ensures
        binding == SignalBinding::DemoAxisX ==> binding.sensor() == 0 && binding.stem()
            == "demo_x_"@ && binding.derived_angle() == Some("sensor_0_angle"@),
        binding == SignalBinding::DemoAxisY ==> binding.sensor() == 1 && binding.stem()
            == "demo_y_"@ && binding.derived_angle() == Some("sensor_1_angle"@),
        binding == SignalBinding::DemoAxisZ ==> binding.sensor() == 2 && binding.stem()
            == "demo_z_"@ && binding.derived_angle() == Some("sensor_2_angle"@),
        binding == SignalBinding::Sent1V1 ==> binding.sensor() == 0 && binding.stem()
            == "sent_t1_angle_"@,
        binding == SignalBinding::Sent1P1 ==> binding.sensor() == 1 && binding.stem()
            == "sent_t1_torque_"@,
        binding == SignalBinding::Sent2V2 ==> binding.sensor() == 2 && binding.stem()
            == "sent_t2_angle_"@,
        binding == SignalBinding::Sent2P2 ==> binding.sensor() == 3 && binding.stem()
            == "sent_t2_torque_"@,
        binding == SignalBinding::Sent3Angle ==> binding.sensor() == 4 && binding.stem()
            == "sent_s_angle_"@,
        binding == SignalBinding::CanAxisX ==> binding.sensor() == 0 && binding.stem()
            == "can_x_"@,
        binding == SignalBinding::CanAxisY ==> binding.sensor() == 1 && binding.stem()
            == "can_y_"@,
        binding == SignalBinding::CanAxisZ ==> binding.sensor() == 2 && binding.stem()
            == "can_z_"@,
        binding matches SignalBinding::TcpSensor(id) ==> binding.sensor() == id && binding.stem()
            == "tcp_sensor_"@ + text::decimal(id as nat) + "_"@,
        binding.title_text(index) == binding.stem() + text::decimal(index as nat),
        binding.can_axis() <==> binding == SignalBinding::CanAxisX || binding
            == SignalBinding::CanAxisY || binding == SignalBinding::CanAxisZ,
        binding.derived_angle() is Some <==> binding == SignalBinding::DemoAxisX || binding
            == SignalBinding::DemoAxisY || binding == SignalBinding::DemoAxisZ,
{
}

/// A group of windows shows one sensor after the other: the three axes of the demo board or of
/// the bus, the five values of SENT, or four sensors over TCP from the largest on that was
/// shown, each under the number of the group. The windows that were there stay in front.
pub proof fn law_group_of_windows(board: BoardData, i: int)
    ensures
        ({
            let after = board.with_group();
            let n = board.windows.len() as int;
            let index = match board.selected_view {
                TestSignalView::Demo => board.demo_group,
                TestSignalView::Sent => board.sent_group,
                TestSignalView::CanFrame => board.can_group,
                TestSignalView::TcpFrame => board.tcp_group,
            };
            let first = last_tcp_sensor(board.windows);
            let added = match board.selected_view {
                TestSignalView::Demo => 3int,
                TestSignalView::Sent => 5,
                TestSignalView::CanFrame => 3,
                TestSignalView::TcpFrame => if first + 4 <= usize::MAX {
                    4int
                } else {
                    usize::MAX - first
                },
            };
            &&& after.selected_view == board.selected_view
            &&& after.windows.len() == n + added
            &&& 0 <= i < n ==> after.windows[i] == board.windows[i]
            &&& n <= i < n + added ==> {
                let w = after.windows[i];
                &&& w.title == w.binding.stem() + text::decimal(index as nat)
                &&& w.binding.sensor() == i - n + if board.selected_view
                    == TestSignalView::TcpFrame {
                    first as int
                } else {
                    0
                }
                &&& board.selected_view == TestSignalView::Demo ==> w.binding is DemoAxisX
                    || w.binding is DemoAxisY || w.binding is DemoAxisZ
                &&& board.selected_view == TestSignalView::Sent ==> w.binding is Sent1V1
                    || w.binding is Sent1P1 || w.binding is Sent2V2 || w.binding is Sent2P2
                    || w.binding is Sent3Angle
                &&& board.selected_view == TestSignalView::CanFrame ==> w.binding is CanAxisX
                    || w.binding is CanAxisY || w.binding is CanAxisZ
                &&& board.selected_view == TestSignalView::TcpFrame ==> w.binding is TcpSensor
            }
        }),
{
    let bindings = board.next_bindings();
    let n = board.windows.len() as int;
    if n <= i < n + bindings.len() {
        assert(board.with_group().windows[i] == group_windows(
            bindings,
            board.group_index(),
        )[i - n]);
    }
}

/// Each view counts its own groups: the number of the view that is on goes up by one, the
/// others stay.
pub proof fn law_groups_are_counted(board: BoardData)
    ensures
        ({
            let after = board.with_group();
            let v = board.selected_view;
            &&& v != TestSignalView::Demo ==> after.demo_group == board.demo_group
            &&& v != TestSignalView::Sent ==> after.sent_group == board.sent_group
            &&& v != TestSignalView::CanFrame ==> after.can_group == board.can_group
            &&& v != TestSignalView::TcpFrame ==> after.tcp_group == board.tcp_group
            &&& v == TestSignalView::Demo && board.demo_group < u32::MAX ==> after.demo_group
                == board.demo_group + 1
            &&& v == TestSignalView::Sent && board.sent_group < u32::MAX ==> after.sent_group
                == board.sent_group + 1
            &&& v == TestSignalView::CanFrame && board.can_group < u32::MAX ==> after.can_group
                == board.can_group + 1
            &&& v == TestSignalView::TcpFrame && board.tcp_group < u32::MAX ==> after.tcp_group
                == board.tcp_group + 1
        }),
{
}

/// The largest sensor over TCP that is on view is the sensor of a window, and no window shows a
/// larger one.
pub proof fn law_last_tcp_sensor(windows: Seq<WindowData>, i: int)
    requires
        0 <= i < windows.len(),
    ensures
        windows[i].binding matches SignalBinding::TcpSensor(id) ==> id <= last_tcp_sensor(windows),
        last_tcp_sensor(windows) > 0 ==> exists|k: int|
            0 <= k < windows.len() && (#[trigger] windows[k]).binding == SignalBinding::TcpSensor(
                last_tcp_sensor(windows),
            ),
    decreases windows.len(),
{
    let front = windows.drop_last();
    assert(windows[windows.len() - 1] == windows.last());
    if front.len() > 0 {
        let j = if i < front.len() {
            i
        } else {
            0
        };
        law_last_tcp_sensor(front, j);
        assert(front[j] == windows[j]);
        if last_tcp_sensor(front) > 0 && last_tcp_sensor(windows) == last_tcp_sensor(front) {
            let k = choose|k: int|
                0 <= k < front.len() && (#[trigger] front[k]).binding == SignalBinding::TcpSensor(
                    last_tcp_sensor(front),
                );
            assert(windows[k] == front[k]);
        }
    } else {
        assert(last_tcp_sensor(front) == 0);
    }
}

/// Another view is laid out anew, with one group of its own; the view that is on already, with
/// windows, stays as it is, and so does the board where there is no view for a sample.
pub proof fn law_switching(board: BoardData, view: TestSignalView)
    ensures
        board.showing(None) == board,
        board.selected_view == view && board.windows.len() > 0 ==> board.showing(Some(view))
            == board,
        board.selected_view != view || board.windows.len() == 0 ==> board.showing(Some(view)) == (
        BoardData { selected_view: view, windows: Seq::empty(), ..board }).with_group(),
{
}

/// The windows that are open stay, in their order; those that are closed go.
pub proof fn law_kept_windows(windows: Seq<WindowData>, open: Seq<bool>, i: int)
    requires
        open.len() == windows.len(),
    ensures
        kept(windows, open).len() <= windows.len(),
        0 <= i < windows.len() && open[i] ==> kept(windows, open).contains(windows[i]),
        (forall|k: int| 0 <= k < open.len() ==> #[trigger] open[k]) ==> kept(windows, open)
            == windows,
        (forall|k: int| 0 <= k < open.len() ==> !#[trigger] open[k]) ==> kept(windows, open).len()
            == 0,
    decreases windows.len(),
{
    if windows.len() > 0 {
        let front = windows.drop_last();
        let front_open = open.drop_last();
        let before = kept(front, front_open);
        let all = kept(windows, open);
        law_kept_windows(front, front_open, i);
        assert(open[open.len() - 1] == open.last());
        if 0 <= i < windows.len() && open[i] {
            if i < front.len() {
                assert(front_open[i] == open[i] && front[i] == windows[i]);
                let j = choose|j: int| 0 <= j < before.len() && before[j] == front[i];
                assert(all[j] == windows[i]);
            } else {
                assert(all[before.len() as int] == windows[i]);
            }
        }
        if forall|k: int| 0 <= k < open.len() ==> #[trigger] open[k] {
            assert forall|k: int| 0 <= k < front_open.len() implies #[trigger] front_open[k] by {
                assert(open[k]);
            }
            assert(before.push(windows.last()) =~= windows);
        }
        if forall|k: int| 0 <= k < open.len() ==> !#[trigger] open[k] {
            assert forall|k: int| 0 <= k < front_open.len() implies !#[trigger] front_open[k] by {
                assert(!open[k]);
            }
        }
    }
}

/// A window is labelled by the source and by the series that its sensor has among the recorded
/// samples; its value is called an angle or a torque as the unit of its sensor says, and any
/// other value is raw.
pub proof fn law_window_labels(binding: SignalBinding)
    ensures
        binding is DemoAxisX || binding is DemoAxisY || binding is DemoAxisZ
            ==> binding.chart_text() == Some(
            "demo axis "@ + crate::ui::replay::ReplayMode::Can3Axis.label(binding.sensor() as int),
        ),
        binding is CanAxisX || binding is CanAxisY || binding is CanAxisZ ==> binding.chart_text()
            == Some(
            "CAN axis "@ + crate::ui::replay::ReplayMode::Can3Axis.label(binding.sensor() as int),
        ),
        binding is Sent1V1 || binding is Sent1P1 || binding is Sent2V2 || binding is Sent2P2
            || binding is Sent3Angle ==> {
            &&& binding.chart_text() == Some(
                "SENT "@ + crate::ui::replay::ReplayMode::Sent.label(binding.sensor() as int),
            )
            &&& binding.value_text() == if crate::signal::sensor_unit(binding.sensor() as nat)
                == "deg"@ {
                "angle"@
            } else {
                "torque"@
            }
        },
        binding is TcpSensor ==> binding.chart_text() is None,
        !(binding is Sent1V1 || binding is Sent1P1 || binding is Sent2V2 || binding is Sent2P2
            || binding is Sent3Angle) ==> binding.value_text() == "raw"@,
{
    reveal_strlit("deg");
    reveal_strlit("Nm");
    assert("deg"@.len() != "Nm"@.len());
    reveal_strlit("demo axis ");
    reveal_strlit("demo axis X");
    reveal_strlit("demo axis Y");
    reveal_strlit("demo axis Z");
    reveal_strlit("CAN axis ");
    reveal_strlit("CAN axis X");
    reveal_strlit("CAN axis Y");
    reveal_strlit("CAN axis Z");
    reveal_strlit("X");
    reveal_strlit("Y");
    reveal_strlit("Z");
    reveal_strlit("SENT ");
    reveal_strlit("SENT T1 angle");
    reveal_strlit("SENT T1 torque");
    reveal_strlit("SENT T2 angle");
    reveal_strlit("SENT T2 torque");
    reveal_strlit("SENT S angle");
    reveal_strlit("T1 angle");
    reveal_strlit("T1 torque");
    reveal_strlit("T2 angle");
    reveal_strlit("T2 torque");
    reveal_strlit("S angle");
    assert("demo axis X"@ =~= "demo axis "@ + "X"@);
    assert("demo axis Y"@ =~= "demo axis "@ + "Y"@);
    assert("demo axis Z"@ =~= "demo axis "@ + "Z"@);
    assert("CAN axis X"@ =~= "CAN axis "@ + "X"@);
    assert("CAN axis Y"@ =~= "CAN axis "@ + "Y"@);
    assert("CAN axis Z"@ =~= "CAN axis "@ + "Z"@);
    assert("SENT T1 angle"@ =~= "SENT "@ + "T1 angle"@);
    assert("SENT T1 torque"@ =~= "SENT "@ + "T1 torque"@);
    assert("SENT T2 angle"@ =~= "SENT "@ + "T2 angle"@);
    assert("SENT T2 torque"@ =~= "SENT "@ + "T2 torque"@);
    assert("SENT S angle"@ =~= "SENT "@ + "S angle"@);
}

} // verus!
