//! Signals: what sensors measure, and what is derived from it.
use vstd::prelude::*;

use crate::number::Real;
use crate::table::Table;
use crate::text;

verus! {

/// A sample as it came in.
#[derive(Debug)]
pub struct RawSample {
    pub device_id: String,
    pub sensor_id: usize,
    pub t_sec: Real,
    pub value: Real,
    pub req_id: u64,
}

/// A sample of a signal.
#[derive(Debug)]
pub struct SignalSample {
    pub signal_id: String,
    pub device_id: String,
    pub t_sec: Real,
    pub value: Real,
    pub req_id: u64,
}

/// What a sample of a signal says.
#[verifier::ext_equal]
pub ghost struct SignalData {
    pub signal_id: Seq<char>,
    pub device_id: Seq<char>,
    pub t_sec: Real,
    pub value: Real,
    pub req_id: u64,
}

impl View for SignalSample {
    type V = SignalData;

    open spec fn view(&self) -> SignalData {
        SignalData {
            signal_id: self.signal_id@,
            device_id: self.device_id@,
            t_sec: self.t_sec,
            value: self.value,
            req_id: self.req_id,
        }
    }
}

impl Clone for SignalSample {
    fn clone(&self) -> (r: Self)
        ensures
            r@ == self@,
    {
        SignalSample {
            signal_id: text::owned(self.signal_id.as_str()),
            device_id: text::owned(self.device_id.as_str()),
            t_sec: self.t_sec,
            value: self.value,
            req_id: self.req_id,
        }
    }
}

/// The middle of a position sensor: the bits of 2048.
pub const POSITION_MIDDLE_BITS: u64 = 0x40A0_0000_0000_0000;

/// The middle of a torque sensor: the bits of 2047.5.
pub const TORQUE_MIDDLE_BITS: u64 = 0x409F_FE00_0000_0000;

/// Degrees for each step of a position sensor: the bits of 40 divided by 4092.
pub const POSITION_SCALE_BITS: u64 = 0x3F84_0501_4050_1405;

/// The same of a position sensor that counts the other way.
pub const POSITION_DOWN_BITS: u64 = 0xBF84_0501_4050_1405;

/// Degrees for each step of a torque sensor: the bits of 12 divided by 4079.
pub const TORQUE_SCALE_BITS: u64 = 0x3F68_199B_34E8_36BA;

/// The same of a torque sensor that counts the other way.
pub const TORQUE_DOWN_BITS: u64 = 0xBF68_199B_34E8_36BA;

/// How a signal is derived from another.
#[derive(Debug)]
pub enum DerivedFormula {
    /// `input * scale + offset`
    ScaleOffset { input_signal_id: String, scale: Real, offset: Real },
    /// `(input - input_offset) * scale`
    OffsetScale { input_signal_id: String, input_offset: Real, scale: Real },
}

impl DerivedFormula {
    pub open spec fn input(&self) -> Seq<char> {
        match self {
            DerivedFormula::ScaleOffset { input_signal_id, .. } => input_signal_id@,
            DerivedFormula::OffsetScale { input_signal_id, .. } => input_signal_id@,
        }
    }

    /// The signal that the formula is applied to.
    pub fn input_signal_id(&self) -> (r: &str)
        ensures
            r@ == self.input(),
    {
        match self {
            DerivedFormula::ScaleOffset { input_signal_id, .. } => input_signal_id.as_str(),
            DerivedFormula::OffsetScale { input_signal_id, .. } => input_signal_id.as_str(),
        }
    }
}

#[derive(Debug)]
pub enum SignalKind {
    SourceSensor { sensor_id: usize },
    Derived { formula: DerivedFormula },
}

/// A signal: how it is called and shown, and where it comes from.
#[derive(Debug)]
pub struct SignalSpec {
    pub id: String,
    pub name: String,
    pub unit: String,
    pub decimals: usize,
    pub kind: SignalKind,
}

/// The signals that a sensor feeds directly, in order.
pub open spec fn source_samples(specs: Seq<SignalSpec>, raw: RawSample) -> Seq<SignalData>
    decreases specs.len(),
{
    if specs.len() == 0 {
        Seq::empty()
    } else {
        let before = source_samples(specs.drop_last(), raw);
        match specs.last().kind {
            SignalKind::SourceSensor { sensor_id } => if sensor_id == raw.sensor_id {
                before.push(
                    SignalData {
                        signal_id: specs.last().id@,
                        device_id: raw.device_id@,
                        t_sec: raw.t_sec,
                        value: raw.value,
                        req_id: raw.req_id,
                    },
                )
            } else {
                before
            },
            SignalKind::Derived { .. } => before,
        }
    }
}

/// The latest values, once samples have been taken in one after the other.
pub open spec fn latest_after(
    latest: Map<(Seq<char>, Seq<char>), SignalData>,
    samples: Seq<SignalData>,
) -> Map<(Seq<char>, Seq<char>), SignalData>
    decreases samples.len(),
{
    if samples.len() == 0 {
        latest
    } else {
        latest_after(latest, samples.drop_last()).insert(
            (samples.last().device_id, samples.last().signal_id),
            samples.last(),
        )
    }
}

/// Whether these are the derived samples of a device: one for each derived signal whose
/// input has a latest value, in order, with what the given calculation makes of it.
pub open spec fn derived_samples<F: Fn(&DerivedFormula, Real) -> Real>(
    specs: Seq<SignalSpec>,
    latest: Map<(Seq<char>, Seq<char>), SignalData>,
    raw: RawSample,
    compute: F,
    out: Seq<SignalData>,
) -> bool
    decreases specs.len(),
{
    if specs.len() == 0 {
        out == Seq::<SignalData>::empty()
    } else {
        match specs.last().kind {
            SignalKind::SourceSensor { .. } => derived_samples(
                specs.drop_last(),
                latest,
                raw,
                compute,
                out,
            ),
            SignalKind::Derived { formula } => {
                let key = (raw.device_id@, formula.input());
                if latest.contains_key(key) {
                    &&& out.len() > 0
                    &&& out.last().signal_id == specs.last().id@
                    &&& out.last().device_id == raw.device_id@
                    &&& out.last().t_sec == raw.t_sec
                    &&& out.last().req_id == raw.req_id
                    &&& call_ensures(compute, (&formula, latest[key].value), out.last().value)
                    &&& derived_samples(
                        specs.drop_last(),
                        latest,
                        raw,
                        compute,
                        out.drop_last(),
                    )
                } else {
                    derived_samples(specs.drop_last(), latest, raw, compute, out)
                }
            },
        }
    }
}

/// The first signal with an id.
pub open spec fn first_spec(specs: Seq<SignalSpec>, id: Seq<char>) -> Option<SignalSpec>
    decreases specs.len(),
{
    if specs.len() == 0 {
        None
    } else if specs[0].id@ == id {
        Some(specs[0])
    } else {
        first_spec(specs.skip(1), id)
    }
}

/// The views of samples.
pub open spec fn signal_data(samples: Seq<SignalSample>) -> Seq<SignalData> {
    samples.map_values(|s: SignalSample| s@)
}

/// Keeps the latest value of every signal of every device.
pub struct SignalProcessor {
    specs: Vec<SignalSpec>,
    latest_values: Table<(String, String), SignalSample>,
}

impl SignalProcessor {
    /// The signals.
    pub closed spec fn signals(&self) -> Seq<SignalSpec> {
        self.specs@
    }

    /// The latest value by device and signal.
    pub closed spec fn latest(&self) -> Map<(Seq<char>, Seq<char>), SignalData> {
        self.latest_values@.map_values(|s: SignalSample| s@)
    }

    pub fn new(specs: Vec<SignalSpec>) -> (r: Self)
        ensures
            r.signals() == specs@,
            r.latest() == Map::<(Seq<char>, Seq<char>), SignalData>::empty(),
    {
        let r = SignalProcessor { specs, latest_values: Table::new() };
        proof {
            assert(r.latest() =~= Map::<(Seq<char>, Seq<char>), SignalData>::empty());
        }
        r
    }

    pub fn specs(&self) -> (r: &[SignalSpec])
        ensures
            r@ == self.signals(),
    {
        self.specs.as_slice()
    }

    /// The first signal with this id.
    pub fn spec(&self, signal_id: &str) -> (r: Option<&SignalSpec>)
        ensures
            match first_spec(self.signals(), signal_id@) {
                Some(found) => r is Some && *r->0 == found,
                None => r is None,
            },
    {
        proof {
            assert(self.specs@.skip(0) =~= self.specs@);
        }
        for i in 0..self.specs.len()
            invariant
                first_spec(self.specs@.skip(i as int), signal_id@) == first_spec(
                    self.signals(),
                    signal_id@,
                ),
        {
            proof {
                assert(self.specs@.skip(i as int).skip(1) =~= self.specs@.skip(i + 1));
                assert(self.specs@.skip(i as int)[0] == self.specs@[i as int]);
            }
            if text::same_text(self.specs[i].id.as_str(), signal_id) {
                return Some(&self.specs[i]);
            }
        }
        None
    }

    fn keep(&mut self, samples: &Vec<SignalSample>)
        ensures
            final(self).signals() == old(self).signals(),
            final(self).latest() == latest_after(old(self).latest(), signal_data(samples@)),
    {
        let ghost start = self.latest();
        let ghost all = signal_data(samples@);
        proof {
            assert(latest_after(start, all.take(0)) == start);
        }
        for i in 0..samples.len()
            invariant
                all == signal_data(samples@),
                self.signals() == old(self).signals(),
                self.latest() == latest_after(start, all.take(i as int)),
        {
            let key = (
                text::owned(samples[i].device_id.as_str()),
                text::owned(samples[i].signal_id.as_str()),
            );
            let ghost before = self.latest();
            let sample = samples[i].clone();
            let ghost data = sample@;
            self.latest_values.insert(key, sample);
            proof {
                assert(self.latest() =~= before.insert((data.device_id, data.signal_id), data));
                assert(all.take(i + 1).drop_last() =~= all.take(i as int));
                assert(all.take(i + 1).last() == data);
            }
        }
        proof {
            assert(all.take(all.len() as int) =~= all);
        }
    }

    /// Takes in a sample: gives the samples of the signals that its sensor feeds, then those
    /// of the derived signals of its device whose input has a value.
    pub fn ingest_raw<F: Fn(&DerivedFormula, Real) -> Real>(
        &mut self,
        raw: RawSample,
        compute: F,
    ) -> (r: Vec<SignalSample>)
        requires
            forall|formula: DerivedFormula, value: Real| #[trigger]
                call_requires(compute, (&formula, value)),
        ensures
            final(self).signals() == old(self).signals(),
            ({
                let sources = source_samples(old(self).signals(), raw);
                let latest = latest_after(old(self).latest(), sources);
                let derived = signal_data(r@).skip(sources.len() as int);
                &&& r@.len() >= sources.len()
                &&& signal_data(r@).take(sources.len() as int) == sources
                &&& derived_samples(old(self).signals(), latest, raw, compute, derived)
                &&& final(self).latest() == latest_after(latest, derived)
            }),
    {
        let ghost start = self.latest();
        let ghost sources = source_samples(self.signals(), raw);
        let mut out: Vec<SignalSample> = Vec::new();
        proof {
            assert(signal_data(out@) =~= source_samples(self.specs@.take(0), raw));
        }
        for i in 0..self.specs.len()
            invariant
                self.signals() == old(self).signals(),
                self.latest() == start,
                signal_data(out@) == source_samples(self.specs@.take(i as int), raw),
        {
            let ghost before = signal_data(out@);
            proof {
                assert(self.specs@.take(i + 1).drop_last() =~= self.specs@.take(i as int));
                assert(self.specs@.take(i + 1).last() == self.specs@[i as int]);
            }
            if let SignalKind::SourceSensor { sensor_id } = self.specs[i].kind {
                if sensor_id == raw.sensor_id {
                    let sample = SignalSample {
                        signal_id: text::owned(self.specs[i].id.as_str()),
                        device_id: text::owned(raw.device_id.as_str()),
                        t_sec: raw.t_sec,
                        value: raw.value,
                        req_id: raw.req_id,
                    };
                    out.push(sample);
                    proof {
                        assert(signal_data(out@) =~= before.push(sample@));
                    }
                }
            }
        }
        proof {
            assert(self.specs@.take(self.specs@.len() as int) =~= self.specs@);
        }
        self.keep(&out);
        let ghost latest = self.latest();
        let mut derived: Vec<SignalSample> = Vec::new();
        proof {
            assert(signal_data(derived@) =~= Seq::<SignalData>::empty());
        }
        for i in 0..self.specs.len()
            invariant
                self.signals() == old(self).signals(),
                self.latest() == latest,
                derived_samples(
                    self.specs@.take(i as int),
                    latest,
                    raw,
                    compute,
                    signal_data(derived@),
                ),
                forall|formula: DerivedFormula, value: Real| #[trigger]
                    call_requires(compute, (&formula, value)),
        {
            let ghost before = signal_data(derived@);
            proof {
                assert(self.specs@.take(i + 1).drop_last() =~= self.specs@.take(i as int));
                assert(self.specs@.take(i + 1).last() == self.specs@[i as int]);
            }
            if let SignalKind::Derived { formula } = &self.specs[i].kind {
                if let Some(sample) = self.compute_derived(
                    formula,
                    self.specs[i].id.as_str(),
                    raw.device_id.as_str(),
                    raw.t_sec,
                    raw.req_id,
                    &compute,
                ) {
                    derived.push(sample);
                    proof {
                        assert(signal_data(derived@) =~= before.push(sample@));
                        assert(signal_data(derived@).drop_last() =~= before);
                    }
                }
            }
        }
        proof {
            assert(self.specs@.take(self.specs@.len() as int) =~= self.specs@);
        }
        self.keep(&derived);
        let ghost first = out@;
        let ghost second = derived@;
        out.append(&mut derived);
        proof {
            assert(signal_data(first + second).take(first.len() as int) =~= signal_data(first));
            assert(signal_data(first + second).skip(first.len() as int) =~= signal_data(second));
        }
        out
    }

    fn compute_derived<F: Fn(&DerivedFormula, Real) -> Real>(
        &self,
        formula: &DerivedFormula,
        signal_id: &str,
        device_id: &str,
        t_sec: Real,
        req_id: u64,
        compute: &F,
    ) -> (r: Option<SignalSample>)
        requires
            forall|formula: DerivedFormula, value: Real| #[trigger]
                call_requires(*compute, (&formula, value)),
        ensures
            ({
                let key = (device_id@, formula.input());
                if self.latest().contains_key(key) {
                    &&& r is Some
                    &&& r->0.signal_id@ == signal_id@
                    &&& r->0.device_id@ == device_id@
                    &&& r->0.t_sec == t_sec
                    &&& r->0.req_id == req_id
                    &&& call_ensures(*compute, (formula, self.latest()[key].value), r->0.value)
                } else {
                    r is None
                }
            }),
    {
        let key = (text::owned(device_id), text::owned(formula.input_signal_id()));
        match self.latest_values.get(&key) {
            Some(input) => {
                let value: Real = (*compute)(formula, input.value);
                Some(
                    SignalSample {
                        signal_id: text::owned(signal_id),
                        device_id: text::owned(device_id),
                        t_sec,
                        value,
                        req_id,
                    },
                )
            },
            None => None,
        }
    }
}

/// Taking in samples of one device leaves the latest values of every other device alone, and
/// what was taken in last for a signal is its latest value.
pub proof fn law_devices_apart(
    latest: Map<(Seq<char>, Seq<char>), SignalData>,
    samples: Seq<SignalData>,
    device_id: Seq<char>,
    other: (Seq<char>, Seq<char>),
)
    requires
        forall|i: int| 0 <= i < samples.len() ==> (#[trigger] samples[i]).device_id == device_id,
        other.0 != device_id,
    ensures
        latest_after(latest, samples).contains_key(other) == latest.contains_key(other),
        latest.contains_key(other) ==> latest_after(latest, samples)[other] == latest[other],
        samples.len() > 0 ==> latest_after(latest, samples)[(
            device_id,
            samples.last().signal_id,
        )] == samples.last(),
    decreases samples.len(),
{
    if samples.len() > 0 {
        law_devices_apart(latest, samples.drop_last(), device_id, other);
    }
}

// ---- the usual signals ----

/// What a signal is, apart from its kind.
pub open spec fn labelled(spec: SignalSpec, id: Seq<char>, name: Seq<char>, unit: Seq<char>) -> bool {
    spec.id@ == id && spec.name@ == name && spec.unit@ == unit && spec.decimals == 3
}

/// The name of the signal of a sensor.
pub open spec fn sensor_name(sensor_id: nat) -> Seq<char> {
    if sensor_id == 0 {
        "sent_t1_angle"@
    } else if sensor_id == 1 {
        "sent_t1_torque"@
    } else if sensor_id == 2 {
        "sent_t2_angle"@
    } else if sensor_id == 3 {
        "sent_t2_torque"@
    } else if sensor_id == 4 {
        "sent_s_angle"@
    } else {
        "Sensor "@ + text::decimal(sensor_id)
    }
}

/// The unit of the signal of a sensor.
pub open spec fn sensor_unit(sensor_id: nat) -> Seq<char> {
    if sensor_id == 0 || sensor_id == 2 || sensor_id == 4 {
        "deg"@
    } else if sensor_id == 1 || sensor_id == 3 {
        "Nm"@
    } else {
        "raw"@
    }
}

/// The id of the raw signal of a sensor.
pub open spec fn raw_id(sensor_id: nat) -> Seq<char> {
    "sensor_"@ + text::decimal(sensor_id) + "_raw"@
}

/// The usual signal of a sensor.
pub open spec fn is_sensor_spec(spec: SignalSpec, sensor_id: nat) -> bool {
    &&& labelled(spec, raw_id(sensor_id), sensor_name(sensor_id), sensor_unit(sensor_id))
    &&& spec.kind matches SignalKind::SourceSensor { sensor_id: id } && id == sensor_id
}

/// The usual angle derived from a sensor.
pub open spec fn is_angle_spec(
    spec: SignalSpec,
    id: Seq<char>,
    name: Seq<char>,
    input: Seq<char>,
    offset_bits: u64,
    scale_bits: u64,
) -> bool {
    &&& labelled(spec, id, name, "deg"@)
    &&& spec.kind matches SignalKind::Derived {
        formula: DerivedFormula::OffsetScale { input_signal_id, input_offset, scale },
    } && input_signal_id@ == input && input_offset.bits == offset_bits && scale.bits == scale_bits
}

fn sensor_spec(sensor_id: usize) -> (r: SignalSpec)
    ensures
        is_sensor_spec(r, sensor_id as nat),
{
    let name: String = match sensor_id {
        0 => text::owned("sent_t1_angle"),
        1 => text::owned("sent_t1_torque"),
        2 => text::owned("sent_t2_angle"),
        3 => text::owned("sent_t2_torque"),
        4 => text::owned("sent_s_angle"),
        _ => {
            let mut name = text::owned("Sensor ");
            text::push_decimal(&mut name, sensor_id as u64);
            name
        },
    };
    let unit: String = match sensor_id {
        0 => text::owned("deg"),
        1 => text::owned("Nm"),
        2 => text::owned("deg"),
        3 => text::owned("Nm"),
        4 => text::owned("deg"),
        _ => text::owned("raw"),
    };
    let mut id = text::owned("sensor_");
    text::push_decimal(&mut id, sensor_id as u64);
    text::push_text(&mut id, "_raw");
    SignalSpec { id, name, unit, decimals: 3, kind: SignalKind::SourceSensor { sensor_id } }
}

fn angle_spec(id: &str, name: &str, input: &str, offset_bits: u64, scale_bits: u64) -> (r: SignalSpec)
    ensures
        is_angle_spec(r, id@, name@, input@, offset_bits, scale_bits),
{
    SignalSpec {
        id: text::owned(id),
        name: text::owned(name),
        unit: text::owned("deg"),
        decimals: 3,
        kind: SignalKind::Derived {
            formula: DerivedFormula::OffsetScale {
                input_signal_id: text::owned(input),
                input_offset: Real { bits: offset_bits },
                scale: Real { bits: scale_bits },
            },
        },
    }
}

/// The usual signals: one for each sensor, and the four angles that are derived.
pub fn default_signal_specs(sensor_count: usize) -> (r: Vec<SignalSpec>)
    requires
        sensor_count <= usize::MAX - 4,
    ensures
        r@.len() == sensor_count + 4,
        forall|i: int| 0 <= i < sensor_count ==> is_sensor_spec(#[trigger] r@[i], i as nat),
        is_angle_spec(
            r@[sensor_count as int],
            "sensor_0_angle"@,
            "sensor_P1_angle"@,
            "sensor_0_raw"@,
            POSITION_MIDDLE_BITS,
            POSITION_SCALE_BITS,
        ),
        is_angle_spec(
            r@[sensor_count + 1],
            "sensor_1_angle"@,
            "sensor_T1_angle"@,
            "sensor_1_raw"@,
            TORQUE_MIDDLE_BITS,
            TORQUE_SCALE_BITS,
        ),
        is_angle_spec(
            r@[sensor_count + 2],
            "sensor_2_angle"@,
            "sensor_P2_angle"@,
            "sensor_2_raw"@,
            POSITION_MIDDLE_BITS,
            POSITION_DOWN_BITS,
        ),
        is_angle_spec(
            r@[sensor_count + 3],
            "sensor_3_angle"@,
            "sensor_T2_angle"@,
            "sensor_3_raw"@,
            TORQUE_MIDDLE_BITS,
            TORQUE_DOWN_BITS,
        ),
{
    let mut specs: Vec<SignalSpec> = Vec::new();
    for sensor_id in 0..sensor_count
        invariant
            specs@.len() == sensor_id,
            forall|i: int| 0 <= i < sensor_id ==> is_sensor_spec(#[trigger] specs@[i], i as nat),
    {
        specs.push(sensor_spec(sensor_id));
    }
    specs.push(
        angle_spec(
            "sensor_0_angle",
            "sensor_P1_angle",
            "sensor_0_raw",
            POSITION_MIDDLE_BITS,
            POSITION_SCALE_BITS,
        ),
    );
    specs.push(
        angle_spec(
            "sensor_1_angle",
            "sensor_T1_angle",
            "sensor_1_raw",
            TORQUE_MIDDLE_BITS,
            TORQUE_SCALE_BITS,
        ),
    );
    specs.push(
        angle_spec(
            "sensor_2_angle",
            "sensor_P2_angle",
            "sensor_2_raw",
            POSITION_MIDDLE_BITS,
            POSITION_DOWN_BITS,
        ),
    );
    specs.push(
        angle_spec(
            "sensor_3_angle",
            "sensor_T2_angle",
            "sensor_3_raw",
            TORQUE_MIDDLE_BITS,
            TORQUE_DOWN_BITS,
        ),
    );
    specs
}

// ---- what holds of all signals ----

/// A raw sample becomes one sample of every signal that is taken from its sensor, with the raw
/// device, time, value and number, and of no other signal.
pub proof fn law_source_samples(specs: Seq<SignalSpec>, raw: RawSample, i: int, k: int)
    ensures
        0 <= i < source_samples(specs, raw).len() ==> {
            let out = source_samples(specs, raw)[i];
            &&& out.device_id == raw.device_id@
            &&& out.t_sec == raw.t_sec
            &&& out.value == raw.value
            &&& out.req_id == raw.req_id
            &&& exists|j: int|
                0 <= j < specs.len() && (#[trigger] specs[j]).id@ == out.signal_id && (
                specs[j].kind matches SignalKind::SourceSensor { sensor_id } && sensor_id
                    == raw.sensor_id)
        },
        0 <= k < specs.len() && (specs[k].kind matches SignalKind::SourceSensor { sensor_id }
            && sensor_id == raw.sensor_id) ==> exists|j: int|
            0 <= j < source_samples(specs, raw).len() && (#[trigger] source_samples(
                specs,
                raw,
            )[j]).signal_id == specs[k].id@,
    decreases specs.len(),
{
    if specs.len() > 0 {
        let front = specs.drop_last();
        let all = source_samples(specs, raw);
        let before = source_samples(front, raw);
        law_source_samples(front, raw, i, k);
        if 0 <= i < before.len() {
            let j = choose|j: int|
                0 <= j < front.len() && (#[trigger] front[j]).id@ == before[i].signal_id && (
                front[j].kind matches SignalKind::SourceSensor { sensor_id } && sensor_id
                    == raw.sensor_id);
            assert(specs[j] == front[j]);
        } else if i == before.len() && i < all.len() {
            assert(specs[specs.len() - 1] == specs.last());
        }
        if 0 <= k < specs.len() && (specs[k].kind matches SignalKind::SourceSensor { sensor_id }
            && sensor_id == raw.sensor_id) {
            if k < front.len() {
                assert(front[k] == specs[k]);
                let j = choose|j: int|
                    0 <= j < before.len() && (#[trigger] before[j]).signal_id == front[k].id@;
                assert(all[j] == before[j]);
            } else {
                assert(all[before.len() as int].signal_id == specs[k].id@);
            }
        }
    }
}

/// Every derived signal whose input has a latest value for the device gives one sample, under
/// its own name, computed from that value; a derived signal without one gives none.
pub proof fn law_derived_samples<F: Fn(&DerivedFormula, Real) -> Real>(
    specs: Seq<SignalSpec>,
    latest: Map<(Seq<char>, Seq<char>), SignalData>,
    raw: RawSample,
    compute: F,
    out: Seq<SignalData>,
    k: int,
    formula: DerivedFormula,
)
    requires
        derived_samples(specs, latest, raw, compute, out),
        0 <= k < specs.len(),
        specs[k].kind == (SignalKind::Derived { formula }),
        latest.contains_key((raw.device_id@, formula.input())),
    ensures
        exists|j: int|
            {
                &&& 0 <= j < out.len()
                &&& (#[trigger] out[j]).signal_id == specs[k].id@
                &&& out[j].device_id == raw.device_id@
                &&& out[j].t_sec == raw.t_sec
                &&& out[j].req_id == raw.req_id
                &&& call_ensures(
                    compute,
                    (&formula, latest[(raw.device_id@, formula.input())].value),
                    out[j].value,
                )
            },
    decreases specs.len(),
{
    let front = specs.drop_last();
    if k == specs.len() - 1 {
        assert(out[out.len() - 1] == out.last());
    } else {
        assert(front[k] == specs[k]);
        let grew = specs.last().kind matches SignalKind::Derived { formula: last }
            && latest.contains_key((raw.device_id@, last.input()));
        let before = if grew {
            out.drop_last()
        } else {
            out
        };
        law_derived_samples(front, latest, raw, compute, before, k, formula);
        let j = choose|j: int|
            {
                &&& 0 <= j < before.len()
                &&& (#[trigger] before[j]).signal_id == front[k].id@
                &&& before[j].device_id == raw.device_id@
                &&& before[j].t_sec == raw.t_sec
                &&& before[j].req_id == raw.req_id
                &&& call_ensures(
                    compute,
                    (&formula, latest[(raw.device_id@, formula.input())].value),
                    before[j].value,
                )
            };
        assert(out[j] == before[j]);
    }
}

/// Every derived sample is of the raw sample's device and of a derived signal whose input has a
/// latest value there; there are no more of them than signals.
pub proof fn law_no_other_derived_samples<F: Fn(&DerivedFormula, Real) -> Real>(
    specs: Seq<SignalSpec>,
    latest: Map<(Seq<char>, Seq<char>), SignalData>,
    raw: RawSample,
    compute: F,
    out: Seq<SignalData>,
    i: int,
)
    requires
        derived_samples(specs, latest, raw, compute, out),
        0 <= i < out.len(),
    ensures
        out.len() <= specs.len(),
        out[i].device_id == raw.device_id@,
        exists|k: int|
            0 <= k < specs.len() && (#[trigger] specs[k]).id@ == out[i].signal_id && (
            specs[k].kind matches SignalKind::Derived { formula } && latest.contains_key(
                (raw.device_id@, formula.input()),
            )),
    decreases specs.len(),
{
    let front = specs.drop_last();
    let grew = specs.last().kind matches SignalKind::Derived { formula: last }
        && latest.contains_key((raw.device_id@, last.input()));
    let before = if grew {
        out.drop_last()
    } else {
        out
    };
    if i < before.len() {
        law_no_other_derived_samples(front, latest, raw, compute, before, i);
        let k = choose|k: int|
            0 <= k < front.len() && (#[trigger] front[k]).id@ == before[i].signal_id && (
            front[k].kind matches SignalKind::Derived { formula } && latest.contains_key(
                (raw.device_id@, formula.input()),
            ));
        assert(specs[k] == front[k]);
    } else {
        assert(specs[specs.len() - 1] == specs.last());
        if before.len() > 0 {
            law_no_other_derived_samples(front, latest, raw, compute, before, 0);
        }
    }
}

/// The latest value of a signal is the last sample of it that came; a signal of which none came
/// keeps what it had.
pub proof fn law_latest_is_the_last(
    latest: Map<(Seq<char>, Seq<char>), SignalData>,
    samples: Seq<SignalData>,
    i: int,
)
    requires
        0 <= i < samples.len(),
        forall|j: int|
            i < j < samples.len() ==> (#[trigger] samples[j]).signal_id != samples[i].signal_id
                || samples[j].device_id != samples[i].device_id,
    ensures
        latest_after(latest, samples).contains_key((samples[i].device_id, samples[i].signal_id)),
        latest_after(latest, samples)[(samples[i].device_id, samples[i].signal_id)] == samples[i],
    decreases samples.len(),
{
    if i < samples.len() - 1 {
        let front = samples.drop_last();
        assert(samples[samples.len() - 1] == samples.last());
        assert forall|j: int| i < j < front.len() implies (#[trigger] front[j]).signal_id
            != front[i].signal_id || front[j].device_id != front[i].device_id by {
            assert(front[j] == samples[j]);
        }
        law_latest_is_the_last(latest, front, i);
    }
}

/// The signal that is found under a name is the first of that name, and none is found only
/// where there is none.
pub proof fn law_first_spec(specs: Seq<SignalSpec>, id: Seq<char>)
    ensures
        first_spec(specs, id) is None ==> forall|k: int|
            0 <= k < specs.len() ==> (#[trigger] specs[k]).id@ != id,
        first_spec(specs, id) matches Some(spec) ==> exists|k: int|
            {
                &&& 0 <= k < specs.len()
                &&& #[trigger] specs[k] == spec
                &&& spec.id@ == id
                &&& forall|j: int| 0 <= j < k ==> (#[trigger] specs[j]).id@ != id
            },
    decreases specs.len(),
{
    if specs.len() > 0 && specs[0].id@ != id {
        let rest = specs.skip(1);
        law_first_spec(rest, id);
        if first_spec(specs, id) is None {
            assert forall|k: int| 0 <= k < specs.len() implies (#[trigger] specs[k]).id@ != id by {
                if k > 0 {
                    assert(rest[k - 1] == specs[k]);
                }
            }
        } else {
            let spec = first_spec(specs, id)->0;
            let k = choose|k: int|
                {
                    &&& 0 <= k < rest.len()
                    &&& #[trigger] rest[k] == spec
                    &&& spec.id@ == id
                    &&& forall|j: int| 0 <= j < k ==> (#[trigger] rest[j]).id@ != id
                };
            assert(specs[k + 1] == spec);
            assert forall|j: int| 0 <= j < k + 1 implies (#[trigger] specs[j]).id@ != id by {
                if j > 0 {
                    assert(rest[j - 1] == specs[j]);
                }
            }
        }
    }
}

/// The sensors 0 to 4 are the angle and the torque of T1, those of T2, and the angle of S, in
/// degrees and newton metres; any other is named by its number and has no unit.
pub proof fn law_sensor_labels(sensor_id: nat)
    ensures
        sensor_name(0) == "sent_t1_angle"@ && sensor_unit(0) == "deg"@,
        sensor_name(1) == "sent_t1_torque"@ && sensor_unit(1) == "Nm"@,
        sensor_name(2) == "sent_t2_angle"@ && sensor_unit(2) == "deg"@,
        sensor_name(3) == "sent_t2_torque"@ && sensor_unit(3) == "Nm"@,
        sensor_name(4) == "sent_s_angle"@ && sensor_unit(4) == "deg"@,
        sensor_id > 4 ==> sensor_name(sensor_id) == "Sensor "@ + text::decimal(sensor_id)
            && sensor_unit(sensor_id) == "raw"@,
        raw_id(sensor_id) == "sensor_"@ + text::decimal(sensor_id) + "_raw"@,
{
}

/// The derived angles measure from the middle of the range, 2048 for a position and 2047.5 for
/// a torque, and the second pair turns the other way round from the first: its scale is that of
/// the first with the sign set.
pub proof fn law_derived_scales()
    ensures
        POSITION_MIDDLE_BITS == (1023 + 11) * 0x10_0000_0000_0000,
        TORQUE_MIDDLE_BITS == POSITION_MIDDLE_BITS - 0x200_0000_0000,
        POSITION_DOWN_BITS == POSITION_SCALE_BITS + 0x8000_0000_0000_0000,
        TORQUE_DOWN_BITS == TORQUE_SCALE_BITS + 0x8000_0000_0000_0000,
        POSITION_SCALE_BITS == 0x3F84_0501_4050_1405,
        TORQUE_SCALE_BITS == 0x3F68_199B_34E8_36BA,
{
}

/// The signal of a sensor is taken from that sensor, under its number, name and unit, and shown
/// with three decimals; a derived angle is in degrees, shown with three decimals too, and
/// measured from an offset of its own input.
pub proof fn law_signal_specs(
    spec: SignalSpec,
    sensor_id: nat,
    id: Seq<char>,
    name: Seq<char>,
    input: Seq<char>,
    offset_bits: u64,
    scale_bits: u64,
)
    ensures
        is_sensor_spec(spec, sensor_id) ==> {
            &&& spec.id@ == "sensor_"@ + text::decimal(sensor_id) + "_raw"@
            &&& spec.name@ == sensor_name(sensor_id)
            &&& spec.unit@ == sensor_unit(sensor_id)
            &&& spec.decimals == 3
            &&& spec.kind matches SignalKind::SourceSensor { sensor_id: from } && from == sensor_id
        },
        is_angle_spec(spec, id, name, input, offset_bits, scale_bits) ==> {
            &&& spec.id@ == id
            &&& spec.name@ == name
            &&& spec.unit@ == "deg"@
            &&& spec.decimals == 3
            &&& spec.kind matches SignalKind::Derived {
                formula: DerivedFormula::OffsetScale { input_signal_id, input_offset, scale },
            } && input_signal_id@ == input && input_offset.bits == offset_bits && scale.bits
                == scale_bits
        },
{
}

} // verus!
