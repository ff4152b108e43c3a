//! Trigger clauses of the `scope` command: digital bit patterns and analog
//! levels, each with a behavior, rendered in the device's field syntax.
use vstd::prelude::*;
use crate::flea_scope::{trunc_div, voltage_to_raw_spec, CaptureConfigError, FleaProbe, ProbeView};
use crate::text::{hex2, push_hex2, push_signed_decimal, signed_decimal};

verus! {

/// Number of digital channels that a trigger pattern covers.
pub const TRIGGER_BITS: usize = 9;

/// Something that renders to a trigger clause.
pub trait TriggerConfig: Sized {
    /// The clause that `self` renders to.
    spec fn trigger_fields_spec(&self) -> Seq<char>;

    fn into_trigger_fields(self) -> (r: StringifiedTriggerConfig)
        ensures
            r@ == self.trigger_fields_spec(),
    ;
}

/// The rendered trigger clause of a `scope` command.
pub struct StringifiedTriggerConfig {
    trigger_fields: String,
}

impl View for StringifiedTriggerConfig {
    type V = Seq<char>;

    closed spec fn view(&self) -> Seq<char> {
        self.trigger_fields@
    }
}

impl StringifiedTriggerConfig {
    pub fn into_string(self) -> (r: String)
        ensures
            r@ == self@,
    {
        self.trigger_fields
    }
}

#[derive(Debug, Clone, Copy, PartialEq, Eq, Structural)]
pub enum BitState {
    High,
    Low,
    DontCare,
}

#[derive(Debug, Clone, Copy, PartialEq, Eq, Structural)]
pub enum DigitalTriggerBehavior {
    Auto,
    While,
    Start,
    Stop,
}

/// The clause prefix of a behavior: Auto, While/Level, Start/Rising and
/// Stop/Falling in that order.
pub open spec fn behavior_prefix(index: int) -> Seq<char> {
    if index == 0 {
        "~"@
    } else if index == 1 {
        ""@
    } else if index == 2 {
        "+"@
    } else {
        "-"@
    }
}

fn prefix_str(index: u8) -> (r: &'static str)
    ensures
        r@ == behavior_prefix(index as int),
{
    match index {
        0 => "~",
        1 => "",
        2 => "+",
        _ => "-",
    }
}

impl DigitalTriggerBehavior {
    /// Position of the behavior among Auto, While, Start, Stop.
    pub open spec fn index(self) -> int {
        match self {
            DigitalTriggerBehavior::Auto => 0,
            DigitalTriggerBehavior::While => 1,
            DigitalTriggerBehavior::Start => 2,
            DigitalTriggerBehavior::Stop => 3,
        }
    }

    pub fn as_str(&self) -> (r: &'static str)
        ensures
            r@ == behavior_prefix(self.index()),
    {
        match self {
            DigitalTriggerBehavior::Auto => prefix_str(0),
            DigitalTriggerBehavior::While => prefix_str(1),
            DigitalTriggerBehavior::Start => prefix_str(2),
            DigitalTriggerBehavior::Stop => prefix_str(3),
        }
    }
}

#[derive(Debug, Clone, Copy, PartialEq, Eq, Structural)]
pub enum AnalogTriggerBehavior {
    Auto,
    Level,
    Rising,
    Falling,
}

impl AnalogTriggerBehavior {
    /// Position of the behavior among Auto, Level, Rising, Falling.
    pub open spec fn index(self) -> int {
        match self {
            AnalogTriggerBehavior::Auto => 0,
            AnalogTriggerBehavior::Level => 1,
            AnalogTriggerBehavior::Rising => 2,
            AnalogTriggerBehavior::Falling => 3,
        }
    }

    pub fn as_str(&self) -> (r: &'static str)
        ensures
            r@ == behavior_prefix(self.index()),
    {
        match self {
            AnalogTriggerBehavior::Auto => prefix_str(0),
            AnalogTriggerBehavior::Level => prefix_str(1),
            AnalogTriggerBehavior::Rising => prefix_str(2),
            AnalogTriggerBehavior::Falling => prefix_str(3),
        }
    }
}

/// Whether a channel state counts towards a mask: any state but DontCare for
/// the mask of relevant channels, High alone for the mask of active ones.
pub open spec fn counts(state: BitState, active: bool) -> bool {
    if active {
        state == BitState::High
    } else {
        state != BitState::DontCare
    }
}

/// The mask with bit `i` set where channel `i` counts, channel 0 lowest.
pub open spec fn mask(states: Seq<BitState>, active: bool) -> nat
    decreases states.len(),
{
    if states.len() == 0 {
        0
    } else {
        (if counts(states[0], active) {
            1nat
        } else {
            0nat
        }) + 2 * mask(states.drop_first(), active)
    }
}

/// The clause of a digital trigger: prefix, active mask, relevant mask.
pub open spec fn digital_fields(states: Seq<BitState>, behavior: DigitalTriggerBehavior) -> Seq<
    char,
> {
    behavior_prefix(behavior.index()) + "0x"@ + hex2(mask(states, true)) + " 0x"@ + hex2(
        mask(states, false),
    )
}

/// The clause of an analog trigger: prefix, raw level, and a zero.
pub open spec fn analog_fields(level: int, behavior: AnalogTriggerBehavior) -> Seq<char> {
    behavior_prefix(behavior.index()) + signed_decimal(level) + " 0"@
}

fn compute_mask(states: &[BitState; 9], active: bool) -> (r: u32)
    ensures
        r as nat == mask(states@, active),
        r < 512,
{
    let mut acc: u32 = 0;
    let mut i: usize = TRIGGER_BITS;
    proof {
        vstd::arithmetic::power2::lemma2_to64();
    }
    while i > 0
        invariant
            i <= 9,
            acc as nat == mask(states@.subrange(i as int, 9), active),
            acc < vstd::arithmetic::power2::pow2((9 - i) as nat),
        decreases i,
    {
        let ghost tail = states@.subrange(i as int, 9);
        i = i - 1;
        proof {
            assert(states@.subrange(i as int, 9).drop_first() =~= tail);
            vstd::arithmetic::power2::lemma_pow2_unfold((9 - i) as nat);
            vstd::arithmetic::power2::lemma2_to64();
            if i > 0 {
                vstd::arithmetic::power2::lemma_pow2_strictly_increases((8 - i) as nat, 8);
            }
        }
        let bit: u32 = if counts_exec(states[i], active) {
            1
        } else {
            0
        };
        acc = bit + 2 * acc;
    }
    proof {
        assert(states@.subrange(0, 9) =~= states@);
        vstd::arithmetic::power2::lemma2_to64();
    }
    acc
}

fn counts_exec(state: BitState, active: bool) -> (r: bool)
    ensures
        r == counts(state, active),
{
    if active {
        state == BitState::High
    } else {
        state != BitState::DontCare
    }
}

/// Collects a state for each digital channel; channels left unset are DontCare.
#[derive(Debug)]
pub struct BitTriggerBuilder {
    bit_states: [BitState; 9],
}

impl View for BitTriggerBuilder {
    type V = Seq<BitState>;

    closed spec fn view(&self) -> Seq<BitState> {
        self.bit_states@
    }
}

/// Every builder holds one state for each of the channels.
pub proof fn lemma_builder_covers_all_channels(b: BitTriggerBuilder)
    ensures
        b@.len() == TRIGGER_BITS,
{
}

impl BitTriggerBuilder {
    pub fn new() -> (r: Self)
        ensures
            r@ == Seq::new(9, |i: int| BitState::DontCare),
    {
        let r = Self { bit_states: [BitState::DontCare; 9] };
        assert(r@ =~= Seq::new(9, |i: int| BitState::DontCare));
        r
    }

    /// Sets the state of channel `bit`.
    pub fn set_bit(self, bit: usize, state: BitState) -> (r: Self)
        requires
            bit < TRIGGER_BITS,
        ensures
            r@ == self@.update(bit as int, state),
            r@.len() == TRIGGER_BITS,
    {
        let mut bit_states = self.bit_states;
        bit_states[bit] = state;
        Self { bit_states }
    }

    pub fn bit0(self, state: BitState) -> (r: Self)
        ensures
            r@ == self@.update(0, state),
            r@.len() == TRIGGER_BITS,
    {
        self.set_bit(0, state)
    }

    pub fn bit1(self, state: BitState) -> (r: Self)
        ensures
            r@ == self@.update(1, state),
            r@.len() == TRIGGER_BITS,
    {
        self.set_bit(1, state)
    }

    pub fn bit2(self, state: BitState) -> (r: Self)
        ensures
            r@ == self@.update(2, state),
            r@.len() == TRIGGER_BITS,
    {
        self.set_bit(2, state)
    }

    pub fn bit3(self, state: BitState) -> (r: Self)
        ensures
            r@ == self@.update(3, state),
            r@.len() == TRIGGER_BITS,
    {
        self.set_bit(3, state)
    }

    pub fn bit4(self, state: BitState) -> (r: Self)
        ensures
            r@ == self@.update(4, state),
            r@.len() == TRIGGER_BITS,
    {
        self.set_bit(4, state)
    }

    pub fn bit5(self, state: BitState) -> (r: Self)
        ensures
            r@ == self@.update(5, state),
            r@.len() == TRIGGER_BITS,
    {
        self.set_bit(5, state)
    }

    pub fn bit6(self, state: BitState) -> (r: Self)
        ensures
            r@ == self@.update(6, state),
            r@.len() == TRIGGER_BITS,
    {
        self.set_bit(6, state)
    }

    pub fn bit7(self, state: BitState) -> (r: Self)
        ensures
            r@ == self@.update(7, state),
            r@.len() == TRIGGER_BITS,
    {
        self.set_bit(7, state)
    }

    pub fn bit8(self, state: BitState) -> (r: Self)
        ensures
            r@ == self@.update(8, state),
            r@.len() == TRIGGER_BITS,
    {
        self.set_bit(8, state)
    }

    /// Captures while the pattern matches.
    pub fn is_matching(self) -> (r: DigitalTrigger)
        ensures
            r.bit_states@ == self@,
            r.behavior == DigitalTriggerBehavior::While,
    {
        DigitalTrigger::new(self.bit_states, DigitalTriggerBehavior::While)
    }

    /// Starts capturing when the pattern starts to match.
    pub fn starts_matching(self) -> (r: DigitalTrigger)
        ensures
            r.bit_states@ == self@,
            r.behavior == DigitalTriggerBehavior::Start,
    {
        DigitalTrigger::new(self.bit_states, DigitalTriggerBehavior::Start)
    }

    /// Starts capturing when the pattern stops matching.
    pub fn stops_matching(self) -> (r: DigitalTrigger)
        ensures
            r.bit_states@ == self@,
            r.behavior == DigitalTriggerBehavior::Stop,
    {
        DigitalTrigger::new(self.bit_states, DigitalTriggerBehavior::Stop)
    }

    /// Same as `is_matching`, but the device also triggers by itself when the
    /// pattern has not matched for a while.
    pub fn auto(self) -> (r: DigitalTrigger)
        ensures
            r.bit_states@ == self@,
            r.behavior == DigitalTriggerBehavior::Auto,
    {
        DigitalTrigger::new(self.bit_states, DigitalTriggerBehavior::Auto)
    }
}

impl Default for BitTriggerBuilder {
    fn default() -> (r: Self)
        ensures
            r@ == Seq::new(9, |i: int| BitState::DontCare),
    {
        Self::new()
    }
}

/// A digital trigger: a state for each channel and a behavior.
#[derive(Debug, Clone)]
pub struct DigitalTrigger {
    pub bit_states: [BitState; 9],
    pub behavior: DigitalTriggerBehavior,
}

impl DigitalTrigger {
    pub fn new(bit_states: [BitState; 9], behavior: DigitalTriggerBehavior) -> (r: Self)
        ensures
            r.bit_states == bit_states,
            r.behavior == behavior,
    {
        Self { bit_states, behavior }
    }

    /// A builder with every channel DontCare.
    pub fn start_capturing_when() -> (r: BitTriggerBuilder)
        ensures
            r@ == Seq::new(9, |i: int| BitState::DontCare),
    {
        BitTriggerBuilder::new()
    }
}

impl TriggerConfig for DigitalTrigger {
    open spec fn trigger_fields_spec(&self) -> Seq<char> {
        digital_fields(self.bit_states@, self.behavior)
    }

    fn into_trigger_fields(self) -> (r: StringifiedTriggerConfig) {
        let relevant_bits = compute_mask(&self.bit_states, false);
        let active_bits = compute_mask(&self.bit_states, true);
        let mut fields = String::from_str(self.behavior.as_str());
        fields.append("0x");
        push_hex2(&mut fields, active_bits as u64);
        fields.append(" 0x");
        push_hex2(&mut fields, relevant_bits as u64);
        StringifiedTriggerConfig { trigger_fields: fields }
    }
}

/// An analog trigger at a raw level of the converter, in steps of four units.
#[derive(Debug, Clone)]
pub struct AnalogTrigger {
    pub level: i16,
    pub behavior: AnalogTriggerBehavior,
}

impl AnalogTrigger {
    pub fn new(raw_value: i16, behavior: AnalogTriggerBehavior) -> (r: Self)
        ensures
            r.level == raw_value,
            r.behavior == behavior,
    {
        Self { level: raw_value, behavior }
    }

    /// A builder for a trigger at `microvolts`, with the Auto behavior.
    pub fn start_capturing_when(microvolts: i32) -> (r: AnalogTriggerBuilder)
        ensures
            r@ == (microvolts as int, AnalogTriggerBehavior::Auto),
    {
        AnalogTriggerBuilder { microvolts, behavior: AnalogTriggerBehavior::Auto }
    }
}

impl TriggerConfig for AnalogTrigger {
    open spec fn trigger_fields_spec(&self) -> Seq<char> {
        analog_fields(self.level as int, self.behavior)
    }

    fn into_trigger_fields(self) -> (r: StringifiedTriggerConfig) {
        let mut fields = String::from_str(self.behavior.as_str());
        push_signed_decimal(&mut fields, self.level as i64);
        fields.append(" 0");
        StringifiedTriggerConfig { trigger_fields: fields }
    }
}

/// Largest magnitude of an analog trigger level.
pub const MAX_ANALOG_LEVEL: i64 = 1023;

/// The trigger level for a raw value in thousandths of a count: a quarter of
/// the count, plus one half, truncated toward zero.
pub open spec fn trigger_level(raw: int) -> int {
    trunc_div(raw + 2000, 4000)
}

/// The level of an analog trigger at `microvolts` on a probe, or why there is none.
pub open spec fn analog_level(p: ProbeView, microvolts: int) -> Result<int, CaptureConfigError> {
    match voltage_to_raw_spec(p, microvolts) {
        None => Err(CaptureConfigError::CalibrationNotSet),
        Some(raw) => if -MAX_ANALOG_LEVEL <= trigger_level(raw) <= MAX_ANALOG_LEVEL {
            Ok(trigger_level(raw))
        } else {
            Err(CaptureConfigError::VoltageOutOfRange)
        },
    }
}

/// An analog trigger in the making: a voltage in microvolts and a behavior.
#[derive(Debug)]
pub struct AnalogTriggerBuilder {
    microvolts: i32,
    behavior: AnalogTriggerBehavior,
}

impl View for AnalogTriggerBuilder {
    type V = (int, AnalogTriggerBehavior);

    closed spec fn view(&self) -> (int, AnalogTriggerBehavior) {
        (self.microvolts as int, self.behavior)
    }
}

impl AnalogTriggerBuilder {
    pub fn rising_edge(self) -> (r: AnalogTriggerBuilder)
        ensures
            r@ == (self@.0, AnalogTriggerBehavior::Rising),
    {
        AnalogTriggerBuilder { microvolts: self.microvolts, behavior: AnalogTriggerBehavior::Rising }
    }

    pub fn falling_edge(self) -> (r: AnalogTriggerBuilder)
        ensures
            r@ == (self@.0, AnalogTriggerBehavior::Falling),
    {
        AnalogTriggerBuilder { microvolts: self.microvolts, behavior: AnalogTriggerBehavior::Falling }
    }

    pub fn level(self) -> (r: AnalogTriggerBuilder)
        ensures
            r@ == (self@.0, AnalogTriggerBehavior::Level),
    {
        AnalogTriggerBuilder { microvolts: self.microvolts, behavior: AnalogTriggerBehavior::Level }
    }

    /// Same as `level`, but the device also triggers by itself when the level
    /// has not been met for a while.
    pub fn auto(self) -> (r: AnalogTriggerBuilder)
        ensures
            r@ == (self@.0, AnalogTriggerBehavior::Auto),
    {
        AnalogTriggerBuilder { microvolts: self.microvolts, behavior: AnalogTriggerBehavior::Auto }
    }

    /// The trigger at the raw level that the voltage reads as on `flea_probe`.
    ///
    /// Fails with `VoltageOutOfRange` where that level lies outside
    /// `[-MAX_ANALOG_LEVEL, MAX_ANALOG_LEVEL]`.
    pub fn into_trigger(self, flea_probe: &FleaProbe) -> (r: Result<AnalogTrigger, CaptureConfigError>)
        ensures
            match analog_level(flea_probe@, self@.0) {
                Ok(l) => r is Ok && r->Ok_0.level == l && r->Ok_0.behavior == self@.1,
                Err(e) => r is Err && r->Err_0 == e,
            },
    {
        let raw = match flea_probe.voltage_to_raw(self.microvolts) {
            Ok(v) => v,
            Err(_) => return Err(CaptureConfigError::CalibrationNotSet),
        };
        let shifted = raw as i128 + 2000;
        let level: i128 = if shifted >= 0 {
            shifted / 4000
        } else {
            -((-shifted) / 4000)
        };
        if level < -(MAX_ANALOG_LEVEL as i128) || level > MAX_ANALOG_LEVEL as i128 {
            return Err(CaptureConfigError::VoltageOutOfRange);
        }
        Ok(AnalogTrigger::new(level as i16, self.behavior))
    }
}

/// Either kind of trigger, so that a capture takes one or the other alike.
#[derive(Debug, Clone)]
pub enum Trigger {
    Analog(AnalogTrigger),
    Digital(DigitalTrigger),
}

impl TriggerConfig for Trigger {
    open spec fn trigger_fields_spec(&self) -> Seq<char> {
        match self {
            Trigger::Analog(t) => t.trigger_fields_spec(),
            Trigger::Digital(t) => t.trigger_fields_spec(),
        }
    }

    fn into_trigger_fields(self) -> (r: StringifiedTriggerConfig) {
        match self {
            Trigger::Analog(t) => t.into_trigger_fields(),
            Trigger::Digital(t) => t.into_trigger_fields(),
        }
    }
}

impl From<AnalogTrigger> for Trigger {
    fn from(trigger: AnalogTrigger) -> (r: Self) {
        Trigger::Analog(trigger)
    }
}

impl vstd::std_specs::convert::FromSpecImpl<AnalogTrigger> for Trigger {
    open spec fn obeys_from_spec() -> bool {
        true
    }

    open spec fn from_spec(v: AnalogTrigger) -> Self {
        Trigger::Analog(v)
    }
}

impl From<DigitalTrigger> for Trigger {
    fn from(trigger: DigitalTrigger) -> (r: Self) {
        Trigger::Digital(trigger)
    }
}

impl vstd::std_specs::convert::FromSpecImpl<DigitalTrigger> for Trigger {
    open spec fn obeys_from_spec() -> bool {
        true
    }

    open spec fn from_spec(v: DigitalTrigger) -> Self {
        Trigger::Digital(v)
    }
}

} // verus!
