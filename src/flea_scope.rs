//! Acquisition planning, probe calibration and the scope handles.
//!
//! Durations are whole microseconds. The effective sample rate of a capture is
//! `MCU_MHZ * INTERLEAVE / prescaler` MHz; it is carried as its prescaler.
use crate::serial_terminal::{
    completes, event_bytes, frame, strip_prompt, BusyFleaTerminal, CancellingFleaTerminal,
    ConnectionLostError, IdleFleaTerminal, ReadEvent,
};
use crate::text::{
    decimal, parse_hex_u32, parse_hex_u32_spec, parse_i32, parse_i32_spec, push_decimal,
    push_signed_decimal, signed_decimal,
};
use crate::trigger_config::{
    digital_fields, BitState, DigitalTrigger, DigitalTriggerBehavior, StringifiedTriggerConfig,
    TriggerConfig,
};
use vstd::prelude::*;
use vstd::utf8::encode_utf8;

verus! {

/// Target sample rate, in million samples per second.
pub const MSPS: u64 = 18;

/// Clock rate of the instrument's microcontroller, in MHz.
pub const MCU_MHZ: u64 = 120;

/// Number of interleaved converters.
pub const INTERLEAVE: u64 = 5;

/// Samples per capture frame.
pub const TOTAL_SAMPLES: u64 = 2000;

/// Captures must last longer than this many microseconds.
pub const MIN_TIME_FRAME_US: u64 = 111;

/// Captures may last at most this many microseconds.
pub const MAX_TIME_FRAME_US: u64 = 3490000;

/// Post-trigger delays may last at most this many microseconds.
pub const MAX_DELAY_US: u64 = 1000000;

/// Largest post-trigger delay, in samples, that the device accepts.
pub const MAX_DELAY_SAMPLES: u64 = 1000000;

/// Tick counts above this use the coarse prescaler divisor.
pub const COARSE_TICKS: u64 = 1000;

/// Largest value of the device's timer register.
pub const MAX_TIMER: u64 = 65535;

#[derive(PartialEq, Eq, Structural, Debug, Clone, Copy)]
pub enum CaptureConfigError {
    TimeFrameTooLarge,
    TimeFrameTooSmall,
    InvalidPrescalerLow,
    InvalidPrescalerHigh,
    DelayTooLarge,
    VoltageOutOfRange,
    CalibrationNotSet,
}

/// `n / d` rounded half up (to the nearest integer, halves upwards), for a
/// nonzero `d`.
pub open spec fn round_half_up(n: int, d: int) -> int {
    if d > 0 {
        (2 * n + d) / (2 * d)
    } else {
        (-2 * n - d) / (-2 * d)
    }
}

/// Device ticks for a capture of `us` microseconds.
pub open spec fn ticks_for(us: int) -> int {
    MSPS * us / TOTAL_SAMPLES as int
}

/// The prescaler divisor picked for a tick count.
pub open spec fn divisor_for(ticks: int) -> int {
    if ticks > COARSE_TICKS {
        16
    } else {
        1
    }
}

/// The timer count for a tick count, before range checks.
pub open spec fn timer_for(ticks: int) -> int {
    round_half_up(MCU_MHZ * ticks * INTERLEAVE, divisor_for(ticks) * MSPS)
}

/// The prescaler for a tick count, or why there is none.
pub open spec fn prescaler_for(ticks: int) -> Result<int, CaptureConfigError> {
    let t = timer_for(ticks);
    if t <= 0 {
        Err(CaptureConfigError::InvalidPrescalerLow)
    } else if t > MAX_TIMER {
        Err(CaptureConfigError::InvalidPrescalerHigh)
    } else {
        Ok(divisor_for(ticks) * t)
    }
}

/// Samples in a delay of `delay_us` microseconds at the rate that `prescaler` gives.
pub open spec fn delay_samples_for(delay_us: int, prescaler: int) -> int {
    round_half_up(delay_us * MCU_MHZ * INTERLEAVE, prescaler)
}

/// The validated parameters of a capture: ticks, prescaler and delay in samples.
pub open spec fn plan(us: int, delay_us: int) -> Result<(int, int, int), CaptureConfigError> {
    if us <= MIN_TIME_FRAME_US {
        Err(CaptureConfigError::TimeFrameTooSmall)
    } else if us > MAX_TIME_FRAME_US {
        Err(CaptureConfigError::TimeFrameTooLarge)
    } else if ticks_for(us) == 0 {
        Err(CaptureConfigError::TimeFrameTooSmall)
    } else {
        match prescaler_for(ticks_for(us)) {
            Err(e) => Err(e),
            Ok(p) => if delay_us > MAX_DELAY_US {
                Err(CaptureConfigError::DelayTooLarge)
            } else if delay_samples_for(delay_us, p) > MAX_DELAY_SAMPLES {
                Err(CaptureConfigError::DelayTooLarge)
            } else {
                Ok((ticks_for(us), p, delay_samples_for(delay_us, p)))
            },
        }
    }
}

/// The delay of a request, absent meaning none.
pub open spec fn opt_delay(delay_us: Option<u64>) -> int {
    match delay_us {
        Some(d) => d as int,
        None => 0,
    }
}

/// The `scope` command for a capture plan and a trigger clause.
pub open spec fn scope_command(ticks: int, fields: Seq<char>, delay_samples: int) -> Seq<char> {
    "scope "@ + decimal(ticks as nat) + " "@ + fields + " "@ + decimal(delay_samples as nat)
}

/// Every capture longer than the minimum and no longer than the maximum,
/// without delay, is accepted, with at least one tick and a prescaler between
/// 1 and 1_048_560, so that its effective sample rate is positive.
pub proof fn lemma_time_frame_in_range_accepted(us: int)
    requires
        MIN_TIME_FRAME_US < us <= MAX_TIME_FRAME_US,
    ensures
        plan(us, 0) is Ok,
        plan(us, 0)->Ok_0.0 >= 1,
        1 <= plan(us, 0)->Ok_0.1 <= 1048560,
{
    let ticks = ticks_for(us);
    assert(1 <= ticks <= 31410) by (nonlinear_arith)
        requires
            ticks == 18 * us / 2000,
            112 <= us <= 3490000,
    ;
    if ticks > 1000 {
        let t = timer_for(ticks);
        assert(t == (1200 * ticks + 288) / 576);
        assert(1 <= t <= 65438) by (nonlinear_arith)
            requires
                t == (1200 * ticks + 288) / 576,
                1000 < ticks <= 31410,
        ;
    } else {
        let t = timer_for(ticks);
        assert(t == (1200 * ticks + 18) / 36);
        assert(1 <= t <= 33334) by (nonlinear_arith)
            requires
                t == (1200 * ticks + 18) / 36,
                1 <= ticks <= 1000,
        ;
    }
    let p = prescaler_for(ticks)->Ok_0;
    assert(p >= 1);
    assert(round_half_up(0, p) == 0) by (nonlinear_arith)
        requires
            p >= 1,
            round_half_up(0, p) == p / (2 * p),
    ;
}

/// Captures of at most the minimum length are refused as too small, and
/// captures longer than the maximum as too large, whatever the delay.
pub proof fn lemma_time_frame_out_of_range_refused(us: int, delay_us: int)
    ensures
        us <= MIN_TIME_FRAME_US ==> plan(us, delay_us) == Err::<(int, int, int), CaptureConfigError>(
            CaptureConfigError::TimeFrameTooSmall,
        ),
        us > MAX_TIME_FRAME_US ==> plan(us, delay_us) == Err::<(int, int, int), CaptureConfigError>(
            CaptureConfigError::TimeFrameTooLarge,
        ),
{
}

#[derive(Debug, Clone, Copy, PartialEq, Eq, Structural)]
pub enum ProbeType {
    X1,
    X10,
}

impl ProbeType {
    pub open spec fn multiplier(self) -> int {
        match self {
            ProbeType::X1 => 1,
            ProbeType::X10 => 10,
        }
    }

    pub fn to_multiplier(&self) -> (r: i32)
        ensures
            r == self.multiplier(),
    {
        match self {
            ProbeType::X1 => 1,
            ProbeType::X10 => 10,
        }
    }
}

#[derive(Debug, Clone, Copy, PartialEq, Eq, Structural)]
pub enum Waveform {
    Sine,
    Square,
    Triangle,
    Ekg,
}

impl Waveform {
    pub open spec fn name(self) -> Seq<char> {
        match self {
            Waveform::Sine => "sine"@,
            Waveform::Square => "square"@,
            Waveform::Triangle => "triangle"@,
            Waveform::Ekg => "ekg"@,
        }
    }

    pub fn as_str(&self) -> (r: &'static str)
        ensures
            r@ == self.name(),
    {
        match self {
            Waveform::Sine => "sine",
            Waveform::Square => "square",
            Waveform::Triangle => "triangle",
            Waveform::Ekg => "ekg",
        }
    }
}

#[derive(Debug, Clone, Copy, PartialEq, Eq, Structural)]
pub enum CalibrationError {
    /// A conversion needs both calibration points.
    CalibrationNotSet,
    /// A full-scale calibration needs a zero calibration first.
    ZeroCalibrationRequired,
    /// The samples of a stable-value capture spread too far.
    SignalNotStable { min: i32, max: i32 },
    /// The two values stored on the device are equal.
    CalibrationValuesEqual,
    /// Zero and full-scale points coincide, so no voltage follows from a raw value.
    DegenerateCalibration,
    /// A stable-value capture held no sample.
    EmptyCapture,
    /// A capture's payload is not rows of integer samples.
    MalformedCapture,
    /// The device answered a calibration query with something other than an integer.
    MalformedResponse,
}

/// Raw values of the converter are handled in thousandths of a count.
pub const COUNT_SCALE: i64 = 1000;

/// The full-scale voltage of the converter, in microvolts.
pub const FULL_SCALE_UV: i64 = 3300000;

/// Largest magnitude of a calibration value given by hand, in thousandths of a count.
pub const MAX_CALIBRATION: i64 = 4398046511104;

/// Turns the device's echo off.
pub const ECHO_OFF_COMMAND: &'static str = "echo off";

/// Turns the device's echo back on.
pub const ECHO_ON_COMMAND: &'static str = "echo on";

/// Asks for the firmware version.
pub const VERSION_COMMAND: &'static str = "ver";

/// Asks for the hostname.
pub const HOSTNAME_COMMAND: &'static str = "hostname";

/// Length, in microseconds, of the capture taken for a calibration point.
pub const STABLE_CAPTURE_US: u64 = 20000;

/// Largest spread, in counts, of a capture that counts as stable.
pub const MAX_STABLE_SPREAD: i64 = 14;

/// Bias added to both calibration values stored on the device.
pub const FLASH_BIAS: i64 = 1000;

/// Midpoint of the converter, subtracted from the stored zero point.
pub const ADC_MIDPOINT: i64 = 2048;

/// `n / d` rounded toward zero, for a positive `d`.
pub open spec fn trunc_div(n: int, d: int) -> int {
    if n >= 0 {
        n / d
    } else {
        -((-n) / d)
    }
}

/// What is known of a probe: its kind, and its zero and full-scale points in
/// thousandths of a count, where set.
pub struct ProbeView {
    pub multiplier: ProbeType,
    pub zero: Option<int>,
    pub full_scale: Option<int>,
}

/// The span of a calibration: the distance from zero to full scale.
pub open spec fn span_of(p: ProbeView) -> Option<int> {
    match (p.zero, p.full_scale) {
        (Some(z), Some(f)) => Some(f - z),
        _ => None,
    }
}

/// The raw value, in thousandths of a count, that a voltage in microvolts reads as.
pub open spec fn voltage_to_raw_spec(p: ProbeView, microvolts: int) -> Option<int> {
    match (p.zero, p.full_scale) {
        (Some(z), Some(f)) => Some(round_half_up(microvolts * (f - z), FULL_SCALE_UV as int) + z),
        _ => None,
    }
}

/// The voltage, in microvolts, of a raw value in thousandths of a count.
pub open spec fn raw_to_voltage_spec(p: ProbeView, raw: int) -> Result<int, CalibrationError> {
    match (p.zero, p.full_scale) {
        (Some(z), Some(f)) => if f == z {
            Err(CalibrationError::DegenerateCalibration)
        } else {
            Ok(round_half_up((raw - z) * FULL_SCALE_UV, f - z))
        },
        _ => Err(CalibrationError::CalibrationNotSet),
    }
}

/// A probe and its two-point calibration.
///
/// The calibration is kept as two absolute points, zero and full scale, in
/// thousandths of a count; the span is their difference.
#[derive(Debug)]
pub struct FleaProbe {
    multiplier: ProbeType,
    cal_zero: Option<i64>,
    cal_full_scale: Option<i64>,
}

impl View for FleaProbe {
    type V = ProbeView;

    closed spec fn view(&self) -> ProbeView {
        ProbeView {
            multiplier: self.multiplier,
            zero: match self.cal_zero {
                Some(z) => Some(z as int),
                None => None,
            },
            full_scale: match self.cal_full_scale {
                Some(f) => Some(f as int),
                None => None,
            },
        }
    }
}

/// Whether a probe's points lie in range, a full-scale point only beside a zero point.
pub open spec fn probe_bounded(p: ProbeView) -> bool {
    &&& (p.zero matches Some(z) ==> -MAX_CALIBRATION <= z <= MAX_CALIBRATION)
    &&& (p.full_scale matches Some(f) ==> -2 * MAX_CALIBRATION <= f <= 2 * MAX_CALIBRATION)
    &&& (p.full_scale is Some ==> p.zero is Some)
}

/// `n / d` rounded down, for a positive `d`.
fn floor_div(n: i128, d: i128) -> (r: i128)
    requires
        d > 0,
        n > i128::MIN,
    ensures
        r == n / d,
{
    if n >= 0 {
        n / d
    } else {
        let q = (-n) / d;
        let m = (-n) % d;
        proof {
            vstd::arithmetic::div_mod::lemma_fundamental_div_mod((-n) as int, d as int);
            assert(-n == d * q + m);
            assert(n == d * (-q - if m == 0 { 0int } else { 1 }) + (if m == 0 { 0int } else { d - m })) by (nonlinear_arith)
                requires
                    -n == d * q + m,
                    0 <= m < d,
            ;
            vstd::arithmetic::div_mod::lemma_fundamental_div_mod_converse(
                n as int,
                d as int,
                -q - if m == 0 { 0int } else { 1 },
                if m == 0 { 0int } else { d - m },
            );
        }
        if m == 0 {
            -q
        } else {
            -q - 1
        }
    }
}

/// `n / d` rounded half up, for a nonzero `d`.
fn round_div(n: i128, d: i128) -> (r: i128)
    requires
        d != 0,
        -0x1000_0000_0000_0000_0000_0000_0000 < n < 0x1000_0000_0000_0000_0000_0000_0000,
        -0x1000_0000_0000_0000_0000_0000_0000 < d < 0x1000_0000_0000_0000_0000_0000_0000,
    ensures
        r == round_half_up(n as int, d as int),
{
    if d > 0 {
        floor_div(2 * n + d, 2 * d)
    } else {
        let twice: i128 = 2 * n;
        let double_d: i128 = 2 * d;
        floor_div(-twice - d, -double_d)
    }
}

impl FleaProbe {
    #[verifier::type_invariant]
    spec fn bounded(self) -> bool {
        probe_bounded(self@)
    }

    /// A probe with no calibration.
    pub fn new(multiplier: ProbeType) -> (r: Self)
        ensures
            r@ == (ProbeView { multiplier, zero: None, full_scale: None }),
    {
        Self { multiplier, cal_zero: None, cal_full_scale: None }
    }

    /// Sets the zero point and the span, both in thousandths of a count.
    pub fn set_calibration(&mut self, offset_0: i64, offset_3v3: i64)
        requires
            -MAX_CALIBRATION <= offset_0 <= MAX_CALIBRATION,
            -MAX_CALIBRATION <= offset_3v3 <= MAX_CALIBRATION,
        ensures
            final(self)@ == (ProbeView {
                multiplier: old(self)@.multiplier,
                zero: Some(offset_0 as int),
                full_scale: Some(offset_0 + offset_3v3),
            }),
    {
        *self = Self {
            multiplier: self.multiplier,
            cal_zero: Some(offset_0),
            cal_full_scale: Some(offset_0 + offset_3v3),
        };
    }

    /// The zero point and the span, where set.
    pub fn calibration(&self) -> (r: (Option<i64>, Option<i64>))
        ensures
            match self@.zero {
                Some(z) => r.0 == Some(z as i64),
                None => r.0 is None,
            },
            match span_of(self@) {
                Some(s) => r.1 == Some(s as i64),
                None => r.1 is None,
            },
    {
        proof {
            use_type_invariant(self);
        }
        match (self.cal_zero, self.cal_full_scale) {
            (Some(z), Some(f)) => (Some(z), Some(f - z)),
            (z, _) => (z, None),
        }
    }

    /// The raw value, in thousandths of a count, that a voltage reads as.
    pub fn voltage_to_raw(&self, microvolts: i32) -> (r: Result<i64, CalibrationError>)
        ensures
            match voltage_to_raw_spec(self@, microvolts as int) {
                Some(v) => r == Ok::<i64, CalibrationError>(v as i64) && i64::MIN <= v <= i64::MAX,
                None => r == Err::<i64, CalibrationError>(CalibrationError::CalibrationNotSet),
            },
    {
        proof {
            use_type_invariant(self);
        }
        match (self.cal_zero, self.cal_full_scale) {
            (Some(z), Some(f)) => {
                let span = f as i128 - z as i128;
                let v = microvolts as i128;
                assert(-0x1000_0000_0000_0000_0000_0000_0000 < v * span < 0x1000_0000_0000_0000_0000_0000_0000) by (nonlinear_arith)
                    requires
                        -0x8000_0000 <= v < 0x8000_0000,
                        -3 * MAX_CALIBRATION <= span <= 3 * MAX_CALIBRATION,
                ;
                let scaled = round_div(v * span, FULL_SCALE_UV as i128);
                assert(-0x0020_0000_0000_0000 <= scaled <= 0x0020_0000_0000_0000) by (nonlinear_arith)
                    requires
                        scaled == (2 * (v * span) + 3300000) / 6600000,
                        -0x8000_0000 <= v < 0x8000_0000,
                        -3 * MAX_CALIBRATION <= span <= 3 * MAX_CALIBRATION,
                ;
                Ok((scaled + z as i128) as i64)
            },
            _ => Err(CalibrationError::CalibrationNotSet),
        }
    }

    /// The voltage, in microvolts, of a raw value in thousandths of a count.
    pub fn raw_to_voltage(&self, raw: i64) -> (r: Result<i128, CalibrationError>)
        ensures
            match raw_to_voltage_spec(self@, raw as int) {
                Ok(v) => r == Ok::<i128, CalibrationError>(v as i128) && i128::MIN <= v <= i128::MAX,
                Err(e) => r == Err::<i128, CalibrationError>(e),
            },
    {
        proof {
            use_type_invariant(self);
        }
        match (self.cal_zero, self.cal_full_scale) {
            (Some(z), Some(f)) => {
                if f == z {
                    return Err(CalibrationError::DegenerateCalibration);
                }
                let span = f as i128 - z as i128;
                let offset = raw as i128 - z as i128;
                assert(-0x1000_0000_0000_0000_0000_0000 < offset * 3300000 < 0x1000_0000_0000_0000_0000_0000) by (nonlinear_arith)
                    requires
                        -0x1_0000_0000_0000_0000 < offset < 0x1_0000_0000_0000_0000,
                ;
                Ok(round_div(offset * FULL_SCALE_UV as i128, span))
            },
            _ => Err(CalibrationError::CalibrationNotSet),
        }
    }

    /// Sets the zero point from the samples of a stable-value capture taken
    /// with the probe's tip at 0V, and returns it.
    ///
    /// A full-scale point keeps its absolute raw value, so the span follows the
    /// new zero point. On an error the probe is left as it was.
    pub fn calibrate_0(&mut self, samples: &Vec<i32>) -> (r: Result<i64, CalibrationError>)
        ensures
            match stable_value_spec(samples@) {
                Ok(v) => r == Ok::<i64, CalibrationError>(v as i64) && final(self)@ == (ProbeView {
                    zero: Some(v),
                    ..old(self)@
                }),
                Err(e) => r == Err::<i64, CalibrationError>(e) && final(self)@ == old(self)@,
            },
    {
        proof {
            use_type_invariant(&*self);
        }
        let zero = match stable_value(samples) {
            Ok(v) => v,
            Err(e) => return Err(e),
        };
        *self = Self {
            multiplier: self.multiplier,
            cal_zero: Some(zero),
            cal_full_scale: self.cal_full_scale,
        };
        Ok(zero)
    }

    /// Sets the full-scale point from the samples of a stable-value capture
    /// taken with the probe's tip at 3.3V, and returns the new span.
    ///
    /// Needs a zero point; on an error the probe is left as it was.
    pub fn calibrate_3v3(&mut self, samples: &Vec<i32>) -> (r: Result<i64, CalibrationError>)
        ensures
            match old(self)@.zero {
                None => r == Err::<i64, CalibrationError>(CalibrationError::ZeroCalibrationRequired)
                    && final(self)@ == old(self)@,
                Some(z) => match stable_value_spec(samples@) {
                    Ok(v) => r == Ok::<i64, CalibrationError>((v - z) as i64) && final(self)@ == (
                    ProbeView { full_scale: Some(v), ..old(self)@ }),
                    Err(e) => r == Err::<i64, CalibrationError>(e) && final(self)@ == old(self)@,
                },
            },
    {
        proof {
            use_type_invariant(&*self);
        }
        let zero = match self.cal_zero {
            Some(z) => z,
            None => return Err(CalibrationError::ZeroCalibrationRequired),
        };
        let full = match stable_value(samples) {
            Ok(v) => v,
            Err(e) => return Err(e),
        };
        *self = Self { multiplier: self.multiplier, cal_zero: Some(zero), cal_full_scale: Some(full) };
        Ok(full - zero)
    }

    /// Reads the stable value of a capture taken for calibration, in
    /// thousandths of a count.
    pub fn read_stable_value_for_calibration(&self, reading: &ScopeReading) -> (r: Result<i64, CalibrationError>)
        ensures
            match complete_column(csv_raw_column(reading.data@)) {
                Some(c) => match stable_value_spec(c) {
                    Ok(v) => r == Ok::<i64, CalibrationError>(v as i64),
                    Err(e) => r == Err::<i64, CalibrationError>(e),
                },
                None => r == Err::<i64, CalibrationError>(CalibrationError::MalformedCapture),
            },
    {
        let samples = match reading.raw_samples() {
            Ok(s) => s,
            Err(e) => return Err(e),
        };
        stable_value(&samples)
    }

    /// The capture taken for a calibration point: `STABLE_CAPTURE_US` long,
    /// with a digital trigger that always matches, and no delay. Returns the
    /// prescaler and the command.
    pub fn stable_capture_command() -> (r: (u32, String))
        ensures
            plan(STABLE_CAPTURE_US as int, 0) is Ok,
            r.0 as int == plan(STABLE_CAPTURE_US as int, 0)->Ok_0.1,
            r.1@ == scope_command(
                plan(STABLE_CAPTURE_US as int, 0)->Ok_0.0,
                digital_fields(Seq::new(9, |i: int| BitState::DontCare), DigitalTriggerBehavior::While),
                plan(STABLE_CAPTURE_US as int, 0)->Ok_0.2,
            ),
    {
        proof {
            lemma_time_frame_in_range_accepted(STABLE_CAPTURE_US as int);
        }
        let fields = DigitalTrigger::start_capturing_when().is_matching().into_trigger_fields();
        match IdleFleaScope::prepare_read_command(STABLE_CAPTURE_US, fields, None) {
            Ok(r) => r,
            // never taken: this capture is within range, as proved above
            Err(_) => (0, String::new()),
        }
    }

    /// The command that declares the probe's two calibration variables in the
    /// device's flash.
    pub fn declare_calibration_command(&self) -> (r: String)
        ensures
            r@ == "dim "@ + zero_var(self@.multiplier.multiplier()) + " as flash, "@ + full_scale_var(
                self@.multiplier.multiplier(),
            ) + " as flash"@,
    {
        let m = self.multiplier.to_multiplier() as u64;
        let mut c = String::from_str("dim cal_zero_x");
        push_decimal(&mut c, m);
        c.append(" as flash, cal_3v3_x");
        push_decimal(&mut c, m);
        c.append(" as flash");
        proof {
            reveal_strlit("dim cal_zero_x");
            reveal_strlit("cal_zero_x");
            reveal_strlit("dim ");
            reveal_strlit(" as flash, cal_3v3_x");
            reveal_strlit(" as flash, ");
            reveal_strlit("cal_3v3_x");
            assert(c@ =~= "dim "@ + zero_var(self@.multiplier.multiplier()) + " as flash, "@ + full_scale_var(
                self@.multiplier.multiplier(),
            ) + " as flash"@);
        }
        c
    }

    /// The query for the stored zero point.
    pub fn read_zero_command(&self) -> (r: String)
        ensures
            r@ == "print "@ + zero_var(self@.multiplier.multiplier()),
    {
        let mut c = String::from_str("print cal_zero_x");
        push_decimal(&mut c, self.multiplier.to_multiplier() as u64);
        proof {
            reveal_strlit("print cal_zero_x");
            reveal_strlit("print ");
            reveal_strlit("cal_zero_x");
            assert(c@ =~= "print "@ + zero_var(self@.multiplier.multiplier()));
        }
        c
    }

    /// The query for the stored span.
    pub fn read_3v3_command(&self) -> (r: String)
        ensures
            r@ == "print "@ + full_scale_var(self@.multiplier.multiplier()),
    {
        let mut c = String::from_str("print cal_3v3_x");
        push_decimal(&mut c, self.multiplier.to_multiplier() as u64);
        proof {
            reveal_strlit("print cal_3v3_x");
            reveal_strlit("print ");
            reveal_strlit("cal_3v3_x");
            assert(c@ =~= "print "@ + full_scale_var(self@.multiplier.multiplier()));
        }
        c
    }

    /// Loads the calibration from the device's answers to the two queries.
    ///
    /// On an error the probe is left as it was.
    pub fn read_calibration_from_flash(&mut self, zero_response: &Vec<u8>, span_response: &Vec<u8>) -> (r: Result<(), CalibrationError>)
        ensures
            match load_spec(old(self)@, zero_response@, span_response@) {
                Ok(p) => r is Ok && final(self)@ == p,
                Err(e) => r == Err::<(), CalibrationError>(e) && final(self)@ == old(self)@,
            },
    {
        let a = match parse_i32(zero_response) {
            Some(v) => v,
            None => return Err(CalibrationError::MalformedResponse),
        };
        let b = match parse_i32(span_response) {
            Some(v) => v,
            None => {
                return Err(CalibrationError::MalformedResponse);
            },
        };
        if a == b {
            return Err(CalibrationError::CalibrationValuesEqual);
        }
        let zero: i64 = (a as i64 - FLASH_BIAS + ADC_MIDPOINT) * COUNT_SCALE;
        let step: i64 = match self.multiplier {
            ProbeType::X1 => COUNT_SCALE,
            ProbeType::X10 => COUNT_SCALE / 10,
        };
        proof {
            let d = b as int - FLASH_BIAS;
            assert(-2147484648000 <= d * step <= 2147482647000) by (nonlinear_arith)
                requires
                    100 <= step <= 1000,
                    -2147484648 <= d <= 2147482647,
            ;
        }
        let span: i64 = (b as i64 - FLASH_BIAS) * step;
        *self = Self {
            multiplier: self.multiplier,
            cal_zero: Some(zero),
            cal_full_scale: Some(zero + span),
        };
        Ok(())
    }

    /// The two commands that store the calibration in the device's flash.
    pub fn write_calibration_to_flash(&self) -> (r: Result<(String, String), CalibrationError>)
        ensures
            match (self@.zero, span_of(self@)) {
                (Some(z), Some(s)) => r is Ok && r->Ok_0.0@ == zero_var(self@.multiplier.multiplier())
                    + " = "@ + signed_decimal(stored_zero(z)) && r->Ok_0.1@ == full_scale_var(
                    self@.multiplier.multiplier(),
                ) + " = "@ + signed_decimal(stored_span(s, self@.multiplier.multiplier())),
                _ => r == Err::<(String, String), CalibrationError>(CalibrationError::CalibrationNotSet),
            },
    {
        proof {
            use_type_invariant(self);
        }
        let (z, f) = match (self.cal_zero, self.cal_full_scale) {
            (Some(z), Some(f)) => (z, f),
            _ => return Err(CalibrationError::CalibrationNotSet),
        };
        let m = self.multiplier.to_multiplier();
        let shift: i128 = ((ADC_MIDPOINT - FLASH_BIAS) * COUNT_SCALE - COUNT_SCALE / 2) as i128;
        let zero_value = clamp_to_i32(
            trunc_div_exec(z as i128 - shift, COUNT_SCALE as i128),
        );
        let span = f as i128 - z as i128;
        assert(-0x1000_0000_0000_0000_0000 <= span * m <= 0x1000_0000_0000_0000_0000) by (nonlinear_arith)
            requires
                -3 * MAX_CALIBRATION <= span <= 3 * MAX_CALIBRATION,
                1 <= m <= 10,
        ;
        let span_value = clamp_to_i32(
            trunc_div_exec(span * m as i128 + (FLASH_BIAS * COUNT_SCALE + COUNT_SCALE / 2) as i128, COUNT_SCALE as i128),
        );
        let mut zero_cmd = String::from_str("cal_zero_x");
        push_decimal(&mut zero_cmd, m as u64);
        zero_cmd.append(" = ");
        push_signed_decimal(&mut zero_cmd, zero_value as i64);
        let mut span_cmd = String::from_str("cal_3v3_x");
        push_decimal(&mut span_cmd, m as u64);
        span_cmd.append(" = ");
        push_signed_decimal(&mut span_cmd, span_value as i64);
        Ok((zero_cmd, span_cmd))
    }
}

/// Smallest sample of a nonempty sequence.
pub open spec fn seq_min(s: Seq<i32>) -> int
    decreases s.len(),
{
    if s.len() <= 1 {
        s[0] as int
    } else if (s.last() as int) < seq_min(s.drop_last()) {
        s.last() as int
    } else {
        seq_min(s.drop_last())
    }
}

/// Largest sample of a nonempty sequence.
pub open spec fn seq_max(s: Seq<i32>) -> int
    decreases s.len(),
{
    if s.len() <= 1 {
        s[0] as int
    } else if (s.last() as int) > seq_max(s.drop_last()) {
        s.last() as int
    } else {
        seq_max(s.drop_last())
    }
}

pub open spec fn seq_sum(s: Seq<i32>) -> int
    decreases s.len(),
{
    if s.len() == 0 {
        0
    } else {
        seq_sum(s.drop_last()) + s.last()
    }
}

/// The value of a stable-value capture, in thousandths of a count: the mean of
/// its samples, unless they spread more than the allowed number of counts.
pub open spec fn stable_value_spec(s: Seq<i32>) -> Result<int, CalibrationError> {
    if s.len() == 0 {
        Err(CalibrationError::EmptyCapture)
    } else if seq_max(s) - seq_min(s) > MAX_STABLE_SPREAD {
        Err(CalibrationError::SignalNotStable { min: seq_min(s) as i32, max: seq_max(s) as i32 })
    } else {
        Ok(round_half_up(seq_sum(s) * COUNT_SCALE, s.len() as int))
    }
}

/// The value of a stable-value capture from its samples, in thousandths of a count.
///
/// Fails with `SignalNotStable`, holding the smallest and the largest sample,
/// where they lie more than `MAX_STABLE_SPREAD` counts apart.
pub fn stable_value(samples: &Vec<i32>) -> (r: Result<i64, CalibrationError>)
    ensures
        match stable_value_spec(samples@) {
            Ok(v) => r == Ok::<i64, CalibrationError>(v as i64) && -2147483648000 <= v
                <= 2147483647000,
            Err(e) => r == Err::<i64, CalibrationError>(e),
        },
{
    let n = samples.len();
    if n == 0 {
        return Err(CalibrationError::EmptyCapture);
    }
    let mut min: i32 = samples[0];
    let mut max: i32 = samples[0];
    let mut sum: i128 = samples[0] as i128;
    let mut i: usize = 1;
    proof {
        assert(samples@.subrange(0, 1).drop_last() =~= Seq::<i32>::empty());
        assert(seq_sum(Seq::<i32>::empty()) == 0);
        assert(seq_sum(samples@.subrange(0, 1)) == samples@[0]);
    }
    while i < n
        invariant
            1 <= i <= n == samples.len(),
            min == seq_min(samples@.subrange(0, i as int)),
            max == seq_max(samples@.subrange(0, i as int)),
            sum == seq_sum(samples@.subrange(0, i as int)),
            -2147483648 * i <= sum <= 2147483647 * i,
        decreases n - i,
    {
        let x = samples[i];
        proof {
            assert(samples@.subrange(0, i + 1).drop_last() =~= samples@.subrange(0, i as int));
        }
        if x < min {
            min = x;
        }
        if x > max {
            max = x;
        }
        sum = sum + x as i128;
        i = i + 1;
    }
    proof {
        assert(samples@.subrange(0, n as int) =~= samples@);
    }
    if max as i64 - min as i64 > MAX_STABLE_SPREAD {
        return Err(CalibrationError::SignalNotStable { min, max });
    }
    let count = n as i128;
    let scaled = sum * COUNT_SCALE as i128;
    let mean = round_div(scaled, count);
    assert(-2147483648000 <= mean <= 2147483647000) by (nonlinear_arith)
        requires
            mean == (2 * scaled + count) / (2 * count),
            scaled == sum * 1000,
            -2147483648 * count <= sum <= 2147483647 * count,
            count >= 1,
    ;
    Ok(mean as i64)
}

/// What the CSV decoder reads from a capture's payload: the first and the
/// second field of each header-less row, as a 32-bit integer and as text, None
/// for a field that holds none; None where the payload is no CSV text of two
/// columns.
pub uninterp spec fn csv_columns(data: Seq<u8>) -> Option<(Seq<Option<i32>>, Seq<Option<Seq<char>>>)>;

/// The raw column of a payload, as the CSV decoder reads it.
pub open spec fn csv_raw_column(data: Seq<u8>) -> Option<Seq<Option<i32>>> {
    match csv_columns(data) {
        Some(c) => Some(c.0),
        None => None,
    }
}

/// The bitmap column of a payload, as the CSV decoder reads it.
pub open spec fn csv_bitmap_column(data: Seq<u8>) -> Option<Seq<Option<Seq<char>>>> {
    match csv_columns(data) {
        Some(c) => Some(c.1),
        None => None,
    }
}

pub open spec fn opt_text(s: Option<String>) -> Option<Seq<char>> {
    match s {
        Some(x) => Some(x@),
        None => None,
    }
}

/// Relies on polars' CSV reader (`CsvReadOptions::into_reader_with_file_handle`,
/// `CsvReader::finish`) and on `Column::cast` to `Int32` and to `String`: the
/// two columns of a header-less CSV text, which depend on the text alone.
#[verifier::external_body]
fn decode_csv(data: &Vec<u8>) -> (r: Option<(Vec<Option<i32>>, Vec<Option<String>>)>)
    ensures
        match r {
            Some(c) => csv_columns(data@) == Some((c.0@, c.1@.map_values(|o: Option<String>| opt_text(o)))),
            None => csv_columns(data@) is None,
        },
{
    let reader = polars::prelude::CsvReadOptions::default()
        .with_has_header(false)
        .into_reader_with_file_handle(std::io::Cursor::new(data.as_slice()));
    let frame = polars::prelude::SerReader::finish(reader).ok()?;
    let raw = frame.column("column_1").ok()?.cast(&polars::prelude::DataType::Int32).ok()?;
    let bitmap = frame.column("column_2").ok()?.cast(&polars::prelude::DataType::String).ok()?;
    let raw = raw.i32().ok()?.into_iter().collect();
    let bitmap = bitmap.str().ok()?.into_iter().map(|v| v.map(String::from)).collect();
    Some((raw, bitmap))
}

/// The samples of a decoded column, where every field held one.
pub open spec fn complete_column(column: Option<Seq<Option<i32>>>) -> Option<Seq<i32>> {
    match column {
        Some(c) => if forall|i: int| 0 <= i < c.len() ==> (#[trigger] c[i]) is Some {
            Some(c.map_values(|x: Option<i32>| x->Some_0))
        } else {
            None
        },
        None => None,
    }
}

/// Number of digital channels in a capture's bitmap.
pub const CHANNELS: usize = 10;

/// `v` shifted right by `i` bits.
pub open spec fn shifted(v: nat, i: nat) -> nat
    decreases i,
{
    if i == 0 {
        v
    } else {
        shifted(v, (i - 1) as nat) / 2
    }
}

/// The channel states of one row, channel 0 first: the bits of its bitmap,
/// or all low where the bitmap is absent or no hexadecimal number.
pub open spec fn row_bits(field: Option<Seq<char>>) -> Seq<bool> {
    match field {
        Some(f) => match parse_hex_u32_spec(encode_utf8(f)) {
            Some(v) => Seq::new(CHANNELS as nat, |i: int| shifted(v as nat, i as nat) % 2 == 1),
            None => Seq::new(CHANNELS as nat, |i: int| false),
        },
        None => Seq::new(CHANNELS as nat, |i: int| false),
    }
}

fn row_bits_exec(field: &Option<String>) -> (r: Vec<bool>)
    ensures
        r@ == row_bits(opt_text(*field)),
{
    let value: Option<u32> = match field {
        Some(f) => parse_hex_u32(f.as_str().as_bytes()),
        None => None,
    };
    let mut bits: Vec<bool> = Vec::new();
    match value {
        Some(v) => {
            let mut x: u32 = v;
            let mut i: usize = 0;
            while i < CHANNELS
                invariant
                    i <= CHANNELS,
                    x == shifted(v as nat, i as nat),
                    bits@.len() == i,
                    forall|k: int| 0 <= k < i ==> bits@[k] == (shifted(v as nat, k as nat) % 2 == 1),
                decreases CHANNELS - i,
            {
                bits.push(x % 2 == 1);
                x = x / 2;
                i = i + 1;
            }
        },
        None => {
            let mut i: usize = 0;
            while i < CHANNELS
                invariant
                    i <= CHANNELS,
                    bits@.len() == i,
                    forall|k: int| 0 <= k < i ==> !bits@[k],
                decreases CHANNELS - i,
            {
                bits.push(false);
                i = i + 1;
            }
        },
    }
    proof {
        assert(bits@ =~= row_bits(opt_text(*field)));
    }
    bits
}

/// The payload of a capture and the prescaler that it was taken with.
///
/// The payload is header-less rows of `<raw sample>,<bitmap in hex>`; the
/// effective sample rate is `MCU_MHZ * INTERLEAVE / prescaler` MHz.
pub struct ScopeReading {
    pub prescaler: u32,
    pub data: Vec<u8>,
}

impl ScopeReading {
    /// The raw samples of the capture, in counts.
    pub fn raw_samples(&self) -> (r: Result<Vec<i32>, CalibrationError>)
        ensures
            match complete_column(csv_raw_column(self.data@)) {
                Some(c) => r is Ok && r->Ok_0@ == c,
                None => r == Err::<Vec<i32>, CalibrationError>(CalibrationError::MalformedCapture),
            },
    {
        let column = match decode_csv(&self.data) {
            Some(c) => c.0,
            None => return Err(CalibrationError::MalformedCapture),
        };
        let mut samples: Vec<i32> = Vec::new();
        let mut i: usize = 0;
        while i < column.len()
            invariant
                i <= column.len(),
                csv_raw_column(self.data@) == Some(column@),
                samples@.len() == i,
                forall|k: int| 0 <= k < i ==> (#[trigger] column@[k]) is Some && samples@[k]
                    == column@[k]->Some_0,
            decreases column.len() - i,
        {
            match column[i] {
                Some(x) => samples.push(x),
                None => {
                    assert(!(column@[i as int] is Some));
                    assert(!(forall|k: int| 0 <= k < column@.len() ==> (#[trigger] column@[k]) is Some));

                    return Err(CalibrationError::MalformedCapture);
                },
            }
            i = i + 1;
        }
        assert(samples@ =~= column@.map_values(|x: Option<i32>| x->Some_0));
        Ok(samples)
    }

    /// The digital channels of the capture, one column per channel, channel 0
    /// first, each with one state per row; None where the payload has no
    /// bitmap column.
    pub fn extract_bits(&self) -> (r: Option<Vec<Vec<bool>>>)
        ensures
            match csv_bitmap_column(self.data@) {
                Some(rows) => r is Some && r->Some_0@.len() == CHANNELS && forall|c: int, k: int|
                    0 <= c < CHANNELS && 0 <= k < rows.len() ==> (#[trigger] r->Some_0@[c]@[k])
                    == row_bits(rows[k])[c] && r->Some_0@[c]@.len() == rows.len(),
                None => r is None,
            },
    {
        let rows = match decode_csv(&self.data) {
            Some(c) => c.1,
            None => return None,
        };
        let ghost texts = rows@.map_values(|o: Option<String>| opt_text(o));
        let mut bits: Vec<Vec<bool>> = Vec::new();
        let mut k: usize = 0;
        while k < rows.len()
            invariant
                k <= rows.len(),
                texts == rows@.map_values(|o: Option<String>| opt_text(o)),
                bits@.len() == k,
                forall|j: int| 0 <= j < k ==> (#[trigger] bits@[j])@ == row_bits(texts[j]),
            decreases rows.len() - k,
        {
            bits.push(row_bits_exec(&rows[k]));
            k = k + 1;
        }
        let mut columns: Vec<Vec<bool>> = Vec::new();
        let mut c: usize = 0;
        while c < CHANNELS
            invariant
                c <= CHANNELS,
                bits@.len() == rows@.len(),
                texts == rows@.map_values(|o: Option<String>| opt_text(o)),
                forall|j: int| 0 <= j < bits@.len() ==> (#[trigger] bits@[j])@ == row_bits(texts[j]),
                columns@.len() == c,
                forall|c2: int, j: int| 0 <= c2 < c && 0 <= j < rows@.len() ==> (#[trigger] columns@[c2]@[j])
                    == row_bits(texts[j])[c2] && columns@[c2]@.len() == rows@.len(),
            decreases CHANNELS - c,
        {
            let mut column: Vec<bool> = Vec::new();
            let mut j: usize = 0;
            while j < bits.len()
                invariant
                    c < CHANNELS,
                    j <= bits@.len(),
                    bits@.len() == rows@.len(),
                    forall|j2: int| 0 <= j2 < bits@.len() ==> (#[trigger] bits@[j2])@ == row_bits(texts[j2]),
                    column@.len() == j,
                    forall|j2: int| 0 <= j2 < j ==> column@[j2] == row_bits(texts[j2])[c as int],
                decreases bits@.len() - j,
            {
                proof {
                    assert(bits@[j as int]@ == row_bits(texts[j as int]));
                }
                column.push(bits[j][c]);
                j = j + 1;
            }
            columns.push(column);
            c = c + 1;
        }
        Some(columns)
    }
}

/// `n` clamped to the range of `i32`.
pub open spec fn clamp_i32(n: int) -> int {
    if n < i32::MIN {
        i32::MIN as int
    } else if n > i32::MAX {
        i32::MAX as int
    } else {
        n
    }
}

/// The device variable that holds a probe's zero point.
pub open spec fn zero_var(m: int) -> Seq<char> {
    "cal_zero_x"@ + decimal(m as nat)
}

/// The device variable that holds a probe's span.
pub open spec fn full_scale_var(m: int) -> Seq<char> {
    "cal_3v3_x"@ + decimal(m as nat)
}

/// The stored form of a zero point: counts less the midpoint, plus the bias.
pub open spec fn stored_zero(z: int) -> int {
    clamp_i32(
        trunc_div(z - (ADC_MIDPOINT - FLASH_BIAS) * COUNT_SCALE + COUNT_SCALE / 2, COUNT_SCALE as int),
    )
}

/// The stored form of a span: counts at the probe's tip, plus the bias.
pub open spec fn stored_span(span: int, m: int) -> int {
    clamp_i32(trunc_div(span * m + FLASH_BIAS * COUNT_SCALE + COUNT_SCALE / 2, COUNT_SCALE as int))
}

/// The zero point, in thousandths of a count, that a stored value stands for.
pub open spec fn loaded_zero(stored: int) -> int {
    (stored - FLASH_BIAS + ADC_MIDPOINT) * COUNT_SCALE
}

/// The span, in thousandths of a count, that a stored value stands for.
pub open spec fn loaded_span(stored: int, m: int) -> int {
    (stored - FLASH_BIAS) * (COUNT_SCALE as int / m)
}

/// The probe once the two stored values are loaded, or why they cannot be.
pub open spec fn load_spec(p: ProbeView, zero_response: Seq<u8>, span_response: Seq<u8>) -> Result<ProbeView, CalibrationError> {
    match (parse_i32_spec(zero_response), parse_i32_spec(span_response)) {
        (Some(a), Some(b)) => if a == b {
            Err(CalibrationError::CalibrationValuesEqual)
        } else {
            Ok(ProbeView {
                multiplier: p.multiplier,
                zero: Some(loaded_zero(a as int)),
                full_scale: Some(loaded_zero(a as int) + loaded_span(b as int, p.multiplier.multiplier())),
            })
        },
        _ => Err(CalibrationError::MalformedResponse),
    }
}

/// Values stored on the device survive a load followed by a store: the zero
/// point and the span loaded from nonnegative stored values are stored as those
/// same values again.
pub proof fn lemma_stored_values_round_trip(a: i32, b: i32, probe: ProbeType)
    requires
        a >= 0,
        b >= 0,
    ensures
        stored_zero(loaded_zero(a as int)) == a,
        stored_span(loaded_span(b as int, probe.multiplier()), probe.multiplier()) == b,
{
    let m = probe.multiplier();
    assert(loaded_zero(a as int) - (ADC_MIDPOINT - FLASH_BIAS) * COUNT_SCALE + COUNT_SCALE / 2 == a
        * 1000 + 500);
    assert((a * 1000 + 500) / 1000 == a) by (nonlinear_arith)
        requires
            a >= 0,
    ;
    assert(loaded_span(b as int, m) * m == (b - 1000) * 1000) by (nonlinear_arith)
        requires
            m == 1 || m == 10,
            loaded_span(b as int, m) == (b - 1000) * (1000int / m),
    ;
    assert((b * 1000 + 500) / 1000 == b) by (nonlinear_arith)
        requires
            b >= 0,
    ;
}

fn trunc_div_exec(n: i128, d: i128) -> (r: i128)
    requires
        d > 0,
        n > i128::MIN,
    ensures
        r == trunc_div(n as int, d as int),
{
    if n >= 0 {
        n / d
    } else {
        -((-n) / d)
    }
}

fn clamp_to_i32(n: i128) -> (r: i32)
    ensures
        r == clamp_i32(n as int),
{
    if n < i32::MIN as i128 {
        i32::MIN
    } else if n > i32::MAX as i128 {
        i32::MAX
    } else {
        n as i32
    }
}

impl Clone for FleaProbe {
    fn clone(&self) -> (r: Self)
        ensures
            r@ == self@,
    {
        proof {
            use_type_invariant(self);
        }
        Self {
            multiplier: self.multiplier,
            cal_zero: self.cal_zero,
            cal_full_scale: self.cal_full_scale,
        }
    }
}

/// The command that sets the signal generator.
pub open spec fn waveform_command(waveform: Waveform, hz: int) -> Seq<char> {
    "wave "@ + waveform.name() + " "@ + signed_decimal(hz)
}

/// A scope with no capture outstanding.
pub struct IdleFleaScope<P> {
    serial: IdleFleaTerminal<P>,
    ver: String,
    hostname: String,
}

/// A scope with one capture outstanding.
pub struct ReadingFleaScope<P> {
    ver: String,
    hostname: String,
    serial: BusyFleaTerminal<P>,
    prescaler: u32,
}

/// Capture planning depends on no link, so it is reached without naming a port type.
impl IdleFleaScope<()> {
    /// The prescaler for `number1` device ticks.
    pub fn number1_to_prescaler(number1: u32) -> (r: Result<u32, CaptureConfigError>)
        ensures
            match r {
                Ok(p) => prescaler_for(number1 as int) == Ok::<int, CaptureConfigError>(p as int),
                Err(e) => prescaler_for(number1 as int) == Err::<int, CaptureConfigError>(e),
            },
    {
        let ps: u64 = if number1 as u64 > COARSE_TICKS {
            16
        } else {
            1
        };
        let d: u64 = ps * MSPS;
        let t: u64 = (2 * (MCU_MHZ * number1 as u64 * INTERLEAVE) + d) / (2 * d);
        if t == 0 {
            return Err(CaptureConfigError::InvalidPrescalerLow);
        }
        if t > MAX_TIMER {
            return Err(CaptureConfigError::InvalidPrescalerHigh);
        }
        Ok((ps * t) as u32)
    }

    /// Validates a capture request and renders its `scope` command.
    ///
    /// Returns the prescaler, which fixes the effective sample rate, with the
    /// command. An absent delay is no delay.
    pub fn prepare_read_command(
        time_frame_us: u64,
        trigger_fields: StringifiedTriggerConfig,
        delay_us: Option<u64>,
    ) -> (r: Result<(u32, String), CaptureConfigError>)
        ensures
            match plan(time_frame_us as int, opt_delay(delay_us)) {
                Ok(x) => r is Ok && r->Ok_0.0 as int == x.1 && r->Ok_0.1@ == scope_command(
                    x.0,
                    trigger_fields@,
                    x.2,
                ),
                Err(e) => r == Err::<(u32, String), CaptureConfigError>(e),
            },
    {
        let delay: u64 = match delay_us {
            Some(d) => d,
            None => 0,
        };
        if time_frame_us <= MIN_TIME_FRAME_US {
            return Err(CaptureConfigError::TimeFrameTooSmall);
        }
        if time_frame_us > MAX_TIME_FRAME_US {
            return Err(CaptureConfigError::TimeFrameTooLarge);
        }
        let number1: u64 = MSPS * time_frame_us / TOTAL_SAMPLES;
        if number1 == 0 {
            return Err(CaptureConfigError::TimeFrameTooSmall);
        }
        let prescaler = match Self::number1_to_prescaler(number1 as u32) {
            Ok(p) => p,
            Err(e) => return Err(e),
        };
        if delay > MAX_DELAY_US {
            return Err(CaptureConfigError::DelayTooLarge);
        }
        let delay_samples: u64 = (2 * (delay * MCU_MHZ * INTERLEAVE) + prescaler as u64) / (2
            * prescaler as u64);
        if delay_samples > MAX_DELAY_SAMPLES {
            return Err(CaptureConfigError::DelayTooLarge);
        }
        let mut command = String::from_str("scope ");
        push_decimal(&mut command, number1);
        command.append(" ");
        command.append(trigger_fields.into_string().as_str());
        command.append(" ");
        push_decimal(&mut command, delay_samples);
        Ok((prescaler, command))
    }
}

impl<P> IdleFleaScope<P> {
    /// A scope over an idle link, with the device's answers to `ver` and `hostname`.
    pub fn new(serial: IdleFleaTerminal<P>, ver: String, hostname: String) -> (r: Self)
        ensures
            r.port() == serial.port(),
            r.hostname() == hostname@,
            r.version() == ver@,
    {
        Self { serial, ver, hostname }
    }

    pub closed spec fn port(&self) -> P {
        self.serial.port()
    }

    pub closed spec fn hostname(&self) -> Seq<char> {
        self.hostname@
    }

    pub closed spec fn version(&self) -> Seq<char> {
        self.ver@
    }

    /// The link, the version and the hostname, for commands run to completion;
    /// `new` puts them together again.
    pub fn into_parts(self) -> (r: (IdleFleaTerminal<P>, String, String))
        ensures
            r.0.port() == self.port(),
            r.1@ == self.version(),
            r.2@ == self.hostname(),
    {
        (self.serial, self.ver, self.hostname)
    }

    pub fn hostname_str(&self) -> (r: &str)
        ensures
            r@ == self.hostname(),
    {
        self.hostname.as_str()
    }

    /// The command that sets the signal generator to `waveform` at `hz`.
    pub fn set_waveform(&self, waveform: Waveform, hz: i32) -> (r: String)
        ensures
            r@ == waveform_command(waveform, hz as int),
    {
        let mut c = String::from_str("wave ");
        c.append(waveform.as_str());
        c.append(" ");
        push_signed_decimal(&mut c, hz as i64);
        c
    }

    /// Records a new hostname and returns the command that sets it on the device.
    pub fn set_hostname(&mut self, hostname: &str) -> (r: String)
        ensures
            r@ == "hostname "@ + hostname@,
            final(self).hostname() == hostname@,
            final(self).port() == old(self).port(),
            final(self).version() == old(self).version(),
    {
        let mut c = String::from_str("hostname ");
        c.append(hostname);
        self.hostname = String::from_str(hostname);
        c
    }

    /// Starts a capture: validates the request and issues its `scope` command.
    ///
    /// A request that fails validation hands the scope back with the error,
    /// and no command is issued.
    pub fn read_async(
        self,
        time_frame_us: u64,
        trigger_fields: StringifiedTriggerConfig,
        delay_us: Option<u64>,
    ) -> (r: Result<ReadingFleaScope<P>, (IdleFleaScope<P>, CaptureConfigError)>)
        ensures
            match plan(time_frame_us as int, opt_delay(delay_us)) {
                Ok(x) => r matches Ok(reading) && reading.request() == frame(
                    scope_command(x.0, trigger_fields@, x.2),
                ) && reading.prescaler() == x.1 && reading.response() == Seq::<u8>::empty()
                    && reading.port() == self.port() && reading.hostname() == self.hostname()
                    && reading.version() == self.version(),
                Err(e) => r matches Err((scope, e2)) && e2 == e && scope == self,
            },
    {
        match IdleFleaScope::prepare_read_command(time_frame_us, trigger_fields, delay_us) {
            Ok((prescaler, command)) => {
                let serial = self.serial.exec_async(command.as_str());
                Ok(ReadingFleaScope { ver: self.ver, hostname: self.hostname, serial, prescaler })
            },
            Err(e) => Err((self, e)),
        }
    }
}

impl<P> ReadingFleaScope<P> {
    pub closed spec fn port(&self) -> P {
        self.serial.port()
    }

    /// The bytes to write for the capture's command.
    pub closed spec fn request(&self) -> Seq<u8> {
        self.serial.request()
    }

    /// The response read so far.
    pub closed spec fn response(&self) -> Seq<u8> {
        self.serial.response()
    }

    pub closed spec fn terminal(&self) -> BusyFleaTerminal<P> {
        self.serial
    }

    pub closed spec fn hostname(&self) -> Seq<char> {
        self.hostname@
    }

    pub closed spec fn version(&self) -> Seq<char> {
        self.ver@
    }

    pub closed spec fn prescaler(&self) -> int {
        self.prescaler as int
    }

    /// The link, to write the command and to read.
    pub fn terminal_mut(&mut self) -> (r: &mut BusyFleaTerminal<P>)
        ensures
            *r == old(self).terminal(),
            final(self).terminal() == *final(r),
            final(self).prescaler() == old(self).prescaler(),
            final(self).hostname() == old(self).hostname(),
            final(self).version() == old(self).version(),
    {
        &mut self.serial
    }

    /// Takes one read attempt: once the response is complete, the scope is idle
    /// again and the reading holds the response and the prescaler.
    pub fn try_get_result(self, event: ReadEvent) -> (r: Result<
        Result<(IdleFleaScope<P>, ScopeReading), ReadingFleaScope<P>>,
        ConnectionLostError,
    >)
        ensures
            match event {
                ReadEvent::Lost => r is Err,
                _ => if completes(self.response(), event) {
                    r matches Ok(Ok((scope, reading))) && reading.data@ == strip_prompt(
                        self.response() + event_bytes(event),
                    ) && reading.prescaler == self.prescaler() && scope.port() == self.port()
                        && scope.hostname() == self.hostname() && scope.version()
                        == self.version()
                } else {
                    r matches Ok(Err(still)) && still.response() == self.response() + event_bytes(
                        event,
                    ) && still.request() == self.request() && still.prescaler()
                        == self.prescaler() && still.port() == self.port() && still.hostname()
                        == self.hostname() && still.version() == self.version()
                },
            },
    {
        let ReadingFleaScope { ver, hostname, serial, prescaler } = self;
        match serial.is_ready(event) {
            Err(e) => Err(e),
            Ok(Ok((data, idle))) => Ok(
                Ok((IdleFleaScope { serial: idle, ver, hostname }, ScopeReading { prescaler, data })),
            ),
            Ok(Err(busy)) => Ok(Err(ReadingFleaScope { ver, hostname, serial: busy, prescaler })),
        }
    }

    /// Cancels the capture: the link is to be drained, after which
    /// `IdleFleaScope::new` takes it back with the version and hostname.
    pub fn cancel(self) -> (r: (CancellingFleaTerminal<P>, String, String))
        ensures
            r.0.port() == self.port(),
            r.0.window() == Seq::<u8>::empty(),
            r.1@ == self.version(),
            r.2@ == self.hostname(),
    {
        (self.serial.cancel(), self.ver, self.hostname)
    }
}

} // verus!
