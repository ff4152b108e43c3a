use fleascope_rs::{
    AnalogTrigger, AnalogTriggerBehavior, BitState, BitTriggerBuilder, CaptureConfigError,
    DigitalTrigger, DigitalTriggerBehavior, FleaProbe, ProbeType, Trigger, TriggerConfig,
};

/// A probe on which `voltage_to_raw(v) = v * 100` counts.
fn hundred_counts_per_volt() -> FleaProbe {
    let mut probe = FleaProbe::new(ProbeType::X1);
    probe.set_calibration(0, 330_000);
    probe
}

#[test]
fn digital_trigger_encoding() {
    let trigger = DigitalTrigger::start_capturing_when()
        .bit0(BitState::High)
        .bit1(BitState::Low)
        .is_matching();
    assert_eq!(trigger.into_trigger_fields().into_string(), "0x01 0x03");
}

#[test]
fn digital_trigger_behaviors() {
    let b = || DigitalTrigger::start_capturing_when().bit0(BitState::High).bit1(BitState::Low);
    assert_eq!(b().starts_matching().into_trigger_fields().into_string(), "+0x01 0x03");
    assert_eq!(b().stops_matching().into_trigger_fields().into_string(), "-0x01 0x03");
    assert_eq!(b().auto().into_trigger_fields().into_string(), "~0x01 0x03");
    let all_high = BitTriggerBuilder::default()
        .bit0(BitState::High)
        .bit1(BitState::High)
        .bit2(BitState::High)
        .bit3(BitState::High)
        .bit4(BitState::High)
        .bit5(BitState::High)
        .bit6(BitState::High)
        .bit7(BitState::High)
        .bit8(BitState::Low)
        .is_matching();
    assert_eq!(all_high.into_trigger_fields().into_string(), "0xff 0x1ff");
    let t = BitTriggerBuilder::new().set_bit(4, BitState::Low).is_matching();
    assert_eq!(t.behavior, DigitalTriggerBehavior::While);
    assert_eq!(t.into_trigger_fields().into_string(), "0x00 0x10");
}

#[test]
fn behavior_prefixes() {
    assert_eq!(DigitalTriggerBehavior::Auto.as_str(), "~");
    assert_eq!(DigitalTriggerBehavior::While.as_str(), "");
    assert_eq!(DigitalTriggerBehavior::Start.as_str(), "+");
    assert_eq!(DigitalTriggerBehavior::Stop.as_str(), "-");
    assert_eq!(AnalogTriggerBehavior::Auto.as_str(), "~");
    assert_eq!(AnalogTriggerBehavior::Level.as_str(), "");
    assert_eq!(AnalogTriggerBehavior::Rising.as_str(), "+");
    assert_eq!(AnalogTriggerBehavior::Falling.as_str(), "-");
}

#[test]
fn analog_trigger_encoding() {
    let probe = hundred_counts_per_volt();
    let trigger = AnalogTrigger::start_capturing_when(1_500_000)
        .rising_edge()
        .into_trigger(&probe)
        .unwrap();
    assert_eq!(trigger.level, 38);
    assert_eq!(trigger.into_trigger_fields().into_string(), "+38 0");
}

#[test]
fn analog_trigger_negative_and_behaviors() {
    let probe = hundred_counts_per_volt();
    let falling = AnalogTrigger::start_capturing_when(-1_500_000).falling_edge();
    let t = falling.into_trigger(&probe).unwrap();
    // -150 counts: -37.5 + 0.5 = -37
    assert_eq!(t.into_trigger_fields().into_string(), "--37 0");
    let level = AnalogTrigger::start_capturing_when(0).level().into_trigger(&probe).unwrap();
    assert_eq!(level.into_trigger_fields().into_string(), "0 0");
    let auto = AnalogTrigger::start_capturing_when(400_000).auto().into_trigger(&probe).unwrap();
    assert_eq!(auto.into_trigger_fields().into_string(), "~10 0");
}

#[test]
fn analog_trigger_out_of_range() {
    let probe = hundred_counts_per_volt();
    assert_eq!(
        AnalogTrigger::start_capturing_when(50_000_000).rising_edge().into_trigger(&probe).err(),
        Some(CaptureConfigError::VoltageOutOfRange)
    );
    assert_eq!(
        AnalogTrigger::start_capturing_when(-50_000_000).into_trigger(&probe).err(),
        Some(CaptureConfigError::VoltageOutOfRange)
    );
    // 40.9 V: 4090 counts, level 1023, still in range
    assert!(AnalogTrigger::start_capturing_when(40_900_000).into_trigger(&probe).is_ok());
    assert_eq!(
        AnalogTrigger::start_capturing_when(41_000_000).into_trigger(&probe).err(),
        Some(CaptureConfigError::VoltageOutOfRange)
    );
}

#[test]
fn analog_trigger_needs_calibration() {
    let probe = FleaProbe::new(ProbeType::X1);
    assert_eq!(
        AnalogTrigger::start_capturing_when(1).into_trigger(&probe).err(),
        Some(CaptureConfigError::CalibrationNotSet)
    );
}

#[test]
fn unified_trigger() {
    let a: Trigger = AnalogTrigger::new(-5, AnalogTriggerBehavior::Rising).into();
    assert_eq!(a.into_trigger_fields().into_string(), "+-5 0");
    let d: Trigger = DigitalTrigger::new([BitState::DontCare; 9], DigitalTriggerBehavior::Auto).into();
    assert_eq!(d.into_trigger_fields().into_string(), "~0x00 0x00");
}
