use fleascope_rs::flea_scope::{stable_value, MAX_DELAY_SAMPLES};
use fleascope_rs::serial_terminal::HandshakeStep;
use fleascope_rs::{FleaPreTerminal, ReadEvent};
use fleascope_rs::{
    BitState, CalibrationError, CaptureConfigError, DigitalTrigger, FleaProbe, IdleFleaScope,
    ProbeType, TriggerConfig, Waveform,
};

fn no_trigger_fields() -> fleascope_rs::StringifiedTriggerConfig {
    DigitalTrigger::start_capturing_when().is_matching().into_trigger_fields()
}

#[test]
fn test_waveform_as_str() {
    assert_eq!(Waveform::Sine.as_str(), "sine");
    assert_eq!(Waveform::Square.as_str(), "square");
    assert_eq!(Waveform::Triangle.as_str(), "triangle");
    assert_eq!(Waveform::Ekg.as_str(), "ekg");
}

#[test]
fn test_number1_to_prescaler() {
    assert!(IdleFleaScope::number1_to_prescaler(100).is_ok());
    assert!(IdleFleaScope::number1_to_prescaler(0).is_err());
}

#[test]
fn prescaler_values_round_half_up() {
    // 100 ticks: 600 * 100 / 18 = 3333.3.., fine divisor
    assert_eq!(IdleFleaScope::number1_to_prescaler(100), Ok(3333));
    // 1002 ticks: 600 * 1002 / (16 * 18) = 2087.5, rounded up, times 16
    assert_eq!(IdleFleaScope::number1_to_prescaler(1002), Ok(2088 * 16));
    assert_eq!(
        IdleFleaScope::number1_to_prescaler(0),
        Err(CaptureConfigError::InvalidPrescalerLow)
    );
    assert_eq!(
        IdleFleaScope::number1_to_prescaler(40000),
        Err(CaptureConfigError::InvalidPrescalerHigh)
    );
}

#[test]
fn read_command_for_ten_milliseconds() {
    let (prescaler, command) =
        IdleFleaScope::prepare_read_command(10_000, no_trigger_fields(), None).unwrap();
    assert_eq!(prescaler, 3000);
    assert_eq!(command, "scope 90 0x00 0x00 0");
}

#[test]
fn read_command_with_delay() {
    let (prescaler, command) =
        IdleFleaScope::prepare_read_command(10_000, no_trigger_fields(), Some(500)).unwrap();
    assert_eq!(prescaler, 3000);
    // 500 us at 600 / 3000 MHz
    assert_eq!(command, "scope 90 0x00 0x00 100");
}

#[test]
fn valid_time_frames_are_accepted() {
    for us in [112u64, 200, 1_000, 111_111, 112_000, 500_000, 3_490_000] {
        let (prescaler, command) =
            IdleFleaScope::prepare_read_command(us, no_trigger_fields(), None).unwrap();
        assert!(prescaler >= 1 && prescaler <= 1_048_560);
        let ticks: u64 = command.split(' ').nth(1).unwrap().parse().unwrap();
        assert!(ticks >= 1);
    }
    let (prescaler, command) =
        IdleFleaScope::prepare_read_command(3_490_000, no_trigger_fields(), None).unwrap();
    assert_eq!(prescaler, 1_047_008);
    assert_eq!(command, "scope 31410 0x00 0x00 0");
}

#[test]
fn time_frames_out_of_range_are_refused() {
    assert_eq!(
        IdleFleaScope::prepare_read_command(111, no_trigger_fields(), None).err(),
        Some(CaptureConfigError::TimeFrameTooSmall)
    );
    assert_eq!(
        IdleFleaScope::prepare_read_command(0, no_trigger_fields(), Some(5_000_000)).err(),
        Some(CaptureConfigError::TimeFrameTooSmall)
    );
    assert_eq!(
        IdleFleaScope::prepare_read_command(3_490_001, no_trigger_fields(), None).err(),
        Some(CaptureConfigError::TimeFrameTooLarge)
    );
}

#[test]
fn delays_out_of_range_are_refused() {
    assert_eq!(
        IdleFleaScope::prepare_read_command(10_000, no_trigger_fields(), Some(1_000_001)).err(),
        Some(CaptureConfigError::DelayTooLarge)
    );
    // a 200 us capture samples so fast that one second holds too many samples
    assert_eq!(
        IdleFleaScope::prepare_read_command(200, no_trigger_fields(), Some(1_000_000)).err(),
        Some(CaptureConfigError::DelayTooLarge)
    );
    assert!(MAX_DELAY_SAMPLES == 1_000_000);
}

#[test]
fn calibration_round_trip() {
    let mut probe = FleaProbe::new(ProbeType::X1);
    probe.set_calibration(2_048_000, 1_000_000);
    let raw = probe.voltage_to_raw(3_300_000).unwrap();
    assert_eq!(raw, 3_048_000);
    let volts = probe.raw_to_voltage(raw).unwrap();
    assert!((volts - 3_300_000).abs() <= 1);
    assert_eq!(probe.raw_to_voltage(2_048_000), Ok(0));
}

#[test]
fn conversions_need_calibration() {
    let probe = FleaProbe::new(ProbeType::X10);
    assert_eq!(probe.voltage_to_raw(1), Err(CalibrationError::CalibrationNotSet));
    assert_eq!(probe.raw_to_voltage(1), Err(CalibrationError::CalibrationNotSet));
    assert_eq!(probe.calibration(), (None, None));
    let mut flat = FleaProbe::new(ProbeType::X1);
    flat.set_calibration(5_000, 0);
    assert_eq!(flat.raw_to_voltage(1), Err(CalibrationError::DegenerateCalibration));
}

#[test]
fn unstable_capture_reports_min_and_max() {
    assert_eq!(
        stable_value(&vec![100, 107, 115, 103]),
        Err(CalibrationError::SignalNotStable { min: 100, max: 115 })
    );
    assert_eq!(stable_value(&vec![100, 114, 107]), Ok(107_000));
    assert_eq!(stable_value(&vec![1, 2]), Ok(1_500));
    assert_eq!(stable_value(&vec![]), Err(CalibrationError::EmptyCapture));
}

#[test]
fn zero_calibration_keeps_full_scale_point() {
    let mut probe = FleaProbe::new(ProbeType::X1);
    assert_eq!(probe.calibrate_0(&vec![2000, 2002]), Ok(2_001_000));
    assert_eq!(probe.calibration(), (Some(2_001_000), None));
    assert_eq!(probe.calibrate_3v3(&vec![3000, 3001]), Ok(999_500));
    assert_eq!(probe.calibrate_0(&vec![2100]), Ok(2_100_000));
    // the full-scale point stays at 3000.5 counts
    assert_eq!(probe.calibration(), (Some(2_100_000), Some(900_500)));
    assert_eq!(
        probe.calibrate_0(&vec![0, 100]),
        Err(CalibrationError::SignalNotStable { min: 0, max: 100 })
    );
    assert_eq!(probe.calibration(), (Some(2_100_000), Some(900_500)));
}

#[test]
fn full_scale_calibration_needs_zero() {
    let mut probe = FleaProbe::new(ProbeType::X1);
    assert_eq!(
        probe.calibrate_3v3(&vec![3000]),
        Err(CalibrationError::ZeroCalibrationRequired)
    );
}

#[test]
fn calibration_commands() {
    let probe = FleaProbe::new(ProbeType::X10);
    assert_eq!(
        probe.declare_calibration_command(),
        "dim cal_zero_x10 as flash, cal_3v3_x10 as flash"
    );
    assert_eq!(probe.read_zero_command(), "print cal_zero_x10");
    assert_eq!(probe.read_3v3_command(), "print cal_3v3_x10");
    assert_eq!(
        probe.write_calibration_to_flash(),
        Err(CalibrationError::CalibrationNotSet)
    );
}

#[test]
fn calibration_written_and_read_back() {
    let mut probe = FleaProbe::new(ProbeType::X1);
    probe.set_calibration(2_048_000, 1_000_000);
    let (zero, span) = probe.write_calibration_to_flash().unwrap();
    assert_eq!(zero, "cal_zero_x1 = 1000");
    assert_eq!(span, "cal_3v3_x1 = 2000");
    let mut loaded = FleaProbe::new(ProbeType::X1);
    loaded
        .read_calibration_from_flash(&b"1000\r\n".to_vec(), &b" 2000\r\n".to_vec())
        .unwrap();
    assert_eq!(loaded.calibration(), (Some(2_048_000), Some(1_000_000)));

    let mut x10 = FleaProbe::new(ProbeType::X10);
    x10.read_calibration_from_flash(&b"990".to_vec(), &b"1234".to_vec()).unwrap();
    assert_eq!(x10.calibration(), (Some(2_038_000), Some(23_400)));
    let (zero, span) = x10.write_calibration_to_flash().unwrap();
    assert_eq!(zero, "cal_zero_x10 = 990");
    assert_eq!(span, "cal_3v3_x10 = 1234");
}

#[test]
fn stored_calibration_errors() {
    let mut probe = FleaProbe::new(ProbeType::X1);
    assert_eq!(
        probe.read_calibration_from_flash(&b"1500".to_vec(), &b"1500".to_vec()),
        Err(CalibrationError::CalibrationValuesEqual)
    );
    assert_eq!(
        probe.read_calibration_from_flash(&b"x".to_vec(), &b"1500".to_vec()),
        Err(CalibrationError::MalformedResponse)
    );
    assert_eq!(probe.calibration(), (None, None));
}

#[test]
fn waveform_and_hostname_commands() {
    let idle = match FleaPreTerminal::new(()).initialize().step(ReadEvent::Data(b"> ".to_vec()), 0) {
        HandshakeStep::Ready(idle) => idle,
        _ => panic!("handshake did not complete"),
    };
    let mut scope = IdleFleaScope::new(
        idle,
        String::from("1.0"),
        String::from("scope"),
    );
    assert_eq!(scope.set_waveform(Waveform::Sine, 1000), "wave sine 1000");
    assert_eq!(scope.set_hostname("bench"), "hostname bench");
    assert_eq!(scope.hostname_str(), "bench");
}

#[test]
fn digital_trigger_bits_check() {
    let t = DigitalTrigger::start_capturing_when()
        .bit8(BitState::High)
        .starts_matching();
    assert_eq!(t.into_trigger_fields().into_string(), "+0x100 0x100");
}

#[test]
fn capture_payload_is_decoded() {
    let reading = fleascope_rs::ScopeReading {
        prescaler: 3000,
        data: b"100,0x1\n101,0x3\n102,0x201\n".to_vec(),
    };
    assert_eq!(reading.raw_samples(), Ok(vec![100, 101, 102]));
    let probe = FleaProbe::new(ProbeType::X1);
    assert_eq!(probe.read_stable_value_for_calibration(&reading), Ok(101_000));
    let columns = reading.extract_bits().unwrap();
    assert_eq!(columns.len(), 10);
    assert_eq!(columns[0], vec![true, true, true]);
    assert_eq!(columns[1], vec![false, true, false]);
    assert_eq!(columns[9], vec![false, false, true]);
    assert_eq!(columns[5], vec![false, false, false]);
}

#[test]
fn unparsable_bitmaps_are_all_low() {
    let reading = fleascope_rs::ScopeReading {
        prescaler: 33,
        data: b"7,zz\n8,0xff\n".to_vec(),
    };
    let columns = reading.extract_bits().unwrap();
    assert_eq!(columns[0], vec![false, true]);
    assert_eq!(columns[8], vec![false, false]);
}

#[test]
fn unstable_capture_payload() {
    let reading = fleascope_rs::ScopeReading {
        prescaler: 3000,
        data: b"100,0x0\n130,0x0\n".to_vec(),
    };
    let probe = FleaProbe::new(ProbeType::X1);
    assert_eq!(
        probe.read_stable_value_for_calibration(&reading),
        Err(CalibrationError::SignalNotStable { min: 100, max: 130 })
    );
}

#[test]
fn payload_without_integer_samples() {
    let reading = fleascope_rs::ScopeReading {
        prescaler: 3000,
        data: b"a,0x1\nb,0x2\n".to_vec(),
    };
    assert_eq!(reading.raw_samples(), Err(CalibrationError::MalformedCapture));
    let empty = fleascope_rs::ScopeReading { prescaler: 3000, data: Vec::new() };
    assert_eq!(empty.raw_samples(), Err(CalibrationError::MalformedCapture));
    assert_eq!(empty.extract_bits(), None);
}

#[test]
fn stable_capture_command_is_a_twenty_millisecond_capture() {
    let (prescaler, command) = FleaProbe::stable_capture_command();
    // 20 ms: 180 ticks, 600 * 180 / 18 = 6000
    assert_eq!(prescaler, 6000);
    assert_eq!(command, "scope 180 0x00 0x00 0");
}

#[test]
fn capture_keeps_version_and_hostname() {
    let idle = match FleaPreTerminal::new(()).initialize().step(ReadEvent::Data(b"> ".to_vec()), 0) {
        HandshakeStep::Ready(idle) => idle,
        _ => panic!("handshake did not complete"),
    };
    let scope = IdleFleaScope::new(idle, String::from("1.0"), String::from("bench"));
    let reading = match scope.read_async(10_000, no_trigger_fields(), None) {
        Ok(r) => r,
        Err(_) => panic!("valid request"),
    };
    let reading = match reading.try_get_result(ReadEvent::Data(b"5,0x0\r\n".to_vec())) {
        Ok(Err(r)) => r,
        _ => panic!("no marker yet"),
    };
    match reading.try_get_result(ReadEvent::Data(b"> ".to_vec())) {
        Ok(Ok((scope, result))) => {
            assert_eq!(scope.hostname_str(), "bench");
            assert_eq!(result.prescaler, 3000);
            assert_eq!(result.data, b"5,0x0\r\n".to_vec());
            let (_, ver, hostname) = scope.read_async(10_000, no_trigger_fields(), None).ok().unwrap().cancel();
            assert_eq!((ver.as_str(), hostname.as_str()), ("1.0", "bench"));
        }
        _ => panic!("expected completion"),
    }
}
