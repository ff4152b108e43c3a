use fleascope_rs::flea_connector::{SerialPortInfo, SerialPortType, UsbPortInfo};
use fleascope_rs::{FleaConnector, FleaConnectorError, FleaTerminalError};

fn usb(port: &str, vid: u16, pid: u16, manufacturer: Option<&str>, product: Option<&str>) -> SerialPortInfo {
    SerialPortInfo {
        port_name: port.to_string(),
        port_type: SerialPortType::UsbPort(UsbPortInfo {
            vid,
            pid,
            serial_number: None,
            manufacturer: manufacturer.map(|s| s.to_string()),
            product: product.map(|s| s.to_string()),
        }),
    }
}

#[test]
fn test_get_available_devices() {
    // no serial ports in this environment
    let devices = FleaConnector::get_available_devices(None, &Vec::new());
    for device in devices {
        assert!(!device.name.is_empty());
        assert!(!device.port.is_empty());
        assert!(device.port.starts_with('/') || device.port.starts_with("COM"));
    }
}

#[test]
fn test_device_validation_logic() {
    let valid_usb_info = UsbPortInfo {
        vid: 0x0403,
        pid: 0xa660,
        serial_number: Some("12345".to_string()),
        manufacturer: Some("FTDI".to_string()),
        product: Some("FleaScope".to_string()),
    };

    let valid_port_info = SerialPortInfo {
        port_name: "/dev/ttyUSB0".to_string(),
        port_type: SerialPortType::UsbPort(valid_usb_info),
    };

    assert!(FleaConnector::validate_device(None, &valid_port_info));
    assert!(FleaConnector::validate_device(Some("FleaScope"), &valid_port_info));
    assert!(!FleaConnector::validate_device(Some("OtherDevice"), &valid_port_info));

    let invalid_usb_info = UsbPortInfo {
        vid: 0x1234,
        pid: 0x5678,
        serial_number: None,
        manufacturer: None,
        product: None,
    };

    let invalid_port_info = SerialPortInfo {
        port_name: "/dev/ttyUSB1".to_string(),
        port_type: SerialPortType::UsbPort(invalid_usb_info),
    };

    assert!(!FleaConnector::validate_device(None, &invalid_port_info));
}

#[test]
fn device_names_and_ports() {
    let ports = vec![
        usb("/dev/ttyUSB0", 0x1b4f, 0xa660, Some("SparkFun"), None),
        SerialPortInfo { port_name: "/dev/ttyS0".to_string(), port_type: SerialPortType::Other },
        usb("/dev/ttyACM0", 0x04d8, 0xe66e, None, None),
        usb("/dev/ttyACM1", 0x1b4f, 0xe66e, Some("SparkFun"), Some("Lab")),
        usb("/dev/ttyACM2", 0x04d8, 0xa660, None, Some("FleaScope")),
    ];
    let devices = FleaConnector::get_available_devices(None, &ports);
    let found: Vec<(String, String)> = devices.into_iter().map(|d| (d.name, d.port)).collect();
    assert_eq!(
        found,
        vec![
            ("SparkFun".to_string(), "/dev/ttyUSB0".to_string()),
            ("FleaScope".to_string(), "/dev/ttyACM0".to_string()),
            ("Lab".to_string(), "/dev/ttyACM1".to_string()),
        ]
    );
    assert_eq!(FleaConnector::get_device_port("Lab", &ports).unwrap(), "/dev/ttyACM1");
    assert!(matches!(
        FleaConnector::get_device_port("FleaScope", &ports),
        Err(FleaConnectorError::DeviceNotFound { name }) if name == "FleaScope"
    ));
}

#[test]
fn choosing_a_port() {
    let ports = vec![
        usb("/dev/ttyUSB0", 0x0403, 0xa660, None, Some("FleaScope")),
        usb("/dev/ttyUSB1", 0x0403, 0xa660, None, Some("Other")),
    ];
    assert_eq!(FleaConnector::connect(None, None, &ports).unwrap(), "/dev/ttyUSB0");
    assert_eq!(FleaConnector::connect(Some("Other"), None, &ports).unwrap(), "/dev/ttyUSB1");
    assert_eq!(
        FleaConnector::connect(None, Some("/dev/ttyUSB1"), &ports).unwrap(),
        "/dev/ttyUSB1"
    );
    assert!(FleaConnector::validate_port(Some("FleaScope"), "/dev/ttyUSB0", &ports).is_ok());
    assert!(matches!(
        FleaConnector::connect(Some("FleaScope"), Some("/dev/ttyUSB1"), &ports),
        Err(FleaConnectorError::InvalidPort { port }) if port == "/dev/ttyUSB1"
    ));
}

#[test]
fn handshake_retry_decision() {
    let timeout = FleaTerminalError::Timeout { timeout_ms: 1000 };
    assert!(FleaConnector::retry_after_handshake(None, timeout));
    assert!(!FleaConnector::retry_after_handshake(Some("/dev/ttyUSB0"), timeout));
    assert!(!FleaConnector::retry_after_handshake(None, FleaTerminalError::ConnectionLost));
}
