//! Finding the instrument among the host's serial ports.
//!
//! The ports are described by plain values, as the host lists them; a port
//! qualifies by its USB vendor and product IDs, and optionally by the product
//! name that it advertises.
use crate::serial_terminal::FleaTerminalError;
use vstd::prelude::*;

verus! {

/// The name given to a device that advertises none.
pub open spec fn default_name() -> Seq<char> {
    "FleaScope"@
}

/// USB identity of a port.
#[derive(Debug, Clone)]
pub struct UsbPortInfo {
    pub vid: u16,
    pub pid: u16,
    pub serial_number: Option<String>,
    pub manufacturer: Option<String>,
    pub product: Option<String>,
}

#[derive(Debug, Clone)]
pub enum SerialPortType {
    UsbPort(UsbPortInfo),
    /// Any port that is not on USB.
    Other,
}

/// A serial port as the host lists it.
#[derive(Debug, Clone)]
pub struct SerialPortInfo {
    pub port_name: String,
    pub port_type: SerialPortType,
}

/// A device found: the name it goes by and its port.
#[derive(Debug, Clone)]
pub struct FleaDevice {
    pub name: String,
    pub port: String,
}

#[derive(Debug)]
pub enum FleaConnectorError {
    /// The port named is not one of the instrument's.
    InvalidPort { port: String },
    /// No port of the instrument with this name.
    DeviceNotFound { name: String },
    DeviceValidationFailed,
}

/// The vendor and product ID pairs under which the instrument appears.
pub open spec fn known_ids(vid: u16, pid: u16) -> bool {
    (vid == 0x0403 && pid == 0xa660) || (vid == 0x1b4f && pid == 0xa660) || (vid == 0x1b4f && pid
        == 0xe66e) || (vid == 0x04d8 && pid == 0xe66e)
}

pub open spec fn opt_view(s: Option<String>) -> Option<Seq<char>> {
    match s {
        Some(x) => Some(x@),
        None => None,
    }
}

/// Whether a port is the instrument's and, where a name is asked for,
/// advertises that product name.
pub open spec fn device_matches(name: Option<Seq<char>>, info: SerialPortInfo) -> bool {
    match info.port_type {
        SerialPortType::UsbPort(u) => known_ids(u.vid, u.pid) && match name {
            None => true,
            Some(n) => opt_view(u.product) == Some(n),
        },
        SerialPortType::Other => false,
    }
}

/// The name of a matching port: its product name, else its manufacturer,
/// else the default name.
pub open spec fn device_name(info: SerialPortInfo) -> Seq<char> {
    match info.port_type {
        SerialPortType::UsbPort(u) => match (opt_view(u.product), opt_view(u.manufacturer)) {
            (Some(p), _) => p,
            (None, Some(m)) => m,
            (None, None) => default_name(),
        },
        SerialPortType::Other => default_name(),
    }
}

/// The devices among `ports`, as (name, port) pairs, in the order of the ports.
pub open spec fn devices_of(name: Option<Seq<char>>, ports: Seq<SerialPortInfo>) -> Seq<(Seq<char>, Seq<char>)>
    decreases ports.len(),
{
    if ports.len() == 0 {
        Seq::empty()
    } else if device_matches(name, ports.last()) {
        devices_of(name, ports.drop_last()).push((device_name(ports.last()), ports.last().port_name@))
    } else {
        devices_of(name, ports.drop_last())
    }
}

pub open spec fn str_opt_view(s: Option<&str>) -> Option<Seq<char>> {
    match s {
        Some(x) => Some(x@),
        None => None,
    }
}

pub open spec fn device_view(d: FleaDevice) -> (Seq<char>, Seq<char>) {
    (d.name@, d.port@)
}

fn same_text(a: &String, b: &str) -> (r: bool)
    ensures
        r == (a@ == b@),
{
    let other = String::from_str(b);
    *a == other
}

impl FleaDevice {
    pub fn new(name: String, port: String) -> (r: Self)
        ensures
            r.name == name,
            r.port == port,
    {
        Self { name, port }
    }
}

/// Device discovery and the choice of a port.
pub struct FleaConnector;

impl FleaConnector {
    /// Whether `port_info` is a port of the instrument that, where `name` is
    /// given, advertises that product name.
    pub fn validate_device(name: Option<&str>, port_info: &SerialPortInfo) -> (r: bool)
        ensures
            r == device_matches(str_opt_view(name), *port_info),
    {
        let usb_info = match &port_info.port_type {
            SerialPortType::UsbPort(usb_info) => usb_info,
            SerialPortType::Other => return false,
        };
        let (vid, pid) = (usb_info.vid, usb_info.pid);
        let is_valid_variant = (vid == 0x0403 && pid == 0xa660) || (vid == 0x1b4f && pid == 0xa660)
            || (vid == 0x1b4f && pid == 0xe66e) || (vid == 0x04d8 && pid == 0xe66e);
        if !is_valid_variant {
            return false;
        }
        match name {
            None => true,
            Some(expected_name) => match &usb_info.product {
                Some(product_name) => same_text(product_name, expected_name),
                None => false,
            },
        }
    }

    /// The devices among `ports` that match `name`, in the order of the ports.
    pub fn get_available_devices(name: Option<&str>, ports: &Vec<SerialPortInfo>) -> (r: Vec<
        FleaDevice,
    >)
        ensures
            r@.map_values(|d: FleaDevice| device_view(d)) == devices_of(str_opt_view(name), ports@),
    {
        let mut devices: Vec<FleaDevice> = Vec::new();
        let mut i: usize = 0;
        while i < ports.len()
            invariant
                i <= ports.len(),
                devices@.map_values(|d: FleaDevice| device_view(d)) == devices_of(
                    str_opt_view(name),
                    ports@.subrange(0, i as int),
                ),
            decreases ports.len() - i,
        {
            let port_info = &ports[i];
            proof {
                assert(ports@.subrange(0, i + 1).drop_last() =~= ports@.subrange(0, i as int));
            }
            if Self::validate_device(name, port_info) {
                let device_name = match &port_info.port_type {
                    SerialPortType::UsbPort(usb_info) => match (&usb_info.product, &usb_info.manufacturer) {
                        (Some(p), _) => p.clone(),
                        (None, Some(m)) => m.clone(),
                        (None, None) => String::from_str("FleaScope"),
                    },
                    SerialPortType::Other => String::from_str("FleaScope"),
                };
                let ghost before = devices@;
                devices.push(FleaDevice::new(device_name, port_info.port_name.clone()));
                proof {
                    assert(devices@.map_values(|d: FleaDevice| device_view(d)) =~= before.map_values(
                        |d: FleaDevice| device_view(d),
                    ).push(device_view(devices@.last())));
                }
            }
            i = i + 1;
        }
        proof {
            assert(ports@.subrange(0, ports@.len() as int) =~= ports@);
        }
        devices
    }

    /// The port of the first device among `ports` with product name `name`.
    pub fn get_device_port(name: &str, ports: &Vec<SerialPortInfo>) -> (r: Result<String, FleaConnectorError>)
        ensures
            devices_of(Some(name@), ports@).len() > 0 ==> r is Ok && r->Ok_0@ == devices_of(
                Some(name@),
                ports@,
            )[0].1,
            devices_of(Some(name@), ports@).len() == 0 ==> (r matches Err(
                FleaConnectorError::DeviceNotFound { name: n },
            ) && n@ == name@),
    {
        let devices = Self::get_available_devices(Some(name), ports);
        proof {
            assert(str_opt_view(Some(name)) == Some(name@));
            assert(devices@.len() == devices@.map_values(|d: FleaDevice| device_view(d)).len());
        }
        if devices.len() > 0 {
            proof {
                assert(devices@.map_values(|d: FleaDevice| device_view(d))[0] == device_view(devices@[0]));
            }
            Ok(devices[0].port.clone())
        } else {
            Err(FleaConnectorError::DeviceNotFound { name: String::from_str(name) })
        }
    }

    /// Checks that `port` is among the devices that match `name`.
    pub fn validate_port(name: Option<&str>, port: &str, ports: &Vec<SerialPortInfo>) -> (r: Result<(), FleaConnectorError>)
        ensures
            (exists|i: int| 0 <= i < devices_of(str_opt_view(name), ports@).len() && (#[trigger] devices_of(str_opt_view(name), ports@)[i]).1 == port@) ==> r is Ok,
            !(exists|i: int| 0 <= i < devices_of(str_opt_view(name), ports@).len() && (#[trigger] devices_of(str_opt_view(name), ports@)[i]).1 == port@) ==> (r matches Err(
                FleaConnectorError::InvalidPort { port: p },
            ) && p@ == port@),
    {
        let devices = Self::get_available_devices(name, ports);
        let ghost found = devices_of(str_opt_view(name), ports@);
        let mut i: usize = 0;
        while i < devices.len()
            invariant
                i <= devices.len(),
                found == devices_of(str_opt_view(name), ports@),
                devices@.map_values(|d: FleaDevice| device_view(d)) == found,
                forall|k: int| 0 <= k < i ==> (#[trigger] found[k]).1 != port@,
            decreases devices.len() - i,
        {
            proof {
                assert(found[i as int] == device_view(devices@[i as int]));
            }
            if same_text(&devices[i].port, port) {
                assert(devices_of(str_opt_view(name), ports@)[i as int].1 == port@);
                return Ok(());
            }
            i = i + 1;
        }
        Err(FleaConnectorError::InvalidPort { port: String::from_str(port) })
    }

    /// Whether to reset the device and try the handshake again after it
    /// failed: only where no port was named and the device did not answer in
    /// time. Any other failure is final.
    pub fn retry_after_handshake(port: Option<&str>, error: FleaTerminalError) -> (r: bool)
        ensures
            r == (port is None && error is Timeout),
    {
        match (port, error) {
            (None, FleaTerminalError::Timeout { .. }) => true,
            _ => false,
        }
    }

    /// The port to open: `port` where given, once it is checked to be a
    /// device's; else the first device's port with product name `name`, or
    /// the default name.
    pub fn connect(name: Option<&str>, port: Option<&str>, ports: &Vec<SerialPortInfo>) -> (r: Result<String, FleaConnectorError>)
        ensures
            match port {
                Some(p) => if exists|i: int| 0 <= i < devices_of(str_opt_view(name), ports@).len() && (#[trigger] devices_of(str_opt_view(name), ports@)[i]).1 == p@ {
                    r is Ok && r->Ok_0@ == p@
                } else {
                    r matches Err(FleaConnectorError::InvalidPort { port: q }) && q@ == p@
                },
                None => {
                    let n = match name {
                        Some(x) => x@,
                        None => default_name(),
                    };
                    &&& devices_of(Some(n), ports@).len() > 0 ==> r is Ok && r->Ok_0@ == devices_of(Some(n), ports@)[0].1
                    &&& devices_of(Some(n), ports@).len() == 0 ==> (r matches Err(FleaConnectorError::DeviceNotFound { name: m }) && m@ == n)
                },
            },
    {
        match port {
            Some(p) => match Self::validate_port(name, p, ports) {
                Ok(()) => Ok(String::from_str(p)),
                Err(e) => Err(e),
            },
            None => {
                let device_name = match name {
                    Some(n) => n,
                    None => "FleaScope",
                };
                Self::get_device_port(device_name, ports)
            },
        }
    }
}

} // verus!
