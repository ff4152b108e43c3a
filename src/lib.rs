//! Control of a FleaScope oscilloscope over its serial link: the protocol
//! engine, acquisition planning, trigger encoding and probe calibration.
pub mod flea_connector;
pub mod flea_scope;
pub mod serial_terminal;
pub mod text;
pub mod trigger_config;

pub use flea_connector::{FleaConnector, FleaConnectorError, FleaDevice};
pub use flea_scope::{
    CalibrationError, CaptureConfigError, FleaProbe, IdleFleaScope, ProbeType, ReadingFleaScope,
    ScopeReading, Waveform,
};
pub use serial_terminal::{
    BusyFleaTerminal, CancellingFleaTerminal, ConnectionLostError, FleaPreTerminal,
    FleaTerminalError, IdleFleaTerminal, ReadEvent,
};
pub use trigger_config::{
    AnalogTrigger, AnalogTriggerBehavior, AnalogTriggerBuilder, BitState, BitTriggerBuilder,
    DigitalTrigger, DigitalTriggerBehavior, StringifiedTriggerConfig, Trigger, TriggerConfig,
};
