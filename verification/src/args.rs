//! The command model: what an invocation asks the client to do. The
//! command-line layer parses into these shapes; the library only
//! carries them.

use vstd::prelude::*;

use crate::year_month::YearMonth;
use crate::year_month_day::YearMonthDay;

verus! {

/// A whole invocation: connection configuration and one command.
#[derive(Debug, Clone)]
pub struct Args {
    /// Host name for the API endpoints.
    pub host: String,
    /// Client ID of the platform project.
    pub client_id: String,
    /// Client secret of the platform project.
    pub client_secret: String,
    /// Verbosity level.
    pub verbose: u8,
    pub cmd: MainCommands,
}

#[derive(Debug, Clone)]
pub enum MainCommands {
    /// Retrieve device information.
    Get { cmd: GetCommands },
    /// Serve as an API.
    Serve { port: u32 },
}

#[derive(Debug, Clone)]
pub enum GetCommands {
    /// Commands for all devices.
    Devices { cmd: GetDevicesCommands },
    /// Commands for a single device.
    Device { id: String, cmd: GetDeviceCommands },
}

#[derive(Debug, Clone)]
pub enum GetDevicesCommands {
    /// List all devices.
    List,
    /// Cumulative energy consumption for all devices.
    Stats(Frequency),
}

#[derive(Debug, Clone)]
pub enum GetDeviceCommands {
    /// Cumulative energy consumption.
    Stats(Frequency),
    /// All device info.
    Info,
    /// All device properties.
    Props,
}

/// A statistics window, monthly or daily.
#[derive(Debug, Clone)]
pub enum Frequency {
    Monthly { start: YearMonth, end: YearMonth },
    Daily { start: YearMonthDay, end: YearMonthDay },
}

} // verus!
