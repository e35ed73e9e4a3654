//! Device configuration and the decisions of the device handle's requests.
use crate::proto::{command_frame, u16_be, DeriveResponse, Message, ResponseView, State, CMD_SET_HW_PARAMS};
use vstd::prelude::*;

verus! {

/// Settings of one device handle, fixed once it is opened.
#[derive(Clone, Copy, Debug, PartialEq, Eq, Structural)]
pub struct Config {
    pub target_freq: u16,
    pub target_voltage: u16,
    /// Read timeout of the serial link in milliseconds; 0 blocks until the
    /// link itself returns.
    pub read_timeout_ms: u64,
    pub baud_rate: u32,
}

impl Default for Config {
    /// Settings known to work with the hardware.
    fn default() -> (r: Self)
        ensures
            r == (Config {
                target_freq: 600,
                target_voltage: 750,
                read_timeout_ms: 0,
                baud_rate: 115200,
            }),
    {
        Config { target_freq: 600, target_voltage: 750, read_timeout_ms: 0, baud_rate: 115200 }
    }
}

impl Config {
    /// The frame that sets the configured clock frequency and voltage.
    pub fn hw_params_msg(&self) -> (r: Vec<u8>)
        ensures
            r@ == command_frame(
                CMD_SET_HW_PARAMS,
                u16_be(self.target_freq) + u16_be(self.target_voltage),
            ),
    {
        Message::set_hw_params_msg(self.target_freq, self.target_voltage)
    }
}

/// Why a device request failed.
#[derive(Clone, Copy, Debug, PartialEq, Eq, Structural)]
pub enum DeviceError {
    /// No listed port belongs to the device.
    NoDevice,
    /// A port of the device could not be opened.
    Open,
    /// Reading from or writing to the link failed.
    Transport,
    /// No complete frame arrived within the read timeout.
    Timeout,
    /// The device answered with a frame other than the one asked for.
    Protocol,
}

/// The answer to a state query: the telemetry of a state frame, else a
/// protocol error.
pub fn expect_state(resp: &DeriveResponse) -> (r: Result<State, DeviceError>)
    ensures
        r == match resp@ {
            ResponseView::State(s) => Ok::<State, DeviceError>(s),
            _ => Err(DeviceError::Protocol),
        },
{
    match resp {
        DeriveResponse::State(s) => Ok(*s),
        _ => Err(DeviceError::Protocol),
    }
}

/// A device may be taken when its state query succeeded and it reports no
/// good cores at work.
pub fn can_open_with(state: &Result<State, DeviceError>) -> (r: bool)
    ensures
        r == (state matches Ok(s) && s.goodcores == 0),
{
    match state {
        Ok(s) => s.goodcores == 0,
        Err(_) => false,
    }
}

} // verus!
