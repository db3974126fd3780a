//! Limits of the module, and a few of the values it deals in.

use vstd::prelude::*;

verus! {

/// Maximum recommended payload size.
pub const MAX_PAYLOAD_SIZE: u16 = 1460;

/// Default receive buffer size.
pub const DEFAULT_RECEIVE_BUFFER_SIZE: u16 = 2048;

/// Maximum length of sent commands and responses.
pub const MAX_LINE_SIZE: u16 = 2048;

/// Maximum length of IP address strings.
pub const MAX_IP_ADDRESS_LENGTH: u8 = 44;

/// Maximum host name length (e.g. URLs or IP addresses).
pub const MAX_HOST_NAME_LENGTH: u8 = 128;

/// Maximum length of response text.
pub const MAX_RESPONSE_TEXT_LENGTH: u16 = 2048;

/// Version information.
#[derive(Debug, Clone, Copy)]
pub struct Version {
    pub chip_id: &'static str,
    pub mac: &'static str,
    pub phy: &'static str,
    pub nwp: &'static str,
    pub rom: &'static str,
    pub firmware: &'static str,
}

/// System time.
#[derive(Debug, Clone, Copy, PartialEq, Eq, Structural)]
pub struct Time {
    pub hours: u8,
    pub minutes: u8,
    pub seconds: u8,
    pub day: u8,
    pub month: u8,
    pub year: u16,
}

/// Unique device identifier.
pub type UDID = [u8; 16];

/// Parity setting.
#[derive(Debug, Clone, Copy, PartialEq, Eq, Structural)]
pub enum Parity {
    Off,
    Even,
    Odd,
}

/// Socket type.
#[derive(Debug, Clone, Copy, PartialEq, Eq, Structural)]
pub enum SocketType {
    UDP,
    TCPServer,
    TCPClient,
}

} // verus!
