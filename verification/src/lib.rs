//! Typed command codec and exchange bookkeeping for the Würth Calypso Wi-Fi
//! module, which is driven over a serial line with AT-style text commands.
//!
//! A [`codec::Command`] is encoded as one line ([`codec::encode`]); what the
//! module sends back is read line by line ([`response::decode`]) or told to
//! be one of its events ([`command::classify`]). The client
//! ([`calypso::Calypso`]) keeps one exchange in flight at a time: it hands
//! out the bytes to write, takes in the bytes that were read, and reports
//! what they amount to. It does no I/O and reads no clock; whoever drives it
//! passes the time in milliseconds with each call.

pub mod argument;
pub mod calypso;
pub mod client;
pub mod codec;
pub mod command;
pub mod constants;
pub mod error;
pub mod exchange;
pub mod gpio;
pub mod ingress;
pub mod number;
pub mod requests;
pub mod response;
pub mod text;
pub mod wire;
pub mod wlan;

pub use calypso::Calypso;
pub use constants::{
    Parity, SocketType, Time, Version, DEFAULT_RECEIVE_BUFFER_SIZE, MAX_HOST_NAME_LENGTH,
    MAX_IP_ADDRESS_LENGTH, MAX_LINE_SIZE, MAX_PAYLOAD_SIZE, MAX_RESPONSE_TEXT_LENGTH, UDID,
};
