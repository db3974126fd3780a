//! The radio's mode and the security of a connection, by name.

use vstd::prelude::*;
use vstd::string::StringSliceAdditionalSpecFns;
use crate::command::wlan::{Mode, SecurityType as Security};
use crate::wire::same_bytes;

verus! {

/// WLAN mode.
#[derive(Debug, Clone, Copy, PartialEq, Eq, Structural)]
pub enum WlanMode {
    /// Station mode
    STA,
    /// Access point mode
    AP,
    /// Peer-to-peer mode
    P2P,
}

impl WlanMode {
    /// The name of the mode.
    pub open spec fn name(self) -> &'static str {
        match self {
            WlanMode::STA => "STA",
            WlanMode::AP => "AP",
            WlanMode::P2P => "P2P",
        }
    }

}

impl WlanMode {
    /// The mode as the commands know it.
    pub fn mode(self) -> (out: Mode)
        ensures
            out.token() == self.name(),
    {
        match self {
            WlanMode::STA => Mode::Sta,
            WlanMode::AP => Mode::Ap,
            WlanMode::P2P => Mode::P2p,
        }
    }
}

impl From<WlanMode> for &'static str {
    fn from(mode: WlanMode) -> (out: Self) {
        match mode {
            WlanMode::STA => "STA",
            WlanMode::AP => "AP",
            WlanMode::P2P => "P2P",
        }
    }
}

impl vstd::std_specs::convert::FromSpecImpl<WlanMode> for &'static str {
    open spec fn obeys_from_spec() -> bool {
        true
    }

    open spec fn from_spec(mode: WlanMode) -> Self {
        mode.name()
    }
}

/// What reading a mode's name gives: the mode, or the complaint where the
/// text is none of `STA`, `AP` and `P2P`, written so.
pub open spec fn mode_of(value: &str) -> Result<WlanMode, &'static str> {
    if value.spec_bytes() == "STA".spec_bytes() {
        Ok(WlanMode::STA)
    } else if value.spec_bytes() == "AP".spec_bytes() {
        Ok(WlanMode::AP)
    } else if value.spec_bytes() == "P2P".spec_bytes() {
        Ok(WlanMode::P2P)
    } else {
        Err("value was not STA, AP, or P2P.")
    }
}

impl<'a> TryFrom<&'a str> for WlanMode {
    type Error = &'static str;

    fn try_from(value: &'a str) -> (out: Result<Self, Self::Error>) {
        let bytes = value.as_bytes();
        if same_bytes(bytes, "STA".as_bytes()) {
            Ok(WlanMode::STA)
        } else if same_bytes(bytes, "AP".as_bytes()) {
            Ok(WlanMode::AP)
        } else if same_bytes(bytes, "P2P".as_bytes()) {
            Ok(WlanMode::P2P)
        } else {
            Err("value was not STA, AP, or P2P.")
        }
    }
}

impl<'a> vstd::std_specs::convert::TryFromSpecImpl<&'a str> for WlanMode {
    open spec fn obeys_try_from_spec() -> bool {
        true
    }

    open spec fn try_from_spec(value: &'a str) -> Result<Self, Self::Error> {
        mode_of(value)
    }
}

/// Security type.
#[derive(Debug, Clone, Copy, PartialEq, Eq, Structural)]
pub enum SecurityType {
    Open,
    Wep,
    WepShared,
    WpaWpa2,
    Wpa2Plus,
    Wpa3,
    WpaEnt,
    WpsPbs,
    WpsPin,
}

impl SecurityType {
    /// The security type as the commands know it.
    pub open spec fn kind(self) -> Security {
        match self {
            SecurityType::Open => Security::Open,
            SecurityType::Wep => Security::Wep,
            SecurityType::WepShared => Security::WepShared,
            SecurityType::WpaWpa2 => Security::WpaWpa2,
            SecurityType::Wpa2Plus => Security::Wpa2Plus,
            SecurityType::Wpa3 => Security::Wpa3,
            SecurityType::WpaEnt => Security::WpaEnt,
            SecurityType::WpsPbs => Security::WpsPbc,
            SecurityType::WpsPin => Security::WpsPin,
        }
    }

    /// The security type as the commands know it.
    pub fn security(self) -> (out: Security)
        ensures
            out == self.kind(),
    {
        match self {
            SecurityType::Open => Security::Open,
            SecurityType::Wep => Security::Wep,
            SecurityType::WepShared => Security::WepShared,
            SecurityType::WpaWpa2 => Security::WpaWpa2,
            SecurityType::Wpa2Plus => Security::Wpa2Plus,
            SecurityType::Wpa3 => Security::Wpa3,
            SecurityType::WpaEnt => Security::WpaEnt,
            SecurityType::WpsPbs => Security::WpsPbc,
            SecurityType::WpsPin => Security::WpsPin,
        }
    }
}

} // verus!
