//! Commands for the wireless LAN.

use vstd::prelude::*;
use vstd::string::StringSliceAdditionalSpecFns;
use crate::argument::{Argument, ArgumentModel};
use crate::codec::{Command, CommandModel};
use crate::command::device::{bare, decimal};
use crate::error::EncodingError;
use crate::wire::same_bytes;
use crate::number::Radix;
use crate::text::{optional_argument, Text};

verus! {

/// The text of a token whose bytes fit.
pub(crate) fn token_text<const N: usize>(token: &'static str) -> (out: Text<N>)
    requires
        token.spec_bytes().len() <= N,
    ensures
        out@ == token.spec_bytes(),
{
    match Text::from_str(token) {
        Ok(text) => text,
        Err(_) => Text::new(),
    }
}

/// An optional text as an argument: its bytes, or absent.
pub open spec fn optional<const N: usize>(text: Option<Text<N>>) -> ArgumentModel {
    match text {
        Some(t) => ArgumentModel::Text(t@),
        None => ArgumentModel::Absent,
    }
}

/// The mode in which the radio works.
#[derive(Debug, Clone, Copy, PartialEq, Eq, Structural)]
pub enum Mode {
    /// Station mode
    Sta,
    /// Access point mode
    Ap,
    /// Peer-to-peer mode
    P2p,
}

impl Mode {
    /// The token that stands for the mode on the wire.
    pub open spec fn token(self) -> &'static str {
        match self {
            Mode::Sta => "STA",
            Mode::Ap => "AP",
            Mode::P2p => "P2P",
        }
    }

    /// The mode as the text of its token.
    pub fn into(self) -> (out: Text<3>)
        ensures
            out@ == self.token().spec_bytes(),
    {
        broadcast use vstd::string::is_ascii_spec_bytes;

        proof {
            reveal_strlit("STA");
            reveal_strlit("AP");
            reveal_strlit("P2P");
            assert(vstd::string::is_ascii(self.token()));
        }
        token_text(
            match self {
                Mode::Sta => "STA",
                Mode::Ap => "AP",
                Mode::P2p => "P2P",
            },
        )
    }
}

/// The command that sets the radio to `mode`.
pub open spec fn set_mode_request(mode: Mode) -> CommandModel {
    CommandModel {
        arguments: seq![ArgumentModel::Text(mode.token().spec_bytes())],
        quoting: false,
        ..bare("+wlanSetMode", 100)
    }
}

/// Set the mode in which the radio works.
#[derive(Debug)]
pub struct SetMode {
    pub mode: Text<3>,
}

impl SetMode {
    /// The command as plain values.
    pub open spec fn request(self) -> CommandModel {
        CommandModel {
            arguments: seq![ArgumentModel::Text(self.mode@)],
            quoting: false,
            ..bare("+wlanSetMode", 100)
        }
    }

    /// The command, ready to be sent.
    pub fn command(&self) -> (out: Command)
        ensures
            out@ == self.request(),
    {
        let out = Command::new("+wlanSetMode").timeout_ms(100).quoting(false).argument(
            self.mode.to_argument(),
        );
        assert(out@.arguments =~= self.request().arguments);
        out
    }
}

/// Scan for access points.
#[derive(Debug, Clone, Copy, PartialEq, Eq, Structural)]
pub struct Scan {
    pub index: u8,
    pub count: u8,
}

impl Scan {
    /// The command as plain values.
    pub open spec fn request(self) -> CommandModel {
        CommandModel {
            arguments: seq![decimal(self.index as u32), decimal(self.count as u32)],
            quoting: false,
            ..bare("+wlanScan", 100)
        }
    }

    /// The command, ready to be sent.
    pub fn command(&self) -> (out: Command)
        ensures
            out@ == self.request(),
    {
        let out = Command::new("+wlanScan").timeout_ms(100).quoting(false).argument(
            Argument::Integer { value: self.index as u32, radix: Radix::Decimal },
        ).argument(Argument::Integer { value: self.count as u32, radix: Radix::Decimal });
        assert(out@.arguments =~= self.request().arguments);
        out
    }
}

/// How a connection is secured.
#[derive(Debug, Clone, Copy, PartialEq, Eq, Structural)]
pub enum SecurityType {
    Open,
    Wep,
    WepShared,
    WpaWpa2,
    Wpa2Plus,
    Wpa3,
    WpaEnt,
    WpsPbc,
    WpsPin,
}

impl SecurityType {
    /// The token that stands for the security type on the wire.
    pub open spec fn token(self) -> &'static str {
        match self {
            SecurityType::Open => "OPEN",
            SecurityType::Wep => "WEP",
            SecurityType::WepShared => "WEP_SHARED",
            SecurityType::WpaWpa2 => "WPA_WPA2",
            SecurityType::Wpa2Plus => "WPA2_PLUS",
            SecurityType::Wpa3 => "WPA3",
            SecurityType::WpaEnt => "WPA_ENT",
            SecurityType::WpsPbc => "WPA_PBC",
            SecurityType::WpsPin => "WPA_PIN",
        }
    }

    /// The security type as the text of its token.
    pub fn into(self) -> (out: Text<10>)
        ensures
            out@ == self.token().spec_bytes(),
    {
        broadcast use vstd::string::is_ascii_spec_bytes;

        proof {
            reveal_strlit("OPEN");
            reveal_strlit("WEP");
            reveal_strlit("WEP_SHARED");
            reveal_strlit("WPA_WPA2");
            reveal_strlit("WPA2_PLUS");
            reveal_strlit("WPA3");
            reveal_strlit("WPA_ENT");
            reveal_strlit("WPA_PBC");
            reveal_strlit("WPA_PIN");
            assert(vstd::string::is_ascii(self.token()));
        }
        token_text(
            match self {
                SecurityType::Open => "OPEN",
                SecurityType::Wep => "WEP",
                SecurityType::WepShared => "WEP_SHARED",
                SecurityType::WpaWpa2 => "WPA_WPA2",
                SecurityType::Wpa2Plus => "WPA2_PLUS",
                SecurityType::Wpa3 => "WPA3",
                SecurityType::WpaEnt => "WPA_ENT",
                SecurityType::WpsPbc => "WPA_PBC",
                SecurityType::WpsPin => "WPA_PIN",
            },
        )
    }
}

/// The EAP method of an enterprise connection.
#[derive(Debug, Clone, Copy, PartialEq, Eq, Structural)]
pub enum SecurityEapType {
    Tls,
    TtlsTls,
    TtlsMschapv2,
    TtlsPsk,
    Peap0Tls,
    Peap0Mschapv2,
    Peap0Psk,
    Peap1Tls,
    Peap1Psk,
}

impl SecurityEapType {
    /// The token that stands for the method on the wire.
    pub open spec fn token(self) -> &'static str {
        match self {
            SecurityEapType::Tls => "TLS",
            SecurityEapType::TtlsTls => "TTLS_TLS",
            SecurityEapType::TtlsMschapv2 => "TTLS_MSCHAPv2",
            SecurityEapType::TtlsPsk => "TTLS_PSK",
            SecurityEapType::Peap0Tls => "PEAP0_TLS",
            SecurityEapType::Peap0Mschapv2 => "PEAP0_MSCHAPv2",
            SecurityEapType::Peap0Psk => "PEAP0_PSK",
            SecurityEapType::Peap1Tls => "PEAP1_TLS",
            SecurityEapType::Peap1Psk => "PEAP1_PSK",
        }
    }

    /// The method as the text of its token.
    pub fn into(self) -> (out: Text<14>)
        ensures
            out@ == self.token().spec_bytes(),
    {
        broadcast use vstd::string::is_ascii_spec_bytes;

        proof {
            reveal_strlit("TLS");
            reveal_strlit("TTLS_TLS");
            reveal_strlit("TTLS_MSCHAPv2");
            reveal_strlit("TTLS_PSK");
            reveal_strlit("PEAP0_TLS");
            reveal_strlit("PEAP0_MSCHAPv2");
            reveal_strlit("PEAP0_PSK");
            reveal_strlit("PEAP1_TLS");
            reveal_strlit("PEAP1_PSK");
            assert(vstd::string::is_ascii(self.token()));
        }
        token_text(
            match self {
                SecurityEapType::Tls => "TLS",
                SecurityEapType::TtlsTls => "TTLS_TLS",
                SecurityEapType::TtlsMschapv2 => "TTLS_MSCHAPv2",
                SecurityEapType::TtlsPsk => "TTLS_PSK",
                SecurityEapType::Peap0Tls => "PEAP0_TLS",
                SecurityEapType::Peap0Mschapv2 => "PEAP0_MSCHAPv2",
                SecurityEapType::Peap0Psk => "PEAP0_PSK",
                SecurityEapType::Peap1Tls => "PEAP1_TLS",
                SecurityEapType::Peap1Psk => "PEAP1_PSK",
            },
        )
    }
}

/// The methods in the order in which a token is held against them.
pub fn methods() -> (out: [SecurityEapType; 9])
    ensures
        forall|method: SecurityEapType|
            0 <= #[trigger] method.rank() < 9 && out@[method.rank()] == method,
{
    [
        SecurityEapType::Tls,
        SecurityEapType::TtlsTls,
        SecurityEapType::TtlsMschapv2,
        SecurityEapType::TtlsPsk,
        SecurityEapType::Peap0Tls,
        SecurityEapType::Peap0Mschapv2,
        SecurityEapType::Peap0Psk,
        SecurityEapType::Peap1Tls,
        SecurityEapType::Peap1Psk,
    ]
}

impl SecurityEapType {
    /// Where the method stands among the methods.
    pub open spec fn rank(self) -> int {
        match self {
            SecurityEapType::Tls => 0,
            SecurityEapType::TtlsTls => 1,
            SecurityEapType::TtlsMschapv2 => 2,
            SecurityEapType::TtlsPsk => 3,
            SecurityEapType::Peap0Tls => 4,
            SecurityEapType::Peap0Mschapv2 => 5,
            SecurityEapType::Peap0Psk => 6,
            SecurityEapType::Peap1Tls => 7,
            SecurityEapType::Peap1Psk => 8,
        }
    }

    /// The method that a token stands for: `Unmappable` where it stands for
    /// none.
    pub fn from_token(token: &[u8]) -> (out: Result<SecurityEapType, EncodingError>)
        ensures
            match out {
                Ok(method) => token@ == method.token().spec_bytes(),
                Err(e) => e == EncodingError::Unmappable && forall|method: SecurityEapType|
                    token@ != (#[trigger] method.token()).spec_bytes(),
            },
    {
        let all = methods();
        let mut i: usize = 0;
        while i < 9
            invariant
                0 <= i <= 9,
                forall|method: SecurityEapType|
                    0 <= #[trigger] method.rank() < 9 && all@[method.rank()] == method,
                forall|k: int| 0 <= k < i ==> token@ != (#[trigger] all@[k]).token().spec_bytes(),
            decreases 9 - i,
        {
            let method = all[i];
            let text = method.into();
            if same_bytes(token, text.as_bytes()) {
                return Ok(method);
            }
            i = i + 1;
        }
        assert forall|method: SecurityEapType|
            token@ != (#[trigger] method.token()).spec_bytes() by {
            assert(all@[method.rank()] == method);
        }
        Err(EncodingError::Unmappable)
    }
}

/// Connect to an access point.
#[derive(Debug)]
pub struct Connect {
    /// SSID name
    pub ssid: Text<32>,
    /// Optional mac address
    pub bssid: Option<Text<17>>,
    /// Security type
    pub security_type: Text<10>,
    /// Security key
    pub security_key: Option<Text<63>>,
    /// Enterprise user name
    pub security_ext_user: Option<Text<63>>,
    /// Enterprise anonymous user name
    pub security_ext_anon_user: Option<Text<63>>,
    /// Enterprise EAP protocol
    pub security_ext_eap_method: Option<Text<14>>,
}

impl Connect {
    /// The command as plain values.
    pub open spec fn request(self) -> CommandModel {
        CommandModel {
            arguments: seq![
                ArgumentModel::Text(self.ssid@),
                optional(self.bssid),
                ArgumentModel::Text(self.security_type@),
                optional(self.security_key),
                optional(self.security_ext_user),
                optional(self.security_ext_anon_user),
                optional(self.security_ext_eap_method),
            ],
            quoting: false,
            ..bare("+wlanConnect", 100)
        }
    }

    /// The command, ready to be sent.
    pub fn command(&self) -> (out: Command)
        ensures
            out@ == self.request(),
    {
        let out = Command::new("+wlanConnect").timeout_ms(100).quoting(false).argument(
            self.ssid.to_argument(),
        ).argument(optional_argument(&self.bssid)).argument(
            self.security_type.to_argument(),
        ).argument(optional_argument(&self.security_key)).argument(
            optional_argument(&self.security_ext_user),
        ).argument(optional_argument(&self.security_ext_anon_user)).argument(
            optional_argument(&self.security_ext_eap_method),
        );
        assert(out@.arguments =~= self.request().arguments);
        out
    }
}

/// Disconnect from the access point.
#[derive(Debug, Clone, Copy, PartialEq, Eq, Structural)]
pub struct Disconnect {}

impl Disconnect {
    /// The command as plain values.
    pub open spec fn request(self) -> CommandModel {
        bare("+wlanDisconnect", 100)
    }

    /// The command, ready to be sent.
    pub fn command(&self) -> (out: Command)
        ensures
            out@ == self.request(),
    {
        Command::new("+wlanDisconnect").timeout_ms(100)
    }
}

/// Store a connection profile.
#[derive(Debug)]
pub struct ProfileAdd {
    /// SSID name
    pub ssid: Text<32>,
    /// Optional mac address
    pub bssid: Option<Text<17>>,
    /// Security type
    pub security_type: Text<10>,
    /// Security key
    pub security_key: Option<Text<63>>,
    /// Enterprise user name
    pub security_ext_user: Option<Text<63>>,
    /// Enterprise anonymous user name
    pub security_ext_anon_user: Option<Text<63>>,
    /// Enterprise EAP protocol
    pub security_ext_eap_method: Option<Text<14>>,
    /// Profile priority
    pub priority: u8,
}

impl ProfileAdd {
    /// The command as plain values.
    pub open spec fn request(self) -> CommandModel {
        CommandModel {
            arguments: seq![
                ArgumentModel::Text(self.ssid@),
                optional(self.bssid),
                ArgumentModel::Text(self.security_type@),
                optional(self.security_key),
                optional(self.security_ext_user),
                optional(self.security_ext_anon_user),
                optional(self.security_ext_eap_method),
                decimal(self.priority as u32),
            ],
            quoting: false,
            ..bare("+wlanProfileAdd", 100)
        }
    }

    /// The command, ready to be sent.
    pub fn command(&self) -> (out: Command)
        ensures
            out@ == self.request(),
    {
        let out = Command::new("+wlanProfileAdd").timeout_ms(100).quoting(false).argument(
            self.ssid.to_argument(),
        ).argument(optional_argument(&self.bssid)).argument(
            self.security_type.to_argument(),
        ).argument(optional_argument(&self.security_key)).argument(
            optional_argument(&self.security_ext_user),
        ).argument(optional_argument(&self.security_ext_anon_user)).argument(
            optional_argument(&self.security_ext_eap_method),
        ).argument(Argument::Integer { value: self.priority as u32, radix: Radix::Decimal });
        assert(out@.arguments =~= self.request().arguments);
        out
    }
}

/// Read a connection profile.
#[derive(Debug, Clone, Copy, PartialEq, Eq, Structural)]
pub struct ProfileGet {
    /// Index
    pub index: u8,
}

impl ProfileGet {
    /// The command as plain values.
    pub open spec fn request(self) -> CommandModel {
        CommandModel {
            arguments: seq![decimal(self.index as u32)],
            quoting: false,
            ..bare("+wlanProfileGet", 100)
        }
    }

    /// The command, ready to be sent.
    pub fn command(&self) -> (out: Command)
        ensures
            out@ == self.request(),
    {
        let out = Command::new("+wlanProfileGet").timeout_ms(100).quoting(false).argument(
            Argument::Integer { value: self.index as u32, radix: Radix::Decimal },
        );
        assert(out@.arguments =~= self.request().arguments);
        out
    }
}

/// Delete a connection profile.
#[derive(Debug, Clone, Copy, PartialEq, Eq, Structural)]
pub struct ProfileDelete {
    /// Index
    pub index: u8,
}

impl ProfileDelete {
    /// The command as plain values.
    pub open spec fn request(self) -> CommandModel {
        CommandModel {
            arguments: seq![decimal(self.index as u32)],
            quoting: false,
            ..bare("+wlanProfileDel", 100)
        }
    }

    /// The command, ready to be sent.
    pub fn command(&self) -> (out: Command)
        ensures
            out@ == self.request(),
    {
        let out = Command::new("+wlanProfileDel").timeout_ms(100).quoting(false).argument(
            Argument::Integer { value: self.index as u32, radix: Radix::Decimal },
        );
        assert(out@.arguments =~= self.request().arguments);
        out
    }
}

} // verus!
