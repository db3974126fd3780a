//! The commands of the module as calls on the client: each opens an exchange
//! and hands out the bytes to write.

use vstd::prelude::*;
use vstd::string::StringSliceAdditionalSpecFns;
use crate::argument::ArgumentModel;
use crate::calypso::{polled, sent, Calypso, CalypsoModel};
use crate::codec::CommandModel;
use crate::command::device::{
    bare, FactoryReset, PowerSave, ProvisioningStart, ProvisioningStop, Reboot, Sleep, Start,
    Stop, Test,
};
use crate::command::wlan::{
    set_mode_request, Connect, Disconnect, Mode, Scan, SecurityEapType, SecurityType, SetMode,
};
use crate::error::{EncodingError, Error, ErrorModel};
use crate::text::Text;

verus! {

/// The bytes of an optional string.
pub open spec fn bytes_of(text: Option<&str>) -> Option<Seq<u8>> {
    match text {
        Some(t) => Some(t.spec_bytes()),
        None => None,
    }
}

/// Optional bytes as an argument.
pub open spec fn optional_text(text: Option<Seq<u8>>) -> ArgumentModel {
    match text {
        Some(bytes) => ArgumentModel::Text(bytes),
        None => ArgumentModel::Absent,
    }
}

/// The optional bytes are at most `capacity`.
pub open spec fn within(text: Option<Seq<u8>>, capacity: nat) -> bool {
    match text {
        Some(bytes) => bytes.len() <= capacity,
        None => true,
    }
}

/// What a connection is asked with.
pub struct Credentials {
    pub ssid: Seq<u8>,
    pub bssid: Option<Seq<u8>>,
    pub security: SecurityType,
    pub key: Option<Seq<u8>>,
    pub user: Option<Seq<u8>>,
    pub anon_user: Option<Seq<u8>>,
    pub eap_method: Option<SecurityEapType>,
}

/// Every text of the credentials fits the field of the command that holds
/// it.
pub open spec fn credentials_fit(c: Credentials) -> bool {
    &&& c.ssid.len() <= 32
    &&& within(c.bssid, 17)
    &&& within(c.key, 63)
    &&& within(c.user, 63)
    &&& within(c.anon_user, 63)
}

/// The command that asks for a connection.
pub open spec fn connect_request(c: Credentials) -> CommandModel {
    CommandModel {
        arguments: seq![
            ArgumentModel::Text(c.ssid),
            optional_text(c.bssid),
            ArgumentModel::Text(c.security.token().spec_bytes()),
            optional_text(c.key),
            optional_text(c.user),
            optional_text(c.anon_user),
            match c.eap_method {
                Some(method) => ArgumentModel::Text(method.token().spec_bytes()),
                None => ArgumentModel::Absent,
            },
        ],
        quoting: false,
        ..bare("+wlanConnect", 100)
    }
}

/// What asking for a connection at `now` does. Time passes first, as with
/// every command. A client that is not ready then says so; a text that does
/// not fit its field is an encoding error; either way no exchange is opened.
/// Otherwise the command is sent.
pub open spec fn connecting(state: CalypsoModel, c: Credentials, now: u64) -> (
    CalypsoModel,
    Result<Seq<u8>, ErrorModel>,
) {
    let ready = polled(state, now).0;
    if ready.pending is Some {
        (ready, Err(ErrorModel::NotReady))
    } else if !credentials_fit(c) {
        (ready, Err(ErrorModel::Encoding(EncodingError::CapacityExceeded)))
    } else {
        sent(state, connect_request(c), now)
    }
}

/// Credentials with nothing but a network's name and, where given, the
/// address of its access point.
pub open spec fn keyless(ssid: &str, bssid: Option<&str>, security: SecurityType) -> Credentials {
    Credentials {
        ssid: ssid.spec_bytes(),
        bssid: bytes_of(bssid),
        security,
        key: None,
        user: None,
        anon_user: None,
        eap_method: None,
    }
}

/// Credentials with a password.
pub open spec fn keyed(ssid: &str, bssid: Option<&str>, security: SecurityType, password: &str)
    -> Credentials {
    Credentials { key: Some(password.spec_bytes()), ..keyless(ssid, bssid, security) }
}

/// The text of an optional string, where it fits.
fn optional_from_str<const N: usize>(text: Option<&str>) -> (out: Result<
    Option<Text<N>>,
    EncodingError,
>)
    ensures
        within(bytes_of(text), N as nat) ==> out is Ok && match out.unwrap() {
            Some(t) => bytes_of(text) == Some(t@),
            None => text is None,
        },
        !within(bytes_of(text), N as nat) ==> out is Err && out.unwrap_err()
            == EncodingError::CapacityExceeded,
{
    match text {
        Some(t) => match Text::from_str(t) {
            Ok(made) => Ok(Some(made)),
            Err(e) => Err(e),
        },
        None => Ok(None),
    }
}

/// Puts credentials into the command that asks for a connection. Fails with
/// `CapacityExceeded` where a text does not fit the field that holds it.
pub fn credentials(
    ssid: &str,
    bssid: Option<&str>,
    security: SecurityType,
    key: Option<&str>,
    user: Option<&str>,
    anon_user: Option<&str>,
    eap_method: Option<SecurityEapType>,
) -> (out: Result<Connect, EncodingError>)
    ensures
        ({
            let c = Credentials {
                ssid: ssid.spec_bytes(),
                bssid: bytes_of(bssid),
                security,
                key: bytes_of(key),
                user: bytes_of(user),
                anon_user: bytes_of(anon_user),
                eap_method,
            };
            if credentials_fit(c) {
                out is Ok && out.unwrap().request() == connect_request(c)
            } else {
                out is Err && out.unwrap_err() == EncodingError::CapacityExceeded
            }
        }),
{
    let ssid_text = match Text::<32>::from_str(ssid) {
        Ok(t) => t,
        Err(e) => {
            return Err(e);
        },
    };
    let bssid_text = match optional_from_str::<17>(bssid) {
        Ok(t) => t,
        Err(e) => {
            return Err(e);
        },
    };
    let key_text = match optional_from_str::<63>(key) {
        Ok(t) => t,
        Err(e) => {
            return Err(e);
        },
    };
    let user_text = match optional_from_str::<63>(user) {
        Ok(t) => t,
        Err(e) => {
            return Err(e);
        },
    };
    let anon_text = match optional_from_str::<63>(anon_user) {
        Ok(t) => t,
        Err(e) => {
            return Err(e);
        },
    };
    let method_text = match eap_method {
        Some(method) => Some(method.into()),
        None => None,
    };
    let request = Connect {
        ssid: ssid_text,
        bssid: bssid_text,
        security_type: security.into(),
        security_key: key_text,
        security_ext_user: user_text,
        security_ext_anon_user: anon_text,
        security_ext_eap_method: method_text,
    };
    proof {
        let c = Credentials {
            ssid: ssid.spec_bytes(),
            bssid: bytes_of(bssid),
            security,
            key: bytes_of(key),
            user: bytes_of(user),
            anon_user: bytes_of(anon_user),
            eap_method,
        };
        assert(request.request().arguments =~= connect_request(c).arguments);
    }
    Ok(request)
}

impl Calypso {
    /// Start the network processor unit (NWP).
    pub fn start(&mut self, now: u64) -> (out: Result<Vec<u8>, Error>)
        ensures
            final(self)@ == sent(old(self)@, (Start {  }).request(), now).0,
            match sent(old(self)@, (Start {  }).request(), now).1 {
                Ok(line) => out is Ok && out.unwrap()@ == line,
                Err(e) => out is Err && out.unwrap_err()@ == e,
            },
    {
        self.send(&(Start {  }).command(), now)
    }

    /// Stop the network processor unit (NWP).
    pub fn stop(&mut self, now: u64) -> (out: Result<Vec<u8>, Error>)
        ensures
            final(self)@ == sent(old(self)@, (Stop { timeout: 0 }).request(), now).0,
            match sent(old(self)@, (Stop { timeout: 0 }).request(), now).1 {
                Ok(line) => out is Ok && out.unwrap()@ == line,
                Err(e) => out is Err && out.unwrap_err()@ == e,
            },
    {
        self.send(&(Stop { timeout: 0 }).command(), now)
    }

    /// Test the Calypso is responsive.
    pub fn test(&mut self, now: u64) -> (out: Result<Vec<u8>, Error>)
        ensures
            final(self)@ == sent(old(self)@, (Test {  }).request(), now).0,
            match sent(old(self)@, (Test {  }).request(), now).1 {
                Ok(line) => out is Ok && out.unwrap()@ == line,
                Err(e) => out is Err && out.unwrap_err()@ == e,
            },
    {
        self.send(&(Test {  }).command(), now)
    }

    /// Reboot the Calypso.
    pub fn reboot(&mut self, now: u64) -> (out: Result<Vec<u8>, Error>)
        ensures
            final(self)@ == sent(old(self)@, (Reboot {  }).request(), now).0,
            match sent(old(self)@, (Reboot {  }).request(), now).1 {
                Ok(line) => out is Ok && out.unwrap()@ == line,
                Err(e) => out is Err && out.unwrap_err()@ == e,
            },
    {
        self.send(&(Reboot {  }).command(), now)
    }

    /// Perform a factory reset.
    ///
    /// Warning: Resetting or powering off the module during this operation
    /// can result in permanent damage to the module.
    pub fn factory_reset(&mut self, now: u64) -> (out: Result<Vec<u8>, Error>)
        ensures
            final(self)@ == sent(old(self)@, (FactoryReset {  }).request(), now).0,
            match sent(old(self)@, (FactoryReset {  }).request(), now).1 {
                Ok(line) => out is Ok && out.unwrap()@ == line,
                Err(e) => out is Err && out.unwrap_err()@ == e,
            },
    {
        self.send(&(FactoryReset {  }).command(), now)
    }

    /// Sleep for a given number of seconds.
    ///
    /// Setting the duration to 0 will cause the Calypso to sleep forever.
    pub fn sleep(&mut self, seconds: u32, now: u64) -> (out: Result<Vec<u8>, Error>)
        ensures
            final(self)@ == sent(old(self)@, (Sleep { timeout: seconds }).request(), now).0,
            match sent(old(self)@, (Sleep { timeout: seconds }).request(), now).1 {
                Ok(line) => out is Ok && out.unwrap()@ == line,
                Err(e) => out is Err && out.unwrap_err()@ == e,
            },
    {
        self.send(&(Sleep { timeout: seconds }).command(), now)
    }

    /// Sleep until reset or interrupt.
    pub fn sleep_forever(&mut self, now: u64) -> (out: Result<Vec<u8>, Error>)
        ensures
            final(self)@ == sent(old(self)@, (Sleep { timeout: 0 }).request(), now).0,
            match sent(old(self)@, (Sleep { timeout: 0 }).request(), now).1 {
                Ok(line) => out is Ok && out.unwrap()@ == line,
                Err(e) => out is Err && out.unwrap_err()@ == e,
            },
    {
        self.send(&(Sleep { timeout: 0 }).command(), now)
    }

    /// Enter into power saving mode.
    pub fn powersave(&mut self, now: u64) -> (out: Result<Vec<u8>, Error>)
        ensures
            final(self)@ == sent(old(self)@, (PowerSave {  }).request(), now).0,
            match sent(old(self)@, (PowerSave {  }).request(), now).1 {
                Ok(line) => out is Ok && out.unwrap()@ == line,
                Err(e) => out is Err && out.unwrap_err()@ == e,
            },
    {
        self.send(&(PowerSave {  }).command(), now)
    }

    /// Enter into provisioning mode.
    pub fn provisioning_start(&mut self, now: u64) -> (out: Result<Vec<u8>, Error>)
        ensures
            final(self)@ == sent(old(self)@, (ProvisioningStart {  }).request(), now).0,
            match sent(old(self)@, (ProvisioningStart {  }).request(), now).1 {
                Ok(line) => out is Ok && out.unwrap()@ == line,
                Err(e) => out is Err && out.unwrap_err()@ == e,
            },
    {
        self.send(&(ProvisioningStart {  }).command(), now)
    }

    /// Exit provisioning mode.
    pub fn provisioning_stop(&mut self, now: u64) -> (out: Result<Vec<u8>, Error>)
        ensures
            final(self)@ == sent(old(self)@, (ProvisioningStop {  }).request(), now).0,
            match sent(old(self)@, (ProvisioningStop {  }).request(), now).1 {
                Ok(line) => out is Ok && out.unwrap()@ == line,
                Err(e) => out is Err && out.unwrap_err()@ == e,
            },
    {
        self.send(&(ProvisioningStop {  }).command(), now)
    }

    /// Set WIFI operating mode.
    pub fn wlan_set_mode(&mut self, mode: Mode, now: u64) -> (out: Result<Vec<u8>, Error>)
        ensures
            final(self)@ == sent(old(self)@, set_mode_request(mode), now).0,
            match sent(old(self)@, set_mode_request(mode), now).1 {
                Ok(line) => out is Ok && out.unwrap()@ == line,
                Err(e) => out is Err && out.unwrap_err()@ == e,
            },
    {
        let request = SetMode { mode: mode.into() };
        let command = request.command();
        assert(command@.arguments =~= set_mode_request(mode).arguments);
        self.send(&command, now)
    }

    /// Scan for WIFI access points.
    pub fn wlan_scan(&mut self, index: u8, count: u8, now: u64) -> (out: Result<Vec<u8>, Error>)
        ensures
            final(self)@ == sent(old(self)@, (Scan { index, count }).request(), now).0,
            match sent(old(self)@, (Scan { index, count }).request(), now).1 {
                Ok(line) => out is Ok && out.unwrap()@ == line,
                Err(e) => out is Err && out.unwrap_err()@ == e,
            },
    {
        self.send(&(Scan { index, count }).command(), now)
    }

    /// Connect to a WIFI access point with the given credentials.
    pub fn wlan_connect(
        &mut self,
        ssid: &str,
        bssid: Option<&str>,
        security: SecurityType,
        key: Option<&str>,
        user: Option<&str>,
        anon_user: Option<&str>,
        eap_method: Option<SecurityEapType>,
        now: u64,
    ) -> (out: Result<Vec<u8>, Error>)
        ensures
            final(self)@ == connecting(
                old(self)@,
                Credentials {
                    ssid: ssid.spec_bytes(),
                    bssid: bytes_of(bssid),
                    security,
                    key: bytes_of(key),
                    user: bytes_of(user),
                    anon_user: bytes_of(anon_user),
                    eap_method,
                },
                now,
            ).0,
            match connecting(
                old(self)@,
                Credentials {
                    ssid: ssid.spec_bytes(),
                    bssid: bytes_of(bssid),
                    security,
                    key: bytes_of(key),
                    user: bytes_of(user),
                    anon_user: bytes_of(anon_user),
                    eap_method,
                },
                now,
            ).1 {
                Ok(line) => out is Ok && out.unwrap()@ == line,
                Err(e) => out is Err && out.unwrap_err()@ == e,
            },
    {
        self.poll(now);
        if self.is_awaiting() {
            return Err(Error::NotReady);
        }
        let request = match credentials(ssid, bssid, security, key, user, anon_user, eap_method) {
            Ok(request) => request,
            Err(e) => {
                return Err(Error::Encoding(e));
            },
        };
        let command = request.command();
        self.send(&command, now)
    }

    /// Connect to a WIFI access point with "Open" security.
    pub fn wlan_connect_open(&mut self, ssid: &str, bssid: Option<&str>, now: u64) -> (out: Result<
        Vec<u8>,
        Error,
    >)
        ensures
            final(self)@ == connecting(
                old(self)@,
                keyless(ssid, bssid, SecurityType::Open),
                now,
            ).0,
            match connecting(old(self)@, keyless(ssid, bssid, SecurityType::Open), now).1 {
                Ok(line) => out is Ok && out.unwrap()@ == line,
                Err(e) => out is Err && out.unwrap_err()@ == e,
            },
    {
        self.wlan_connect(ssid, bssid, SecurityType::Open, None, None, None, None, now)
    }

    /// Connect to a WIFI access point with WEP security.
    pub fn wlan_connect_wep(&mut self, ssid: &str, bssid: Option<&str>, password: &str, now: u64)
        -> (out: Result<Vec<u8>, Error>)
        ensures
            final(self)@ == connecting(
                old(self)@,
                keyed(ssid, bssid, SecurityType::Wep, password),
                now,
            ).0,
            match connecting(old(self)@, keyed(ssid, bssid, SecurityType::Wep, password), now).1 {
                Ok(line) => out is Ok && out.unwrap()@ == line,
                Err(e) => out is Err && out.unwrap_err()@ == e,
            },
    {
        self.wlan_connect(ssid, bssid, SecurityType::Wep, Some(password), None, None, None, now)
    }

    /// Connect to a WIFI access point with shared-key WEP security.
    pub fn wlan_connect_wep_shared(
        &mut self,
        ssid: &str,
        bssid: Option<&str>,
        password: &str,
        now: u64,
    ) -> (out: Result<Vec<u8>, Error>)
        ensures
            final(self)@ == connecting(
                old(self)@,
                keyed(ssid, bssid, SecurityType::WepShared, password),
                now,
            ).0,
            match connecting(
                old(self)@,
                keyed(ssid, bssid, SecurityType::WepShared, password),
                now,
            ).1 {
                Ok(line) => out is Ok && out.unwrap()@ == line,
                Err(e) => out is Err && out.unwrap_err()@ == e,
            },
    {
        self.wlan_connect(
            ssid,
            bssid,
            SecurityType::WepShared,
            Some(password),
            None,
            None,
            None,
            now,
        )
    }

    /// Connect to a WIFI access point with WPA or WPA2 security.
    pub fn wlan_connect_wpa_wpa2(
        &mut self,
        ssid: &str,
        bssid: Option<&str>,
        password: &str,
        now: u64,
    ) -> (out: Result<Vec<u8>, Error>)
        ensures
            final(self)@ == connecting(
                old(self)@,
                keyed(ssid, bssid, SecurityType::WpaWpa2, password),
                now,
            ).0,
            match connecting(
                old(self)@,
                keyed(ssid, bssid, SecurityType::WpaWpa2, password),
                now,
            ).1 {
                Ok(line) => out is Ok && out.unwrap()@ == line,
                Err(e) => out is Err && out.unwrap_err()@ == e,
            },
    {
        self.wlan_connect(
            ssid,
            bssid,
            SecurityType::WpaWpa2,
            Some(password),
            None,
            None,
            None,
            now,
        )
    }

    /// Connect to a WIFI access point with WPA2+ security.
    pub fn wlan_connect_wpa2_plus(
        &mut self,
        ssid: &str,
        bssid: Option<&str>,
        password: &str,
        now: u64,
    ) -> (out: Result<Vec<u8>, Error>)
        ensures
            final(self)@ == connecting(
                old(self)@,
                keyed(ssid, bssid, SecurityType::Wpa2Plus, password),
                now,
            ).0,
            match connecting(
                old(self)@,
                keyed(ssid, bssid, SecurityType::Wpa2Plus, password),
                now,
            ).1 {
                Ok(line) => out is Ok && out.unwrap()@ == line,
                Err(e) => out is Err && out.unwrap_err()@ == e,
            },
    {
        self.wlan_connect(
            ssid,
            bssid,
            SecurityType::Wpa2Plus,
            Some(password),
            None,
            None,
            None,
            now,
        )
    }

    /// Connect to a WIFI access point with WPA3 security.
    pub fn wlan_connect_wpa3(&mut self, ssid: &str, bssid: Option<&str>, password: &str, now: u64)
        -> (out: Result<Vec<u8>, Error>)
        ensures
            final(self)@ == connecting(
                old(self)@,
                keyed(ssid, bssid, SecurityType::Wpa3, password),
                now,
            ).0,
            match connecting(old(self)@, keyed(ssid, bssid, SecurityType::Wpa3, password), now).1 {
                Ok(line) => out is Ok && out.unwrap()@ == line,
                Err(e) => out is Err && out.unwrap_err()@ == e,
            },
    {
        self.wlan_connect(ssid, bssid, SecurityType::Wpa3, Some(password), None, None, None, now)
    }

    /// Connect to a WIFI access point with enterprise security.
    pub fn wlan_connect_enterprise(
        &mut self,
        ssid: &str,
        bssid: Option<&str>,
        user: Option<&str>,
        anon_user: Option<&str>,
        password: &str,
        eap_method: SecurityEapType,
        now: u64,
    ) -> (out: Result<Vec<u8>, Error>)
        ensures
            final(self)@ == connecting(
                old(self)@,
                Credentials {
                    user: bytes_of(user),
                    anon_user: bytes_of(anon_user),
                    eap_method: Some(eap_method),
                    ..keyed(ssid, bssid, SecurityType::WpaEnt, password)
                },
                now,
            ).0,
            match connecting(
                old(self)@,
                Credentials {
                    user: bytes_of(user),
                    anon_user: bytes_of(anon_user),
                    eap_method: Some(eap_method),
                    ..keyed(ssid, bssid, SecurityType::WpaEnt, password)
                },
                now,
            ).1 {
                Ok(line) => out is Ok && out.unwrap()@ == line,
                Err(e) => out is Err && out.unwrap_err()@ == e,
            },
    {
        self.wlan_connect(
            ssid,
            bssid,
            SecurityType::WpaEnt,
            Some(password),
            user,
            anon_user,
            Some(eap_method),
            now,
        )
    }

    /// Connect to a WIFI access point by WPS with a push button.
    pub fn wlan_connect_wps_pbc(&mut self, ssid: &str, bssid: Option<&str>, now: u64) -> (out: Result<
        Vec<u8>,
        Error,
    >)
        ensures
            final(self)@ == connecting(
                old(self)@,
                keyless(ssid, bssid, SecurityType::WpsPbc),
                now,
            ).0,
            match connecting(old(self)@, keyless(ssid, bssid, SecurityType::WpsPbc), now).1 {
                Ok(line) => out is Ok && out.unwrap()@ == line,
                Err(e) => out is Err && out.unwrap_err()@ == e,
            },
    {
        self.wlan_connect(ssid, bssid, SecurityType::WpsPbc, None, None, None, None, now)
    }

    /// Connect to a WIFI access point by WPS with a PIN.
    pub fn wlan_connect_wps_pin(&mut self, ssid: &str, bssid: Option<&str>, now: u64) -> (out: Result<
        Vec<u8>,
        Error,
    >)
        ensures
            final(self)@ == connecting(
                old(self)@,
                keyless(ssid, bssid, SecurityType::WpsPin),
                now,
            ).0,
            match connecting(old(self)@, keyless(ssid, bssid, SecurityType::WpsPin), now).1 {
                Ok(line) => out is Ok && out.unwrap()@ == line,
                Err(e) => out is Err && out.unwrap_err()@ == e,
            },
    {
        self.wlan_connect(ssid, bssid, SecurityType::WpsPin, None, None, None, None, now)
    }

    /// Manually disconnect from an existing WIFI connection.
    pub fn wifi_disconnect(&mut self, now: u64) -> (out: Result<Vec<u8>, Error>)
        ensures
            final(self)@ == sent(old(self)@, (Disconnect {  }).request(), now).0,
            match sent(old(self)@, (Disconnect {  }).request(), now).1 {
                Ok(line) => out is Ok && out.unwrap()@ == line,
                Err(e) => out is Err && out.unwrap_err()@ == e,
            },
    {
        self.send(&(Disconnect {  }).command(), now)
    }
}

} // verus!
