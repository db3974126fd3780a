use wurth_calypso::calypso::Event;
use wurth_calypso::client::Config;
use wurth_calypso::codec::encode;
use wurth_calypso::command::device::{
    FactoryReset, PowerSave, ProvisioningStart, ProvisioningStop, Reboot, SetOption, Sleep, Start,
    Stop,
};
use wurth_calypso::command::socket::{
    Bind, Close, Socket, SocketFamily, SocketProtocol, SocketType,
};
use wurth_calypso::command::wlan::{
    Connect, Disconnect, Mode, ProfileAdd, ProfileDelete, ProfileGet, Scan, SecurityEapType,
    SecurityType, SetMode,
};
use wurth_calypso::command::NoResponse;
use wurth_calypso::error::{EncodingError, Error};
use wurth_calypso::exchange::Response;
use wurth_calypso::text::Text;
use wurth_calypso::wlan::WlanMode;
use wurth_calypso::Calypso;

fn client() -> Calypso {
    Calypso::new(Config::new())
}

fn answered(calypso: &mut Calypso) {
    assert_eq!(calypso.feed(b"OK\r\n", 0), vec![Event::Resolved(Response::NoData)]);
}

#[test]
fn device_commands() {
    assert_eq!(encode(&(Start {}).command()).unwrap(), b"AT+start\r\n".to_vec());
    assert_eq!(encode(&(Stop { timeout: 65535 }).command()).unwrap(), b"AT+stop=65535\r\n".to_vec());
    assert_eq!(encode(&(Reboot {}).command()).unwrap(), b"AT+reboot\r\n".to_vec());
    assert_eq!(encode(&(FactoryReset {}).command()).unwrap(), b"AT+factoryreset\r\n".to_vec());
    assert_eq!(encode(&(Sleep { timeout: 10 }).command()).unwrap(), b"AT+sleep=10\r\n".to_vec());
    assert_eq!(encode(&(PowerSave {}).command()).unwrap(), b"AT+powersave\r\n".to_vec());
    assert_eq!(
        encode(&(ProvisioningStart {}).command()).unwrap(),
        b"AT+provisioningStart\r\n".to_vec()
    );
    assert_eq!(
        encode(&(ProvisioningStop {}).command()).unwrap(),
        b"AT+provisioningStop\r\n".to_vec()
    );
    let set = SetOption { id: Text::from_str("general").unwrap(), option: Text::from_str("time").unwrap() };
    assert_eq!(encode(&set.command()).unwrap(), b"AT+set=\"general\",\"time\"\r\n".to_vec());
}

#[test]
fn command_timeouts() {
    assert_eq!((Start {}).command().timeout(), 100);
    assert_eq!((Sleep { timeout: 1 }).command().timeout(), 100);
    assert_eq!((FactoryReset {}).command().timeout(), 1000);
    assert_eq!((Disconnect {}).command().timeout(), 100);
    assert_eq!((Close { socket_id: 1 }).command().timeout(), 100);
}

#[test]
fn socket_commands() {
    let socket = Socket {
        family: SocketFamily::Inet.into(),
        type_: SocketType::Stream.into(),
        protocol: SocketProtocol::Tcp.into(),
    };
    assert_eq!(encode(&socket.command()).unwrap(), b"AT+socket=INET,STREAM,TCP\r\n".to_vec());
    assert_eq!(encode(&(Close { socket_id: 3 }).command()).unwrap(), b"AT+close=3\r\n".to_vec());
    let bind = Bind {
        socket_id: 3,
        family: SocketFamily::Inet6.into(),
        local_port: 8080,
        local_address: Text::from_str("192.168.1.1").unwrap(),
    };
    assert_eq!(
        encode(&bind.command()).unwrap(),
        b"AT+bind=3,\"INET6\",8080,\"192.168.1.1\"\r\n".to_vec()
    );
}

#[test]
fn socket_tokens() {
    assert_eq!(SocketFamily::Inet.into().as_bytes(), b"INET");
    assert_eq!(SocketFamily::Inet6.into().as_bytes(), b"INET6");
    assert_eq!(SocketType::Stream.into().as_bytes(), b"STREAM");
    assert_eq!(SocketType::Dgram.into().as_bytes(), b"DGRAM");
    assert_eq!(SocketProtocol::Tcp.into().as_bytes(), b"TCP");
    assert_eq!(SocketProtocol::Udp.into().as_bytes(), b"UDP");
    assert_eq!(SocketProtocol::Sec.into().as_bytes(), b"SEC");
}

#[test]
fn wlan_tokens() {
    assert_eq!(Mode::Sta.into().as_bytes(), b"STA");
    assert_eq!(Mode::Ap.into().as_bytes(), b"AP");
    assert_eq!(Mode::P2p.into().as_bytes(), b"P2P");
    let security: [(SecurityType, &[u8]); 9] = [
        (SecurityType::Open, b"OPEN"),
        (SecurityType::Wep, b"WEP"),
        (SecurityType::WepShared, b"WEP_SHARED"),
        (SecurityType::WpaWpa2, b"WPA_WPA2"),
        (SecurityType::Wpa2Plus, b"WPA2_PLUS"),
        (SecurityType::Wpa3, b"WPA3"),
        (SecurityType::WpaEnt, b"WPA_ENT"),
        (SecurityType::WpsPbc, b"WPA_PBC"),
        (SecurityType::WpsPin, b"WPA_PIN"),
    ];
    for (kind, token) in security {
        assert_eq!(kind.into().as_bytes(), token);
    }
    let methods: [(SecurityEapType, &[u8]); 9] = [
        (SecurityEapType::Tls, b"TLS"),
        (SecurityEapType::TtlsTls, b"TTLS_TLS"),
        (SecurityEapType::TtlsMschapv2, b"TTLS_MSCHAPv2"),
        (SecurityEapType::TtlsPsk, b"TTLS_PSK"),
        (SecurityEapType::Peap0Tls, b"PEAP0_TLS"),
        (SecurityEapType::Peap0Mschapv2, b"PEAP0_MSCHAPv2"),
        (SecurityEapType::Peap0Psk, b"PEAP0_PSK"),
        (SecurityEapType::Peap1Tls, b"PEAP1_TLS"),
        (SecurityEapType::Peap1Psk, b"PEAP1_PSK"),
    ];
    for (method, token) in methods {
        assert_eq!(method.into().as_bytes(), token);
    }
}

#[test]
fn wlan_commands() {
    assert_eq!(
        encode(&(SetMode { mode: Mode::Ap.into() }).command()).unwrap(),
        b"AT+wlanSetMode=AP\r\n".to_vec()
    );
    assert_eq!(
        encode(&(Scan { index: 0, count: 30 }).command()).unwrap(),
        b"AT+wlanScan=0,30\r\n".to_vec()
    );
    assert_eq!(encode(&(Disconnect {}).command()).unwrap(), b"AT+wlanDisconnect\r\n".to_vec());
    assert_eq!(
        encode(&(ProfileGet { index: 2 }).command()).unwrap(),
        b"AT+wlanProfileGet=2\r\n".to_vec()
    );
    assert_eq!(
        encode(&(ProfileDelete { index: 255 }).command()).unwrap(),
        b"AT+wlanProfileDel=255\r\n".to_vec()
    );
    let connect = Connect {
        ssid: Text::from_str("home").unwrap(),
        bssid: Some(Text::from_str("00:11:22:33:44:55").unwrap()),
        security_type: SecurityType::WpaEnt.into(),
        security_key: Some(Text::from_str("secret").unwrap()),
        security_ext_user: Some(Text::from_str("me").unwrap()),
        security_ext_anon_user: None,
        security_ext_eap_method: Some(SecurityEapType::Peap0Mschapv2.into()),
    };
    assert_eq!(
        encode(&connect.command()).unwrap(),
        b"AT+wlanConnect=home,00:11:22:33:44:55,WPA_ENT,secret,me,,PEAP0_MSCHAPv2\r\n".to_vec()
    );
    let profile = ProfileAdd {
        ssid: Text::from_str("home").unwrap(),
        bssid: None,
        security_type: SecurityType::Open.into(),
        security_key: None,
        security_ext_user: None,
        security_ext_anon_user: None,
        security_ext_eap_method: None,
        priority: 7,
    };
    assert_eq!(
        encode(&profile.command()).unwrap(),
        b"AT+wlanProfileAdd=home,,OPEN,,,,,7\r\n".to_vec()
    );
}

#[test]
fn client_calls_for_the_device() {
    let mut calypso = client();
    assert_eq!(calypso.start(0), Ok(b"AT+start\r\n".to_vec()));
    answered(&mut calypso);
    assert_eq!(calypso.stop(0), Ok(b"AT+stop=0\r\n".to_vec()));
    answered(&mut calypso);
    assert_eq!(calypso.test(0), Ok(b"AT+test\r\n".to_vec()));
    answered(&mut calypso);
    assert_eq!(calypso.reboot(0), Ok(b"AT+reboot\r\n".to_vec()));
    answered(&mut calypso);
    assert_eq!(calypso.factory_reset(0), Ok(b"AT+factoryreset\r\n".to_vec()));
    answered(&mut calypso);
    assert_eq!(calypso.sleep(10, 0), Ok(b"AT+sleep=10\r\n".to_vec()));
    answered(&mut calypso);
    assert_eq!(calypso.sleep_forever(0), Ok(b"AT+sleep=0\r\n".to_vec()));
    answered(&mut calypso);
    assert_eq!(calypso.powersave(0), Ok(b"AT+powersave\r\n".to_vec()));
    answered(&mut calypso);
    assert_eq!(calypso.provisioning_start(0), Ok(b"AT+provisioningStart\r\n".to_vec()));
    answered(&mut calypso);
    assert_eq!(calypso.provisioning_stop(0), Ok(b"AT+provisioningStop\r\n".to_vec()));
    answered(&mut calypso);
}

#[test]
fn factory_reset_waits_for_a_second() {
    let mut calypso = client();
    calypso.factory_reset(0).unwrap();
    assert!(!calypso.poll(1000));
    assert!(calypso.poll(1001));
}

#[test]
fn client_calls_for_the_wlan() {
    let mut calypso = client();
    assert_eq!(calypso.wlan_set_mode(Mode::Sta, 0), Ok(b"AT+wlanSetMode=STA\r\n".to_vec()));
    answered(&mut calypso);
    assert_eq!(calypso.wlan_scan(0, 10, 0), Ok(b"AT+wlanScan=0,10\r\n".to_vec()));
    answered(&mut calypso);
    assert_eq!(calypso.wifi_disconnect(0), Ok(b"AT+wlanDisconnect\r\n".to_vec()));
    answered(&mut calypso);
}

#[test]
fn client_calls_to_connect() {
    let mut calypso = client();
    assert_eq!(
        calypso.wlan_connect_open("cafe", None, 0),
        Ok(b"AT+wlanConnect=cafe,,OPEN\r\n".to_vec())
    );
    answered(&mut calypso);
    assert_eq!(
        calypso.wlan_connect_open("cafe", Some("aa:bb:cc:dd:ee:ff"), 0),
        Ok(b"AT+wlanConnect=cafe,aa:bb:cc:dd:ee:ff,OPEN\r\n".to_vec())
    );
    answered(&mut calypso);
    assert_eq!(
        calypso.wlan_connect_wep("cafe", None, "key", 0),
        Ok(b"AT+wlanConnect=cafe,,WEP,key\r\n".to_vec())
    );
    answered(&mut calypso);
    assert_eq!(
        calypso.wlan_connect_wep_shared("cafe", None, "key", 0),
        Ok(b"AT+wlanConnect=cafe,,WEP_SHARED,key\r\n".to_vec())
    );
    answered(&mut calypso);
    assert_eq!(
        calypso.wlan_connect_wpa_wpa2("cafe", None, "key", 0),
        Ok(b"AT+wlanConnect=cafe,,WPA_WPA2,key\r\n".to_vec())
    );
    answered(&mut calypso);
    assert_eq!(
        calypso.wlan_connect_wpa2_plus("cafe", None, "key", 0),
        Ok(b"AT+wlanConnect=cafe,,WPA2_PLUS,key\r\n".to_vec())
    );
    answered(&mut calypso);
    assert_eq!(
        calypso.wlan_connect_wpa3("cafe", None, "key", 0),
        Ok(b"AT+wlanConnect=cafe,,WPA3,key\r\n".to_vec())
    );
    answered(&mut calypso);
    assert_eq!(
        calypso.wlan_connect_enterprise("cafe", None, Some("me"), None, "key", SecurityEapType::Tls, 0),
        Ok(b"AT+wlanConnect=cafe,,WPA_ENT,key,me,,TLS\r\n".to_vec())
    );
    answered(&mut calypso);
    assert_eq!(
        calypso.wlan_connect_enterprise("cafe", None, None, Some("anon"), "key", SecurityEapType::TtlsPsk, 0),
        Ok(b"AT+wlanConnect=cafe,,WPA_ENT,key,,anon,TTLS_PSK\r\n".to_vec())
    );
    answered(&mut calypso);
    assert_eq!(
        calypso.wlan_connect_wps_pbc("cafe", None, 0),
        Ok(b"AT+wlanConnect=cafe,,WPA_PBC\r\n".to_vec())
    );
    answered(&mut calypso);
    assert_eq!(
        calypso.wlan_connect_wps_pin("cafe", None, 0),
        Ok(b"AT+wlanConnect=cafe,,WPA_PIN\r\n".to_vec())
    );
    answered(&mut calypso);
    assert_eq!(
        calypso.wlan_connect("cafe", None, SecurityType::Wpa3, Some("key"), None, None, None, 0),
        Ok(b"AT+wlanConnect=cafe,,WPA3,key\r\n".to_vec())
    );
}

#[test]
fn credentials_that_do_not_fit_are_refused() {
    let mut calypso = client();
    let too_long = Err(Error::Encoding(EncodingError::CapacityExceeded));
    assert_eq!(calypso.wlan_connect_open(&"s".repeat(33), None, 0), too_long);
    assert_eq!(calypso.wlan_connect_open("s", Some(&"b".repeat(18)), 0), too_long);
    assert_eq!(calypso.wlan_connect_wpa3("s", None, &"k".repeat(64), 0), too_long);
    assert_eq!(
        calypso.wlan_connect_enterprise("s", None, Some(&"u".repeat(64)), None, "k", SecurityEapType::Tls, 0),
        too_long
    );
    assert_eq!(
        calypso.wlan_connect_enterprise("s", None, None, Some(&"a".repeat(64)), "k", SecurityEapType::Tls, 0),
        too_long
    );
    assert!(!calypso.is_awaiting());
    assert!(calypso
        .wlan_connect_wpa3(&"s".repeat(32), Some(&"b".repeat(17)), &"k".repeat(63), 0)
        .is_ok());
}

#[test]
fn credentials_that_cannot_be_written_are_refused() {
    let mut calypso = client();
    assert_eq!(
        calypso.wlan_connect_wpa3("cafe", None, "pass,word", 0),
        Err(Error::Encoding(EncodingError::Unencodable { position: 3 }))
    );
    assert_eq!(
        calypso.wlan_connect_open("my \"net\"", None, 0),
        Err(Error::Encoding(EncodingError::Unencodable { position: 0 }))
    );
    assert!(!calypso.is_awaiting());
}

#[test]
fn no_response_stands_for_an_answer_without_data() {
    assert_eq!(NoResponse::from_response(&Response::NoData), Some(NoResponse));
    assert_eq!(NoResponse::from_response(&Response::Data(Vec::new())), None);
}

#[test]
fn wlan_mode_names() {
    let name: &str = WlanMode::STA.into();
    assert_eq!(name, "STA");
    let name: &str = WlanMode::AP.into();
    assert_eq!(name, "AP");
    let name: &str = WlanMode::P2P.into();
    assert_eq!(name, "P2P");
    assert_eq!(WlanMode::try_from("STA"), Ok(WlanMode::STA));
    assert_eq!(WlanMode::try_from("AP"), Ok(WlanMode::AP));
    assert_eq!(WlanMode::try_from("P2P"), Ok(WlanMode::P2P));
    assert_eq!(WlanMode::try_from("sta"), Err("value was not STA, AP, or P2P."));
    assert_eq!(WlanMode::try_from(""), Err("value was not STA, AP, or P2P."));
    assert_eq!(WlanMode::try_from("STA "), Err("value was not STA, AP, or P2P."));
}

#[test]
fn eap_methods_by_token() {
    assert_eq!(SecurityEapType::from_token(b"TLS"), Ok(SecurityEapType::Tls));
    assert_eq!(SecurityEapType::from_token(b"TTLS_MSCHAPv2"), Ok(SecurityEapType::TtlsMschapv2));
    assert_eq!(SecurityEapType::from_token(b"PEAP1_PSK"), Ok(SecurityEapType::Peap1Psk));
    assert_eq!(SecurityEapType::from_token(b"tls"), Err(EncodingError::Unmappable));
    assert_eq!(SecurityEapType::from_token(b""), Err(EncodingError::Unmappable));
    assert_eq!(SecurityEapType::from_token(b"TTLS_MSCHAPV2"), Err(EncodingError::Unmappable));
    for method in wurth_calypso::command::wlan::methods() {
        assert_eq!(SecurityEapType::from_token(method.into().as_bytes()), Ok(method));
    }
}

#[test]
fn names_of_the_radio_map_to_the_commands() {
    assert_eq!(WlanMode::STA.mode(), Mode::Sta);
    assert_eq!(WlanMode::AP.mode(), Mode::Ap);
    assert_eq!(WlanMode::P2P.mode(), Mode::P2p);
    assert_eq!(wurth_calypso::wlan::SecurityType::Open.security(), SecurityType::Open);
    assert_eq!(wurth_calypso::wlan::SecurityType::WpsPbs.security(), SecurityType::WpsPbc);
    assert_eq!(wurth_calypso::wlan::SecurityType::WpsPin.security(), SecurityType::WpsPin);
    assert_eq!(wurth_calypso::wlan::SecurityType::WpaEnt.security(), SecurityType::WpaEnt);
}
