use snxcore::model::proto::{
    CccServerResponseData, GenericValue, RequestFailed, ResponseData, ResponseHeader,
    is_literal_label, ConnectivityInfo, GatewayInformation, LoginDisplayLabelSelect, LoginFactor, LoginOption,
    LoginOptionsData, ProtocolVersion,
};
use snxcore::model::{AuthenticationAlgorithm, EncryptionAlgorithm, MfaType, PromptInfo, TunnelServiceRequest};
use snxcore::table::format_aligned;

fn factor(t: &str, labels: Option<Vec<(&str, &str)>>) -> LoginFactor {
    LoginFactor {
        factor_type: t.to_owned(),
        custom_display_labels: match labels {
            Some(l) => LoginDisplayLabelSelect::LoginDisplayLabel(
                l.into_iter().map(|(k, v)| (k.to_owned(), v.to_owned())).collect(),
            ),
            None => LoginDisplayLabelSelect::Empty(String::new()),
        },
    }
}

fn option(id: &str, name: &str, show: u32, factors: Vec<LoginFactor>) -> LoginOption {
    LoginOption {
        id: id.to_owned(),
        secondary_realm_hash: String::new(),
        display_name: name.to_owned(),
        show_realm: show,
        factors: factors.into_iter().enumerate().map(|(i, f)| ((i + 1).to_string(), f)).collect(),
    }
}

fn gateway(options: Vec<LoginOption>) -> GatewayInformation {
    GatewayInformation {
        protocol_version: ProtocolVersion { protocol_version: 100 },
        connectivity_info: ConnectivityInfo {
            default_authentication_method: None,
            client_enabled: true,
            supported_data_tunnel_protocols: vec!["IPSec".to_owned(), "SSL".to_owned()],
            connectivity_type: "IPSec".to_owned(),
            server_ip: [192, 0, 2, 10],
            ipsec_transport: "auto".to_owned(),
            tcpt_port: 443,
            natt_port: 4500,
            connect_with_certificate_url: String::new(),
            internal_ca_fingerprint: Vec::new(),
        },
        login_options_data: if options.is_empty() {
            None
        } else {
            Some(LoginOptionsData {
                login_options_list: options.into_iter().map(|o| (o.id.clone(), o)).collect(),
                login_options_md5: String::new(),
            })
        },
    }
}

#[test]
fn mfa_type_from_id() {
    assert_eq!(MfaType::from_id("CPSC_SP_URL"), MfaType::IdentityProvider);
    assert_eq!(MfaType::from_id("other"), MfaType::PasswordInput);
    assert_eq!(MfaType::default(), MfaType::PasswordInput);
}

#[test]
fn prompt_with_colon_adds_one_only_when_missing() {
    assert_eq!(PromptInfo::new("", "Password").prompt_with_colon(), "Password: ");
    assert_eq!(PromptInfo::new("", "  Password  ").prompt_with_colon(), "Password: ");
    assert_eq!(PromptInfo::new("", "Password: ").prompt_with_colon(), "Password: ");
    assert_eq!(PromptInfo::new("", " Code:\n").prompt_with_colon(), " Code:\n");
    let p = PromptInfo::new("Header", "x");
    assert_eq!(p.header, "Header");
    assert!(p.default_entry.is_none());
}

#[test]
fn algorithm_labels() {
    assert_eq!(EncryptionAlgorithm::default().label(), "AES-CBC");
    assert_eq!(EncryptionAlgorithm::Esp3Des.label(), "3DES");
    assert_eq!(AuthenticationAlgorithm::default().label(), "HMAC-SHA256");
    assert_eq!(AuthenticationAlgorithm::HmacSha256v2.label(), "HMAC-SHA256V2");
}

#[test]
fn only_get_status_is_polling() {
    assert!(TunnelServiceRequest::GetStatus.is_polling());
    assert!(!TunnelServiceRequest::Disconnect.is_polling());
    assert!(!TunnelServiceRequest::Rekey.is_polling());
}

#[test]
fn login_option_kinds() {
    let cert = option("c", "Cert", 1, vec![factor("certificate", None)]);
    assert!(cert.is_certificate());
    assert!(!cert.is_multi_factor());
    let mixed = option("m", "Mixed", 1, vec![factor("certificate", None), factor("password", None)]);
    assert!(mixed.is_certificate() && mixed.is_multi_factor());
    let ma = LoginOption::mobile_access("Mobile Access");
    assert!(ma.is_mobile_access());
    assert_eq!(ma.id, LoginOption::MOBILE_ACCESS_ID);
    assert_eq!(ma.factors[0].1.factor_type, "mobile_access");
    let u = LoginOption::unspecified("Username and password");
    assert_eq!(u.id, "vpn_Username_Password");
    assert_eq!(u.show_realm, 1);
    assert_eq!(u.factors[0].0, "1");
    assert!(!u.is_mobile_access());
}

#[test]
fn login_prompts_follow_the_factor_labels() {
    let info = gateway(vec![option(
        "vpn_Otp",
        "OTP",
        1,
        vec![
            factor("password", Some(vec![("header", "Company login"), ("password", "Password")])),
            factor("otp", Some(vec![("password", "One-time code")])),
            factor("certificate", None),
        ],
    )]);
    let prompts = info.get_login_prompts("vpn_Otp");
    assert_eq!(prompts.len(), 2);
    assert_eq!(prompts[0].header, "Company login");
    assert_eq!(prompts[0].prompt, "Password: ");
    assert_eq!(prompts[1].header, "");
    assert_eq!(prompts[1].prompt, "One-time code: ");
    assert!(info.get_login_prompts("missing").is_empty());
    assert!(info.get_login_option("vpn_Otp").is_some());
    assert!(info.is_multi_factor_login_type("missing"));
    assert!(info.is_certificate_login_type("missing"));
    assert!(info.is_multi_factor_login_type("vpn_Otp"));
    assert!(info.is_certificate_login_type("vpn_Otp"));
}

#[test]
fn login_option_rows_and_table() {
    let mut info = gateway(vec![
        option("vpn_Otp", "OTP", 1, vec![factor("password", None), factor("otp", None)]),
        option("hidden", "Hidden", 0, vec![factor("password", None)]),
    ]);
    info.connectivity_info.internal_ca_fingerprint = vec![
        ("1".to_owned(), "obf-1".to_owned()),
        ("2".to_owned(), "obf-2".to_owned()),
        ("3".to_owned(), "garbage".to_owned()),
    ];
    let deobfuscate = |fp: &String| match fp.as_str() {
        "obf-1" => Some(b"AB:CD".to_vec()),
        "obf-2" => Some(vec![0x41, 0xff]),
        _ => None,
    };
    let rows = info.login_option_rows("vpn.example.com", deobfuscate, "Username and password");
    let keys: Vec<&str> = rows.iter().map(|(k, _)| k.as_str()).collect();
    assert_eq!(
        keys,
        vec![
            "login-options-server-address",
            "login-options-server-ip",
            "login-options-client-enabled",
            "login-options-supported-protocols",
            "login-options-preferred-protocol",
            "login-options-tcpt-port",
            "login-options-natt-port",
            "login-options-internal-ca-fingerprint",
            "login-options-internal-ca-fingerprint",
            "login-options-internal-ca-fingerprint",
            "[OTP]",
        ]
    );
    assert_eq!(rows[1].1, "192.0.2.10");
    assert_eq!(rows[2].1, "true");
    assert_eq!(rows[3].1, "IPSec, SSL");
    assert_eq!(rows[5].1, "443");
    assert_eq!(rows[6].1, "4500");
    assert_eq!(rows[7].1, "AB:CD");
    assert_eq!(rows[8].1, "A\u{FFFD}");
    assert_eq!(rows[9].1, "");
    assert_eq!(rows[10].1, "vpn_Otp (password, otp)");
    assert!(is_literal_label("[OTP]"));
    assert!(!is_literal_label("login-options-tcpt-port"));

    let empty = gateway(Vec::new());
    let rows = empty.login_option_rows("gw", |_: &String| None, "Username and password");
    assert_eq!(rows.len(), 8);
    assert_eq!(rows[7].0, "[Username and password]");
    assert_eq!(rows[7].1, "vpn_Username_Password (password)");

    let rows = vec![("a".to_owned(), "1".to_owned()), ("long label".to_owned(), "2".to_owned())];
    assert_eq!(format_aligned(&rows), "         a: 1\nlong label: 2");
    assert_eq!(format_aligned(&[]), "");
}

use snxcore::model::params::TransportType;
use snxcore::model::{AuthenticatedSession, EspState, IPsecSession, MfaChallenge, SessionState, TunnelSession};

fn ipsec(netmask: u32) -> IPsecSession {
    IPsecSession {
        initiator_spi: 1,
        responder_spi: 2,
        lifetime: 3_600_000_000_000,
        address: 0x0a0a0a05,
        netmask,
        dns: vec![0x0a000001],
        domains: vec!["corp.example".to_owned()],
        esp_in: EspState { spi: 7, enc_algorithm: EncryptionAlgorithm::EspAesCbc, auth_algorithm: AuthenticationAlgorithm::HmacSha256 },
        esp_out: EspState { spi: 8, enc_algorithm: EncryptionAlgorithm::Esp3Des, auth_algorithm: AuthenticationAlgorithm::HmacSha96 },
        transport_type: TransportType::Udp,
        address_lifetime: 0,
        ike_lifetime: 28_800_000_000_000,
        ike_timestamp: 5,
    }
}

#[test]
fn ipsec_address_prefix_from_netmask() {
    assert_eq!(ipsec(0xffff_ff00).ipv4net_address(), (0x0a0a0a05, 24));
    assert_eq!(ipsec(0xffff_ffff).ipv4net_address(), (0x0a0a0a05, 32));
    assert_eq!(ipsec(0).ipv4net_address(), (0x0a0a0a05, 0));
    assert_eq!(ipsec(0xff00_ff00).ipv4net_address(), (0x0a0a0a05, 32));
    let ike = ipsec(0).to_ike_state();
    assert_eq!(ike.lifetime, 28_800_000_000_000);
    assert_eq!(ike.timestamp, 5);
    assert_eq!(ike.esp_out.spi, 8);
}

#[test]
fn session_accessors() {
    let empty = TunnelSession::empty();
    assert!(matches!(empty.state, SessionState::NoState));
    assert!(empty.ssl_session_key().is_none());
    let ssl = TunnelSession {
        session_id: "1".to_owned(),
        state: SessionState::Authenticated(AuthenticatedSession::SslSessionKey("key".to_owned())),
        username: None,
    };
    assert_eq!(ssl.ssl_session_key(), Some("key"));
    assert!(ssl.ipsec_session().is_none());
    let ike = TunnelSession {
        session_id: "2".to_owned(),
        state: SessionState::Authenticated(AuthenticatedSession::IPsecSession(ipsec(0xffff_ff00))),
        username: Some("u".to_owned()),
    };
    assert_eq!(ike.ipsec_session().unwrap().esp_in.spi, 7);
    let pending = TunnelSession {
        session_id: "3".to_owned(),
        state: SessionState::PendingChallenge(MfaChallenge { mfa_type: MfaType::PasswordInput, prompt: "p".to_owned() }),
        username: None,
    };
    assert_eq!(pending.pending_challenge().unwrap().prompt, "p");
    assert!(ike.pending_challenge().is_none());
}

#[test]
fn prompt_with_colon_twice_is_once() {
    for p in ["Password", "  Password  ", "Code:", " Code : ", "", "  "] {
        let once = PromptInfo::new("", p).prompt_with_colon();
        let twice = PromptInfo::new("", &once).prompt_with_colon();
        assert_eq!(once, twice);
        assert!(once.trim_end().ends_with(':'));
    }
}

fn response(data: ResponseData) -> CccServerResponseData {
    CccServerResponseData {
        header: ResponseHeader { id: Some(1), response_type: "UserPass".to_owned(), session_id: String::new(), return_code: 600 },
        data,
    }
}

#[test]
fn empty_generic_response_is_a_failed_request() {
    assert_eq!(
        response(ResponseData::Generic(GenericValue::Text(String::new()))).into_data().unwrap_err(),
        RequestFailed { return_code: 600 }
    );
    assert!(matches!(
        response(ResponseData::Generic(GenericValue::Text("x".to_owned()))).into_data(),
        Ok(ResponseData::Generic(GenericValue::Text(t))) if t == "x"
    ));
    assert!(matches!(
        response(ResponseData::Generic(GenericValue::Other)).into_data(),
        Ok(ResponseData::Generic(GenericValue::Other))
    ));
}
