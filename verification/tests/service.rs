use snxcore::model::params::{IkeVersion, TransportType, TunnelType};
use snxcore::model::{AuthenticationAlgorithm, EncryptionAlgorithm, EspState, LiveStats, MfaChallenge, MfaType};
use snxcore::platform::SearchDomain;
use snxcore::service::{
    with_live, CheckPointConnectorFactory, IkeState, ConnectionInfo, ConnectionStatus, ConnectorKind, EventFollowUp, InfoTexts,
    ServiceState, TunnelEvent,
};

fn info(connected: bool, tunnel_type: TunnelType) -> ConnectionInfo {
    ConnectionInfo {
        since: if connected { Some(1_700_000_000) } else { None },
        server_name: "vpn.example.com".to_owned(),
        username: "user".to_owned(),
        login_type: "vpn_Otp".to_owned(),
        tunnel_type,
        transport_type: TransportType::Udp,
        ip_address: (0x0a0a0a05, 24),
        dns_servers: vec![0x0a000001, 0x0a000002],
        search_domains: vec![SearchDomain::new("corp.example", true), SearchDomain::new("plain.example", false)],
        interface_name: "snx-tun".to_owned(),
        dns_configured: true,
        routing_configured: false,
        default_route: false,
        profile_id: 9,
        profile_name: "Work".to_owned(),
        live: LiveStats { last_rtt_ms: Some(12), packets_rx: 5, packets_tx: 6, ..LiveStats::default() },
        ike_state: None,
    }
}

fn texts() -> InfoTexts {
    InfoTexts {
        since: "2023-11-14 22:13:20".to_owned(),
        tunnel_type: "IPSec".to_owned(),
        transport_type: "UDP".to_owned(),
        bytes_rx: "1.00 KiB".to_owned(),
        bytes_tx: "2 B".to_owned(),
        bps_rx: "3 B".to_owned(),
        bps_tx: "4 B".to_owned(),
    }
}

#[test]
fn connect_is_refused_while_busy() {
    let mut s = ServiceState::new();
    assert!(!s.is_connected());
    assert!(s.begin_connect().is_ok());
    assert!(matches!(s.status(), ConnectionStatus::Connecting));
    assert_eq!(s.begin_connect(), Err("Another connection is already in progress!"));
    assert!(matches!(s.status(), ConnectionStatus::Connecting));
}

#[test]
fn pending_challenge_waits_for_the_user() {
    let mut s = ServiceState::new();
    s.begin_connect().unwrap();
    let challenge = MfaChallenge { mfa_type: MfaType::UserNameInput, prompt: "username".to_owned() };
    assert!(!s.session_ready(Some(challenge)));
    assert!(matches!(s.status(), ConnectionStatus::Mfa(c) if c.prompt == "username"));
    assert!(s.session_ready(None));
    assert!(matches!(s.status(), ConnectionStatus::Connecting));
}

#[test]
fn tunnel_events_drive_the_status() {
    let mut s = ServiceState::new();
    assert_eq!(s.on_tunnel_event(TunnelEvent::Rtt(5), false), EventFollowUp::Nothing);
    assert!(matches!(s.status(), ConnectionStatus::Disconnected));

    let e = TunnelEvent::Connected(Box::new(info(true, TunnelType::IPsec)));
    assert_eq!(s.on_tunnel_event(e, false), EventFollowUp::StartStatsPoller);
    assert_eq!(s.on_tunnel_event(TunnelEvent::Rtt(33), false), EventFollowUp::Nothing);
    assert_eq!(s.on_tunnel_event(TunnelEvent::Rekeyed(0x0a0a0a09, 16), false), EventFollowUp::Nothing);
    match s.status() {
        ConnectionStatus::Connected(i) => {
            assert_eq!(i.live.last_rtt_ms, Some(33));
            assert_eq!(i.ip_address, (0x0a0a0a09, 16));
            assert_eq!(i.server_name, "vpn.example.com");
        }
        _ => panic!("expected connected"),
    }
    assert_eq!(s.on_tunnel_event(TunnelEvent::RekeyCheck, true), EventFollowUp::Reset);
    assert!(matches!(s.status(), ConnectionStatus::Disconnected));
    s.begin_connect().unwrap();
    assert_eq!(s.on_tunnel_event(TunnelEvent::Disconnected, false), EventFollowUp::Reset);
    assert!(!s.is_connected());
}

#[test]
fn polled_statistics_keep_the_round_trip_time() {
    let polled = LiveStats { last_rtt_ms: None, bytes_rx: 100, ..LiveStats::default() };
    let s = with_live(ConnectionStatus::connected(info(true, TunnelType::IPsec)), Some(polled));
    match s {
        ConnectionStatus::Connected(i) => {
            assert_eq!(i.live.bytes_rx, 100);
            assert_eq!(i.live.last_rtt_ms, Some(12));
        }
        _ => panic!("expected connected"),
    }
    assert!(matches!(with_live(ConnectionStatus::Connecting, Some(polled)), ConnectionStatus::Connecting));
}

#[test]
fn connection_report_rows() {
    let rows = info(true, TunnelType::IPsec).to_values(true, &texts());
    let get = |k: &str| rows.iter().find(|(key, _)| *key == k).map(|(_, v)| v.clone()).unwrap();
    assert_eq!(rows.len(), 21);
    assert_eq!(rows[0].0, "info-connected-since");
    assert_eq!(get("info-transport-type"), "UDP");
    assert_eq!(get("info-ip-address"), "10.10.10.5/24");
    assert_eq!(get("info-dns-servers"), "[10.0.0.1, 10.0.0.2]");
    assert_eq!(get("info-search-domains"), "[~corp.example, plain.example]");
    assert_eq!(get("info-dns-configured"), "true");
    assert_eq!(get("info-routing-configured"), "false");
    assert_eq!(get("info-rtt"), "12 ms");
    assert_eq!(get("info-rate-received"), "3 B/s");
    assert_eq!(get("info-packets-sent"), "6");

    let rows = info(true, TunnelType::SSL).to_values(false, &texts());
    assert_eq!(rows.len(), 13);
    assert!(rows.iter().all(|(k, _)| *k != "info-transport-type"));

    let rows = info(false, TunnelType::IPsec).to_values(true, &texts());
    assert!(rows.iter().all(|(_, v)| v.is_empty()));

    let mut no_rtt = info(true, TunnelType::IPsec);
    no_rtt.live.last_rtt_ms = None;
    let rows = no_rtt.to_values(true, &texts());
    assert!(rows.iter().any(|(k, v)| *k == "info-rtt" && v == "—"));
}

#[test]
fn connector_choice() {
    let f = CheckPointConnectorFactory::new();
    assert!(f.needs_gateway_preference(TunnelType::IPsec, "vpn", IkeVersion::AutoDetect));
    assert!(!f.needs_gateway_preference(TunnelType::IPsec, "ma", IkeVersion::AutoDetect));
    assert!(!f.needs_gateway_preference(TunnelType::IPsec, "vpn", IkeVersion::V1));
    assert_eq!(f.connector_kind(TunnelType::IPsec, "vpn", IkeVersion::AutoDetect, true), ConnectorKind::Ikev2);
    assert_eq!(f.connector_kind(TunnelType::IPsec, "vpn", IkeVersion::AutoDetect, false), ConnectorKind::Ikev1);
    assert_eq!(f.connector_kind(TunnelType::IPsec, "vpn", IkeVersion::V2, false), ConnectorKind::Ikev2);
    assert_eq!(f.connector_kind(TunnelType::IPsec, "ma", IkeVersion::V2, true), ConnectorKind::Ssl);
    assert_eq!(f.connector_kind(TunnelType::SSL, "vpn", IkeVersion::V2, true), ConnectorKind::Ssl);
}

#[test]
fn ike_report_rows() {
    let s = IkeState {
        initiator_spi: 0x1234,
        responder_spi: u64::MAX,
        lifetime: 28_800_000_000_123,
        timestamp: 0,
        esp_in: EspState { spi: 0xab, enc_algorithm: EncryptionAlgorithm::EspAesCbc, auth_algorithm: AuthenticationAlgorithm::HmacSha256 },
        esp_out: EspState { spi: 0xdeadbeef, enc_algorithm: EncryptionAlgorithm::Esp3Des, auth_algorithm: AuthenticationAlgorithm::HmacSha96 },
    };
    let rows = s.to_values("t0", "t1");
    let values: Vec<&str> = rows.iter().map(|(_, v)| v.as_str()).collect();
    assert_eq!(
        values,
        vec![
            format!("{:016x}", 0x1234u64).as_str(),
            "ffffffffffffffff",
            "28800",
            "t0",
            "t1",
            "000000ab",
            "deadbeef",
            "AES-CBC",
            "HMAC-SHA256",
            "3DES",
            "HMAC-SHA96",
        ]
    );
    assert_eq!(rows[0].0, "info-ike-initiator-spi");
}

#[test]
fn report_without_stats() {
    let i = info(true, TunnelType::IPsec);
    let j = i.without_stats();
    assert_eq!(j.live, LiveStats::default());
    assert_eq!(j.server_name, i.server_name);
    assert_eq!(j.dns_servers, i.dns_servers);
    assert_eq!(j.search_domains.len(), 2);
    assert_eq!(j.search_domains[0].to_text(), "~corp.example");
    assert_eq!(j.since, i.since);
}

#[test]
fn status_message_keys() {
    assert_eq!(ConnectionStatus::Disconnected.message_key(), "connection-status-disconnected");
    assert_eq!(ConnectionStatus::Connecting.message_key(), "connection-status-connecting");
    assert_eq!(
        ConnectionStatus::connected(info(true, TunnelType::SSL)).message_key(),
        "connection-status-connected-since"
    );
    let challenge = MfaChallenge { mfa_type: MfaType::PasswordInput, prompt: "code".to_owned() };
    assert_eq!(ConnectionStatus::mfa(challenge).message_key(), "connection-status-mfa-pending");
}
