use std::sync::Arc;

use snxcore::model::params::{IkeVersion, TunnelParams, TunnelType};
use snxcore::model::{AuthenticationAlgorithm, EncryptionAlgorithm};
use snxcore::platform::linux::{
    auth_alg_as_xfrm_name, default_ipv4, default_route_source, route_address, enc_alg_as_xfrm_name, first_ipv4_address, DefaultRouteSource, LinuxPlatformAccess, NetworkManagerState,
    RouteRecord,
};
use snxcore::platform::macos::{default_route_indices, MacosResolverConfigurator, RT_MSGHDR_LEN};
use snxcore::platform::windows::{nrpt_rule, to_wide_nul, wide_csv, WindowsResolverConfigurator};
use snxcore::platform::{PlatformFeatures, ResolverConfig, SearchDomain, UdpEncapType};

fn params(search: &[&str], ignore: &[&str], dns: &[u32], ignore_dns: &[u32], routing: bool, no_split: bool) -> TunnelParams {
    TunnelParams {
        profile_id: 1,
        profile_name: "p".to_owned(),
        config_file: String::new(),
        server_name: String::new(),
        login_type: String::new(),
        user_name: String::new(),
        tunnel_type: TunnelType::IPsec,
        ike_version: IkeVersion::AutoDetect,
        ike_persist: false,
        search_domains: search.iter().map(|s| s.to_string()).collect(),
        ignore_search_domains: ignore.iter().map(|s| s.to_string()).collect(),
        dns_servers: dns.to_vec(),
        ignore_dns_servers: ignore_dns.to_vec(),
        set_routing_domains: routing,
        no_split_dns: no_split,
        no_routing: false,
        default_route: false,
        add_routes: Vec::new(),
        ignore_routes: Vec::new(),
        disable_ipv6: false,
    }
}

fn features(split: bool) -> PlatformFeatures {
    PlatformFeatures { ipsec_native: false, ipsec_keepalive: true, split_dns: split }
}

fn texts(ds: &[SearchDomain]) -> Vec<String> {
    ds.iter().map(|d| d.to_text()).collect()
}

#[test]
fn resolver_config_merges_acquired_and_manual_settings() {
    let p = Arc::new(params(&["~corp.example", "plain.example", "Skip.Example"], &["skip.example"], &[0x0a000002], &[0x0a000001], true, false));
    let config = ResolverConfig::builder(p, features(true))
        .search_domains(&[" .tunnel.example. ".to_owned(), " .. ".to_owned(), "SKIP.example".to_owned()])
        .dns_servers(&[0x0a000001, 0x0a000003])
        .build();
    assert!(config.split_dns);
    assert_eq!(texts(&config.search_domains), vec!["~tunnel.example", "~corp.example", "plain.example"]);
    assert_eq!(config.dns_servers, vec![0x0a000003, 0x0a000002]);
}

#[test]
fn no_routing_domains_without_split_dns() {
    let p = Arc::new(params(&["~corp.example"], &[], &[], &[], true, false));
    let config = ResolverConfig::builder(p, features(false)).search_domains(&["a.example".to_owned()]).build();
    assert!(!config.split_dns);
    assert_eq!(texts(&config.search_domains), vec!["a.example", "corp.example"]);

    let p = Arc::new(params(&[], &[], &[], &[], false, true));
    let config = ResolverConfig::builder(p, features(true)).search_domains(&["a.example".to_owned()]).build();
    assert!(!config.split_dns);
    assert_eq!(texts(&config.search_domains), vec!["a.example"]);
}

#[test]
fn search_domain_text() {
    assert_eq!(SearchDomain::new("x.example", true).to_text(), "~x.example");
    assert_eq!(SearchDomain::new("x.example", false).to_text(), "x.example");
    assert_eq!(UdpEncapType::EspInUdp.option_value(), 2);
}

#[test]
fn network_manager_states() {
    assert_eq!(NetworkManagerState::from_code(70), NetworkManagerState::ConnectedGlobal);
    assert!(NetworkManagerState::from_code(70).is_online());
    assert_eq!(NetworkManagerState::from_code(60), NetworkManagerState::ConnectedSite);
    assert!(!NetworkManagerState::from_code(60).is_online());
    assert_eq!(NetworkManagerState::from_code(10), NetworkManagerState::Asleep);
    assert_eq!(NetworkManagerState::from_code(0), NetworkManagerState::Unknown);
    assert_eq!(NetworkManagerState::from_code(71), NetworkManagerState::Unknown);
    assert!(LinuxPlatformAccess::features(true).ipsec_native);
    assert!(!LinuxPlatformAccess::features(false).ipsec_native);
}

#[test]
fn default_route_selection() {
    let route = RouteRecord {
        scope: 0,
        kind: 1,
        family: 2,
        destination_prefix_length: 0,
        has_gateway: true,
        pref_source: Some(0xc0a80105),
        oif: Some(3),
    };
    assert_eq!(default_route_source(&route), Some(DefaultRouteSource::Address(0xc0a80105)));
    let r2 = RouteRecord { pref_source: None, ..route };
    assert_eq!(default_route_source(&r2), Some(DefaultRouteSource::Interface(3)));
    let r3 = RouteRecord { destination_prefix_length: 24, ..route };
    assert_eq!(default_route_source(&r3), None);
    let r4 = RouteRecord { has_gateway: false, ..route };
    assert_eq!(default_route_source(&r4), None);
    let r5 = RouteRecord { pref_source: None, oif: None, ..route };
    assert_eq!(default_route_source(&r5), None);
    assert_eq!(first_ipv4_address(&[None, Some(7), Some(8)]), Some(7));
    assert_eq!(first_ipv4_address(&[None]), None);
}

#[test]
fn macos_dns_store_key() {
    let c = MacosResolverConfigurator::new_for_device("utun5");
    assert_eq!(c.store_key(), "State:/Network/Service/snx-rs-utun5/DNS");
}

#[test]
fn wide_strings() {
    assert_eq!(to_wide_nul("ab"), vec![0x61, 0x62, 0]);
    assert_eq!(to_wide_nul("\u{1F600}"), vec![0xD83D, 0xDE00, 0]);
    assert_eq!(to_wide_nul("é"), "é".encode_utf16().chain(std::iter::once(0)).collect::<Vec<u16>>());
    assert_eq!(wide_csv(&["a".to_owned(), "b".to_owned()]), vec![0x61, 0x2c, 0x62, 0]);
    assert_eq!(wide_csv(&[]), vec![0]);
}

#[test]
fn nrpt_rule_names_and_servers() {
    let r = nrpt_rule(&["corp.example".to_owned(), ".lab.example.".to_owned()], &["10.0.0.1".to_owned(), "10.0.0.2".to_owned()]);
    let (names, servers) = r.unwrap();
    assert_eq!(names, vec![".corp.example", ".lab.example"]);
    assert_eq!(servers, "10.0.0.1;10.0.0.2");
    assert!(nrpt_rule(&[], &["10.0.0.1".to_owned()]).is_none());
    assert!(nrpt_rule(&["a".to_owned()], &[]).is_none());
}

#[test]
fn windows_dns_settings() {
    let config = ResolverConfig {
        split_dns: true,
        search_domains: vec![SearchDomain::new("corp.example", true), SearchDomain::new("plain.example", false)],
        dns_servers: vec![0x0a000001],
    };
    let s = WindowsResolverConfigurator::new("tun0").settings(&config);
    let wide = |t: &str| t.encode_utf16().chain(std::iter::once(0)).collect::<Vec<u16>>();
    assert_eq!(s.name_servers, wide("10.0.0.1"));
    assert_eq!(s.search_list, wide("plain.example"));
    let (names, servers) = s.nrpt_rule.unwrap();
    assert_eq!(names, vec![".corp.example"]);
    assert_eq!(servers, "10.0.0.1");
}

#[test]
fn xfrm_algorithm_names() {
    assert_eq!(auth_alg_as_xfrm_name(AuthenticationAlgorithm::HmacSha96), "hmac(sha1)");
    assert_eq!(auth_alg_as_xfrm_name(AuthenticationAlgorithm::HmacSha160), "hmac(sha1)");
    assert_eq!(auth_alg_as_xfrm_name(AuthenticationAlgorithm::HmacSha256), "hmac(sha256)");
    assert_eq!(auth_alg_as_xfrm_name(AuthenticationAlgorithm::HmacSha256v2), "hmac(sha256)");
    assert_eq!(enc_alg_as_xfrm_name(EncryptionAlgorithm::EspAesCbc), "cbc(aes)");
    assert_eq!(enc_alg_as_xfrm_name(EncryptionAlgorithm::Esp3Des), "cbc(des3_ede)");
}

fn sockaddr_in(addr: [u8; 4]) -> Vec<u8> {
    let mut sa = vec![16u8, 2, 0, 0];
    sa.extend_from_slice(&addr);
    sa.extend_from_slice(&[0u8; 8]);
    sa
}

fn route_msg(index: u16, flags: i32, dst: [u8; 4], gateway: [u8; 4]) -> Vec<u8> {
    let mut body = sockaddr_in(dst);
    body.extend(sockaddr_in(gateway));
    let msglen = (RT_MSGHDR_LEN + body.len()) as u16;
    let mut hdr = vec![0u8; RT_MSGHDR_LEN];
    hdr[0..2].copy_from_slice(&msglen.to_le_bytes());
    hdr[2] = 5;
    hdr[3] = 4;
    hdr[4..6].copy_from_slice(&index.to_le_bytes());
    hdr[8..12].copy_from_slice(&flags.to_le_bytes());
    hdr[12..16].copy_from_slice(&3i32.to_le_bytes());
    hdr.extend(body);
    hdr
}

#[test]
fn default_routes_in_a_table_dump() {
    let mut buf = route_msg(5, 0x3, [0, 0, 0, 0], [192, 168, 1, 1]);
    buf.extend(route_msg(7, 0x3, [10, 0, 0, 0], [192, 168, 1, 1]));
    buf.extend(route_msg(8, 0x1, [0, 0, 0, 0], [192, 168, 1, 1]));
    buf.extend(route_msg(9, 0x803, [0, 0, 0, 0], [10, 1, 1, 1]));
    assert_eq!(default_route_indices(&buf), vec![5, 9]);
}

#[test]
fn default_routes_walk_stops_at_a_bad_length() {
    let mut buf = route_msg(5, 0x3, [0, 0, 0, 0], [192, 168, 1, 1]);
    let mut bad = route_msg(6, 0x3, [0, 0, 0, 0], [192, 168, 1, 1]);
    bad[0..2].copy_from_slice(&10u16.to_le_bytes());
    buf.extend(bad);
    buf.extend(route_msg(9, 0x3, [0, 0, 0, 0], [10, 1, 1, 1]));
    assert_eq!(default_route_indices(&buf), vec![5]);
    assert!(default_route_indices(&[0u8; 10]).is_empty());
}

fn default_route(pref_source: Option<u32>, oif: Option<u32>) -> RouteRecord {
    RouteRecord { scope: 0, kind: 1, family: 2, destination_prefix_length: 0, has_gateway: true, pref_source, oif }
}

#[test]
fn default_ipv4_search() {
    let other = RouteRecord { destination_prefix_length: 24, ..default_route(Some(1), None) };
    let via_if = default_route(None, Some(3));
    let via_src = default_route(Some(0x0a00_0005), Some(4));
    let table = vec![(3u32, vec![None, Some(0xc0a8_0102)]), (5u32, vec![])];
    assert_eq!(route_address(&via_if, &[None, Some(7)]), Some(7));
    assert_eq!(route_address(&other, &[Some(7)]), None);
    assert_eq!(default_ipv4(&[other, via_if, via_src], &table), Some(0xc0a8_0102));
    assert_eq!(default_ipv4(&[default_route(None, Some(5)), via_src], &table), Some(0x0a00_0005));
    assert_eq!(default_ipv4(&[other, default_route(None, Some(5))], &table), None);
}
