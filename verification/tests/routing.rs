use snxcore::model::params::{IkeVersion, TunnelParams, TunnelType};
use snxcore::model::proto::string_map_insert;
use snxcore::platform::linux::{device_sysctls, linux_routing_plan, LinuxRoutingStep, ServicePort};
use snxcore::platform::macos::{
    build_route_message, delete_request, host_exclusion, macos_routing_plan, MacosRoutingStep, NoOriginalGateway, RTA_DST,
    RTA_NETMASK, RTM_ADD, RTM_VERSION, RT_MSGHDR_LEN,
};
use snxcore::platform::windows::{WindowsRoutingConfigurator, WindowsRoutingStep};
use snxcore::platform::RoutingConfig;
use snxcore::tunnel::ssl_routing_config;

const GW: u32 = 0xc0a8_0101;

fn routing_params(no_routing: bool, default_route: bool, add: &[(u32, u32)], ignore: &[(u32, u32)]) -> TunnelParams {
    TunnelParams {
        profile_id: 1,
        profile_name: "p".to_owned(),
        config_file: String::new(),
        server_name: String::new(),
        login_type: String::new(),
        user_name: String::new(),
        tunnel_type: TunnelType::SSL,
        ike_version: IkeVersion::AutoDetect,
        ike_persist: false,
        search_domains: Vec::new(),
        ignore_search_domains: Vec::new(),
        dns_servers: Vec::new(),
        ignore_dns_servers: Vec::new(),
        set_routing_domains: false,
        no_split_dns: false,
        no_routing,
        default_route,
        add_routes: add.to_vec(),
        ignore_routes: ignore.to_vec(),
        disable_ipv6: true,
    }
}

#[test]
fn linux_full_routing_ipsec() {
    let plan = linux_routing_plan(TunnelType::IPsec, &RoutingConfig::Full { destination: GW, disable_ipv6: true });
    assert_eq!(
        plan,
        vec![
            LinuxRoutingStep::AddExclusionRule(GW),
            LinuxRoutingStep::AddDefaultRoute(true),
            LinuxRoutingStep::AddRoute(GW, 32),
            LinuxRoutingStep::AddKeepaliveRules(GW),
        ]
    );
}

#[test]
fn linux_full_routing_ssl_has_no_keepalive_rules() {
    let plan = linux_routing_plan(TunnelType::SSL, &RoutingConfig::Full { destination: GW, disable_ipv6: false });
    assert_eq!(plan, vec![LinuxRoutingStep::AddExclusionRule(GW), LinuxRoutingStep::AddDefaultRoute(false)]);
}

#[test]
fn linux_split_routing_adds_each_route_once() {
    let routes = vec![(0x0a00_0000, 8), (0xac10_0000, 12), (0x0a00_0000, 8), (0xc0a8_0000, 16)];
    let plan = linux_routing_plan(TunnelType::IPsec, &RoutingConfig::Split { destination: GW, routes });
    assert_eq!(
        plan,
        vec![
            LinuxRoutingStep::AddExclusionRule(GW),
            LinuxRoutingStep::AddRoute(0x0a00_0000, 8),
            LinuxRoutingStep::AddRoute(0xac10_0000, 12),
            LinuxRoutingStep::AddRoute(0xc0a8_0000, 16),
            LinuxRoutingStep::AddKeepaliveRules(GW),
        ]
    );
}

#[test]
fn linux_cleanup_removes_both_service_rules() {
    let plan = linux_routing_plan(TunnelType::IPsec, &RoutingConfig::Cleanup { destination: GW, enable_ipv6: true });
    assert_eq!(
        plan,
        vec![
            LinuxRoutingStep::RemoveExclusionRule(GW, true),
            LinuxRoutingStep::RemoveKeepaliveRule(GW, ServicePort::Scv),
            LinuxRoutingStep::RemoveKeepaliveRule(GW, ServicePort::Keepalive),
        ]
    );
    let plan = linux_routing_plan(TunnelType::SSL, &RoutingConfig::Cleanup { destination: GW, enable_ipv6: false });
    assert_eq!(plan, vec![LinuxRoutingStep::RemoveExclusionRule(GW, false)]);
}

#[test]
fn windows_plans() {
    let c = WindowsRoutingConfigurator::new("snx-tun");
    assert_eq!(c.device(), "snx-tun");
    assert_eq!(
        c.plan(&RoutingConfig::Full { destination: GW, disable_ipv6: true }),
        vec![
            WindowsRoutingStep::AddHostExclusion(GW),
            WindowsRoutingStep::AddRouteViaTunnel(0, 1),
            WindowsRoutingStep::AddRouteViaTunnel(0x8000_0000, 1),
            WindowsRoutingStep::BlockIpv6,
        ]
    );
    assert_eq!(
        c.plan(&RoutingConfig::Split { destination: GW, routes: vec![(0x0a00_0000, 8), (0x0a00_0000, 8)] }),
        vec![
            WindowsRoutingStep::AddHostExclusion(GW),
            WindowsRoutingStep::AddRouteViaTunnel(0x0a00_0000, 8),
            WindowsRoutingStep::AddRouteViaTunnel(0x0a00_0000, 8),
        ]
    );
    assert_eq!(
        c.plan(&RoutingConfig::Cleanup { destination: GW, enable_ipv6: true }),
        vec![WindowsRoutingStep::ReleaseIpv6Block, WindowsRoutingStep::DeleteAll]
    );
}

#[test]
fn macos_plans() {
    assert_eq!(
        macos_routing_plan(&RoutingConfig::Full { destination: GW, disable_ipv6: true }),
        vec![
            MacosRoutingStep::AddHostExclusion(GW, true),
            MacosRoutingStep::AddRouteViaTunnel(0, 1),
            MacosRoutingStep::AddRouteViaTunnel(0x8000_0000, 1),
            MacosRoutingStep::BlackholeIpv6Half(false),
            MacosRoutingStep::BlackholeIpv6Half(true),
        ]
    );
    assert_eq!(
        macos_routing_plan(&RoutingConfig::Full { destination: GW, disable_ipv6: false }).len(),
        3
    );
    assert_eq!(
        macos_routing_plan(&RoutingConfig::Split { destination: GW, routes: vec![(0x0a00_0000, 8)] }),
        vec![MacosRoutingStep::AddHostExclusion(GW, false), MacosRoutingStep::AddRouteViaTunnel(0x0a00_0000, 8)]
    );
    assert_eq!(
        macos_routing_plan(&RoutingConfig::Cleanup { destination: GW, enable_ipv6: false }),
        vec![MacosRoutingStep::DeleteAll]
    );
}

#[test]
fn macos_host_exclusion_decisions() {
    let inet_gw = [16u8, 2, 0, 0, 192, 168, 1, 1];
    let link_gw = [20u8, 18, 4, 0];
    assert_eq!(host_exclusion(4, 4, Some(&inet_gw), true), Ok(None));
    assert_eq!(host_exclusion(3, 4, Some(&inet_gw), true), Ok(Some(0x807)));
    assert_eq!(host_exclusion(3, 4, Some(&link_gw), false), Ok(Some(0x805)));
    assert_eq!(host_exclusion(3, 4, Some(&[16u8]), false), Ok(None));
    assert_eq!(host_exclusion(3, 4, None, true), Err(NoOriginalGateway));
    assert_eq!(host_exclusion(3, 4, None, false), Ok(None));
}

#[test]
fn ssl_routing_without_routing_uses_added_routes_only() {
    let p = routing_params(true, true, &[(0x0a00_0000, 8)], &[(0x0a00_0000, 8)]);
    match ssl_routing_config(&p, GW, &vec![(0xac10_0000, 12)], (0x0a0a_0a05, 24)) {
        RoutingConfig::Split { destination, routes } => {
            assert_eq!(destination, GW);
            assert_eq!(routes, vec![(0x0a00_0000, 8)]);
        }
        other => panic!("unexpected {other:?}"),
    }
}

#[test]
fn ssl_routing_default_route_is_full() {
    let p = routing_params(false, true, &[], &[]);
    match ssl_routing_config(&p, GW, &vec![], (0x0a0a_0a05, 24)) {
        RoutingConfig::Full { destination, disable_ipv6 } => {
            assert_eq!(destination, GW);
            assert!(disable_ipv6);
        }
        other => panic!("unexpected {other:?}"),
    }
}

#[test]
fn ssl_routing_split_from_ranges() {
    let p = routing_params(false, false, &[(0xc0a8_6400, 24)], &[(0xac10_0000, 12)]);
    let subnets = vec![(0xac10_0000, 12), (0x0a14_0000, 16)];
    match ssl_routing_config(&p, GW, &subnets, (0x0a0a_0a05, 24)) {
        RoutingConfig::Split { destination, routes } => {
            assert_eq!(destination, GW);
            assert_eq!(routes, vec![(0xc0a8_6400, 24), (0x0a14_0000, 16), (0x0a0a_0a00, 24)]);
        }
        other => panic!("unexpected {other:?}"),
    }
    match ssl_routing_config(&p, GW, &subnets, (0x0a0a_0a05, 32)) {
        RoutingConfig::Split { routes, .. } => {
            assert_eq!(routes, vec![(0xc0a8_6400, 24), (0x0a14_0000, 16)]);
        }
        other => panic!("unexpected {other:?}"),
    }
}

#[test]
fn route_message_header_and_payload() {
    let dst = [16u8, 2, 0, 0, 10, 1, 2, 0, 0, 0, 0, 0, 0, 0, 0, 0];
    let mask = [7u8, 2, 0, 0, 255, 255, 255];
    let msg = build_route_message(RTM_ADD, 0x801, 42, &[(RTA_DST, &dst[..]), (RTA_NETMASK, &mask[..])]);
    assert_eq!(msg.len(), RT_MSGHDR_LEN + 16 + 8);
    assert_eq!(u16::from_le_bytes([msg[0], msg[1]]) as usize, msg.len());
    assert_eq!(msg[2], RTM_VERSION);
    assert_eq!(msg[3], RTM_ADD);
    assert_eq!(i32::from_le_bytes(msg[8..12].try_into().unwrap()), 0x801);
    assert_eq!(i32::from_le_bytes(msg[12..16].try_into().unwrap()), RTA_DST | RTA_NETMASK);
    assert_eq!(i32::from_le_bytes(msg[20..24].try_into().unwrap()), 42);
    assert_eq!(&msg[RT_MSGHDR_LEN..RT_MSGHDR_LEN + 16], &dst[..]);
    assert_eq!(&msg[RT_MSGHDR_LEN + 16..RT_MSGHDR_LEN + 23], &mask[..]);
    assert_eq!(msg[RT_MSGHDR_LEN + 23], 0);
    assert!(msg[16..20].iter().chain(&msg[24..RT_MSGHDR_LEN]).all(|b| *b == 0));

    assert_eq!(delete_request(true), (0x801, vec![RTA_DST, RTA_NETMASK]));
    assert_eq!(delete_request(false), (0x805, vec![RTA_DST]));
}

#[test]
fn linux_device_sysctls() {
    let s = device_sysctls("snx-tun", true);
    assert_eq!(
        s,
        vec![
            ("net.ipv4.conf.snx-tun.rp_filter".to_owned(), "2".to_owned()),
            ("net.ipv4.conf.snx-tun.promote_secondaries".to_owned(), "1".to_owned()),
            ("net.ipv4.conf.snx-tun.forwarding".to_owned(), "1".to_owned()),
            ("net.ipv4.conf.snx-tun.disable_policy".to_owned(), "1".to_owned()),
        ]
    );
    let s = device_sysctls("snx-tun", false);
    assert_eq!(s[2].1, "0");
    assert_eq!(s[3].1, "0");
}

#[test]
fn string_map_insert_keeps_key_order() {
    let mut m: Vec<(String, u32)> = Vec::new();
    string_map_insert(&mut m, "b".to_owned(), 1);
    string_map_insert(&mut m, "a".to_owned(), 2);
    string_map_insert(&mut m, "c".to_owned(), 3);
    string_map_insert(&mut m, "b".to_owned(), 4);
    assert_eq!(m, vec![("a".to_owned(), 2), ("b".to_owned(), 4), ("c".to_owned(), 3)]);
}
