//! Linux: the features of the platform, the NetworkManager connectivity
//! state, which routing-table entry gives the host's default IPv4 address,
//! the kernel's names of ESP algorithms, and the routing-policy changes a
//! routing configuration makes.

use vstd::prelude::*;
use crate::platform::{PlatformFeatures, RoutingConfig};
use crate::model::params::TunnelType;
use crate::text::concat3;
use crate::model::{AuthenticationAlgorithm, EncryptionAlgorithm};

verus! {

/// Access to the Linux network stack.
pub struct LinuxPlatformAccess;

impl LinuxPlatformAccess {
    /// What Linux offers: native IPsec when the kernel has XFRM, keepalives
    /// and split DNS always.
    pub fn features(xfrm_available: bool) -> (r: PlatformFeatures)
        ensures
            r == (PlatformFeatures { ipsec_native: xfrm_available, ipsec_keepalive: true, split_dns: true }),
    {
        PlatformFeatures { ipsec_native: xfrm_available, ipsec_keepalive: true, split_dns: true }
    }
}

/// Passwords kept in the desktop's secret service.
pub struct SecretServiceKeychain;

impl SecretServiceKeychain {
    /// The secret service keychain.
    pub fn new() -> (r: Self) {
        SecretServiceKeychain
    }
}

/// Network interfaces managed over netlink.
pub struct LinuxNetworkInterface;

impl LinuxNetworkInterface {
    /// The netlink network interface manager.
    pub fn new() -> (r: Self) {
        LinuxNetworkInterface
    }
}

/// The connectivity NetworkManager reports.
#[derive(Debug, Clone, Copy, PartialEq, Eq, Structural)]
pub enum NetworkManagerState {
    Unknown,
    Asleep,
    Disconnected,
    Disconnecting,
    Connecting,
    ConnectedLocal,
    ConnectedSite,
    ConnectedGlobal,
}

/// The state NetworkManager means by a code of its `State` property.
pub open spec fn nm_state_of(value: u32) -> NetworkManagerState {
    if value == 10 {
        NetworkManagerState::Asleep
    } else if value == 20 {
        NetworkManagerState::Disconnected
    } else if value == 30 {
        NetworkManagerState::Disconnecting
    } else if value == 40 {
        NetworkManagerState::Connecting
    } else if value == 50 {
        NetworkManagerState::ConnectedLocal
    } else if value == 60 {
        NetworkManagerState::ConnectedSite
    } else if value == 70 {
        NetworkManagerState::ConnectedGlobal
    } else {
        NetworkManagerState::Unknown
    }
}

impl NetworkManagerState {
    /// The state for a code of NetworkManager's `State` property; codes it
    /// does not define are `Unknown`.
    pub fn from_code(value: u32) -> (r: Self)
        ensures
            r == nm_state_of(value),
    {
        match value {
            10 => NetworkManagerState::Asleep,
            20 => NetworkManagerState::Disconnected,
            30 => NetworkManagerState::Disconnecting,
            40 => NetworkManagerState::Connecting,
            50 => NetworkManagerState::ConnectedLocal,
            60 => NetworkManagerState::ConnectedSite,
            70 => NetworkManagerState::ConnectedGlobal,
            _ => NetworkManagerState::Unknown,
        }
    }

    /// The host is online only with global connectivity.
    pub fn is_online(self) -> (r: bool)
        ensures
            r <==> self == NetworkManagerState::ConnectedGlobal,
    {
        match self {
            NetworkManagerState::ConnectedGlobal => true,
            _ => false,
        }
    }
}

/// The scope of a route reaching anywhere (`RT_SCOPE_UNIVERSE`).
pub const RT_SCOPE_UNIVERSE: u8 = 0;

/// The type of an ordinary route (`RTN_UNICAST`).
pub const RTN_UNICAST: u8 = 1;

/// The IPv4 address family (`AF_INET`).
pub const AF_INET: u8 = 2;

/// What the default-route search reads from a route of the main table.
#[derive(Debug, Clone, Copy, PartialEq, Eq, Structural)]
pub struct RouteRecord {
    pub scope: u8,
    pub kind: u8,
    pub family: u8,
    pub destination_prefix_length: u8,
    /// Whether the route has a gateway attribute.
    pub has_gateway: bool,
    /// The first preferred source address attribute (big-endian), if any.
    pub pref_source: Option<u32>,
    /// The first output interface attribute, if any.
    pub oif: Option<u32>,
}

/// Where the address of a default route comes from.
#[derive(Debug, Clone, Copy, PartialEq, Eq, Structural)]
pub enum DefaultRouteSource {
    /// The route's preferred source address (big-endian).
    Address(u32),
    /// The first IPv4 address of this interface.
    Interface(u32),
}

/// Whether a route is an IPv4 default route through a gateway.
pub open spec fn is_default_route(r: RouteRecord) -> bool {
    &&& r.scope == RT_SCOPE_UNIVERSE
    &&& r.kind == RTN_UNICAST
    &&& r.family == AF_INET
    &&& r.destination_prefix_length == 0
    &&& r.has_gateway
}

/// Where a route's default address comes from: its preferred source, else
/// its output interface; nothing for a route that is no default route or
/// has neither.
pub open spec fn spec_default_route_source(r: RouteRecord) -> Option<DefaultRouteSource> {
    if !is_default_route(r) {
        None
    } else {
        match r.pref_source {
            Some(a) => Some(DefaultRouteSource::Address(a)),
            None => match r.oif {
                Some(i) => Some(DefaultRouteSource::Interface(i)),
                None => None,
            },
        }
    }
}

/// Decides what a route of the main table says about the host's default
/// IPv4 address.
pub fn default_route_source(r: &RouteRecord) -> (s: Option<DefaultRouteSource>)
    ensures
        s == spec_default_route_source(*r),
{
    if r.scope == RT_SCOPE_UNIVERSE && r.kind == RTN_UNICAST && r.family == AF_INET && r.destination_prefix_length
        == 0 && r.has_gateway {
        match r.pref_source {
            Some(a) => Some(DefaultRouteSource::Address(a)),
            None => match r.oif {
                Some(i) => Some(DefaultRouteSource::Interface(i)),
                None => None,
            },
        }
    } else {
        None
    }
}

/// The first IPv4 address among an interface's address attributes.
pub open spec fn first_ipv4(addrs: Seq<Option<u32>>) -> Option<u32>
    decreases addrs.len(),
{
    if addrs.len() == 0 {
        None
    } else {
        match addrs[0] {
            Some(a) => Some(a),
            None => first_ipv4(addrs.drop_first()),
        }
    }
}

/// Picks the first IPv4 address of an interface; `None` stands for an
/// address that is not IPv4.
pub fn first_ipv4_address(addrs: &[Option<u32>]) -> (r: Option<u32>)
    ensures
        r == first_ipv4(addrs@),
{
    let mut i: usize = 0;
    assert(addrs@.skip(0) == addrs@);
    while i < addrs.len()
        invariant
            i <= addrs@.len(),
            first_ipv4(addrs@) == first_ipv4(addrs@.skip(i as int)),
        decreases addrs@.len() - i,
    {
        assert(addrs@.skip(i as int)[0] == addrs@[i as int]);
        if let Some(a) = addrs[i] {
            return Some(a);
        }
        assert(addrs@.skip(i as int).drop_first() == addrs@.skip(i + 1));
        i = i + 1;
    }
    None
}

/// The kernel's XFRM name of an integrity algorithm.
pub open spec fn xfrm_auth_name(a: AuthenticationAlgorithm) -> Seq<char> {
    match a {
        AuthenticationAlgorithm::HmacSha96 | AuthenticationAlgorithm::HmacSha160 => "hmac(sha1)"@,
        AuthenticationAlgorithm::HmacSha256 | AuthenticationAlgorithm::HmacSha256v2 => "hmac(sha256)"@,
    }
}

/// The kernel's XFRM name of a cipher.
pub open spec fn xfrm_enc_name(e: EncryptionAlgorithm) -> Seq<char> {
    match e {
        EncryptionAlgorithm::EspAesCbc => "cbc(aes)"@,
        EncryptionAlgorithm::Esp3Des => "cbc(des3_ede)"@,
    }
}

/// The name under which an XFRM state is given its integrity algorithm:
/// SHA-1 for both SHA-96 and SHA-160, SHA-256 for both SHA-256 variants.
pub fn auth_alg_as_xfrm_name(a: AuthenticationAlgorithm) -> (r: &'static str)
    ensures
        r@ == xfrm_auth_name(a),
{
    match a {
        AuthenticationAlgorithm::HmacSha96 | AuthenticationAlgorithm::HmacSha160 => "hmac(sha1)",
        AuthenticationAlgorithm::HmacSha256 | AuthenticationAlgorithm::HmacSha256v2 => "hmac(sha256)",
    }
}

/// The name under which an XFRM state is given its cipher.
pub fn enc_alg_as_xfrm_name(e: EncryptionAlgorithm) -> (r: &'static str)
    ensures
        r@ == xfrm_enc_name(e),
{
    match e {
        EncryptionAlgorithm::EspAesCbc => "cbc(aes)",
        EncryptionAlgorithm::Esp3Des => "cbc(des3_ede)",
    }
}

/// The address a route gives for the host, given the IPv4 address
/// attributes of its output interface: its preferred source, else the
/// interface's first IPv4 address; nothing for a route that is no default
/// route, or names neither.
pub open spec fn spec_route_address(r: RouteRecord, interface_addrs: Seq<Option<u32>>) -> Option<u32> {
    match spec_default_route_source(r) {
        Some(DefaultRouteSource::Address(a)) => Some(a),
        Some(DefaultRouteSource::Interface(_)) => first_ipv4(interface_addrs),
        None => None,
    }
}

/// The address route `r` gives for the host (see `spec_route_address`);
/// `interface_addrs` are the address attributes of its output interface.
pub fn route_address(r: &RouteRecord, interface_addrs: &[Option<u32>]) -> (a: Option<u32>)
    ensures
        a == spec_route_address(*r, interface_addrs@),
{
    match default_route_source(r) {
        Some(DefaultRouteSource::Address(a)) => Some(a),
        Some(DefaultRouteSource::Interface(_)) => first_ipv4_address(interface_addrs),
        None => None,
    }
}

/// The address attributes listed for interface `index`: those of its first
/// entry in `table`, none when it has none.
pub open spec fn addresses_of(table: Seq<(u32, Vec<Option<u32>>)>, index: u32) -> Seq<Option<u32>>
    decreases table.len(),
{
    if table.len() == 0 {
        Seq::empty()
    } else if table[0].0 == index {
        table[0].1@
    } else {
        addresses_of(table.drop_first(), index)
    }
}

/// The output interface of a route, for looking up its addresses.
pub open spec fn lookup_index(r: RouteRecord) -> u32 {
    match r.oif {
        Some(i) => i,
        None => 0,
    }
}

/// The host's default address: that of the first route, in the order
/// listed, that gives one.
pub open spec fn spec_default_ipv4(routes: Seq<RouteRecord>, table: Seq<(u32, Vec<Option<u32>>)>) -> Option<u32>
    decreases routes.len(),
{
    if routes.len() == 0 {
        None
    } else {
        match spec_route_address(routes[0], addresses_of(table, lookup_index(routes[0]))) {
            Some(a) => Some(a),
            None => spec_default_ipv4(routes.drop_first(), table),
        }
    }
}

fn find_addresses<'a>(table: &'a [(u32, Vec<Option<u32>>)], index: u32) -> (r: &'a [Option<u32>])
    ensures
        r@ == addresses_of(table@, index),
{
    let mut i: usize = 0;
    assert(table@.skip(0) == table@);
    while i < table.len()
        invariant
            i <= table@.len(),
            addresses_of(table@, index) == addresses_of(table@.skip(i as int), index),
        decreases table@.len() - i,
    {
        assert(table@.skip(i as int)[0] == table@[i as int]);
        if table[i].0 == index {
            return table[i].1.as_slice();
        }
        assert(table@.skip(i as int).drop_first() == table@.skip(i + 1));
        i = i + 1;
    }
    let empty: &[Option<u32>] = &[];
    assert(empty@ =~= Seq::<Option<u32>>::empty());
    empty
}

/// Searches the routes of the main table, in order, for the host's default
/// IPv4 address (see `spec_default_ipv4`); `table` lists the address
/// attributes of the routes' output interfaces.
pub fn default_ipv4(routes: &[RouteRecord], table: &[(u32, Vec<Option<u32>>)]) -> (r: Option<u32>)
    ensures
        r == spec_default_ipv4(routes@, table@),
{
    let mut i: usize = 0;
    assert(routes@.skip(0) == routes@);
    while i < routes.len()
        invariant
            i <= routes@.len(),
            spec_default_ipv4(routes@, table@) == spec_default_ipv4(routes@.skip(i as int), table@),
        decreases routes@.len() - i,
    {
        assert(routes@.skip(i as int)[0] == routes@[i as int]);
        let r = &routes[i];
        let index = match r.oif {
            Some(x) => x,
            None => 0,
        };
        let addrs = find_addresses(table, index);
        if let Some(a) = route_address(r, addrs) {
            return Some(a);
        }
        assert(routes@.skip(i as int).drop_first() == routes@.skip(i + 1));
        i = i + 1;
    }
    None
}

/// One of the gateway's UDP services whose traffic a routing rule steers.
#[derive(Debug, Clone, Copy, PartialEq, Eq, Structural)]
pub enum ServicePort {
    Scv,
    Keepalive,
}

/// A change to the Linux routing policy.
#[derive(Debug, Clone, Copy, PartialEq, Eq, Structural)]
pub enum LinuxRoutingStep {
    /// `ip rule add not to <gateway> table 18000`.
    AddExclusionRule(u32),
    /// The default route of table 18000 through the tunnel; IPv6 is turned
    /// off when the flag is set.
    AddDefaultRoute(bool),
    /// A route of table 18000 through the tunnel: network and prefix length.
    AddRoute(u32, u32),
    /// The rules that send UDP to the gateway's SCV and keepalive ports
    /// through table 18000.
    AddKeepaliveRules(u32),
    /// Removes the exclusion rule; IPv6 is turned back on when the flag is set.
    RemoveExclusionRule(u32, bool),
    /// Removes the rule of one UDP service of the gateway.
    RemoveKeepaliveRule(u32, ServicePort),
}

/// The routes of `s` without repetitions, each where it first occurs.
pub open spec fn distinct_routes(s: Seq<(u32, u32)>) -> Seq<(u32, u32)>
    decreases s.len(),
{
    if s.len() == 0 {
        seq![]
    } else if s.drop_last().contains(s.last()) {
        distinct_routes(s.drop_last())
    } else {
        distinct_routes(s.drop_last()).push(s.last())
    }
}

/// A route step for each network of `s`.
pub open spec fn route_steps(s: Seq<(u32, u32)>) -> Seq<LinuxRoutingStep> {
    s.map_values(|r: (u32, u32)| LinuxRoutingStep::AddRoute(r.0, r.1))
}

/// The changes a configuration makes, in order: the gateway is excluded
/// from table 18000 first; an IPsec tunnel also steers the gateway's SCV
/// and keepalive traffic, and under full routing routes the gateway itself
/// through the tunnel; split routing adds each of its routes once; cleanup
/// removes the rules again.
pub open spec fn linux_routing_plan_spec(t: TunnelType, c: RoutingConfig) -> Seq<LinuxRoutingStep> {
    let ipsec = t == TunnelType::IPsec;
    match c {
        RoutingConfig::Full { destination, disable_ipv6 } => seq![
            LinuxRoutingStep::AddExclusionRule(destination),
            LinuxRoutingStep::AddDefaultRoute(disable_ipv6),
        ] + if ipsec {
            seq![LinuxRoutingStep::AddRoute(destination, 32), LinuxRoutingStep::AddKeepaliveRules(destination)]
        } else {
            seq![]
        },
        RoutingConfig::Split { destination, routes } => seq![LinuxRoutingStep::AddExclusionRule(destination)]
            + route_steps(distinct_routes(routes@)) + if ipsec {
            seq![LinuxRoutingStep::AddKeepaliveRules(destination)]
        } else {
            seq![]
        },
        RoutingConfig::Cleanup { destination, enable_ipv6 } => seq![
            LinuxRoutingStep::RemoveExclusionRule(destination, enable_ipv6),
        ] + if ipsec {
            seq![
                LinuxRoutingStep::RemoveKeepaliveRule(destination, ServicePort::Scv),
                LinuxRoutingStep::RemoveKeepaliveRule(destination, ServicePort::Keepalive),
            ]
        } else {
            seq![]
        },
    }
}

proof fn lemma_distinct_routes(s: Seq<(u32, u32)>)
    ensures
        forall|x: (u32, u32)| distinct_routes(s).contains(x) <==> s.contains(x),
        distinct_routes(s).no_duplicates(),
    decreases s.len(),
{
    if s.len() > 0 {
        let p = s.drop_last();
        lemma_distinct_routes(p);
        assert(s =~= p.push(s.last()));
        assert forall|x: (u32, u32)| s.contains(x) <==> (p.contains(x) || x == s.last()) by {
            if s.contains(x) {
                let k = choose|k: int| 0 <= k < s.len() && s[k] == x;
                if k < p.len() {
                    assert(p[k] == x);
                }
            }
            if p.contains(x) {
                let k = choose|k: int| 0 <= k < p.len() && p[k] == x;
                assert(s[k] == x);
            }
            if x == s.last() {
                assert(s[s.len() - 1] == x);
            }
        }
        if !p.contains(s.last()) {
            let d = distinct_routes(p);
            let e = d.push(s.last());
            assert forall|x: (u32, u32)| e.contains(x) <==> (d.contains(x) || x == s.last()) by {
                if e.contains(x) {
                    let k = choose|k: int| 0 <= k < e.len() && e[k] == x;
                    if k < d.len() {
                        assert(d[k] == x);
                    }
                }
                if d.contains(x) {
                    let k = choose|k: int| 0 <= k < d.len() && d[k] == x;
                    assert(e[k] == x);
                }
                if x == s.last() {
                    assert(e[e.len() - 1] == x);
                }
            }
            assert forall|i: int, j: int| 0 <= i < e.len() && 0 <= j < e.len() && i != j implies e[i] != e[j] by {
                if i < d.len() && j < d.len() {
                } else if i < d.len() {
                    assert(d.contains(e[i]));
                } else {
                    assert(d.contains(e[j]));
                }
            }
        }
    }
}

fn distinct_route_list(routes: &Vec<(u32, u32)>) -> (r: Vec<(u32, u32)>)
    ensures
        r@ == distinct_routes(routes@),
{
    let mut out: Vec<(u32, u32)> = Vec::new();
    let mut i: usize = 0;
    while i < routes.len()
        invariant
            i <= routes@.len(),
            out@ == distinct_routes(routes@.take(i as int)),
        decreases routes@.len() - i,
    {
        let r = routes[i];
        proof {
            lemma_distinct_routes(routes@.take(i as int));
        }
        let mut found = false;
        let mut j: usize = 0;
        while j < out.len()
            invariant
                j <= out@.len(),
                found <==> exists|k: int| 0 <= k < j && out@[k] == r,
            decreases out@.len() - j,
        {
            if out[j].0 == r.0 && out[j].1 == r.1 {
                found = true;
            }
            j = j + 1;
        }
        let ghost t = routes@.take(i + 1);
        assert(t.drop_last() =~= routes@.take(i as int));
        assert(t.last() == r);
        if !found {
            out.push(r);
        }
        i = i + 1;
    }
    assert(routes@.take(routes@.len() as int) =~= routes@);
    out
}

fn push_route_steps(steps: &mut Vec<LinuxRoutingStep>, routes: &Vec<(u32, u32)>)
    ensures
        final(steps)@ == old(steps)@ + route_steps(routes@),
{
    let ghost start = steps@;
    let mut i: usize = 0;
    while i < routes.len()
        invariant
            i <= routes@.len(),
            steps@ == start + route_steps(routes@.take(i as int)),
        decreases routes@.len() - i,
    {
        let r = routes[i];
        steps.push(LinuxRoutingStep::AddRoute(r.0, r.1));
        assert(route_steps(routes@.take(i + 1)) =~= route_steps(routes@.take(i as int)).push(
            LinuxRoutingStep::AddRoute(r.0, r.1),
        ));
        i = i + 1;
    }
    assert(routes@.take(routes@.len() as int) =~= routes@);
}

/// The changes to the routing policy that applying `config` makes, in order;
/// the caller performs them.
pub fn linux_routing_plan(tunnel_type: TunnelType, config: &RoutingConfig) -> (r: Vec<LinuxRoutingStep>)
    ensures
        r@ == linux_routing_plan_spec(tunnel_type, *config),
{
    let ipsec = match tunnel_type {
        TunnelType::IPsec => true,
        TunnelType::SSL => false,
    };
    let mut steps: Vec<LinuxRoutingStep> = Vec::new();
    match config {
        RoutingConfig::Full { destination, disable_ipv6 } => {
            steps.push(LinuxRoutingStep::AddExclusionRule(*destination));
            steps.push(LinuxRoutingStep::AddDefaultRoute(*disable_ipv6));
            if ipsec {
                steps.push(LinuxRoutingStep::AddRoute(*destination, 32));
                steps.push(LinuxRoutingStep::AddKeepaliveRules(*destination));
            }
        },
        RoutingConfig::Split { destination, routes } => {
            steps.push(LinuxRoutingStep::AddExclusionRule(*destination));
            let distinct = distinct_route_list(routes);
            push_route_steps(&mut steps, &distinct);
            if ipsec {
                steps.push(LinuxRoutingStep::AddKeepaliveRules(*destination));
            }
        },
        RoutingConfig::Cleanup { destination, enable_ipv6 } => {
            steps.push(LinuxRoutingStep::RemoveExclusionRule(*destination, *enable_ipv6));
            if ipsec {
                steps.push(LinuxRoutingStep::RemoveKeepaliveRule(*destination, ServicePort::Scv));
                steps.push(LinuxRoutingStep::RemoveKeepaliveRule(*destination, ServicePort::Keepalive));
            }
        },
    }
    assert(steps@ =~= linux_routing_plan_spec(tunnel_type, *config));
    steps
}

/// Whether a step steers or stops steering the gateway's UDP services.
pub open spec fn is_keepalive_step(s: LinuxRoutingStep) -> bool {
    s is AddKeepaliveRules || s is RemoveKeepaliveRule
}

/// Every configuration first excludes the gateway from the tunnel's table
/// (or, when cleaning up, first removes that exclusion).
pub proof fn law_linux_gateway_rule_first(t: TunnelType, c: RoutingConfig)
    ensures
        linux_routing_plan_spec(t, c).len() > 0,
        c is Cleanup ==> linux_routing_plan_spec(t, c)[0] == LinuxRoutingStep::RemoveExclusionRule(
            c.destination_spec(),
            c->enable_ipv6,
        ),
        !(c is Cleanup) ==> linux_routing_plan_spec(t, c)[0] == LinuxRoutingStep::AddExclusionRule(
            c.destination_spec(),
        ),
{
}

/// Only an IPsec tunnel touches the rules for the gateway's SCV and
/// keepalive traffic, and it does so under every configuration.
pub proof fn law_linux_keepalive_rules_only_for_ipsec(t: TunnelType, c: RoutingConfig)
    ensures
        (exists|i: int|
            0 <= i < linux_routing_plan_spec(t, c).len() && is_keepalive_step(
                #[trigger] linux_routing_plan_spec(t, c)[i],
            )) <==> t == TunnelType::IPsec,
{
    let p = linux_routing_plan_spec(t, c);
    if t == TunnelType::IPsec {
        assert(is_keepalive_step(p[p.len() - 1]));
    } else {
        assert forall|i: int| 0 <= i < p.len() implies !is_keepalive_step(#[trigger] p[i]) by {
            match c {
                RoutingConfig::Split { destination, routes } => {
                    let rs = route_steps(distinct_routes(routes@));
                    if 1 <= i {
                        assert(p[i] == rs[i - 1]);
                    }
                },
                _ => {},
            }
        }
    }
}

/// Split routing adds exactly the configured routes, each once, and makes
/// no change twice.
pub proof fn law_linux_split_routes_once(t: TunnelType, destination: u32, routes: Vec<(u32, u32)>)
    ensures
        ({
            let p = linux_routing_plan_spec(t, RoutingConfig::Split { destination, routes });
            &&& forall|r: (u32, u32)| p.contains(LinuxRoutingStep::AddRoute(r.0, r.1)) <==> routes@.contains(r)
            &&& p.no_duplicates()
        }),
{
    let c = RoutingConfig::Split { destination, routes };
    let p = linux_routing_plan_spec(t, c);
    let d = distinct_routes(routes@);
    let rs = route_steps(d);
    lemma_distinct_routes(routes@);
    let tail: Seq<LinuxRoutingStep> = if t == TunnelType::IPsec {
        seq![LinuxRoutingStep::AddKeepaliveRules(destination)]
    } else {
        seq![]
    };
    assert(p =~= seq![LinuxRoutingStep::AddExclusionRule(destination)] + rs + tail);
    assert forall|i: int| 0 <= i < p.len() && p[i] is AddRoute implies 1 <= i < 1 + rs.len() && p[i] == rs[i - 1]
        by {
        if i >= 1 + rs.len() {
            assert(p[i] == tail[i - 1 - rs.len()]);
        }
    }
    assert forall|r: (u32, u32)| p.contains(LinuxRoutingStep::AddRoute(r.0, r.1)) <==> routes@.contains(r) by {
        if p.contains(LinuxRoutingStep::AddRoute(r.0, r.1)) {
            let k = choose|k: int| 0 <= k < p.len() && p[k] == LinuxRoutingStep::AddRoute(r.0, r.1);
            assert(d[k - 1] == r);
            assert(d.contains(r));
        }
        if routes@.contains(r) {
            assert(d.contains(r));
            let k = choose|k: int| 0 <= k < d.len() && d[k] == r;
            assert(p[k + 1] == LinuxRoutingStep::AddRoute(r.0, r.1));
        }
    }
    assert forall|i: int, j: int| 0 <= i < p.len() && 0 <= j < p.len() && i != j implies p[i] != p[j] by {
        if p[i] is AddRoute && p[j] is AddRoute {
            assert(d[i - 1] != d[j - 1]);
        } else if i == 0 || j == 0 {
        } else if !(p[i] is AddRoute) && !(p[j] is AddRoute) {
            assert(i >= 1 + rs.len() && j >= 1 + rs.len());
        }
    }
}

/// The sysctl settings of a tunnel device `name`, in the order they are
/// made: loose reverse-path filtering (`rp_filter` 2, as IPsec needs),
/// promoted secondary addresses (so the address can be replaced), and
/// `forwarding` and `disable_policy` both 1 when forwarding is allowed,
/// both 0 otherwise.
pub open spec fn spec_device_sysctls(name: Seq<char>, allow_forwarding: bool) -> Seq<(Seq<char>, Seq<char>)> {
    let prefix = "net.ipv4.conf."@ + name;
    let fwd = if allow_forwarding {
        "1"@
    } else {
        "0"@
    };
    seq![
        (prefix + ".rp_filter"@, "2"@),
        (prefix + ".promote_secondaries"@, "1"@),
        (prefix + ".forwarding"@, fwd),
        (prefix + ".disable_policy"@, fwd),
    ]
}

/// The sysctl keys and values to set on tunnel device `name` (see
/// `spec_device_sysctls`); the caller sets each until it reads back.
pub fn device_sysctls(name: &str, allow_forwarding: bool) -> (r: Vec<(String, String)>)
    ensures
        r@.len() == 4,
        forall|i: int|
            0 <= i < 4 ==> (#[trigger] r@[i]).0@ == spec_device_sysctls(name@, allow_forwarding)[i].0 && r@[i].1@
                == spec_device_sysctls(name@, allow_forwarding)[i].1,
{
    let fwd = if allow_forwarding {
        "1"
    } else {
        "0"
    };
    let mut r: Vec<(String, String)> = Vec::new();
    r.push((concat3("net.ipv4.conf.", name, ".rp_filter"), "2".to_owned()));
    r.push((concat3("net.ipv4.conf.", name, ".promote_secondaries"), "1".to_owned()));
    r.push((concat3("net.ipv4.conf.", name, ".forwarding"), fwd.to_owned()));
    r.push((concat3("net.ipv4.conf.", name, ".disable_policy"), fwd.to_owned()));
    r
}

} // verus!
