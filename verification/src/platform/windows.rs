//! Windows: the features of the platform, UTF-16 strings for the Win32
//! API, and the DNS settings of a tunnel interface with its name resolution
//! policy (NRPT) rule for routing domains, and the route changes a routing
//! configuration makes.

use vstd::prelude::*;
use crate::addr::{dotted, ipv4_text, octets, octets_of};
use crate::platform::{
    domain_views, in_network, lemma_halves_cover, PlatformFeatures, ResolverConfig, RoutingConfig, SearchDomain, LOWER_HALF,
    UPPER_HALF,
};
use crate::text::{chars_of, concat_str, join, join_strings, owned, string_from_chars, trim_chars, trimmed, views, TrimSet};

verus! {

/// Access to the Windows network stack.
pub struct WindowsPlatformAccess;

impl WindowsPlatformAccess {
    /// What Windows offers: no native IPsec, keepalives and split DNS.
    pub fn features() -> (r: PlatformFeatures)
        ensures
            r == (PlatformFeatures { ipsec_native: false, ipsec_keepalive: true, split_dns: true }),
    {
        PlatformFeatures { ipsec_native: false, ipsec_keepalive: true, split_dns: true }
    }
}

/// Passwords kept in the Windows credential manager.
pub struct WindowsKeychain;

impl WindowsKeychain {
    /// The Windows credential manager.
    pub fn new() -> (r: Self) {
        WindowsKeychain
    }
}

/// Network interfaces managed through the IP helper API.
pub struct WindowsNetworkInterface;

impl WindowsNetworkInterface {
    /// The Windows network interface manager.
    pub fn new() -> (r: Self) {
        WindowsNetworkInterface
    }
}

/// The UTF-16 code units of a character.
pub open spec fn utf16_of(c: char) -> Seq<u16> {
    let u = c as u32;
    if u < 0x1_0000 {
        seq![u as u16]
    } else {
        let v = (u - 0x1_0000) as u32;
        seq![(0xD800 + v / 0x400) as u16, (0xDC00 + v % 0x400) as u16]
    }
}

/// The UTF-16 code units of a text (`str::encode_utf16`).
pub open spec fn utf16(s: Seq<char>) -> Seq<u16>
    decreases s.len(),
{
    if s.len() == 0 {
        Seq::empty()
    } else {
        utf16(s.drop_last()) + utf16_of(s.last())
    }
}

fn push_utf16(v: &mut Vec<u16>, c: char)
    ensures
        final(v)@ == old(v)@ + utf16_of(c),
{
    let u = c as u32;
    if u < 0x1_0000 {
        v.push(u as u16);
    } else {
        let w = u - 0x1_0000;
        assert(w / 0x400 < 0x400) by {
            assert(u <= 0x10FFFF);
        }
        v.push((0xD800 + w / 0x400) as u16);
        v.push((0xDC00 + w % 0x400) as u16);
    }
    assert(v@ =~= old(v)@ + utf16_of(c));
}

/// A text as a NUL-terminated UTF-16 string.
pub fn to_wide_nul(s: &str) -> (r: Vec<u16>)
    ensures
        r@ == utf16(s@).push(0u16),
{
    let cs = chars_of(s);
    let mut r: Vec<u16> = Vec::new();
    let mut i: usize = 0;
    while i < cs.len()
        invariant
            i <= cs@.len(),
            cs@ == s@,
            r@ == utf16(s@.take(i as int)),
        decreases cs@.len() - i,
    {
        assert(s@.take(i + 1).drop_last() == s@.take(i as int));
        push_utf16(&mut r, cs[i]);
        i = i + 1;
    }
    assert(s@.take(s@.len() as int) == s@);
    r.push(0u16);
    r
}

/// Texts separated by commas, as a NUL-terminated UTF-16 string.
pub fn wide_csv(parts: &[String]) -> (r: Vec<u16>)
    ensures
        r@ == utf16(join(views(parts@), ","@)).push(0u16),
{
    let joined = join_strings(parts, ",");
    to_wide_nul(joined.as_str())
}

/// The dotted-quad texts of addresses held as big-endian `u32`s.
pub open spec fn address_texts(v: Seq<u32>) -> Seq<Seq<char>> {
    v.map_values(|a: u32| dotted(octets_of(a)))
}

fn address_strings(v: &[u32]) -> (r: Vec<String>)
    ensures
        views(r@) == address_texts(v@),
{
    let mut r: Vec<String> = Vec::new();
    let mut i: usize = 0;
    while i < v.len()
        invariant
            i <= v@.len(),
            views(r@) == address_texts(v@).take(i as int),
        decreases v@.len() - i,
    {
        let ghost before = r@;
        let t = ipv4_text(octets(v[i]));
        r.push(t);
        proof {
            crate::text::lemma_views_push(before, t);
            assert(r@ == before.push(t));
            assert(views(r@) =~= address_texts(v@).take(i + 1));
        }
        i = i + 1;
    }
    assert(address_texts(v@).take(v@.len() as int) == address_texts(v@));
    r
}

/// The names of the domains, in order, that route (`routing`) or do not.
pub open spec fn domain_names(ds: Seq<(Seq<char>, bool)>, routing: bool) -> Seq<Seq<char>>
    decreases ds.len(),
{
    if ds.len() == 0 {
        Seq::empty()
    } else {
        let rest = domain_names(ds.drop_last(), routing);
        if ds.last().1 == routing {
            rest.push(ds.last().0)
        } else {
            rest
        }
    }
}

fn names_with_routing(ds: &[SearchDomain], routing: bool) -> (r: Vec<String>)
    ensures
        views(r@) == domain_names(domain_views(ds@), routing),
{
    let ghost dv = domain_views(ds@);
    let mut r: Vec<String> = Vec::new();
    let mut i: usize = 0;
    while i < ds.len()
        invariant
            i <= ds@.len(),
            dv == domain_views(ds@),
            views(r@) == domain_names(dv.take(i as int), routing),
        decreases ds@.len() - i,
    {
        assert(dv.take(i + 1).drop_last() == dv.take(i as int));
        assert(dv.take(i + 1).last() == (ds@[i as int].name@, ds@[i as int].is_routing));
        if ds[i].is_routing == routing {
            let ghost before = r@;
            let t = owned(ds[i].name.as_str());
            r.push(t);
            proof {
                crate::text::lemma_views_push(before, t);
                assert(r@ == before.push(t));
            }
        }
        i = i + 1;
    }
    assert(dv.take(ds@.len() as int) == dv);
    r
}

/// The suffix-match name of an NRPT rule for a domain: a dot, then the
/// domain without leading or trailing dots.
pub open spec fn nrpt_name(d: Seq<char>) -> Seq<char> {
    "."@ + trimmed(d, TrimSet::Dot)
}

/// The NRPT rule that sends the queries for `routing` domains to `servers`:
/// its names, and its servers separated by `;`; no rule when either is empty.
pub open spec fn spec_nrpt_rule(routing: Seq<Seq<char>>, servers: Seq<Seq<char>>) -> Option<(Seq<Seq<char>>, Seq<char>)> {
    if routing.len() == 0 || servers.len() == 0 {
        None
    } else {
        Some((routing.map_values(|d: Seq<char>| nrpt_name(d)), join(servers, ";"@)))
    }
}

/// The NRPT rule for routing domain names `routing` and DNS servers
/// `servers` (as text): the rule's names and its `GenericDNSServers` value.
pub fn nrpt_rule(routing: &[String], servers: &[String]) -> (r: Option<(Vec<String>, String)>)
    ensures
        match r {
            Some((names, list)) => spec_nrpt_rule(views(routing@), views(servers@)) == Some((views(names@), list@)),
            None => spec_nrpt_rule(views(routing@), views(servers@)) is None,
        },
{
    if routing.len() == 0 || servers.len() == 0 {
        return None;
    }
    let ghost rv = views(routing@);
    let mut names: Vec<String> = Vec::new();
    let mut i: usize = 0;
    while i < routing.len()
        invariant
            i <= routing@.len(),
            rv == views(routing@),
            views(names@) == rv.map_values(|d: Seq<char>| nrpt_name(d)).take(i as int),
        decreases routing@.len() - i,
    {
        let cs = chars_of(routing[i].as_str());
        let t = trim_chars(cs.as_slice(), TrimSet::Dot);
        let ts = string_from_chars(t.as_slice());
        let name = concat_str(".", ts.as_str());
        let ghost before = names@;
        names.push(name);
        proof {
            crate::text::lemma_views_push(before, name);
            assert(names@ == before.push(name));
            assert(views(names@) =~= rv.map_values(|d: Seq<char>| nrpt_name(d)).take(i + 1));
        }
        i = i + 1;
    }
    assert(rv.map_values(|d: Seq<char>| nrpt_name(d)).take(routing@.len() as int) == rv.map_values(
        |d: Seq<char>| nrpt_name(d),
    ));
    let list = join_strings(servers, ";");
    Some((names, list))
}

/// Where the NRPT rules of the service live in the registry.
pub open spec fn policy_base() -> Seq<char> {
    "SYSTEM\\CurrentControlSet\\Services\\Dnscache\\Parameters\\DnsPolicyConfig"@
}

/// `base` joined with the relative component `name`, as `Path::join` does
/// on Windows: a backslash is put between them unless `base` is empty or already
/// ends with a separator.
pub open spec fn windows_join(base: Seq<char>, name: Seq<char>) -> Seq<char> {
    if base.len() == 0 {
        name
    } else if base.last() == '\\' || base.last() == '/' {
        base + name
    } else {
        base + seq!['\\'] + name
    }
}

/// The name resolution policy table rules the service installs; the rules
/// it installed are listed in a state file.
pub struct Nrpt {
    state_path: String,
}

impl Nrpt {
    /// The rules whose state file lies in the service's data directory `data_dir`.
    pub fn new(data_dir: &str) -> (r: Self)
        ensures
            r.state_path_spec() == windows_join(data_dir@, "nrpt-rules.json"@),
    {
        let cs = chars_of(data_dir);
        let path = if cs.len() == 0 {
            owned("nrpt-rules.json")
        } else if cs[cs.len() - 1] == '\\' || cs[cs.len() - 1] == '/' {
            concat_str(data_dir, "nrpt-rules.json")
        } else {
            crate::text::concat3(data_dir, "\\", "nrpt-rules.json")
        };
        proof {
            reveal_strlit("\\");
            assert(seq!['\\'] =~= "\\"@);
        }
        Nrpt { state_path: path }
    }

    /// The state file listing the installed rules.
    pub closed spec fn state_path_spec(&self) -> Seq<char> {
        self.state_path@
    }

    /// The state file listing the installed rules.
    pub fn state_path(&self) -> (r: &str)
        ensures
            r@ == self.state_path_spec(),
    {
        self.state_path.as_str()
    }

    /// The registry key of the rule named `rule_name`.
    pub fn rule_key(rule_name: &str) -> (r: String)
        ensures
            r@ == policy_base() + "\\"@ + rule_name@,
    {
        crate::text::concat3(
            "SYSTEM\\CurrentControlSet\\Services\\Dnscache\\Parameters\\DnsPolicyConfig",
            "\\",
            rule_name,
        )
    }
}

/// What configuring DNS on a Windows tunnel interface sets: the interface's
/// name servers and search list (NUL-terminated UTF-16, comma-separated), and
/// with split DNS the NRPT rule for the routing domains, if any.
pub struct WindowsDnsSettings {
    pub name_servers: Vec<u16>,
    pub search_list: Vec<u16>,
    pub nrpt_rule: Option<(Vec<String>, String)>,
}

/// Configures the resolver of a tunnel interface.
pub struct WindowsResolverConfigurator {
    device: String,
}

impl WindowsResolverConfigurator {
    /// The configurator of the resolver of tunnel device `device`.
    pub fn new(device: &str) -> (r: Self)
        ensures
            r.device_spec() == device@,
    {
        WindowsResolverConfigurator { device: owned(device) }
    }

    /// The tunnel device.
    pub closed spec fn device_spec(&self) -> Seq<char> {
        self.device@
    }

    /// The tunnel device.
    pub fn device(&self) -> (r: &str)
        ensures
            r@ == self.device_spec(),
    {
        self.device.as_str()
    }

    /// The settings for `config`: all DNS servers as name servers, the
    /// domains that do not route as the search list, and with split DNS the
    /// rule sending the routing domains' queries to the DNS servers.
    pub fn settings(&self, config: &ResolverConfig) -> (r: WindowsDnsSettings)
        ensures
            r.name_servers@ == utf16(join(address_texts(config.dns_servers@), ","@)).push(0u16),
            r.search_list@ == utf16(join(domain_names(domain_views(config.search_domains@), false), ","@)).push(0u16),
            config.split_dns ==> match r.nrpt_rule {
                Some((names, list)) => spec_nrpt_rule(
                    domain_names(domain_views(config.search_domains@), true),
                    address_texts(config.dns_servers@),
                ) == Some((views(names@), list@)),
                None => spec_nrpt_rule(
                    domain_names(domain_views(config.search_domains@), true),
                    address_texts(config.dns_servers@),
                ) is None,
            },
            !config.split_dns ==> r.nrpt_rule is None,
    {
        let servers = address_strings(config.dns_servers.as_slice());
        let plain = names_with_routing(config.search_domains.as_slice(), false);
        let name_servers = wide_csv(servers.as_slice());
        let search_list = wide_csv(plain.as_slice());
        let nrpt_rule = if config.split_dns {
            let routing = names_with_routing(config.search_domains.as_slice(), true);
            nrpt_rule(routing.as_slice(), servers.as_slice())
        } else {
            None
        };
        WindowsDnsSettings { name_servers, search_list, nrpt_rule }
    }
}

/// A change to the Windows routing table or firewall.
#[derive(Debug, Clone, Copy, PartialEq, Eq, Structural)]
pub enum WindowsRoutingStep {
    /// A host route to the gateway through the interface Windows now picks for it.
    AddHostExclusion(u32),
    /// A route through the tunnel adapter: network and prefix length.
    AddRouteViaTunnel(u32, u32),
    /// The WFP filters that block IPv6 while the tunnel is up.
    BlockIpv6,
    /// Drops the IPv6 block.
    ReleaseIpv6Block,
    /// Deletes every route the configurator added.
    DeleteAll,
}

/// A tunnel-route step for each network of `s`.
pub open spec fn tunnel_route_steps(s: Seq<(u32, u32)>) -> Seq<WindowsRoutingStep> {
    s.map_values(|r: (u32, u32)| WindowsRoutingStep::AddRouteViaTunnel(r.0, r.1))
}

/// The changes a configuration makes, in order: the gateway is pinned to its
/// present route first; full routing covers the default route with the two
/// halves of the IPv4 space and may block IPv6; split routing adds each
/// route; cleanup lifts the IPv6 block and deletes what was added.
pub open spec fn windows_routing_plan_spec(c: RoutingConfig) -> Seq<WindowsRoutingStep> {
    match c {
        RoutingConfig::Full { destination, disable_ipv6 } => seq![
            WindowsRoutingStep::AddHostExclusion(destination),
            WindowsRoutingStep::AddRouteViaTunnel(LOWER_HALF.0, LOWER_HALF.1),
            WindowsRoutingStep::AddRouteViaTunnel(UPPER_HALF.0, UPPER_HALF.1),
        ] + if disable_ipv6 {
            seq![WindowsRoutingStep::BlockIpv6]
        } else {
            seq![]
        },
        RoutingConfig::Split { destination, routes } => seq![WindowsRoutingStep::AddHostExclusion(destination)]
            + tunnel_route_steps(routes@),
        RoutingConfig::Cleanup { .. } => seq![WindowsRoutingStep::ReleaseIpv6Block, WindowsRoutingStep::DeleteAll],
    }
}

/// Routes a tunnel adapter through the Windows IP helper API.
pub struct WindowsRoutingConfigurator {
    device: String,
}

impl WindowsRoutingConfigurator {
    /// The configurator of the routes of tunnel adapter `device`.
    pub fn new(device: &str) -> (r: Self)
        ensures
            r.device_spec() == device@,
    {
        WindowsRoutingConfigurator { device: owned(device) }
    }

    /// The tunnel adapter the routes go through.
    pub closed spec fn device_spec(&self) -> Seq<char> {
        self.device@
    }

    /// The tunnel adapter the routes go through.
    pub fn device(&self) -> (r: &str)
        ensures
            r@ == self.device_spec(),
    {
        self.device.as_str()
    }

    /// The changes that applying `config` makes, in order; the caller
    /// performs them.
    pub fn plan(&self, config: &RoutingConfig) -> (r: Vec<WindowsRoutingStep>)
        ensures
            r@ == windows_routing_plan_spec(*config),
    {
        let mut steps: Vec<WindowsRoutingStep> = Vec::new();
        match config {
            RoutingConfig::Full { destination, disable_ipv6 } => {
                steps.push(WindowsRoutingStep::AddHostExclusion(*destination));
                steps.push(WindowsRoutingStep::AddRouteViaTunnel(LOWER_HALF.0, LOWER_HALF.1));
                steps.push(WindowsRoutingStep::AddRouteViaTunnel(UPPER_HALF.0, UPPER_HALF.1));
                if *disable_ipv6 {
                    steps.push(WindowsRoutingStep::BlockIpv6);
                }
            },
            RoutingConfig::Split { destination, routes } => {
                steps.push(WindowsRoutingStep::AddHostExclusion(*destination));
                let ghost start = steps@;
                let mut i: usize = 0;
                while i < routes.len()
                    invariant
                        i <= routes@.len(),
                        steps@ == start + tunnel_route_steps(routes@.take(i as int)),
                    decreases routes@.len() - i,
                {
                    let r = routes[i];
                    steps.push(WindowsRoutingStep::AddRouteViaTunnel(r.0, r.1));
                    assert(tunnel_route_steps(routes@.take(i + 1)) =~= tunnel_route_steps(routes@.take(i as int)).push(
                        WindowsRoutingStep::AddRouteViaTunnel(r.0, r.1),
                    ));
                    i = i + 1;
                }
                assert(routes@.take(routes@.len() as int) =~= routes@);
            },
            RoutingConfig::Cleanup { .. } => {
                steps.push(WindowsRoutingStep::ReleaseIpv6Block);
                steps.push(WindowsRoutingStep::DeleteAll);
            },
        }
        assert(steps@ =~= windows_routing_plan_spec(*config));
        steps
    }
}

/// Full routing sends every IPv4 address through the tunnel: each lies in a
/// network the plan routes through the tunnel adapter, after the gateway has
/// been pinned to its present route.
pub proof fn law_windows_full_routing_covers_all(destination: u32, disable_ipv6: bool, a: u32)
    ensures
        ({
            let p = windows_routing_plan_spec(RoutingConfig::Full { destination, disable_ipv6 });
            &&& p[0] == WindowsRoutingStep::AddHostExclusion(destination)
            &&& exists|i: int|
                0 <= i < p.len() && (#[trigger] p[i] matches WindowsRoutingStep::AddRouteViaTunnel(n, l) && in_network(
                    a,
                    (n, l),
                ))
        }),
{
    let p = windows_routing_plan_spec(RoutingConfig::Full { destination, disable_ipv6 });
    lemma_halves_cover(a);
    if in_network(a, LOWER_HALF) {
        assert(p[1] == WindowsRoutingStep::AddRouteViaTunnel(LOWER_HALF.0, LOWER_HALF.1));
    } else {
        assert(p[2] == WindowsRoutingStep::AddRouteViaTunnel(UPPER_HALF.0, UPPER_HALF.1));
    }
}

/// IPv6 is blocked exactly when full routing is asked to disable it: a full
/// plan is the gateway pin and the two halves, plus the block only then;
/// split routing and cleanup never block it.
pub proof fn law_windows_ipv6_block_only_when_disabled(destination: u32, disable_ipv6: bool, routes: Vec<(u32, u32)>)
    ensures
        windows_routing_plan_spec(RoutingConfig::Full { destination, disable_ipv6 }).contains(
            WindowsRoutingStep::BlockIpv6,
        ) <==> disable_ipv6,
        windows_routing_plan_spec(RoutingConfig::Full { destination, disable_ipv6 }).len() == if disable_ipv6 {
            4int
        } else {
            3int
        },
        !windows_routing_plan_spec(RoutingConfig::Split { destination, routes }).contains(WindowsRoutingStep::BlockIpv6),
{
    let p = windows_routing_plan_spec(RoutingConfig::Full { destination, disable_ipv6 });
    if disable_ipv6 {
        assert(p[3] == WindowsRoutingStep::BlockIpv6);
    } else {
        assert forall|i: int| 0 <= i < p.len() implies p[i] != WindowsRoutingStep::BlockIpv6 by {}
    }
    let q = windows_routing_plan_spec(RoutingConfig::Split { destination, routes });
    assert forall|i: int| 0 <= i < q.len() implies q[i] != WindowsRoutingStep::BlockIpv6 by {
        if i > 0 {
            assert(q[i] == tunnel_route_steps(routes@)[i - 1]);
        }
    }
}

} // verus!
