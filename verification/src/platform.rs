//! Platform-independent decisions about the host's network setup: search
//! domains and DNS servers for the resolver, the features a platform
//! offers, the encapsulation of ESP in UDP, and the routing a tunnel asks
//! for.

use vstd::prelude::*;
use std::sync::Arc;
use crate::model::params::TunnelParams;
use crate::model::prefix_mask;
use crate::text::{
    chars_of, concat_str, eq_ignore_ascii_case, eq_ignore_case, has_prefix, owned, string_from_chars, trim_str,
    trimmed, TrimSet,
};

pub mod linux;
pub mod macos;
pub mod windows;

verus! {

/// A DNS search domain; a routing domain also sends its queries to the
/// tunnel's DNS servers.
#[derive(Debug)]
pub struct SearchDomain {
    pub name: String,
    pub is_routing: bool,
}

/// The text of a search domain: its name, after `~` when it routes.
pub open spec fn domain_text(name: Seq<char>, is_routing: bool) -> Seq<char> {
    if is_routing {
        "~"@ + name
    } else {
        name
    }
}

impl SearchDomain {
    /// A search domain named `name`.
    pub fn new(name: &str, is_routing: bool) -> (r: Self)
        ensures
            r.name@ == name@,
            r.is_routing == is_routing,
    {
        SearchDomain { name: owned(name), is_routing }
    }

    /// The domain as text: `~name` for a routing domain, else `name`.
    pub fn to_text(&self) -> (r: String)
        ensures
            r@ == domain_text(self.name@, self.is_routing),
    {
        if self.is_routing {
            concat_str("~", self.name.as_str())
        } else {
            owned(self.name.as_str())
        }
    }
}

/// The platform the service runs on; its network stack is reached
/// through the platform's access type.
pub struct Platform;

/// What the platform's network stack can do.
#[derive(Debug, Clone, Copy, PartialEq, Eq, Structural)]
pub struct PlatformFeatures {
    pub ipsec_native: bool,
    pub ipsec_keepalive: bool,
    pub split_dns: bool,
}

/// How ESP packets are carried over UDP.
#[derive(Debug, Clone, Copy, PartialEq, Eq, Structural)]
pub enum UdpEncapType {
    /// ESP in UDP, as RFC 3948 describes.
    EspInUdp,
}

impl UdpEncapType {
    /// The value of the `UDP_ENCAP` socket option for this encapsulation.
    pub fn option_value(&self) -> (r: i32)
        ensures
            r == 2,
    {
        match self {
            UdpEncapType::EspInUdp => 2,
        }
    }
}

/// The resolver setup for a tunnel.
#[derive(Debug)]
pub struct ResolverConfig {
    pub split_dns: bool,
    pub search_domains: Vec<SearchDomain>,
    /// IPv4 addresses of the DNS servers.
    pub dns_servers: Vec<u32>,
}

/// Gathers the resolver setup from what the tunnel acquired and what the
/// profile configures.
pub struct ResolverConfigBuilder {
    params: Arc<TunnelParams>,
    features: PlatformFeatures,
    search_domains: Vec<SearchDomain>,
    dns_servers: Vec<u32>,
}

/// The (name, routing) pairs of search domains.
pub open spec fn domain_views(v: Seq<SearchDomain>) -> Seq<(Seq<char>, bool)> {
    v.map_values(|d: SearchDomain| (d.name@, d.is_routing))
}

/// Domains acquired from the tunnel, trimmed of white space and dots,
/// empty ones dropped, all with the routing flag `routing`.
pub open spec fn acquired_domains(names: Seq<Seq<char>>, routing: bool) -> Seq<(Seq<char>, bool)>
    decreases names.len(),
{
    if names.len() == 0 {
        Seq::empty()
    } else {
        let rest = acquired_domains(names.drop_last(), routing);
        let t = trimmed(names.last(), TrimSet::WhitespaceOrDot);
        if t.len() == 0 {
            rest
        } else {
            rest.push((t, routing))
        }
    }
}

/// Domains configured in the profile: `~name` is a routing domain when the
/// platform splits DNS, any other name a plain one.
pub open spec fn manual_domain(d: Seq<char>, split_dns: bool) -> (Seq<char>, bool) {
    if has_prefix(d, "~"@) {
        (d.drop_first(), split_dns)
    } else {
        (d, false)
    }
}

/// Whether `name` matches an ignored domain, ASCII case aside.
pub open spec fn is_ignored_domain(name: Seq<char>, ignore: Seq<Seq<char>>) -> bool {
    exists|k: int| 0 <= k < ignore.len() && eq_ignore_case(#[trigger] ignore[k], name)
}

/// The domains whose names match no ignored domain, in order.
pub open spec fn without_ignored_domains(ds: Seq<(Seq<char>, bool)>, ignore: Seq<Seq<char>>) -> Seq<(Seq<char>, bool)> {
    ds.filter(|d: (Seq<char>, bool)| !is_ignored_domain(d.0, ignore))
}

/// The servers not ignored, in order.
pub open spec fn without_ignored_servers(s: Seq<u32>, ignore: Seq<u32>) -> Seq<u32> {
    s.filter(|a: u32| !ignore.contains(a))
}

/// The domains configured in the profile, in order.
pub open spec fn manual_domains(ds: Seq<Seq<char>>, split_dns: bool) -> Seq<(Seq<char>, bool)> {
    Seq::new(ds.len(), |i: int| manual_domain(ds[i], split_dns))
}

fn is_ignored(name: &str, ignore: &[String]) -> (r: bool)
    ensures
        r == is_ignored_domain(name@, crate::text::views(ignore@)),
{
    let n = chars_of(name);
    let ghost iv = crate::text::views(ignore@);
    let mut k: usize = 0;
    while k < ignore.len()
        invariant
            k <= ignore@.len(),
            n@ == name@,
            iv == crate::text::views(ignore@),
            forall|j: int| 0 <= j < k ==> !eq_ignore_case(#[trigger] iv[j], name@),
        decreases ignore@.len() - k,
    {
        let c = chars_of(ignore[k].as_str());
        if eq_ignore_ascii_case(c.as_slice(), n.as_slice()) {
            assert(eq_ignore_case(iv[k as int], name@));
            return true;
        }
        k = k + 1;
    }
    false
}

fn contains_u32(v: &[u32], x: u32) -> (r: bool)
    ensures
        r == v@.contains(x),
{
    let mut k: usize = 0;
    while k < v.len()
        invariant
            k <= v@.len(),
            forall|j: int| 0 <= j < k ==> v@[j] != x,
        decreases v@.len() - k,
    {
        if v[k] == x {
            assert(v@[k as int] == x);
            return true;
        }
        k = k + 1;
    }
    false
}

impl ResolverConfig {
    /// A builder for the resolver setup of a tunnel with these parameters.
    pub fn builder(params: Arc<TunnelParams>, features: PlatformFeatures) -> (r: ResolverConfigBuilder)
        ensures
            r.params_spec() == *params,
            r.features_spec() == features,
            r.domains_spec().len() == 0,
            r.servers_spec().len() == 0,
    {
        ResolverConfigBuilder { params, features, search_domains: Vec::new(), dns_servers: Vec::new() }
    }
}

impl ResolverConfigBuilder {
    /// The profile's parameters.
    pub closed spec fn params_spec(&self) -> TunnelParams {
        *self.params
    }

    /// The platform's features.
    pub closed spec fn features_spec(&self) -> PlatformFeatures {
        self.features
    }

    /// The search domains gathered so far.
    pub closed spec fn domains_spec(&self) -> Seq<(Seq<char>, bool)> {
        domain_views(self.search_domains@)
    }

    /// The DNS servers gathered so far.
    pub closed spec fn servers_spec(&self) -> Seq<u32> {
        self.dns_servers@
    }

    /// Adds the search domains acquired from the tunnel: trimmed of white
    /// space and dots, empty ones dropped; they route when the profile asks
    /// for routing domains and the platform splits DNS.
    pub fn search_domains(self, domains: &[String]) -> (r: Self)
        ensures
            r.params_spec() == self.params_spec(),
            r.features_spec() == self.features_spec(),
            r.servers_spec() == self.servers_spec(),
            r.domains_spec() == self.domains_spec() + acquired_domains(
                crate::text::views(domains@),
                self.params_spec().set_routing_domains && self.features_spec().split_dns,
            ),
    {
        let mut b = self;
        let routing = b.params.set_routing_domains && b.features.split_dns;
        let ghost names = crate::text::views(domains@);
        let ghost start = domain_views(b.search_domains@);
        let mut i: usize = 0;
        while i < domains.len()
            invariant
                i <= domains@.len(),
                names == crate::text::views(domains@),
                domain_views(b.search_domains@) == start + acquired_domains(names.take(i as int), routing),
                b.params == self.params,
                b.features == self.features,
                b.dns_servers == self.dns_servers,
            decreases domains@.len() - i,
        {
            assert(names.take(i + 1).drop_last() == names.take(i as int));
            assert(names.take(i + 1).last() == domains@[i as int]@);
            let t = trim_str(domains[i].as_str(), TrimSet::WhitespaceOrDot);
            if chars_of(t.as_str()).len() > 0 {
                let ghost before = b.search_domains@;
                b.search_domains.push(SearchDomain { name: t, is_routing: routing });
                assert(domain_views(b.search_domains@) =~= domain_views(before).push((t@, routing)));
            }
            i = i + 1;
        }
        assert(names.take(domains@.len() as int) == names);
        b
    }

    /// Adds the DNS servers acquired from the tunnel.
    pub fn dns_servers(self, servers: &[u32]) -> (r: Self)
        ensures
            r.params_spec() == self.params_spec(),
            r.features_spec() == self.features_spec(),
            r.domains_spec() == self.domains_spec(),
            r.servers_spec() == self.servers_spec() + servers@,
    {
        let mut b = self;
        let ghost start = b.dns_servers@;
        let mut i: usize = 0;
        while i < servers.len()
            invariant
                i <= servers@.len(),
                b.dns_servers@ == start + servers@.take(i as int),
                b.params == self.params,
                b.features == self.features,
                domain_views(b.search_domains@) == self.domains_spec(),
            decreases servers@.len() - i,
        {
            b.dns_servers.push(servers[i]);
            assert(servers@.take(i + 1) == servers@.take(i as int).push(servers@[i as int]));
            i = i + 1;
        }
        assert(servers@.take(servers@.len() as int) == servers@);
        b
    }
    /// The resolver setup: the gathered domains followed by those the
    /// profile configures, less the ignored ones (ASCII case aside); the
    /// gathered DNS servers followed by the profile's, less the ignored
    /// ones; split DNS when the platform offers it and the profile does not
    /// turn it off.
    pub fn build(self) -> (r: ResolverConfig)
        ensures
            domain_views(r.search_domains@) == without_ignored_domains(
                self.domains_spec() + manual_domains(
                    crate::text::views(self.params_spec().search_domains@),
                    self.features_spec().split_dns,
                ),
                crate::text::views(self.params_spec().ignore_search_domains@),
            ),
            r.dns_servers@ == without_ignored_servers(
                self.servers_spec() + self.params_spec().dns_servers@,
                self.params_spec().ignore_dns_servers@,
            ),
            r.split_dns == (self.features_spec().split_dns && !self.params_spec().no_split_dns),
    {
        let params = self.params;
        let features = self.features;
        let mut domains = self.search_domains;
        let mut servers = self.dns_servers;
        let ghost md = manual_domains(crate::text::views(params.search_domains@), features.split_dns);
        let ghost start = domain_views(domains@);
        let mut i: usize = 0;
        while i < params.search_domains.len()
            invariant
                i <= params.search_domains@.len(),
                md == manual_domains(crate::text::views(params.search_domains@), features.split_dns),
                domain_views(domains@) == start + md.take(i as int),
            decreases params.search_domains@.len() - i,
        {
            let d = chars_of(params.search_domains[i].as_str());
            let tilde = vec!['~'];
            proof {
                reveal_strlit("~");
                assert(tilde@ =~= "~"@);
            }
            let ghost before = domains@;
            if crate::text::starts_with(d.as_slice(), tilde.as_slice()) {
                let rest = string_from_chars(d.as_slice().split_at(1).1);
                assert(rest@ =~= d@.drop_first());
                domains.push(SearchDomain { name: rest, is_routing: features.split_dns });
            } else {
                domains.push(SearchDomain::new(params.search_domains[i].as_str(), false));
            }
            assert(domain_views(domains@) =~= domain_views(before).push(md[i as int]));
            assert(md.take(i + 1) =~= md.take(i as int).push(md[i as int]));
            i = i + 1;
        }
        assert(md.take(params.search_domains@.len() as int) == md);
        let ghost all = domain_views(domains@);
        let ghost iv = crate::text::views(params.ignore_search_domains@);
        let ghost keep = |d: (Seq<char>, bool)| !is_ignored_domain(d.0, iv);
        let mut kept: Vec<SearchDomain> = Vec::new();
        let mut k: usize = 0;
        while k < domains.len()
            invariant
                k <= domains@.len(),
                all == domain_views(domains@),
                iv == crate::text::views(params.ignore_search_domains@),
                keep == (|d: (Seq<char>, bool)| !is_ignored_domain(d.0, iv)),
                domain_views(kept@) == all.take(k as int).filter(keep),
            decreases domains@.len() - k,
        {
            proof {
                assert(all.take(k + 1) =~= all.take(k as int).push(all[k as int]));
                all.take(k as int).lemma_filter_push(all[k as int], keep);
            }
            if !is_ignored(domains[k].name.as_str(), params.ignore_search_domains.as_slice()) {
                let ghost before = kept@;
                kept.push(SearchDomain::new(domains[k].name.as_str(), domains[k].is_routing));
                assert(domain_views(kept@) =~= domain_views(before).push(all[k as int]));
            }
            k = k + 1;
        }
        assert(all.take(domains@.len() as int) == all);
        let ghost sstart = servers@;
        let mut j: usize = 0;
        while j < params.dns_servers.len()
            invariant
                j <= params.dns_servers@.len(),
                servers@ == sstart + params.dns_servers@.take(j as int),
            decreases params.dns_servers@.len() - j,
        {
            servers.push(params.dns_servers[j]);
            assert(params.dns_servers@.take(j + 1) == params.dns_servers@.take(j as int).push(params.dns_servers@[j as int]));
            j = j + 1;
        }
        assert(params.dns_servers@.take(params.dns_servers@.len() as int) == params.dns_servers@);
        let ghost sall = servers@;
        let ghost ig = params.ignore_dns_servers@;
        let ghost skeep = |a: u32| !ig.contains(a);
        let mut kept_servers: Vec<u32> = Vec::new();
        let mut m: usize = 0;
        while m < servers.len()
            invariant
                m <= servers@.len(),
                sall == servers@,
                ig == params.ignore_dns_servers@,
                skeep == (|a: u32| !ig.contains(a)),
                kept_servers@ == sall.take(m as int).filter(skeep),
            decreases servers@.len() - m,
        {
            proof {
                assert(sall.take(m + 1) =~= sall.take(m as int).push(sall[m as int]));
                sall.take(m as int).lemma_filter_push(sall[m as int], skeep);
            }
            if !contains_u32(params.ignore_dns_servers.as_slice(), servers[m]) {
                kept_servers.push(servers[m]);
            }
            m = m + 1;
        }
        assert(sall.take(servers@.len() as int) == sall);
        ResolverConfig {
            split_dns: features.split_dns && !params.no_split_dns,
            search_domains: kept,
            dns_servers: kept_servers,
        }
    }
}

/// No search domain that the profile ignores is configured, whatever its
/// ASCII case; every configured domain was gathered or configured, in the
/// same order.
pub proof fn law_ignored_domains_never_configured(ds: Seq<(Seq<char>, bool)>, ignore: Seq<Seq<char>>)
    ensures
        forall|i: int|
            0 <= i < without_ignored_domains(ds, ignore).len() ==> !is_ignored_domain(
                #[trigger] without_ignored_domains(ds, ignore)[i].0,
                ignore,
            ) && ds.contains(without_ignored_domains(ds, ignore)[i]),
        forall|i: int| 0 <= i < ds.len() && !is_ignored_domain(ds[i].0, ignore) ==> #[trigger] without_ignored_domains(ds, ignore).contains(ds[i]),
{
    let keep = |d: (Seq<char>, bool)| !is_ignored_domain(d.0, ignore);
    assert forall|i: int| 0 <= i < without_ignored_domains(ds, ignore).len() implies !is_ignored_domain(
        #[trigger] without_ignored_domains(ds, ignore)[i].0,
        ignore,
    ) && ds.contains(without_ignored_domains(ds, ignore)[i]) by {
        ds.lemma_filter_pred(keep, i);
        assert(ds.filter(keep).contains(ds.filter(keep)[i]));
        ds.lemma_filter_contains_rev(keep, ds.filter(keep)[i]);
    }
    assert forall|i: int| 0 <= i < ds.len() && !is_ignored_domain(ds[i].0, ignore) implies #[trigger] without_ignored_domains(ds, ignore).contains(ds[i]) by {
        ds.lemma_filter_contains(keep, i);
    }
}

/// No DNS server that the profile ignores is configured; every server that
/// is not ignored is.
pub proof fn law_ignored_servers_never_configured(servers: Seq<u32>, ignore: Seq<u32>)
    ensures
        forall|i: int|
            0 <= i < without_ignored_servers(servers, ignore).len() ==> !ignore.contains(
                #[trigger] without_ignored_servers(servers, ignore)[i],
            ),
        forall|i: int| 0 <= i < servers.len() && !ignore.contains(servers[i]) ==> #[trigger] without_ignored_servers(servers, ignore).contains(servers[i]),
{
    let keep = |a: u32| !ignore.contains(a);
    assert forall|i: int| 0 <= i < without_ignored_servers(servers, ignore).len() implies !ignore.contains(
        #[trigger] without_ignored_servers(servers, ignore)[i],
    ) by {
        servers.lemma_filter_pred(keep, i);
    }
    assert forall|i: int| 0 <= i < servers.len() && !ignore.contains(servers[i]) implies #[trigger] without_ignored_servers(servers, ignore).contains(servers[i]) by {
        servers.lemma_filter_contains(keep, i);
    }
}

proof fn lemma_acquired_routing(names: Seq<Seq<char>>, routing: bool, i: int)
    requires
        0 <= i < acquired_domains(names, routing).len(),
    ensures
        acquired_domains(names, routing)[i].1 == routing,
        acquired_domains(names, routing)[i].0.len() > 0,
    decreases names.len(),
{
    let rest = acquired_domains(names.drop_last(), routing);
    if i < rest.len() {
        lemma_acquired_routing(names.drop_last(), routing, i);
    }
}

/// A search domain routes only when the platform splits DNS, and a domain
/// acquired from the tunnel routes only when the profile also asks for
/// routing domains; no configured domain is empty after trimming.
pub proof fn law_routing_domains_need_split_dns(
    acquired: Seq<Seq<char>>,
    set_routing_domains: bool,
    configured: Seq<Seq<char>>,
    ignore: Seq<Seq<char>>,
    split_dns: bool,
)
    ensures
        ({
            let ds = without_ignored_domains(
                acquired_domains(acquired, set_routing_domains && split_dns) + manual_domains(configured, split_dns),
                ignore,
            );
            forall|i: int| 0 <= i < ds.len() ==> (#[trigger] ds[i]).1 ==> split_dns
        }),
        ({
            let a = acquired_domains(acquired, set_routing_domains && split_dns);
            forall|i: int| 0 <= i < a.len() ==> (#[trigger] a[i]).1 == (set_routing_domains && split_dns) && a[i].0.len() > 0
        }),
{
    let a = acquired_domains(acquired, set_routing_domains && split_dns);
    let all = a + manual_domains(configured, split_dns);
    let ds = without_ignored_domains(all, ignore);
    assert forall|i: int| 0 <= i < a.len() implies (#[trigger] a[i]).1 == (set_routing_domains && split_dns) && a[i].0.len() > 0 by {
        lemma_acquired_routing(acquired, set_routing_domains && split_dns, i);
    }
    assert forall|i: int| 0 <= i < ds.len() && (#[trigger] ds[i]).1 implies split_dns by {
        law_ignored_domains_never_configured(all, ignore);
        assert(all.contains(ds[i]));
        let j = choose|j: int| 0 <= j < all.len() && all[j] == ds[i];
        if j < a.len() {
            assert(all[j] == a[j]);
        } else {
            assert(all[j] == manual_domains(configured, split_dns)[j - a.len()]);
        }
    }
}

/// The routing a tunnel asks of the platform; networks are an address and
/// a prefix length.
#[derive(Debug)]
pub enum RoutingConfig {
    /// Everything through the tunnel but the gateway `destination`.
    Full { destination: u32, disable_ipv6: bool },
    /// Only `routes` through the tunnel.
    Split { destination: u32, routes: Vec<(u32, u32)> },
    /// Undoes what an earlier configuration set up.
    Cleanup { destination: u32, enable_ipv6: bool },
}

impl RoutingConfig {
    /// The gateway the configuration keeps outside the tunnel.
    pub open spec fn destination_spec(&self) -> u32 {
        match self {
            RoutingConfig::Full { destination, .. } => *destination,
            RoutingConfig::Split { destination, .. } => *destination,
            RoutingConfig::Cleanup { destination, .. } => *destination,
        }
    }
}

/// Whether address `a` lies in the network `net` (address, prefix length).
pub open spec fn in_network(a: u32, net: (u32, u32)) -> bool {
    a & prefix_mask(net.1) == net.0
}

/// The lower half of the IPv4 space, `0.0.0.0/1`.
pub const LOWER_HALF: (u32, u32) = (0, 1);

/// The upper half of the IPv4 space, `128.0.0.0/1`.
pub const UPPER_HALF: (u32, u32) = (0x8000_0000, 1);

/// Every IPv4 address lies in one of the two halves that full routing sends
/// through the tunnel in place of the default route.
pub proof fn lemma_halves_cover(a: u32)
    ensures
        in_network(a, LOWER_HALF) || in_network(a, UPPER_HALF),
{
    assert(prefix_mask(1) == 0x8000_0000u32) by {
        assert((0xffff_ffffu32 << 31u32) == 0x8000_0000u32) by (bit_vector);
    }
    assert((a & 0x8000_0000u32) == 0u32 || (a & 0x8000_0000u32) == 0x8000_0000u32) by (bit_vector);
}

} // verus!
