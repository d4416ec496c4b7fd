//! The parameters of a connection profile that the library's logic reads.

use vstd::prelude::*;
use crate::text::views;

verus! {

/// The kind of tunnel a profile asks for.
#[derive(Debug, Clone, Copy, PartialEq, Eq, Structural)]
pub enum TunnelType {
    SSL,
    IPsec,
}

/// How ESP traffic of an IPsec tunnel is carried.
#[derive(Debug, Clone, Copy, PartialEq, Eq, Structural)]
pub enum TransportType {
    Kernel,
    Udp,
    Tcpt,
    AutoDetect,
}

/// The IKE version an IPsec tunnel negotiates with.
#[derive(Debug, Clone, Copy, PartialEq, Eq, Structural)]
pub enum IkeVersion {
    AutoDetect,
    V1,
    V2,
}

/// The parameters of a connection profile.
#[derive(Debug)]
pub struct TunnelParams {
    /// The profile's identifier, a UUID as a 128-bit number.
    pub profile_id: u128,
    pub profile_name: String,
    /// Where the profile is stored.
    pub config_file: String,
    pub server_name: String,
    pub login_type: String,
    pub user_name: String,
    pub tunnel_type: TunnelType,
    pub ike_version: IkeVersion,
    /// Whether an IKE session is kept across restarts.
    pub ike_persist: bool,
    /// Search domains configured by hand; a leading `~` makes one a routing domain.
    pub search_domains: Vec<String>,
    /// Search domains never to configure.
    pub ignore_search_domains: Vec<String>,
    /// DNS servers configured by hand, as IPv4 addresses.
    pub dns_servers: Vec<u32>,
    /// DNS servers never to configure.
    pub ignore_dns_servers: Vec<u32>,
    /// Whether domains acquired from the tunnel become routing domains.
    pub set_routing_domains: bool,
    /// Whether split DNS is turned off.
    pub no_split_dns: bool,
    /// Whether only the routes configured by hand go through the tunnel.
    pub no_routing: bool,
    /// Whether all traffic goes through the tunnel.
    pub default_route: bool,
    /// Routes added by hand: network address and prefix length.
    pub add_routes: Vec<(u32, u32)>,
    /// Routes never to add.
    pub ignore_routes: Vec<(u32, u32)>,
    /// Whether IPv6 is turned off while all traffic goes through the tunnel.
    pub disable_ipv6: bool,
}

/// The parameters of a profile as values.
pub struct TunnelParamsView {
    pub profile_id: u128,
    pub profile_name: Seq<char>,
    pub config_file: Seq<char>,
    pub server_name: Seq<char>,
    pub login_type: Seq<char>,
    pub user_name: Seq<char>,
    pub tunnel_type: TunnelType,
    pub ike_version: IkeVersion,
    pub ike_persist: bool,
    pub search_domains: Seq<Seq<char>>,
    pub ignore_search_domains: Seq<Seq<char>>,
    pub dns_servers: Seq<u32>,
    pub ignore_dns_servers: Seq<u32>,
    pub set_routing_domains: bool,
    pub no_split_dns: bool,
    pub no_routing: bool,
    pub default_route: bool,
    pub add_routes: Seq<(u32, u32)>,
    pub ignore_routes: Seq<(u32, u32)>,
    pub disable_ipv6: bool,
}

impl View for TunnelParams {
    type V = TunnelParamsView;

    open spec fn view(&self) -> TunnelParamsView {
        TunnelParamsView {
            profile_id: self.profile_id,
            profile_name: self.profile_name@,
            config_file: self.config_file@,
            server_name: self.server_name@,
            login_type: self.login_type@,
            user_name: self.user_name@,
            tunnel_type: self.tunnel_type,
            ike_version: self.ike_version,
            ike_persist: self.ike_persist,
            search_domains: views(self.search_domains@),
            ignore_search_domains: views(self.ignore_search_domains@),
            dns_servers: self.dns_servers@,
            ignore_dns_servers: self.ignore_dns_servers@,
            set_routing_domains: self.set_routing_domains,
            no_split_dns: self.no_split_dns,
            no_routing: self.no_routing,
            default_route: self.default_route,
            add_routes: self.add_routes@,
            ignore_routes: self.ignore_routes@,
            disable_ipv6: self.disable_ipv6,
        }
    }
}

fn copy_strings(v: &Vec<String>) -> (r: Vec<String>)
    ensures
        views(r@) == views(v@),
{
    let mut r: Vec<String> = Vec::new();
    let mut i: usize = 0;
    while i < v.len()
        invariant
            i <= v@.len(),
            views(r@) == views(v@.take(i as int)),
        decreases v@.len() - i,
    {
        let ghost before = r@;
        r.push(v[i].clone());
        proof {
            crate::text::lemma_views_push(before, r@.last());
            assert(r@ == before.push(r@.last()));
            assert(views(r@) =~= views(v@.take(i + 1)));
        }
        i = i + 1;
    }
    assert(v@.take(v@.len() as int) == v@);
    r
}

fn copy_addresses(v: &Vec<u32>) -> (r: Vec<u32>)
    ensures
        r@ == v@,
{
    let mut r: Vec<u32> = Vec::new();
    let mut i: usize = 0;
    while i < v.len()
        invariant
            i <= v@.len(),
            r@ == v@.take(i as int),
        decreases v@.len() - i,
    {
        r.push(v[i]);
        assert(v@.take(i + 1) == v@.take(i as int).push(v@[i as int]));
        i = i + 1;
    }
    assert(v@.take(v@.len() as int) == v@);
    r
}

fn copy_networks(v: &Vec<(u32, u32)>) -> (r: Vec<(u32, u32)>)
    ensures
        r@ == v@,
{
    let mut r: Vec<(u32, u32)> = Vec::new();
    let mut i: usize = 0;
    while i < v.len()
        invariant
            i <= v@.len(),
            r@ == v@.take(i as int),
        decreases v@.len() - i,
    {
        r.push(v[i]);
        assert(v@.take(i + 1) == v@.take(i as int).push(v@[i as int]));
        i = i + 1;
    }
    assert(v@.take(v@.len() as int) == v@);
    r
}

impl TunnelParams {
    /// A copy of these parameters.
    pub fn duplicate(&self) -> (r: Self)
        ensures
            r@ == self@,
    {
        TunnelParams {
            profile_id: self.profile_id,
            profile_name: self.profile_name.clone(),
            config_file: self.config_file.clone(),
            server_name: self.server_name.clone(),
            login_type: self.login_type.clone(),
            user_name: self.user_name.clone(),
            tunnel_type: self.tunnel_type,
            ike_version: self.ike_version,
            ike_persist: self.ike_persist,
            search_domains: copy_strings(&self.search_domains),
            ignore_search_domains: copy_strings(&self.ignore_search_domains),
            dns_servers: copy_addresses(&self.dns_servers),
            ignore_dns_servers: copy_addresses(&self.ignore_dns_servers),
            set_routing_domains: self.set_routing_domains,
            no_split_dns: self.no_split_dns,
            no_routing: self.no_routing,
            default_route: self.default_route,
            add_routes: copy_networks(&self.add_routes),
            ignore_routes: copy_networks(&self.ignore_routes),
            disable_ipv6: self.disable_ipv6,
        }
    }
}

} // verus!
