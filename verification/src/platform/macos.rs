//! macOS: the features of the platform and the keys under which its
//! resolver configuration is stored, which routes of the IPv4 routing table
//! are default routes, the routing-socket requests it sends, and the route
//! changes a routing configuration makes.

use vstd::prelude::*;
use crate::platform::PlatformFeatures;
use crate::text::concat3;
use crate::stats::{le_u16, le_u32, read_le_u16, read_le_u32};
use crate::route_msg::{
    addrs_of, payload_of, route_is_default, route_message_payload, slice_range, spec_route_is_default,
};
use crate::platform::{in_network, lemma_halves_cover, RoutingConfig, LOWER_HALF, UPPER_HALF};

verus! {

/// Access to the macOS network stack.
pub struct MacosPlatformAccess;

impl MacosPlatformAccess {
    /// What macOS offers: no native IPsec, keepalives and split DNS.
    pub fn features() -> (r: PlatformFeatures)
        ensures
            r == (PlatformFeatures { ipsec_native: false, ipsec_keepalive: true, split_dns: true }),
    {
        PlatformFeatures { ipsec_native: false, ipsec_keepalive: true, split_dns: true }
    }
}

/// Passwords kept in the macOS keychain.
pub struct MacosKeychain;

impl MacosKeychain {
    /// The macOS keychain.
    pub fn new() -> (r: Self) {
        MacosKeychain
    }
}

/// Network interfaces managed through `utun` devices and ioctls.
pub struct MacosNetworkInterface;

impl MacosNetworkInterface {
    /// The macOS network interface manager.
    pub fn new() -> (r: Self) {
        MacosNetworkInterface
    }
}

/// The dynamic-store key of the DNS settings for a tunnel device.
pub open spec fn dns_store_key(device: Seq<char>) -> Seq<char> {
    "State:/Network/Service/snx-rs-"@ + device + "/DNS"@
}

/// Configures the resolver through a supplemental DNS entry of the dynamic store.
pub struct MacosResolverConfigurator {
    store_key: String,
}

impl MacosResolverConfigurator {
    /// The configurator of the resolver for tunnel device `device`.
    pub fn new_for_device(device: &str) -> (r: Self)
        ensures
            r.store_key_spec() == dns_store_key(device@),
    {
        MacosResolverConfigurator { store_key: concat3("State:/Network/Service/snx-rs-", device, "/DNS") }
    }

    /// The dynamic-store key the configurator writes.
    pub closed spec fn store_key_spec(&self) -> Seq<char> {
        self.store_key@
    }

    /// The dynamic-store key the configurator writes.
    pub fn store_key(&self) -> (r: &str)
        ensures
            r@ == self.store_key_spec(),
    {
        self.store_key.as_str()
    }
}

/// The size of an `rt_msghdr`, the header of each message of a routing-table dump.
pub const RT_MSGHDR_LEN: usize = 92;

/// The route is usable (`RTF_UP`).
pub const RTF_UP: i32 = 0x1;

/// The route goes through a gateway (`RTF_GATEWAY`).
pub const RTF_GATEWAY: i32 = 0x2;

/// The little-endian `i32` at `s[at..at + 4]`.
pub open spec fn le_i32(s: Seq<u8>, at: int) -> i32 {
    le_u32(s, at) as i32
}

/// Whether the message at `at`, `msglen` bytes long, is an up route through
/// a gateway whose sockaddrs make it a default route.
pub open spec fn is_default_route_msg(s: Seq<u8>, at: int, msglen: int) -> bool {
    let flags = le_i32(s, at + 8);
    &&& flags & RTF_UP != 0
    &&& flags & RTF_GATEWAY != 0
    &&& spec_route_is_default(s.subrange(at + RT_MSGHDR_LEN, at + msglen), le_i32(s, at + 12))
}

/// The interface indices (`rtm_index`) of the default routes among the
/// messages from `offset` on, in order; the walk stops at a length below the
/// header size or past the end.
pub open spec fn spec_default_route_indices(s: Seq<u8>, offset: int) -> Seq<u16>
    decreases s.len() - offset,
{
    if offset < 0 || offset + RT_MSGHDR_LEN > s.len() {
        seq![]
    } else {
        let msglen = le_u16(s, offset) as int;
        if msglen < RT_MSGHDR_LEN || offset + msglen > s.len() {
            seq![]
        } else if is_default_route_msg(s, offset, msglen) {
            seq![le_u16(s, offset + 4)] + spec_default_route_indices(s, offset + msglen)
        } else {
            spec_default_route_indices(s, offset + msglen)
        }
    }
}

/// Walks a dump of the IPv4 routing table (`rt_msghdr`-prefixed messages,
/// each `rtm_msglen` bytes long) and lists, in order, the interface index of
/// every route that is up, goes through a gateway and is a default route.
/// The caller takes the first of them that names an interface which is not
/// point-to-point.
pub fn default_route_indices(buf: &[u8]) -> (r: Vec<u16>)
    ensures
        r@ == spec_default_route_indices(buf@, 0),
{
    let mut out: Vec<u16> = Vec::new();
    let mut offset: usize = 0;
    while buf.len() - offset >= RT_MSGHDR_LEN
        invariant
            offset <= buf@.len(),
            out@ + spec_default_route_indices(buf@, offset as int) == spec_default_route_indices(buf@, 0),
        decreases buf@.len() - offset,
    {
        let msglen = read_le_u16(buf, offset) as usize;
        if msglen < RT_MSGHDR_LEN || msglen > buf.len() - offset {
            assert(out@ + seq![] =~= out@);
            return out;
        }
        let ghost before = out@;
        let flags = read_le_u32(buf, offset + 8) as i32;
        if flags & RTF_UP != 0 && flags & RTF_GATEWAY != 0 {
            let body = slice_range(buf, offset + RT_MSGHDR_LEN, offset + msglen);
            let addrs = read_le_u32(buf, offset + 12) as i32;
            if route_is_default(body.as_slice(), addrs) {
                let index = read_le_u16(buf, offset + 4);
                out.push(index);
                assert(before.push(index) + spec_default_route_indices(buf@, (offset + msglen) as int) =~= before
                    + (seq![index] + spec_default_route_indices(buf@, (offset + msglen) as int)));
            }
        }
        offset = offset + msglen;
    }
    assert(out@ + seq![] =~= out@);
    out
}

/// The route is fixed by hand (`RTF_STATIC`).
pub const RTF_STATIC: i32 = 0x800;

/// The route leads to a single host (`RTF_HOST`).
pub const RTF_HOST: i32 = 0x4;

/// The address family of IPv4 sockaddrs.
pub const AF_INET: u8 = 2;

/// A change to the macOS routing table.
#[derive(Debug, Clone, Copy, PartialEq, Eq, Structural)]
pub enum MacosRoutingStep {
    /// A host route to the gateway through its present gateway; when the
    /// flag is set, a missing gateway is an error.
    AddHostExclusion(u32, bool),
    /// A route through the tunnel device: network and prefix length.
    AddRouteViaTunnel(u32, u32),
    /// A blackhole for half of the IPv6 space: `::/1`, or `8000::/1` when
    /// the flag is set.
    BlackholeIpv6Half(bool),
    /// Deletes every route the configurator added.
    DeleteAll,
}

/// A tunnel-route step for each network of `s`.
pub open spec fn macos_route_steps(s: Seq<(u32, u32)>) -> Seq<MacosRoutingStep> {
    s.map_values(|r: (u32, u32)| MacosRoutingStep::AddRouteViaTunnel(r.0, r.1))
}

/// The changes a configuration makes, in order: the gateway is pinned to its
/// present route first (which full routing cannot do without); full routing
/// covers the default route with the two halves of the IPv4 space and may
/// blackhole IPv6 the same way; split routing adds each route; cleanup
/// deletes what was added.
pub open spec fn macos_routing_plan_spec(c: RoutingConfig) -> Seq<MacosRoutingStep> {
    match c {
        RoutingConfig::Full { destination, disable_ipv6 } => seq![
            MacosRoutingStep::AddHostExclusion(destination, true),
            MacosRoutingStep::AddRouteViaTunnel(LOWER_HALF.0, LOWER_HALF.1),
            MacosRoutingStep::AddRouteViaTunnel(UPPER_HALF.0, UPPER_HALF.1),
        ] + if disable_ipv6 {
            seq![MacosRoutingStep::BlackholeIpv6Half(false), MacosRoutingStep::BlackholeIpv6Half(true)]
        } else {
            seq![]
        },
        RoutingConfig::Split { destination, routes } => seq![MacosRoutingStep::AddHostExclusion(destination, false)]
            + macos_route_steps(routes@),
        RoutingConfig::Cleanup { .. } => seq![MacosRoutingStep::DeleteAll],
    }
}

/// The changes to the routing table that applying `config` makes, in order;
/// the caller performs them.
pub fn macos_routing_plan(config: &RoutingConfig) -> (r: Vec<MacosRoutingStep>)
    ensures
        r@ == macos_routing_plan_spec(*config),
{
    let mut steps: Vec<MacosRoutingStep> = Vec::new();
    match config {
        RoutingConfig::Full { destination, disable_ipv6 } => {
            steps.push(MacosRoutingStep::AddHostExclusion(*destination, true));
            steps.push(MacosRoutingStep::AddRouteViaTunnel(LOWER_HALF.0, LOWER_HALF.1));
            steps.push(MacosRoutingStep::AddRouteViaTunnel(UPPER_HALF.0, UPPER_HALF.1));
            if *disable_ipv6 {
                steps.push(MacosRoutingStep::BlackholeIpv6Half(false));
                steps.push(MacosRoutingStep::BlackholeIpv6Half(true));
            }
        },
        RoutingConfig::Split { destination, routes } => {
            steps.push(MacosRoutingStep::AddHostExclusion(*destination, false));
            let ghost start = steps@;
            let mut i: usize = 0;
            while i < routes.len()
                invariant
                    i <= routes@.len(),
                    steps@ == start + macos_route_steps(routes@.take(i as int)),
                decreases routes@.len() - i,
            {
                let r = routes[i];
                steps.push(MacosRoutingStep::AddRouteViaTunnel(r.0, r.1));
                assert(macos_route_steps(routes@.take(i + 1)) =~= macos_route_steps(routes@.take(i as int)).push(
                    MacosRoutingStep::AddRouteViaTunnel(r.0, r.1),
                ));
                i = i + 1;
            }
            assert(routes@.take(routes@.len() as int) =~= routes@);
        },
        RoutingConfig::Cleanup { .. } => {
            steps.push(MacosRoutingStep::DeleteAll);
        },
    }
    assert(steps@ =~= macos_routing_plan_spec(*config));
    steps
}

/// Full routing sends every IPv4 address through the tunnel once the
/// gateway has been pinned (a missing gateway being an error), and IPv6 is
/// blackholed exactly when asked.
pub proof fn law_macos_full_routing_covers_all(destination: u32, disable_ipv6: bool, a: u32)
    ensures
        ({
            let p = macos_routing_plan_spec(RoutingConfig::Full { destination, disable_ipv6 });
            &&& p[0] == MacosRoutingStep::AddHostExclusion(destination, true)
            &&& exists|i: int|
                0 <= i < p.len() && (#[trigger] p[i] matches MacosRoutingStep::AddRouteViaTunnel(n, l) && in_network(
                    a,
                    (n, l),
                ))
            &&& (exists|i: int| 0 <= i < p.len() && #[trigger] p[i] is BlackholeIpv6Half) <==> disable_ipv6
        }),
{
    let p = macos_routing_plan_spec(RoutingConfig::Full { destination, disable_ipv6 });
    lemma_halves_cover(a);
    if in_network(a, LOWER_HALF) {
        assert(p[1] == MacosRoutingStep::AddRouteViaTunnel(LOWER_HALF.0, LOWER_HALF.1));
    } else {
        assert(p[2] == MacosRoutingStep::AddRouteViaTunnel(UPPER_HALF.0, UPPER_HALF.1));
    }
    if disable_ipv6 {
        assert(p[3] is BlackholeIpv6Half);
    }
}

/// Full routing needs the gateway pinned outside the tunnel and there is no
/// gateway to pin it through.
#[derive(Debug, Clone, Copy, PartialEq, Eq, Structural)]
pub struct NoOriginalGateway;

/// What pinning the gateway outside the tunnel comes to, given the route the
/// system now takes to it (`reply_ifindex`, `gateway`): nothing when that
/// route already goes through the tunnel, or when it has no usable gateway
/// (at least two bytes) and one is not required; an error when one is
/// required; otherwise a static host route with these flags, through a
/// gateway when the gateway is an IPv4 address.
pub open spec fn spec_host_exclusion(
    reply_ifindex: u16,
    tunnel_ifindex: u16,
    gateway: Option<Seq<u8>>,
    require_gateway: bool,
) -> Result<Option<i32>, NoOriginalGateway> {
    if reply_ifindex == tunnel_ifindex {
        Ok(None)
    } else {
        match gateway {
            Some(g) if g.len() >= 2 => Ok(
                Some(
                    if g[1] == AF_INET {
                        RTF_UP | RTF_STATIC | RTF_HOST | RTF_GATEWAY
                    } else {
                        RTF_UP | RTF_STATIC | RTF_HOST
                    },
                ),
            ),
            _ => if require_gateway {
                Err(NoOriginalGateway)
            } else {
                Ok(None)
            },
        }
    }
}

/// Decides how to pin the gateway outside the tunnel (see
/// `spec_host_exclusion`); the caller asks the system for the route and
/// sends the message.
pub fn host_exclusion(reply_ifindex: u16, tunnel_ifindex: u16, gateway: Option<&[u8]>, require_gateway: bool) -> (r:
    Result<Option<i32>, NoOriginalGateway>)
    ensures
        r == spec_host_exclusion(
            reply_ifindex,
            tunnel_ifindex,
            match gateway {
                Some(g) => Some(g@),
                None => None,
            },
            require_gateway,
        ),
{
    if reply_ifindex == tunnel_ifindex {
        return Ok(None);
    }
    match gateway {
        Some(g) if g.len() >= 2 => {
            if g[1] == AF_INET {
                Ok(Some(RTF_UP | RTF_STATIC | RTF_HOST | RTF_GATEWAY))
            } else {
                Ok(Some(RTF_UP | RTF_STATIC | RTF_HOST))
            }
        },
        _ => if require_gateway {
            Err(NoOriginalGateway)
        } else {
            Ok(None)
        },
    }
}

/// The version of the routing-socket protocol (`RTM_VERSION`).
pub const RTM_VERSION: u8 = 5;

/// A request that adds a route (`RTM_ADD`).
pub const RTM_ADD: u8 = 0x1;

/// A request that deletes a route (`RTM_DELETE`).
pub const RTM_DELETE: u8 = 0x2;

/// The sockaddr of the destination (`RTA_DST`).
pub const RTA_DST: i32 = 0x1;

/// The sockaddr of the gateway (`RTA_GATEWAY`).
pub const RTA_GATEWAY: i32 = 0x2;

/// The sockaddr of the netmask (`RTA_NETMASK`).
pub const RTA_NETMASK: i32 = 0x4;

/// `n` zero bytes.
pub open spec fn zero_bytes(n: nat) -> Seq<u8> {
    Seq::new(n, |i: int| 0u8)
}

/// The two little-endian bytes of `v` (taken modulo 2^16).
pub open spec fn le16_bytes(v: nat) -> Seq<u8> {
    seq![(v % 256) as u8, ((v / 256) % 256) as u8]
}

/// The four little-endian bytes of `v`.
pub open spec fn le32_bytes(v: i32) -> Seq<u8> {
    let u = v as u32;
    seq![(u % 256) as u8, ((u / 256) % 256) as u8, ((u / 0x1_0000) % 256) as u8, ((u / 0x100_0000) % 256) as u8]
}

/// The `rt_msghdr` of a routing-socket request `len` bytes long, field by
/// field: `rtm_msglen`, `rtm_version`, `rtm_type`, `rtm_index` and padding,
/// `rtm_flags`, `rtm_addrs`, `rtm_pid`, `rtm_seq`, then `rtm_errno`,
/// `rtm_use`, `rtm_inits` and the metrics, all zero.
pub open spec fn route_header(len: nat, rtm_type: u8, rtm_flags: i32, rtm_addrs: i32, rtm_seq: i32) -> Seq<u8> {
    le16_bytes(len) + seq![RTM_VERSION, rtm_type] + zero_bytes(4) + le32_bytes(rtm_flags) + le32_bytes(rtm_addrs)
        + zero_bytes(4) + le32_bytes(rtm_seq) + zero_bytes(68)
}

proof fn lemma_le32_roundtrip(s: Seq<u8>, at: int, v: i32)
    requires
        0 <= at,
        at + 4 <= s.len(),
        s.subrange(at, at + 4) == le32_bytes(v),
    ensures
        le_i32(s, at) == v,
{
    let u = v as u32;
    assert(s[at] == le32_bytes(v)[0]);
    assert(s[at + 1] == le32_bytes(v)[1]);
    assert(s[at + 2] == le32_bytes(v)[2]);
    assert(s[at + 3] == le32_bytes(v)[3]);
    assert((u % 256) + ((u / 256) % 256) * 256 + ((u / 0x1_0000) % 256) * 0x1_0000 + ((u / 0x100_0000) % 256)
        * 0x100_0000 == u) by (bit_vector);
    assert(((v as u32) as i32) == v) by (bit_vector);
}

fn push_le32(buf: &mut Vec<u8>, v: i32)
    ensures
        final(buf)@ == old(buf)@ + le32_bytes(v),
{
    let u = v as u32;
    buf.push((u % 256) as u8);
    buf.push(((u / 256) % 256) as u8);
    buf.push(((u / 0x1_0000) % 256) as u8);
    buf.push(((u / 0x100_0000) % 256) as u8);
    assert(final(buf)@ =~= old(buf)@ + le32_bytes(v));
}

fn push_zeros(buf: &mut Vec<u8>, n: usize)
    ensures
        final(buf)@ == old(buf)@ + zero_bytes(n as nat),
{
    let ghost start = buf@;
    let mut i: usize = 0;
    while i < n
        invariant
            i <= n,
            buf@ == start + zero_bytes(i as nat),
        decreases n - i,
    {
        buf.push(0u8);
        assert(start + zero_bytes((i + 1) as nat) =~= (start + zero_bytes(i as nat)).push(0u8));
        i = i + 1;
    }
}

/// A routing-socket request: the `rt_msghdr` (see `route_header`), whose
/// length is the whole request's and whose `rtm_addrs` holds the bits of all
/// parts, followed by each part's sockaddr padded to a multiple of four
/// bytes. `parts` must be given in ascending `RTA_*` bit order, and the
/// request must fit its 16-bit length field.
pub fn build_route_message(rtm_type: u8, rtm_flags: i32, rtm_seq: i32, parts: &[(i32, &[u8])]) -> (r: Vec<u8>)
    requires
        RT_MSGHDR_LEN + payload_of(parts@, parts@.len() as int).len() <= u16::MAX,
    ensures
        r@ == route_header(
            r@.len(),
            rtm_type,
            rtm_flags,
            addrs_of(parts@, parts@.len() as int),
            rtm_seq,
        ) + payload_of(parts@, parts@.len() as int),
        r@.len() == RT_MSGHDR_LEN + payload_of(parts@, parts@.len() as int).len(),
        le_u16(r@, 0) == r@.len(),
        r@[2] == RTM_VERSION,
        r@[3] == rtm_type,
        le_i32(r@, 8) == rtm_flags,
        le_i32(r@, 12) == addrs_of(parts@, parts@.len() as int),
        le_i32(r@, 20) == rtm_seq,
        r@.subrange(RT_MSGHDR_LEN as int, r@.len() as int) == payload_of(parts@, parts@.len() as int),
{
    let (rtm_addrs, payload) = route_message_payload(parts);
    let total: usize = RT_MSGHDR_LEN + payload.len();
    let mut buf: Vec<u8> = Vec::new();
    buf.push((total % 256) as u8);
    buf.push(((total / 256) % 256) as u8);
    buf.push(RTM_VERSION);
    buf.push(rtm_type);
    push_zeros(&mut buf, 4);
    push_le32(&mut buf, rtm_flags);
    push_le32(&mut buf, rtm_addrs);
    push_zeros(&mut buf, 4);
    push_le32(&mut buf, rtm_seq);
    push_zeros(&mut buf, 68);
    let ghost header = buf@;
    assert(header =~= route_header(total as nat, rtm_type, rtm_flags, rtm_addrs, rtm_seq));
    let mut i: usize = 0;
    while i < payload.len()
        invariant
            i <= payload@.len(),
            buf@ == header + payload@.subrange(0, i as int),
        decreases payload@.len() - i,
    {
        buf.push(payload[i]);
        assert(header + payload@.subrange(0, i + 1) =~= (header + payload@.subrange(0, i as int)).push(payload@[i as int]));
        i = i + 1;
    }
    proof {
        let r = buf@;
        assert(payload@.subrange(0, payload@.len() as int) =~= payload@);
        assert(r.len() == total);
        assert(r.subrange(RT_MSGHDR_LEN as int, r.len() as int) =~= payload@);
        assert(r[0] == (total % 256) as u8 && r[1] == ((total / 256) % 256) as u8);
        assert(total < 0x1_0000);
        assert((total % 256) + ((total / 256) % 256) * 256 == total) by (nonlinear_arith)
            requires
                total < 0x1_0000,
        ;
        assert(r.subrange(8, 12) =~= le32_bytes(rtm_flags));
        assert(r.subrange(12, 16) =~= le32_bytes(rtm_addrs));
        assert(r.subrange(20, 24) =~= le32_bytes(rtm_seq));
        lemma_le32_roundtrip(r, 8, rtm_flags);
        lemma_le32_roundtrip(r, 12, rtm_addrs);
        lemma_le32_roundtrip(r, 20, rtm_seq);
    }
    buf
}

/// The flags and sockaddr slots of the request that deletes a route the
/// configurator added: a static route that is up, matched with its netmask
/// when it has one and as a host route otherwise.
pub open spec fn spec_delete_request(has_netmask: bool) -> (i32, Seq<i32>) {
    if has_netmask {
        (RTF_UP | RTF_STATIC, seq![RTA_DST, RTA_NETMASK])
    } else {
        (RTF_UP | RTF_STATIC | RTF_HOST, seq![RTA_DST])
    }
}

/// The flags of a delete request for a tracked route, and the `RTA_*` slots
/// of its sockaddrs in order (see `spec_delete_request`); the request
/// itself is built with `build_route_message` and type `RTM_DELETE`.
pub fn delete_request(has_netmask: bool) -> (r: (i32, Vec<i32>))
    ensures
        r.0 == spec_delete_request(has_netmask).0,
        r.1@ == spec_delete_request(has_netmask).1,
{
    if has_netmask {
        let v: Vec<i32> = vec![RTA_DST, RTA_NETMASK];
        assert(v@ =~= seq![RTA_DST, RTA_NETMASK]);
        (RTF_UP | RTF_STATIC, v)
    } else {
        let v: Vec<i32> = vec![RTA_DST];
        assert(v@ =~= seq![RTA_DST]);
        (RTF_UP | RTF_STATIC | RTF_HOST, v)
    }
}

} // verus!
