//! Decisions made while a tunnel is set up: the routing an SSL tunnel asks
//! of the platform.

use vstd::prelude::*;
use crate::model::params::TunnelParams;
use crate::model::prefix_mask;
use crate::platform::RoutingConfig;

verus! {

/// The network of `net` with its host bits cleared (`Ipv4Net::trunc`).
pub open spec fn trunc(net: (u32, u32)) -> (u32, u32) {
    (net.0 & prefix_mask(net.1), net.1)
}

/// The networks of `s` that `ignore` does not list, in order.
pub open spec fn without_ignored(s: Seq<(u32, u32)>, ignore: Seq<(u32, u32)>) -> Seq<(u32, u32)>
    decreases s.len(),
{
    if s.len() == 0 {
        seq![]
    } else if ignore.contains(s.last()) {
        without_ignored(s.drop_last(), ignore)
    } else {
        without_ignored(s.drop_last(), ignore).push(s.last())
    }
}

/// The routes of split routing decided from the gateway's ranges: the routes
/// added by hand, then the subnets of the gateway's ranges, less the
/// ignored routes; then, unless it is a single host, the network of the
/// tunnel's own address.
pub open spec fn spec_ssl_routes(
    add: Seq<(u32, u32)>,
    subnets: Seq<(u32, u32)>,
    ignore: Seq<(u32, u32)>,
    device_address: (u32, u32),
) -> Seq<(u32, u32)> {
    let kept = without_ignored(add + subnets, ignore);
    if device_address.1 < 32 {
        kept.push(trunc(device_address))
    } else {
        kept
    }
}

fn network_of(net: (u32, u32)) -> (r: (u32, u32))
    requires
        net.1 <= 32,
    ensures
        r == trunc(net),
{
    let mask: u32 = if net.1 == 0 {
        0
    } else {
        0xffff_ffffu32 << (32 - net.1)
    };
    (net.0 & mask, net.1)
}

fn is_listed(list: &Vec<(u32, u32)>, r: (u32, u32)) -> (b: bool)
    ensures
        b == list@.contains(r),
{
    let mut i: usize = 0;
    while i < list.len()
        invariant
            i <= list@.len(),
            forall|k: int| 0 <= k < i ==> list@[k] != r,
        decreases list@.len() - i,
    {
        if list[i].0 == r.0 && list[i].1 == r.1 {
            assert(list@[i as int] == r);
            return true;
        }
        i = i + 1;
    }
    false
}

fn push_unignored(out: &mut Vec<(u32, u32)>, src: &Vec<(u32, u32)>, ignore: &Vec<(u32, u32)>, Ghost(before): Ghost<
    Seq<(u32, u32)>,
>)
    requires
        old(out)@ == without_ignored(before, ignore@),
    ensures
        final(out)@ == without_ignored(before + src@, ignore@),
{
    let mut i: usize = 0;
    assert(before + src@.take(0) =~= before);
    while i < src.len()
        invariant
            i <= src@.len(),
            out@ == without_ignored(before + src@.take(i as int), ignore@),
        decreases src@.len() - i,
    {
        let r = src[i];
        let ghost all = before + src@.take(i + 1);
        assert(all.drop_last() =~= before + src@.take(i as int));
        assert(all.last() == r);
        if !is_listed(ignore, r) {
            out.push(r);
        }
        i = i + 1;
    }
    assert(src@.take(src@.len() as int) =~= src@);
}

/// The routing an SSL tunnel asks for: only the routes added by hand when
/// routing is off; everything when the default route goes through the
/// tunnel; otherwise the routes of `spec_ssl_routes`, from the subnets of
/// the gateway's ranges and the tunnel's address `device_address`. The
/// gateway `destination` always stays outside.
pub fn ssl_routing_config(
    params: &TunnelParams,
    destination: u32,
    subnets: &Vec<(u32, u32)>,
    device_address: (u32, u32),
) -> (r: RoutingConfig)
    requires
        device_address.1 <= 32,
    ensures
        params.no_routing ==> (r matches RoutingConfig::Split { destination: d, routes } && d == destination
            && routes@ == params.add_routes@),
        !params.no_routing && params.default_route ==> r == (RoutingConfig::Full {
            destination,
            disable_ipv6: params.disable_ipv6,
        }),
        !params.no_routing && !params.default_route ==> (r matches RoutingConfig::Split {
            destination: d,
            routes,
        } && d == destination && routes@ == spec_ssl_routes(
            params.add_routes@,
            subnets@,
            params.ignore_routes@,
            device_address,
        )),
{
    if params.no_routing {
        let mut routes: Vec<(u32, u32)> = Vec::new();
        push_unignored(&mut routes, &params.add_routes, &Vec::new(), Ghost(Seq::empty()));
        proof {
            lemma_nothing_ignored(params.add_routes@);
            assert(seq![] + params.add_routes@ =~= params.add_routes@);
        }
        RoutingConfig::Split { destination, routes }
    } else if params.default_route {
        RoutingConfig::Full { destination, disable_ipv6: params.disable_ipv6 }
    } else {
        let mut routes: Vec<(u32, u32)> = Vec::new();
        push_unignored(&mut routes, &params.add_routes, &params.ignore_routes, Ghost(Seq::empty()));
        assert(seq![] + params.add_routes@ =~= params.add_routes@);
        push_unignored(&mut routes, subnets, &params.ignore_routes, Ghost(params.add_routes@));
        if device_address.1 < 32 {
            routes.push(network_of(device_address));
        }
        RoutingConfig::Split { destination, routes }
    }
}

proof fn lemma_nothing_ignored(s: Seq<(u32, u32)>)
    ensures
        without_ignored(s, seq![]) == s,
    decreases s.len(),
{
    if s.len() > 0 {
        lemma_nothing_ignored(s.drop_last());
        assert(s.drop_last().push(s.last()) =~= s);
    }
}

proof fn lemma_without_ignored_contains(s: Seq<(u32, u32)>, ignore: Seq<(u32, u32)>, x: (u32, u32))
    ensures
        without_ignored(s, ignore).contains(x) <==> (s.contains(x) && !ignore.contains(x)),
    decreases s.len(),
{
    if s.len() > 0 {
        let p = s.drop_last();
        lemma_without_ignored_contains(p, ignore, x);
        let w = without_ignored(p, ignore);
        assert(s =~= p.push(s.last()));
        if s.contains(x) {
            let k = choose|k: int| 0 <= k < s.len() && s[k] == x;
            if k < p.len() {
                assert(p[k] == x);
            }
        }
        if p.contains(x) {
            let k = choose|k: int| 0 <= k < p.len() && p[k] == x;
            assert(s[k] == x);
        }
        if !ignore.contains(s.last()) {
            let e = w.push(s.last());
            if e.contains(x) {
                let k = choose|k: int| 0 <= k < e.len() && e[k] == x;
                if k < w.len() {
                    assert(w[k] == x);
                }
            }
            if w.contains(x) {
                let k = choose|k: int| 0 <= k < w.len() && w[k] == x;
                assert(e[k] == x);
            }
            if x == s.last() {
                assert(e[e.len() - 1] == x);
                assert(s[s.len() - 1] == x);
            }
        }
    }
}

/// Split routing sends an ignored route through the tunnel only when it is
/// the network of the tunnel's own address, and sends every route added by
/// hand or acquired from the gateway that is not ignored.
pub proof fn law_ssl_routes_respect_ignore(
    add: Seq<(u32, u32)>,
    subnets: Seq<(u32, u32)>,
    ignore: Seq<(u32, u32)>,
    device_address: (u32, u32),
    r: (u32, u32),
)
    ensures
        ignore.contains(r) && (device_address.1 >= 32 || r != trunc(device_address)) ==> !spec_ssl_routes(
            add,
            subnets,
            ignore,
            device_address,
        ).contains(r),
        (add.contains(r) || subnets.contains(r)) && !ignore.contains(r) ==> spec_ssl_routes(
            add,
            subnets,
            ignore,
            device_address,
        ).contains(r),
{
    let all = add + subnets;
    lemma_without_ignored_contains(all, ignore, r);
    let kept = without_ignored(all, ignore);
    if add.contains(r) {
        let k = choose|k: int| 0 <= k < add.len() && add[k] == r;
        assert(all[k] == r);
    }
    if subnets.contains(r) {
        let k = choose|k: int| 0 <= k < subnets.len() && subnets[k] == r;
        assert(all[add.len() + k] == r);
    }
    if device_address.1 < 32 {
        let e = kept.push(trunc(device_address));
        if e.contains(r) {
            let k = choose|k: int| 0 <= k < e.len() && e[k] == r;
            if k < kept.len() {
                assert(kept[k] == r);
            }
        }
        if kept.contains(r) {
            let k = choose|k: int| 0 <= k < kept.len() && kept[k] == r;
            assert(e[k] == r);
        }
    }
}

} // verus!
