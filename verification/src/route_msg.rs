//! PF_ROUTE message layout: sockaddr padding, locating the sockaddrs that
//! follow a routing message header, classifying default routes and
//! assembling the sockaddr payload of a routing-socket request.

use vstd::prelude::*;

verus! {

/// Width of the word that PF_ROUTE sockaddrs are padded to.
pub const SA_WORD: usize = 4;

/// Number of sockaddr slots a routing message can carry (`RTAX_MAX`).
pub const RTAX_MAX: usize = 8;

/// Slot of the destination sockaddr (`RTAX_DST`).
pub const RTAX_DST: usize = 0;

/// Slot of the gateway sockaddr (`RTAX_GATEWAY`).
pub const RTAX_GATEWAY: usize = 1;

/// Slot of the netmask sockaddr (`RTAX_NETMASK`).
pub const RTAX_NETMASK: usize = 2;

/// The padded size that a sockaddr of `len` bytes occupies in a routing message.
pub open spec fn spec_roundup(len: nat) -> nat {
    if len == 0 {
        4
    } else {
        ((len + 3) / 4 * 4) as nat
    }
}

/// PF_ROUTE sockaddrs are padded to a 4-byte boundary; a zero-length sockaddr
/// still advances one word.
pub fn roundup(len: usize) -> (r: usize)
    requires
        len <= usize::MAX - 3,
    ensures
        r == spec_roundup(len as nat),
        r >= len,
        r % 4 == 0,
        len > 0 ==> r < len + 4,
        len == 0 ==> r == 4,
{
    if len == 0 {
        SA_WORD
    } else {
        (len + 3) / 4 * 4
    }
}

/// Number of set bits of a byte.
pub open spec fn popcount(b: nat) -> nat
    decreases b,
{
    if b == 0 {
        0
    } else {
        (b % 2) + popcount(b / 2)
    }
}

proof fn lemma_popcount_byte(b: nat)
    requires
        b < 256,
    ensures
        popcount(b) <= 8,
{
    reveal_with_fuel(popcount, 9);
}

/// Sum of the set bits of `s[from..to]`.
pub open spec fn popcount_range(s: Seq<u8>, from: int, to: int) -> nat
    decreases to - from,
{
    if to <= from {
        0
    } else {
        popcount_range(s, from, to - 1) + popcount(s[to - 1] as nat)
    }
}

proof fn lemma_popcount_range_bound(s: Seq<u8>, from: int, to: int)
    requires
        from <= to,
    ensures
        popcount_range(s, from, to) <= 8 * (to - from),
    decreases to - from,
{
    if from < to {
        lemma_popcount_range_bound(s, from, to - 1);
        lemma_popcount_byte(s[to - 1] as nat);
    }
}

/// The prefix length a netmask sockaddr encodes: the set bits of its
/// `sin_addr` bytes (offsets 4..8), where the sockaddr may be truncated to its
/// significant bytes and a missing tail counts as zero.
pub open spec fn spec_netmask_prefix_len(sa: Seq<u8>) -> nat {
    if sa.len() < 4 {
        0
    } else if sa.len() < 8 {
        popcount_range(sa, 4, sa.len() as int)
    } else {
        popcount_range(sa, 4, 8)
    }
}

fn count_ones(b: u8) -> (r: u32)
    ensures
        r == popcount(b as nat),
        r <= 8,
{
    let mut v: u8 = b;
    let mut n: u32 = 0;
    proof {
        lemma_popcount_byte(b as nat);
    }
    while v != 0
        invariant
            n + popcount(v as nat) == popcount(b as nat),
            popcount(b as nat) <= 8,
        decreases v,
    {
        n = n + (v % 2) as u32;
        v = v / 2;
    }
    n
}

/// Number of set bits in a routing-socket netmask sockaddr.
pub fn netmask_prefix_len(sa: &[u8]) -> (r: u32)
    ensures
        r == spec_netmask_prefix_len(sa@),
        r <= 32,
{
    if sa.len() < 4 {
        return 0;
    }
    let end: usize = if sa.len() < 8 { sa.len() } else { 8 };
    let mut i: usize = 4;
    let mut total: u32 = 0;
    proof {
        lemma_popcount_range_bound(sa@, 4, end as int);
    }
    while i < end
        invariant
            4 <= i <= end,
            end <= 8,
            end <= sa@.len(),
            total == popcount_range(sa@, 4, i as int),
            total <= 8 * (i - 4),
        decreases end - i,
    {
        let c = count_ones(sa[i]);
        total = total + c;
        i = i + 1;
    }
    total
}

/// Whether bit `i` of a routing message's `rtm_addrs` mask is set.
pub open spec fn addr_bit(addrs: i32, i: int) -> bool {
    0 <= i < 32 && ((addrs as u32) >> (i as u32)) & 1u32 == 1u32
}

/// Offset in `body` at which the sockaddr for slot `i` would start, walking
/// the slots announced in `addrs` and advancing over each present sockaddr by
/// its padded length.
pub open spec fn slot_offset(body: Seq<u8>, addrs: i32, i: nat) -> nat
    decreases i,
{
    if i == 0 {
        0
    } else {
        let prev = slot_offset(body, addrs, (i - 1) as nat);
        if addr_bit(addrs, i - 1) && prev < body.len() {
            prev + spec_roundup(body[prev as int] as nat)
        } else {
            prev
        }
    }
}

/// Whether the sockaddr of slot `i` is present: announced in `addrs` and
/// starting inside `body`.
pub open spec fn slot_present(body: Seq<u8>, addrs: i32, i: nat) -> bool {
    addr_bit(addrs, i as int) && slot_offset(body, addrs, i) < body.len()
}

/// The bytes of the sockaddr in slot `i`: its announced `sa_len`, cut at the
/// end of `body`.
pub open spec fn slot_bytes(body: Seq<u8>, addrs: i32, i: nat) -> Seq<u8> {
    let off = slot_offset(body, addrs, i) as int;
    let end = off + body[off] as int;
    body.subrange(off, if end < body.len() { end } else { body.len() as int })
}

/// Where a sockaddr sits in a routing message body.
#[derive(Clone, Copy, Debug, PartialEq, Eq)]
pub struct SockaddrSpan {
    /// First byte of the sockaddr.
    pub start: usize,
    /// One past its last byte inside the body.
    pub end: usize,
}

fn bit_set(addrs: i32, i: usize) -> (r: bool)
    requires
        i < 32,
    ensures
        r == addr_bit(addrs, i as int),
{
    ((addrs as u32) >> (i as u32)) & 1u32 == 1u32
}

proof fn lemma_slot_offset_mono(body: Seq<u8>, addrs: i32, i: nat, j: nat)
    requires
        i <= j,
    ensures
        slot_offset(body, addrs, i) <= slot_offset(body, addrs, j),
    decreases j - i,
{
    if i < j {
        lemma_slot_offset_mono(body, addrs, i, (j - 1) as nat);
    }
}

/// Locates the sockaddrs announced in `addrs` that follow a routing message
/// header: entry `i` is the span of slot `i`, or `None` where the slot is not
/// announced or the body ends before it.
pub fn locate_sockaddrs(body: &[u8], addrs: i32) -> (spans: Vec<Option<SockaddrSpan>>)
    requires
        body@.len() <= usize::MAX - 1024,
    ensures
        spans@.len() == RTAX_MAX,
        forall|i: int|
            0 <= i < RTAX_MAX ==> {
                &&& (#[trigger] spans@[i]).is_some() == slot_present(body@, addrs, i as nat)
                &&& spans@[i] matches Some(sp) ==> {
                    &&& sp.start == slot_offset(body@, addrs, i as nat)
                    &&& sp.start <= sp.end <= body@.len()
                    &&& body@.subrange(sp.start as int, sp.end as int) == slot_bytes(body@, addrs, i as nat)
                }
            },
{
    let mut spans: Vec<Option<SockaddrSpan>> = Vec::new();
    let mut offset: usize = 0;
    let mut i: usize = 0;
    while i < RTAX_MAX
        invariant
            i <= RTAX_MAX,
            spans@.len() == i,
            offset == slot_offset(body@, addrs, i as nat),
            offset <= body@.len() + 260 * i,
            body@.len() <= usize::MAX - 1024,
            forall|k: int|
                0 <= k < i ==> {
                    &&& (#[trigger] spans@[k]).is_some() == slot_present(body@, addrs, k as nat)
                    &&& spans@[k] matches Some(sp) ==> {
                        &&& sp.start == slot_offset(body@, addrs, k as nat)
                        &&& sp.start <= sp.end <= body@.len()
                        &&& body@.subrange(sp.start as int, sp.end as int) == slot_bytes(
                            body@,
                            addrs,
                            k as nat,
                        )
                    }
                },
        decreases RTAX_MAX - i,
    {
        if bit_set(addrs, i) && offset < body.len() {
            let sa_len = body[offset] as usize;
            let end = if offset + sa_len < body.len() {
                offset + sa_len
            } else {
                body.len()
            };
            spans.push(Some(SockaddrSpan { start: offset, end }));
            let step = roundup(sa_len);
            offset = offset + step;
        } else {
            spans.push(None);
        }
        i = i + 1;
    }
    spans
}

/// Whether a destination sockaddr names 0.0.0.0: its `sin_addr` bytes
/// (offsets 4..8) are all zero, or it is too short to hold them.
pub open spec fn dst_is_zero(sa: Seq<u8>) -> bool {
    sa.len() < 8 || (sa[4] == 0 && sa[5] == 0 && sa[6] == 0 && sa[7] == 0)
}

/// A route is a default route when it carries a destination that is
/// 0.0.0.0 and its netmask, if present, has no bits set.
pub open spec fn spec_route_is_default(body: Seq<u8>, addrs: i32) -> bool {
    &&& slot_present(body, addrs, RTAX_DST as nat)
    &&& dst_is_zero(slot_bytes(body, addrs, RTAX_DST as nat))
    &&& slot_present(body, addrs, RTAX_NETMASK as nat) ==> spec_netmask_prefix_len(
        slot_bytes(body, addrs, RTAX_NETMASK as nat),
    ) == 0
}

pub(crate) fn slice_range(s: &[u8], start: usize, end: usize) -> (r: Vec<u8>)
    requires
        start <= end <= s@.len(),
    ensures
        r@ == s@.subrange(start as int, end as int),
{
    let mut r: Vec<u8> = Vec::new();
    let mut i = start;
    while i < end
        invariant
            start <= i <= end,
            end <= s@.len(),
            r@ == s@.subrange(start as int, i as int),
        decreases end - i,
    {
        r.push(s[i]);
        i = i + 1;
    }
    r
}

/// Whether the sockaddrs of a routing table entry describe a default route:
/// a destination of 0.0.0.0 with an all-zero (or absent) netmask.
pub fn route_is_default(body: &[u8], rtm_addrs: i32) -> (r: bool)
    requires
        body@.len() <= usize::MAX - 1024,
    ensures
        r == spec_route_is_default(body@, rtm_addrs),
{
    let spans = locate_sockaddrs(body, rtm_addrs);
    let dst = spans[RTAX_DST];
    let dst_zero = match dst {
        None => {
            return false;
        },
        Some(sp) => {
            let sa = slice_range(body, sp.start, sp.end);
            sa.len() < 8 || (sa[4] == 0 && sa[5] == 0 && sa[6] == 0 && sa[7] == 0)
        },
    };
    let netmask_zero = match spans[RTAX_NETMASK] {
        None => true,
        Some(sp) => {
            let sa = slice_range(body, sp.start, sp.end);
            netmask_prefix_len(sa.as_slice()) == 0
        },
    };
    dst_zero && netmask_zero
}

/// The gateway sockaddr of a routing reply, when one is announced, present
/// and non-empty.
pub open spec fn spec_reply_gateway(body: Seq<u8>, addrs: i32) -> Option<Seq<u8>> {
    if slot_present(body, addrs, RTAX_GATEWAY as nat) && body[slot_offset(
        body,
        addrs,
        RTAX_GATEWAY as nat,
    ) as int] != 0 {
        Some(slot_bytes(body, addrs, RTAX_GATEWAY as nat))
    } else {
        None
    }
}

/// Extracts the gateway sockaddr from the sockaddrs of an `RTM_GET` reply.
pub fn reply_gateway(body: &[u8], rtm_addrs: i32) -> (r: Option<Vec<u8>>)
    requires
        body@.len() <= usize::MAX - 1024,
    ensures
        r matches Some(g) ==> spec_reply_gateway(body@, rtm_addrs) == Some(g@),
        r is None ==> spec_reply_gateway(body@, rtm_addrs) is None,
{
    let spans = locate_sockaddrs(body, rtm_addrs);
    match spans[RTAX_GATEWAY] {
        None => None,
        Some(sp) => {
            if body[sp.start] != 0 {
                Some(slice_range(body, sp.start, sp.end))
            } else {
                None
            }
        },
    }
}


/// A sockaddr followed by the zero bytes that pad it to its routing-message size.
pub open spec fn padded(sa: Seq<u8>) -> Seq<u8> {
    sa + Seq::new((spec_roundup(sa.len()) - sa.len()) as nat, |i: int| 0u8)
}

/// The sockaddr payload of a routing message: each sockaddr padded, in order.
pub open spec fn payload_of(parts: Seq<(i32, &[u8])>, n: int) -> Seq<u8>
    decreases n,
{
    if n <= 0 {
        Seq::empty()
    } else {
        payload_of(parts, n - 1) + padded(parts[n - 1].1@)
    }
}

/// The `rtm_addrs` mask of a routing message: the bits of all its sockaddrs.
pub open spec fn addrs_of(parts: Seq<(i32, &[u8])>, n: int) -> i32
    decreases n,
{
    if n <= 0 {
        0
    } else {
        addrs_of(parts, n - 1) | parts[n - 1].0
    }
}

proof fn lemma_payload_grows(parts: Seq<(i32, &[u8])>, k: int, n: int)
    requires
        0 <= k <= n,
    ensures
        payload_of(parts, k).len() <= payload_of(parts, n).len(),
    decreases n - k,
{
    if k < n {
        lemma_payload_grows(parts, k, n - 1);
    }
}

proof fn lemma_roundup_fits(len: nat)
    requires
        spec_roundup(len) <= usize::MAX,
    ensures
        len <= usize::MAX - 3,
{
    if len > 0 {
        assert((len + 3) / 4 * 4 > len - 1) by (nonlinear_arith)
            requires len > 0;
        assert(len <= usize::MAX - 3) by (nonlinear_arith)
            requires
                (len + 3) / 4 * 4 <= usize::MAX,
                usize::MAX == 0xffff_ffff || usize::MAX == 0xffff_ffff_ffff_ffff,
        ;
    }
}

/// Assembles the part of a routing-socket request that follows its header:
/// the `rtm_addrs` mask and the padded sockaddrs. `parts` must be given in
/// ascending `RTA_*` bit order.
pub fn route_message_payload(parts: &[(i32, &[u8])]) -> (r: (i32, Vec<u8>))
    requires
        payload_of(parts@, parts@.len() as int).len() <= usize::MAX,
    ensures
        r.0 == addrs_of(parts@, parts@.len() as int),
        r.1@ == payload_of(parts@, parts@.len() as int),
{
    let mut payload: Vec<u8> = Vec::new();
    let mut rtm_addrs: i32 = 0;
    let mut k: usize = 0;
    while k < parts.len()
        invariant
            k <= parts@.len(),
            payload_of(parts@, parts@.len() as int).len() <= usize::MAX,
            rtm_addrs == addrs_of(parts@, k as int),
            payload@ == payload_of(parts@, k as int),
        decreases parts@.len() - k,
    {
        let bit = parts[k].0;
        let sa = parts[k].1;
        proof {
            lemma_payload_grows(parts@, k + 1, parts@.len() as int);
            lemma_roundup_fits(sa@.len());
        }
        rtm_addrs = rtm_addrs | bit;
        let start = payload.len();
        let mut j: usize = 0;
        while j < sa.len()
            invariant
                j <= sa@.len(),
                sa@.len() <= usize::MAX - 3,
                start == payload@.len() - j,
                payload@ == payload_of(parts@, k as int) + sa@.subrange(0, j as int),
            decreases sa@.len() - j,
        {
            payload.push(sa[j]);
            j = j + 1;
        }
        let target = roundup(sa.len());
        let mut z: usize = sa.len();
        while z < target
            invariant
                sa@.len() <= z <= target,
                target == spec_roundup(sa@.len()),
                payload@ == payload_of(parts@, k as int) + sa@ + Seq::new(
                    (z - sa@.len()) as nat,
                    |i: int| 0u8,
                ),
            decreases target - z,
        {
            payload.push(0u8);
            z = z + 1;
        }
        assert(payload_of(parts@, k + 1) == payload_of(parts@, k as int) + padded(parts@[k as int].1@));
        k = k + 1;
    }
    (rtm_addrs, payload)
}

} // verus!
