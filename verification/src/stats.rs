//! Traffic statistics of the tunnel interface: the rate sampling that every
//! platform's stats poller shares, and the counters derived from raw
//! interface readings.

use vstd::prelude::*;

verus! {

/// Marks a sampler that has not taken its first sample yet.
pub const NO_SAMPLE: u64 = u64::MAX;

/// Rates are recomputed only when at least this much time (in nanoseconds)
/// has passed since the last rate sample, so that two polls milliseconds
/// apart cannot produce a tiny interval and a wildly inflated rate.
pub const MIN_SAMPLE_NS: u64 = 500_000_000;

/// What a poll has to do about transfer rates.
#[derive(Clone, Copy, Debug, PartialEq, Eq)]
pub enum RateStep {
    /// The first sample: it becomes the baseline and both rates are zero.
    First,
    /// Too little time passed since the last rate sample: report these rates again.
    Reuse { bps_rx: u64, bps_tx: u64 },
    /// Compute new rates from these byte deltas over `elapsed_ns`, then
    /// record them with [`RateSampler::record_rates`].
    Measure { delta_rx: u64, delta_tx: u64, elapsed_ns: u64 },
}

/// The state a rate sampler keeps between polls.
pub struct RateSampler {
    prev_ns: u64,
    prev_rx: u64,
    prev_tx: u64,
    last_bps_rx: u64,
    last_bps_tx: u64,
}

/// The abstract state of a [`RateSampler`].
pub struct RateSamplerView {
    /// Time of the last rate sample, or [`NO_SAMPLE`].
    pub prev_ns: u64,
    /// Received byte counter at the last rate sample.
    pub prev_rx: u64,
    /// Sent byte counter at the last rate sample.
    pub prev_tx: u64,
    /// Last reported receive rate.
    pub last_bps_rx: u64,
    /// Last reported send rate.
    pub last_bps_tx: u64,
}

impl View for RateSampler {
    type V = RateSamplerView;

    closed spec fn view(&self) -> RateSamplerView {
        RateSamplerView {
            prev_ns: self.prev_ns,
            prev_rx: self.prev_rx,
            prev_tx: self.prev_tx,
            last_bps_rx: self.last_bps_rx,
            last_bps_tx: self.last_bps_tx,
        }
    }
}

/// `a - b`, or zero when `b` is larger (`u64::saturating_sub`).
pub open spec fn sat_sub(a: u64, b: u64) -> u64 {
    if a >= b {
        (a - b) as u64
    } else {
        0
    }
}

/// `a + b`, or `u64::MAX` when the sum does not fit (`u64::saturating_add`).
pub open spec fn sat_add(a: u64, b: u64) -> u64 {
    if a + b <= u64::MAX {
        (a + b) as u64
    } else {
        u64::MAX
    }
}

/// The step a poll at `now_ns` with these counters takes from state `s`.
pub open spec fn spec_step(s: RateSamplerView, now_ns: u64, bytes_rx: u64, bytes_tx: u64) -> RateStep {
    if s.prev_ns == NO_SAMPLE {
        RateStep::First
    } else if sat_sub(now_ns, s.prev_ns) < MIN_SAMPLE_NS {
        RateStep::Reuse { bps_rx: s.last_bps_rx, bps_tx: s.last_bps_tx }
    } else {
        RateStep::Measure {
            delta_rx: sat_sub(bytes_rx, s.prev_rx),
            delta_tx: sat_sub(bytes_tx, s.prev_tx),
            elapsed_ns: sat_sub(now_ns, s.prev_ns),
        }
    }
}

/// The state after a poll at `now_ns` with these counters: the first poll
/// and every poll that measures new rates move the sample point to this
/// poll; a poll inside the sampling window leaves the state as it is.
pub open spec fn spec_after_step(s: RateSamplerView, now_ns: u64, bytes_rx: u64, bytes_tx: u64) -> RateSamplerView {
    if spec_step(s, now_ns, bytes_rx, bytes_tx) is Reuse {
        s
    } else {
        RateSamplerView { prev_ns: now_ns, prev_rx: bytes_rx, prev_tx: bytes_tx, ..s }
    }
}

/// The state after recording rates: the rates change, the sample point stays.
pub open spec fn spec_after_rates(s: RateSamplerView, bps_rx: u64, bps_tx: u64) -> RateSamplerView {
    RateSamplerView { last_bps_rx: bps_rx, last_bps_tx: bps_tx, ..s }
}

impl RateSampler {
    /// A sampler that has taken no sample yet.
    pub fn new() -> (r: Self)
        ensures
            r@.prev_ns == NO_SAMPLE,
            r@.prev_rx == 0,
            r@.prev_tx == 0,
            r@.last_bps_rx == 0,
            r@.last_bps_tx == 0,
    {
        RateSampler { prev_ns: NO_SAMPLE, prev_rx: 0, prev_tx: 0, last_bps_rx: 0, last_bps_tx: 0 }
    }

    /// Decides what a poll at `now_ns` (nanoseconds since the poller was
    /// created) with the current byte counters does about rates. The first
    /// poll and every poll that measures new rates move the sample point to
    /// this poll; a poll inside the sampling window leaves the state as it is.
    pub fn poll_step(&mut self, now_ns: u64, bytes_rx: u64, bytes_tx: u64) -> (r: RateStep)
        ensures
            r == spec_step(old(self)@, now_ns, bytes_rx, bytes_tx),
            final(self)@ == spec_after_step(old(self)@, now_ns, bytes_rx, bytes_tx),
            r is Reuse ==> final(self)@ == old(self)@,
            !(r is Reuse) ==> {
                &&& final(self)@.prev_ns == now_ns
                &&& final(self)@.prev_rx == bytes_rx
                &&& final(self)@.prev_tx == bytes_tx
                &&& final(self)@.last_bps_rx == old(self)@.last_bps_rx
                &&& final(self)@.last_bps_tx == old(self)@.last_bps_tx
            },
    {
        if self.prev_ns == NO_SAMPLE {
            self.prev_rx = bytes_rx;
            self.prev_tx = bytes_tx;
            self.prev_ns = now_ns;
            return RateStep::First;
        }
        let elapsed_ns = now_ns.saturating_sub(self.prev_ns);
        if elapsed_ns < MIN_SAMPLE_NS {
            return RateStep::Reuse { bps_rx: self.last_bps_rx, bps_tx: self.last_bps_tx };
        }
        let delta_rx = bytes_rx.saturating_sub(self.prev_rx);
        let delta_tx = bytes_tx.saturating_sub(self.prev_tx);
        self.prev_rx = bytes_rx;
        self.prev_tx = bytes_tx;
        self.prev_ns = now_ns;
        RateStep::Measure { delta_rx, delta_tx, elapsed_ns }
    }

    /// Records the rates computed for a `Measure` step, so that polls inside
    /// the next sampling window report them.
    pub fn record_rates(&mut self, bps_rx: u64, bps_tx: u64)
        ensures
            final(self)@.last_bps_rx == bps_rx,
            final(self)@.last_bps_tx == bps_tx,
            final(self)@.prev_ns == old(self)@.prev_ns,
            final(self)@.prev_rx == old(self)@.prev_rx,
            final(self)@.prev_tx == old(self)@.prev_tx,
            final(self)@ == spec_after_rates(old(self)@, bps_rx, bps_tx),
    {
        self.last_bps_rx = bps_rx;
        self.last_bps_tx = bps_tx;
    }
}

/// The first poll of a fresh sampler reports zero rates and becomes the
/// baseline; a second poll less than [`MIN_SAMPLE_NS`] later reports those
/// same zero rates again instead of a rate over a tiny interval.
pub proof fn law_first_sample_then_window(now1: u64, rx1: u64, tx1: u64, now2: u64, rx2: u64, tx2: u64)
    requires
        now1 <= now2,
        now2 - now1 < MIN_SAMPLE_NS,
        now1 != NO_SAMPLE,
    ensures
        ({
            let s0 = RateSamplerView { prev_ns: NO_SAMPLE, prev_rx: 0, prev_tx: 0, last_bps_rx: 0, last_bps_tx: 0 };
            let s1 = RateSamplerView { prev_ns: now1, prev_rx: rx1, prev_tx: tx1, last_bps_rx: 0, last_bps_tx: 0 };
            &&& spec_step(s0, now1, rx1, tx1) == RateStep::First
            &&& spec_step(s1, now2, rx2, tx2) == RateStep::Reuse { bps_rx: 0, bps_tx: 0 }
        }),
{
}

/// A poll measures against the sample of the last poll that sampled: after
/// a sampling poll at `t1` whose rates were recorded, a poll at `t2` reports
/// those rates while inside the window, and afterwards measures the byte
/// deltas since `t1` over the time since `t1`.
pub proof fn law_rates_from_previous_sample(
    s: RateSamplerView,
    t1: u64,
    rx1: u64,
    tx1: u64,
    bps_rx: u64,
    bps_tx: u64,
    t2: u64,
    rx2: u64,
    tx2: u64,
)
    requires
        !(spec_step(s, t1, rx1, tx1) is Reuse),
        t1 != NO_SAMPLE,
        t1 <= t2,
    ensures
        ({
            let s1 = spec_after_rates(spec_after_step(s, t1, rx1, tx1), bps_rx, bps_tx);
            &&& t2 - t1 < MIN_SAMPLE_NS ==> spec_step(s1, t2, rx2, tx2) == RateStep::Reuse { bps_rx, bps_tx }
            &&& t2 - t1 >= MIN_SAMPLE_NS ==> spec_step(s1, t2, rx2, tx2) == RateStep::Measure {
                delta_rx: sat_sub(rx2, rx1),
                delta_tx: sat_sub(tx2, tx1),
                elapsed_ns: (t2 - t1) as u64,
            }
        }),
{
}

/// Interface counters as the platform reports them.
#[derive(Clone, Copy, Debug, PartialEq, Eq)]
pub struct InterfaceCounters {
    pub in_octets: u64,
    pub out_octets: u64,
    pub in_ucast_pkts: u64,
    pub in_nucast_pkts: u64,
    pub out_ucast_pkts: u64,
    pub out_nucast_pkts: u64,
    pub in_errors: u64,
    pub out_errors: u64,
}

/// Traffic totals of one poll.
#[derive(Clone, Copy, Debug, PartialEq, Eq)]
pub struct Totals {
    pub bytes_rx: u64,
    pub bytes_tx: u64,
    pub packets_rx: u64,
    pub packets_tx: u64,
    pub errors_rx: u64,
    pub errors_tx: u64,
}

/// Stats poller of a tunnel interface whose byte counters do not start at
/// zero: it reports bytes relative to the counters seen when it was created.
pub struct WindowsStatsPoller {
    luid: u64,
    baseline_in: u64,
    baseline_out: u64,
    sampler: RateSampler,
}

impl WindowsStatsPoller {
    /// A poller for the interface with locally unique id `luid`, whose
    /// counters read `first` when the poller was created.
    pub fn new(luid: u64, first: InterfaceCounters) -> (r: Self)
        ensures
            r.luid_spec() == luid,
            r.baseline_spec() == (first.in_octets, first.out_octets),
            r.sampler_spec()@.prev_ns == NO_SAMPLE,
    {
        WindowsStatsPoller {
            luid,
            baseline_in: first.in_octets,
            baseline_out: first.out_octets,
            sampler: RateSampler::new(),
        }
    }

    /// The interface's locally unique id.
    pub closed spec fn luid_spec(&self) -> u64 {
        self.luid
    }

    /// The byte counters at creation.
    pub closed spec fn baseline_spec(&self) -> (u64, u64) {
        (self.baseline_in, self.baseline_out)
    }

    /// The rate sampler.
    pub closed spec fn sampler_spec(&self) -> RateSampler {
        self.sampler
    }

    /// The interface's locally unique id.
    pub fn luid(&self) -> (r: u64)
        ensures
            r == self.luid_spec(),
    {
        self.luid
    }

    /// Totals of a poll that read `c`: bytes since creation (never below
    /// zero), packets as unicast plus non-unicast (saturating), errors as read.
    pub fn totals(&self, c: InterfaceCounters) -> (r: Totals)
        ensures
            r.bytes_rx == sat_sub(c.in_octets, self.baseline_spec().0),
            r.bytes_tx == sat_sub(c.out_octets, self.baseline_spec().1),
            r.packets_rx == sat_add(c.in_ucast_pkts, c.in_nucast_pkts),
            r.packets_tx == sat_add(c.out_ucast_pkts, c.out_nucast_pkts),
            r.errors_rx == c.in_errors,
            r.errors_tx == c.out_errors,
    {
        Totals {
            bytes_rx: c.in_octets.saturating_sub(self.baseline_in),
            bytes_tx: c.out_octets.saturating_sub(self.baseline_out),
            packets_rx: c.in_ucast_pkts.saturating_add(c.in_nucast_pkts),
            packets_tx: c.out_ucast_pkts.saturating_add(c.out_nucast_pkts),
            errors_rx: c.in_errors,
            errors_tx: c.out_errors,
        }
    }

    /// The rate step of a poll at `now_ns` with totals `t` (see [`RateSampler::poll_step`]).
    pub fn poll_step(&mut self, now_ns: u64, t: &Totals) -> (r: RateStep)
        ensures
            r == spec_step(old(self).sampler_spec()@, now_ns, t.bytes_rx, t.bytes_tx),
            final(self).sampler_spec()@ == spec_after_step(old(self).sampler_spec()@, now_ns, t.bytes_rx, t.bytes_tx),
            final(self).luid_spec() == old(self).luid_spec(),
            final(self).baseline_spec() == old(self).baseline_spec(),
    {
        self.sampler.poll_step(now_ns, t.bytes_rx, t.bytes_tx)
    }

    /// Records the rates computed for a `Measure` step.
    pub fn record_rates(&mut self, bps_rx: u64, bps_tx: u64)
        ensures
            final(self).sampler_spec()@.last_bps_rx == bps_rx,
            final(self).sampler_spec()@.last_bps_tx == bps_tx,
            final(self).sampler_spec()@ == spec_after_rates(old(self).sampler_spec()@, bps_rx, bps_tx),
            final(self).luid_spec() == old(self).luid_spec(),
            final(self).baseline_spec() == old(self).baseline_spec(),
    {
        self.sampler.record_rates(bps_rx, bps_tx)
    }
}

/// Stats poller of a tunnel interface whose counters start at zero with the
/// tunnel (a fresh `utun` device, or a netlink link looked up by index).
pub struct MacosStatsPoller {
    device_name: String,
    sampler: RateSampler,
}

impl MacosStatsPoller {
    /// A poller for the interface `device_name`.
    pub fn new(device_name: &str) -> (r: Self)
        ensures
            r.device_name_spec() == device_name@,
            r.sampler_spec()@.prev_ns == NO_SAMPLE,
    {
        MacosStatsPoller { device_name: device_name.to_owned(), sampler: RateSampler::new() }
    }

    /// The interface name.
    pub closed spec fn device_name_spec(&self) -> Seq<char> {
        self.device_name@
    }

    /// The rate sampler.
    pub closed spec fn sampler_spec(&self) -> RateSampler {
        self.sampler
    }

    /// The interface name.
    pub fn device_name(&self) -> (r: &str)
        ensures
            r@ == self.device_name_spec(),
    {
        self.device_name.as_str()
    }

    /// The rate step of a poll at `now_ns` with these byte counters.
    pub fn poll_step(&mut self, now_ns: u64, bytes_rx: u64, bytes_tx: u64) -> (r: RateStep)
        ensures
            r == spec_step(old(self).sampler_spec()@, now_ns, bytes_rx, bytes_tx),
            final(self).sampler_spec()@ == spec_after_step(old(self).sampler_spec()@, now_ns, bytes_rx, bytes_tx),
            final(self).device_name_spec() == old(self).device_name_spec(),
    {
        self.sampler.poll_step(now_ns, bytes_rx, bytes_tx)
    }

    /// Records the rates computed for a `Measure` step.
    pub fn record_rates(&mut self, bps_rx: u64, bps_tx: u64)
        ensures
            final(self).sampler_spec()@.last_bps_rx == bps_rx,
            final(self).sampler_spec()@.last_bps_tx == bps_tx,
            final(self).sampler_spec()@ == spec_after_rates(old(self).sampler_spec()@, bps_rx, bps_tx),
            final(self).device_name_spec() == old(self).device_name_spec(),
    {
        self.sampler.record_rates(bps_rx, bps_tx)
    }
}

/// Every route-socket message starts with its length (`u16`), version and type.
pub const RTM_HDR_LEN: usize = 4;

/// The type of an interface message carrying 64-bit counters (`RTM_IFINFO2`).
pub const RTM_IFINFO2: u8 = 0x12;

/// The size of an `if_msghdr2`: the message header, then `if_data64` at offset 32.
pub const IF_MSGHDR2_LEN: usize = 160;

/// The little-endian `u16` at `s[at..at + 2]`.
pub open spec fn le_u16(s: Seq<u8>, at: int) -> u16 {
    (s[at] as int + (s[at + 1] as int) * 0x100) as u16
}

/// The little-endian `u32` at `s[at..at + 4]`.
pub open spec fn le_u32(s: Seq<u8>, at: int) -> u32 {
    (s[at] as int + (s[at + 1] as int) * 0x100 + (s[at + 2] as int) * 0x1_0000 + (s[at + 3] as int)
        * 0x100_0000) as u32
}

/// The little-endian `u64` at `s[at..at + 8]`.
pub open spec fn le_u64(s: Seq<u8>, at: int) -> u64
    decreases 8int,
{
    le_u64_from(s, at, 8)
}

/// The little-endian number in the `n` bytes at `s[at..at + n]`.
pub open spec fn le_u64_from(s: Seq<u8>, at: int, n: nat) -> u64
    decreases n,
{
    if n == 0 {
        0
    } else {
        ((s[at + n - 1] as int) * pow256((n - 1) as nat) + le_u64_from(s, at, (n - 1) as nat) as int) as u64
    }
}

/// `256^k`.
pub open spec fn pow256(k: nat) -> int
    decreases k,
{
    if k == 0 {
        1
    } else {
        256 * pow256((k - 1) as nat)
    }
}

/// The counters of the interface message at `at`, read from its `if_data64`.
pub open spec fn if_totals_at(s: Seq<u8>, at: int) -> Totals {
    Totals {
        bytes_rx: le_u64(s, at + 96),
        bytes_tx: le_u64(s, at + 104),
        packets_rx: le_u64(s, at + 56),
        packets_tx: le_u64(s, at + 72),
        errors_rx: le_u64(s, at + 64),
        errors_tx: le_u64(s, at + 80),
    }
}

/// Walks the messages from `offset` on and finds the counters of interface
/// `index`: each message is as long as its length field says; the walk
/// stops at a length below the header size or past the end.
pub open spec fn spec_find_if(s: Seq<u8>, index: u32, offset: int) -> Option<Totals>
    decreases s.len() - offset,
{
    if offset < 0 || offset + RTM_HDR_LEN > s.len() {
        None
    } else {
        let msglen = le_u16(s, offset) as int;
        if msglen < RTM_HDR_LEN || offset + msglen > s.len() {
            None
        } else if s[offset + 3] == RTM_IFINFO2 && msglen >= IF_MSGHDR2_LEN && le_u16(s, offset + 12) as u32 == index {
            Some(if_totals_at(s, offset))
        } else {
            spec_find_if(s, index, offset + msglen)
        }
    }
}

pub(crate) fn read_le_u16(b: &[u8], at: usize) -> (r: u16)
    requires
        at + 2 <= b@.len(),
    ensures
        r == le_u16(b@, at as int),
{
    (b[at] as u16) + (b[at + 1] as u16) * 0x100
}

pub(crate) fn read_le_u32(b: &[u8], at: usize) -> (r: u32)
    requires
        at + 4 <= b@.len(),
    ensures
        r == le_u32(b@, at as int),
{
    (b[at] as u32) + (b[at + 1] as u32) * 0x100 + (b[at + 2] as u32) * 0x1_0000 + (b[at + 3] as u32) * 0x100_0000
}

fn read_le_u64(b: &[u8], at: usize) -> (r: u64)
    requires
        at + 8 <= b@.len(),
    ensures
        r == le_u64(b@, at as int),
{
    let ghost s = b@;
    let len: usize = b.len();
    let mut acc: u64 = 0;
    let mut n: usize = 0;
    while n < 8
        invariant
            n <= 8,
            len == b@.len(),
            at + 8 <= len,
            s == b@,
            acc == le_u64_from(s, at as int, n as nat),
            acc < pow256(n as nat),
        decreases 8 - n,
    {
        let byte = b[at + n] as u64;
        proof {
            reveal_with_fuel(pow256, 9);
            assert(pow256(n as nat) * 256 <= 0x1_0000_0000_0000_0000);
            assert(byte * pow256(n as nat) + acc < pow256((n + 1) as nat)) by (nonlinear_arith)
                requires
                    byte < 256,
                    acc < pow256(n as nat),
                    pow256((n + 1) as nat) == 256 * pow256(n as nat),
                    pow256(n as nat) > 0,
            ;
        }
        let shift: u64 = byte << (8 * n as u64);
        assert(shift == byte * pow256(n as nat)) by {
            reveal_with_fuel(pow256, 9);
            assert(byte << 0u64 == byte * 1) by (bit_vector) requires byte < 256;
            assert(byte << 8u64 == byte * 0x100) by (bit_vector) requires byte < 256;
            assert(byte << 16u64 == byte * 0x1_0000) by (bit_vector) requires byte < 256;
            assert(byte << 24u64 == byte * 0x100_0000) by (bit_vector) requires byte < 256;
            assert(byte << 32u64 == byte * 0x1_0000_0000) by (bit_vector) requires byte < 256;
            assert(byte << 40u64 == byte * 0x100_0000_0000) by (bit_vector) requires byte < 256;
            assert(byte << 48u64 == byte * 0x1_0000_0000_0000) by (bit_vector) requires byte < 256;
            assert(byte << 56u64 == byte * 0x100_0000_0000_0000) by (bit_vector) requires byte < 256;
        }
        acc = acc + shift;
        n = n + 1;
    }
    acc
}

/// Finds the counters of interface `index` in the messages of a
/// `NET_RT_IFLIST2` listing (an `RTM_IFINFO2` message long enough to hold an
/// `if_msghdr2`, whose `ifm_index` is `index`), reading its little-endian
/// fields. Nothing when the walk ends without finding one.
pub fn find_if_counters(buf: &[u8], index: u32) -> (r: Option<Totals>)
    ensures
        r == spec_find_if(buf@, index, 0),
{
    let mut offset: usize = 0;
    while buf.len() - offset >= RTM_HDR_LEN
        invariant
            offset <= buf@.len(),
            spec_find_if(buf@, index, 0) == spec_find_if(buf@, index, offset as int),
        decreases buf@.len() - offset,
    {
        let msglen = read_le_u16(buf, offset) as usize;
        if msglen < RTM_HDR_LEN || msglen > buf.len() - offset {
            return None;
        }
        if buf[offset + 3] == RTM_IFINFO2 && msglen >= IF_MSGHDR2_LEN {
            let ifm_index = read_le_u16(buf, offset + 12);
            if ifm_index as u32 == index {
                return Some(Totals {
                    bytes_rx: read_le_u64(buf, offset + 96),
                    bytes_tx: read_le_u64(buf, offset + 104),
                    packets_rx: read_le_u64(buf, offset + 56),
                    packets_tx: read_le_u64(buf, offset + 72),
                    errors_rx: read_le_u64(buf, offset + 64),
                    errors_tx: read_le_u64(buf, offset + 80),
                });
            }
        }
        offset = offset + msglen;
    }
    None
}

} // verus!
