//! The IPsec keepalive schedule: the probe packet, and what the runner does
//! after each round depending on whether the link was up, the gateway
//! answered, or the probe timed out.

use vstd::prelude::*;
use crate::codec::{be_bytes, write_be_u32};

verus! {

/// Seconds between probes while the gateway answers.
pub const KEEPALIVE_INTERVAL_SECS: u64 = 20;

/// Seconds before the next probe after one timed out.
pub const KEEPALIVE_RETRY_INTERVAL_SECS: u64 = 2;

/// Seconds between checks while the link is down or the tunnel not ready.
pub const LOOP_INTERVAL_SECS: u64 = 1;

/// Seconds to wait for the answer to one probe.
pub const KEEPALIVE_TIMEOUT_SECS: u64 = 2;

/// Consecutive timed-out probes after which the runner gives up.
pub const KEEPALIVE_MAX_RETRIES: u32 = 5;

/// The probe for `counter`: the counter in big-endian order, then the
/// words 3, 2 and 12, then two zero bytes.
pub open spec fn keepalive_bytes(counter: u32) -> Seq<u8> {
    be_bytes(counter) + seq![0u8, 3u8, 0u8, 2u8, 0u8, 0x0cu8, 0u8, 0u8]
}

/// The probe counter taken from a running count: its low 32 bits.
pub open spec fn counter_of(count: u64) -> u32 {
    (count % 0x1_0000_0000) as u32
}

/// The low 32 bits of a running probe count, which number the probe.
pub fn keepalive_counter(count: u64) -> (r: u32)
    ensures
        r == counter_of(count),
{
    (count % 0x1_0000_0000) as u32
}

/// The probe packet numbered `counter`.
pub fn make_keepalive_packet(counter: u32) -> (r: [u8; 12])
    ensures
        r@ == keepalive_bytes(counter),
{
    let c = write_be_u32(counter);
    let r: [u8; 12] = [c[0], c[1], c[2], c[3], 0, 3, 0, 2, 0, 0x0c, 0, 0];
    assert(r@ =~= keepalive_bytes(counter));
    r
}

/// The running probe count after `count`: one more, wrapping to zero.
pub open spec fn next_count(count: u64) -> u64 {
    if count == u64::MAX {
        0
    } else {
        (count + 1) as u64
    }
}

/// The numbering of the probes of the process: the running count, starting
/// at one, of which each probe carries the low 32 bits.
pub struct KeepaliveProbes {
    count: u64,
}

impl KeepaliveProbes {
    /// The running count of the next probe.
    pub closed spec fn count_spec(&self) -> u64 {
        self.count
    }

    /// Probes numbered from one.
    pub fn new() -> (r: Self)
        ensures
            r.count_spec() == 1,
    {
        KeepaliveProbes { count: 1 }
    }

    /// The next probe: numbered with the low 32 bits of the running count,
    /// which then moves on by one (wrapping).
    pub fn next_packet(&mut self) -> (r: [u8; 12])
        ensures
            r@ == keepalive_bytes(counter_of(old(self).count_spec())),
            final(self).count_spec() == next_count(old(self).count_spec()),
    {
        let counter = keepalive_counter(self.count);
        self.count = self.count.wrapping_add(1);
        make_keepalive_packet(counter)
    }
}

/// Consecutive probes are numbered one apart, the number wrapping from
/// `u32::MAX` to zero.
pub proof fn law_consecutive_probes(count: u64)
    ensures
        counter_of(next_count(count)) == if counter_of(count) == u32::MAX {
            0u32
        } else {
            (counter_of(count) + 1) as u32
        },
        keepalive_bytes(counter_of(next_count(count))).subrange(4, 12) == keepalive_bytes(
            counter_of(count),
        ).subrange(4, 12),
{
    if count == u64::MAX {
        assert(0xffff_ffff_ffff_ffffu64 % 0x1_0000_0000u64 == 0xffff_ffffu64) by (bit_vector);
    } else {
        let c = count;
        assert(((c + 1) % 0x1_0000_0000) == if c % 0x1_0000_0000 == 0xffff_ffff {
            0
        } else {
            c % 0x1_0000_0000 + 1
        }) by (nonlinear_arith)
            requires
                c < u64::MAX,
        ;
    }
    assert(keepalive_bytes(counter_of(next_count(count))).subrange(4, 12) =~= keepalive_bytes(counter_of(count)).subrange(
        4,
        12,
    ));
}

/// What one round of the runner found.
#[derive(Debug, Clone, Copy, PartialEq, Eq, Structural)]
pub enum KeepaliveOutcome {
    /// The link is down or the tunnel is not ready: no probe was sent.
    Idle,
    /// The gateway answered the probe.
    Answered,
    /// The probe timed out or could not be sent.
    Failed,
}

/// What the runner does next.
#[derive(Debug, Clone, Copy, PartialEq, Eq, Structural)]
pub enum KeepaliveAction {
    /// Wait this many seconds, then run the next round.
    Sleep(u64),
    /// Stop: the gateway stopped answering.
    GiveUp,
}

/// The runner's memory between rounds: how many probes in a row timed out.
pub struct KeepaliveSchedule {
    failures: u32,
}

/// The count of timed-out probes after a round, and the action taken.
pub open spec fn spec_keepalive_step(failures: nat, o: KeepaliveOutcome) -> (nat, KeepaliveAction) {
    match o {
        KeepaliveOutcome::Idle => (0, KeepaliveAction::Sleep(LOOP_INTERVAL_SECS)),
        KeepaliveOutcome::Answered => (0, KeepaliveAction::Sleep(KEEPALIVE_INTERVAL_SECS)),
        KeepaliveOutcome::Failed => if failures + 1 >= KEEPALIVE_MAX_RETRIES {
            (failures + 1, KeepaliveAction::GiveUp)
        } else {
            (failures + 1, KeepaliveAction::Sleep(KEEPALIVE_RETRY_INTERVAL_SECS))
        },
    }
}

/// How many rounds at the end of `rounds` failed in a row.
pub open spec fn trailing_failures(rounds: Seq<KeepaliveOutcome>) -> nat
    decreases rounds.len(),
{
    if rounds.len() == 0 {
        0
    } else if rounds.last() == KeepaliveOutcome::Failed {
        trailing_failures(rounds.drop_last()) + 1
    } else {
        0
    }
}

/// Runs the schedule from its start over `rounds`, stopping at the first
/// give-up: the count of timed-out probes, and whether it gave up.
pub open spec fn replay(rounds: Seq<KeepaliveOutcome>) -> (nat, bool)
    decreases rounds.len(),
{
    if rounds.len() == 0 {
        (0, false)
    } else {
        let before = replay(rounds.drop_last());
        if before.1 {
            before
        } else {
            let (f, a) = spec_keepalive_step(before.0, rounds.last());
            (f, a == KeepaliveAction::GiveUp)
        }
    }
}

impl KeepaliveSchedule {
    /// A schedule with no timed-out probe yet.
    pub fn new() -> (r: Self)
        ensures
            r.failures_spec() == 0,
    {
        KeepaliveSchedule { failures: 0 }
    }

    /// How many probes in a row timed out.
    pub closed spec fn failures_spec(&self) -> nat {
        self.failures as nat
    }

    /// How many probes in a row timed out.
    pub fn failures(&self) -> (r: u32)
        ensures
            r == self.failures_spec(),
    {
        self.failures
    }

    /// The schedule has not given up yet.
    pub open spec fn running(&self) -> bool {
        self.failures_spec() < KEEPALIVE_MAX_RETRIES
    }

    /// Takes the outcome of a round and says what to do next: a round
    /// without a probe, or an answered one, clears the count; a timed-out
    /// probe adds to it, and the runner gives up when it reaches
    /// [`KEEPALIVE_MAX_RETRIES`].
    pub fn step(&mut self, outcome: KeepaliveOutcome) -> (r: KeepaliveAction)
        requires
            old(self).running(),
        ensures
            (final(self).failures_spec(), r) == spec_keepalive_step(old(self).failures_spec(), outcome),
    {
        match outcome {
            KeepaliveOutcome::Idle => {
                self.failures = 0;
                KeepaliveAction::Sleep(LOOP_INTERVAL_SECS)
            },
            KeepaliveOutcome::Answered => {
                self.failures = 0;
                KeepaliveAction::Sleep(KEEPALIVE_INTERVAL_SECS)
            },
            KeepaliveOutcome::Failed => {
                self.failures = self.failures + 1;
                if self.failures >= KEEPALIVE_MAX_RETRIES {
                    KeepaliveAction::GiveUp
                } else {
                    KeepaliveAction::Sleep(KEEPALIVE_RETRY_INTERVAL_SECS)
                }
            },
        }
    }
}

/// Until it gives up, the schedule's count is the number of rounds at the
/// end that failed in a row, and it gives up exactly when that number
/// reaches [`KEEPALIVE_MAX_RETRIES`]: never earlier, and never while the
/// gateway answers.
pub proof fn law_gives_up_after_max_consecutive_failures(rounds: Seq<KeepaliveOutcome>)
    ensures
        !replay(rounds).1 ==> replay(rounds).0 == trailing_failures(rounds)
            && trailing_failures(rounds) < KEEPALIVE_MAX_RETRIES,
        rounds.len() > 0 && !replay(rounds.drop_last()).1 ==> (replay(rounds).1 <==> trailing_failures(rounds)
            == KEEPALIVE_MAX_RETRIES),
    decreases rounds.len(),
{
    if rounds.len() > 0 {
        law_gives_up_after_max_consecutive_failures(rounds.drop_last());
    }
}

} // verus!
