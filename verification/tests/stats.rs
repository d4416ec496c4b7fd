use snxcore::stats::{find_if_counters, InterfaceCounters, MacosStatsPoller, RateSampler, RateStep, WindowsStatsPoller, MIN_SAMPLE_NS};

#[test]
fn first_sample_then_window_then_measure() {
    let mut s = RateSampler::new();
    assert_eq!(s.poll_step(1_000, 10, 20), RateStep::First);
    assert_eq!(s.poll_step(1_000 + MIN_SAMPLE_NS - 1, 50, 60), RateStep::Reuse { bps_rx: 0, bps_tx: 0 });
    assert_eq!(
        s.poll_step(1_000 + MIN_SAMPLE_NS, 50, 15),
        RateStep::Measure { delta_rx: 40, delta_tx: 0, elapsed_ns: MIN_SAMPLE_NS }
    );
    s.record_rates(80, 0);
    assert_eq!(s.poll_step(1_000 + MIN_SAMPLE_NS + 1, 60, 20), RateStep::Reuse { bps_rx: 80, bps_tx: 0 });
}

#[test]
fn windows_totals_are_relative_to_creation() {
    let first = InterfaceCounters {
        in_octets: 1000,
        out_octets: 500,
        in_ucast_pkts: 1,
        in_nucast_pkts: 2,
        out_ucast_pkts: 3,
        out_nucast_pkts: u64::MAX,
        in_errors: 7,
        out_errors: 8,
    };
    let p = WindowsStatsPoller::new(42, first);
    assert_eq!(p.luid(), 42);
    let t = p.totals(InterfaceCounters { in_octets: 1500, out_octets: 100, ..first });
    assert_eq!(t.bytes_rx, 500);
    assert_eq!(t.bytes_tx, 0);
    assert_eq!(t.packets_rx, 3);
    assert_eq!(t.packets_tx, u64::MAX);
    assert_eq!(t.errors_rx, 7);
    let mut m = MacosStatsPoller::new("utun3");
    assert_eq!(m.device_name(), "utun3");
    assert_eq!(m.poll_step(5, 1, 1), RateStep::First);
}

fn message(index: u16, msg_type: u8, len: usize, fill: u8) -> Vec<u8> {
    let mut m = vec![0u8; len];
    m[0..2].copy_from_slice(&(len as u16).to_le_bytes());
    m[3] = msg_type;
    if len >= 14 {
        m[12..14].copy_from_slice(&index.to_le_bytes());
    }
    if len >= 112 {
        for (k, off) in [96usize, 104, 56, 72, 64, 80].iter().enumerate() {
            m[*off..*off + 8].copy_from_slice(&((fill as u64) * 1000 + k as u64).to_le_bytes());
        }
    }
    m
}

#[test]
fn if_counters_of_the_matching_interface() {
    let mut buf = Vec::new();
    buf.extend(message(1, 0x12, 160, 1));
    buf.extend(message(4, 0x0e, 160, 2));
    buf.extend(message(4, 0x12, 100, 3));
    buf.extend(message(4, 0x12, 160, 4));
    let t = find_if_counters(&buf, 4).unwrap();
    assert_eq!(t.bytes_rx, 4000);
    assert_eq!(t.bytes_tx, 4001);
    assert_eq!(t.packets_rx, 4002);
    assert_eq!(t.packets_tx, 4003);
    assert_eq!(t.errors_rx, 4004);
    assert_eq!(t.errors_tx, 4005);
    assert_eq!(find_if_counters(&buf, 1).unwrap().bytes_rx, 1000);
    assert!(find_if_counters(&buf, 9).is_none());
    assert!(find_if_counters(&[2, 0, 0, 0x12], 0).is_none());
    let mut truncated = message(4, 0x12, 160, 5);
    truncated.truncate(150);
    assert!(find_if_counters(&truncated, 4).is_none());
}

#[test]
fn windows_polls_measure_against_the_previous_sample() {
    let first = InterfaceCounters {
        in_octets: 1000,
        out_octets: 500,
        in_ucast_pkts: 0,
        in_nucast_pkts: 0,
        out_ucast_pkts: 0,
        out_nucast_pkts: 0,
        in_errors: 0,
        out_errors: 0,
    };
    let mut p = WindowsStatsPoller::new(7, first);
    let t1 = p.totals(InterfaceCounters { in_octets: 2000, out_octets: 700, ..first });
    assert_eq!(p.poll_step(10, &t1), RateStep::First);
    let t2 = p.totals(InterfaceCounters { in_octets: 3000, out_octets: 900, ..first });
    assert_eq!(
        p.poll_step(10 + MIN_SAMPLE_NS, &t2),
        RateStep::Measure { delta_rx: 1000, delta_tx: 200, elapsed_ns: MIN_SAMPLE_NS }
    );
    p.record_rates(2000, 400);
    let t3 = p.totals(InterfaceCounters { in_octets: 3500, out_octets: 900, ..first });
    assert_eq!(p.poll_step(10 + MIN_SAMPLE_NS + 1, &t3), RateStep::Reuse { bps_rx: 2000, bps_tx: 400 });
    let t4 = p.totals(InterfaceCounters { in_octets: 5000, out_octets: 1000, ..first });
    assert_eq!(
        p.poll_step(10 + 3 * MIN_SAMPLE_NS, &t4),
        RateStep::Measure { delta_rx: 2000, delta_tx: 100, elapsed_ns: 2 * MIN_SAMPLE_NS }
    );
}

#[test]
fn macos_polls_measure_against_the_previous_sample() {
    let mut m = MacosStatsPoller::new("utun3");
    assert_eq!(m.poll_step(0, 100, 50), RateStep::First);
    assert_eq!(m.poll_step(1, 200, 60), RateStep::Reuse { bps_rx: 0, bps_tx: 0 });
    assert_eq!(
        m.poll_step(MIN_SAMPLE_NS, 300, 80),
        RateStep::Measure { delta_rx: 200, delta_tx: 30, elapsed_ns: MIN_SAMPLE_NS }
    );
    m.record_rates(400, 60);
    assert_eq!(
        m.poll_step(3 * MIN_SAMPLE_NS, 500, 80),
        RateStep::Measure { delta_rx: 200, delta_tx: 0, elapsed_ns: 2 * MIN_SAMPLE_NS }
    );
}
