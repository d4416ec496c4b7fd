use snxcore::keepalive::{
    KeepaliveProbes,
    keepalive_counter, make_keepalive_packet, KeepaliveAction, KeepaliveOutcome, KeepaliveSchedule,
    KEEPALIVE_INTERVAL_SECS, KEEPALIVE_MAX_RETRIES, KEEPALIVE_RETRY_INTERVAL_SECS, LOOP_INTERVAL_SECS,
};

#[test]
fn packet_layout() {
    assert_eq!(make_keepalive_packet(1), [0, 0, 0, 1, 0, 3, 0, 2, 0, 12, 0, 0]);
    assert_eq!(make_keepalive_packet(0x0102_0304), [1, 2, 3, 4, 0, 3, 0, 2, 0, 12, 0, 0]);
    assert_eq!(keepalive_counter(0x1_0000_0005), 5);
}

#[test]
fn failed_keepalive_returns_error_after_max_retries() {
    let mut s = KeepaliveSchedule::new();
    for _ in 1..KEEPALIVE_MAX_RETRIES {
        assert_eq!(s.step(KeepaliveOutcome::Failed), KeepaliveAction::Sleep(KEEPALIVE_RETRY_INTERVAL_SECS));
    }
    assert_eq!(s.step(KeepaliveOutcome::Failed), KeepaliveAction::GiveUp);
}

#[test]
fn an_answer_or_an_idle_round_clears_the_failures() {
    let mut s = KeepaliveSchedule::new();
    assert_eq!(s.step(KeepaliveOutcome::Answered), KeepaliveAction::Sleep(KEEPALIVE_INTERVAL_SECS));
    for _ in 0..4 {
        s.step(KeepaliveOutcome::Failed);
    }
    assert_eq!(s.failures(), 4);
    assert_eq!(s.step(KeepaliveOutcome::Answered), KeepaliveAction::Sleep(KEEPALIVE_INTERVAL_SECS));
    assert_eq!(s.failures(), 0);
    for _ in 0..4 {
        s.step(KeepaliveOutcome::Failed);
    }
    assert_eq!(s.step(KeepaliveOutcome::Idle), KeepaliveAction::Sleep(LOOP_INTERVAL_SECS));
    assert_eq!(s.failures(), 0);
    assert_eq!(s.step(KeepaliveOutcome::Failed), KeepaliveAction::Sleep(KEEPALIVE_RETRY_INTERVAL_SECS));
}

#[test]
fn consecutive_probes_are_numbered_one_apart() {
    let mut probes = KeepaliveProbes::new();
    let a = probes.next_packet();
    let b = probes.next_packet();
    assert_eq!(a, [0, 0, 0, 1, 0, 3, 0, 2, 0, 0x0c, 0, 0]);
    assert_eq!(b, [0, 0, 0, 2, 0, 3, 0, 2, 0, 0x0c, 0, 0]);
    assert_eq!(
        u32::from_be_bytes(b[0..4].try_into().unwrap()),
        u32::from_be_bytes(a[0..4].try_into().unwrap()).wrapping_add(1)
    );
}
