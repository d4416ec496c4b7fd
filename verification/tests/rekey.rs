use snxcore::rekey::{
    address_renewal_due, ikev1_rekey_action, ikev2_check_start, ikev2_rekey_due, Ikev1RekeyAction, Ikev1RekeyState,
    Ikev2CheckStart, ADDRESS_LIFETIME_LEEWAY_NS, ESP_LIFETIME_LEEWAY_NS,
};

const S: u64 = 1_000_000_000;

fn state() -> Ikev1RekeyState {
    Ikev1RekeyState {
        online: true,
        now: 10_000 * S,
        ike_timestamp: 9_000 * S,
        ike_lifetime: 28_800 * S,
        esp_lifetime: 3_600 * S,
        address_lifetime: 7_200 * S,
        last_ip_lease: Some(9_000 * S),
        last_rekey: Some(9_000 * S),
    }
}

#[test]
fn ikev1_nothing_due_early() {
    assert_eq!(ikev1_rekey_action(&state(), false), Ikev1RekeyAction::Nothing);
    assert_eq!(ikev1_rekey_action(&state(), true), Ikev1RekeyAction::RekeyEsp);
}

#[test]
fn ikev1_offline_and_expired() {
    let offline = Ikev1RekeyState { online: false, ..state() };
    assert_eq!(ikev1_rekey_action(&offline, true), Ikev1RekeyAction::Nothing);
    let expired = Ikev1RekeyState { now: 9_000 * S + 28_800 * S, ..state() };
    assert_eq!(ikev1_rekey_action(&expired, true), Ikev1RekeyAction::Disconnect);
}

#[test]
fn ikev1_lease_before_rekey() {
    // 3540 s after the last rekey the ESP association (3600 s less 60 s) is due.
    let s = Ikev1RekeyState { now: 9_000 * S + 3_540 * S, ..state() };
    assert_eq!(ikev1_rekey_action(&s, false), Ikev1RekeyAction::RekeyEsp);
    let s = Ikev1RekeyState { now: 9_000 * S + 3_540 * S - 1, ..state() };
    assert_eq!(ikev1_rekey_action(&s, false), Ikev1RekeyAction::Nothing);
    // 6900 s after the last lease (7200 s less 300 s) the session is refreshed first.
    let s = Ikev1RekeyState { now: 9_000 * S + 6_900 * S, ..state() };
    assert_eq!(ikev1_rekey_action(&s, false), Ikev1RekeyAction::RefreshSession);
    // A clock that went backwards counts as due.
    let s = Ikev1RekeyState { now: 8_000 * S, last_ip_lease: None, ..state() };
    assert_eq!(ikev1_rekey_action(&s, false), Ikev1RekeyAction::RekeyEsp);
    assert_eq!(ADDRESS_LIFETIME_LEEWAY_NS, 300 * S);
}

#[test]
fn ikev2_checks() {
    assert_eq!(ikev2_check_start(false, 10, 0, 5), Ikev2CheckStart::Skip);
    assert_eq!(ikev2_check_start(true, 10, 0, 5), Ikev2CheckStart::Disconnect);
    assert_eq!(ikev2_check_start(true, 4, 0, 5), Ikev2CheckStart::Proceed);
    assert!(!address_renewal_due(100 * S, 0, Some(0)));
    assert!(address_renewal_due(50 * S, 100 * S, Some(0)));
    assert!(!address_renewal_due(50 * S - 1, 100 * S, Some(0)));
    assert!(!address_renewal_due(50 * S, 100 * S, None));
    assert!(ikev2_rekey_due(3_540 * S, 3_600 * S, Some(0)));
    assert!(!ikev2_rekey_due(3_540 * S - 1, 3_600 * S, Some(0)));
    // Short lifetimes rekey no more often than every leeway.
    assert!(!ikev2_rekey_due(ESP_LIFETIME_LEEWAY_NS - 1, 10 * S, Some(0)));
    assert!(ikev2_rekey_due(ESP_LIFETIME_LEEWAY_NS, 10 * S, Some(0)));
}

use snxcore::model::params::TransportType;
use snxcore::model::{AuthenticationAlgorithm, EncryptionAlgorithm, EspState, IPsecSession};
use snxcore::rekey::{address_change, apply_lease, AddressLease};

fn session(address: u32, netmask: u32) -> IPsecSession {
    let esp = EspState { spi: 1, enc_algorithm: EncryptionAlgorithm::EspAesCbc, auth_algorithm: AuthenticationAlgorithm::HmacSha256 };
    IPsecSession {
        initiator_spi: 1,
        responder_spi: 2,
        lifetime: 3_600 * S,
        address,
        netmask,
        dns: Vec::new(),
        domains: Vec::new(),
        esp_in: esp,
        esp_out: esp,
        transport_type: TransportType::Kernel,
        address_lifetime: 7_200 * S,
        ike_lifetime: 28_800 * S,
        ike_timestamp: 0,
    }
}

#[test]
fn lease_renewal() {
    let mut s = session(0x0a000005, 0xffff_ff00);
    let moved = apply_lease(&mut s, AddressLease { address: 0x0a000005, netmask: None, expiry: None }, Some(60 * S));
    assert!(!moved);
    assert_eq!(s.address_lifetime, 7_200 * S);
    let moved = apply_lease(&mut s, AddressLease { address: 0x0a000009, netmask: Some(0xffff_0000), expiry: Some(100 * S) }, None);
    assert!(moved);
    assert_eq!((s.address, s.netmask, s.address_lifetime), (0x0a000009, 0xffff_0000, 100 * S));
    apply_lease(&mut s, AddressLease { address: 0x0a000009, netmask: None, expiry: Some(100 * S) }, Some(60 * S));
    assert_eq!(s.address_lifetime, 60 * S);
}

#[test]
fn rekey_address_change() {
    assert_eq!(address_change(&session(1, 0xffff_ff00), &session(1, 0xffff_ff00)), None);
    assert_eq!(
        address_change(&session(1, 0xffff_ff00), &session(2, 0xffff_ff00)),
        Some(((1, 24), (2, 24)))
    );
    assert_eq!(address_change(&session(1, 0xffff_ff00), &session(1, 0xf0f0_f0f0)), Some(((1, 24), (1, 32))));
}
