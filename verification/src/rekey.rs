//! When an IPsec tunnel renews itself: on each rekey check the connector
//! disconnects an expired IKE association, refreshes the office-mode
//! address lease and replaces the ESP child association before their
//! lifetimes run out. Times are nanoseconds, instants since the Unix epoch.

use vstd::prelude::*;
use crate::model::{spec_ipv4net, IPsecSession};

verus! {

/// Rekeying starts this long (60 s) before an ESP association's lifetime runs out.
pub const ESP_LIFETIME_LEEWAY_NS: u64 = 60_000_000_000;

/// IKEv1 refreshes the address lease this long (300 s) before it runs out.
pub const ADDRESS_LIFETIME_LEEWAY_NS: u64 = 300_000_000_000;

/// The time since `last`, or `fallback` when the clock reads earlier than
/// `last` (`SystemTime::duration_since(..).unwrap_or(fallback)`).
pub open spec fn elapsed_or(now: u64, last: u64, fallback: u64) -> u64 {
    if now >= last {
        (now - last) as u64
    } else {
        fallback
    }
}

/// Whether an interval of `interval` has passed since `last`, if there was one.
pub open spec fn due_since(now: u64, last: Option<u64>, interval: u64) -> bool {
    match last {
        Some(l) => elapsed_or(now, l, interval) >= interval,
        None => false,
    }
}

fn is_due(now: u64, last: Option<u64>, interval: u64) -> (r: bool)
    ensures
        r == due_since(now, last, interval),
{
    match last {
        Some(l) => {
            let elapsed = if now >= l {
                now - l
            } else {
                interval
            };
            elapsed >= interval
        },
        None => false,
    }
}

/// `x` less `leeway`, unless `x` is shorter than the leeway.
pub open spec fn less_leeway(x: u64, leeway: u64) -> u64 {
    if x < leeway {
        x
    } else {
        (x - leeway) as u64
    }
}

/// Whether the IKE association made at `ike_timestamp` with this lifetime
/// has expired at `now`.
pub open spec fn ike_expired(now: u64, ike_timestamp: u64, ike_lifetime: u64) -> bool {
    ike_timestamp + ike_lifetime <= now
}

fn is_ike_expired(now: u64, ike_timestamp: u64, ike_lifetime: u64) -> (r: bool)
    ensures
        r == ike_expired(now, ike_timestamp, ike_lifetime),
{
    (ike_timestamp as u128) + (ike_lifetime as u128) <= now as u128
}

/// What an IKEv1 rekey check does.
#[derive(Debug, Clone, Copy, PartialEq, Eq, Structural)]
pub enum Ikev1RekeyAction {
    /// Nothing is due, or the host is offline.
    Nothing,
    /// The IKE association expired: delete the session and end the tunnel.
    Disconnect,
    /// The address lease is due: redo the session exchange.
    RefreshSession,
    /// The ESP association is due (or a rekey was forced): propose new ones.
    RekeyEsp,
}

/// What an IKEv1 tunnel knows at a rekey check.
#[derive(Debug, Clone, Copy, PartialEq, Eq, Structural)]
pub struct Ikev1RekeyState {
    pub online: bool,
    pub now: u64,
    pub ike_timestamp: u64,
    pub ike_lifetime: u64,
    pub esp_lifetime: u64,
    pub address_lifetime: u64,
    pub last_ip_lease: Option<u64>,
    pub last_rekey: Option<u64>,
}

/// The IKEv1 rekey decision: nothing offline; an expired IKE association
/// disconnects; else a due address lease refreshes the session, and a due
/// (or forced) ESP rekey proposes new associations. Each lifetime is
/// shortened by its leeway.
pub open spec fn spec_ikev1_action(s: Ikev1RekeyState, force: bool) -> Ikev1RekeyAction {
    if !s.online {
        Ikev1RekeyAction::Nothing
    } else if ike_expired(s.now, s.ike_timestamp, s.ike_lifetime) {
        Ikev1RekeyAction::Disconnect
    } else if due_since(s.now, s.last_ip_lease, less_leeway(s.address_lifetime, ADDRESS_LIFETIME_LEEWAY_NS)) {
        Ikev1RekeyAction::RefreshSession
    } else if force || due_since(s.now, s.last_rekey, less_leeway(s.esp_lifetime, ESP_LIFETIME_LEEWAY_NS)) {
        Ikev1RekeyAction::RekeyEsp
    } else {
        Ikev1RekeyAction::Nothing
    }
}

/// Decides an IKEv1 rekey check.
pub fn ikev1_rekey_action(s: &Ikev1RekeyState, force: bool) -> (r: Ikev1RekeyAction)
    ensures
        r == spec_ikev1_action(*s, force),
{
    if !s.online {
        return Ikev1RekeyAction::Nothing;
    }
    if is_ike_expired(s.now, s.ike_timestamp, s.ike_lifetime) {
        return Ikev1RekeyAction::Disconnect;
    }
    let lifetime = if s.esp_lifetime < ESP_LIFETIME_LEEWAY_NS {
        s.esp_lifetime
    } else {
        s.esp_lifetime - ESP_LIFETIME_LEEWAY_NS
    };
    let address_lifetime = if s.address_lifetime < ADDRESS_LIFETIME_LEEWAY_NS {
        s.address_lifetime
    } else {
        s.address_lifetime - ADDRESS_LIFETIME_LEEWAY_NS
    };
    if is_due(s.now, s.last_ip_lease, address_lifetime) {
        Ikev1RekeyAction::RefreshSession
    } else if force || is_due(s.now, s.last_rekey, lifetime) {
        Ikev1RekeyAction::RekeyEsp
    } else {
        Ikev1RekeyAction::Nothing
    }
}

/// How an IKEv2 rekey check begins.
#[derive(Debug, Clone, Copy, PartialEq, Eq, Structural)]
pub enum Ikev2CheckStart {
    /// The host is offline: nothing to do.
    Skip,
    /// The IKE association expired: end the tunnel.
    Disconnect,
    /// Handle the gateway's pending request, then the lease and the rekey.
    Proceed,
}

/// The start of an IKEv2 rekey check.
pub open spec fn spec_ikev2_start(online: bool, now: u64, ike_timestamp: u64, ike_lifetime: u64) -> Ikev2CheckStart {
    if !online {
        Ikev2CheckStart::Skip
    } else if ike_expired(now, ike_timestamp, ike_lifetime) {
        Ikev2CheckStart::Disconnect
    } else {
        Ikev2CheckStart::Proceed
    }
}

/// Decides how an IKEv2 rekey check begins.
pub fn ikev2_check_start(online: bool, now: u64, ike_timestamp: u64, ike_lifetime: u64) -> (r: Ikev2CheckStart)
    ensures
        r == spec_ikev2_start(online, now, ike_timestamp, ike_lifetime),
{
    if !online {
        Ikev2CheckStart::Skip
    } else if is_ike_expired(now, ike_timestamp, ike_lifetime) {
        Ikev2CheckStart::Disconnect
    } else {
        Ikev2CheckStart::Proceed
    }
}

/// Whether an IKEv2 tunnel renews its address lease: when leases expire at
/// all, after half their lifetime since the last renewal.
pub open spec fn spec_address_renewal_due(now: u64, address_lifetime: u64, last_renewal: Option<u64>) -> bool {
    address_lifetime != 0 && due_since(now, last_renewal, address_lifetime / 2)
}

/// Decides whether an IKEv2 tunnel renews its address lease.
pub fn address_renewal_due(now: u64, address_lifetime: u64, last_renewal: Option<u64>) -> (r: bool)
    ensures
        r == spec_address_renewal_due(now, address_lifetime, last_renewal),
{
    if address_lifetime == 0 {
        return false;
    }
    is_due(now, last_renewal, address_lifetime / 2)
}

/// The interval after which an IKEv2 tunnel replaces its ESP association:
/// the lifetime less the leeway, but never less than the leeway.
pub open spec fn ikev2_rekey_interval(esp_lifetime: u64) -> u64 {
    let shortened = if esp_lifetime >= ESP_LIFETIME_LEEWAY_NS {
        (esp_lifetime - ESP_LIFETIME_LEEWAY_NS) as u64
    } else {
        0
    };
    if shortened > ESP_LIFETIME_LEEWAY_NS {
        shortened
    } else {
        ESP_LIFETIME_LEEWAY_NS
    }
}

/// Decides whether an IKEv2 tunnel replaces its ESP association now.
pub fn ikev2_rekey_due(now: u64, esp_lifetime: u64, last_rekey: Option<u64>) -> (r: bool)
    ensures
        r == due_since(now, last_rekey, ikev2_rekey_interval(esp_lifetime)),
{
    let shortened = esp_lifetime.saturating_sub(ESP_LIFETIME_LEEWAY_NS);
    let interval = if shortened > ESP_LIFETIME_LEEWAY_NS {
        shortened
    } else {
        ESP_LIFETIME_LEEWAY_NS
    };
    is_due(now, last_rekey, interval)
}

/// A rekey check never acts while the host is offline, and once the IKE
/// association has expired it only ever disconnects, for both IKE versions.
pub proof fn law_offline_or_expired(s: Ikev1RekeyState, force: bool)
    ensures
        !s.online ==> spec_ikev1_action(s, force) == Ikev1RekeyAction::Nothing,
        s.online && ike_expired(s.now, s.ike_timestamp, s.ike_lifetime) ==> spec_ikev1_action(s, force)
            == Ikev1RekeyAction::Disconnect,
        !s.online ==> spec_ikev2_start(s.online, s.now, s.ike_timestamp, s.ike_lifetime) == Ikev2CheckStart::Skip,
        s.online && ike_expired(s.now, s.ike_timestamp, s.ike_lifetime) ==> spec_ikev2_start(
            s.online,
            s.now,
            s.ike_timestamp,
            s.ike_lifetime,
        ) == Ikev2CheckStart::Disconnect,
{
}

/// Nothing is due before the first lease or rekey is recorded; a forced
/// IKEv1 check rekeys unless the host is offline, the association expired
/// or the lease is due.
pub proof fn law_nothing_due_without_history(s: Ikev1RekeyState, now: u64, lifetime: u64)
    ensures
        !due_since(now, None, lifetime),
        (s.online && !ike_expired(s.now, s.ike_timestamp, s.ike_lifetime) && s.last_ip_lease is None)
            ==> spec_ikev1_action(s, true) == Ikev1RekeyAction::RekeyEsp,
{
}

/// An IKEv2 tunnel rekeys at least a leeway apart, and always before its
/// ESP association's lifetime when that lifetime exceeds twice the leeway.
pub proof fn law_ikev2_interval(esp_lifetime: u64)
    ensures
        ikev2_rekey_interval(esp_lifetime) >= ESP_LIFETIME_LEEWAY_NS,
        esp_lifetime > 2 * ESP_LIFETIME_LEEWAY_NS ==> ikev2_rekey_interval(esp_lifetime) + ESP_LIFETIME_LEEWAY_NS
            == esp_lifetime,
{
}

/// A renewed office-mode lease: the address, and the netmask and lifetime
/// when the gateway sends them.
#[derive(Debug, Clone, Copy, PartialEq, Eq, Structural)]
pub struct AddressLease {
    pub address: u32,
    pub netmask: Option<u32>,
    pub expiry: Option<u64>,
}

/// Takes a renewed lease into the session: a lifetime sent with the lease
/// is replaced by the profile's lease time when it sets one; the address
/// always, and the netmask when sent. Returns whether the address moved,
/// which is when the data path has to be told.
pub fn apply_lease(session: &mut IPsecSession, lease: AddressLease, ip_lease_time: Option<u64>) -> (r: bool)
    ensures
        r == (lease.address != old(session).address),
        final(session).address == lease.address,
        final(session).netmask == match lease.netmask {
            Some(m) => m,
            None => old(session).netmask,
        },
        final(session).address_lifetime == match lease.expiry {
            Some(e) => match ip_lease_time {
                Some(t) => t,
                None => e,
            },
            None => old(session).address_lifetime,
        },
        final(session).initiator_spi == old(session).initiator_spi,
        final(session).responder_spi == old(session).responder_spi,
        final(session).lifetime == old(session).lifetime,
        final(session).dns == old(session).dns,
        final(session).domains == old(session).domains,
        final(session).esp_in == old(session).esp_in,
        final(session).esp_out == old(session).esp_out,
        final(session).transport_type == old(session).transport_type,
        final(session).ike_lifetime == old(session).ike_lifetime,
        final(session).ike_timestamp == old(session).ike_timestamp,
{
    if let Some(expiry) = lease.expiry {
        session.address_lifetime = match ip_lease_time {
            Some(t) => t,
            None => expiry,
        };
    }
    let changed = lease.address != session.address;
    session.address = lease.address;
    if let Some(m) = lease.netmask {
        session.netmask = m;
    }
    changed
}

/// When rekeying moves the tunnel's address: the address and prefix before
/// and after, or nothing when they are the same.
pub fn address_change(old: &IPsecSession, new: &IPsecSession) -> (r: Option<((u32, u32), (u32, u32))>)
    ensures
        spec_ipv4net(old.address, old.netmask) == spec_ipv4net(new.address, new.netmask) ==> r is None,
        spec_ipv4net(old.address, old.netmask) != spec_ipv4net(new.address, new.netmask) ==> r == Some(
            (spec_ipv4net(old.address, old.netmask), spec_ipv4net(new.address, new.netmask)),
        ),
{
    let a = old.ipv4net_address();
    let b = new.ipv4net_address();
    if a.0 == b.0 && a.1 == b.1 {
        None
    } else {
        Some((a, b))
    }
}

/// An IKE association counts as expired exactly when its lifetime has run
/// out since it was made: before `ike_timestamp + ike_lifetime` an online
/// check never disconnects, from then on it always does, whatever the
/// timestamp.
pub proof fn law_ike_expiry(s: Ikev1RekeyState, force: bool)
    ensures
        s.online && s.now < s.ike_timestamp + s.ike_lifetime ==> spec_ikev1_action(s, force)
            != Ikev1RekeyAction::Disconnect,
        s.online && s.ike_timestamp + s.ike_lifetime <= s.now ==> spec_ikev1_action(s, force)
            == Ikev1RekeyAction::Disconnect,
        s.online && s.now < s.ike_timestamp + s.ike_lifetime ==> spec_ikev2_start(
            true,
            s.now,
            s.ike_timestamp,
            s.ike_lifetime,
        ) == Ikev2CheckStart::Proceed,
        s.online && s.ike_timestamp + s.ike_lifetime <= s.now ==> spec_ikev2_start(
            true,
            s.now,
            s.ike_timestamp,
            s.ike_lifetime,
        ) == Ikev2CheckStart::Disconnect,
{
}

} // verus!
