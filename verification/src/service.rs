//! The tunnel service's connection state: what each request of a client and
//! each event of a running tunnel does to the status the service reports,
//! and which connector a profile is served by. The service itself (sockets,
//! connectors, tunnels) runs these decisions and performs what they say.

use vstd::prelude::*;
use crate::model::params::{IkeVersion, TransportType, TunnelType};
use crate::model::{authentication_label, encryption_label, EspState, IPsecSession, LiveStats, MfaChallenge};
use crate::platform::SearchDomain;
use crate::addr::{dotted, ipv4_text, octets, octets_of};
use crate::number::{decimal, decimal_chars};
use crate::platform::{domain_text, domain_views};
use crate::sexpr::ser::bool_text;
use crate::text::{append_str, concat_str, join, join_strings, owned, str_eq, string_from_chars, views};
use crate::platform::windows::address_texts;

verus! {

/// The IKE security association of a connected IPsec tunnel.
#[derive(Debug, Clone, Copy, PartialEq, Eq, Structural)]
pub struct IkeState {
    pub initiator_spi: u64,
    pub responder_spi: u64,
    /// How long the association lives, in nanoseconds.
    pub lifetime: u64,
    /// When it was made, in nanoseconds since the Unix epoch.
    pub timestamp: u64,
    pub esp_in: EspState,
    pub esp_out: EspState,
}

/// What the service says about an established connection.
#[derive(Debug)]
pub struct ConnectionInfo {
    /// When the connection was made, in seconds since the Unix epoch.
    pub since: Option<i64>,
    pub server_name: String,
    pub username: String,
    pub login_type: String,
    pub tunnel_type: TunnelType,
    pub transport_type: TransportType,
    /// The tunnel address (big-endian) and its prefix length.
    pub ip_address: (u32, u8),
    /// The DNS servers (big-endian IPv4 addresses).
    pub dns_servers: Vec<u32>,
    pub search_domains: Vec<SearchDomain>,
    pub interface_name: String,
    pub dns_configured: bool,
    pub routing_configured: bool,
    pub default_route: bool,
    pub profile_id: u128,
    pub profile_name: String,
    pub live: LiveStats,
    pub ike_state: Option<IkeState>,
}

/// The status the service reports.
#[derive(Debug)]
pub enum ConnectionStatus {
    Disconnected,
    Connecting,
    Connected(Box<ConnectionInfo>),
    Mfa(MfaChallenge),
}

impl ConnectionStatus {
    /// The status of an established connection.
    pub fn connected(info: ConnectionInfo) -> (r: Self)
        ensures
            r matches ConnectionStatus::Connected(i) && *i == info,
    {
        ConnectionStatus::Connected(Box::new(info))
    }

    /// The status of a pending multi-factor challenge.
    pub fn mfa(challenge: MfaChallenge) -> (r: Self)
        ensures
            r matches ConnectionStatus::Mfa(c) && c == challenge,
    {
        ConnectionStatus::Mfa(challenge)
    }

    /// The key of the message that describes this status; a connection's
    /// message is given the time since when it is up, a challenge's the kind
    /// of challenge.
    pub fn message_key(&self) -> (r: &'static str)
        ensures
            r@ == status_message_key(*self),
    {
        match self {
            ConnectionStatus::Disconnected => "connection-status-disconnected",
            ConnectionStatus::Connecting => "connection-status-connecting",
            ConnectionStatus::Connected(_) => "connection-status-connected-since",
            ConnectionStatus::Mfa(_) => "connection-status-mfa-pending",
        }
    }
}

/// The key of the message that describes a status.
pub open spec fn status_message_key(s: ConnectionStatus) -> Seq<char> {
    match s {
        ConnectionStatus::Disconnected => "connection-status-disconnected"@,
        ConnectionStatus::Connecting => "connection-status-connecting"@,
        ConnectionStatus::Connected(_) => "connection-status-connected-since"@,
        ConnectionStatus::Mfa(_) => "connection-status-mfa-pending"@,
    }
}

/// What a running tunnel reports to the service.
#[derive(Debug)]
pub enum TunnelEvent {
    Connected(Box<ConnectionInfo>),
    Disconnected,
    RekeyCheck,
    RemoteControlData(Vec<u8>),
    /// The tunnel got a new address (big-endian) with this prefix length.
    Rekeyed(u32, u8),
    /// A keepalive came back after this many milliseconds.
    Rtt(u64),
}

/// The status after a tunnel event. When the connector failed to handle it,
/// the service disconnects; otherwise a connection makes the service
/// connected, a disconnection disconnects it, and while connected a new
/// address or round-trip time is recorded; nothing else changes the status.
pub open spec fn status_after_event(s: ConnectionStatus, e: TunnelEvent, handler_failed: bool) -> ConnectionStatus {
    if handler_failed {
        ConnectionStatus::Disconnected
    } else {
        match e {
            TunnelEvent::Connected(info) => ConnectionStatus::Connected(info),
            TunnelEvent::Disconnected => ConnectionStatus::Disconnected,
            TunnelEvent::Rekeyed(addr, prefix) => match s {
                ConnectionStatus::Connected(info) => ConnectionStatus::Connected(
                    Box::new(ConnectionInfo { ip_address: (addr, prefix), ..*info }),
                ),
                _ => s,
            },
            TunnelEvent::Rtt(ms) => match s {
                ConnectionStatus::Connected(info) => ConnectionStatus::Connected(
                    Box::new(ConnectionInfo { live: LiveStats { last_rtt_ms: Some(ms), ..info.live }, ..*info }),
                ),
                _ => s,
            },
            _ => s,
        }
    }
}

/// What the service does after a tunnel event besides updating its status.
#[derive(Debug, Clone, Copy, PartialEq, Eq, Structural)]
pub enum EventFollowUp {
    /// Nothing.
    Nothing,
    /// Drop the connection's session, connector and cancellation handle.
    Reset,
    /// Start polling the traffic statistics of the tunnel interface.
    StartStatsPoller,
}

/// The follow-up of a tunnel event.
pub open spec fn follow_up_of(e: TunnelEvent, handler_failed: bool) -> EventFollowUp {
    if handler_failed {
        EventFollowUp::Reset
    } else {
        match e {
            TunnelEvent::Connected(_) => EventFollowUp::StartStatsPoller,
            TunnelEvent::Disconnected => EventFollowUp::Reset,
            _ => EventFollowUp::Nothing,
        }
    }
}

/// The status after a connection's session is ready: a pending challenge
/// waits for the user's answer, anything else goes on connecting.
pub open spec fn status_after_session(pending: Option<MfaChallenge>) -> ConnectionStatus {
    match pending {
        Some(c) => ConnectionStatus::Mfa(c),
        None => ConnectionStatus::Connecting,
    }
}

/// The answer to a connect request while another connection is under way.
pub open spec fn busy_message() -> Seq<char> {
    "Another connection is already in progress!"@
}

/// The connection state of the tunnel service.
pub struct ServiceState {
    status: ConnectionStatus,
}

impl ServiceState {
    /// A disconnected service.
    pub fn new() -> (r: Self)
        ensures
            r.status_spec() is Disconnected,
    {
        ServiceState { status: ConnectionStatus::Disconnected }
    }

    /// The status the service reports.
    pub closed spec fn status_spec(&self) -> ConnectionStatus {
        self.status
    }

    /// The status the service reports.
    pub fn status(&self) -> (r: &ConnectionStatus)
        ensures
            *r == self.status_spec(),
    {
        &self.status
    }

    /// Whether a connection is connected or under way.
    pub fn is_connected(&self) -> (r: bool)
        ensures
            r <==> !(self.status_spec() is Disconnected),
    {
        match self.status {
            ConnectionStatus::Disconnected => false,
            _ => true,
        }
    }

    /// Forgets the connection.
    pub fn reset(&mut self)
        ensures
            final(self).status_spec() is Disconnected,
    {
        self.status = ConnectionStatus::Disconnected;
    }

    /// Starts a connection: refused with the busy message while another one
    /// is connected or under way, which stays as it is; else the service is
    /// connecting.
    pub fn begin_connect(&mut self) -> (r: Result<(), &'static str>)
        ensures
            !(old(self).status_spec() is Disconnected) ==> (r matches Err(m) && m@ == busy_message()
                && final(self).status_spec() == old(self).status_spec()),
            old(self).status_spec() is Disconnected ==> r is Ok && final(self).status_spec() is Connecting,
    {
        if self.is_connected() {
            return Err("Another connection is already in progress!");
        }
        self.status = ConnectionStatus::Connecting;
        Ok(())
    }

    /// Records that the session is ready. Returns whether to create the
    /// tunnel now: not while a challenge is pending.
    pub fn session_ready(&mut self, pending: Option<MfaChallenge>) -> (r: bool)
        ensures
            r <==> pending is None,
            final(self).status_spec() == status_after_session(pending),
    {
        match pending {
            Some(c) => {
                self.status = ConnectionStatus::Mfa(c);
                false
            },
            None => {
                self.status = ConnectionStatus::Connecting;
                true
            },
        }
    }

    /// Takes an event of the running tunnel, and whether the connector failed
    /// to handle it, and says what else to do.
    pub fn on_tunnel_event(&mut self, event: TunnelEvent, handler_failed: bool) -> (r: EventFollowUp)
        ensures
            final(self).status_spec() == status_after_event(old(self).status_spec(), event, handler_failed),
            r == follow_up_of(event, handler_failed),
    {
        if handler_failed {
            self.status = ConnectionStatus::Disconnected;
            return EventFollowUp::Reset;
        }
        match event {
            TunnelEvent::Connected(info) => {
                self.status = ConnectionStatus::Connected(info);
                EventFollowUp::StartStatsPoller
            },
            TunnelEvent::Disconnected => {
                self.status = ConnectionStatus::Disconnected;
                EventFollowUp::Reset
            },
            TunnelEvent::Rekeyed(addr, prefix) => {
                let mut status = ConnectionStatus::Disconnected;
                std::mem::swap(&mut status, &mut self.status);
                self.status = match status {
                    ConnectionStatus::Connected(info) => {
                        let mut info = info;
                        info.ip_address = (addr, prefix);
                        ConnectionStatus::Connected(info)
                    },
                    other => other,
                };
                EventFollowUp::Nothing
            },
            TunnelEvent::Rtt(ms) => {
                let mut status = ConnectionStatus::Disconnected;
                std::mem::swap(&mut status, &mut self.status);
                self.status = match status {
                    ConnectionStatus::Connected(info) => {
                        let mut info = info;
                        info.live.last_rtt_ms = Some(ms);
                        ConnectionStatus::Connected(info)
                    },
                    other => other,
                };
                EventFollowUp::Nothing
            },
            _ => EventFollowUp::Nothing,
        }
    }
}

/// A reported status with fresh traffic statistics: a connected status
/// takes the polled statistics but keeps its last round-trip time; any other
/// status, or no statistics, stays as it is.
pub open spec fn spec_with_live(s: ConnectionStatus, live: Option<LiveStats>) -> ConnectionStatus {
    match (s, live) {
        (ConnectionStatus::Connected(info), Some(l)) => ConnectionStatus::Connected(
            Box::new(ConnectionInfo { live: LiveStats { last_rtt_ms: info.live.last_rtt_ms, ..l }, ..*info }),
        ),
        _ => s,
    }
}

/// Puts freshly polled traffic statistics into a status being reported.
pub fn with_live(status: ConnectionStatus, live: Option<LiveStats>) -> (r: ConnectionStatus)
    ensures
        r == spec_with_live(status, live),
{
    match (status, live) {
        (ConnectionStatus::Connected(info), Some(l)) => {
            let mut info = info;
            let rtt = info.live.last_rtt_ms;
            info.live = LiveStats { last_rtt_ms: rtt, ..l };
            ConnectionStatus::Connected(info)
        },
        (other, _) => other,
    }
}

/// A disconnection always leaves the service disconnected, and a failed
/// event handler always disconnects it; a round-trip time or a new address
/// never connects or disconnects it, and changes nothing but that value of
/// a connected status.
pub proof fn law_events_keep_or_reset_status(s: ConnectionStatus, e: TunnelEvent, failed: bool)
    ensures
        failed ==> status_after_event(s, e, failed) is Disconnected,
        (e is Disconnected) ==> status_after_event(s, e, failed) is Disconnected,
        (!failed && (e is Rtt || e is Rekeyed)) ==> match (s, status_after_event(s, e, failed)) {
            (ConnectionStatus::Connected(a), ConnectionStatus::Connected(b)) => b.server_name == a.server_name
                && b.profile_id == a.profile_id && b.interface_name == a.interface_name && b.since == a.since,
            (ConnectionStatus::Connected(_), _) => false,
            (_, t) => t == s,
        },
        (!failed && e is Rtt && s is Connected) ==> (status_after_event(s, e, failed) matches ConnectionStatus::Connected(
            b,
        ) && b.live.last_rtt_ms == Some(e->Rtt_0)),
{
}

/// A connect request while a connection is under way changes nothing; one
/// while disconnected leaves the service connecting until the session is
/// ready, then waiting for a challenge or still connecting.
pub proof fn law_connect_flow(pending: Option<MfaChallenge>)
    ensures
        status_after_session(pending) is Mfa <==> pending is Some,
        status_after_session(pending) is Connecting <==> pending is None,
{
}

/// Which connector serves a profile.
#[derive(Debug, Clone, Copy, PartialEq, Eq, Structural)]
pub enum ConnectorKind {
    Ikev1,
    Ikev2,
    Ssl,
}

/// The id of the mobile access login option.
pub open spec fn mobile_access_id() -> Seq<char> {
    "ma"@
}

/// Whether a profile is served over IPsec: an IPsec tunnel not logged in
/// through mobile access.
pub open spec fn uses_ipsec(tunnel_type: TunnelType, login_type: Seq<char>) -> bool {
    tunnel_type == TunnelType::IPsec && login_type != mobile_access_id()
}

/// The connector for a profile: IKEv2 or IKEv1 for IPsec (when the version
/// is detected, IKEv2 if the gateway prefers it), SSL otherwise.
pub open spec fn spec_connector_kind(
    tunnel_type: TunnelType,
    login_type: Seq<char>,
    version: IkeVersion,
    gateway_prefers_ikev2: bool,
) -> ConnectorKind {
    if !uses_ipsec(tunnel_type, login_type) {
        ConnectorKind::Ssl
    } else {
        let v = match version {
            IkeVersion::AutoDetect => if gateway_prefers_ikev2 {
                IkeVersion::V2
            } else {
                IkeVersion::V1
            },
            other => other,
        };
        if v == IkeVersion::V2 {
            ConnectorKind::Ikev2
        } else {
            ConnectorKind::Ikev1
        }
    }
}

/// Makes the connectors of the Check Point protocols.
pub struct CheckPointConnectorFactory {}

impl CheckPointConnectorFactory {
    /// A connector factory.
    pub fn new() -> (r: Self) {
        CheckPointConnectorFactory {}
    }

    /// Whether choosing the connector needs the gateway's preference: an
    /// IPsec profile whose IKE version is detected.
    pub fn needs_gateway_preference(&self, tunnel_type: TunnelType, login_type: &str, version: IkeVersion) -> (r: bool)
        ensures
            r == (uses_ipsec(tunnel_type, login_type@) && version == IkeVersion::AutoDetect),
    {
        tunnel_type == TunnelType::IPsec && !str_eq(login_type, "ma") && version == IkeVersion::AutoDetect
    }

    /// The connector for a profile, given whether the gateway prefers IKEv2
    /// (read only when the version is detected).
    pub fn connector_kind(
        &self,
        tunnel_type: TunnelType,
        login_type: &str,
        version: IkeVersion,
        gateway_prefers_ikev2: bool,
    ) -> (r: ConnectorKind)
        ensures
            r == spec_connector_kind(tunnel_type, login_type@, version, gateway_prefers_ikev2),
    {
        if tunnel_type == TunnelType::IPsec && !str_eq(login_type, "ma") {
            let v = match version {
                IkeVersion::AutoDetect => if gateway_prefers_ikev2 {
                    IkeVersion::V2
                } else {
                    IkeVersion::V1
                },
                other => other,
            };
            if v == IkeVersion::V2 {
                ConnectorKind::Ikev2
            } else {
                ConnectorKind::Ikev1
            }
        } else {
            ConnectorKind::Ssl
        }
    }
}

/// The texts of a connection report that are formatted by the caller: the
/// time connected since, the names of the tunnel and transport types, and
/// the byte counts and rates in binary units.
pub struct InfoTexts {
    pub since: String,
    pub tunnel_type: String,
    pub transport_type: String,
    pub bytes_rx: String,
    pub bytes_tx: String,
    pub bps_rx: String,
    pub bps_tx: String,
}

/// `v` when connected, else empty.
pub open spec fn or_empty(connected: bool, v: Seq<char>) -> Seq<char> {
    if connected {
        v
    } else {
        Seq::empty()
    }
}

/// The texts of search domains as `Display` shows them.
pub open spec fn domain_texts(ds: Seq<(Seq<char>, bool)>) -> Seq<Seq<char>> {
    ds.map_values(|d: (Seq<char>, bool)| domain_text(d.0, d.1))
}

/// A list of texts in brackets, separated by `, `.
pub open spec fn bracketed(items: Seq<Seq<char>>) -> Seq<char> {
    "["@ + join(items, ", "@) + "]"@
}

/// The round-trip time as reported: milliseconds, or a dash when none was measured.
pub open spec fn rtt_text(rtt: Option<u64>) -> Seq<char> {
    match rtt {
        Some(ms) => decimal(ms as nat) + " ms"@,
        None => "—"@,
    }
}

/// The first rows of a connection report: when, which profile, server,
/// user, login and tunnel type.
pub open spec fn info_head(i: ConnectionInfo, t: InfoTexts) -> Seq<(Seq<char>, Seq<char>)> {
    let c = i.since is Some;
    seq![
        ("info-connected-since"@, or_empty(c, t.since@)),
        ("info-connection-profile"@, or_empty(c, i.profile_name@)),
        ("info-server-name"@, or_empty(c, i.server_name@)),
        ("info-user-name"@, or_empty(c, i.username@)),
        ("info-login-type"@, or_empty(c, i.login_type@)),
        ("info-tunnel-type"@, or_empty(c, t.tunnel_type@)),
    ]
}

/// The transport row, for IPsec tunnels only.
pub open spec fn info_transport(i: ConnectionInfo, t: InfoTexts) -> Seq<(Seq<char>, Seq<char>)> {
    if i.tunnel_type == TunnelType::IPsec {
        seq![("info-transport-type"@, or_empty(i.since is Some, t.transport_type@))]
    } else {
        Seq::empty()
    }
}

/// The rows of the tunnel's network setup.
pub open spec fn info_body(i: ConnectionInfo) -> Seq<(Seq<char>, Seq<char>)> {
    let c = i.since is Some;
    seq![
        ("info-ip-address"@, or_empty(c, dotted(octets_of(i.ip_address.0)) + "/"@ + decimal(i.ip_address.1 as nat))),
        ("info-dns-servers"@, or_empty(c, bracketed(address_texts(i.dns_servers@)))),
        ("info-search-domains"@, or_empty(c, bracketed(domain_texts(domain_views(i.search_domains@))))),
        ("info-interface"@, or_empty(c, i.interface_name@)),
        ("info-dns-configured"@, or_empty(c, bool_text(i.dns_configured))),
        ("info-routing-configured"@, or_empty(c, bool_text(i.routing_configured))),
        ("info-default-route"@, or_empty(c, bool_text(i.default_route))),
    ]
}

/// The statistics rows: the round-trip time for IPsec tunnels, then bytes,
/// rates and packets.
pub open spec fn info_stats(i: ConnectionInfo, t: InfoTexts) -> Seq<(Seq<char>, Seq<char>)> {
    let c = i.since is Some;
    let rtt = if i.tunnel_type == TunnelType::IPsec {
        seq![("info-rtt"@, or_empty(c, rtt_text(i.live.last_rtt_ms)))]
    } else {
        Seq::empty()
    };
    rtt + seq![
        ("info-bytes-received"@, or_empty(c, t.bytes_rx@)),
        ("info-bytes-sent"@, or_empty(c, t.bytes_tx@)),
        ("info-rate-received"@, or_empty(c, t.bps_rx@ + "/s"@)),
        ("info-rate-sent"@, or_empty(c, t.bps_tx@ + "/s"@)),
        ("info-packets-received"@, or_empty(c, decimal(i.live.packets_rx as nat))),
        ("info-packets-sent"@, or_empty(c, decimal(i.live.packets_tx as nat))),
    ]
}

/// The rows of a connection report: labels (message ids, before localization) and values,
/// all values but the time empty while not connected; the transport type
/// and, with statistics, the round-trip time only for IPsec tunnels.
pub open spec fn info_rows(i: ConnectionInfo, with_stats: bool, t: InfoTexts) -> Seq<(Seq<char>, Seq<char>)> {
    info_head(i, t) + info_transport(i, t) + info_body(i) + if with_stats {
        info_stats(i, t)
    } else {
        Seq::empty()
    }
}

/// In a connected report with statistics, the sent-bytes row shows the
/// caller's text for sent bytes and the received-bytes row its text for
/// received bytes: each label occurs, and every row with it carries that text.
pub proof fn law_report_byte_rows(i: ConnectionInfo, t: InfoTexts)
    requires
        i.since is Some,
    ensures
        ({
            let rows = info_rows(i, true, t);
            &&& exists|j: int| 0 <= j < rows.len() && rows[j] == ("info-bytes-sent"@, t.bytes_tx@)
            &&& exists|j: int| 0 <= j < rows.len() && rows[j] == ("info-bytes-received"@, t.bytes_rx@)
            &&& forall|j: int| 0 <= j < rows.len() && (#[trigger] rows[j]).0 == "info-bytes-sent"@ ==> rows[j].1 == t.bytes_tx@
            &&& forall|j: int| 0 <= j < rows.len() && (#[trigger] rows[j]).0 == "info-bytes-received"@ ==> rows[j].1 == t.bytes_rx@
        }),
{
    let rows = info_rows(i, true, t);
    let lead = info_head(i, t) + info_transport(i, t) + info_body(i);
    let st = info_stats(i, t);
    let n = lead.len() + (if i.tunnel_type == TunnelType::IPsec { 1int } else { 0int });
    assert(rows =~= lead + st);
    reveal_strlit("info-connected-since");
    reveal_strlit("info-connection-profile");
    reveal_strlit("info-server-name");
    reveal_strlit("info-user-name");
    reveal_strlit("info-login-type");
    reveal_strlit("info-tunnel-type");
    reveal_strlit("info-transport-type");
    reveal_strlit("info-ip-address");
    reveal_strlit("info-dns-servers");
    reveal_strlit("info-search-domains");
    reveal_strlit("info-interface");
    reveal_strlit("info-dns-configured");
    reveal_strlit("info-routing-configured");
    reveal_strlit("info-default-route");
    reveal_strlit("info-rtt");
    reveal_strlit("info-bytes-received");
    reveal_strlit("info-bytes-sent");
    reveal_strlit("info-rate-received");
    reveal_strlit("info-rate-sent");
    reveal_strlit("info-packets-received");
    reveal_strlit("info-packets-sent");
    assert(rows[n] == ("info-bytes-received"@, t.bytes_rx@));
    assert(rows[n + 1] == ("info-bytes-sent"@, t.bytes_tx@));
    assert forall|j: int| 0 <= j < rows.len() && (#[trigger] rows[j]).0 == "info-bytes-sent"@ implies rows[j].1
        == t.bytes_tx@ by {
        if i.tunnel_type == TunnelType::IPsec {
            assert(rows.len() == 21);
            if j == 0 {
                assert(rows[0].0 == "info-connected-since"@);
                assert("info-connected-since"@.len() != "info-bytes-sent"@.len());
            } else if j == 1 {
                assert(rows[1].0 == "info-connection-profile"@);
                assert("info-connection-profile"@.len() != "info-bytes-sent"@.len());
            } else if j == 2 {
                assert(rows[2].0 == "info-server-name"@);
                assert("info-server-name"@.len() != "info-bytes-sent"@.len());
            } else if j == 3 {
                assert(rows[3].0 == "info-user-name"@);
                assert("info-user-name"@.len() != "info-bytes-sent"@.len());
            } else if j == 4 {
                assert(rows[4].0 == "info-login-type"@);
                assert("info-login-type"@[5] != "info-bytes-sent"@[5]);
            } else if j == 5 {
                assert(rows[5].0 == "info-tunnel-type"@);
                assert("info-tunnel-type"@.len() != "info-bytes-sent"@.len());
            } else if j == 6 {
                assert(rows[6].0 == "info-transport-type"@);
                assert("info-transport-type"@.len() != "info-bytes-sent"@.len());
            } else if j == 7 {
                assert(rows[7].0 == "info-ip-address"@);
                assert("info-ip-address"@[5] != "info-bytes-sent"@[5]);
            } else if j == 8 {
                assert(rows[8].0 == "info-dns-servers"@);
                assert("info-dns-servers"@.len() != "info-bytes-sent"@.len());
            } else if j == 9 {
                assert(rows[9].0 == "info-search-domains"@);
                assert("info-search-domains"@.len() != "info-bytes-sent"@.len());
            } else if j == 10 {
                assert(rows[10].0 == "info-interface"@);
                assert("info-interface"@.len() != "info-bytes-sent"@.len());
            } else if j == 11 {
                assert(rows[11].0 == "info-dns-configured"@);
                assert("info-dns-configured"@.len() != "info-bytes-sent"@.len());
            } else if j == 12 {
                assert(rows[12].0 == "info-routing-configured"@);
                assert("info-routing-configured"@.len() != "info-bytes-sent"@.len());
            } else if j == 13 {
                assert(rows[13].0 == "info-default-route"@);
                assert("info-default-route"@.len() != "info-bytes-sent"@.len());
            } else if j == 14 {
                assert(rows[14].0 == "info-rtt"@);
                assert("info-rtt"@.len() != "info-bytes-sent"@.len());
            } else if j == 15 {
                assert(rows[15].0 == "info-bytes-received"@);
                assert("info-bytes-received"@.len() != "info-bytes-sent"@.len());
            } else if j == 17 {
                assert(rows[17].0 == "info-rate-received"@);
                assert("info-rate-received"@.len() != "info-bytes-sent"@.len());
            } else if j == 18 {
                assert(rows[18].0 == "info-rate-sent"@);
                assert("info-rate-sent"@.len() != "info-bytes-sent"@.len());
            } else if j == 19 {
                assert(rows[19].0 == "info-packets-received"@);
                assert("info-packets-received"@.len() != "info-bytes-sent"@.len());
            } else if j == 20 {
                assert(rows[20].0 == "info-packets-sent"@);
                assert("info-packets-sent"@.len() != "info-bytes-sent"@.len());
            }
        } else {
            assert(rows.len() == 19);
            if j == 0 {
                assert(rows[0].0 == "info-connected-since"@);
                assert("info-connected-since"@.len() != "info-bytes-sent"@.len());
            } else if j == 1 {
                assert(rows[1].0 == "info-connection-profile"@);
                assert("info-connection-profile"@.len() != "info-bytes-sent"@.len());
            } else if j == 2 {
                assert(rows[2].0 == "info-server-name"@);
                assert("info-server-name"@.len() != "info-bytes-sent"@.len());
            } else if j == 3 {
                assert(rows[3].0 == "info-user-name"@);
                assert("info-user-name"@.len() != "info-bytes-sent"@.len());
            } else if j == 4 {
                assert(rows[4].0 == "info-login-type"@);
                assert("info-login-type"@[5] != "info-bytes-sent"@[5]);
            } else if j == 5 {
                assert(rows[5].0 == "info-tunnel-type"@);
                assert("info-tunnel-type"@.len() != "info-bytes-sent"@.len());
            } else if j == 6 {
                assert(rows[6].0 == "info-ip-address"@);
                assert("info-ip-address"@[5] != "info-bytes-sent"@[5]);
            } else if j == 7 {
                assert(rows[7].0 == "info-dns-servers"@);
                assert("info-dns-servers"@.len() != "info-bytes-sent"@.len());
            } else if j == 8 {
                assert(rows[8].0 == "info-search-domains"@);
                assert("info-search-domains"@.len() != "info-bytes-sent"@.len());
            } else if j == 9 {
                assert(rows[9].0 == "info-interface"@);
                assert("info-interface"@.len() != "info-bytes-sent"@.len());
            } else if j == 10 {
                assert(rows[10].0 == "info-dns-configured"@);
                assert("info-dns-configured"@.len() != "info-bytes-sent"@.len());
            } else if j == 11 {
                assert(rows[11].0 == "info-routing-configured"@);
                assert("info-routing-configured"@.len() != "info-bytes-sent"@.len());
            } else if j == 12 {
                assert(rows[12].0 == "info-default-route"@);
                assert("info-default-route"@.len() != "info-bytes-sent"@.len());
            } else if j == 13 {
                assert(rows[13].0 == "info-bytes-received"@);
                assert("info-bytes-received"@.len() != "info-bytes-sent"@.len());
            } else if j == 15 {
                assert(rows[15].0 == "info-rate-received"@);
                assert("info-rate-received"@.len() != "info-bytes-sent"@.len());
            } else if j == 16 {
                assert(rows[16].0 == "info-rate-sent"@);
                assert("info-rate-sent"@.len() != "info-bytes-sent"@.len());
            } else if j == 17 {
                assert(rows[17].0 == "info-packets-received"@);
                assert("info-packets-received"@.len() != "info-bytes-sent"@.len());
            } else if j == 18 {
                assert(rows[18].0 == "info-packets-sent"@);
                assert("info-packets-sent"@.len() != "info-bytes-sent"@.len());
            }
        }
    }
    assert forall|j: int| 0 <= j < rows.len() && (#[trigger] rows[j]).0 == "info-bytes-received"@ implies rows[j].1
        == t.bytes_rx@ by {
        if i.tunnel_type == TunnelType::IPsec {
            assert(rows.len() == 21);
            if j == 0 {
                assert(rows[0].0 == "info-connected-since"@);
                assert("info-connected-since"@.len() != "info-bytes-received"@.len());
            } else if j == 1 {
                assert(rows[1].0 == "info-connection-profile"@);
                assert("info-connection-profile"@.len() != "info-bytes-received"@.len());
            } else if j == 2 {
                assert(rows[2].0 == "info-server-name"@);
                assert("info-server-name"@.len() != "info-bytes-received"@.len());
            } else if j == 3 {
                assert(rows[3].0 == "info-user-name"@);
                assert("info-user-name"@.len() != "info-bytes-received"@.len());
            } else if j == 4 {
                assert(rows[4].0 == "info-login-type"@);
                assert("info-login-type"@.len() != "info-bytes-received"@.len());
            } else if j == 5 {
                assert(rows[5].0 == "info-tunnel-type"@);
                assert("info-tunnel-type"@.len() != "info-bytes-received"@.len());
            } else if j == 6 {
                assert(rows[6].0 == "info-transport-type"@);
                assert("info-transport-type"@[5] != "info-bytes-received"@[5]);
            } else if j == 7 {
                assert(rows[7].0 == "info-ip-address"@);
                assert("info-ip-address"@.len() != "info-bytes-received"@.len());
            } else if j == 8 {
                assert(rows[8].0 == "info-dns-servers"@);
                assert("info-dns-servers"@.len() != "info-bytes-received"@.len());
            } else if j == 9 {
                assert(rows[9].0 == "info-search-domains"@);
                assert("info-search-domains"@[5] != "info-bytes-received"@[5]);
            } else if j == 10 {
                assert(rows[10].0 == "info-interface"@);
                assert("info-interface"@.len() != "info-bytes-received"@.len());
            } else if j == 11 {
                assert(rows[11].0 == "info-dns-configured"@);
                assert("info-dns-configured"@[5] != "info-bytes-received"@[5]);
            } else if j == 12 {
                assert(rows[12].0 == "info-routing-configured"@);
                assert("info-routing-configured"@.len() != "info-bytes-received"@.len());
            } else if j == 13 {
                assert(rows[13].0 == "info-default-route"@);
                assert("info-default-route"@.len() != "info-bytes-received"@.len());
            } else if j == 14 {
                assert(rows[14].0 == "info-rtt"@);
                assert("info-rtt"@.len() != "info-bytes-received"@.len());
            } else if j == 16 {
                assert(rows[16].0 == "info-bytes-sent"@);
                assert("info-bytes-sent"@.len() != "info-bytes-received"@.len());
            } else if j == 17 {
                assert(rows[17].0 == "info-rate-received"@);
                assert("info-rate-received"@.len() != "info-bytes-received"@.len());
            } else if j == 18 {
                assert(rows[18].0 == "info-rate-sent"@);
                assert("info-rate-sent"@.len() != "info-bytes-received"@.len());
            } else if j == 19 {
                assert(rows[19].0 == "info-packets-received"@);
                assert("info-packets-received"@.len() != "info-bytes-received"@.len());
            } else if j == 20 {
                assert(rows[20].0 == "info-packets-sent"@);
                assert("info-packets-sent"@.len() != "info-bytes-received"@.len());
            }
        } else {
            assert(rows.len() == 19);
            if j == 0 {
                assert(rows[0].0 == "info-connected-since"@);
                assert("info-connected-since"@.len() != "info-bytes-received"@.len());
            } else if j == 1 {
                assert(rows[1].0 == "info-connection-profile"@);
                assert("info-connection-profile"@.len() != "info-bytes-received"@.len());
            } else if j == 2 {
                assert(rows[2].0 == "info-server-name"@);
                assert("info-server-name"@.len() != "info-bytes-received"@.len());
            } else if j == 3 {
                assert(rows[3].0 == "info-user-name"@);
                assert("info-user-name"@.len() != "info-bytes-received"@.len());
            } else if j == 4 {
                assert(rows[4].0 == "info-login-type"@);
                assert("info-login-type"@.len() != "info-bytes-received"@.len());
            } else if j == 5 {
                assert(rows[5].0 == "info-tunnel-type"@);
                assert("info-tunnel-type"@.len() != "info-bytes-received"@.len());
            } else if j == 6 {
                assert(rows[6].0 == "info-ip-address"@);
                assert("info-ip-address"@.len() != "info-bytes-received"@.len());
            } else if j == 7 {
                assert(rows[7].0 == "info-dns-servers"@);
                assert("info-dns-servers"@.len() != "info-bytes-received"@.len());
            } else if j == 8 {
                assert(rows[8].0 == "info-search-domains"@);
                assert("info-search-domains"@[5] != "info-bytes-received"@[5]);
            } else if j == 9 {
                assert(rows[9].0 == "info-interface"@);
                assert("info-interface"@.len() != "info-bytes-received"@.len());
            } else if j == 10 {
                assert(rows[10].0 == "info-dns-configured"@);
                assert("info-dns-configured"@[5] != "info-bytes-received"@[5]);
            } else if j == 11 {
                assert(rows[11].0 == "info-routing-configured"@);
                assert("info-routing-configured"@.len() != "info-bytes-received"@.len());
            } else if j == 12 {
                assert(rows[12].0 == "info-default-route"@);
                assert("info-default-route"@.len() != "info-bytes-received"@.len());
            } else if j == 14 {
                assert(rows[14].0 == "info-bytes-sent"@);
                assert("info-bytes-sent"@.len() != "info-bytes-received"@.len());
            } else if j == 15 {
                assert(rows[15].0 == "info-rate-received"@);
                assert("info-rate-received"@.len() != "info-bytes-received"@.len());
            } else if j == 16 {
                assert(rows[16].0 == "info-rate-sent"@);
                assert("info-rate-sent"@.len() != "info-bytes-received"@.len());
            } else if j == 17 {
                assert(rows[17].0 == "info-packets-received"@);
                assert("info-packets-received"@.len() != "info-bytes-received"@.len());
            } else if j == 18 {
                assert(rows[18].0 == "info-packets-sent"@);
                assert("info-packets-sent"@.len() != "info-bytes-received"@.len());
            }
        }
    }
}

/// The texts of report rows.
pub open spec fn row_views(v: Seq<(&'static str, String)>) -> Seq<(Seq<char>, Seq<char>)> {
    v.map_values(|p: (&'static str, String)| (p.0@, p.1@))
}

fn push_row(rows: &mut Vec<(&'static str, String)>, key: &'static str, connected: bool, value: String)
    ensures
        row_views(final(rows)@) == row_views(old(rows)@).push((key@, or_empty(connected, value@))),
{
    let v = if connected {
        value
    } else {
        String::new()
    };
    rows.push((key, v));
    assert(row_views(rows@) =~= row_views(old(rows)@).push((key@, or_empty(connected, value@))));
}

fn decimal_text(n: u64) -> (r: String)
    ensures
        r@ == decimal(n as nat),
{
    let d = decimal_chars(n);
    string_from_chars(d.as_slice())
}

fn bracketed_text(items: &[String]) -> (r: String)
    ensures
        r@ == bracketed(views(items@)),
{
    let j = join_strings(items, ", ");
    let mut r = owned("[");
    append_str(&mut r, j.as_str());
    append_str(&mut r, "]");
    r
}

fn bool_string(b: bool) -> (r: String)
    ensures
        r@ == bool_text(b),
{
    if b {
        owned("true")
    } else {
        owned("false")
    }
}

impl ConnectionInfo {
    /// Whether the connection is established: it has a time connected since.
    pub fn is_connected(&self) -> (r: bool)
        ensures
            r == self.since is Some,
    {
        self.since.is_some()
    }

    fn push_head(&self, r: &mut Vec<(&'static str, String)>, texts: &InfoTexts)
        ensures
            row_views(final(r)@) == row_views(old(r)@) + info_head(*self, *texts) + info_transport(*self, *texts),
    {
        let c = self.is_connected();
        push_row(r, "info-connected-since", c, owned(texts.since.as_str()));
        push_row(r, "info-connection-profile", c, owned(self.profile_name.as_str()));
        push_row(r, "info-server-name", c, owned(self.server_name.as_str()));
        push_row(r, "info-user-name", c, owned(self.username.as_str()));
        push_row(r, "info-login-type", c, owned(self.login_type.as_str()));
        push_row(r, "info-tunnel-type", c, owned(texts.tunnel_type.as_str()));
        if self.tunnel_type == TunnelType::IPsec {
            push_row(r, "info-transport-type", c, owned(texts.transport_type.as_str()));
        }
        assert(row_views(r@) =~= row_views(old(r)@) + info_head(*self, *texts) + info_transport(*self, *texts));
    }

    fn server_texts(&self) -> (r: Vec<String>)
        ensures
            views(r@) == address_texts(self.dns_servers@),
    {
        let mut servers: Vec<String> = Vec::new();
        let mut k: usize = 0;
        while k < self.dns_servers.len()
            invariant
                k <= self.dns_servers@.len(),
                views(servers@) == address_texts(self.dns_servers@).take(k as int),
            decreases self.dns_servers@.len() - k,
        {
            let ghost before = servers@;
            let t = ipv4_text(octets(self.dns_servers[k]));
            servers.push(t);
            proof {
                crate::text::lemma_views_push(before, t);
                assert(servers@ == before.push(t));
                assert(views(servers@) =~= address_texts(self.dns_servers@).take(k + 1));
            }
            k = k + 1;
        }
        assert(address_texts(self.dns_servers@).take(self.dns_servers@.len() as int) == address_texts(self.dns_servers@));
        servers
    }

    fn domain_strings(&self) -> (r: Vec<String>)
        ensures
            views(r@) == domain_texts(domain_views(self.search_domains@)),
    {
        let ghost dt = domain_texts(domain_views(self.search_domains@));
        let mut domains: Vec<String> = Vec::new();
        let mut m: usize = 0;
        while m < self.search_domains.len()
            invariant
                m <= self.search_domains@.len(),
                dt == domain_texts(domain_views(self.search_domains@)),
                views(domains@) == dt.take(m as int),
            decreases self.search_domains@.len() - m,
        {
            let ghost before = domains@;
            let t = self.search_domains[m].to_text();
            domains.push(t);
            proof {
                crate::text::lemma_views_push(before, t);
                assert(domains@ == before.push(t));
                assert(views(domains@) =~= dt.take(m + 1));
            }
            m = m + 1;
        }
        assert(dt.take(self.search_domains@.len() as int) == dt);
        domains
    }

    fn push_body(&self, r: &mut Vec<(&'static str, String)>)
        ensures
            row_views(final(r)@) == row_views(old(r)@) + info_body(*self),
    {
        let c = self.is_connected();
        let mut ip = ipv4_text(octets(self.ip_address.0));
        append_str(&mut ip, "/");
        append_str(&mut ip, decimal_text(self.ip_address.1 as u64).as_str());
        push_row(r, "info-ip-address", c, ip);
        let servers = self.server_texts();
        push_row(r, "info-dns-servers", c, bracketed_text(servers.as_slice()));
        let domains = self.domain_strings();
        push_row(r, "info-search-domains", c, bracketed_text(domains.as_slice()));
        push_row(r, "info-interface", c, owned(self.interface_name.as_str()));
        push_row(r, "info-dns-configured", c, bool_string(self.dns_configured));
        push_row(r, "info-routing-configured", c, bool_string(self.routing_configured));
        push_row(r, "info-default-route", c, bool_string(self.default_route));
        assert(row_views(r@) =~= row_views(old(r)@) + info_body(*self));
    }

    fn push_stats(&self, r: &mut Vec<(&'static str, String)>, texts: &InfoTexts)
        ensures
            row_views(final(r)@) == row_views(old(r)@) + info_stats(*self, *texts),
    {
        let c = self.is_connected();
        if self.tunnel_type == TunnelType::IPsec {
            let rtt = match self.live.last_rtt_ms {
                Some(ms) => concat_str(decimal_text(ms).as_str(), " ms"),
                None => owned("—"),
            };
            push_row(r, "info-rtt", c, rtt);
        }
        push_row(r, "info-bytes-received", c, owned(texts.bytes_rx.as_str()));
        push_row(r, "info-bytes-sent", c, owned(texts.bytes_tx.as_str()));
        push_row(r, "info-rate-received", c, concat_str(texts.bps_rx.as_str(), "/s"));
        push_row(r, "info-rate-sent", c, concat_str(texts.bps_tx.as_str(), "/s"));
        push_row(r, "info-packets-received", c, decimal_text(self.live.packets_rx));
        push_row(r, "info-packets-sent", c, decimal_text(self.live.packets_tx));
        assert(row_views(r@) =~= row_views(old(r)@) + info_stats(*self, *texts));
    }

    /// The rows of the connection report, with the caller's formatted
    /// `texts`; the statistics rows only `with_stats`.
    pub fn to_values(&self, with_stats: bool, texts: &InfoTexts) -> (r: Vec<(&'static str, String)>)
        ensures
            row_views(r@) == info_rows(*self, with_stats, *texts),
    {
        let mut r: Vec<(&'static str, String)> = Vec::new();
        self.push_head(&mut r, texts);
        self.push_body(&mut r);
        if with_stats {
            self.push_stats(&mut r, texts);
        }
        assert(row_views(r@) =~= info_rows(*self, with_stats, *texts));
        r
    }
}

/// The lower-case hexadecimal digits.
pub open spec fn hex_digits() -> Seq<char> {
    seq!['0', '1', '2', '3', '4', '5', '6', '7', '8', '9', 'a', 'b', 'c', 'd', 'e', 'f']
}

/// The `n` lowest hexadecimal digits of `v`, most significant first, as
/// `{:0n$x}` writes a value that fits in them.
pub open spec fn hex_fixed(v: nat, n: nat) -> Seq<char>
    decreases n,
{
    if n == 0 {
        Seq::empty()
    } else {
        hex_fixed(v / 16, (n - 1) as nat).push(hex_digits()[(v % 16) as int])
    }
}

fn hex_chars(v: u64, n: usize) -> (r: Vec<char>)
    ensures
        r@ == hex_fixed(v as nat, n as nat),
    decreases n,
{
    if n == 0 {
        Vec::new()
    } else {
        let mut r = hex_chars(v / 16, n - 1);
        let table = ['0', '1', '2', '3', '4', '5', '6', '7', '8', '9', 'a', 'b', 'c', 'd', 'e', 'f'];
        assert(table@ =~= hex_digits());
        r.push(table[(v % 16) as usize]);
        r
    }
}

fn hex_text(v: u64, n: usize) -> (r: String)
    ensures
        r@ == hex_fixed(v as nat, n as nat),
{
    let cs = hex_chars(v, n);
    string_from_chars(cs.as_slice())
}

/// The rows of the IKE association report: the SPIs in hexadecimal (IKE
/// ones in 16 digits, ESP ones in 8), the lifetime in whole seconds, the caller's
/// formatted creation and expiry times, and the ESP algorithms.
pub open spec fn ike_rows(s: IkeState, timestamp: Seq<char>, expiration: Seq<char>) -> Seq<(Seq<char>, Seq<char>)> {
    seq![
        ("info-ike-initiator-spi"@, hex_fixed(s.initiator_spi as nat, 16)),
        ("info-ike-responder-spi"@, hex_fixed(s.responder_spi as nat, 16)),
        ("info-ike-lifetime"@, decimal((s.lifetime / 1_000_000_000) as nat)),
        ("info-ike-timestamp"@, timestamp),
        ("info-ike-expiration"@, expiration),
        ("info-esp-spi-in"@, hex_fixed(s.esp_in.spi as nat, 8)),
        ("info-esp-spi-out"@, hex_fixed(s.esp_out.spi as nat, 8)),
        ("info-esp-encryption-in"@, encryption_label(s.esp_in.enc_algorithm)),
        ("info-esp-authentication-in"@, authentication_label(s.esp_in.auth_algorithm)),
        ("info-esp-encryption-out"@, encryption_label(s.esp_out.enc_algorithm)),
        ("info-esp-authentication-out"@, authentication_label(s.esp_out.auth_algorithm)),
    ]
}

impl IkeState {
    /// The rows of the IKE association report; `timestamp` and `expiration`
    /// are the creation and expiry times as the caller formats them.
    pub fn to_values(&self, timestamp: &str, expiration: &str) -> (r: Vec<(&'static str, String)>)
        ensures
            row_views(r@) == ike_rows(*self, timestamp@, expiration@),
    {
        let mut r: Vec<(&'static str, String)> = Vec::new();
        push_row(&mut r, "info-ike-initiator-spi", true, hex_text(self.initiator_spi, 16));
        push_row(&mut r, "info-ike-responder-spi", true, hex_text(self.responder_spi, 16));
        push_row(&mut r, "info-ike-lifetime", true, decimal_text(self.lifetime / 1_000_000_000));
        push_row(&mut r, "info-ike-timestamp", true, owned(timestamp));
        push_row(&mut r, "info-ike-expiration", true, owned(expiration));
        push_row(&mut r, "info-esp-spi-in", true, hex_text(self.esp_in.spi as u64, 8));
        push_row(&mut r, "info-esp-spi-out", true, hex_text(self.esp_out.spi as u64, 8));
        push_row(&mut r, "info-esp-encryption-in", true, owned(self.esp_in.enc_algorithm.label()));
        push_row(&mut r, "info-esp-authentication-in", true, owned(self.esp_in.auth_algorithm.label()));
        push_row(&mut r, "info-esp-encryption-out", true, owned(self.esp_out.enc_algorithm.label()));
        push_row(&mut r, "info-esp-authentication-out", true, owned(self.esp_out.auth_algorithm.label()));
        assert(row_views(r@) =~= ike_rows(*self, timestamp@, expiration@));
        r
    }
}

impl ConnectionInfo {
    /// A copy of this report without traffic statistics.
    pub fn without_stats(&self) -> (r: ConnectionInfo)
        ensures
            r.since == self.since,
            r.server_name == self.server_name,
            r.username == self.username,
            r.login_type == self.login_type,
            r.tunnel_type == self.tunnel_type,
            r.transport_type == self.transport_type,
            r.ip_address == self.ip_address,
            r.dns_servers@ == self.dns_servers@,
            domain_views(r.search_domains@) == domain_views(self.search_domains@),
            r.interface_name == self.interface_name,
            r.dns_configured == self.dns_configured,
            r.routing_configured == self.routing_configured,
            r.default_route == self.default_route,
            r.profile_id == self.profile_id,
            r.profile_name == self.profile_name,
            r.live == LiveStats::default_spec(),
            r.ike_state == self.ike_state,
    {
        let mut dns: Vec<u32> = Vec::new();
        let mut i: usize = 0;
        while i < self.dns_servers.len()
            invariant
                i <= self.dns_servers@.len(),
                dns@ == self.dns_servers@.take(i as int),
            decreases self.dns_servers@.len() - i,
        {
            dns.push(self.dns_servers[i]);
            assert(self.dns_servers@.take(i + 1) == self.dns_servers@.take(i as int).push(self.dns_servers@[i as int]));
            i = i + 1;
        }
        assert(self.dns_servers@.take(self.dns_servers@.len() as int) == self.dns_servers@);
        let ghost dv = domain_views(self.search_domains@);
        let mut domains: Vec<SearchDomain> = Vec::new();
        let mut k: usize = 0;
        while k < self.search_domains.len()
            invariant
                k <= self.search_domains@.len(),
                dv == domain_views(self.search_domains@),
                domain_views(domains@) == dv.take(k as int),
            decreases self.search_domains@.len() - k,
        {
            let d = SearchDomain::new(self.search_domains[k].name.as_str(), self.search_domains[k].is_routing);
            let ghost before = domains@;
            domains.push(d);
            assert(domain_views(domains@) =~= domain_views(before).push((d.name@, d.is_routing)));
            assert(domain_views(domains@) =~= dv.take(k + 1));
            k = k + 1;
        }
        assert(dv.take(self.search_domains@.len() as int) == dv);
        ConnectionInfo {
            since: self.since,
            server_name: self.server_name.clone(),
            username: self.username.clone(),
            login_type: self.login_type.clone(),
            tunnel_type: self.tunnel_type,
            transport_type: self.transport_type,
            ip_address: self.ip_address,
            dns_servers: dns,
            search_domains: domains,
            interface_name: self.interface_name.clone(),
            dns_configured: self.dns_configured,
            routing_configured: self.routing_configured,
            default_route: self.default_route,
            profile_id: self.profile_id,
            profile_name: self.profile_name.clone(),
            live: LiveStats::default(),
            ike_state: self.ike_state,
        }
    }
}

impl IPsecSession {
    /// The IKE association of this session, as the status reports it.
    pub fn to_ike_state(&self) -> (r: IkeState)
        ensures
            r == (IkeState {
                initiator_spi: self.initiator_spi,
                responder_spi: self.responder_spi,
                lifetime: self.ike_lifetime,
                timestamp: self.ike_timestamp,
                esp_in: self.esp_in,
                esp_out: self.esp_out,
            }),
    {
        IkeState {
            initiator_spi: self.initiator_spi,
            responder_spi: self.responder_spi,
            lifetime: self.ike_lifetime,
            timestamp: self.ike_timestamp,
            esp_in: self.esp_in,
            esp_out: self.esp_out,
        }
    }
}

} // verus!
