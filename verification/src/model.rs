//! The data model shared by the service and its clients: multi-factor
//! challenges, live statistics, ESP algorithms, service requests and
//! prompts.

use vstd::prelude::*;
use crate::model::params::{TransportType, TunnelParams};
use crate::text::{
    chars_of, concat_str, ends_with, first_kept, has_suffix, is_ws, last_kept, lemma_trimmed_starts_kept, owned, str_eq,
    string_from_chars, trim_chars, trimmed, TrimSet,
};

pub mod params;
pub mod proto;

verus! {

/// How a multi-factor challenge is answered.
#[derive(Debug, Clone, Copy, PartialEq, Eq, Structural)]
pub enum MfaType {
    PasswordInput,
    IdentityProvider,
    UserNameInput,
    MobileAccess,
}

impl Default for MfaType {
    fn default() -> (r: Self)
        ensures
            r == MfaType::PasswordInput,
    {
        MfaType::PasswordInput
    }
}

impl MfaType {
    /// The kind of challenge a server prompt id asks for: `CPSC_SP_URL`
    /// sends the user to an identity provider, anything else asks for a
    /// password.
    pub fn from_id(id: &str) -> (r: Self)
        ensures
            id@ == "CPSC_SP_URL"@ ==> r == MfaType::IdentityProvider,
            id@ != "CPSC_SP_URL"@ ==> r == MfaType::PasswordInput,
    {
        if str_eq(id, "CPSC_SP_URL") {
            MfaType::IdentityProvider
        } else {
            MfaType::PasswordInput
        }
    }
}

/// A pending multi-factor challenge.
#[derive(Debug)]
pub struct MfaChallenge {
    pub mfa_type: MfaType,
    pub prompt: String,
}

impl Default for MfaChallenge {
    fn default() -> (r: Self)
        ensures
            r.mfa_type == MfaType::PasswordInput,
            r.prompt@ == Seq::<char>::empty(),
    {
        MfaChallenge { mfa_type: MfaType::PasswordInput, prompt: String::new() }
    }
}

/// Traffic counters and rates of the tunnel interface.
#[derive(Debug, Clone, Copy, PartialEq, Eq, Structural)]
pub struct LiveStats {
    pub last_rtt_ms: Option<u64>,
    pub bytes_rx: u64,
    pub bytes_tx: u64,
    pub packets_rx: u64,
    pub packets_tx: u64,
    pub errors_rx: u64,
    pub errors_tx: u64,
    pub bps_rx: u64,
    pub bps_tx: u64,
}

impl LiveStats {
    /// No statistics: no round-trip time, every count zero.
    pub open spec fn default_spec() -> LiveStats {
        LiveStats {
            last_rtt_ms: None,
            bytes_rx: 0,
            bytes_tx: 0,
            packets_rx: 0,
            packets_tx: 0,
            errors_rx: 0,
            errors_tx: 0,
            bps_rx: 0,
            bps_tx: 0,
        }
    }
}

impl Default for LiveStats {
    fn default() -> (r: Self)
        ensures
            r == LiveStats::default_spec(),
    {
        LiveStats {
            last_rtt_ms: None,
            bytes_rx: 0,
            bytes_tx: 0,
            packets_rx: 0,
            packets_tx: 0,
            errors_rx: 0,
            errors_tx: 0,
            bps_rx: 0,
            bps_tx: 0,
        }
    }
}

/// The cipher of an ESP security association.
#[derive(Debug, Clone, Copy, PartialEq, Eq, Structural)]
pub enum EncryptionAlgorithm {
    EspAesCbc,
    Esp3Des,
}

impl Default for EncryptionAlgorithm {
    fn default() -> (r: Self)
        ensures
            r == EncryptionAlgorithm::EspAesCbc,
    {
        EncryptionAlgorithm::EspAesCbc
    }
}

/// The display name of a cipher.
pub open spec fn encryption_label(a: EncryptionAlgorithm) -> Seq<char> {
    match a {
        EncryptionAlgorithm::EspAesCbc => "AES-CBC"@,
        EncryptionAlgorithm::Esp3Des => "3DES"@,
    }
}

impl EncryptionAlgorithm {
    /// The display name: `AES-CBC` or `3DES`.
    pub fn label(&self) -> (r: &'static str)
        ensures
            r@ == encryption_label(*self),
    {
        match self {
            EncryptionAlgorithm::EspAesCbc => "AES-CBC",
            EncryptionAlgorithm::Esp3Des => "3DES",
        }
    }
}

/// The integrity algorithm of an ESP security association.
#[derive(Debug, Clone, Copy, PartialEq, Eq, Structural)]
pub enum AuthenticationAlgorithm {
    HmacSha96,
    HmacSha160,
    HmacSha256,
    HmacSha256v2,
}

impl Default for AuthenticationAlgorithm {
    fn default() -> (r: Self)
        ensures
            r == AuthenticationAlgorithm::HmacSha256,
    {
        AuthenticationAlgorithm::HmacSha256
    }
}

/// The display name of an integrity algorithm.
pub open spec fn authentication_label(a: AuthenticationAlgorithm) -> Seq<char> {
    match a {
        AuthenticationAlgorithm::HmacSha96 => "HMAC-SHA96"@,
        AuthenticationAlgorithm::HmacSha160 => "HMAC-SHA160"@,
        AuthenticationAlgorithm::HmacSha256 => "HMAC-SHA256"@,
        AuthenticationAlgorithm::HmacSha256v2 => "HMAC-SHA256V2"@,
    }
}

impl AuthenticationAlgorithm {
    /// The display name, such as `HMAC-SHA256`.
    pub fn label(&self) -> (r: &'static str)
        ensures
            r@ == authentication_label(*self),
    {
        match self {
            AuthenticationAlgorithm::HmacSha96 => "HMAC-SHA96",
            AuthenticationAlgorithm::HmacSha160 => "HMAC-SHA160",
            AuthenticationAlgorithm::HmacSha256 => "HMAC-SHA256",
            AuthenticationAlgorithm::HmacSha256v2 => "HMAC-SHA256V2",
        }
    }
}

/// One direction of an ESP tunnel.
#[derive(Debug, Clone, Copy, PartialEq, Eq, Structural)]
pub struct EspState {
    pub spi: u32,
    pub enc_algorithm: EncryptionAlgorithm,
    pub auth_algorithm: AuthenticationAlgorithm,
}

impl Default for EspState {
    fn default() -> (r: Self)
        ensures
            r.spi == 0,
            r.enc_algorithm == EncryptionAlgorithm::EspAesCbc,
            r.auth_algorithm == AuthenticationAlgorithm::HmacSha256,
    {
        EspState {
            spi: 0,
            enc_algorithm: EncryptionAlgorithm::EspAesCbc,
            auth_algorithm: AuthenticationAlgorithm::HmacSha256,
        }
    }
}

/// A request a client sends to the tunnel service.
#[derive(Debug)]
pub enum TunnelServiceRequest {
    Connect(TunnelParams),
    ChallengeCode(String, TunnelParams),
    Disconnect,
    GetStatus,
    Rekey,
}

impl TunnelServiceRequest {
    /// Whether the request only asks for the status, as clients do over and over.
    pub fn is_polling(&self) -> (r: bool)
        ensures
            r <==> self is GetStatus,
    {
        match self {
            TunnelServiceRequest::GetStatus => true,
            _ => false,
        }
    }
}

/// A question put to the user: a header shown above it, the prompt, and
/// the entry offered by default.
#[derive(Debug)]
pub struct PromptInfo {
    pub header: String,
    pub prompt: String,
    pub default_entry: Option<String>,
}

/// The text of a prompt ending in a colon: the prompt itself when, trimmed,
/// it already ends with `:`, else the trimmed prompt followed by `: `.
pub open spec fn with_colon(prompt: Seq<char>) -> Seq<char> {
    if has_suffix(trimmed(prompt, TrimSet::Whitespace), seq![':']) {
        prompt
    } else {
        trimmed(prompt, TrimSet::Whitespace) + ": "@
    }
}

impl PromptInfo {
    /// A prompt under `header`, with no default entry.
    pub fn new(header: &str, prompt: &str) -> (r: Self)
        ensures
            r.header@ == header@,
            r.prompt@ == prompt@,
            r.default_entry is None,
    {
        PromptInfo { header: owned(header), prompt: owned(prompt), default_entry: None }
    }

    /// The prompt as shown before the user's input, ending in a colon.
    pub fn prompt_with_colon(&self) -> (r: String)
        ensures
            r@ == with_colon(self.prompt@),
    {
        let cs = chars_of(self.prompt.as_str());
        let t = trim_chars(cs.as_slice(), TrimSet::Whitespace);
        let colon = vec![':'];
        assert(colon@ =~= seq![':']);
        if ends_with(t.as_slice(), colon.as_slice()) {
            owned(self.prompt.as_str())
        } else {
            let ts = string_from_chars(t.as_slice());
            concat_str(ts.as_str(), ": ")
        }
    }
}

/// Giving a prompt its colon twice changes nothing more than giving it once,
/// and the result, trimmed, always ends with `:`.
pub proof fn law_prompt_with_colon_idempotent(prompt: Seq<char>)
    ensures
        with_colon(with_colon(prompt)) == with_colon(prompt),
        has_suffix(trimmed(with_colon(prompt), TrimSet::Whitespace), seq![':']),
{
    let t = trimmed(prompt, TrimSet::Whitespace);
    if !has_suffix(t, seq![':']) {
        let q = t + ": "@;
        lemma_trimmed_starts_kept(prompt, TrimSet::Whitespace);
        assert(": "@ =~= seq![':', ' ']) by {
            reveal_strlit(": ");
        }
        let n = q.len() as int;
        assert(q[n - 1] == ' ' && q[n - 2] == ':');
        assert(is_ws(' '));
        assert(!is_ws(':'));
        assert(!is_ws(q[0])) by {
            if t.len() > 0 {
                assert(q[0] == t[0]);
            } else {
                assert(q[0] == ':');
            }
        }
        assert(first_kept(q, TrimSet::Whitespace, 0) == 0);
        assert(last_kept(q, TrimSet::Whitespace, n - 1) == n - 1);
        assert(last_kept(q, TrimSet::Whitespace, n) == n - 1);
        let tq = trimmed(q, TrimSet::Whitespace);
        assert(tq =~= t + seq![':']);
        assert(tq.skip(tq.len() - 1) =~= seq![':']);
    }
}

/// The established IPsec session: the IKE association, the ESP
/// associations (by SPI and algorithms) and the office-mode address.
/// Durations are nanoseconds; the IKE timestamp is nanoseconds since the
/// Unix epoch.
#[derive(Debug)]
pub struct IPsecSession {
    pub initiator_spi: u64,
    pub responder_spi: u64,
    pub lifetime: u64,
    /// The office-mode address (big-endian).
    pub address: u32,
    /// Its netmask (big-endian).
    pub netmask: u32,
    pub dns: Vec<u32>,
    pub domains: Vec<String>,
    pub esp_in: EspState,
    pub esp_out: EspState,
    pub transport_type: TransportType,
    pub address_lifetime: u64,
    pub ike_lifetime: u64,
    pub ike_timestamp: u64,
}

/// Whether `mask` is a run of ones followed by zeros, and the number of ones.
pub open spec fn mask_prefix(mask: u32) -> Option<u32> {
    if exists|p: u32| p <= 32 && mask == prefix_mask(p) {
        Some(choose|p: u32| p <= 32 && mask == prefix_mask(p))
    } else {
        None
    }
}

/// The netmask with `p` leading ones.
pub open spec fn prefix_mask(p: u32) -> u32 {
    if p == 0 {
        0
    } else {
        (0xffff_ffffu32 << ((32 - p) as u32)) as u32
    }
}

/// The address with the prefix length of the netmask, or a single-host
/// prefix when the netmask is not contiguous (`Ipv4Net::with_netmask`,
/// falling back to `Ipv4Net::from`).
pub open spec fn spec_ipv4net(address: u32, netmask: u32) -> (u32, u32) {
    match mask_prefix(netmask) {
        Some(p) => (address, p),
        None => (address, 32),
    }
}

proof fn lemma_prefix_mask_injective(p: u32, q: u32)
    requires
        p <= 32,
        q <= 32,
        prefix_mask(p) == prefix_mask(q),
    ensures
        p == q,
{
    if p != 0 && q != 0 {
        let a = (32 - p) as u32;
        let b = (32 - q) as u32;
        assert(a < 32 && b < 32 && (0xffff_ffffu32 << a) == (0xffff_ffffu32 << b) ==> a == b) by (bit_vector);
    } else if p == 0 && q != 0 {
        let b = (32 - q) as u32;
        assert(b < 32 ==> (0xffff_ffffu32 << b) != 0) by (bit_vector);
    } else if p != 0 && q == 0 {
        let a = (32 - p) as u32;
        assert(a < 32 ==> (0xffff_ffffu32 << a) != 0) by (bit_vector);
    }
}

fn netmask_prefix(mask: u32) -> (r: Option<u32>)
    ensures
        r == mask_prefix(mask),
{
    let mut p: u32 = 0;
    while p <= 32
        invariant
            p <= 33,
            forall|q: u32| q < p ==> mask != prefix_mask(q),
        decreases 33 - p,
    {
        let m: u32 = if p == 0 {
            0
        } else {
            0xffff_ffffu32 << (32 - p)
        };
        assert(m == prefix_mask(p));
        if m == mask {
            proof {
                assert forall|q: u32| q <= 32 && mask == prefix_mask(q) implies q == p by {
                    lemma_prefix_mask_injective(p, q);
                }
                let c = choose|q: u32| q <= 32 && mask == prefix_mask(q);
                assert(c == p);
            }
            return Some(p);
        }
        p = p + 1;
    }
    None
}

impl IPsecSession {
    /// The office-mode address with the prefix length of its netmask; a
    /// single-host prefix when the netmask is not contiguous.
    pub fn ipv4net_address(&self) -> (r: (u32, u32))
        ensures
            r == spec_ipv4net(self.address, self.netmask),
    {
        match netmask_prefix(self.netmask) {
            Some(p) => (self.address, p),
            None => (self.address, 32),
        }
    }
}

/// How far a session got.
#[derive(Debug)]
pub enum SessionState {
    NoState,
    Authenticated(AuthenticatedSession),
    PendingChallenge(MfaChallenge),
}

/// What an authenticated session holds: the key of an SSL tunnel, or the
/// associations of an IPsec tunnel.
#[derive(Debug)]
pub enum AuthenticatedSession {
    SslSessionKey(String),
    IPsecSession(IPsecSession),
}

/// A session with the gateway.
#[derive(Debug)]
pub struct TunnelSession {
    pub session_id: String,
    pub state: SessionState,
    pub username: Option<String>,
}

impl TunnelSession {
    /// A session not yet started.
    pub fn empty() -> (r: Self)
        ensures
            r.session_id@ == Seq::<char>::empty(),
            r.state is NoState,
            r.username is None,
    {
        TunnelSession { session_id: String::new(), state: SessionState::NoState, username: None }
    }

    /// The key of an authenticated SSL session.
    pub fn ssl_session_key(&self) -> (r: Option<&str>)
        ensures
            match self.state {
                SessionState::Authenticated(AuthenticatedSession::SslSessionKey(k)) => r matches Some(s) && s@ == k@,
                _ => r is None,
            },
    {
        match &self.state {
            SessionState::Authenticated(AuthenticatedSession::SslSessionKey(k)) => Some(k.as_str()),
            _ => None,
        }
    }

    /// The associations of an authenticated IPsec session.
    pub fn ipsec_session(&self) -> (r: Option<&IPsecSession>)
        ensures
            match self.state {
                SessionState::Authenticated(AuthenticatedSession::IPsecSession(s)) => r == Some(&s),
                _ => r is None,
            },
    {
        match &self.state {
            SessionState::Authenticated(AuthenticatedSession::IPsecSession(s)) => Some(s),
            _ => None,
        }
    }

    /// The challenge the session waits on, if any.
    pub fn pending_challenge(&self) -> (r: Option<&MfaChallenge>)
        ensures
            match self.state {
                SessionState::PendingChallenge(c) => r == Some(&c),
                _ => r is None,
            },
    {
        match &self.state {
            SessionState::PendingChallenge(c) => Some(c),
            _ => None,
        }
    }
}

} // verus!
