//! Records of the CCC protocol that the client reads: the gateway's login
//! options, their authentication factors and the labels shown for them.
//! Maps of the protocol are held as pairs in ascending key order.

use vstd::prelude::*;
use crate::model::PromptInfo;
use crate::addr::{dotted, ipv4_text};
use crate::number::{decimal, decimal_chars};
use crate::sexpr::ser::bool_text;
use crate::codec::{from_utf8_lossy, utf8_lossy};
use crate::order::{compare_keys, lemma_lt_irreflexive, lemma_lt_total, lemma_lt_transitive, seq_lt, KeyOrder};
use crate::text::{chars_of, concat3, concat_str, join, join_strings, owned, str_eq, string_from_chars, views};

verus! {

/// The entries of a map with string keys, in ascending key order (see
/// `keys_ascending`).
pub type StringMap<V> = Vec<(String, V)>;

/// Whether the keys of a map held as pairs ascend strictly, as a
/// `BTreeMap` walks them: each key occurs once, in key order.
pub open spec fn keys_ascending<V>(m: Seq<(String, V)>) -> bool {
    forall|i: int, j: int| 0 <= i < j < m.len() ==> seq_lt(#[trigger] m[i].0@, #[trigger] m[j].0@)
}

/// The value stored under `key` in a map held as pairs: the first pair with that key.
pub open spec fn map_get<V>(m: Seq<(String, V)>, key: Seq<char>) -> Option<V>
    decreases m.len(),
{
    if m.len() == 0 {
        None
    } else if m[0].0@ == key {
        Some(m[0].1)
    } else {
        map_get(m.drop_first(), key)
    }
}

proof fn lemma_get_at<V>(m: Seq<(String, V)>, i: int)
    requires
        keys_ascending(m),
        0 <= i < m.len(),
    ensures
        map_get(m, m[i].0@) == Some(m[i].1),
    decreases i,
{
    if i > 0 {
        assert(seq_lt(m[0].0@, m[i].0@));
        lemma_lt_irreflexive(m[i].0@);
        let d = m.drop_first();
        assert forall|a: int, b: int| 0 <= a < b < d.len() implies seq_lt(#[trigger] d[a].0@, #[trigger] d[b].0@) by {
            assert(d[a] == m[a + 1] && d[b] == m[b + 1]);
        }
        assert(d[i - 1] == m[i]);
        lemma_get_at(d, i - 1);
    }
}

proof fn lemma_get_absent<V>(m: Seq<(String, V)>, k: Seq<char>)
    requires
        forall|i: int| 0 <= i < m.len() ==> (#[trigger] m[i]).0@ != k,
    ensures
        map_get(m, k) is None,
    decreases m.len(),
{
    if m.len() > 0 {
        let d = m.drop_first();
        assert forall|i: int| 0 <= i < d.len() implies (#[trigger] d[i]).0@ != k by {
            assert(d[i] == m[i + 1]);
        }
        assert(m[0].0@ != k);
        lemma_get_absent(d, k);
    }
}

/// In a map whose keys ascend, looking a key up finds the one entry with
/// that key, and nothing when no entry has it.
pub proof fn law_ascending_map_get<V>(m: Seq<(String, V)>, k: Seq<char>)
    requires
        keys_ascending(m),
    ensures
        forall|i: int| 0 <= i < m.len() && (#[trigger] m[i]).0@ == k ==> map_get(m, k) == Some(m[i].1),
        (forall|i: int| 0 <= i < m.len() ==> (#[trigger] m[i]).0@ != k) ==> map_get(m, k) is None,
{
    assert forall|i: int| 0 <= i < m.len() && (#[trigger] m[i]).0@ == k implies map_get(m, k) == Some(m[i].1) by {
        lemma_get_at(m, i);
    }
    if forall|i: int| 0 <= i < m.len() ==> (#[trigger] m[i]).0@ != k {
        lemma_get_absent(m, k);
    }
}

fn key_before(a: &String, key: &Vec<char>) -> (r: bool)
    ensures
        r == seq_lt(a@, key@),
{
    let c = chars_of(a.as_str());
    match compare_keys(c.as_slice(), key.as_slice()) {
        KeyOrder::Before => true,
        _ => false,
    }
}

/// Puts `value` under `key` in a map whose keys ascend, as
/// `BTreeMap::insert` does: the entry of an existing key is replaced, a new
/// key is placed in key order, and the keys still ascend.
pub fn string_map_insert<V>(m: &mut StringMap<V>, key: String, value: V)
    requires
        keys_ascending(old(m)@),
    ensures
        keys_ascending(final(m)@),
        map_get(final(m)@, key@) == Some(value),
        forall|k: Seq<char>| k != key@ ==> map_get(final(m)@, k) == map_get(old(m)@, k),
{
    let ghost o = m@;
    let ghost kv = key@;
    let kc = chars_of(key.as_str());
    let mut i: usize = 0;
    while i < m.len() && key_before(&m[i].0, &kc)
        invariant
            i <= m@.len(),
            m@ == o,
            kc@ == kv,
            forall|j: int| 0 <= j < i ==> seq_lt(#[trigger] o[j].0@, kv),
        decreases m@.len() - i,
    {
        i = i + 1;
    }
    let same = if i < m.len() {
        let c = chars_of(m[i].0.as_str());
        match compare_keys(c.as_slice(), kc.as_slice()) {
            KeyOrder::Same => true,
            _ => false,
        }
    } else {
        false
    };
    let ghost entry = (key, value);
    if same {
        let _ = m.remove(i);
        m.insert(i, (key, value));
        proof {
            let f = m@;
            assert(f =~= o.update(i as int, entry));
            assert forall|a: int, b: int| 0 <= a < b < f.len() implies seq_lt(#[trigger] f[a].0@, #[trigger] f[b].0@) by {
                if a == i {
                    assert(o[a].0@ == kv);
                } else if b == i {
                    assert(o[b].0@ == kv);
                }
            }
            lemma_get_at(f, i as int);
            assert forall|k: Seq<char>| k != kv implies map_get(f, k) == map_get(o, k) by {
                law_ascending_map_get(o, k);
                law_ascending_map_get(f, k);
                if exists|j: int| 0 <= j < o.len() && (#[trigger] o[j]).0@ == k {
                    let j = choose|j: int| 0 <= j < o.len() && (#[trigger] o[j]).0@ == k;
                    assert(f[j] == o[j]);
                } else {
                    assert forall|j: int| 0 <= j < f.len() implies (#[trigger] f[j]).0@ != k by {
                        if j != i {
                            assert(f[j] == o[j]);
                        }
                    }
                }
            }
        }
    } else {
        m.insert(i, (key, value));
        proof {
            let f = m@;
            assert(f =~= o.insert(i as int, entry));
            assert forall|j: int| i <= j < o.len() implies seq_lt(kv, #[trigger] o[j].0@) by {
                lemma_lt_total(o[i as int].0@, kv);
                if j > i {
                    lemma_lt_transitive(kv, o[i as int].0@, o[j].0@);
                }
            }
            assert forall|a: int, b: int| 0 <= a < b < f.len() implies seq_lt(#[trigger] f[a].0@, #[trigger] f[b].0@) by {
                if a < i && b < i {
                    assert(f[a] == o[a] && f[b] == o[b]);
                } else if a < i && b == i {
                    assert(f[a] == o[a]);
                } else if a < i {
                    assert(f[a] == o[a] && f[b] == o[b - 1]);
                    lemma_lt_transitive(o[a].0@, kv, o[b - 1].0@);
                } else if a == i {
                    assert(f[b] == o[b - 1]);
                } else {
                    assert(f[a] == o[a - 1] && f[b] == o[b - 1]);
                }
            }
            lemma_get_at(f, i as int);
            assert forall|k: Seq<char>| k != kv implies map_get(f, k) == map_get(o, k) by {
                law_ascending_map_get(o, k);
                law_ascending_map_get(f, k);
                if exists|j: int| 0 <= j < o.len() && (#[trigger] o[j]).0@ == k {
                    let j = choose|j: int| 0 <= j < o.len() && (#[trigger] o[j]).0@ == k;
                    if j < i {
                        assert(f[j] == o[j]);
                    } else {
                        assert(f[j + 1] == o[j]);
                    }
                } else {
                    assert forall|j: int| 0 <= j < f.len() implies (#[trigger] f[j]).0@ != k by {
                        if j < i {
                            assert(f[j] == o[j]);
                        } else if j > i {
                            assert(f[j] == o[j - 1]);
                        }
                    }
                }
            }
        }
    }
}

fn label_get<'a>(m: &'a [(String, String)], key: &str) -> (r: Option<&'a String>)
    ensures
        match r {
            Some(v) => map_get(m@, key@) == Some(*v),
            None => map_get(m@, key@) is None,
        },
{
    let mut i: usize = 0;
    assert(m@.skip(0) == m@);
    while i < m.len()
        invariant
            i <= m@.len(),
            map_get(m@, key@) == map_get(m@.skip(i as int), key@),
        decreases m@.len() - i,
    {
        assert(m@.skip(i as int)[0] == m@[i as int]);
        if str_eq(m[i].0.as_str(), key) {
            return Some(&m[i].1);
        }
        assert(m@.skip(i as int).drop_first() == m@.skip(i + 1));
        i = i + 1;
    }
    None
}

/// The labels a gateway shows for a factor: a map of label names to texts,
/// or nothing.
#[derive(Debug)]
pub enum LoginDisplayLabelSelect {
    LoginDisplayLabel(StringMap<String>),
    Empty(String),
}

/// One authentication factor of a login option.
#[derive(Debug)]
pub struct LoginFactor {
    pub factor_type: String,
    pub custom_display_labels: LoginDisplayLabelSelect,
}

/// A way of logging in that a gateway offers.
#[derive(Debug)]
pub struct LoginOption {
    pub id: String,
    pub secondary_realm_hash: String,
    pub display_name: String,
    pub show_realm: u32,
    pub factors: StringMap<LoginFactor>,
}

/// The login options a gateway offers.
#[derive(Debug)]
pub struct LoginOptionsData {
    pub login_options_list: StringMap<LoginOption>,
    pub login_options_md5: String,
}

/// Whether some factor is of type `t`.
pub open spec fn has_factor_type(factors: Seq<(String, LoginFactor)>, t: Seq<char>) -> bool {
    exists|i: int| 0 <= i < factors.len() && (#[trigger] factors[i]).1.factor_type@ == t
}

/// Whether some factor is of another type than `t`.
pub open spec fn has_factor_other_than(factors: Seq<(String, LoginFactor)>, t: Seq<char>) -> bool {
    exists|i: int| 0 <= i < factors.len() && (#[trigger] factors[i]).1.factor_type@ != t
}

/// A login option is multi-factor exactly when one of its factors, any of
/// them, is of a type other than `certificate`; an option whose factors are
/// all certificates is not.
pub proof fn law_multi_factor_iff_non_certificate(factors: Seq<(String, LoginFactor)>)
    ensures
        forall|i: int|
            0 <= i < factors.len() && (#[trigger] factors[i]).1.factor_type@ != "certificate"@ ==> has_factor_other_than(
                factors,
                certificate_type(),
            ),
        (forall|i: int| 0 <= i < factors.len() ==> (#[trigger] factors[i]).1.factor_type@ == "certificate"@)
            ==> !has_factor_other_than(factors, certificate_type()),
{
}

/// The prompt a factor asks for, as (header, prompt): a factor whose labels
/// include `password` asks for that label followed by `: `, under the label
/// `header` or an empty header.
pub open spec fn factor_prompt(f: LoginFactor) -> Option<(Seq<char>, Seq<char>)> {
    match f.custom_display_labels {
        LoginDisplayLabelSelect::LoginDisplayLabel(m) => match map_get(m@, "password"@) {
            Some(label) => Some(
                (
                    match map_get(m@, "header"@) {
                        Some(h) => h@,
                        None => Seq::empty(),
                    },
                    label@ + ": "@,
                ),
            ),
            None => None,
        },
        LoginDisplayLabelSelect::Empty(_) => None,
    }
}

/// The prompts of the factors, in order, for the factors that have one.
pub open spec fn factor_prompts(factors: Seq<(String, LoginFactor)>) -> Seq<(Seq<char>, Seq<char>)>
    decreases factors.len(),
{
    if factors.len() == 0 {
        Seq::empty()
    } else {
        let rest = factor_prompts(factors.drop_last());
        match factor_prompt(factors.last().1) {
            Some(p) => rest.push(p),
            None => rest,
        }
    }
}

/// The (header, prompt, default entry) of a prompt.
pub open spec fn prompt_parts(p: PromptInfo) -> (Seq<char>, Seq<char>, Option<Seq<char>>) {
    (
        p.header@,
        p.prompt@,
        match p.default_entry {
            Some(d) => Some(d@),
            None => None,
        },
    )
}

/// The prompts `r` are exactly the (header, prompt) pairs `s`, without default entries.
pub open spec fn prompts_are(r: Seq<PromptInfo>, s: Seq<(Seq<char>, Seq<char>)>) -> bool {
    &&& r.len() == s.len()
    &&& forall|i: int| 0 <= i < r.len() ==> #[trigger] prompt_parts(r[i]) == (s[i].0, s[i].1, None::<Seq<char>>)
}

/// The prompts the factors of a login option ask for, in factor order.
pub fn factor_prompt_list(factors: &[(String, LoginFactor)]) -> (r: Vec<PromptInfo>)
    ensures
        prompts_are(r@, factor_prompts(factors@)),
{
    let mut r: Vec<PromptInfo> = Vec::new();
    let mut i: usize = 0;
    while i < factors.len()
        invariant
            i <= factors@.len(),
            prompts_are(r@, factor_prompts(factors@.take(i as int))),
        decreases factors@.len() - i,
    {
        assert(factors@.take(i + 1).drop_last() == factors@.take(i as int));
        assert(factors@.take(i + 1).last() == factors@[i as int]);
        match &factors[i].1.custom_display_labels {
            LoginDisplayLabelSelect::LoginDisplayLabel(m) => {
                match label_get(m.as_slice(), "password") {
                    Some(label) => {
                        let header = match label_get(m.as_slice(), "header") {
                            Some(h) => owned(h.as_str()),
                            None => String::new(),
                        };
                        let prompt = concat_str(label.as_str(), ": ");
                        let p = PromptInfo::new(header.as_str(), prompt.as_str());
                        let ghost before = r@;
                        r.push(p);
                        proof {
                            let s = factor_prompts(factors@.take(i + 1));
                            assert forall|k: int| 0 <= k < r@.len() implies #[trigger] prompt_parts(r@[k]) == (
                                s[k].0,
                                s[k].1,
                                None::<Seq<char>>,
                            ) by {
                                if k < before.len() {
                                    assert(r@[k] == before[k]);
                                }
                            }
                        }
                    },
                    None => {},
                }
            },
            LoginDisplayLabelSelect::Empty(_) => {},
        }
        i = i + 1;
    }
    assert(factors@.take(factors@.len() as int) == factors@);
    r
}

/// The text `certificate`, the type of a certificate factor.
pub open spec fn certificate_type() -> Seq<char> {
    "certificate"@
}

impl LoginOption {
    /// The id of the mobile access login option.
    pub const MOBILE_ACCESS_ID: &'static str = "ma";

    /// Whether this option asks for some factor other than a certificate.
    pub fn is_multi_factor(&self) -> (r: bool)
        ensures
            r == has_factor_other_than(self.factors@, certificate_type()),
    {
        let mut i: usize = 0;
        while i < self.factors.len()
            invariant
                i <= self.factors@.len(),
                forall|k: int| 0 <= k < i ==> (#[trigger] self.factors@[k]).1.factor_type@ == certificate_type(),
            decreases self.factors@.len() - i,
        {
            if !str_eq(self.factors[i].1.factor_type.as_str(), "certificate") {
                return true;
            }
            i = i + 1;
        }
        false
    }

    /// Whether this option has a certificate factor.
    pub fn is_certificate(&self) -> (r: bool)
        ensures
            r == has_factor_type(self.factors@, certificate_type()),
    {
        let mut i: usize = 0;
        while i < self.factors.len()
            invariant
                i <= self.factors@.len(),
                forall|k: int| 0 <= k < i ==> (#[trigger] self.factors@[k]).1.factor_type@ != certificate_type(),
            decreases self.factors@.len() - i,
        {
            if str_eq(self.factors[i].1.factor_type.as_str(), "certificate") {
                return true;
            }
            i = i + 1;
        }
        false
    }

    /// Whether this is the mobile access option, whose id is `ma`.
    pub fn is_mobile_access(&self) -> (r: bool)
        ensures
            r == (self.id@ == "ma"@),
    {
        str_eq(self.id.as_str(), "ma")
    }
}

/// The id of the option used when a gateway lists none.
pub open spec fn unspecified_id() -> Seq<char> {
    "vpn_Username_Password"@
}

impl LoginOption {
    /// The option assumed when a gateway lists none: user name and
    /// password, shown under `display_name`.
    pub fn unspecified(display_name: &str) -> (r: Self)
        ensures
            r.id@ == unspecified_id(),
            r.secondary_realm_hash@ == Seq::<char>::empty(),
            r.display_name@ == display_name@,
            r.show_realm == 1,
            r.factors@.len() == 1,
            r.factors@[0].0@ == "1"@,
            r.factors@[0].1.factor_type@ == "password"@,
            r.factors@[0].1.custom_display_labels matches LoginDisplayLabelSelect::Empty(e) && e@ == Seq::<char>::empty(),
    {
        let factor = LoginFactor {
            factor_type: owned("password"),
            custom_display_labels: LoginDisplayLabelSelect::Empty(String::new()),
        };
        let mut factors: Vec<(String, LoginFactor)> = Vec::new();
        factors.push((owned("1"), factor));
        LoginOption {
            id: owned("vpn_Username_Password"),
            secondary_realm_hash: String::new(),
            display_name: owned(display_name),
            show_realm: 1,
            factors,
        }
    }

    /// The mobile access option, shown under `display_name`.
    pub fn mobile_access(display_name: &str) -> (r: Self)
        ensures
            r.id@ == "ma"@,
            r.secondary_realm_hash@ == Seq::<char>::empty(),
            r.display_name@ == display_name@,
            r.show_realm == 1,
            r.factors@.len() == 1,
            r.factors@[0].0@ == "1"@,
            r.factors@[0].1.factor_type@ == "mobile_access"@,
            r.factors@[0].1.custom_display_labels matches LoginDisplayLabelSelect::Empty(e) && e@ == Seq::<char>::empty(),
    {
        let factor = LoginFactor {
            factor_type: owned("mobile_access"),
            custom_display_labels: LoginDisplayLabelSelect::Empty(String::new()),
        };
        let mut factors: Vec<(String, LoginFactor)> = Vec::new();
        factors.push((owned("1"), factor));
        LoginOption {
            id: owned(LoginOption::MOBILE_ACCESS_ID),
            secondary_realm_hash: String::new(),
            display_name: owned(display_name),
            show_realm: 1,
            factors,
        }
    }
}

/// The protocol version a gateway speaks.
#[derive(Debug)]
pub struct ProtocolVersion {
    pub protocol_version: u32,
}

/// How a gateway can be reached.
#[derive(Debug)]
pub struct ConnectivityInfo {
    pub default_authentication_method: Option<String>,
    pub client_enabled: bool,
    pub supported_data_tunnel_protocols: Vec<String>,
    pub connectivity_type: String,
    /// The gateway's address, as octets.
    pub server_ip: [u8; 4],
    pub ipsec_transport: String,
    pub tcpt_port: u16,
    pub natt_port: u16,
    pub connect_with_certificate_url: String,
    /// Fingerprints of the gateway's internal CA, obfuscated as the gateway sends them.
    pub internal_ca_fingerprint: StringMap<String>,
}

/// What a gateway says about itself.
#[derive(Debug)]
pub struct GatewayInformation {
    pub protocol_version: ProtocolVersion,
    pub connectivity_info: ConnectivityInfo,
    pub login_options_data: Option<LoginOptionsData>,
}

impl GatewayInformation {
    /// Whether every map of the gateway's record holds its keys in strictly
    /// ascending order, as the `BTreeMap`s the record is read into do; the
    /// report rows and factor lists then come in key order.
    pub open spec fn maps_ordered(&self) -> bool {
        &&& keys_ascending(self.connectivity_info.internal_ca_fingerprint@)
        &&& match self.login_options_data {
            Some(d) => {
                &&& keys_ascending(d.login_options_list@)
                &&& forall|i: int|
                    0 <= i < d.login_options_list@.len() ==> keys_ascending(
                        (#[trigger] d.login_options_list@[i]).1.factors@,
                    )
            },
            None => true,
        }
    }
}

/// The index of the first option with id `id`.
pub open spec fn option_index(list: Seq<(String, LoginOption)>, id: Seq<char>) -> Option<int>
    decreases list.len(),
{
    if list.len() == 0 {
        None
    } else if list[0].1.id@ == id {
        Some(0)
    } else {
        match option_index(list.drop_first(), id) {
            Some(i) => Some(i + 1),
            None => None,
        }
    }
}

/// The login option of a gateway with id `login_type`: the first listed with it.
pub open spec fn login_option_of(info: GatewayInformation, login_type: Seq<char>) -> Option<LoginOption> {
    match info.login_options_data {
        Some(d) => match option_index(d.login_options_list@, login_type) {
            Some(i) => Some(d.login_options_list@[i].1),
            None => None,
        },
        None => None,
    }
}

/// The types of the factors, in order.
pub open spec fn factor_types(factors: Seq<(String, LoginFactor)>) -> Seq<Seq<char>> {
    Seq::new(factors.len(), |i: int| factors[i].1.factor_type@)
}

/// The row describing a login option: its display name in brackets, then
/// its id and factor types.
pub open spec fn option_row(o: LoginOption) -> (Seq<char>, Seq<char>) {
    ("["@ + o.display_name@ + "]"@, o.id@ + " ("@ + join(factor_types(o.factors@), ", "@) + ")"@)
}

/// The rows of the options that are shown (`show_realm` not zero), in order.
pub open spec fn option_rows(list: Seq<(String, LoginOption)>) -> Seq<(Seq<char>, Seq<char>)>
    decreases list.len(),
{
    if list.len() == 0 {
        Seq::empty()
    } else {
        let rest = option_rows(list.drop_last());
        if list.last().1.show_realm != 0 {
            rest.push(option_row(list.last().1))
        } else {
            rest
        }
    }
}

/// The rows describing a gateway's reachability, for `server_address`.
pub open spec fn connectivity_rows(c: ConnectivityInfo, server_address: Seq<char>) -> Seq<(Seq<char>, Seq<char>)> {
    seq![
        ("login-options-server-address"@, server_address),
        ("login-options-server-ip"@, dotted(c.server_ip)),
        ("login-options-client-enabled"@, bool_text(c.client_enabled)),
        ("login-options-supported-protocols"@, join(views(c.supported_data_tunnel_protocols@), ", "@)),
        ("login-options-preferred-protocol"@, c.connectivity_type@),
        ("login-options-tcpt-port"@, decimal(c.tcpt_port as nat)),
        ("login-options-natt-port"@, decimal(c.natt_port as nat)),
    ]
}

/// The bytes a decoding gave, or none when it failed.
pub open spec fn bytes_or_empty(b: Option<Vec<u8>>) -> Seq<u8> {
    match b {
        Some(v) => v@,
        None => Seq::empty(),
    }
}

/// Whether `row` is the report row of the obfuscated CA fingerprint `fp`:
/// its text is what `deobfuscate` gives for `fp` (nothing when it fails),
/// read as UTF-8 with invalid sequences replaced.
pub open spec fn fingerprint_row<F: Fn(&String) -> Option<Vec<u8>>>(
    deobfuscate: F,
    fp: String,
    row: (Seq<char>, Seq<char>),
) -> bool {
    &&& row.0 == "login-options-internal-ca-fingerprint"@
    &&& exists|b: Option<Vec<u8>>| call_ensures(deobfuscate, (&fp,), b) && row.1 == utf8_lossy(bytes_or_empty(b))
}

/// The rows of the listed login options; when none is listed, the row of
/// the user name and password option, shown under `unspecified_name`.
pub open spec fn listed_option_rows(info: GatewayInformation, unspecified_name: Seq<char>) -> Seq<(Seq<char>, Seq<char>)> {
    let list = match info.login_options_data {
        Some(d) => d.login_options_list@,
        None => Seq::empty(),
    };
    if list.len() == 0 {
        seq![("["@ + unspecified_name + "]"@, unspecified_id() + " (password)"@)]
    } else {
        option_rows(list)
    }
}

/// The texts of some pairs of strings.
pub open spec fn pair_views(v: Seq<(String, String)>) -> Seq<(Seq<char>, Seq<char>)> {
    v.map_values(|p: (String, String)| (p.0@, p.1@))
}

proof fn lemma_pair_views_push(v: Seq<(String, String)>, x: (String, String))
    ensures
        pair_views(v.push(x)) == pair_views(v).push((x.0@, x.1@)),
{
    assert(pair_views(v.push(x)) =~= pair_views(v).push((x.0@, x.1@)));
}

fn text_pair(a: &str, b: &str) -> (r: (String, String))
    ensures
        r.0@ == a@,
        r.1@ == b@,
{
    (owned(a), owned(b))
}

fn decimal_string(n: u64) -> (r: String)
    ensures
        r@ == decimal(n as nat),
{
    let d = decimal_chars(n);
    string_from_chars(d.as_slice())
}

fn option_row_of(o: &LoginOption) -> (r: (String, String))
    ensures
        (r.0@, r.1@) == option_row(*o),
{
    let label = concat3("[", o.display_name.as_str(), "]");
    let mut types: Vec<String> = Vec::new();
    let mut i: usize = 0;
    while i < o.factors.len()
        invariant
            i <= o.factors@.len(),
            views(types@) == factor_types(o.factors@).take(i as int),
        decreases o.factors@.len() - i,
    {
        let ghost before = types@;
        types.push(owned(o.factors[i].1.factor_type.as_str()));
        proof {
            crate::text::lemma_views_push(before, types@.last());
            assert(types@ == before.push(types@.last()));
            assert(views(types@) =~= factor_types(o.factors@).take(i + 1));
        }
        i = i + 1;
    }
    assert(factor_types(o.factors@).take(o.factors@.len() as int) == factor_types(o.factors@));
    let joined = join_strings(types.as_slice(), ", ");
    let head = concat_str(o.id.as_str(), " (");
    let value = concat3(head.as_str(), joined.as_str(), ")");
    (label, value)
}

impl GatewayInformation {
    /// The login option with id `login_type`, if the gateway lists one.
    pub fn get_login_option(&self, login_type: &str) -> (r: Option<&LoginOption>)
        ensures
            match r {
                Some(o) => login_option_of(*self, login_type@) == Some(*o),
                None => login_option_of(*self, login_type@) is None,
            },
    {
        match &self.login_options_data {
            None => None,
            Some(data) => {
                let list = &data.login_options_list;
                let ghost l = list@;
                let mut i: usize = 0;
                assert(l.skip(0) == l);
                while i < list.len()
                    invariant
                        l == list@,
                        self.login_options_data matches Some(d) && d.login_options_list@ == l,
                        i <= l.len(),
                        option_index(l, login_type@) == match option_index(l.skip(i as int), login_type@) {
                            Some(j) => Some(j + i),
                            None => None::<int>,
                        },
                    decreases l.len() - i,
                {
                    assert(l.skip(i as int)[0] == l[i as int]);
                    if str_eq(list[i].1.id.as_str(), login_type) {
                        assert(option_index(l.skip(i as int), login_type@) == Some(0int));
                        assert(option_index(l, login_type@) == Some(i as int));
                        assert(login_option_of(*self, login_type@) == Some(l[i as int].1));
                        return Some(&list[i].1);
                    }
                    assert(l.skip(i as int).drop_first() == l.skip(i + 1));
                    i = i + 1;
                }
                None
            },
        }
    }

    /// Whether logging in with `login_type` takes more than a certificate;
    /// an option the gateway does not list counts as multi-factor.
    pub fn is_multi_factor_login_type(&self, login_type: &str) -> (r: bool)
        ensures
            r == match login_option_of(*self, login_type@) {
                Some(o) => has_factor_other_than(o.factors@, certificate_type()),
                None => true,
            },
    {
        match self.get_login_option(login_type) {
            Some(o) => o.is_multi_factor(),
            None => true,
        }
    }

    /// Whether logging in with `login_type` uses a certificate; an option
    /// the gateway does not list counts as using one.
    pub fn is_certificate_login_type(&self, login_type: &str) -> (r: bool)
        ensures
            r == match login_option_of(*self, login_type@) {
                Some(o) => has_factor_type(o.factors@, certificate_type()),
                None => true,
            },
    {
        match self.get_login_option(login_type) {
            Some(o) => o.is_certificate(),
            None => true,
        }
    }

    /// The prompts that logging in with `login_type` asks for, in factor
    /// order; none when the gateway does not list the option.
    pub fn get_login_prompts(&self, login_type: &str) -> (r: Vec<PromptInfo>)
        ensures
            match login_option_of(*self, login_type@) {
                Some(o) => prompts_are(r@, factor_prompts(o.factors@)),
                None => r@.len() == 0,
            },
    {
        match self.get_login_option(login_type) {
            Some(o) => factor_prompt_list(o.factors.as_slice()),
            None => Vec::new(),
        }
    }

    /// The rows of the login options report for `server_address`, with the
    /// label of each row as a message id, before localization: the gateway's
    /// reachability, one row per CA fingerprint of the gateway (in key
    /// order, decoded with `deobfuscate`, the gateway's fingerprint
    /// obfuscation), then one row per shown login option, labelled by its
    /// display name in brackets.
    pub fn login_option_rows<F: Fn(&String) -> Option<Vec<u8>>>(
        &self,
        server_address: &str,
        deobfuscate: F,
        unspecified_name: &str,
    ) -> (r: Vec<(String, String)>)
        requires
            forall|fp: &String| call_requires(deobfuscate, (fp,)),
        ensures
            ({
                let fps = self.connectivity_info.internal_ca_fingerprint@;
                let rows = pair_views(r@);
                let n = fps.len() as int;
                &&& rows.len() == 7 + n + listed_option_rows(*self, unspecified_name@).len()
                &&& rows.subrange(0, 7) == connectivity_rows(self.connectivity_info, server_address@)
                &&& forall|i: int| 0 <= i < n ==> fingerprint_row(deobfuscate, #[trigger] fps[i].1, rows[7 + i])
                &&& rows.subrange(7 + n, rows.len() as int) == listed_option_rows(*self, unspecified_name@)
            }),
    {
        let c = &self.connectivity_info;
        let mut r: Vec<(String, String)> = Vec::new();
        r.push(text_pair("login-options-server-address", server_address));
        r.push((owned("login-options-server-ip"), ipv4_text(c.server_ip)));
        r.push(text_pair("login-options-client-enabled", if c.client_enabled { "true" } else { "false" }));
        r.push((owned("login-options-supported-protocols"), join_strings(c.supported_data_tunnel_protocols.as_slice(), ", ")));
        r.push(text_pair("login-options-preferred-protocol", c.connectivity_type.as_str()));
        r.push((owned("login-options-tcpt-port"), decimal_string(c.tcpt_port as u64)));
        r.push((owned("login-options-natt-port"), decimal_string(c.natt_port as u64)));
        let ghost head = connectivity_rows(self.connectivity_info, server_address@);
        assert(pair_views(r@) =~= head);
        let fps = &c.internal_ca_fingerprint;
        let mut i: usize = 0;
        while i < fps.len()
            invariant
                i <= fps@.len(),
                forall|fp: &String| call_requires(deobfuscate, (fp,)),
                r@.len() == 7 + i,
                pair_views(r@).subrange(0, 7) == head,
                forall|j: int| 0 <= j < i ==> fingerprint_row(deobfuscate, #[trigger] fps@[j].1, pair_views(r@)[7 + j]),
            decreases fps@.len() - i,
        {
            let ghost before = r@;
            let decoded = deobfuscate(&fps[i].1);
            let bytes: Vec<u8> = match decoded {
                Some(v) => v,
                None => Vec::new(),
            };
            let row = (owned("login-options-internal-ca-fingerprint"), from_utf8_lossy(bytes.as_slice()));
            r.push(row);
            proof {
                lemma_pair_views_push(before, row);
                assert(pair_views(r@).subrange(0, 7) =~= pair_views(before).subrange(0, 7));
                assert(bytes@ == bytes_or_empty(decoded));
                assert(fingerprint_row(deobfuscate, fps@[i as int].1, pair_views(r@)[7 + i]));
                assert forall|j: int| 0 <= j < i + 1 implies fingerprint_row(
                    deobfuscate,
                    #[trigger] fps@[j].1,
                    pair_views(r@)[7 + j],
                ) by {
                    if j < i {
                        assert(pair_views(r@)[7 + j] == pair_views(before)[7 + j]);
                    }
                }
            }
            i = i + 1;
        }
        let ghost mid = pair_views(r@);
        let empty = match &self.login_options_data {
            Some(d) => d.login_options_list.len() == 0,
            None => true,
        };
        if empty {
            let label = concat3("[", unspecified_name, "]");
            let ghost before = r@;
            let row = (label, owned("vpn_Username_Password (password)"));
            r.push(row);
            proof {
                lemma_pair_views_push(before, row);
                reveal_strlit("vpn_Username_Password (password)");
                reveal_strlit("vpn_Username_Password");
                reveal_strlit(" (password)");
                assert(unspecified_id() + " (password)"@ =~= "vpn_Username_Password (password)"@);
                assert(listed_option_rows(*self, unspecified_name@) == seq![("["@ + unspecified_name@ + "]"@, "vpn_Username_Password (password)"@)]);
                assert(pair_views(r@) =~= mid + listed_option_rows(*self, unspecified_name@));
            }
        } else {
            match &self.login_options_data {
                Some(d) => {
                    let list = &d.login_options_list;
                    let mut k: usize = 0;
                    while k < list.len()
                        invariant
                            k <= list@.len(),
                            pair_views(r@) == mid + option_rows(list@.take(k as int)),
                        decreases list@.len() - k,
                    {
                        assert(list@.take(k + 1).drop_last() == list@.take(k as int));
                        assert(list@.take(k + 1).last() == list@[k as int]);
                        if list[k].1.show_realm != 0 {
                            let ghost before = r@;
                            let row = option_row_of(&list[k].1);
                            r.push(row);
                            proof {
                                lemma_pair_views_push(before, row);
                            }
                            assert(pair_views(r@) =~= mid + option_rows(list@.take(k + 1)));
                        }
                        k = k + 1;
                    }
                    assert(list@.take(list@.len() as int) == list@);
                },
                None => {},
            }
        }
        proof {
            let rows = pair_views(r@);
            let n = fps@.len() as int;
            assert(rows.subrange(0, 7) =~= mid.subrange(0, 7));
            assert forall|j: int| 0 <= j < n implies fingerprint_row(deobfuscate, #[trigger] fps@[j].1, rows[7 + j]) by {
                assert(rows[7 + j] == mid[7 + j]);
            }
            assert(rows.subrange(7 + n, rows.len() as int) =~= listed_option_rows(*self, unspecified_name@));
        }
        r
    }
}

/// Whether a report label is shown as it is rather than localized: labels
/// of login options start with `[`.
pub fn is_literal_label(label: &str) -> (r: bool)
    ensures
        r == (label@.len() > 0 && label@[0] == '['),
{
    let cs = crate::text::chars_of(label);
    cs.len() > 0 && cs[0] == '['
}

/// Optional fields of a client hello.
#[derive(Debug)]
pub struct OptionalRequest {
    pub client_type: String,
}

/// The gateway's timeouts, in seconds.
#[derive(Debug, Clone, Copy, PartialEq, Eq, Structural)]
pub struct Timeouts {
    pub authentication: u64,
    pub keepalive: u64,
}

/// Optional fields of a hello reply.
#[derive(Debug)]
pub struct OptionalResponse {
    pub subnet: String,
}

/// The header of a client request.
#[derive(Debug)]
pub struct RequestHeader {
    pub id: u32,
    /// The request type, written under the name `type`.
    pub request_type: String,
    pub session_id: Option<String>,
    pub protocol_version: Option<u32>,
}

/// The answer to a multi-factor challenge.
#[derive(Debug)]
pub struct MultiChallengeRequest {
    pub client_type: String,
    pub auth_session_id: String,
    /// The user's answer, obfuscated on the wire.
    pub user_input: String,
}

/// A request to enroll a client certificate.
#[derive(Debug)]
pub struct CertEnrollmentRequest {
    pub regkey: String,
    pub password: String,
    pub device_type: String,
    pub device_id: String,
    pub device_name: String,
}

/// A request to renew a client certificate.
#[derive(Debug)]
pub struct CertRenewalRequest {
    pub binary: String,
    pub password: String,
}

/// A request to sign out; it has no fields.
#[derive(Debug)]
pub struct SignOutRequest {}

/// The header of a gateway response.
#[derive(Debug)]
pub struct ResponseHeader {
    /// The id of the request answered, when the gateway sends one.
    pub id: Option<u32>,
    /// The response type, written under the name `type`.
    pub response_type: String,
    pub session_id: String,
    pub return_code: u32,
}

/// The gateway's answer to an authentication step.
#[derive(Debug)]
pub struct AuthResponse {
    pub authn_status: String,
    pub is_authenticated: Option<bool>,
    pub active_key: Option<String>,
    pub server_fingerprint: Option<String>,
    pub server_cn: Option<String>,
    pub session_id: Option<String>,
    pub active_key_timeout: Option<u64>,
    pub error_message: Option<String>,
    pub error_id: Option<String>,
    pub error_code: Option<u32>,
    pub prompt: Option<String>,
    pub username: Option<String>,
}

/// The gateway's answer to a certificate request.
#[derive(Debug)]
pub struct CertificateResponse {
    pub error_code: u32,
    pub binary: Option<String>,
}

/// A range of addresses the gateway routes through the tunnel (big-endian IPv4).
#[derive(Debug, Clone, Copy, PartialEq, Eq, Structural)]
pub struct NetworkRange {
    pub from: u32,
    pub to: u32,
}

/// The ranges of a policy update.
#[derive(Debug)]
pub struct Range {
    pub settings: Vec<NetworkRange>,
}

/// The policies the gateway sends with its client settings.
#[derive(Debug)]
pub struct UpdatedPolicies {
    pub range: Range,
}

/// The gateway's answer to a client settings request.
#[derive(Debug)]
pub struct ClientSettingsResponse {
    /// The gateway's address inside the tunnel (big-endian IPv4).
    pub gw_internal_ip: u32,
    pub updated_policies: UpdatedPolicies,
}

/// A response value of no known record type, as far as the library reads
/// it: a string, or any other value.
#[derive(Debug)]
pub enum GenericValue {
    Text(String),
    Other,
}

/// The data of a gateway response.
#[derive(Debug)]
pub enum ResponseData {
    Auth(AuthResponse),
    ClientSettings(ClientSettingsResponse),
    ServerInfo(GatewayInformation),
    Certificate(CertificateResponse),
    Generic(GenericValue),
}

/// A gateway response: its header and its data.
#[derive(Debug)]
pub struct CccServerResponseData {
    pub header: ResponseHeader,
    pub data: ResponseData,
}

/// The gateway refused a request; it answered with this return code and no data.
#[derive(Debug, Clone, Copy, PartialEq, Eq, Structural)]
pub struct RequestFailed {
    pub return_code: u32,
}

/// Whether a response's data is the empty string by which the gateway
/// signals a failed request.
pub open spec fn is_empty_generic(d: ResponseData) -> bool {
    d matches ResponseData::Generic(GenericValue::Text(t)) && t@.len() == 0
}

impl CccServerResponseData {
    /// The data of the response; a failure, with the header's return code,
    /// when the data is an empty string.
    pub fn into_data(self) -> (r: Result<ResponseData, RequestFailed>)
        ensures
            is_empty_generic(self.data) ==> r == Err::<ResponseData, RequestFailed>(
                RequestFailed { return_code: self.header.return_code },
            ),
            !is_empty_generic(self.data) ==> r == Ok::<ResponseData, RequestFailed>(self.data),
    {
        let empty = match &self.data {
            ResponseData::Generic(GenericValue::Text(t)) => chars_of(t.as_str()).len() == 0,
            _ => false,
        };
        if empty {
            Err(RequestFailed { return_code: self.header.return_code })
        } else {
            Ok(self.data)
        }
    }
}

/// A keepalive of the SSL tunnel, the object named `keepalive`.
#[derive(Debug)]
pub struct KeepaliveRequest {
    /// Written under the naming field `(keepalive`.
    pub data: KeepaliveRequestData,
}

/// The fields of a keepalive.
#[derive(Debug)]
pub struct KeepaliveRequestData {
    pub id: String,
}

/// A disconnect notice of the SSL tunnel, the object named `disconnect`.
#[derive(Debug)]
pub struct DisconnectRequest {
    /// Written under the naming field `(disconnect`.
    pub data: DisconnectRequestData,
}

/// The fields of a disconnect notice.
#[derive(Debug)]
pub struct DisconnectRequestData {
    pub code: String,
    pub message: Option<String>,
}

/// What the client says about itself in a hello.
#[derive(Debug)]
pub struct ClientInfo {
    pub client_type: String,
    pub client_version: u32,
    pub client_support_saml: bool,
}

} // verus!
