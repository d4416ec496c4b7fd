//! The connection profiles the service knows: their order, which one is
//! connected, and lookups by id or name. Reading and writing the profile
//! files is left to the caller, who is told what to persist.

use vstd::prelude::*;
use crate::model::params::{TunnelParams, TunnelParamsView};
use crate::text::str_eq;

verus! {

/// What `uuid` reads from a text: the 128-bit value of the UUID written in
/// it, or nothing when it is not a UUID.
pub uninterp spec fn parsed_uuid(s: Seq<char>) -> Option<u128>;

/// Reads a UUID (`str::parse::<uuid::Uuid>`), as its 128-bit big-endian value.
#[verifier::external_body]
fn parse_uuid(s: &str) -> (r: Option<u128>)
    ensures
        r == parsed_uuid(s@),
{
    match s.parse::<uuid::Uuid>() {
        Ok(u) => Some(u.as_u128()),
        Err(_) => None,
    }
}

/// The profiles as values.
pub open spec fn param_views(v: Seq<TunnelParams>) -> Seq<TunnelParamsView> {
    v.map_values(|p: TunnelParams| p@)
}

/// The ids of the profiles, in order.
pub open spec fn profile_ids(s: Seq<TunnelParamsView>) -> Seq<u128> {
    s.map_values(|p: TunnelParamsView| p.profile_id)
}

/// The index of the first profile with id `id`.
pub open spec fn index_with_id(s: Seq<TunnelParamsView>, id: u128) -> Option<int>
    decreases s.len(),
{
    if s.len() == 0 {
        None
    } else if s[0].profile_id == id {
        Some(0)
    } else {
        match index_with_id(s.drop_first(), id) {
            Some(i) => Some(i + 1),
            None => None,
        }
    }
}

/// The first profile with id `id`.
pub open spec fn profile_with_id(s: Seq<TunnelParamsView>, id: u128) -> Option<TunnelParamsView> {
    match index_with_id(s, id) {
        Some(i) => Some(s[i]),
        None => None,
    }
}

/// Whether a profile has id `id`, when one is given, or is named `name`.
pub open spec fn matches_name_or_id(p: TunnelParamsView, name: Seq<char>, id: Option<u128>) -> bool {
    id == Some(p.profile_id) || p.profile_name == name
}

/// The index of the first profile that has id `id` or is named `name`.
pub open spec fn index_matching(s: Seq<TunnelParamsView>, name: Seq<char>, id: Option<u128>) -> Option<int>
    decreases s.len(),
{
    if s.len() == 0 {
        None
    } else if matches_name_or_id(s[0], name, id) {
        Some(0)
    } else {
        match index_matching(s.drop_first(), name, id) {
            Some(i) => Some(i + 1),
            None => None,
        }
    }
}

/// The profiles after moving the one at `from` to `to`; nothing moves when
/// either index is out of range or they are equal.
pub open spec fn reordered<T>(s: Seq<T>, from: int, to: int) -> Seq<T> {
    if from >= s.len() || to >= s.len() || from == to || from < 0 || to < 0 {
        s
    } else {
        s.remove(from).insert(to, s[from])
    }
}

/// The profiles after saving `p`: it replaces the first profile with its
/// id, or comes last when there is none.
pub open spec fn saved(s: Seq<TunnelParamsView>, p: TunnelParamsView) -> Seq<TunnelParamsView> {
    match index_with_id(s, p.profile_id) {
        Some(i) => s.update(i, p),
        None => s.push(p),
    }
}

/// The profiles after removing every profile with id `id`.
pub open spec fn removed(s: Seq<TunnelParamsView>, id: u128) -> Seq<TunnelParamsView> {
    s.filter(|p: TunnelParamsView| p.profile_id != id)
}

/// The profile used as the connected one: the one with id `connected`, else
/// the default profile as stored, else the default profile itself.
pub open spec fn connected_choice(s: Seq<TunnelParamsView>, connected: u128, default: TunnelParamsView) -> TunnelParamsView {
    match profile_with_id(s, connected) {
        Some(p) => p,
        None => default_choice(s, default),
    }
}

/// The default profile: the stored profile with its id, else itself.
pub open spec fn default_choice(s: Seq<TunnelParamsView>, default: TunnelParamsView) -> TunnelParamsView {
    match profile_with_id(s, default.profile_id) {
        Some(p) => p,
        None => default,
    }
}

/// The connection profiles, in the order the user keeps them.
pub struct ConnectionProfilesStore {
    profiles: Vec<TunnelParams>,
    connected_profile: u128,
    default_profile: TunnelParams,
}

fn find_index_with_id(v: &Vec<TunnelParams>, id: u128) -> (r: Option<usize>)
    ensures
        match r {
            Some(i) => index_with_id(param_views(v@), id) == Some(i as int) && i < v@.len(),
            None => index_with_id(param_views(v@), id) is None,
        },
{
    let ghost s = param_views(v@);
    let mut i: usize = 0;
    assert(s.skip(0) == s);
    while i < v.len()
        invariant
            s == param_views(v@),
            i <= v@.len(),
            index_with_id(s, id) == match index_with_id(s.skip(i as int), id) {
                Some(j) => Some(j + i),
                None => None::<int>,
            },
        decreases v@.len() - i,
    {
        assert(s.skip(i as int)[0] == s[i as int]);
        if v[i].profile_id == id {
            assert(index_with_id(s.skip(i as int), id) == Some(0int));
            return Some(i);
        }
        assert(s.skip(i as int).drop_first() == s.skip(i + 1));
        i = i + 1;
    }
    None
}

fn ids_of(v: &Vec<TunnelParams>) -> (r: Vec<u128>)
    ensures
        r@ == profile_ids(param_views(v@)),
{
    let mut r: Vec<u128> = Vec::new();
    let mut i: usize = 0;
    while i < v.len()
        invariant
            i <= v@.len(),
            r@ == profile_ids(param_views(v@)).take(i as int),
        decreases v@.len() - i,
    {
        r.push(v[i].profile_id);
        assert(r@ =~= profile_ids(param_views(v@)).take(i + 1));
        i = i + 1;
    }
    assert(profile_ids(param_views(v@)).take(v@.len() as int) == profile_ids(param_views(v@)));
    r
}

impl ConnectionProfilesStore {
    /// The profiles.
    pub closed spec fn profiles_spec(&self) -> Seq<TunnelParamsView> {
        param_views(self.profiles@)
    }

    /// The id of the connected profile.
    pub closed spec fn connected_spec(&self) -> u128 {
        self.connected_profile
    }

    /// The default profile.
    pub closed spec fn default_spec(&self) -> TunnelParamsView {
        self.default_profile@
    }

    /// A store of the profiles `loaded` from disk, or of the default profile
    /// alone when there are none; the default profile counts as connected.
    pub fn new_in(loaded: Vec<TunnelParams>, default: TunnelParams) -> (r: Self)
        ensures
            r.profiles_spec() == if loaded@.len() == 0 {
                seq![default@]
            } else {
                param_views(loaded@)
            },
            r.connected_spec() == default.profile_id,
            r.default_spec() == default@,
    {
        let mut all = loaded;
        if all.len() == 0 {
            all.push(default.duplicate());
            assert(param_views(all@) =~= seq![default@]);
        }
        ConnectionProfilesStore { profiles: all, connected_profile: default.profile_id, default_profile: default }
    }

    /// Copies of all profiles, in order.
    pub fn all(&self) -> (r: Vec<TunnelParams>)
        ensures
            param_views(r@) == self.profiles_spec(),
    {
        let mut r: Vec<TunnelParams> = Vec::new();
        let mut i: usize = 0;
        while i < self.profiles.len()
            invariant
                i <= self.profiles@.len(),
                param_views(r@) == param_views(self.profiles@).take(i as int),
            decreases self.profiles@.len() - i,
        {
            let ghost before = r@;
            let p = self.profiles[i].duplicate();
            r.push(p);
            assert(r@ == before.push(p));
            assert(param_views(r@) =~= param_views(before).push(p@));
            assert(param_views(r@) =~= param_views(self.profiles@).take(i + 1));
            i = i + 1;
        }
        assert(param_views(self.profiles@).take(self.profiles@.len() as int) == param_views(self.profiles@));
        r
    }

    /// Moves the profile at `from` to `to`. Returns the new order of ids to
    /// persist, or nothing when nothing moved (an index out of range, or
    /// both equal).
    pub fn reorder(&mut self, from: usize, to: usize) -> (r: Option<Vec<u128>>)
        ensures
            final(self).profiles_spec() == reordered(old(self).profiles_spec(), from as int, to as int),
            final(self).connected_spec() == old(self).connected_spec(),
            final(self).default_spec() == old(self).default_spec(),
            match r {
                Some(order) => from < old(self).profiles_spec().len() && to < old(self).profiles_spec().len()
                    && from != to && order@ == profile_ids(final(self).profiles_spec()),
                None => from >= old(self).profiles_spec().len() || to >= old(self).profiles_spec().len() || from
                    == to,
            },
    {
        if from >= self.profiles.len() || to >= self.profiles.len() || from == to {
            return None;
        }
        let ghost s = param_views(self.profiles@);
        let item = self.profiles.remove(from);
        self.profiles.insert(to, item);
        assert(param_views(self.profiles@) =~= s.remove(from as int).insert(to as int, s[from as int]));
        Some(ids_of(&self.profiles))
    }

    /// A copy of the profile with id `uuid`.
    pub fn get(&self, uuid: u128) -> (r: Option<TunnelParams>)
        ensures
            match r {
                Some(p) => profile_with_id(self.profiles_spec(), uuid) == Some(p@),
                None => profile_with_id(self.profiles_spec(), uuid) is None,
            },
    {
        match find_index_with_id(&self.profiles, uuid) {
            Some(i) => Some(self.profiles[i].duplicate()),
            None => None,
        }
    }

    /// A copy of the first profile with id `id` (when given) or named `name`.
    pub fn find_by_name_or_id(&self, name: &str, id: Option<u128>) -> (r: Option<TunnelParams>)
        ensures
            match index_matching(self.profiles_spec(), name@, id) {
                Some(i) => r matches Some(p) && p@ == self.profiles_spec()[i],
                None => r is None,
            },
    {
        let ghost s = param_views(self.profiles@);
        let mut i: usize = 0;
        assert(s.skip(0) == s);
        while i < self.profiles.len()
            invariant
                s == param_views(self.profiles@),
                i <= s.len(),
                index_matching(s, name@, id) == match index_matching(s.skip(i as int), name@, id) {
                    Some(j) => Some(j + i),
                    None => None::<int>,
                },
            decreases s.len() - i,
        {
            assert(s.skip(i as int)[0] == s[i as int]);
            let p = &self.profiles[i];
            let by_id = match id {
                Some(u) => u == p.profile_id,
                None => false,
            };
            if by_id || str_eq(p.profile_name.as_str(), name) {
                assert(index_matching(s.skip(i as int), name@, id) == Some(0int));
                return Some(p.duplicate());
            }
            assert(s.skip(i as int).drop_first() == s.skip(i + 1));
            i = i + 1;
        }
        None
    }

    /// A copy of the profile whose UUID is written in `name_or_uuid`, or
    /// else of the one with that display name; the first in order.
    pub fn find_by_name_or_uuid(&self, name_or_uuid: &str) -> (r: Option<TunnelParams>)
        ensures
            match index_matching(self.profiles_spec(), name_or_uuid@, parsed_uuid(name_or_uuid@)) {
                Some(i) => r matches Some(p) && p@ == self.profiles_spec()[i],
                None => r is None,
            },
    {
        let id = parse_uuid(name_or_uuid);
        self.find_by_name_or_id(name_or_uuid, id)
    }

    /// A copy of the default profile: as stored, else as the store was made with.
    pub fn get_default(&self) -> (r: TunnelParams)
        ensures
            r@ == default_choice(self.profiles_spec(), self.default_spec()),
    {
        match self.get(self.default_profile.profile_id) {
            Some(p) => p,
            None => self.default_profile.duplicate(),
        }
    }

    /// A copy of the connected profile; the default one when the connected
    /// profile is not stored.
    pub fn get_connected(&self) -> (r: TunnelParams)
        ensures
            r@ == connected_choice(self.profiles_spec(), self.connected_spec(), self.default_spec()),
    {
        match self.get(self.connected_profile) {
            Some(p) => p,
            None => self.get_default(),
        }
    }

    /// Marks the profile with id `uuid` as connected.
    pub fn set_connected(&mut self, uuid: u128)
        ensures
            final(self).connected_spec() == uuid,
            final(self).profiles_spec() == old(self).profiles_spec(),
            final(self).default_spec() == old(self).default_spec(),
    {
        self.connected_profile = uuid;
    }

    /// Stores `params`, replacing the profile with its id or adding it last.
    /// Returns the new order of ids to persist when the profile was added.
    pub fn save(&mut self, params: TunnelParams) -> (r: Option<Vec<u128>>)
        ensures
            final(self).profiles_spec() == saved(old(self).profiles_spec(), params@),
            final(self).connected_spec() == old(self).connected_spec(),
            final(self).default_spec() == old(self).default_spec(),
            match r {
                Some(order) => index_with_id(old(self).profiles_spec(), params.profile_id) is None && order@
                    == profile_ids(final(self).profiles_spec()),
                None => index_with_id(old(self).profiles_spec(), params.profile_id) is Some,
            },
    {
        let ghost s = param_views(self.profiles@);
        let ghost pv = params@;
        match find_index_with_id(&self.profiles, params.profile_id) {
            Some(i) => {
                self.profiles.set(i, params);
                assert(param_views(self.profiles@) =~= s.update(i as int, pv));
                None
            },
            None => {
                self.profiles.push(params);
                assert(param_views(self.profiles@) =~= s.push(pv));
                Some(ids_of(&self.profiles))
            },
        }
    }

    /// Drops every profile with id `uuid`. Returns the file of the first
    /// such profile, to delete, and the new order of ids to persist.
    pub fn remove(&mut self, uuid: u128) -> (r: (Option<String>, Vec<u128>))
        ensures
            final(self).profiles_spec() == removed(old(self).profiles_spec(), uuid),
            final(self).connected_spec() == old(self).connected_spec(),
            final(self).default_spec() == old(self).default_spec(),
            match profile_with_id(old(self).profiles_spec(), uuid) {
                Some(p) => r.0 matches Some(f) && f@ == p.config_file,
                None => r.0 is None,
            },
            r.1@ == profile_ids(final(self).profiles_spec()),
    {
        let file = match find_index_with_id(&self.profiles, uuid) {
            Some(i) => Some(self.profiles[i].config_file.clone()),
            None => None,
        };
        let ghost s = param_views(self.profiles@);
        let ghost keep = |p: TunnelParamsView| p.profile_id != uuid;
        let mut kept: Vec<TunnelParams> = Vec::new();
        let mut old_profiles: Vec<TunnelParams> = Vec::new();
        std::mem::swap(&mut old_profiles, &mut self.profiles);
        let mut i: usize = 0;
        while i < old_profiles.len()
            invariant
                i <= old_profiles@.len(),
                s == param_views(old_profiles@),
                keep == (|p: TunnelParamsView| p.profile_id != uuid),
                param_views(kept@) == s.take(i as int).filter(keep),
            decreases old_profiles@.len() - i,
        {
            proof {
                assert(s.take(i + 1) =~= s.take(i as int).push(s[i as int]));
                s.take(i as int).lemma_filter_push(s[i as int], keep);
            }
            if old_profiles[i].profile_id != uuid {
                let ghost before = kept@;
                kept.push(old_profiles[i].duplicate());
                assert(param_views(kept@) =~= param_views(before).push(s[i as int]));
            }
            i = i + 1;
        }
        assert(s.take(old_profiles@.len() as int) == s);
        self.profiles = kept;
        let order = ids_of(&self.profiles);
        (file, order)
    }
}

/// Moving a profile keeps every profile: the same profiles, as many times
/// each, with the moved one now at `to`.
pub proof fn law_reorder_keeps_profiles<T>(s: Seq<T>, from: int, to: int)
    requires
        0 <= from < s.len(),
        0 <= to < s.len(),
    ensures
        reordered(s, from, to).to_multiset() == s.to_multiset(),
        reordered(s, from, to).len() == s.len(),
        reordered(s, from, to)[to] == s[from],
{
    broadcast use vstd::multiset::group_multiset_axioms;
    if from != to {
        vstd::seq_lib::to_multiset_remove(s, from);
        vstd::seq_lib::to_multiset_insert(s.remove(from), to, s[from]);
        assert(s.contains(s[from]));
        vstd::seq_lib::to_multiset_contains(s, s[from]);
        assert(s.to_multiset().remove(s[from]).insert(s[from]) =~= s.to_multiset());
    }
}

/// Moving a profile back to where it was undoes the move.
pub proof fn law_reorder_undo<T>(s: Seq<T>, from: int, to: int)
    requires
        0 <= from < s.len(),
        0 <= to < s.len(),
    ensures
        reordered(reordered(s, from, to), to, from) == s,
{
    if from != to {
        let m = reordered(s, from, to);
        assert(m[to] == s[from]);
        assert(m.remove(to) =~= s.remove(from));
        assert(m.remove(to).insert(from, m[to]) =~= s);
    }
}

proof fn lemma_index_with_id_found(s: Seq<TunnelParamsView>, id: u128)
    ensures
        match index_with_id(s, id) {
            Some(i) => 0 <= i < s.len() && s[i].profile_id == id && forall|j: int| 0 <= j < i ==> s[j].profile_id != id,
            None => forall|j: int| 0 <= j < s.len() ==> s[j].profile_id != id,
        },
    decreases s.len(),
{
    if s.len() > 0 {
        lemma_index_with_id_found(s.drop_first(), id);
        assert forall|j: int| 0 < j < s.len() implies s[j] == s.drop_first()[j - 1] by {}
    }
}

proof fn lemma_index_with_id_is(s: Seq<TunnelParamsView>, id: u128, i: int)
    requires
        0 <= i < s.len(),
        s[i].profile_id == id,
        forall|j: int| 0 <= j < i ==> s[j].profile_id != id,
    ensures
        index_with_id(s, id) == Some(i),
{
    lemma_index_with_id_found(s, id);
}

proof fn lemma_index_with_id_none(s: Seq<TunnelParamsView>, id: u128)
    requires
        forall|j: int| 0 <= j < s.len() ==> s[j].profile_id != id,
    ensures
        index_with_id(s, id) is None,
{
    lemma_index_with_id_found(s, id);
}

/// After a profile is saved, looking up its id gives it back, and looking
/// up any other id gives what it gave before.
pub proof fn law_save_then_get(s: Seq<TunnelParamsView>, p: TunnelParamsView, other: u128)
    requires
        other != p.profile_id,
    ensures
        profile_with_id(saved(s, p), p.profile_id) == Some(p),
        profile_with_id(saved(s, p), other) == profile_with_id(s, other),
{
    let t = saved(s, p);
    lemma_index_with_id_found(s, p.profile_id);
    lemma_index_with_id_found(s, other);
    match index_with_id(s, p.profile_id) {
        Some(i) => {
            lemma_index_with_id_is(t, p.profile_id, i);
            match index_with_id(s, other) {
                Some(k) => lemma_index_with_id_is(t, other, k),
                None => lemma_index_with_id_none(t, other),
            }
        },
        None => {
            lemma_index_with_id_is(t, p.profile_id, s.len() as int);
            match index_with_id(s, other) {
                Some(k) => lemma_index_with_id_is(t, other, k),
                None => lemma_index_with_id_none(t, other),
            }
        },
    }
}

/// Saving a profile twice is saving it once.
pub proof fn law_save_idempotent(s: Seq<TunnelParamsView>, p: TunnelParamsView)
    ensures
        saved(saved(s, p), p) == saved(s, p),
{
    let t = saved(s, p);
    lemma_index_with_id_found(s, p.profile_id);
    match index_with_id(s, p.profile_id) {
        Some(i) => {
            lemma_index_with_id_is(t, p.profile_id, i);
            assert(t.update(i, p) =~= t);
        },
        None => {
            lemma_index_with_id_is(t, p.profile_id, s.len() as int);
            assert(t.update(s.len() as int, p) =~= t);
        },
    }
}

/// After a profile is removed, no profile has its id; the others stay, in
/// the same order.
pub proof fn law_remove_then_get(s: Seq<TunnelParamsView>, id: u128)
    ensures
        profile_with_id(removed(s, id), id) is None,
        forall|k: int| 0 <= k < removed(s, id).len() ==> (#[trigger] removed(s, id)[k]).profile_id != id,
        removed(s, id) == s.filter(|p: TunnelParamsView| p.profile_id != id),
{
    let keep = |p: TunnelParamsView| p.profile_id != id;
    assert forall|k: int| 0 <= k < removed(s, id).len() implies (#[trigger] removed(s, id)[k]).profile_id != id by {
        s.lemma_filter_pred(keep, k);
    }
    lemma_index_with_id_none(removed(s, id), id);
}

/// The connected profile is the one last marked connected while it is
/// stored, and the default profile otherwise.
pub proof fn law_set_connected_then_get(s: Seq<TunnelParamsView>, id: u128, default: TunnelParamsView)
    ensures
        (exists|k: int| 0 <= k < s.len() && s[k].profile_id == id) ==> connected_choice(s, id, default).profile_id == id,
        (forall|k: int| 0 <= k < s.len() ==> s[k].profile_id != id) ==> connected_choice(s, id, default) == default_choice(s, default),
{
    lemma_index_with_id_found(s, id);
}

/// Saving a profile under the default profile's id makes it the default
/// profile, and the connected one while that id is marked connected; with
/// no profile of that id stored, the default is the one the store was made with.
pub proof fn law_saved_default_is_default(s: Seq<TunnelParamsView>, default: TunnelParamsView, p: TunnelParamsView)
    requires
        p.profile_id == default.profile_id,
    ensures
        default_choice(saved(s, p), default) == p,
        connected_choice(saved(s, p), default.profile_id, default) == p,
        (forall|k: int| 0 <= k < s.len() ==> s[k].profile_id != default.profile_id) ==> default_choice(s, default)
            == default,
{
    let other: u128 = if p.profile_id == 0 {
        1
    } else {
        0
    };
    law_save_then_get(s, p, other);
    lemma_index_with_id_found(s, default.profile_id);
}

} // verus!
