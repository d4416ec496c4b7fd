//! Single-instance guards: the name of the system-wide mutex that keeps a
//! second service instance from starting, and the guard's verdict.

use vstd::prelude::*;
use crate::text::{chars_of, first_kept, has_prefix, is_cc, is_control, last_kept, string_from_chars, trim_chars, trimmed, in_set, TrimSet};

verus! {

/// What a slug character becomes in a mutex name: path separators, drive
/// colons and control characters turn into `_`.
pub open spec fn mapped_char(c: char) -> char {
    if c == '\\' || c == '/' || c == ':' || is_cc(c) {
        '_'
    } else {
        c
    }
}

/// The mapped slug with every run of `_` collapsed to a single `_`.
pub open spec fn collapsed(s: Seq<char>) -> Seq<char>
    decreases s.len(),
{
    if s.len() == 0 {
        Seq::empty()
    } else {
        let prev = collapsed(s.drop_last());
        let m = mapped_char(s.last());
        if m == '_' && prev.len() > 0 && prev.last() == '_' {
            prev
        } else {
            prev.push(m)
        }
    }
}

/// The fixed part every mutex name starts with.
pub open spec fn mutex_prefix() -> Seq<char> {
    seq!['G', 'l', 'o', 'b', 'a', 'l', '\\', 's', 'n', 'x', '-', 'r', 's', '-']
}

/// The mutex name for a slug: the global-namespace prefix followed by the
/// slug with separators and control characters mapped to `_`, runs of `_`
/// collapsed and `_` trimmed from both ends.
pub open spec fn spec_mutex_name(slug: Seq<char>) -> Seq<char> {
    mutex_prefix() + trimmed(collapsed(slug), TrimSet::Underscore)
}

fn map_char(c: char) -> (r: char)
    ensures
        r == mapped_char(c),
{
    if c == '\\' || c == '/' || c == ':' || is_control(c) {
        '_'
    } else {
        c
    }
}

/// Name of the system-wide mutex guarding a single service instance.
pub fn mutex_name(slug: &str) -> (r: String)
    ensures
        r@ == spec_mutex_name(slug@),
{
    let cs = chars_of(slug);
    let mut sanitized: Vec<char> = Vec::new();
    let mut i: usize = 0;
    while i < cs.len()
        invariant
            i <= cs@.len(),
            cs@ == slug@,
            sanitized@ == collapsed(cs@.take(i as int)),
        decreases cs@.len() - i,
    {
        let mapped = map_char(cs[i]);
        assert(cs@.take(i + 1).drop_last() == cs@.take(i as int));
        let n = sanitized.len();
        if !(mapped == '_' && n > 0 && sanitized[n - 1] == '_') {
            sanitized.push(mapped);
        }
        i = i + 1;
    }
    assert(cs@.take(cs@.len() as int) == cs@);
    let trimmed_slug = trim_chars(sanitized.as_slice(), TrimSet::Underscore);
    let mut name: Vec<char> = vec!['G', 'l', 'o', 'b', 'a', 'l', '\\', 's', 'n', 'x', '-', 'r', 's', '-'];
    let ghost head = name@;
    assert(head == mutex_prefix());
    let mut j: usize = 0;
    while j < trimmed_slug.len()
        invariant
            j <= trimmed_slug@.len(),
            name@ == head + trimmed_slug@.take(j as int),
        decreases trimmed_slug@.len() - j,
    {
        name.push(trimmed_slug[j]);
        assert(trimmed_slug@.take(j + 1) == trimmed_slug@.take(j as int).push(trimmed_slug@[j as int]));
        j = j + 1;
    }
    assert(trimmed_slug@.take(trimmed_slug@.len() as int) == trimmed_slug@);
    string_from_chars(name.as_slice())
}

/// Whether a character may appear in the slug part of a mutex name.
pub open spec fn clean_char(c: char) -> bool {
    c != '\\' && c != '/' && c != ':' && !is_cc(c)
}

proof fn lemma_collapsed_clean(s: Seq<char>)
    ensures
        forall|k: int| 0 <= k < collapsed(s).len() ==> clean_char(#[trigger] collapsed(s)[k]),
        forall|k: int|
            0 <= k < collapsed(s).len() - 1 ==> !(#[trigger] collapsed(s)[k] == '_' && collapsed(s)[k
                + 1] == '_'),
    decreases s.len(),
{
    if s.len() > 0 {
        let prev = collapsed(s.drop_last());
        let m = mapped_char(s.last());
        lemma_collapsed_clean(s.drop_last());
        assert(clean_char(m));
        if !(m == '_' && prev.len() > 0 && prev.last() == '_') {
            let r = prev.push(m);
            assert(collapsed(s) == r);
            assert forall|k: int| 0 <= k < r.len() implies clean_char(#[trigger] r[k]) by {
                if k < prev.len() {
                    assert(r[k] == prev[k]);
                }
            }
            assert forall|k: int| 0 <= k < r.len() - 1 implies !(#[trigger] r[k] == '_' && r[k + 1] == '_') by {
                assert(r[k] == prev[k]);
                if k + 1 < prev.len() {
                    assert(r[k + 1] == prev[k + 1]);
                }
            }
        }
    }
}

proof fn lemma_first_kept_in(s: Seq<char>, set: TrimSet, i: int)
    requires
        0 <= i <= s.len(),
    ensures
        i <= first_kept(s, set, i) <= s.len(),
        first_kept(s, set, i) < s.len() ==> !in_set(set, s[first_kept(s, set, i)]),
    decreases s.len() - i,
{
    if i < s.len() && in_set(set, s[i]) {
        lemma_first_kept_in(s, set, i + 1);
    }
}

proof fn lemma_last_kept_in(s: Seq<char>, set: TrimSet, j: int)
    requires
        0 <= j <= s.len(),
    ensures
        0 <= last_kept(s, set, j) <= j,
        last_kept(s, set, j) > 0 ==> !in_set(set, s[last_kept(s, set, j) - 1]),
    decreases j,
{
    if j > 0 && in_set(set, s[j - 1]) {
        lemma_last_kept_in(s, set, j - 1);
    }
}

/// A mutex name is the fixed prefix followed by a slug part that holds no
/// path separator, colon or control character, never two `_` in a row, and
/// neither begins nor ends with `_`.
pub proof fn law_mutex_name_is_clean(slug: Seq<char>)
    ensures
        has_prefix(spec_mutex_name(slug), mutex_prefix()),
        ({
            let part = spec_mutex_name(slug).skip(mutex_prefix().len() as int);
            &&& forall|k: int| 0 <= k < part.len() ==> clean_char(#[trigger] part[k])
            &&& forall|k: int| 0 <= k < part.len() - 1 ==> !(#[trigger] part[k] == '_' && part[k + 1] == '_')
            &&& part.len() > 0 ==> part[0] != '_' && part[part.len() - 1] != '_'
        }),
{
    let c = collapsed(slug);
    lemma_collapsed_clean(slug);
    lemma_first_kept_in(c, TrimSet::Underscore, 0);
    lemma_last_kept_in(c, TrimSet::Underscore, c.len() as int);
    let t = trimmed(c, TrimSet::Underscore);
    let name = spec_mutex_name(slug);
    assert(name.take(mutex_prefix().len() as int) == mutex_prefix());
    assert(name.skip(mutex_prefix().len() as int) == t);
    let a = first_kept(c, TrimSet::Underscore, 0);
    let b = last_kept(c, TrimSet::Underscore, c.len() as int);
    if a < b {
        assert forall|k: int| 0 <= k < t.len() implies clean_char(#[trigger] t[k]) by {
            assert(t[k] == c[a + k]);
        }
        assert forall|k: int| 0 <= k < t.len() - 1 implies !(#[trigger] t[k] == '_' && t[k + 1] == '_') by {
            assert(t[k] == c[a + k]);
            assert(t[k + 1] == c[a + k + 1]);
        }
    }
}

/// The single-instance guard's verdict on a named system mutex.
pub trait SingleInstance {
    /// Whether this process is the only holder of the guard.
    fn is_single(&self) -> bool;
}

/// A single-instance guard backed by a named system mutex.
pub struct WindowsSingleInstance {
    ok: bool,
}

impl WindowsSingleInstance {
    /// The guard after creating the named mutex, given whether the system
    /// reported that a mutex of that name already existed.
    pub fn from_creation(already_exists: bool) -> (r: Self)
        ensures
            r.is_single_spec() == !already_exists,
    {
        WindowsSingleInstance { ok: !already_exists }
    }

    /// Whether this process is the only holder.
    pub closed spec fn is_single_spec(&self) -> bool {
        self.ok
    }
}

impl SingleInstance for WindowsSingleInstance {
    fn is_single(&self) -> (r: bool)
        ensures
            r == self.is_single_spec(),
    {
        self.ok
    }
}

} // verus!
