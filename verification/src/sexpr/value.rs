//! S-expression values: text atoms, arrays, and objects whose fields are
//! kept in ascending key order with one entry per key.

use vstd::prelude::*;
use crate::order::{compare_keys, lemma_lt_irreflexive, lemma_lt_transitive, seq_lt, KeyOrder};
use crate::text::chars_of;

verus! {

/// An S-expression.
#[derive(Debug)]
pub enum SExpression {
    /// The absent value.
    Null,
    /// A text atom.
    Value(String),
    /// An object, optionally named, with its fields in ascending key order.
    Object(Option<String>, Vec<(String, SExpression)>),
    /// An array.
    Array(Vec<SExpression>),
}

/// The fields of an object.
pub type Fields = Vec<(String, SExpression)>;

/// Field keys are in strictly ascending order, so each key occurs once.
pub open spec fn keys_sorted(f: Seq<(String, SExpression)>) -> bool {
    forall|i: int, j: int| 0 <= i < j < f.len() ==> seq_lt(#[trigger] f[i].0@, #[trigger] f[j].0@)
}

/// The value stored under `key`, if any.
pub open spec fn lookup(f: Seq<(String, SExpression)>, key: Seq<char>) -> Option<SExpression>
    decreases f.len(),
{
    if f.len() == 0 {
        None
    } else if f[0].0@ == key {
        Some(f[0].1)
    } else {
        lookup(f.drop_first(), key)
    }
}

proof fn lemma_lookup_absent(f: Seq<(String, SExpression)>, key: Seq<char>)
    requires
        forall|i: int| 0 <= i < f.len() ==> (#[trigger] f[i]).0@ != key,
    ensures
        lookup(f, key) is None,
    decreases f.len(),
{
    if f.len() > 0 {
        assert forall|i: int| 0 <= i < f.drop_first().len() implies (#[trigger] f.drop_first()[i]).0@ != key by {
            assert(f.drop_first()[i] == f[i + 1]);
        }
        lemma_lookup_absent(f.drop_first(), key);
    }
}

proof fn lemma_lookup_insert_other(f: Seq<(String, SExpression)>, p: int, e: (String, SExpression), key: Seq<char>)
    requires
        0 <= p <= f.len(),
        e.0@ != key,
    ensures
        lookup(f.insert(p, e), key) == lookup(f, key),
    decreases f.len(),
{
    if p == 0 {
        assert(f.insert(p, e).drop_first() == f);
    } else {
        assert(f.insert(p, e)[0] == f[0]);
        assert(f.insert(p, e).drop_first() == f.drop_first().insert(p - 1, e));
        lemma_lookup_insert_other(f.drop_first(), p - 1, e, key);
    }
}

proof fn lemma_lookup_insert_same(f: Seq<(String, SExpression)>, p: int, e: (String, SExpression))
    requires
        0 <= p <= f.len(),
        forall|i: int| 0 <= i < p ==> (#[trigger] f[i]).0@ != e.0@,
    ensures
        lookup(f.insert(p, e), e.0@) == Some(e.1),
    decreases f.len(),
{
    if p > 0 {
        assert(f.insert(p, e)[0] == f[0]);
        assert(f.insert(p, e).drop_first() == f.drop_first().insert(p - 1, e));
        assert forall|i: int| 0 <= i < p - 1 implies (#[trigger] f.drop_first()[i]).0@ != e.0@ by {
            assert(f.drop_first()[i] == f[i + 1]);
        }
        lemma_lookup_insert_same(f.drop_first(), p - 1, e);
    }
}

proof fn lemma_lookup_update_other(f: Seq<(String, SExpression)>, p: int, e: (String, SExpression), key: Seq<char>)
    requires
        0 <= p < f.len(),
        e.0@ != key,
        f[p].0@ != key,
    ensures
        lookup(f.update(p, e), key) == lookup(f, key),
    decreases f.len(),
{
    if p > 0 {
        assert(f.update(p, e)[0] == f[0]);
        assert(f.update(p, e).drop_first() == f.drop_first().update(p - 1, e));
        lemma_lookup_update_other(f.drop_first(), p - 1, e, key);
    } else {
        assert(f.update(p, e).drop_first() == f.drop_first());
    }
}

proof fn lemma_lookup_update_same(f: Seq<(String, SExpression)>, p: int, e: (String, SExpression))
    requires
        0 <= p < f.len(),
        forall|i: int| 0 <= i < p ==> (#[trigger] f[i]).0@ != e.0@,
    ensures
        lookup(f.update(p, e), e.0@) == Some(e.1),
    decreases f.len(),
{
    if p > 0 {
        assert(f.update(p, e)[0] == f[0]);
        assert(f.update(p, e).drop_first() == f.drop_first().update(p - 1, e));
        assert forall|i: int| 0 <= i < p - 1 implies (#[trigger] f.drop_first()[i]).0@ != e.0@ by {
            assert(f.drop_first()[i] == f[i + 1]);
        }
        lemma_lookup_update_same(f.drop_first(), p - 1, e);
    }
}

/// Stores `value` under `key`, replacing the value stored there before and
/// keeping the keys in ascending order.
pub fn insert_field(fields: &mut Fields, key: String, value: SExpression)
    requires
        keys_sorted(old(fields)@),
    ensures
        keys_sorted(final(fields)@),
        lookup(final(fields)@, key@) == Some(value),
        forall|k: Seq<char>| k != key@ ==> #[trigger] lookup(final(fields)@, k) == lookup(old(fields)@, k),
        forall|i: int|
            0 <= i < final(fields)@.len() ==> (#[trigger] final(fields)@[i]).0@ == key@ || exists|j: int|
                0 <= j < old(fields)@.len() && old(fields)@[j] == final(fields)@[i],
{
    let kc = chars_of(key.as_str());
    let mut p: usize = 0;
    let ghost f = fields@;
    let mut found = false;
    while p < fields.len()
        invariant_except_break
            !found,
        invariant
            fields@ == f,
            p <= f.len(),
            kc@ == key@,
            keys_sorted(f),
            forall|i: int| 0 <= i < p ==> seq_lt((#[trigger] f[i]).0@, key@),
        ensures
            found ==> p < f.len() && f[p as int].0@ == key@,
            !found ==> p == f.len() || seq_lt(key@, f[p as int].0@),
        decreases f.len() - p,
    {
        let pc = chars_of(fields[p].0.as_str());
        match compare_keys(pc.as_slice(), kc.as_slice()) {
            KeyOrder::Before => {
                p = p + 1;
            },
            KeyOrder::Same => {
                found = true;
                break;
            },
            KeyOrder::After => {
                break;
            },
        }
    }
    proof {
        assert forall|i: int| 0 <= i < p implies (#[trigger] f[i]).0@ != key@ by {
            lemma_lt_irreflexive(key@);
        }
    }
    let ghost e = (key, value);
    if found {
        let _old = fields.remove(p);
        fields.insert(p, (key, value));
        proof {
            assert(fields@ == f.update(p as int, e));
            lemma_lookup_update_same(f, p as int, e);
            assert forall|k: Seq<char>| k != key@ implies #[trigger] lookup(fields@, k) == lookup(f, k) by {
                lemma_lookup_update_other(f, p as int, e, k);
            }
            assert forall|i: int, j: int| 0 <= i < j < fields@.len() implies seq_lt(
                #[trigger] fields@[i].0@,
                #[trigger] fields@[j].0@,
            ) by {
                assert(seq_lt(f[i].0@, f[j].0@));
            }
        }
    } else {
        fields.insert(p, (key, value));
        proof {
            assert(fields@ == f.insert(p as int, e));
            lemma_lookup_insert_same(f, p as int, e);
            assert forall|k: Seq<char>| k != key@ implies #[trigger] lookup(fields@, k) == lookup(f, k) by {
                lemma_lookup_insert_other(f, p as int, e, k);
            }
            assert forall|i: int, j: int| 0 <= i < j < fields@.len() implies seq_lt(
                #[trigger] fields@[i].0@,
                #[trigger] fields@[j].0@,
            ) by {
                if j < p {
                    assert(seq_lt(f[i].0@, f[j].0@));
                } else if j == p {
                    assert(fields@[i] == f[i]);
                } else if i == p {
                    assert(fields@[j] == f[j - 1]);
                    if j - 1 > p {
                        assert(seq_lt(f[p as int].0@, f[j - 1].0@));
                        lemma_lt_transitive(key@, f[p as int].0@, f[j - 1].0@);
                    }
                } else if i < p {
                    assert(fields@[j] == f[j - 1]);
                    assert(seq_lt(f[i].0@, key@));
                    if j - 1 >= p {
                        if j - 1 > p {
                            assert(seq_lt(f[p as int].0@, f[j - 1].0@));
                            lemma_lt_transitive(key@, f[p as int].0@, f[j - 1].0@);
                        }
                        lemma_lt_transitive(f[i].0@, key@, f[j - 1].0@);
                    }
                } else {
                    assert(fields@[i] == f[i - 1]);
                    assert(fields@[j] == f[j - 1]);
                    assert(seq_lt(f[i - 1].0@, f[j - 1].0@));
                }
            }
        }
    }
    proof {
        assert forall|i: int| 0 <= i < fields@.len() implies (#[trigger] fields@[i]).0@ == key@ || exists|j: int|
            0 <= j < f.len() && f[j] == fields@[i] by {
            if found {
                if i != p {
                    assert(f[i] == fields@[i]);
                }
            } else {
                if i < p {
                    assert(f[i] == fields@[i]);
                } else if i > p {
                    assert(f[i - 1] == fields@[i]);
                }
            }
        }
    }
}

} // verus!
