//! Writing protocol records into S-expressions: atoms for scalars, arrays
//! for sequences, objects for maps and structs. A struct field whose name
//! starts with `(` names the object: the field's own fields become the
//! object's fields.

use vstd::prelude::*;
use crate::number::{decimal, decimal_chars, signed_decimal, signed_decimal_chars};
use crate::sexpr::error::Error;
use crate::sexpr::value::{insert_field, keys_sorted, lookup, Fields, SExpression};
use crate::text::{chars_of, owned, string_from_chars};

verus! {

/// The text of a boolean atom.
pub open spec fn bool_text(v: bool) -> Seq<char> {
    if v {
        "true"@
    } else {
        "false"@
    }
}

/// Whether `e` is the atom with text `t`.
pub open spec fn is_atom(e: SExpression, t: Seq<char>) -> bool {
    e matches SExpression::Value(s) && s@ == t
}

/// Whether `e` is an anonymous object with no fields.
pub open spec fn is_empty_object(e: SExpression) -> bool {
    e matches SExpression::Object(n, f) && n is None && f@.len() == 0
}

/// Writes scalars and opens compound values.
pub struct Serializer;

impl Serializer {
    /// A boolean becomes the atom `true` or `false`.
    pub fn serialize_bool(self, v: bool) -> (r: SExpression)
        ensures
            is_atom(r, bool_text(v)),
    {
        if v {
            SExpression::Value(owned("true"))
        } else {
            SExpression::Value(owned("false"))
        }
    }

    /// An unsigned integer becomes its decimal numeral.
    pub fn serialize_u64(self, v: u64) -> (r: SExpression)
        ensures
            is_atom(r, decimal(v as nat)),
    {
        let d = decimal_chars(v);
        SExpression::Value(string_from_chars(d.as_slice()))
    }

    /// A signed integer becomes its decimal numeral, with `-` when negative.
    pub fn serialize_i64(self, v: i64) -> (r: SExpression)
        ensures
            is_atom(r, signed_decimal(v as int)),
    {
        let d = signed_decimal_chars(v);
        SExpression::Value(string_from_chars(d.as_slice()))
    }

    /// A character becomes the atom holding it.
    pub fn serialize_char(self, v: char) -> (r: SExpression)
        ensures
            is_atom(r, seq![v]),
    {
        let cs = vec![v];
        assert(cs@ =~= seq![v]);
        SExpression::Value(string_from_chars(cs.as_slice()))
    }

    /// Text becomes the atom holding it.
    pub fn serialize_str(self, v: &str) -> (r: SExpression)
        ensures
            is_atom(r, v@),
    {
        SExpression::Value(owned(v))
    }

    /// An absent option is the null value.
    pub fn serialize_none(self) -> (r: SExpression)
        ensures
            r is Null,
    {
        SExpression::Null
    }

    /// The unit value is the null value.
    pub fn serialize_unit(self) -> (r: SExpression)
        ensures
            r is Null,
    {
        SExpression::Null
    }

    /// A unit struct is an anonymous object without fields.
    pub fn serialize_unit_struct(self) -> (r: SExpression)
        ensures
            is_empty_object(r),
    {
        SExpression::Object(None, Vec::new())
    }

    /// Bytes become the atom of their text, invalid UTF-8 replaced.
    pub fn serialize_bytes(self, v: &[u8]) -> (r: SExpression)
        ensures
            is_atom(r, crate::codec::lossy_text(v@)),
    {
        SExpression::Value(crate::codec::from_utf8_lossy(v))
    }

    /// A unit enum variant is the atom of its name.
    pub fn serialize_unit_variant(self, variant: &str) -> (r: SExpression)
        ensures
            is_atom(r, variant@),
    {
        SExpression::Value(owned(variant))
    }
}

/// Collects the elements of a sequence into an array.
pub struct SeqSerializer {
    items: Vec<SExpression>,
}

impl SeqSerializer {
    /// An empty collector; `len` is the number of elements announced, if known.
    pub fn new(len: Option<usize>) -> (r: Self)
        ensures
            r.items_spec().len() == 0,
    {
        SeqSerializer { items: Vec::new() }
    }

    /// The elements collected so far.
    pub closed spec fn items_spec(&self) -> Seq<SExpression> {
        self.items@
    }

    /// Appends the written form of the next element.
    pub fn serialize_element(&mut self, value: SExpression)
        ensures
            final(self).items_spec() == old(self).items_spec().push(value),
    {
        self.items.push(value);
    }

    /// The array of all elements, in order.
    pub fn end(self) -> (r: SExpression)
        ensures
            r matches SExpression::Array(v) && v@ == self.items_spec(),
    {
        SExpression::Array(self.items)
    }
}

/// Collects the entries of a map into an anonymous object.
pub struct MapSerializer {
    fields: Fields,
    current_key: Option<String>,
}

impl MapSerializer {
    /// An empty collector.
    pub fn new() -> (r: Self)
        ensures
            r.fields_spec().len() == 0,
            r.current_key_spec() is None,
            r.wf(),
    {
        MapSerializer { fields: Vec::new(), current_key: None }
    }

    /// The entries collected so far.
    pub closed spec fn fields_spec(&self) -> Seq<(String, SExpression)> {
        self.fields@
    }

    /// The key waiting for its value, if any.
    pub closed spec fn current_key_spec(&self) -> Option<Seq<char>> {
        match self.current_key {
            Some(k) => Some(k@),
            None => None,
        }
    }

    /// The collected keys are in ascending order.
    pub closed spec fn wf(&self) -> bool {
        keys_sorted(self.fields@)
    }

    /// Takes the written form of the next key, which has to be an atom.
    pub fn serialize_key(&mut self, key: SExpression) -> (r: Result<(), Error>)
        requires
            old(self).wf(),
        ensures
            final(self).wf(),
            final(self).fields_spec() == old(self).fields_spec(),
            match key {
                SExpression::Value(s) => r is Ok && final(self).current_key_spec() == Some(s@),
                _ => r matches Err(e) && e.message_spec() == "Map key must be a string"@
                    && final(self).current_key_spec() == old(self).current_key_spec(),
            },
    {
        match key {
            SExpression::Value(s) => {
                self.current_key = Some(s);
                Ok(())
            },
            _ => Err(Error::new(owned("Map key must be a string"))),
        }
    }

    /// Stores the written form of a value under the waiting key.
    pub fn serialize_value(&mut self, value: SExpression) -> (r: Result<(), Error>)
        requires
            old(self).wf(),
        ensures
            final(self).wf(),
            final(self).current_key_spec() is None,
            match old(self).current_key_spec() {
                Some(k) => {
                    &&& r is Ok
                    &&& lookup(final(self).fields_spec(), k) == Some(value)
                    &&& forall|o: Seq<char>| o != k ==> #[trigger] lookup(final(self).fields_spec(), o)
                        == lookup(old(self).fields_spec(), o)
                },
                None => r matches Err(e) && e.message_spec()
                    == "serialize_value called before serialize_key"@ && final(self).fields_spec()
                    == old(self).fields_spec(),
            },
    {
        match self.current_key.take() {
            None => Err(Error::new(owned("serialize_value called before serialize_key"))),
            Some(key) => {
                insert_field(&mut self.fields, key, value);
                Ok(())
            },
        }
    }

    /// The anonymous object of all entries.
    pub fn end(self) -> (r: SExpression)
        requires
            self.wf(),
        ensures
            r matches SExpression::Object(n, f) && n is None && f@ == self.fields_spec() && keys_sorted(f@),
    {
        SExpression::Object(None, self.fields)
    }
}

/// Collects the fields of a struct into an object.
pub struct StructSerializer {
    name: Option<String>,
    fields: Fields,
}

/// Whether a struct field names the object it belongs to: its name starts with `(`.
pub open spec fn is_name_field(key: Seq<char>) -> bool {
    key.len() > 0 && key[0] == '('
}

impl StructSerializer {
    /// An empty, anonymous collector.
    pub fn new() -> (r: Self)
        ensures
            r.name_spec() is None,
            r.fields_spec().len() == 0,
            r.wf(),
    {
        StructSerializer { name: None, fields: Vec::new() }
    }

    /// The object name chosen so far.
    pub closed spec fn name_spec(&self) -> Option<Seq<char>> {
        match self.name {
            Some(n) => Some(n@),
            None => None,
        }
    }

    /// The fields collected so far.
    pub closed spec fn fields_spec(&self) -> Seq<(String, SExpression)> {
        self.fields@
    }

    /// The collected keys are in ascending order.
    pub closed spec fn wf(&self) -> bool {
        keys_sorted(self.fields@)
    }

    /// Adds the written form of field `key`. A key `(name` makes `name` the
    /// object's name; when its value is an object, that object's fields
    /// replace the collected ones, otherwise the value is stored under the
    /// key. Any other key stores its value under the key.
    pub fn serialize_field(&mut self, key: &str, value: SExpression)
        requires
            old(self).wf(),
            value matches SExpression::Object(_, f) ==> keys_sorted(f@),
        ensures
            final(self).wf(),
            is_name_field(key@) ==> final(self).name_spec() == Some(key@.drop_first()),
            !is_name_field(key@) ==> final(self).name_spec() == old(self).name_spec(),
            (is_name_field(key@) && value is Object) ==> (value matches SExpression::Object(_, f)
                && final(self).fields_spec() == f@),
            !(is_name_field(key@) && value is Object) ==> {
                &&& lookup(final(self).fields_spec(), key@) == Some(value)
                &&& forall|o: Seq<char>| o != key@ ==> #[trigger] lookup(final(self).fields_spec(), o)
                    == lookup(old(self).fields_spec(), o)
            },
    {
        let kc = chars_of(key);
        if kc.len() > 0 && kc[0] == '(' {
            let mut rest: Vec<char> = Vec::new();
            let mut i: usize = 1;
            while i < kc.len()
                invariant
                    1 <= i <= kc@.len(),
                    rest@ == kc@.subrange(1, i as int),
                decreases kc@.len() - i,
            {
                rest.push(kc[i]);
                i = i + 1;
            }
            assert(rest@ == key@.drop_first());
            self.name = Some(string_from_chars(rest.as_slice()));
            match value {
                SExpression::Object(_, inner) => {
                    self.fields = inner;
                },
                other => {
                    insert_field(&mut self.fields, owned(key), other);
                },
            }
        } else {
            insert_field(&mut self.fields, owned(key), value);
        }
    }

    /// The object of all fields, named if a naming field was written.
    pub fn end(self) -> (r: SExpression)
        requires
            self.wf(),
        ensures
            r matches SExpression::Object(n, f) && f@ == self.fields_spec() && keys_sorted(f@) && match n {
                Some(s) => self.name_spec() == Some(s@),
                None => self.name_spec() is None,
            },
    {
        SExpression::Object(self.name, self.fields)
    }
}

} // verus!
