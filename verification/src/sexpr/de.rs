//! Reading protocol records out of S-expressions: what each kind of field
//! accepts, how atoms are read as numbers and booleans, and how a named
//! object is matched against the struct expecting it.

use vstd::prelude::*;
use crate::number::{decimal, law_decimal_parse_roundtrip, parse_number_chars, signed_decimal, spec_parse_number};
use crate::sexpr::ser::{bool_text, is_atom};
use crate::sexpr::error::Error;
use crate::sexpr::value::{Fields, SExpression};
use crate::text::{chars_of, concat3, owned, str_eq, string_from_chars};

verus! {

/// `Expected <what>, got '<text>'`.
pub open spec fn got_message(what: Seq<char>, text: Seq<char>) -> Seq<char> {
    "Expected "@ + what + ", got '"@ + text + "'"@
}

fn got_error(what: &str, text: &str) -> (r: Error)
    ensures
        r.message_spec() == got_message(what@, text@),
{
    let head = concat3("Expected ", what, ", got '");
    let msg = concat3(head.as_str(), text, "'");
    Error::new(msg)
}

/// How an atom reads as a boolean.
pub open spec fn spec_read_bool(e: SExpression) -> Result<bool, Seq<char>> {
    match e {
        SExpression::Value(s) => if s@ == "true"@ {
            Ok(true)
        } else if s@ == "false"@ {
            Ok(false)
        } else {
            Err(got_message("bool"@, s@))
        },
        _ => Err("Expected bool value"@),
    }
}

/// How an atom reads as an unsigned integer.
pub open spec fn spec_read_u64(e: SExpression) -> Result<u64, Seq<char>> {
    match e {
        SExpression::Value(s) => match spec_parse_number(s@) {
            Some(n) => Ok(n),
            None => Err(got_message("integer"@, s@)),
        },
        _ => Err("Expected integer value"@),
    }
}

/// What an atom holds when nothing more specific is expected: a number,
/// else a boolean, else text.
#[derive(Debug)]
pub enum AtomValue {
    Unsigned(u64),
    Bool(bool),
    Text(String),
}

/// How an atom is read when any value is accepted.
pub open spec fn spec_visit_value(s: Seq<char>) -> (Option<u64>, Option<bool>) {
    match spec_parse_number(s) {
        Some(n) => (Some(n), None),
        None => if s == "true"@ {
            (None, Some(true))
        } else if s == "false"@ {
            (None, Some(false))
        } else {
            (None, None)
        },
    }
}

/// Reads a protocol value as a number: decimal, or hexadecimal after `0x`.
pub fn parse_number(s: &str) -> (r: Option<u64>)
    ensures
        r == spec_parse_number(s@),
{
    let cs = chars_of(s);
    parse_number_chars(cs.as_slice())
}

/// Reads an atom when any value is accepted: numbers first (for JSON
/// compatibility), then booleans, then text.
pub fn visit_value(s: &str) -> (r: AtomValue)
    ensures
        match r {
            AtomValue::Unsigned(n) => spec_visit_value(s@) == (Some(n), None::<bool>),
            AtomValue::Bool(b) => spec_visit_value(s@) == (None::<u64>, Some(b)),
            AtomValue::Text(t) => spec_visit_value(s@) == (None::<u64>, None::<bool>) && t@ == s@,
        },
{
    match parse_number(s) {
        Some(n) => AtomValue::Unsigned(n),
        None => {
            if str_eq(s, "true") {
                AtomValue::Bool(true)
            } else if str_eq(s, "false") {
                AtomValue::Bool(false)
            } else {
                AtomValue::Text(owned(s))
            }
        },
    }
}

/// A value read without a specific expectation.
#[derive(Debug)]
pub enum AnyValue {
    Unit,
    Atom(AtomValue),
    Object(Option<String>, Fields),
    Array(Vec<SExpression>),
}

/// How an enum variant is written: by name alone, or by name with content.
#[derive(Debug)]
pub enum VariantAccess {
    Unit,
    Newtype(SExpression),
}

/// How the fields of a struct are reached.
#[derive(Debug)]
pub enum StructAccess {
    /// The struct wraps a named object: its naming field holds all the object's fields.
    Named { field: String, fields: Fields },
    /// The object's fields are the struct's fields.
    Plain { name: Option<String>, fields: Fields },
}

/// The first field name that starts with `(`, if any.
pub open spec fn first_name_field(names: Seq<&str>) -> Option<int>
    decreases names.len(),
{
    if names.len() == 0 {
        None
    } else if names[0]@.len() > 0 && names[0]@[0] == '(' {
        Some(0)
    } else {
        match first_name_field(names.drop_first()) {
            Some(i) => Some(i + 1),
            None => None,
        }
    }
}

/// How a struct with these field names reads an S-expression: an object is
/// required; when a field name is `(name`, an object named `name` is read
/// through that field, an anonymous object directly, any other name refused.
pub open spec fn spec_struct_access(e: SExpression, names: Seq<&str>) -> Result<(bool, Option<Seq<char>>), Seq<char>> {
    match e {
        SExpression::Object(name, _) => match first_name_field(names) {
            Some(i) => {
                let expected = names[i]@.drop_first();
                match name {
                    Some(n) => if n@ == expected {
                        Ok((true, Some(names[i]@)))
                    } else {
                        Err("Expected object named '"@ + expected + "', got '"@ + n@ + "'"@)
                    },
                    None => Ok((false, None)),
                }
            },
            None => Ok((false, None)),
        },
        _ => Err("Expected object"@),
    }
}

/// The name an object carries, as text.
pub open spec fn object_name(e: SExpression) -> Option<Seq<char>> {
    match e {
        SExpression::Object(Some(n), _) => Some(n@),
        _ => None,
    }
}

/// The fields an object carries.
pub open spec fn object_fields(e: SExpression) -> Seq<(String, SExpression)> {
    match e {
        SExpression::Object(_, f) => f@,
        _ => Seq::empty(),
    }
}

/// How an S-expression names an enum variant: an atom is a unit variant, a
/// named object a variant whose content is the anonymous object of its fields.
pub open spec fn spec_variant(e: SExpression) -> Result<(Seq<char>, bool), Seq<char>> {
    match e {
        SExpression::Value(s) => Ok((s@, false)),
        SExpression::Object(Some(n), _) => Ok((n@, true)),
        SExpression::Object(None, _) => Err("Expected named object for enum variant"@),
        _ => Err("Expected value or object for enum"@),
    }
}

/// A boolean written as an atom reads back as itself.
pub proof fn law_bool_roundtrip(b: bool, e: SExpression)
    requires
        is_atom(e, bool_text(b)),
    ensures
        spec_read_bool(e) == Ok::<bool, Seq<char>>(b),
{
    reveal_strlit("true");
    reveal_strlit("false");
    if let SExpression::Value(s) = e {
        if b {
            assert(s@ == "true"@);
        } else {
            assert(s@ != "true"@) by {
                assert(s@.len() != "true"@.len());
            }
        }
    }
}

/// An unsigned integer written as its decimal numeral reads back as itself.
pub proof fn law_u64_roundtrip(v: u64, e: SExpression)
    requires
        is_atom(e, decimal(v as nat)),
    ensures
        spec_read_u64(e) == Ok::<u64, Seq<char>>(v),
{
    law_decimal_parse_roundtrip(v);
}

/// A non-negative signed integer written as its decimal numeral reads back
/// as itself.
pub proof fn law_i64_roundtrip(v: i64, e: SExpression)
    requires
        v >= 0,
        is_atom(e, signed_decimal(v as int)),
    ensures
        spec_read_u64(e) matches Ok(u) && u as i64 == v,
{
    law_decimal_parse_roundtrip(v as u64);
    assert(signed_decimal(v as int) == decimal(v as nat));
}

/// Valid UTF-8 bytes written as an atom read back as the same bytes.
pub proof fn law_bytes_roundtrip(v: Seq<u8>)
    requires
        vstd::utf8::valid_utf8(v),
    ensures
        vstd::utf8::encode_utf8(crate::codec::lossy_text(v)) == v,
{
    vstd::utf8::decode_utf8_encode_utf8(v);
}

/// A unit enum variant written as the atom of its name is read as that
/// variant, without content.
pub proof fn law_unit_variant_roundtrip(variant: Seq<char>, e: SExpression)
    requires
        is_atom(e, variant),
    ensures
        spec_variant(e) == Ok::<(Seq<char>, bool), Seq<char>>((variant, false)),
{
}

/// An object named `name` is read through the struct field `(name`: the
/// wrapper struct that wrote it reads it back through the same field, and
/// with the same fields.
pub proof fn law_named_object_roundtrip(e: SExpression, names: Seq<&str>, i: int)
    requires
        first_name_field(names) == Some(i),
        0 <= i < names.len(),
        object_name(e) == Some(names[i]@.drop_first()),
    ensures
        spec_struct_access(e, names) == Ok::<(bool, Option<Seq<char>>), Seq<char>>((true, Some(names[i]@))),
{
}

/// Reads a record out of the S-expression it owns.
pub struct OwnedDeserializer {
    input: SExpression,
}

/// Reads a record out of a borrowed S-expression.
pub struct Deserializer;

fn find_name_field(names: &[&str]) -> (r: Option<usize>)
    ensures
        match r {
            Some(i) => first_name_field(names@) == Some(i as int) && i < names@.len()
                && names@[i as int]@.len() > 0 && names@[i as int]@[0] == '(',
            None => first_name_field(names@) is None,
        },
{
    let mut i: usize = 0;
    assert(names@.skip(0) == names@);
    while i < names.len()
        invariant
            i <= names@.len(),
            first_name_field(names@) == match first_name_field(names@.skip(i as int)) {
                Some(j) => Some(j + i),
                None => None::<int>,
            },
        decreases names@.len() - i,
    {
        let cs = chars_of(names[i]);
        assert(names@.skip(i as int)[0] == names@[i as int]);
        if cs.len() > 0 && cs[0] == '(' {
            return Some(i);
        }
        assert(names@.skip(i as int).drop_first() == names@.skip(i + 1));
        i = i + 1;
    }
    assert(names@.skip(i as int).len() == 0);
    None
}

impl OwnedDeserializer {
    /// A reader of `input`.
    pub fn new(input: SExpression) -> (r: Self)
        ensures
            r.input_spec() == input,
    {
        OwnedDeserializer { input }
    }

    /// The S-expression being read.
    pub closed spec fn input_spec(&self) -> SExpression {
        self.input
    }

    /// Reads whatever the S-expression holds: null as unit, atoms by
    /// [`visit_value`], objects as maps, arrays as sequences.
    pub fn deserialize_any(self) -> (r: AnyValue)
        ensures
            match self.input_spec() {
                SExpression::Null => r is Unit,
                SExpression::Value(s) => r matches AnyValue::Atom(a) && match a {
                    AtomValue::Unsigned(n) => spec_visit_value(s@) == (Some(n), None::<bool>),
                    AtomValue::Bool(b) => spec_visit_value(s@) == (None::<u64>, Some(b)),
                    AtomValue::Text(t) => spec_visit_value(s@) == (None::<u64>, None::<bool>) && t@ == s@,
                },
                SExpression::Object(n, f) => r matches AnyValue::Object(n2, f2) && n2 == n && f2 == f,
                SExpression::Array(v) => r matches AnyValue::Array(v2) && v2 == v,
            },
    {
        match self.input {
            SExpression::Null => AnyValue::Unit,
            SExpression::Value(s) => AnyValue::Atom(visit_value(s.as_str())),
            SExpression::Object(name, fields) => AnyValue::Object(name, fields),
            SExpression::Array(items) => AnyValue::Array(items),
        }
    }

    /// Reads a boolean: the atom `true` or `false`.
    pub fn deserialize_bool(self) -> (r: Result<bool, Error>)
        ensures
            match r {
                Ok(b) => spec_read_bool(self.input_spec()) == Ok::<bool, Seq<char>>(b),
                Err(e) => spec_read_bool(self.input_spec()) == Err::<bool, Seq<char>>(e.message_spec()),
            },
    {
        match self.input {
            SExpression::Value(s) => {
                if str_eq(s.as_str(), "true") {
                    Ok(true)
                } else if str_eq(s.as_str(), "false") {
                    Ok(false)
                } else {
                    Err(got_error("bool", s.as_str()))
                }
            },
            _ => Err(Error::new(owned("Expected bool value"))),
        }
    }

    /// Reads an unsigned integer: a decimal or `0x` hexadecimal atom.
    pub fn deserialize_u64(self) -> (r: Result<u64, Error>)
        ensures
            match r {
                Ok(n) => spec_read_u64(self.input_spec()) == Ok::<u64, Seq<char>>(n),
                Err(e) => spec_read_u64(self.input_spec()) == Err::<u64, Seq<char>>(e.message_spec()),
            },
    {
        match self.input {
            SExpression::Value(s) => match parse_number(s.as_str()) {
                Some(n) => Ok(n),
                None => Err(got_error("integer", s.as_str())),
            },
            _ => Err(Error::new(owned("Expected integer value"))),
        }
    }

    /// Reads a signed integer: the unsigned reading of the atom, taken as
    /// the `i64` with the same bits.
    pub fn deserialize_i64(self) -> (r: Result<i64, Error>)
        ensures
            match r {
                Ok(n) => spec_read_u64(self.input_spec()) matches Ok(u) && n == u as i64,
                Err(e) => spec_read_u64(self.input_spec()) == Err::<u64, Seq<char>>(e.message_spec()),
            },
    {
        match self.deserialize_u64() {
            Ok(u) => Ok(u as i64),
            Err(e) => Err(e),
        }
    }

    /// Reads text: the atom's characters.
    pub fn deserialize_str(self) -> (r: Result<String, Error>)
        ensures
            match self.input_spec() {
                SExpression::Value(s) => r matches Ok(t) && t@ == s@,
                _ => r matches Err(e) && e.message_spec() == "Expected string value"@,
            },
    {
        match self.input {
            SExpression::Value(s) => Ok(s),
            _ => Err(Error::new(owned("Expected string value"))),
        }
    }

    /// Reads bytes: the UTF-8 encoding of an atom's text.
    pub fn deserialize_bytes(self) -> (r: Result<Vec<u8>, Error>)
        ensures
            match self.input_spec() {
                SExpression::Value(s) => r matches Ok(b) && b@ == vstd::utf8::encode_utf8(s@),
                _ => r matches Err(e) && e.message_spec() == "Expected bytes value"@,
            },
    {
        match self.input {
            SExpression::Value(s) => {
                let text = s.as_str().as_bytes();
                let mut b: Vec<u8> = Vec::new();
                let mut i: usize = 0;
                while i < text.len()
                    invariant
                        i <= text@.len(),
                        b@ == text@.take(i as int),
                    decreases text@.len() - i,
                {
                    b.push(text[i]);
                    assert(text@.take(i + 1) == text@.take(i as int).push(text@[i as int]));
                    i = i + 1;
                }
                assert(text@.take(text@.len() as int) == text@);
                Ok(b)
            },
            _ => Err(Error::new(owned("Expected bytes value"))),
        }
    }

    /// Reads a character: an atom of exactly one byte.
    pub fn deserialize_char(self) -> (r: Result<char, Error>)
        ensures
            match self.input_spec() {
                SExpression::Value(s) => if s@.len() == 1 && (s@[0] as u32) < 0x80 {
                    r matches Ok(c) && c == s@[0]
                } else {
                    r matches Err(e) && e.message_spec() == got_message("char"@, s@)
                },
                _ => r matches Err(e) && e.message_spec() == "Expected char value"@,
            },
    {
        match self.input {
            SExpression::Value(s) => {
                let cs = chars_of(s.as_str());
                if cs.len() == 1 && (cs[0] as u32) < 0x80 {
                    Ok(cs[0])
                } else {
                    Err(got_error("char", s.as_str()))
                }
            },
            _ => Err(Error::new(owned("Expected char value"))),
        }
    }

    /// Reads an option: null is absent, anything else is present.
    pub fn deserialize_option(self) -> (r: Option<OwnedDeserializer>)
        ensures
            self.input_spec() is Null ==> r is None,
            !(self.input_spec() is Null) ==> (r matches Some(d) && d.input_spec() == self.input_spec()),
    {
        match self.input {
            SExpression::Null => None,
            other => Some(OwnedDeserializer { input: other }),
        }
    }

    /// Reads the unit value: null, or an object without fields.
    pub fn deserialize_unit(self) -> (r: Result<(), Error>)
        ensures
            r is Ok <==> (self.input_spec() is Null || (self.input_spec() is Object && object_fields(
                self.input_spec(),
            ).len() == 0)),
            r matches Err(e) ==> e.message_spec() == "Expected unit"@,
    {
        match self.input {
            SExpression::Null => Ok(()),
            SExpression::Object(_, fields) => {
                if fields.len() == 0 {
                    Ok(())
                } else {
                    Err(Error::new(owned("Expected unit")))
                }
            },
            _ => Err(Error::new(owned("Expected unit"))),
        }
    }

    /// Reads a sequence: the items of an array.
    pub fn deserialize_seq(self) -> (r: Result<Vec<SExpression>, Error>)
        ensures
            match self.input_spec() {
                SExpression::Array(v) => r matches Ok(items) && items == v,
                _ => r matches Err(e) && e.message_spec() == "Expected array"@,
            },
    {
        match self.input {
            SExpression::Array(items) => Ok(items),
            _ => Err(Error::new(owned("Expected array"))),
        }
    }

    /// Reads a map: the name and fields of an object.
    pub fn deserialize_map(self) -> (r: Result<(Option<String>, Fields), Error>)
        ensures
            match self.input_spec() {
                SExpression::Object(n, f) => r matches Ok(m) && m.0 == n && m.1 == f,
                _ => r matches Err(e) && e.message_spec() == "Expected object"@,
            },
    {
        match self.input {
            SExpression::Object(name, fields) => Ok((name, fields)),
            _ => Err(Error::new(owned("Expected object"))),
        }
    }

    /// Reads a struct whose fields are named `field_names`.
    pub fn deserialize_struct(self, field_names: &[&str]) -> (r: Result<StructAccess, Error>)
        ensures
            match r {
                Ok(StructAccess::Named { field, fields }) => spec_struct_access(self.input_spec(), field_names@)
                    == Ok::<(bool, Option<Seq<char>>), Seq<char>>((true, Some(field@)))
                    && fields@ == object_fields(self.input_spec()),
                Ok(StructAccess::Plain { name, fields }) => spec_struct_access(self.input_spec(), field_names@)
                    == Ok::<(bool, Option<Seq<char>>), Seq<char>>((false, None))
                    && fields@ == object_fields(self.input_spec())
                    && (self.input_spec() matches SExpression::Object(n, _) && n == name),
                Err(e) => spec_struct_access(self.input_spec(), field_names@)
                    == Err::<(bool, Option<Seq<char>>), Seq<char>>(e.message_spec()),
            },
    {
        match self.input {
            SExpression::Object(name, obj_fields) => {
                match find_name_field(field_names) {
                    Some(i) => {
                        let field_name = field_names[i];
                        let fc = chars_of(field_name);
                        let mut rest: Vec<char> = Vec::new();
                        let mut k: usize = 1;
                        while k < fc.len()
                            invariant
                                1 <= k <= fc@.len(),
                                rest@ == fc@.subrange(1, k as int),
                            decreases fc@.len() - k,
                        {
                            rest.push(fc[k]);
                            k = k + 1;
                        }
                        assert(rest@ == field_name@.drop_first());
                        let expected = string_from_chars(rest.as_slice());
                        match name {
                            Some(n) => {
                                if str_eq(n.as_str(), expected.as_str()) {
                                    Ok(StructAccess::Named { field: owned(field_name), fields: obj_fields })
                                } else {
                                    let head = concat3("Expected object named '", expected.as_str(), "', got '");
                                    let msg = concat3(head.as_str(), n.as_str(), "'");
                                    Err(Error::new(msg))
                                }
                            },
                            None => Ok(StructAccess::Plain { name: None, fields: obj_fields }),
                        }
                    },
                    None => Ok(StructAccess::Plain { name, fields: obj_fields }),
                }
            },
            _ => Err(Error::new(owned("Expected object"))),
        }
    }

    /// Reads which enum variant is written: an atom names a unit variant, a
    /// named object a variant with content.
    pub fn deserialize_enum(self) -> (r: Result<(String, VariantAccess), Error>)
        ensures
            match r {
                Ok((v, VariantAccess::Unit)) => spec_variant(self.input_spec()) == Ok::<
                    (Seq<char>, bool),
                    Seq<char>,
                >((v@, false)),
                Ok((v, VariantAccess::Newtype(c))) => spec_variant(self.input_spec()) == Ok::<
                    (Seq<char>, bool),
                    Seq<char>,
                >((v@, true)) && (c matches SExpression::Object(cn, cf) && cn is None && cf@ == object_fields(
                    self.input_spec(),
                )),
                Err(e) => spec_variant(self.input_spec()) == Err::<(Seq<char>, bool), Seq<char>>(
                    e.message_spec(),
                ),
            },
    {
        match self.input {
            SExpression::Value(s) => Ok((s, VariantAccess::Unit)),
            SExpression::Object(name, fields) => match name {
                Some(n) => Ok((n, VariantAccess::Newtype(SExpression::Object(None, fields)))),
                None => Err(Error::new(owned("Expected named object for enum variant"))),
            },
            _ => Err(Error::new(owned("Expected value or object for enum"))),
        }
    }
}

impl VariantAccess {
    /// A unit variant has no content.
    pub fn unit_variant(self) -> (r: Result<(), Error>)
        ensures
            r is Ok <==> self is Unit,
            r matches Err(e) ==> e.message_spec() == "Expected unit variant"@,
    {
        match self {
            VariantAccess::Unit => Ok(()),
            _ => Err(Error::new(owned("Expected unit variant"))),
        }
    }

    /// A newtype variant's content is read as a whole.
    pub fn newtype_variant(self) -> (r: Result<OwnedDeserializer, Error>)
        ensures
            match self {
                VariantAccess::Newtype(e) => r matches Ok(d) && d.input_spec() == e,
                VariantAccess::Unit => r matches Err(e) && e.message_spec() == "Expected newtype variant"@,
            },
    {
        match self {
            VariantAccess::Newtype(expr) => Ok(OwnedDeserializer::new(expr)),
            VariantAccess::Unit => Err(Error::new(owned("Expected newtype variant"))),
        }
    }

    /// A tuple variant's content is an array.
    pub fn tuple_variant(self) -> (r: Result<Vec<SExpression>, Error>)
        ensures
            match self {
                VariantAccess::Newtype(SExpression::Array(v)) => r matches Ok(items) && items == v,
                _ => r matches Err(e) && e.message_spec() == "Expected tuple variant"@,
            },
    {
        match self {
            VariantAccess::Newtype(expr) => {
                if let SExpression::Array(items) = expr {
                    Ok(items)
                } else {
                    Err(Error::new(owned("Expected tuple variant")))
                }
            },
            _ => Err(Error::new(owned("Expected tuple variant"))),
        }
    }

    /// A struct variant's content is an object.
    pub fn struct_variant(self) -> (r: Result<(Option<String>, Fields), Error>)
        ensures
            match self {
                VariantAccess::Newtype(SExpression::Object(n, f)) => r matches Ok(m) && m.0 == n && m.1 == f,
                _ => r matches Err(e) && e.message_spec() == "Expected struct variant"@,
            },
    {
        match self {
            VariantAccess::Newtype(expr) => {
                if let SExpression::Object(name, fields) = expr {
                    Ok((name, fields))
                } else {
                    Err(Error::new(owned("Expected struct variant")))
                }
            },
            _ => Err(Error::new(owned("Expected struct variant"))),
        }
    }
}

} // verus!
