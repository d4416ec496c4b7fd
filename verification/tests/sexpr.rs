use snxcore::sexpr::de::{parse_number, visit_value, AnyValue, AtomValue, OwnedDeserializer, StructAccess, VariantAccess};
use snxcore::sexpr::ser::{MapSerializer, SeqSerializer, Serializer, StructSerializer};
use snxcore::sexpr::value::SExpression;

fn atom(s: &str) -> SExpression {
    SExpression::Value(s.to_owned())
}

fn atom_text(e: &SExpression) -> &str {
    match e {
        SExpression::Value(s) => s.as_str(),
        _ => panic!("not an atom"),
    }
}

#[test]
fn numbers_are_decimal_or_hex() {
    assert_eq!(parse_number("42"), Some(42));
    assert_eq!(parse_number("0x1f"), Some(31));
    assert_eq!(parse_number("0xFF"), Some(255));
    assert_eq!(parse_number("18446744073709551615"), Some(u64::MAX));
    assert_eq!(parse_number("18446744073709551616"), None);
    assert_eq!(parse_number("-1"), None);
    assert_eq!(parse_number("0x"), None);
    assert_eq!(parse_number(""), None);
    assert_eq!(parse_number("+7"), Some(7));
}

#[test]
fn any_atom_is_a_number_then_a_bool_then_text() {
    assert!(matches!(visit_value("12"), AtomValue::Unsigned(12)));
    assert!(matches!(visit_value("0x10"), AtomValue::Unsigned(16)));
    assert!(matches!(visit_value("true"), AtomValue::Bool(true)));
    assert!(matches!(visit_value("false"), AtomValue::Bool(false)));
    assert!(matches!(visit_value("hello"), AtomValue::Text(t) if t == "hello"));
}

#[test]
fn bool_written_reads_back() {
    for b in [true, false] {
        let e = Serializer.serialize_bool(b);
        assert_eq!(OwnedDeserializer::new(e).deserialize_bool().unwrap(), b);
    }
    let err = OwnedDeserializer::new(atom("yes")).deserialize_bool().unwrap_err();
    assert_eq!(err.message(), "Expected bool, got 'yes'");
    let err = OwnedDeserializer::new(SExpression::Null).deserialize_bool().unwrap_err();
    assert_eq!(err.message(), "Expected bool value");
}

#[test]
fn integers_written_read_back() {
    for v in [0u64, 7, 100, u64::MAX] {
        let e = Serializer.serialize_u64(v);
        assert_eq!(atom_text(&e), v.to_string());
        assert_eq!(OwnedDeserializer::new(e).deserialize_u64().unwrap(), v);
    }
    let e = Serializer.serialize_i64(-15);
    assert_eq!(atom_text(&e), "-15");
    let err = OwnedDeserializer::new(atom("x1")).deserialize_u64().unwrap_err();
    assert_eq!(err.message(), "Expected integer, got 'x1'");
}

#[test]
fn chars_and_strings() {
    let e = Serializer.serialize_char('z');
    assert_eq!(OwnedDeserializer::new(e).deserialize_char().unwrap(), 'z');
    let err = OwnedDeserializer::new(atom("ab")).deserialize_char().unwrap_err();
    assert_eq!(err.message(), "Expected char, got 'ab'");
    let e = Serializer.serialize_str("text");
    assert_eq!(OwnedDeserializer::new(e).deserialize_str().unwrap(), "text");
    let err = OwnedDeserializer::new(SExpression::Null).deserialize_str().unwrap_err();
    assert_eq!(err.message(), "Expected string value");
}

#[test]
fn unit_and_option() {
    assert!(OwnedDeserializer::new(Serializer.serialize_unit()).deserialize_unit().is_ok());
    assert!(OwnedDeserializer::new(Serializer.serialize_unit_struct()).deserialize_unit().is_ok());
    assert!(OwnedDeserializer::new(atom("1")).deserialize_unit().is_err());
    assert!(OwnedDeserializer::new(Serializer.serialize_none()).deserialize_option().is_none());
    assert!(OwnedDeserializer::new(atom("1")).deserialize_option().is_some());
}

#[test]
fn sequences_keep_order() {
    let mut s = SeqSerializer::new(Some(2));
    s.serialize_element(atom("a"));
    s.serialize_element(atom("b"));
    let items = OwnedDeserializer::new(s.end()).deserialize_seq().unwrap();
    assert_eq!(items.len(), 2);
    assert_eq!(atom_text(&items[0]), "a");
    assert_eq!(atom_text(&items[1]), "b");
}

#[test]
fn maps_keep_keys_sorted_and_last_value() {
    let mut m = MapSerializer::new();
    m.serialize_key(atom("b")).unwrap();
    m.serialize_value(atom("1")).unwrap();
    m.serialize_key(atom("a")).unwrap();
    m.serialize_value(atom("2")).unwrap();
    m.serialize_key(atom("b")).unwrap();
    m.serialize_value(atom("3")).unwrap();
    assert!(m.serialize_value(atom("4")).is_err());
    assert!(m.serialize_key(SExpression::Null).is_err());
    let (name, fields) = OwnedDeserializer::new(m.end()).deserialize_map().unwrap();
    assert!(name.is_none());
    assert_eq!(fields.len(), 2);
    assert_eq!(fields[0].0, "a");
    assert_eq!(atom_text(&fields[0].1), "2");
    assert_eq!(fields[1].0, "b");
    assert_eq!(atom_text(&fields[1].1), "3");
}

#[test]
fn named_struct_reads_back_through_its_naming_field() {
    let mut inner = StructSerializer::new();
    inner.serialize_field("id", atom("42"));
    let mut outer = StructSerializer::new();
    outer.serialize_field("(keepalive", inner.end());
    let e = outer.end();
    match &e {
        SExpression::Object(Some(n), f) => {
            assert_eq!(n, "keepalive");
            assert_eq!(f.len(), 1);
            assert_eq!(f[0].0, "id");
        }
        _ => panic!("expected a named object"),
    }
    match OwnedDeserializer::new(e).deserialize_struct(&["(keepalive"]).unwrap() {
        StructAccess::Named { field, fields } => {
            assert_eq!(field, "(keepalive");
            assert_eq!(fields.len(), 1);
            assert_eq!(atom_text(&fields[0].1), "42");
        }
        _ => panic!("expected a named struct"),
    }
}

#[test]
fn struct_with_other_name_is_refused() {
    let e = SExpression::Object(Some("disconnect".to_owned()), Vec::new());
    let err = OwnedDeserializer::new(e).deserialize_struct(&["(keepalive"]);
    match err {
        Err(e) => assert_eq!(e.message(), "Expected object named 'keepalive', got 'disconnect'"),
        Ok(_) => panic!("expected an error"),
    }
    let anon = SExpression::Object(None, Vec::new());
    assert!(matches!(
        OwnedDeserializer::new(anon).deserialize_struct(&["(keepalive"]),
        Ok(StructAccess::Plain { name: None, .. })
    ));
}

#[test]
fn enums_by_atom_or_named_object() {
    let (v, access) = OwnedDeserializer::new(Serializer.serialize_unit_variant("Off")).deserialize_enum().unwrap();
    assert_eq!(v, "Off");
    assert!(access.unit_variant().is_ok());

    let e = SExpression::Object(Some("On".to_owned()), vec![("level".to_owned(), atom("3"))]);
    let (v, access) = OwnedDeserializer::new(e).deserialize_enum().unwrap();
    assert_eq!(v, "On");
    assert!(matches!(access, VariantAccess::Newtype(SExpression::Object(None, _))));
    let (name, fields) = access.struct_variant().unwrap();
    assert!(name.is_none());
    assert_eq!(fields[0].0, "level");

    let anon = SExpression::Object(None, Vec::new());
    assert!(OwnedDeserializer::new(anon).deserialize_enum().is_err());
}

#[test]
fn any_value_follows_the_shape() {
    assert!(matches!(OwnedDeserializer::new(SExpression::Null).deserialize_any(), AnyValue::Unit));
    assert!(matches!(OwnedDeserializer::new(atom("5")).deserialize_any(), AnyValue::Atom(AtomValue::Unsigned(5))));
    assert!(matches!(OwnedDeserializer::new(SExpression::Array(Vec::new())).deserialize_any(), AnyValue::Array(v) if v.is_empty()));
}

#[test]
fn bytes_written_read_back() {
    let e = Serializer.serialize_bytes("héllo".as_bytes());
    assert_eq!(atom_text(&e), "héllo");
    assert_eq!(OwnedDeserializer::new(e).deserialize_bytes().unwrap(), "héllo".as_bytes().to_vec());
    let e = Serializer.serialize_bytes(&[b'a', 0xff]);
    assert_eq!(atom_text(&e), "a\u{fffd}");
    let err = OwnedDeserializer::new(SExpression::Null).deserialize_bytes().unwrap_err();
    assert_eq!(err.message(), "Expected bytes value");
}

#[test]
fn signed_integers_read_unsigned_bits() {
    let e = Serializer.serialize_i64(42);
    assert_eq!(OwnedDeserializer::new(e).deserialize_i64().unwrap(), 42);
    assert_eq!(OwnedDeserializer::new(atom("18446744073709551615")).deserialize_i64().unwrap(), -1);
    let e = Serializer.serialize_i64(-1);
    let err = OwnedDeserializer::new(e).deserialize_i64().unwrap_err();
    assert_eq!(err.message(), "Expected integer, got '-1'");
}
