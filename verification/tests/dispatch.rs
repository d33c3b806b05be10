use ecma_de::ast::{Element, Entry, Key, Literal, Node, Number, Property, Span};
use ecma_de::de::{Any, Deserializer, EnumTag};
use ecma_de::error::{Error, Mismatch, Unexpected};
use std::borrow::Cow;

fn num(text: &str, value: f64) -> Node {
    Node::Literal(Literal::Num(Number { value: value.to_bits(), raw: Some(text.to_string()) }))
}

fn text(s: &str) -> Node {
    Node::Literal(Literal::Str(s.to_string()))
}

fn boolean(b: bool) -> Node {
    Node::Literal(Literal::Bool(b))
}

fn null() -> Node {
    Node::Literal(Literal::Null)
}

fn ident(s: &str) -> Node {
    Node::Ident(s.to_string())
}

fn array(items: Vec<Node>) -> Node {
    Node::Array(items.into_iter().map(|n| Some(Element { spread: false, expr: Box::new(n) })).collect())
}

fn object(members: Vec<(&str, Node)>) -> Node {
    Node::Object(
        members
            .into_iter()
            .map(|(k, v)| Entry::Property(Box::new(Property::KeyValue(Key::Ident(k.to_string()), Box::new(v)))))
            .collect(),
    )
}

fn unsupported() -> Node {
    Node::Unsupported(Span { lo: 3, hi: 9 })
}

fn big_integer() -> Node {
    Node::Literal(Literal::BigInt("10".to_string()))
}

fn regex() -> Node {
    Node::Literal(Literal::Regex("ab+c".to_string(), "g".to_string()))
}

fn jsx_text() -> Node {
    Node::Literal(Literal::JsxText(" hi ".to_string()))
}

fn computed_key() -> Key {
    Key::Computed(Span { lo: 2, hi: 5 })
}

fn other_property() -> Property {
    Property::Other(Span { lo: 2, hi: 8 })
}

fn invalid_type(unexpected: Unexpected, expected: &str) -> Error {
    Error::Serde(Mismatch::InvalidType { unexpected, expected: expected.to_string() })
}

fn lent(node: &Node) -> Deserializer<'_> {
    Deserializer::borrowed(node)
}

fn moved(node: &Node) -> Deserializer<'static> {
    Deserializer::owned(node.clone())
}

fn samples() -> Vec<Node> {
    vec![
        boolean(true),
        boolean(false),
        null(),
        num("5", 5.0),
        num("300", 300.0),
        num("-1", -1.0),
        num("2.5", 2.5),
        num("1e400", f64::INFINITY),
        text(""),
        text("a"),
        text("\u{e9}"),
        text("hey"),
        ident("Orange"),
        big_integer(),
        regex(),
        jsx_text(),
        unsupported(),
        array(vec![]),
        array(vec![boolean(true), num("1", 1.0)]),
        Node::Array(vec![None]),
        object(vec![]),
        object(vec![("a", num("1", 1.0))]),
        object(vec![("a", num("1", 1.0)), ("b", null())]),
        Node::Object(vec![Entry::Spread(Box::new(ident("x")))]),
        Node::Object(vec![Entry::Property(Box::new(Property::Shorthand("x".to_string())))]),
        Node::Object(vec![Entry::Property(Box::new(other_property()))]),
        Node::Object(vec![Entry::Property(Box::new(Property::KeyValue(computed_key(), Box::new(null()))))]),
    ]
}

#[test]
fn a_boolean_satisfies_only_the_boolean_shape() {
    let node = boolean(true);
    assert_eq!(lent(&node).deserialize_bool(), Ok(true));
    assert_eq!(lent(&boolean(false)).deserialize_bool(), Ok(false));
    assert_eq!(
        lent(&node).deserialize_str(),
        Err(invalid_type(Unexpected::Bool(true), "string"))
    );
    assert_eq!(lent(&node).deserialize_u8(), Err(invalid_type(Unexpected::Bool(true), "u8")));
    assert_eq!(lent(&node).deserialize_f64(), Err(invalid_type(Unexpected::Bool(true), "f64")));
    assert_eq!(lent(&node).deserialize_f32(), Err(invalid_type(Unexpected::Bool(true), "f32")));
    assert_eq!(
        lent(&node).deserialize_char(),
        Err(invalid_type(Unexpected::Bool(true), "character"))
    );
    assert_eq!(
        lent(&node).deserialize_bytes(),
        Err(invalid_type(Unexpected::Bool(true), "bytes"))
    );
    assert_eq!(lent(&node).deserialize_unit(), Err(invalid_type(Unexpected::Bool(true), "null")));
    assert!(matches!(
        lent(&node).deserialize_enum(),
        Err(e) if e == invalid_type(Unexpected::Bool(true), "enumeration")
    ));
    assert!(matches!(
        lent(&node).deserialize_seq(),
        Err(e) if e == invalid_type(Unexpected::Bool(true), "sequence")
    ));
    assert!(matches!(
        lent(&node).deserialize_map(),
        Err(e) if e == invalid_type(Unexpected::Bool(true), "map")
    ));
}

#[test]
fn what_is_no_boolean_fails_the_boolean_shape() {
    assert_eq!(lent(&null()).deserialize_bool(), Err(invalid_type(Unexpected::Null, "boolean")));
    assert_eq!(
        lent(&text("x")).deserialize_bool(),
        Err(invalid_type(Unexpected::Str("x".to_string()), "boolean"))
    );
    assert_eq!(
        lent(&num("5", 5.0)).deserialize_bool(),
        Err(invalid_type(Unexpected::Signed(5), "boolean"))
    );
    assert_eq!(
        lent(&num("5.5", 5.5)).deserialize_bool(),
        Err(invalid_type(Unexpected::Float(5.5f64.to_bits()), "boolean"))
    );
    assert_eq!(
        lent(&num("18446744073709549568", 18446744073709549568.0)).deserialize_bool(),
        Err(invalid_type(Unexpected::Unsigned(18446744073709549568), "boolean"))
    );
    let huge = Number { value: 1e30f64.to_bits(), raw: Some("1e30".to_string()) };
    assert_eq!(
        lent(&Node::Literal(Literal::Num(huge.clone()))).deserialize_bool(),
        Err(Error::InvalidNumber(huge))
    );
    assert_eq!(lent(&array(vec![])).deserialize_bool(), Err(invalid_type(Unexpected::Array, "boolean")));
    assert_eq!(lent(&object(vec![])).deserialize_bool(), Err(invalid_type(Unexpected::Object, "boolean")));
    assert_eq!(lent(&ident("x")).deserialize_bool(), Err(Error::UnexpectedExpr(ident("x"))));
    assert_eq!(lent(&unsupported()).deserialize_bool(), Err(Error::UnexpectedExpr(unsupported())));
    assert_eq!(lent(&big_integer()).deserialize_bool(), Err(Error::UnexpectedBigInt("10".to_string())));
    assert_eq!(
        lent(&regex()).deserialize_bool(),
        Err(Error::UnexpectedRegex("ab+c".to_string(), "g".to_string()))
    );
    assert_eq!(lent(&jsx_text()).deserialize_bool(), Err(Error::UnexpectedJsxText(" hi ".to_string())));
}

#[test]
fn integers_of_every_width() {
    let n = num("100", 100.0);
    assert_eq!(lent(&n).deserialize_i8(), Ok(100));
    assert_eq!(lent(&n).deserialize_i16(), Ok(100));
    assert_eq!(lent(&n).deserialize_i32(), Ok(100));
    assert_eq!(lent(&n).deserialize_i64(), Ok(100));
    assert_eq!(lent(&n).deserialize_i128(), Ok(100));
    assert_eq!(lent(&n).deserialize_u8(), Ok(100));
    assert_eq!(lent(&n).deserialize_u16(), Ok(100));
    assert_eq!(lent(&n).deserialize_u32(), Ok(100));
    assert_eq!(lent(&n).deserialize_u64(), Ok(100));
    assert_eq!(lent(&n).deserialize_u128(), Ok(100));
}

#[test]
fn an_integer_out_of_range_names_the_literal_and_the_width() {
    assert_eq!(lent(&num("128", 128.0)).deserialize_i8(), Err(invalid_type(Unexpected::Signed(128), "i8")));
    assert_eq!(lent(&num("-129", -129.0)).deserialize_i8(), Err(invalid_type(Unexpected::Signed(-129), "i8")));
    assert_eq!(lent(&num("256", 256.0)).deserialize_u8(), Err(invalid_type(Unexpected::Signed(256), "u8")));
    assert_eq!(lent(&num("-1", -1.0)).deserialize_u8(), Err(invalid_type(Unexpected::Signed(-1), "u8")));
    assert_eq!(lent(&num("40000", 40000.0)).deserialize_i16(), Err(invalid_type(Unexpected::Signed(40000), "i16")));
    assert_eq!(lent(&num("70000", 70000.0)).deserialize_u16(), Err(invalid_type(Unexpected::Signed(70000), "u16")));
    assert_eq!(lent(&num("3e9", 3e9)).deserialize_i32(), Err(invalid_type(Unexpected::Signed(3000000000), "i32")));
    assert_eq!(lent(&num("5e9", 5e9)).deserialize_u32(), Err(invalid_type(Unexpected::Signed(5000000000), "u32")));
    assert_eq!(
        lent(&num("9223372036854775808", 9223372036854775808.0)).deserialize_i64(),
        Err(invalid_type(Unexpected::Unsigned(9223372036854775808), "i64"))
    );
    assert_eq!(lent(&num("-1", -1.0)).deserialize_u64(), Err(invalid_type(Unexpected::Signed(-1), "u64")));
    assert_eq!(lent(&num("-1", -1.0)).deserialize_u128(), Err(invalid_type(Unexpected::Signed(-1), "u128")));
    let huge = Number { value: 1e300f64.to_bits(), raw: Some("1e300".to_string()) };
    assert_eq!(
        lent(&Node::Literal(Literal::Num(huge.clone()))).deserialize_i128(),
        Err(Error::InvalidNumber(huge))
    );
}

#[test]
fn a_decimal_point_fails_every_integer_shape() {
    let n = num("1.0", 1.0);
    let e = |expected: &str| invalid_type(Unexpected::Float(1.0f64.to_bits()), expected);
    assert_eq!(lent(&n).deserialize_i8(), Err(e("i8")));
    assert_eq!(lent(&n).deserialize_i16(), Err(e("i16")));
    assert_eq!(lent(&n).deserialize_i32(), Err(e("i32")));
    assert_eq!(lent(&n).deserialize_i64(), Err(e("i64")));
    assert_eq!(lent(&n).deserialize_i128(), Err(e("i128")));
    assert_eq!(lent(&n).deserialize_u8(), Err(e("u8")));
    assert_eq!(lent(&n).deserialize_u16(), Err(e("u16")));
    assert_eq!(lent(&n).deserialize_u32(), Err(e("u32")));
    assert_eq!(lent(&n).deserialize_u64(), Err(e("u64")));
    assert_eq!(lent(&n).deserialize_u128(), Err(e("u128")));
}

#[test]
fn every_number_is_a_float() {
    assert_eq!(lent(&num("1.5", 1.5)).deserialize_f64().map(f64::from_bits), Ok(1.5));
    assert_eq!(lent(&num("3", 3.0)).deserialize_f64().map(f64::from_bits), Ok(3.0));
    assert_eq!(lent(&num("1.5", 1.5)).deserialize_f32().map(f32::from_bits), Ok(1.5f32));
    assert_eq!(lent(&num("0.1", 0.1)).deserialize_f32().map(f32::from_bits), Ok(0.1f32));
    assert_eq!(lent(&num("1e39", 1e39)).deserialize_f32().map(f32::from_bits), Ok(f32::INFINITY));
    assert_eq!(lent(&num("7", 7.0)).deserialize_f32().map(f32::from_bits), Ok(7.0f32));
    assert_eq!(lent(&text("1")).deserialize_f64(), Err(invalid_type(Unexpected::Str("1".to_string()), "f64")));
    assert_eq!(lent(&null()).deserialize_f32(), Err(invalid_type(Unexpected::Null, "f32")));
}

#[test]
fn strings_and_identifiers_are_strings() {
    assert_eq!(lent(&text("hey")).deserialize_str(), Ok(Cow::Borrowed("hey")));
    assert_eq!(lent(&ident("Orange")).deserialize_str(), Ok(Cow::Borrowed("Orange")));
    assert_eq!(lent(&text("hey")).deserialize_string(), Ok(Cow::Borrowed("hey")));
    assert_eq!(lent(&ident("id")).deserialize_identifier(), Ok(Cow::Borrowed("id")));
    assert_eq!(lent(&num("1", 1.0)).deserialize_str(), Err(invalid_type(Unexpected::Signed(1), "string")));
    assert_eq!(lent(&null()).deserialize_string(), Err(invalid_type(Unexpected::Null, "string")));
    assert_eq!(lent(&array(vec![])).deserialize_identifier(), Err(invalid_type(Unexpected::Array, "string")));
    assert_eq!(lent(&object(vec![])).deserialize_str(), Err(invalid_type(Unexpected::Object, "string")));
}

#[test]
fn a_lent_string_is_lent_on_and_a_moved_one_is_moved_on() {
    let node = text("hey");
    assert!(matches!(lent(&node).deserialize_str(), Ok(Cow::Borrowed("hey"))));
    assert!(matches!(moved(&node).deserialize_str(), Ok(Cow::Owned(s)) if s == "hey"));
    assert!(matches!(lent(&node).deserialize_bytes(), Ok(Cow::Borrowed(b"hey"))));
    assert!(matches!(moved(&node).deserialize_bytes(), Ok(Cow::Owned(b)) if b == b"hey"));
}

#[test]
fn a_string_of_one_character_is_a_character() {
    assert_eq!(lent(&text("a")).deserialize_char(), Ok('a'));
    assert_eq!(lent(&text("\u{4e2d}")).deserialize_char(), Ok('\u{4e2d}'));
    assert_eq!(
        lent(&text("")).deserialize_char(),
        Err(Error::Serde(Mismatch::InvalidValue {
            unexpected: Unexpected::Str("".to_string()),
            expected: "character".to_string()
        }))
    );
    assert_eq!(
        lent(&text("ab")).deserialize_char(),
        Err(Error::Serde(Mismatch::InvalidValue {
            unexpected: Unexpected::Str("ab".to_string()),
            expected: "character".to_string()
        }))
    );
    assert_eq!(lent(&ident("a")).deserialize_char(), Err(Error::UnexpectedExpr(ident("a"))));
    assert_eq!(lent(&null()).deserialize_char(), Err(invalid_type(Unexpected::Null, "character")));
}

#[test]
fn a_string_is_its_bytes() {
    assert_eq!(lent(&text("hey")).deserialize_bytes(), Ok(Cow::Borrowed(&b"hey"[..])));
    assert_eq!(lent(&text("\u{e9}")).deserialize_byte_buf(), Ok(Cow::Borrowed(&[0xc3u8, 0xa9][..])));
    assert_eq!(lent(&text("")).deserialize_bytes(), Ok(Cow::Borrowed(&b""[..])));
    assert_eq!(lent(&ident("hey")).deserialize_bytes(), Err(Error::UnexpectedExpr(ident("hey"))));
    assert_eq!(lent(&num("1", 1.0)).deserialize_byte_buf(), Err(invalid_type(Unexpected::Signed(1), "bytes")));
}

#[test]
fn null_is_the_unit_and_the_absent_option() {
    assert_eq!(lent(&null()).deserialize_unit(), Ok(()));
    assert_eq!(lent(&null()).deserialize_unit_struct(), Ok(()));
    assert!(lent(&null()).deserialize_option().is_none());
    assert_eq!(lent(&boolean(true)).deserialize_unit_struct(), Err(invalid_type(Unexpected::Bool(true), "null")));
    assert_eq!(lent(&array(vec![])).deserialize_unit(), Err(invalid_type(Unexpected::Array, "null")));
    let present = num("123", 123.0);
    let inner = lent(&present).deserialize_option().unwrap();
    assert_eq!(inner.deserialize_u64(), Ok(123));
    let inner = moved(&unsupported()).deserialize_option().unwrap();
    assert_eq!(inner.deserialize_bool(), Err(Error::UnexpectedExpr(unsupported())));
}

#[test]
fn a_newtype_struct_is_what_it_wraps() {
    assert_eq!(lent(&num("7", 7.0)).deserialize_newtype_struct().deserialize_u8(), Ok(7));
    assert_eq!(moved(&text("x")).deserialize_newtype_struct().deserialize_char(), Ok('x'));
}

#[test]
fn the_dispatcher_is_human_readable() {
    assert!(lent(&null()).is_human_readable());
    assert!(moved(&null()).is_human_readable());
}

#[test]
fn arrays_are_sequences_and_tuples() {
    let node = array(vec![boolean(true), boolean(false)]);
    for mut seq in [
        lent(&node).deserialize_seq().unwrap(),
        lent(&node).deserialize_tuple().unwrap(),
        moved(&node).deserialize_tuple_struct().unwrap(),
    ] {
        assert_eq!(seq.size_hint(), Some(2));
        assert_eq!(seq.next_element().unwrap().unwrap().deserialize_bool(), Ok(true));
        assert_eq!(seq.next_element().unwrap().unwrap().deserialize_bool(), Ok(false));
        assert!(seq.next_element().unwrap().is_none());
    }
    for de in [lent(&object(vec![])), moved(&object(vec![]))] {
        assert!(matches!(de.deserialize_seq(), Err(e) if e == invalid_type(Unexpected::Object, "sequence")));
    }
    assert!(matches!(moved(&null()).deserialize_tuple(), Err(e) if e == invalid_type(Unexpected::Null, "sequence")));
    assert!(matches!(
        lent(&num("1", 1.0)).deserialize_tuple_struct(),
        Err(e) if e == invalid_type(Unexpected::Signed(1), "sequence")
    ));
    assert!(matches!(lent(&ident("x")).deserialize_seq(), Err(Error::UnexpectedExpr(n)) if n == ident("x")));
    assert!(matches!(
        lent(&regex()).deserialize_seq(),
        Err(Error::UnexpectedRegex(exp, flags)) if exp == "ab+c" && flags == "g"
    ));
}

#[test]
fn objects_are_maps_and_structs() {
    let node = object(vec![("a", num("1", 1.0))]);
    for mut map in [
        lent(&node).deserialize_map().unwrap(),
        moved(&node).deserialize_struct().unwrap(),
    ] {
        assert_eq!(map.size_hint(), Some(1));
        assert_eq!(map.next_key().unwrap().as_deref(), Some("a"));
        assert_eq!(map.next_value().unwrap().deserialize_u8(), Ok(1));
        assert!(map.next_key().unwrap().is_none());
    }
    for de in [lent(&array(vec![])), moved(&array(vec![]))] {
        assert!(matches!(de.deserialize_map(), Err(e) if e == invalid_type(Unexpected::Array, "map")));
    }
    assert!(matches!(
        moved(&text("x")).deserialize_struct(),
        Err(e) if e == invalid_type(Unexpected::Str("x".to_string()), "map")
    ));
    assert!(matches!(lent(&null()).deserialize_map(), Err(e) if e == invalid_type(Unexpected::Null, "map")));
    assert!(matches!(
        lent(&unsupported()).deserialize_map(),
        Err(Error::UnexpectedExpr(n)) if n == unsupported()
    ));
}

#[test]
fn the_node_decides_where_the_shape_is_open() {
    assert!(matches!(lent(&boolean(true)).deserialize_any(), Ok(Any::Bool(true))));
    assert!(matches!(lent(&null()).deserialize_any(), Ok(Any::Null)));
    assert!(matches!(lent(&num("7", 7.0)).deserialize_any(), Ok(Any::Signed(7))));
    assert!(matches!(lent(&num("-7", -7.0)).deserialize_any(), Ok(Any::Signed(-7))));
    assert!(matches!(lent(&num("7.0", 7.0)).deserialize_any(), Ok(Any::Float(b)) if f64::from_bits(b) == 7.0));
    assert!(matches!(lent(&text("s")).deserialize_any(), Ok(Any::Str(s)) if s == "s"));
    assert!(matches!(lent(&ident("s")).deserialize_any(), Ok(Any::Str(s)) if s == "s"));
    assert!(matches!(lent(&array(vec![null()])).deserialize_any(), Ok(Any::Array(seq)) if seq.size_hint() == Some(1)));
    assert!(matches!(lent(&object(vec![])).deserialize_any(), Ok(Any::Object(map)) if map.size_hint() == Some(0)));
    assert!(matches!(
        lent(&num("1e19", 1e19)).deserialize_any(),
        Err(e) if e == invalid_type(Unexpected::Unsigned(10000000000000000000), "i64")
    ));
    for node in [
        big_integer(),
        regex(),
        jsx_text(),
        unsupported(),
    ] {
        assert!(matches!(lent(&node).deserialize_any(), Err(Error::UnexpectedExpr(n)) if n == node));
        assert!(matches!(moved(&node).deserialize_any(), Err(Error::UnexpectedExpr(n)) if n == node));
    }
}

#[test]
fn a_bare_string_or_identifier_is_an_enum_tag() {
    assert!(matches!(lent(&text("Orange")).deserialize_enum(), Ok(EnumTag::Str(s)) if s == "Orange"));
    assert!(matches!(lent(&ident("Orange")).deserialize_enum(), Ok(EnumTag::Ident(s)) if s == "Orange"));
    assert!(matches!(moved(&text("Orange")).deserialize_enum(), Ok(EnumTag::Str(Cow::Owned(s))) if s == "Orange"));
    assert!(matches!(moved(&ident("Orange")).deserialize_enum(), Ok(EnumTag::Ident(Cow::Owned(s))) if s == "Orange"));
}

#[test]
fn an_object_of_one_entry_is_an_enum_tag_with_its_payload() {
    let node = object(vec![("Pear", object(vec![("name", text("+?*"))]))]);
    for de in [lent(&node), moved(&node)] {
        match de.deserialize_enum() {
            Ok(EnumTag::Keyed(access)) => {
                assert_eq!(access.variant(), "Pear");
                let mut map = access.struct_variant().unwrap();
                assert_eq!(map.next_key().unwrap().as_deref(), Some("name"));
                assert_eq!(map.next_value().unwrap().deserialize_str().unwrap(), "+?*");
            }
            _ => panic!(),
        }
    }
    let quoted = Node::Object(vec![Entry::Property(Box::new(Property::KeyValue(
        Key::Str("Some".to_string()),
        Box::new(num("1", 1.0)),
    )))]);
    match lent(&quoted).deserialize_enum() {
        Ok(EnumTag::Keyed(access)) => {
            assert_eq!(access.variant(), "Some");
            assert_eq!(access.newtype_variant().deserialize_u8(), Ok(1));
        }
        _ => panic!(),
    }
}

#[test]
fn an_object_of_no_entry_or_of_several_is_no_enum_tag() {
    let length = |len: usize| Error::Serde(Mismatch::InvalidLength { len, expected: "1".to_string() });
    let none = object(vec![]);
    let two = object(vec![("a", null()), ("b", null())]);
    let three = object(vec![("a", null()), ("b", null()), ("c", null())]);
    assert!(matches!(lent(&none).deserialize_enum(), Err(e) if e == length(0)));
    assert!(matches!(moved(&none).deserialize_enum(), Err(e) if e == length(0)));
    assert!(matches!(lent(&two).deserialize_enum(), Err(e) if e == length(2)));
    assert!(matches!(moved(&two).deserialize_enum(), Err(e) if e == length(2)));
    assert!(matches!(lent(&three).deserialize_enum(), Err(e) if e == length(3)));
    assert!(matches!(moved(&three).deserialize_enum(), Err(e) if e == length(3)));
}

#[test]
fn an_entry_that_is_no_plain_pair_is_no_enum_tag() {
    let spread = Node::Object(vec![Entry::Spread(Box::new(ident("x")))]);
    let shorthand = Node::Object(vec![Entry::Property(Box::new(Property::Shorthand("x".to_string())))]);
    let method = Node::Object(vec![Entry::Property(Box::new(other_property()))]);
    let keyed = Node::Object(vec![Entry::Property(Box::new(Property::KeyValue(computed_key(), Box::new(null()))))]);
    for de in [lent(&spread), moved(&spread)] {
        assert!(matches!(de.deserialize_enum(), Err(Error::UnexpectedSpread(x)) if *x == ident("x")));
    }
    for de in [lent(&shorthand), moved(&shorthand)] {
        assert!(matches!(
            de.deserialize_enum(),
            Err(Error::UnexpectedProp(p)) if *p == Property::Shorthand("x".to_string())
        ));
    }
    for de in [lent(&method), moved(&method)] {
        assert!(matches!(de.deserialize_enum(), Err(Error::UnexpectedProp(p)) if *p == other_property()));
    }
    for de in [lent(&keyed), moved(&keyed)] {
        assert!(matches!(de.deserialize_enum(), Err(Error::InvalidObjectKey(key)) if key == computed_key()));
    }
}

#[test]
fn what_is_no_tag_fails_the_enum_shape() {
    assert!(matches!(lent(&null()).deserialize_enum(), Err(e) if e == invalid_type(Unexpected::Null, "enumeration")));
    assert!(matches!(lent(&num("1", 1.0)).deserialize_enum(), Err(e) if e == invalid_type(Unexpected::Signed(1), "enumeration")));
    assert!(matches!(lent(&array(vec![])).deserialize_enum(), Err(e) if e == invalid_type(Unexpected::Array, "enumeration")));
    assert!(matches!(lent(&unsupported()).deserialize_enum(), Err(Error::UnexpectedExpr(n)) if n == unsupported()));
    assert!(matches!(
        lent(&regex()).deserialize_enum(),
        Err(Error::UnexpectedRegex(exp, flags)) if exp == "ab+c" && flags == "g"
    ));
}

#[test]
fn a_keyed_variant_is_never_a_unit() {
    for payload in [null(), object(vec![]), array(vec![]), text("x")] {
        let node = object(vec![("Orange", payload.clone())]);
        for de in [lent(&node), moved(&node)] {
            match de.deserialize_enum() {
                Ok(EnumTag::Keyed(access)) => {
                    assert_eq!(access.unit_variant(), Err(Error::UnexpectedExpr(payload.clone())))
                }
                _ => panic!(),
            }
        }
    }
}

#[test]
fn a_keyed_variant_reads_its_payload_as_the_target_asks() {
    let node = object(vec![("V", array(vec![num("1", 1.0), num("2", 2.0)]))]);
    for de in [lent(&node), moved(&node)] {
        match de.deserialize_enum() {
            Ok(EnumTag::Keyed(access)) => {
                let mut seq = access.tuple_variant().unwrap();
                assert_eq!(seq.next_element().unwrap().unwrap().deserialize_u8(), Ok(1));
                assert_eq!(seq.next_element().unwrap().unwrap().deserialize_u8(), Ok(2));
                assert!(seq.next_element().unwrap().is_none());
            }
            _ => panic!(),
        }
    }
    match lent(&node).deserialize_enum() {
        Ok(EnumTag::Keyed(access)) => assert!(matches!(
            access.struct_variant(),
            Err(e) if e == invalid_type(Unexpected::Array, "map")
        )),
        _ => panic!(),
    }
    let scalar = object(vec![("V", num("1", 1.0))]);
    match moved(&scalar).deserialize_enum() {
        Ok(EnumTag::Keyed(access)) => assert!(matches!(
            access.tuple_variant(),
            Err(e) if e == invalid_type(Unexpected::Signed(1), "sequence")
        )),
        _ => panic!(),
    }
}

#[test]
fn lent_and_moved_trees_give_the_same_outcome_for_every_shape() {
    for node in samples() {
        assert_eq!(lent(&node).deserialize_bool(), moved(&node).deserialize_bool());
        assert_eq!(lent(&node).deserialize_i8(), moved(&node).deserialize_i8());
        assert_eq!(lent(&node).deserialize_i16(), moved(&node).deserialize_i16());
        assert_eq!(lent(&node).deserialize_i32(), moved(&node).deserialize_i32());
        assert_eq!(lent(&node).deserialize_i64(), moved(&node).deserialize_i64());
        assert_eq!(lent(&node).deserialize_i128(), moved(&node).deserialize_i128());
        assert_eq!(lent(&node).deserialize_u8(), moved(&node).deserialize_u8());
        assert_eq!(lent(&node).deserialize_u16(), moved(&node).deserialize_u16());
        assert_eq!(lent(&node).deserialize_u32(), moved(&node).deserialize_u32());
        assert_eq!(lent(&node).deserialize_u64(), moved(&node).deserialize_u64());
        assert_eq!(lent(&node).deserialize_u128(), moved(&node).deserialize_u128());
        assert_eq!(lent(&node).deserialize_f32(), moved(&node).deserialize_f32());
        assert_eq!(lent(&node).deserialize_f64(), moved(&node).deserialize_f64());
        assert_eq!(lent(&node).deserialize_char(), moved(&node).deserialize_char());
        assert_eq!(lent(&node).deserialize_str(), moved(&node).deserialize_str());
        assert_eq!(lent(&node).deserialize_string(), moved(&node).deserialize_string());
        assert_eq!(lent(&node).deserialize_identifier(), moved(&node).deserialize_identifier());
        assert_eq!(lent(&node).deserialize_bytes(), moved(&node).deserialize_bytes());
        assert_eq!(lent(&node).deserialize_byte_buf(), moved(&node).deserialize_byte_buf());
        assert_eq!(lent(&node).deserialize_unit(), moved(&node).deserialize_unit());
        assert_eq!(lent(&node).deserialize_unit_struct(), moved(&node).deserialize_unit_struct());
        assert_eq!(
            lent(&node).deserialize_option().is_some(),
            moved(&node).deserialize_option().is_some()
        );
        assert_eq!(
            lent(&node).deserialize_seq().map(|s| s.size_hint()),
            moved(&node).deserialize_seq().map(|s| s.size_hint())
        );
        assert_eq!(
            lent(&node).deserialize_map().map(|m| m.size_hint()),
            moved(&node).deserialize_map().map(|m| m.size_hint())
        );
        let tag = |r: Result<EnumTag<'_>, Error>| {
            r.map(|t| match t {
                EnumTag::Str(s) => (0, s.into_owned(), None),
                EnumTag::Ident(s) => (1, s.into_owned(), None),
                EnumTag::Keyed(access) => {
                    (2, access.variant().to_string(), Some(ecma_de::value::to_value(access.newtype_variant())))
                }
            })
        };
        assert_eq!(tag(lent(&node).deserialize_enum()), tag(moved(&node).deserialize_enum()));
        assert_eq!(ecma_de::from_expr(&node), ecma_de::value::to_value(moved(&node)));
    }
}

#[test]
fn a_bare_tag_names_a_variant_without_fields() {
    let unit = |expected: &str| invalid_type(Unexpected::UnitVariant, expected);
    for node in [text("Orange"), ident("Orange")] {
        for owned in [false, true] {
            let tag = || if owned { moved(&node) } else { lent(&node) }.deserialize_enum().unwrap();
            assert_eq!(tag().variant(), "Orange");
            assert_eq!(tag().unit_variant(), Ok(()));
            assert!(matches!(tag().newtype_variant(), Err(e) if e == unit("newtype variant")));
            assert!(matches!(tag().tuple_variant(), Err(e) if e == unit("tuple variant")));
            assert!(matches!(tag().struct_variant(), Err(e) if e == unit("struct variant")));
        }
    }
}

#[test]
fn a_keyed_tag_names_a_variant_with_its_fields() {
    let node = object(vec![("Pear", object(vec![("name", text("x"))]))]);
    for owned in [false, true] {
        let tag = || if owned { moved(&node) } else { lent(&node) }.deserialize_enum().unwrap();
        assert_eq!(tag().variant(), "Pear");
        assert_eq!(tag().unit_variant(), Err(Error::UnexpectedExpr(object(vec![("name", text("x"))]))));
        assert!(tag().newtype_variant().unwrap().deserialize_map().is_ok());
        assert!(matches!(tag().tuple_variant(), Err(e) if e == invalid_type(Unexpected::Object, "sequence")));
        assert!(matches!(tag().struct_variant(), Ok(map) if map.size_hint() == Some(1)));
    }
}

#[test]
fn the_ignored_shape_succeeds_on_every_node() {
    for node in samples() {
        assert_eq!(lent(&node).deserialize_ignored_any(), Ok(()));
        assert_eq!(moved(&node).deserialize_ignored_any(), Ok(()));
    }
    for node in [
        regex(),
        big_integer(),
        jsx_text(),
        unsupported(),
        Node::Array(vec![None]),
        num("1e30", 1e30),
    ] {
        assert_eq!(lent(&node).deserialize_ignored_any(), Ok(()));
        assert_eq!(moved(&node).deserialize_ignored_any(), Ok(()));
    }
}
