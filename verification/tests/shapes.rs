use serde_edn::cursor::{ListAccess, MapStore};
use serde_edn::number::{
    narrow_i16, narrow_i32, narrow_i64, narrow_i8, narrow_u16, narrow_u32, narrow_u64, narrow_u8,
};
use serde_edn::shape::decode;
use serde_edn::value::de::Visit;
use serde_edn::{from_str, Decoded, Deserializer, Error, Shape, Symbol, Tagged, Value};

fn boxed(shape: Shape) -> Box<Shape> {
    Box::new(shape)
}

#[test]
fn narrowing_at_the_edges() {
    assert_eq!(narrow_i8(127), Ok(127));
    assert_eq!(narrow_i8(-128), Ok(-128));
    assert_eq!(narrow_i8(128), Err(Error::NumericOutOfBounds));
    assert_eq!(narrow_i8(-129), Err(Error::NumericOutOfBounds));
    assert_eq!(narrow_i16(32767), Ok(32767));
    assert_eq!(narrow_i16(-32768), Ok(-32768));
    assert_eq!(narrow_i16(32768), Err(Error::NumericOutOfBounds));
    assert_eq!(narrow_i16(-32769), Err(Error::NumericOutOfBounds));
    assert_eq!(narrow_i32(2147483647), Ok(2147483647));
    assert_eq!(narrow_i32(-2147483648), Ok(-2147483648));
    assert_eq!(narrow_i32(2147483648), Err(Error::NumericOutOfBounds));
    assert_eq!(narrow_i32(-2147483649), Err(Error::NumericOutOfBounds));
    assert_eq!(narrow_i64(i64::MAX), Ok(i64::MAX));
    assert_eq!(narrow_i64(i64::MIN), Ok(i64::MIN));
    assert_eq!(narrow_u8(0), Ok(0));
    assert_eq!(narrow_u8(255), Ok(255));
    assert_eq!(narrow_u8(256), Err(Error::NumericOutOfBounds));
    assert_eq!(narrow_u8(-1), Err(Error::NumericOutOfBounds));
    assert_eq!(narrow_u16(65535), Ok(65535));
    assert_eq!(narrow_u16(65536), Err(Error::NumericOutOfBounds));
    assert_eq!(narrow_u16(-1), Err(Error::NumericOutOfBounds));
    assert_eq!(narrow_u32(4294967295), Ok(4294967295));
    assert_eq!(narrow_u32(4294967296), Err(Error::NumericOutOfBounds));
    assert_eq!(narrow_u32(-1), Err(Error::NumericOutOfBounds));
    assert_eq!(narrow_u64(i64::MAX), Ok(9223372036854775807));
    assert_eq!(narrow_u64(0), Ok(0));
    assert_eq!(narrow_u64(-1), Err(Error::NumericOutOfBounds));
}

#[test]
fn every_width_at_its_edges() {
    assert_eq!(from_str("127", &Shape::I8), Ok(Decoded::I8(127)));
    assert_eq!(from_str("-128", &Shape::I8), Ok(Decoded::I8(-128)));
    assert_eq!(from_str("-129", &Shape::I8), Err(Error::NumericOutOfBounds));
    assert_eq!(from_str("32767", &Shape::I16), Ok(Decoded::I16(32767)));
    assert_eq!(from_str("32768", &Shape::I16), Err(Error::NumericOutOfBounds));
    assert_eq!(from_str("-2147483648", &Shape::I32), Ok(Decoded::I32(i32::MIN)));
    assert_eq!(from_str("-2147483649", &Shape::I32), Err(Error::NumericOutOfBounds));
    assert_eq!(from_str("255", &Shape::U8), Ok(Decoded::U8(255)));
    assert_eq!(from_str("-1", &Shape::U8), Err(Error::NumericOutOfBounds));
    assert_eq!(from_str("65535", &Shape::U16), Ok(Decoded::U16(65535)));
    assert_eq!(from_str("65536", &Shape::U16), Err(Error::NumericOutOfBounds));
    assert_eq!(from_str("4294967295", &Shape::U32), Ok(Decoded::U32(u32::MAX)));
    assert_eq!(from_str("4294967296", &Shape::U32), Err(Error::NumericOutOfBounds));
    assert_eq!(from_str("1.0", &Shape::I32), Err(Error::Bad));
    assert_eq!(from_str("1", &Shape::F64), Err(Error::Bad));
}

#[test]
fn keywords_are_no_integers() {
    for shape in [
        Shape::I8,
        Shape::I16,
        Shape::I32,
        Shape::I64,
        Shape::U8,
        Shape::U16,
        Shape::U32,
        Shape::U64,
    ] {
        assert_eq!(from_str(":kw", &shape), Err(Error::Bad));
        assert_eq!(from_str(":1", &shape), Err(Error::Bad));
    }
}

#[test]
fn plain_shapes() {
    assert_eq!(from_str("\\c", &Shape::Char), Ok(Decoded::Char('c')));
    assert_eq!(from_str("\"c\"", &Shape::Char), Err(Error::Bad));
    assert_eq!(from_str("\"s\"", &Shape::String), Ok(Decoded::String(String::from("s"))));
    assert_eq!(from_str("s", &Shape::String), Err(Error::Bad));
    assert_eq!(from_str(":s", &Shape::String), Err(Error::Bad));
    assert_eq!(from_str(":s", &Shape::Identifier), Ok(Decoded::Identifier(String::from("s"))));
    assert_eq!(from_str("s", &Shape::Identifier), Err(Error::Bad));
    assert_eq!(from_str("\"s\"", &Shape::Identifier), Err(Error::Bad));
    assert_eq!(from_str("", &Shape::Unit), Err(Error::Eof));
    assert_eq!(from_str("()", &Shape::Unit), Err(Error::Bad));
    assert_eq!(from_str("false", &Shape::Unit), Err(Error::Bad));
}

#[test]
fn optional_shapes() {
    let shape = Shape::Optional(boxed(Shape::String));
    assert_eq!(from_str("nil", &shape), Ok(Decoded::Absent));
    assert_eq!(
        from_str("\"x\"", &shape),
        Ok(Decoded::Present(Box::new(Decoded::String(String::from("x")))))
    );
    assert_eq!(from_str("3", &shape), Err(Error::Bad));
    assert_eq!(from_str("", &shape), Err(Error::Eof));

    let twice = Shape::Optional(boxed(Shape::Optional(boxed(Shape::Bool))));
    assert_eq!(from_str("nil", &twice), Ok(Decoded::Absent));
    assert_eq!(
        from_str("true", &twice),
        Ok(Decoded::Present(Box::new(Decoded::Present(Box::new(Decoded::Bool(true))))))
    );

    let unit = Shape::Optional(boxed(Shape::Unit));
    assert_eq!(from_str("nil", &unit), Ok(Decoded::Absent));
    assert_eq!(from_str("1", &unit), Err(Error::Bad));
}

#[test]
fn unit_records() {
    let shape = Shape::UnitStruct(String::from("YewNit"));
    assert_eq!(from_str("YewNi", &shape), Err(Error::Bad));
    assert_eq!(from_str("YewNits", &shape), Err(Error::Bad));
    assert_eq!(from_str(":YewNit", &shape), Err(Error::Bad));
    assert_eq!(from_str("\"YewNit\"", &shape), Err(Error::Bad));
    assert_eq!(from_str("nil", &shape), Err(Error::Bad));
    assert_eq!(from_str("#{}", &shape), Err(Error::Bad));
    assert_eq!(from_str("{}", &shape), Err(Error::Bad));
}

#[test]
fn wrappers() {
    let shape = Shape::NewtypeStruct(String::from("W"), boxed(Shape::String));
    let expected = Ok(Decoded::Newtype(Box::new(Decoded::String(String::from("x")))));
    assert_eq!(from_str("\"x\"", &shape), expected);
    assert_eq!(from_str("(\"x\")", &shape), expected);
    assert_eq!(from_str("[\"x\"]", &shape), expected);
    assert_eq!(from_str("()", &shape), Err(Error::Bad));
    assert_eq!(from_str("[]", &shape), Err(Error::Bad));
    assert_eq!(from_str("(\"x\" \"y\")", &shape), Err(Error::Bad));
    assert_eq!(from_str("#{\"x\"}", &shape), Err(Error::Bad));
    assert_eq!(from_str("[1]", &shape), Err(Error::Bad));

    let around = Shape::NewtypeStruct(String::from("W"), boxed(Shape::Sequence(boxed(Shape::U8))));
    assert_eq!(
        from_str("[[1 2]]", &around),
        Ok(Decoded::Newtype(Box::new(Decoded::Sequence(vec![Decoded::U8(1), Decoded::U8(2)]))))
    );
    assert_eq!(from_str("[1 2]", &around), Err(Error::Bad));
    assert_eq!(from_str("[1]", &around), Err(Error::Bad));
    assert_eq!(
        from_str("#{1 2}", &around),
        Ok(Decoded::Newtype(Box::new(Decoded::Sequence(vec![Decoded::U8(1), Decoded::U8(2)]))))
    );
}

#[test]
fn tuples_and_sequences() {
    let pair = Shape::Tuple(vec![Shape::I32, Shape::String]);
    assert_eq!(from_str("(10)", &pair), Err(Error::Bad));
    assert_eq!(from_str("()", &pair), Err(Error::Bad));
    assert_eq!(from_str("#{10 \"abcd\"}", &pair), Err(Error::Bad));
    assert_eq!(from_str("(\"abcd\" 10)", &pair), Err(Error::Bad));
    assert_eq!(from_str("(300000000000 \"abcd\")", &pair), Err(Error::NumericOutOfBounds));
    assert_eq!(from_str("(300000000000 7)", &pair), Err(Error::NumericOutOfBounds));
    assert_eq!(from_str("(:k 300000000000)", &pair), Err(Error::Bad));
    assert_eq!(from_str("10", &pair), Err(Error::Bad));

    let none = Shape::Tuple(vec![]);
    assert_eq!(from_str("()", &none), Ok(Decoded::Tuple(vec![])));
    assert_eq!(from_str("[1]", &none), Err(Error::Bad));

    let bytes = Shape::Sequence(boxed(Shape::U8));
    assert_eq!(from_str("[]", &bytes), Ok(Decoded::Sequence(vec![])));
    assert_eq!(from_str("(1 2 300 :k)", &bytes), Err(Error::NumericOutOfBounds));
    assert_eq!(from_str("(1 :k 300)", &bytes), Err(Error::Bad));
    assert_eq!(from_str("{1 2}", &bytes), Err(Error::Bad));
    assert_eq!(from_str("1", &bytes), Err(Error::Bad));
    assert_eq!(
        from_str("#{3 1 2}", &bytes),
        Ok(Decoded::Sequence(vec![Decoded::U8(1), Decoded::U8(2), Decoded::U8(3)]))
    );

    let nested = Shape::Sequence(boxed(Shape::Sequence(boxed(Shape::Bool))));
    assert_eq!(
        from_str("[(true) [] #{false}]", &nested),
        Ok(Decoded::Sequence(vec![
            Decoded::Sequence(vec![Decoded::Bool(true)]),
            Decoded::Sequence(vec![]),
            Decoded::Sequence(vec![Decoded::Bool(false)]),
        ]))
    );
}

#[test]
fn mappings() {
    let shape = Shape::Mapping(boxed(Shape::I32), boxed(Shape::String));
    assert_eq!(
        from_str("{8 \"def\" 5 \"abc\"}", &shape),
        Ok(Decoded::Mapping(vec![
            (Decoded::I32(5), Decoded::String(String::from("abc"))),
            (Decoded::I32(8), Decoded::String(String::from("def"))),
        ]))
    );
    assert_eq!(from_str("{}", &shape), Ok(Decoded::Mapping(vec![])));
    assert_eq!(from_str("{:a \"x\"}", &shape), Err(Error::Bad));
    assert_eq!(from_str("{1 2}", &shape), Err(Error::Bad));
    assert_eq!(from_str("{3000000000 2}", &shape), Err(Error::NumericOutOfBounds));
    assert_eq!(from_str("{1 2 3000000000 \"x\"}", &shape), Err(Error::Bad));
    assert_eq!(from_str("[1 \"x\"]", &shape), Err(Error::Bad));
    assert_eq!(from_str("#{1}", &shape), Err(Error::Bad));
}

#[test]
fn records() {
    let shape = Shape::Struct(
        String::from("S"),
        vec![(String::from("a"), Shape::U32), (String::from("b"), Shape::String)],
    );
    let expected = Ok(Decoded::Record(vec![Decoded::U32(74), Decoded::String("abc".into())]));
    assert_eq!(from_str("{:a 74 :b \"abc\"}", &shape), expected);
    assert_eq!(from_str("{:b \"abc\", :a 74}", &shape), expected);
    assert_eq!(from_str("{:a 74}", &shape), Err(Error::Bad));
    assert_eq!(from_str("{}", &shape), Err(Error::Bad));
    assert_eq!(from_str("{:a 74 :b \"abc\" :c 1}", &shape), Err(Error::Bad));
    assert_eq!(from_str("{a 74 b \"abc\"}", &shape), Err(Error::Bad));
    assert_eq!(from_str("{\"a\" 74 \"b\" \"abc\"}", &shape), Err(Error::Bad));
    assert_eq!(from_str("{:a -1 :b \"abc\"}", &shape), Err(Error::NumericOutOfBounds));
    assert_eq!(from_str("{:a 74 :b 1}", &shape), Err(Error::Bad));
    assert_eq!(from_str("[74 \"abc\"]", &shape), Err(Error::Bad));

    let flipped = Shape::Struct(
        String::from("S"),
        vec![(String::from("b"), Shape::String), (String::from("a"), Shape::U32)],
    );
    assert_eq!(
        from_str("{:a 74 :b \"abc\"}", &flipped),
        Ok(Decoded::Record(vec![Decoded::String("abc".into()), Decoded::U32(74)]))
    );

    let same_name = Shape::Struct(
        String::from("S"),
        vec![(String::from("a"), Shape::U32), (String::from("a"), Shape::String)],
    );
    assert_eq!(from_str("{:a 74}", &same_name), Err(Error::Bad));

    let empty = Shape::Struct(String::from("E"), vec![]);
    assert_eq!(from_str("{}", &empty), Ok(Decoded::Record(vec![])));
    assert_eq!(from_str("{:a 1}", &empty), Err(Error::Bad));

    let inner = Shape::Struct(
        String::from("O"),
        vec![
            (String::from("p"), Shape::Optional(boxed(Shape::Bool))),
            (String::from("q"), Shape::Tuple(vec![Shape::Char, Shape::Unit])),
        ],
    );
    assert_eq!(
        from_str("{:q [\\x nil] :p nil}", &inner),
        Ok(Decoded::Record(vec![
            Decoded::Absent,
            Decoded::Tuple(vec![Decoded::Char('x'), Decoded::Unit]),
        ]))
    );
}

#[test]
fn no_shape_expected() {
    assert_eq!(
        from_str("[1 #{:b :a} {2 1.5}]", &Shape::Any),
        Ok(Decoded::Dynamic(Value::Vector(vec![
            Value::Integer(1),
            Value::SetOf(vec![Value::keyword("a"), Value::keyword("b")]),
            Value::Mapping(vec![(Value::Integer(2), Value::float(1.5_f64.to_bits()))]),
        ])))
    );
    let v = Value::List(vec![Value::Nil, Value::symbol("s"), Value::Char('c')]);
    let mut de = Deserializer::from_value(v.clone());
    assert_eq!(decode(&Shape::Any, &mut de), Ok(Decoded::Dynamic(v)));
}

#[test]
fn handed_over_by_variant() {
    assert_eq!(Value::Nil.deserialize_any(), Ok(Visit::Unit));
    assert_eq!(Value::Bool(true).deserialize_any(), Ok(Visit::Bool(true)));
    assert_eq!(Value::string("s").deserialize_any(), Ok(Visit::String(String::from("s"))));
    assert_eq!(Value::keyword("k").deserialize_any(), Ok(Visit::Keyword(String::from("k"))));
    assert_eq!(
        Value::symbol("a/b").deserialize_any(),
        Ok(Visit::Symbol(Symbol::new(String::from("a/b"))))
    );
    assert_eq!(Value::Char('c').deserialize_any(), Ok(Visit::Char('c')));
    assert_eq!(Value::Integer(-3).deserialize_any(), Ok(Visit::Integer(-3)));
    assert_eq!(Value::float(7).deserialize_any(), Ok(Visit::Float(7)));
    let items = vec![Value::Integer(1), Value::Nil];
    assert_eq!(
        Value::List(items.clone()).deserialize_any(),
        Ok(Visit::List(ListAccess::from(items.clone())))
    );
    assert_eq!(
        Value::Vector(items.clone()).deserialize_any(),
        Ok(Visit::Vector(ListAccess::from(items.clone())))
    );
    assert_eq!(
        Value::set_from(items.clone()).deserialize_any(),
        Ok(Visit::SetOf(ListAccess::from(vec![Value::Nil, Value::Integer(1)])))
    );
    assert_eq!(
        Value::map_from(vec![(Value::Integer(2), Value::Nil), (Value::Integer(1), Value::Char('x'))])
            .deserialize_any(),
        Ok(Visit::Mapping(MapStore {
            keys: vec![Value::Integer(1), Value::Integer(2)],
            vals: vec![Value::Char('x'), Value::Nil],
        }))
    );
    assert_eq!(
        Value::Tagged(Tagged::UUID(1)).deserialize_any(),
        Ok(Visit::Tagged(Tagged::UUID(1)))
    );

    let mut de = Deserializer::from_str("nil [1] #tag 1 x");
    assert_eq!(de.deserialize_any(), Ok(Visit::Unit));
    assert_eq!(
        de.deserialize_any(),
        Ok(Visit::Vector(ListAccess::from(vec![Value::Integer(1)])))
    );
    assert_eq!(
        de.deserialize_any(),
        Ok(Visit::Tagged(Tagged::User(
            Symbol::new(String::from("tag")),
            Box::new(Value::Integer(1))
        )))
    );
    assert_eq!(de.deserialize_any(), Ok(Visit::Symbol(Symbol::new(String::from("x")))));
    assert_eq!(de.deserialize_any(), Err(Error::Eof));
}

fn every_kind_of_node() -> Vec<Value> {
    let inner = vec![Value::keyword("k"), Value::symbol("sym")];
    vec![
        Value::Nil,
        Value::Bool(false),
        Value::string("s"),
        Value::Char('c'),
        Value::symbol("ns/sym"),
        Value::keyword("k"),
        Value::Integer(9),
        Value::float(2.5_f64.to_bits()),
        Value::float((-0.0_f64).to_bits()),
        Value::float(f64::NAN.to_bits()),
        Value::List(inner.clone()),
        Value::List(vec![]),
        Value::Vector(inner.clone()),
        Value::Vector(vec![Value::Vector(vec![Value::set_from(inner.clone())])]),
        Value::set_from(inner.clone()),
        Value::set_from(vec![]),
        Value::map_from(vec![(Value::symbol("s"), Value::set_from(vec![Value::Nil]))]),
        Value::map_from(vec![
            (Value::keyword("b"), Value::Vector(inner.clone())),
            (Value::keyword("a"), Value::List(inner.clone())),
        ]),
        Value::map_from(vec![]),
        Value::Tagged(Tagged::Inst(-7)),
        Value::Tagged(Tagged::UUID(u128::MAX)),
        Value::Tagged(Tagged::User(
            Symbol::new(String::from("my/tag")),
            Box::new(Value::Vector(inner.clone())),
        )),
    ]
}

#[test]
fn handed_over_and_back() {
    for v in every_kind_of_node() {
        assert_eq!(v.clone().deserialize_any().map(|visit| visit.into_value()), Ok(v.clone()));
        let mut de = Deserializer::from_value(v.clone());
        assert_eq!(de.deserialize_any().map(|visit| visit.into_value()), Ok(v.clone()));
        let mut de = Deserializer::from_value(v.clone());
        assert_eq!(decode(&Shape::Any, &mut de), Ok(Decoded::Dynamic(v)));
    }
    assert_eq!(
        Visit::Mapping(MapStore { keys: vec![Value::Nil, Value::Bool(true)], vals: vec![Value::Nil] })
            .into_value(),
        Value::Mapping(vec![(Value::Nil, Value::Nil)])
    );
}

#[test]
fn a_vector_of_a_keyword_and_a_symbol() {
    let expected = Value::Vector(vec![Value::Keyword("k".into()), Value::symbol("sym")]);
    assert_eq!(from_str("[:k sym]", &Shape::Any), Ok(Decoded::Dynamic(expected.clone())));
    let mut de = Deserializer::from_str("[:k sym]");
    assert_eq!(de.deserialize_any().map(|visit| visit.into_value()), Ok(expected.clone()));
    assert!(expected != Value::List(vec![Value::Keyword("k".into()), Value::symbol("sym")]));
    assert!(expected != Value::Vector(vec![Value::string("k"), Value::string("sym")]));

    for text in [
        "(apply f {:k1 :v1 :k2 v2} #{:k2})",
        "#{[a] (a) :a \"a\" a}",
        "{[1 2] #{3} (1 2) :v}",
        "#my/tag [:k sym #other {:a 1}]",
    ] {
        let read = match from_str(text, &Shape::Any) {
            Ok(Decoded::Dynamic(v)) => v,
            other => panic!("not a node: {:?}", other),
        };
        let mut de = Deserializer::from_value(read.clone());
        assert_eq!(de.deserialize_any().map(|visit| visit.into_value()), Ok(read));
    }
}

#[test]
fn one_node_in_the_slot() {
    let mut de = Deserializer::from_str("3 nil [7] [] 9");
    assert_eq!(de.deserialize_option(), Ok(true));
    assert_eq!(de.deserialize_u32(), Ok(3));
    assert_eq!(de.deserialize_option(), Ok(false));
    assert_eq!(de.deserialize_newtype_struct("N"), Ok(()));
    assert_eq!(de.deserialize_i8(), Ok(7));
    assert_eq!(de.deserialize_newtype_struct("N"), Err(Error::Bad));
    assert_eq!(de.deserialize_newtype_struct("N"), Ok(()));
    assert_eq!(de.deserialize_bool(), Err(Error::Bad));
    assert_eq!(de.deserialize_option(), Err(Error::Eof));

    let mut de = Deserializer::from_value(Value::Integer(5));
    assert_eq!(de.deserialize_option(), Ok(true));
    assert_eq!(de.deserialize_option(), Ok(true));
    assert_eq!(de.deserialize_i16(), Ok(5));
    assert_eq!(de.deserialize_i16(), Err(Error::Eof));
}

#[test]
fn shapes_that_cannot_be_decoded() {
    let mut de = Deserializer::from_str("1");
    assert_eq!(de.deserialize_bytes(), Err(Error::Bad));
    assert_eq!(de.deserialize_byte_buf(), Err(Error::Bad));
    assert_eq!(de.deserialize_enum("E", &vec![String::from("A")]), Err(Error::Bad));
    assert_eq!(de.deserialize_ignored_any(), Err(Error::Bad));
    assert_eq!(de.deserialize_u8(), Ok(1));
}

#[test]
fn decoder_operations() {
    let mut de = Deserializer::from_str(
        "true \\c \"s\" \"t\" :id nil () Unit (1 2) [3] #{4} (5 6) {:k 7} {:f 8} 1.5",
    );
    assert_eq!(de.deserialize_bool(), Ok(true));
    assert_eq!(de.deserialize_char(), Ok('c'));
    assert_eq!(de.deserialize_string(), Ok(String::from("s")));
    assert_eq!(de.deserialize_str(), Ok(String::from("t")));
    assert_eq!(de.deserialize_identifier(), Ok(String::from("id")));
    assert_eq!(de.deserialize_unit(), Ok(()));
    assert_eq!(de.deserialize_unit_struct("Unit"), Ok(()));
    assert_eq!(de.deserialize_unit_struct("Unit"), Ok(()));
    let mut cursor = de.deserialize_tuple(2).unwrap();
    assert_eq!(cursor.next_element(), Some(Value::Integer(1)));
    assert_eq!(cursor.next_element(), Some(Value::Integer(2)));
    assert_eq!(cursor.next_element(), None);
    assert_eq!(cursor.next_element(), None);
    let mut cursor = de.deserialize_seq().unwrap();
    assert_eq!(cursor.next_element(), Some(Value::Integer(3)));
    assert_eq!(cursor.next_element(), None);
    let mut cursor = de.deserialize_seq().unwrap();
    assert_eq!(cursor.next_element(), Some(Value::Integer(4)));
    assert_eq!(cursor.next_element(), None);
    let mut cursor = de.deserialize_tuple_struct("T", 2).unwrap();
    assert_eq!(cursor.next_element(), Some(Value::Integer(5)));
    assert_eq!(cursor.next_element(), Some(Value::Integer(6)));
    assert_eq!(cursor.next_element(), None);
    let mut store = de.deserialize_map().unwrap();
    assert_eq!(store.next_key(), Some(Value::keyword("k")));
    assert_eq!(store.next_value(), Ok(Value::Integer(7)));
    assert_eq!(store.next_key(), None);
    assert_eq!(store.next_value(), Err(Error::Bad));
    let mut store = de.deserialize_struct("S", &vec![String::from("f")]).unwrap();
    assert_eq!(store.next_key(), Some(Value::keyword("f")));
    assert_eq!(store.next_value(), Ok(Value::Integer(8)));
    assert_eq!(store.next_key(), None);
    assert_eq!(de.deserialize_f64(), Ok(1.5_f64.to_bits()));
    assert_eq!(de.deserialize_f64(), Err(Error::Eof));
}

#[test]
fn cursors() {
    let mut cursor = ListAccess::from(vec![Value::Bool(true), Value::Nil]);
    assert_eq!(cursor.next_element(), Some(Value::Bool(true)));
    assert_eq!(cursor.next_element(), Some(Value::Nil));
    assert_eq!(cursor.next_element(), None);

    let mut store = MapStore {
        keys: vec![Value::Integer(1), Value::Integer(2)],
        vals: vec![Value::Char('a')],
    };
    assert_eq!(store.next_key(), Some(Value::Integer(1)));
    assert_eq!(store.next_value(), Ok(Value::Char('a')));
    assert_eq!(store.next_key(), Some(Value::Integer(2)));
    assert_eq!(store.next_value(), Err(Error::Bad));
    assert_eq!(store.next_key(), None);
}

fn expect_integer(shape: &Shape, i: i128) -> Option<Decoded> {
    let fits = |lo: i128, hi: i128| lo <= i && i <= hi;
    match shape {
        Shape::I8 if fits(i8::MIN as i128, i8::MAX as i128) => Some(Decoded::I8(i as i8)),
        Shape::I16 if fits(i16::MIN as i128, i16::MAX as i128) => Some(Decoded::I16(i as i16)),
        Shape::I32 if fits(i32::MIN as i128, i32::MAX as i128) => Some(Decoded::I32(i as i32)),
        Shape::I64 if fits(i64::MIN as i128, i64::MAX as i128) => Some(Decoded::I64(i as i64)),
        Shape::U8 if fits(0, u8::MAX as i128) => Some(Decoded::U8(i as u8)),
        Shape::U16 if fits(0, u16::MAX as i128) => Some(Decoded::U16(i as u16)),
        Shape::U32 if fits(0, u32::MAX as i128) => Some(Decoded::U32(i as u32)),
        Shape::U64 if fits(0, u64::MAX as i128) => Some(Decoded::U64(i as u64)),
        _ => None,
    }
}

#[test]
fn numerals_of_every_width() {
    let shapes = [
        Shape::I8,
        Shape::I16,
        Shape::I32,
        Shape::I64,
        Shape::U8,
        Shape::U16,
        Shape::U32,
        Shape::U64,
    ];
    let mut points: Vec<i128> = vec![0];
    for bits in [7u32, 8, 15, 16, 31, 32, 63] {
        let edge = 1i128 << bits;
        for near in [-2i128, -1, 0, 1, 2] {
            points.push(edge + near);
            points.push(-edge + near);
        }
    }
    let mut state: u64 = 7;
    for _ in 0..2000 {
        state = state.wrapping_mul(6364136223846793005).wrapping_add(1442695040888963407);
        points.push((state as i64 >> (state % 60)) as i128);
    }
    for i in points {
        if i < i64::MIN as i128 || i > i64::MAX as i128 {
            continue;
        }
        let text = i.to_string();
        for shape in &shapes {
            let expected = match expect_integer(shape, i) {
                Some(d) => Ok(d),
                None => Err(Error::NumericOutOfBounds),
            };
            assert_eq!(from_str(&text, shape), expected, "{} under {:?}", text, shape);
            let mut de = Deserializer::from_value(Value::Integer(i as i64));
            assert_eq!(decode(shape, &mut de), expected);
        }
    }
}
