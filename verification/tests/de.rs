use serde_edn::{from_str, Decoded, Error, Shape};
use std::collections::{HashMap, HashSet};

fn boxed(shape: Shape) -> Box<Shape> {
    Box::new(shape)
}

fn integer_case(shape: Shape, normal: &str, expected: Decoded, over: &str) {
    assert_eq!(from_str(normal, &shape), Ok(expected));
    assert_eq!(from_str(over, &shape), Err(Error::NumericOutOfBounds));
    assert_eq!(from_str(":kw", &shape), Err(Error::Bad));
}

#[test]
fn de_bool() {
    assert_eq!(from_str("true", &Shape::Bool), Ok(Decoded::Bool(true)));
    assert_eq!(from_str("false", &Shape::Bool), Ok(Decoded::Bool(false)));
    assert_eq!(from_str("33", &Shape::Bool), Err(Error::Bad));
}

#[test]
fn integers() {
    integer_case(Shape::I8, &3_i8.to_string(), Decoded::I8(3), &128.to_string());
    integer_case(
        Shape::I16,
        &300_i16.to_string(),
        Decoded::I16(300),
        &(2_usize.pow(15) + 1).to_string(),
    );
    integer_case(
        Shape::I32,
        &70_000_i32.to_string(),
        Decoded::I32(70_000),
        &(2_usize.pow(31) + 1).to_string(),
    );
    integer_case(Shape::U8, &3_u8.to_string(), Decoded::U8(3), &256.to_string());
    integer_case(
        Shape::U16,
        &300_u16.to_string(),
        Decoded::U16(300),
        &(2_usize.pow(16) + 1).to_string(),
    );
    integer_case(
        Shape::U32,
        &70_000_u32.to_string(),
        Decoded::U32(70_000),
        &(2_usize.pow(32) + 1).to_string(),
    );
}

#[test]
fn float() {
    let narrow = match from_str("0.3", &Shape::F64) {
        Ok(Decoded::F64(bits)) => num_traits::cast::<f64, f32>(f64::from_bits(bits)),
        _ => None,
    };
    assert_eq!(narrow, Some(0.3_f32));
    assert_eq!(from_str("0.5", &Shape::F64), Ok(Decoded::F64(0.5_f64.to_bits())));
}

#[test]
fn de_char() {
    assert_eq!(from_str(r#"\c"#, &Shape::Char), Ok(Decoded::Char('c')));
    assert_eq!(from_str(r#"\tababab"#, &Shape::Char), Err(Error::Bad));
}

#[test]
fn strings() {
    let data = String::from(r#""astring""#);
    let parsed = from_str(data.as_str(), &Shape::String);

    assert_eq!(parsed, Ok(Decoded::String("astring".into())));
}

#[test]
fn option() {
    let shape = Shape::Optional(boxed(Shape::U32));
    assert_eq!(from_str("nil", &shape), Ok(Decoded::Absent));
    assert_eq!(from_str("3", &shape), Ok(Decoded::Present(Box::new(Decoded::U32(3)))));
}

#[test]
fn unit() {
    assert_eq!(from_str("nil", &Shape::Unit), Ok(Decoded::Unit));
    assert_eq!(from_str("3", &Shape::Unit), Err(Error::Bad));
}

#[test]
fn tuple_from_list_or_vec() {
    let shape = Shape::Tuple(vec![Shape::I32, Shape::String]);
    let expected = Ok(Decoded::Tuple(vec![Decoded::I32(10), Decoded::String(String::from("abcd"))]));
    assert_eq!(from_str(r#"(10 "abcd")"#, &shape), expected);
    assert_eq!(from_str(r#"[10 "abcd"]"#, &shape), expected);

    assert_eq!(from_str(r#"[10 "abcd" 3]"#, &shape), Err(Error::Bad));
}

#[test]
fn tuple_struct_from_list_or_vec() {
    let shape = Shape::TupleStruct(String::from("Tup"), vec![Shape::I32, Shape::String]);
    let expected = Ok(Decoded::Tuple(vec![Decoded::I32(10), Decoded::String(String::from("abcd"))]));
    assert_eq!(from_str(r#"(10 "abcd")"#, &shape), expected);
    assert_eq!(from_str(r#"[10 "abcd"]"#, &shape), expected);

    assert_eq!(from_str(r#"[10 "abcd" 3]"#, &shape), Err(Error::Bad));
}

#[test]
fn newtype_struct() {
    let shape = Shape::NewtypeStruct(String::from("Tup"), boxed(Shape::I32));
    let expected = Ok(Decoded::Newtype(Box::new(Decoded::I32(10))));
    assert_eq!(from_str(r#"10"#, &shape), expected);
    assert_eq!(from_str(r#"(10)"#, &shape), expected);
    assert_eq!(from_str(r#"[10]"#, &shape), expected);

    assert_eq!(from_str(r#"[10 "abcd" 3]"#, &shape), Err(Error::Bad));
}

#[test]
fn unit_struct() {
    let shape = Shape::UnitStruct(String::from("YewNit"));
    let expected = Ok(Decoded::Unit);
    assert_eq!(from_str(r#"()"#, &shape), expected);
    assert_eq!(from_str(r#"[]"#, &shape), expected);
    assert_eq!(from_str(r#"YewNit"#, &shape), expected);

    let err = Err(Error::Bad);
    assert_eq!(from_str(r#"[10]"#, &shape), err);
    assert_eq!(from_str(r#"(10)"#, &shape), err);
}

#[test]
fn de_map() {
    let mut m: HashMap<i32, String> = HashMap::new();
    m.insert(5, "abc".into());
    m.insert(8, "def".into());

    let shape = Shape::Mapping(boxed(Shape::I32), boxed(Shape::String));
    let decoded = match from_str(r#"{8 "def" 5 "abc"}"#, &shape) {
        Ok(Decoded::Mapping(entries)) => entries,
        other => panic!("not a mapping: {:?}", other),
    };
    let mut got: HashMap<i32, String> = HashMap::new();
    for entry in decoded {
        match entry {
            (Decoded::I32(k), Decoded::String(v)) => {
                got.insert(k, v);
            }
            other => panic!("not an entry: {:?}", other),
        }
    }
    assert_eq!(got, m);
}

#[test]
fn de_set() {
    let mut s: HashSet<i32> = HashSet::new();
    s.insert(9);
    s.insert(4);
    s.insert(3);

    let shape = Shape::Sequence(boxed(Shape::I32));
    let decoded = match from_str(r#"#{3 9 4}"#, &shape) {
        Ok(Decoded::Sequence(items)) => items,
        other => panic!("not a sequence: {:?}", other),
    };
    assert_eq!(decoded.len(), 3);
    let mut got: HashSet<i32> = HashSet::new();
    for item in decoded {
        match item {
            Decoded::I32(i) => {
                got.insert(i);
            }
            other => panic!("not an element: {:?}", other),
        }
    }
    assert_eq!(got, s);
}

#[test]
fn vector() {
    let shape = Shape::Sequence(boxed(Shape::I32));
    let v = vec![
        Decoded::I32(3),
        Decoded::I32(4),
        Decoded::I32(6),
        Decoded::I32(4),
        Decoded::I32(4),
    ];

    let expected = Ok(Decoded::Sequence(v));
    assert_eq!(from_str(r#"[3 4 6 4 4]"#, &shape), expected);
    assert_eq!(from_str(r#"(3 4 6 4 4)"#, &shape), expected);
}

#[test]
fn struct_from_map() {
    let shape = Shape::Struct(
        String::from("S"),
        vec![(String::from("a"), Shape::U32), (String::from("b"), Shape::String)],
    );

    let expected = Ok(Decoded::Record(vec![Decoded::U32(74), Decoded::String("abc".into())]));
    assert_eq!(from_str(r#"{:b "abc" :a 74}"#, &shape), expected);
}
