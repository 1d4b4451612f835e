use serde_edn::order::{text_order, Rel};
use serde_edn::{Symbol, Tagged, Value};

fn float(f: f64) -> Value {
    Value::float(f.to_bits())
}

#[test]
fn variants_in_their_order() {
    let ladder = vec![
        Value::Nil,
        Value::Bool(false),
        Value::Bool(true),
        Value::string(""),
        Value::string("a"),
        Value::string("ab"),
        Value::string("b"),
        Value::Char('a'),
        Value::Char('é'),
        Value::symbol("a"),
        Value::keyword("a"),
        Value::Integer(i64::MIN),
        Value::Integer(-1),
        Value::Integer(0),
        Value::Integer(i64::MAX),
        float(f64::NEG_INFINITY),
        float(-1.5),
        float(-0.0),
        float(f64::MIN_POSITIVE),
        float(1.0),
        float(f64::INFINITY),
        float(f64::NAN),
        Value::List(vec![]),
        Value::List(vec![Value::Integer(1)]),
        Value::List(vec![Value::Integer(1), Value::Nil]),
        Value::List(vec![Value::Integer(2)]),
        Value::Vector(vec![]),
        Value::map_from(vec![]),
        Value::map_from(vec![(Value::Integer(1), Value::Integer(1))]),
        Value::map_from(vec![(Value::Integer(1), Value::Integer(2))]),
        Value::map_from(vec![(Value::Integer(2), Value::Integer(0))]),
        Value::set_from(vec![]),
        Value::set_from(vec![Value::Nil]),
        Value::Tagged(Tagged::Inst(-5)),
        Value::Tagged(Tagged::Inst(5)),
        Value::Tagged(Tagged::UUID(0)),
        Value::Tagged(Tagged::UUID(u128::MAX)),
        Value::Tagged(Tagged::User(Symbol::new(String::from("a")), Box::new(Value::Integer(2)))),
        Value::Tagged(Tagged::User(Symbol::new(String::from("b")), Box::new(Value::Integer(1)))),
        Value::Tagged(Tagged::User(Symbol::new(String::from("b")), Box::new(Value::Integer(2)))),
    ];
    for i in 0..ladder.len() {
        for j in 0..ladder.len() {
            let expected = if i < j {
                Rel::Before
            } else if i == j {
                Rel::Same
            } else {
                Rel::After
            };
            assert_eq!(ladder[i].compare(&ladder[j]), expected, "{:?} and {:?}", ladder[i], ladder[j]);
            assert_eq!(ladder[i] == ladder[j], i == j);
        }
    }
}

#[test]
fn floats_in_one_order() {
    assert_eq!(float(0.0).compare(&float(-0.0)), Rel::Same);
    assert_eq!(float(0.0), float(-0.0));
    assert_eq!(float(f64::NAN).compare(&float(-f64::NAN)), Rel::Same);
    assert_eq!(
        Value::float(0x7ff8_0000_0000_0001).compare(&Value::float(0xfff0_0000_0000_0001)),
        Rel::Same
    );
    assert_eq!(float(f64::NAN), float(f64::NAN));
    assert_eq!(float(f64::NAN).compare(&float(f64::INFINITY)), Rel::After);
    assert_eq!(float(f64::NAN).compare(&float(f64::NEG_INFINITY)), Rel::After);
    assert_eq!(float(-2.0).compare(&float(-1.0)), Rel::Before);
    assert_eq!(float(-1.0).compare(&float(2.0)), Rel::Before);
    assert_eq!(float(1e-300).compare(&float(1e300)), Rel::Before);
    assert_eq!(float(-1e-300).compare(&float(-1e300)), Rel::After);
}

#[test]
fn text_by_code_point() {
    assert_eq!(text_order("", ""), Rel::Same);
    assert_eq!(text_order("", "a"), Rel::Before);
    assert_eq!(text_order("a", ""), Rel::After);
    assert_eq!(text_order("abc", "abd"), Rel::Before);
    assert_eq!(text_order("abc", "ab"), Rel::After);
    assert_eq!(text_order("Z", "a"), Rel::Before);
    assert_eq!(text_order("z", "é"), Rel::Before);
    assert_eq!(text_order("\u{ffff}", "\u{10000}"), Rel::Before);
    assert_eq!(text_order("é", "é"), Rel::Same);
}

#[test]
fn sets_and_maps_in_one_form() {
    let a = Value::set_from(vec![Value::Integer(3), Value::Integer(9), Value::Integer(4)]);
    let b = Value::set_from(vec![
        Value::Integer(9),
        Value::Integer(4),
        Value::Integer(3),
        Value::Integer(9),
    ]);
    assert_eq!(a, b);
    assert_eq!(
        a.as_set(),
        Some(&vec![Value::Integer(3), Value::Integer(4), Value::Integer(9)])
    );

    let x = Value::map_from(vec![
        (Value::keyword("b"), Value::string("abc")),
        (Value::keyword("a"), Value::Integer(74)),
    ]);
    let y = Value::map_from(vec![
        (Value::keyword("a"), Value::Integer(74)),
        (Value::keyword("b"), Value::string("abc")),
    ]);
    assert_eq!(x, y);
    assert_eq!(
        x.as_map(),
        Some(&vec![
            (Value::keyword("a"), Value::Integer(74)),
            (Value::keyword("b"), Value::string("abc")),
        ])
    );

    let later = Value::map_from(vec![
        (float(0.0), Value::Integer(1)),
        (Value::Nil, Value::Nil),
        (float(-0.0), Value::Integer(2)),
    ]);
    assert_eq!(
        later,
        Value::Mapping(vec![(Value::Nil, Value::Nil), (float(0.0), Value::Integer(2))])
    );
    assert_eq!(Value::list(vec![Value::Nil]), Value::List(vec![Value::Nil]));
    assert_eq!(Value::vector(vec![Value::Nil]), Value::Vector(vec![Value::Nil]));
    assert!(Value::list(vec![]) != Value::vector(vec![]));
}

#[test]
fn accessors() {
    assert!(Value::Nil.is_nil());
    assert_eq!(Value::Nil.as_nil(), Some(()));
    assert!(!Value::Bool(false).is_nil());
    assert_eq!(Value::Bool(false).as_nil(), None);
    assert_eq!(Value::Bool(true).as_bool(), Some(true));
    assert!(Value::Bool(true).is_bool());
    assert_eq!(Value::integer(7).as_integer(), Some(7));
    assert!(Value::integer(7).is_integer());
    assert_eq!(Value::Nil.as_integer(), None);
    assert_eq!(float(2.5).as_float(), Some(2.5_f64.to_bits()));
    assert!(float(2.5).is_float());
    assert_eq!(Value::Char('x').as_char(), Some('x'));
    assert!(Value::Char('x').is_char());
    assert_eq!(Value::string("s").as_string(), Some("s"));
    assert!(Value::string("s").is_string());
    assert_eq!(Value::keyword("k").as_keyword(), Some("k"));
    assert!(Value::keyword("k").is_keyword());
    assert_eq!(Value::keyword("k").as_string(), None);
    assert_eq!(Value::symbol("a/b").as_symbol().map(|s| s.name()), Some("b"));
    assert!(Value::symbol("a/b").is_symbol());
    assert_eq!(Value::List(vec![Value::Nil]).as_list(), Some(&vec![Value::Nil]));
    assert!(Value::List(vec![]).is_list());
    assert_eq!(Value::List(vec![]).as_vector(), None);
    assert_eq!(Value::Vector(vec![Value::Nil]).as_vector(), Some(&vec![Value::Nil]));
    assert!(Value::Vector(vec![]).is_vector());
    assert!(Value::map_from(vec![]).is_map());
    assert!(Value::set_from(vec![]).is_set());
    assert_eq!(Value::set_from(vec![]).as_map(), None);
    assert_eq!(Value::Tagged(Tagged::UUID(1)).as_tagged(), Some(&Tagged::UUID(1)));
    assert!(Value::Tagged(Tagged::UUID(1)).is_tagged());
    assert_eq!(Value::Nil.as_tagged(), None);
}

#[test]
fn well_formed_values() {
    assert!(Value::Nil.is_well_formed());
    assert!(Value::List(vec![Value::Integer(2), Value::Integer(1)]).is_well_formed());
    assert!(Value::SetOf(vec![]).is_well_formed());
    assert!(Value::SetOf(vec![Value::Integer(1)]).is_well_formed());
    assert!(Value::SetOf(vec![Value::Integer(1), Value::Integer(2), Value::Integer(3)]).is_well_formed());
    assert!(!Value::SetOf(vec![Value::Integer(2), Value::Integer(1)]).is_well_formed());
    assert!(!Value::SetOf(vec![Value::Integer(1), Value::Integer(1)]).is_well_formed());
    assert!(!Value::SetOf(vec![Value::Integer(1), Value::Integer(3), Value::Integer(2)]).is_well_formed());
    assert!(!Value::SetOf(vec![float(0.0), float(-0.0)]).is_well_formed());
    assert!(Value::Mapping(vec![
        (Value::Integer(1), Value::Integer(9)),
        (Value::Integer(2), Value::Integer(9)),
    ])
    .is_well_formed());
    assert!(!Value::Mapping(vec![
        (Value::Integer(2), Value::Integer(1)),
        (Value::Integer(1), Value::Integer(2)),
    ])
    .is_well_formed());
    assert!(!Value::Mapping(vec![
        (Value::Integer(1), Value::Integer(1)),
        (Value::Integer(1), Value::Integer(2)),
    ])
    .is_well_formed());
    let bad = Value::SetOf(vec![Value::Integer(2), Value::Integer(1)]);
    assert!(!Value::List(vec![Value::Nil, bad.clone()]).is_well_formed());
    assert!(!Value::Vector(vec![bad.clone()]).is_well_formed());
    assert!(!Value::SetOf(vec![bad.clone()]).is_well_formed());
    assert!(!Value::Mapping(vec![(Value::Nil, bad.clone())]).is_well_formed());
    assert!(!Value::Mapping(vec![(bad.clone(), Value::Nil)]).is_well_formed());
    assert!(!Value::Tagged(Tagged::User(Symbol::new(String::from("t")), Box::new(bad.clone())))
        .is_well_formed());
    assert!(Value::Tagged(Tagged::Inst(1)).is_well_formed());
    assert!(Value::set_from(vec![bad.clone(), Value::Nil]).as_set().map(|s| s.len()) == Some(2));
    assert!(Value::map_from(vec![
        (Value::Integer(2), Value::Integer(1)),
        (Value::Integer(1), Value::Integer(2)),
    ])
    .is_well_formed());
}

#[test]
fn less_and_greater() {
    assert!(Value::Nil < Value::Bool(false));
    assert!(Value::Integer(2) > Value::Integer(1));
    assert!(Value::Integer(i64::MAX) < float(f64::NEG_INFINITY));
    assert!(float(-1.0) < float(1.0));
    assert!(float(0.0) <= float(-0.0));
    assert!(float(0.0) >= float(-0.0));
    assert!(!(float(f64::NAN) < float(f64::NAN)));
    assert!(float(f64::INFINITY) < float(f64::NAN));
    assert!(Value::string("ab") < Value::string("b"));
    assert!(Value::List(vec![Value::Nil]) < Value::List(vec![Value::Nil, Value::Nil]));
    assert_eq!(
        Value::keyword("a").partial_cmp(&Value::keyword("a")),
        Some(std::cmp::Ordering::Equal)
    );
}
