use serde_edn::raw::Raw;
use serde_edn::reader::{classify, has_eof, read, Pull};
use serde_edn::value::de::Visit;
use serde_edn::{from_str, Decoded, Deserializer, Error, Shape, Tagged, Symbol, Value};

fn node(text: &str) -> Result<Value, Error> {
    read(text).0
}

#[test]
fn blank_text_is_eof() {
    assert_eq!(node(""), Err(Error::Eof));
    assert_eq!(node("   "), Err(Error::Eof));
    assert_eq!(node(" ,\n\t, "), Err(Error::Eof));
    assert_eq!(node("\u{a0}\u{2003}"), Err(Error::Eof));
}

#[test]
fn truncated_strings_are_eof() {
    assert_eq!(node("\"randomda"), Err(Error::Eof));
    assert_eq!(node("\"abc\\"), Err(Error::Eof));
    assert_eq!(node("(1 \"abc"), Err(Error::Eof));
    assert_eq!(node("\""), Err(Error::Eof));
    assert_eq!(node("\"a\\qb"), Err(Error::Eof));
}

#[test]
fn a_text_that_ends_inside_a_form_is_eof() {
    assert_eq!(node("("), Err(Error::Eof));
    assert_eq!(node("(1 2"), Err(Error::Eof));
    assert_eq!(node("[1 2"), Err(Error::Eof));
    assert_eq!(node("[1 2 , "), Err(Error::Eof));
    assert_eq!(node("{:a 1"), Err(Error::Eof));
    assert_eq!(node("{:a"), Err(Error::Eof));
    assert_eq!(node("#{1 2"), Err(Error::Eof));
    assert_eq!(node("#{"), Err(Error::Eof));
    assert_eq!(node("(1 [2 {3 #{4"), Err(Error::Eof));
    assert_eq!(node("(1 [2] "), Err(Error::Eof));
    assert_eq!(node("#"), Err(Error::Eof));
    assert_eq!(node("#inst"), Err(Error::Eof));
    assert_eq!(node("#inst   "), Err(Error::Eof));
    assert_eq!(node("#a 1"), Err(Error::Eof));
    assert_eq!(node("(#inst"), Err(Error::Eof));
    assert_eq!(node("\\"), Err(Error::Eof));
    assert_eq!(node("(\\"), Err(Error::Eof));
    assert_eq!(
        from_str("[1 2", &Shape::Sequence(Box::new(Shape::U8))),
        Err(Error::Eof)
    );
    assert_eq!(from_str("(tru", &Shape::Any), Err(Error::Eof));

    assert_eq!(node("(1 2)"), Ok(Value::List(vec![Value::Integer(1), Value::Integer(2)])));
    assert_eq!(node("(1 @"), Err(Error::Bad));
    assert_eq!(node("(1 ]"), Err(Error::Bad));
    assert_eq!(node("\\ "), Err(Error::Bad));
}

#[test]
fn a_short_keyword_is_a_symbol() {
    assert_eq!(node("tru"), Ok(Value::symbol("tru")));
    assert_eq!(from_str("tru", &Shape::Bool), Err(Error::Bad));
}

#[test]
fn malformed_text_is_bad() {
    assert_eq!(node(")"), Err(Error::Bad));
    assert_eq!(node("]"), Err(Error::Bad));
    assert_eq!(node("}"), Err(Error::Bad));
    assert_eq!(node("(]"), Err(Error::Bad));
    assert_eq!(node("{:a}"), Err(Error::Bad));
    assert_eq!(node("{:a 1 :b}"), Err(Error::Bad));
    assert_eq!(node("#1"), Err(Error::Bad));
    assert_eq!(node("# "), Err(Error::Bad));
    assert_eq!(node("+)"), Err(Error::Bad));
    assert_eq!(node("-\r"), Err(Error::Bad));
    assert_eq!(node("@"), Err(Error::Bad));
    assert_eq!(node("~x"), Err(Error::Bad));
    assert_eq!(node("é"), Err(Error::Bad));
    assert_eq!(node("\"a\\qb\""), Err(Error::Bad));
    assert_eq!(node("\\ab"), Err(Error::Bad));
    assert_eq!(node("(1 @)"), Err(Error::Bad));
}

#[test]
fn integers_at_the_limits() {
    assert_eq!(node("9223372036854775807"), Ok(Value::Integer(i64::MAX)));
    assert_eq!(node("+9223372036854775807"), Ok(Value::Integer(i64::MAX)));
    assert_eq!(node("-9223372036854775808"), Ok(Value::Integer(i64::MIN)));
    assert_eq!(node("9223372036854775808"), Err(Error::Bad));
    assert_eq!(node("+9223372036854775808"), Err(Error::Bad));
    assert_eq!(node("-9223372036854775809"), Err(Error::Bad));
    assert_eq!(node("99999999999999999999999999"), Err(Error::Bad));
    assert_eq!(node("000000000000000000000000000012"), Ok(Value::Integer(12)));
    assert_eq!(node("[1 99999999999999999999]"), Err(Error::Bad));

    assert_eq!(
        from_str("9223372036854775807", &Shape::I64),
        Ok(Decoded::I64(i64::MAX))
    );
    assert_eq!(
        from_str("-9223372036854775808", &Shape::I64),
        Ok(Decoded::I64(i64::MIN))
    );
    assert_eq!(
        from_str("9223372036854775807", &Shape::U64),
        Ok(Decoded::U64(9223372036854775807))
    );
    assert_eq!(from_str("-1", &Shape::U64), Err(Error::NumericOutOfBounds));
}

#[test]
fn numbers_and_symbols() {
    assert_eq!(node("1."), Ok(Value::float(1.0_f64.to_bits())));
    assert_eq!(node(".5"), Ok(Value::float(0.5_f64.to_bits())));
    assert_eq!(node("-1.25"), Ok(Value::float((-1.25_f64).to_bits())));
    assert_eq!(node("99999999999999999999.0"), Ok(Value::float(1e20_f64.to_bits())));
    assert_eq!(node("+"), Ok(Value::symbol("+")));
    assert_eq!(node("- 1"), Ok(Value::symbol("-")));
    assert_eq!(node("-a"), Ok(Value::symbol("-a")));
    assert_eq!(node("."), Ok(Value::symbol(".")));
    assert_eq!(node("/"), Ok(Value::symbol("/")));
    assert_eq!(node("a1:#/b"), Ok(Value::symbol("a1:#/b")));
    assert_eq!(node(":"), Ok(Value::keyword("")));
    assert_eq!(node("\\,"), Ok(Value::Char(',')));
    assert_eq!(node("\\("), Ok(Value::Char('(')));
    assert_eq!(node("\\é"), Ok(Value::Char('é')));
    assert_eq!(node("\"é(]\""), Ok(Value::string("é(]")));
}

#[test]
fn what_follows_the_first_value_plays_no_part() {
    assert_eq!(from_str("1 )", &Shape::I32), Ok(Decoded::I32(1)));
    assert_eq!(from_str("true @@@", &Shape::Bool), Ok(Decoded::Bool(true)));
    assert_eq!(from_str("(1 2) \"abc", &Shape::Sequence(Box::new(Shape::U8))),
        Ok(Decoded::Sequence(vec![Decoded::U8(1), Decoded::U8(2)])));
    assert_eq!(from_str("12ab", &Shape::I32), Ok(Decoded::I32(12)));
}

#[test]
fn a_decoder_reads_value_after_value() {
    let mut de = Deserializer::from_str("1 :two (3) ) 5");
    assert_eq!(de.deserialize_u8(), Ok(1));
    assert_eq!(de.deserialize_identifier(), Ok(String::from("two")));
    assert_eq!(de.read_parsed(), Ok(Value::List(vec![Value::Integer(3)])));
    assert_eq!(de.read_parsed(), Err(Error::Bad));
    assert_eq!(de.read_parsed(), Err(Error::Eof));

    let mut de = Deserializer::from_str("12ab");
    assert_eq!(de.deserialize_i64(), Ok(12));
    assert_eq!(de.deserialize_any(), Ok(Visit::Symbol(Symbol::new(String::from("ab")))));
    assert_eq!(de.deserialize_any(), Err(Error::Eof));

    let mut de = Deserializer::from_str("é1 2");
    assert_eq!(de.read_parsed(), Err(Error::Bad));
}

#[test]
fn the_rest_of_the_text() {
    let (first, rest) = read("  [1 2],  é");
    assert_eq!(first, Ok(Value::Vector(vec![Value::Integer(1), Value::Integer(2)])));
    assert_eq!(rest, ",  é");
    let (first, rest) = read("(1");
    assert_eq!(first, Err(Error::Eof));
    assert_eq!(rest, "");
    let (first, rest) = read("");
    assert_eq!(first, Err(Error::Eof));
    assert_eq!(rest, "");
}

#[test]
fn tagged_values() {
    assert_eq!(
        node("#inst \"1985\""),
        Ok(Value::Tagged(Tagged::User(
            Symbol::new(String::from("inst")),
            Box::new(Value::string("1985"))
        )))
    );
    assert_eq!(
        node("#my/tag [1]"),
        Ok(Value::Tagged(Tagged::User(
            Symbol::new(String::from("my/tag")),
            Box::new(Value::Vector(vec![Value::Integer(1)]))
        )))
    );
    assert_eq!(node("#a 1"), Err(Error::Eof));
    assert_eq!(node("#a 1 2"), Ok(Value::Tagged(Tagged::User(
        Symbol::new(String::from("a 1")),
        Box::new(Value::Integer(2))
    ))));
    assert_eq!(node("#ab @"), Err(Error::Bad));
}

#[test]
fn nesting_has_a_limit() {
    let shallow = format!("{}{}", "(".repeat(100), ")".repeat(100));
    assert!(node(&shallow).is_ok());
    let deep = format!("{}{}", "[".repeat(200), "]".repeat(200));
    assert_eq!(node(&deep), Err(Error::Bad));
    let deeper = "(".repeat(100_000);
    assert_eq!(node(&deeper), Err(Error::Bad));
    let tags = format!("{}1", "#ab ".repeat(200));
    assert_eq!(node(&tags), Err(Error::Bad));
}

#[test]
fn what_a_pull_comes_to() {
    assert_eq!(classify(Pull::End), Err(Error::Eof));
    assert_eq!(
        classify(Pull::Failure(String::from("expected closing `\"`, found EOF"))),
        Err(Error::Eof)
    );
    assert_eq!(classify(Pull::Failure(String::from("unclosed `(`"))), Err(Error::Bad));
    assert_eq!(classify(Pull::Failure(String::from(""))), Err(Error::Bad));
    assert_eq!(classify(Pull::Node(Raw::Integer(3))), Ok(Value::Integer(3)));
    assert_eq!(
        classify(Pull::Node(Raw::Symbol(String::from("a/b")))),
        Ok(Value::symbol("a/b"))
    );
}

#[test]
fn the_word_eof_in_a_message() {
    assert!(has_eof("EOF"));
    assert!(has_eof("found EOF"));
    assert!(has_eof("EOF here"));
    assert!(has_eof("xEOFx"));
    assert!(has_eof("EEOF"));
    assert!(!has_eof(""));
    assert!(!has_eof("EO"));
    assert!(!has_eof("eof"));
    assert!(!has_eof("E OF"));
    assert!(!has_eof("EOéF"));
}

#[test]
fn a_tree_and_its_value() {
    let tree = Raw::Mapping(vec![
        (Raw::Keyword(String::from("b")), Raw::Integer(2)),
        (Raw::Keyword(String::from("a")), Raw::Integer(1)),
        (Raw::Keyword(String::from("b")), Raw::Integer(3)),
    ]);
    assert_eq!(
        Value::from(tree),
        Value::Mapping(vec![
            (Value::keyword("a"), Value::Integer(1)),
            (Value::keyword("b"), Value::Integer(3)),
        ])
    );
    let tree = Raw::SetOf(vec![
        Raw::Integer(3),
        Raw::Boolean(true),
        Raw::Integer(-1),
        Raw::Integer(3),
        Raw::Nil,
    ]);
    assert_eq!(
        Value::from(tree),
        Value::SetOf(vec![
            Value::Nil,
            Value::Bool(true),
            Value::Integer(-1),
            Value::Integer(3),
        ])
    );
    let tree = Raw::Tagged(
        String::from("t"),
        Box::new(Raw::List(vec![Raw::Float(1.5_f64.to_bits()), Raw::Char('c')])),
    );
    assert_eq!(
        Value::from(tree),
        Value::Tagged(Tagged::User(
            Symbol::new(String::from("t")),
            Box::new(Value::List(vec![Value::Float(1.5_f64.to_bits()), Value::Char('c')]))
        ))
    );
    assert_eq!(
        Value::from(Raw::Vector(vec![Raw::String(String::from("s")), Raw::Symbol(String::from("y"))])),
        Value::Vector(vec![Value::string("s"), Value::symbol("y")])
    );
}

#[test]
fn white_space_is_what_is_skipped() {
    let listed = |c: char| {
        ('\u{9}'..='\u{d}').contains(&c)
            || c == '\u{20}'
            || c == '\u{85}'
            || c == '\u{a0}'
            || c == '\u{1680}'
            || ('\u{2000}'..='\u{200a}').contains(&c)
            || c == '\u{2028}'
            || c == '\u{2029}'
            || c == '\u{202f}'
            || c == '\u{205f}'
            || c == '\u{3000}'
    };
    let mut count = 0;
    for code in 0..=0x10ffff_u32 {
        if let Some(c) = char::from_u32(code) {
            assert_eq!(c.is_whitespace(), listed(c), "{:?}", c);
            if listed(c) {
                count += 1;
                let text = format!("{}1{}", c, c);
                assert_eq!(read(&text).0, Ok(Value::Integer(1)), "{:?}", c);
                assert_eq!(read(&c.to_string()).0, Err(Error::Eof), "{:?}", c);
                let literal = format!("\\a{}b", c);
                assert_eq!(read(&literal), (Ok(Value::Char('a')), &literal[1 + 'a'.len_utf8()..]));
            }
        }
    }
    assert_eq!(count, 25);
    assert_eq!(read("\u{200b}").0, Err(Error::Bad));
    assert_eq!(read("\u{feff}1").0, Err(Error::Bad));
    assert_eq!(read("\u{180e}").0, Err(Error::Bad));
}
