use edn::parser::Parser;
use serde_edn::raw::Raw;
use serde_edn::{Deserializer, Value};

fn lift(e: edn::Value) -> Raw {
    match e {
        edn::Value::Nil => Raw::Nil,
        edn::Value::Boolean(b) => Raw::Boolean(b),
        edn::Value::String(s) => Raw::String(s),
        edn::Value::Char(c) => Raw::Char(c),
        edn::Value::Symbol(s) => Raw::Symbol(s),
        edn::Value::Keyword(s) => Raw::Keyword(s),
        edn::Value::Integer(i) => Raw::Integer(i),
        edn::Value::Float(f) => Raw::Float(f.into_inner().to_bits()),
        edn::Value::List(v) => Raw::List(v.into_iter().map(lift).collect()),
        edn::Value::Vector(v) => Raw::Vector(v.into_iter().map(lift).collect()),
        edn::Value::Map(m) => Raw::Mapping(m.into_iter().map(|(k, v)| (lift(k), lift(v))).collect()),
        edn::Value::Set(s) => Raw::SetOf(s.into_iter().map(lift).collect()),
        edn::Value::Tagged(t, v) => Raw::Tagged(t, Box::new(lift(*v))),
    }
}

/// Reads `text` to its end with the decoder, then lets one parser of `edn`
/// read as many values, and holds the two against each other.
fn sweep_one(text: &str) {
    let mut de = Deserializer::from_str(text);
    let mut got: Vec<Value> = Vec::new();
    while let Ok(v) = de.read_parsed() {
        got.push(v);
        assert!(got.len() <= text.len());
    }
    let mut parser = Parser::new(text);
    for v in got {
        match parser.read() {
            Some(Ok(tree)) => assert_eq!(Value::from(lift(tree)), v, "in {:?}", text),
            other => panic!("the parser gave {:?} in {:?}", other, text),
        }
    }
}

fn sweep(alphabet: &[char], len: usize) {
    let mut digits = vec![0usize; len];
    loop {
        let text: String = digits.iter().map(|d| alphabet[*d]).collect();
        sweep_one(&text);
        let mut at = 0;
        loop {
            if at == len {
                return;
            }
            digits[at] += 1;
            if digits[at] < alphabet.len() {
                break;
            }
            digits[at] = 0;
            at += 1;
        }
    }
}

#[test]
fn every_short_text() {
    let alphabet = [
        '(', ')', '[', ']', '{', '}', '#', '"', '\\', '+', '-', '.', ':', '/', 'a', '1', ' ', ',',
        '@', 'é', '\n',
    ];
    for len in 0..4 {
        sweep(&alphabet, len);
    }
}

#[test]
fn every_text_of_four() {
    let alphabet = [
        '(', ')', '[', ']', '{', '}', '#', '"', '\\', '+', '-', '.', ':', '/', 'a', '1', ' ', ',',
        '@', 'é',
    ];
    sweep(&alphabet, 4);
}

#[test]
fn every_text_of_five() {
    let alphabet = [
        '(', ')', '[', ']', '{', '}', '#', '"', '\\', '+', '-', '.', ':', '/', 'a', '1', ' ', ',',
        '@',
    ];
    sweep(&alphabet, 5);
}

#[test]
fn texts_drawn_by_lot() {
    let alphabet = [
        '(', ')', '[', ']', '{', '}', '#', '"', '\\', '+', '-', '.', ':', '/', 'a', 'b', 'n', '1',
        '9', ' ', ' ', ' ', ',', '@', 'é', '\n', '\t', '\r', '\u{a0}', '(', '[', '{', '"',
    ];
    let mut state: u64 = 0x2545_f491_4f6c_dd1d;
    for _ in 0..300_000 {
        let mut text = String::new();
        state = state.wrapping_mul(6364136223846793005).wrapping_add(1442695040888963407);
        let len = 6 + (state >> 33) % 30;
        for _ in 0..len {
            state = state.wrapping_mul(6364136223846793005).wrapping_add(1442695040888963407);
            text.push(alphabet[((state >> 33) % alphabet.len() as u64) as usize]);
        }
        sweep_one(&text);
    }
}

#[test]
fn texts_of_five_and_six() {
    sweep(&['(', ')', '{', '}', '#', '"', '\\', 'a', '1', ' '], 5);
    sweep(&['#', '{', '}', 'a', ' ', '1', '"'], 6);
    sweep(&['+', '-', '.', '1', 'a', ' ', '\t', '\r'], 6);
    sweep(&['"', '\\', 'n', 'q', ' ', '('], 6);
}

#[test]
fn longer_texts() {
    for text in [
        "(apply f {:k1 :v1 :k2 v2} #{:k2}) [1 2.5 \"s\"] \\c nil",
        "#inst \"1985-04-12T23:20:50.52Z\" #uuid \"f81d4fae\" {1 [2 (3 #{4})]}",
        "1 2 3 @ 4",
        "(1 (2 (3 (4 (5 [6 {7 8}]))))) , , 9 ]",
        "-12.5e3 +7 .5 1. a.b/c:d#e -x +y ... / :k/w",
        "\"a\\tb\\rc\\nd\\\\e\\\"f\" \"é\" \\newline \\space \\é \\ab",
        "{:a 1 :b} x",
        "#{1 1 2 2} #{}",
        "#a #b #c 1 2",
        "18446744073709551616 1",
        "[9223372036854775807 -9223372036854775808] 9223372036854775808",
    ] {
        sweep_one(text);
    }
}
