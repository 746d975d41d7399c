use stacklang::interpreter::{list_value, show};
use stacklang::lang::string::CharString;
use stacklang::lang::string::StringApi;
use stacklang::lang::{Number, OwnedValue, Value};

fn num(v: f64) -> Number {
    Number::from_bits(v.to_bits())
}

fn shown(v: &Value, number_text: &str) -> String {
    let text: Vec<char> = number_text.chars().collect();
    show(v, &text).into_iter().collect()
}

fn listed(v: &Value, number_text: &str) -> String {
    let text: Vec<char> = number_text.chars().collect();
    list_value(v, &text).into_iter().collect()
}

#[test]
fn convert() {
    assert_eq!("ğŸ˜ƒağŸ˜„bğŸ˜", &CharString::from_str("ğŸ˜ƒağŸ˜„bğŸ˜").text());
}

#[test]
fn i32() {
    assert_eq!(Value::Number(num(f64::from(32i32))), Value::Number(num(32.)));
    assert_eq!(OwnedValue::Number(num(32i32 as f64)), OwnedValue::Number(num(32.)));
}

#[test]
fn display() {
    assert_eq!("32", &shown(&Value::Number(num(32.)), &format!("{}", 32f64)));
    assert_eq!("a\n", &shown(&Value::String(CharString::from_str("a\n")), ""));
    assert_eq!("Fn[3, test]", &shown(&Value::Address(3, "test".into()), ""));
}

#[test]
fn test_values_debug() {
    assert_eq!("32", &listed(&Value::Number(num(32.)), &format!("{}", 32f64)));
    assert_eq!(r#""a\n""#, &listed(&Value::String(CharString::from_str("a\n")), ""));
    assert_eq!("Fn[3, test]", &listed(&Value::Address(3, "test".into()), ""));
    assert_eq!("32", &listed(&OwnedValue::Number(num(32.)), &format!("{}", 32f64)));
    assert_eq!(r#""a\n""#, &listed(&OwnedValue::String(CharString::from_str("a\n")), ""));
    assert_eq!("Fn[3, test]", &listed(&OwnedValue::Address(3, "test".into()), ""));
    assert_eq!("true", &listed(&Value::Bool(true), ""));
}

#[test]
fn truthiness_of_values() {
    assert!(Value::Number(num(1.)).is_truthy());
    assert!(Value::Number(num(-0.5)).is_truthy());
    assert!(Value::Number(num(f64::INFINITY)).is_truthy());
    assert!(!Value::Number(num(0.)).is_truthy());
    assert!(!Value::Number(num(-0.)).is_truthy());
    assert!(!Value::Number(num(f64::NAN)).is_truthy());
    assert!(Value::String(CharString::from_str("a")).is_truthy());
    assert!(!Value::String(CharString::from_str("")).is_truthy());
    assert!(Value::Bool(true).is_truthy());
    assert!(!Value::Bool(false).is_truthy());
    assert!(Value::Address(0, "f".into()).is_truthy());
}

#[test]
fn char_string_counts_characters() {
    let s = CharString::from_str("h\u{e9}llo w\u{f6}rld");
    assert_eq!(s.len(), 11);
    assert!(!s.is_empty());
    assert_eq!(s.find(&CharString::from_str("w\u{f6}")), Some(6));
    assert_eq!(s.find(&CharString::from_str("")), Some(0));
    assert_eq!(s.find(&CharString::from_str("xyz")), None);
    assert_eq!(s.find(&CharString::from_str("h\u{e9}llo w\u{f6}rld!")), None);
    assert_eq!(s.substring(1, 5).text(), "\u{e9}llo");
    assert_eq!(CharString::from_char('x').text(), "x");
    assert_eq!(s.get(1), '\u{e9}');
}
