use netlogo_world_parser::value::coerce;
use netlogo_world_parser::Value;
use std::convert::TryFrom;

#[test]
fn coercion_follows_priority() {
    assert_eq!(coerce("42"), Value::U64(42));
    assert_eq!(coerce("-1"), Value::I64(-1));
    assert_eq!(coerce("3.14"), Value::Float("3.14".to_string()));
    assert_eq!(coerce("true"), Value::Bool(true));
    assert_eq!(coerce("false"), Value::Bool(false));
    assert_eq!(coerce("abc"), Value::String("abc".to_string()));
}

#[test]
fn float_text_reads_as_f64() {
    match coerce("3.14") {
        Value::Float(t) => assert_eq!(t.parse::<f64>().unwrap(), 3.14),
        other => panic!("{:?}", other),
    }
}

#[test]
fn coercion_is_repeatable() {
    for s in ["42", "-1", "3.14", "true", "abc", "", "1e5"] {
        assert_eq!(coerce(s), coerce(s));
    }
}

#[test]
fn coercion_edges() {
    assert_eq!(coerce("+7"), Value::U64(7));
    assert_eq!(coerce("18446744073709551615"), Value::U64(u64::MAX));
    assert_eq!(coerce("18446744073709551616"), Value::Float("18446744073709551616".to_string()));
    assert_eq!(coerce("-9223372036854775808"), Value::I64(i64::MIN));
    assert_eq!(coerce("-9223372036854775809"), Value::Float("-9223372036854775809".to_string()));
    assert_eq!(coerce("-0"), Value::I64(0));
    assert_eq!(coerce("1e5"), Value::Float("1e5".to_string()));
    assert_eq!(coerce("1."), Value::Float("1.".to_string()));
    assert_eq!(coerce(".5E-3"), Value::Float(".5E-3".to_string()));
    assert_eq!(coerce("-inf"), Value::Float("-inf".to_string()));
    assert_eq!(coerce("NaN"), Value::Float("NaN".to_string()));
    assert_eq!(coerce("Infinity"), Value::Float("Infinity".to_string()));
    assert_eq!(coerce("."), Value::String(".".to_string()));
    assert_eq!(coerce("e5"), Value::String("e5".to_string()));
    assert_eq!(coerce("1e"), Value::String("1e".to_string()));
    assert_eq!(coerce("1.2.3"), Value::String("1.2.3".to_string()));
    assert_eq!(coerce("True"), Value::String("True".to_string()));
    assert_eq!(coerce(" 1"), Value::String(" 1".to_string()));
    assert_eq!(coerce(""), Value::String(String::new()));
    assert_eq!(coerce("+"), Value::String("+".to_string()));
}

#[test]
fn recognised_floats_agree_with_std() {
    for s in ["1e5", "1.", ".5E-3", "-inf", "NaN", "Infinity", "+2.5e+10", "18446744073709551616"] {
        assert!(matches!(coerce(s), Value::Float(_)), "{}", s);
        assert!(s.parse::<f64>().is_ok(), "{}", s);
    }
    for s in [".", "e5", "1e", "1.2.3", "infinit", "--1", "1e+"] {
        assert!(s.parse::<f64>().is_err(), "{}", s);
        assert!(matches!(coerce(s), Value::String(_)), "{}", s);
    }
}

#[test]
fn conversions_take_the_matching_variant() {
    assert_eq!(u64::try_from(Value::U64(6)), Ok(6));
    assert_eq!(u64::try_from(Value::I64(-6)), Err(Value::I64(-6)));
    assert_eq!(i64::try_from(Value::I64(-6)), Ok(-6));
    assert_eq!(bool::try_from(Value::Bool(true)), Ok(true));
    assert_eq!(String::try_from(Value::String("a".to_string())), Ok("a".to_string()));
    assert_eq!(bool::try_from(Value::U64(1)), Err(Value::U64(1)));
}
