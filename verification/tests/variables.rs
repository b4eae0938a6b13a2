use s2a::variables::{ParseValueTypeError, ValueType, parse_key_value};

fn infer(raw: &str) -> ValueType {
    let parsed: Result<ValueType, ParseValueTypeError> = ValueType::from_str(raw);
    parsed.expect("inference is total")
}

#[test]
fn infer_boolean_literals() {
    assert_eq!(infer("true"), ValueType::Bool(true));
    assert_eq!(infer("false"), ValueType::Bool(false));
    // only the exact lower-case spellings are booleans
    assert_eq!(infer("True"), ValueType::Str("True".to_string()));
    assert_eq!(infer("FALSE"), ValueType::Str("FALSE".to_string()));
}

#[test]
fn infer_integer_literals() {
    assert_eq!(infer("0"), ValueType::Int64(0));
    assert_eq!(infer("1"), ValueType::Int64(1));
    assert_eq!(infer("-1"), ValueType::Int64(-1));
    assert_eq!(infer("22"), ValueType::Int64(22));
    assert_eq!(infer("9223372036854775807"), ValueType::Int64(i64::MAX));
    assert_eq!(infer("-9223372036854775808"), ValueType::Int64(i64::MIN));
}

#[test]
fn infer_integer_wants_no_plus_sign() {
    // an integer literal takes an optional minus and digits only; a value
    // with a plus sign still reads as a number, through the float rule
    assert_eq!(infer("+5"), ValueType::Float64("+5".to_string()));
}

#[test]
fn infer_float_literals() {
    assert_eq!(infer("1.23"), ValueType::Float64("1.23".to_string()));
    match infer("1.23") {
        ValueType::Float64(raw) => {
            let value: f64 = raw.parse().expect("a float literal");
            assert_eq!(value, 1.23f64);
        }
        other => panic!("expected a float, got {:?}", other),
    }
    // an integer too large for sixty-four signed bits falls through to float
    assert_eq!(
        infer("9223372036854775808"),
        ValueType::Float64("9223372036854775808".to_string())
    );
    assert_eq!(infer("1e5"), ValueType::Float64("1e5".to_string()));
    assert_eq!(infer("-2.5E-3"), ValueType::Float64("-2.5E-3".to_string()));
    assert_eq!(infer(".5"), ValueType::Float64(".5".to_string()));
    assert_eq!(infer("5."), ValueType::Float64("5.".to_string()));
    assert_eq!(infer("inf"), ValueType::Float64("inf".to_string()));
    assert_eq!(infer("NaN"), ValueType::Float64("NaN".to_string()));
    // not floats
    assert_eq!(infer("1e"), ValueType::Str("1e".to_string()));
    assert_eq!(infer("."), ValueType::Str(".".to_string()));
    assert_eq!(infer("1.2.3"), ValueType::Str("1.2.3".to_string()));
}

#[test]
fn infer_plain_strings() {
    assert_eq!(infer("3G"), ValueType::Str("3G".to_string()));
    assert_eq!(infer("root"), ValueType::Str("root".to_string()));
    assert_eq!(infer(""), ValueType::Str("".to_string()));
}

#[test]
fn infer_quoted_integers_as_strings() {
    assert_eq!(infer("'22'"), ValueType::Str("22".to_string()));
    assert_eq!(infer(r#""22""#), ValueType::Str("22".to_string()));
    // mismatched or incomplete quoting stays verbatim
    assert_eq!(infer("'22\""), ValueType::Str("'22\"".to_string()));
    assert_eq!(infer("'22"), ValueType::Str("'22".to_string()));
    assert_eq!(infer("''"), ValueType::Str("''".to_string()));
    // quoted non-digits stay verbatim
    assert_eq!(infer("'ab'"), ValueType::Str("'ab'".to_string()));
}

#[test]
fn inference_is_idempotent_on_canonical_cases() {
    // re-stringifying each inferred value and inferring again is stable
    assert_eq!(infer("true"), ValueType::Bool(true));
    assert_eq!(infer(&format!("{}", true)), ValueType::Bool(true));
    assert_eq!(infer("22"), ValueType::Int64(22));
    assert_eq!(infer(&format!("{}", 22i64)), ValueType::Int64(22));
    assert_eq!(infer("1.23"), ValueType::Float64("1.23".to_string()));
    assert_eq!(infer(&format!("{}", 1.23f64)), ValueType::Float64("1.23".to_string()));
    assert_eq!(infer("3G"), ValueType::Str("3G".to_string()));
}

#[test]
fn parse_key_value_pairs_with_typed_values() {
    assert_eq!(
        parse_key_value("become:true"),
        Some(("become".to_string(), ValueType::Bool(true)))
    );
    assert_eq!(
        parse_key_value("num_workers:4"),
        Some(("num_workers".to_string(), ValueType::Int64(4)))
    );
    assert_eq!(
        parse_key_value("pi:1.23"),
        Some(("pi".to_string(), ValueType::Float64("1.23".to_string())))
    );
    assert_eq!(
        parse_key_value("swap_size:3G"),
        Some(("swap_size".to_string(), ValueType::Str("3G".to_string())))
    );
    assert_eq!(
        parse_key_value("port:'22'"),
        Some(("port".to_string(), ValueType::Str("22".to_string())))
    );
}

#[test]
fn parse_key_value_without_colon_is_rejected() {
    assert_eq!(parse_key_value("no-colon-here"), None);
    assert_eq!(parse_key_value(""), None);
}

#[test]
fn parse_key_value_splits_at_first_colon() {
    assert_eq!(
        parse_key_value("url:http://example"),
        Some(("url".to_string(), ValueType::Str("http://example".to_string())))
    );
}
