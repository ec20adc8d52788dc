use rbx_studio_mcp::value::{float_to_string, value_to_mcp_string, Value};

fn text(s: &str) -> Value {
    Value::Text(Some(s.to_string()))
}

#[test]
fn nil_and_booleans() {
    assert_eq!(value_to_mcp_string(Value::Nil), "null");
    assert_eq!(value_to_mcp_string(Value::Boolean(true)), "true");
    assert_eq!(value_to_mcp_string(Value::Boolean(false)), "false");
}

#[test]
fn integers_in_decimal() {
    assert_eq!(value_to_mcp_string(Value::Integer(0)), "0");
    assert_eq!(value_to_mcp_string(Value::Integer(42)), "42");
    assert_eq!(value_to_mcp_string(Value::Integer(-1907)), "-1907");
    assert_eq!(value_to_mcp_string(Value::Integer(u64::MAX as i128)), "18446744073709551615");
    assert_eq!(value_to_mcp_string(Value::Integer(i64::MIN as i128)), "-9223372036854775808");
    assert_eq!(value_to_mcp_string(Value::Integer(i128::MIN)), i128::MIN.to_string());
}

fn float(f: f64) -> Value {
    Value::Float { bits: f.to_bits(), text: f.to_string() }
}

#[test]
fn non_finite_floats() {
    assert_eq!(value_to_mcp_string(float(f64::NAN)), "NaN");
    assert_eq!(value_to_mcp_string(float(-f64::NAN)), "NaN");
    assert_eq!(value_to_mcp_string(float(f64::INFINITY)), "Infinity");
    assert_eq!(value_to_mcp_string(float(f64::NEG_INFINITY)), "-Infinity");
    let widened = f32::NAN as f64;
    assert_eq!(float_to_string(widened.to_bits(), &widened.to_string()), "NaN");
}

#[test]
fn finite_floats_keep_their_text() {
    assert_eq!(value_to_mcp_string(float(1.5)), "1.5");
    assert_eq!(value_to_mcp_string(float(-0.25)), "-0.25");
    assert_eq!(float_to_string(3.0f64.to_bits(), &"3".to_string()), "3");
}

#[test]
fn text_and_invalid_text() {
    assert_eq!(value_to_mcp_string(text("hello")), "hello");
    assert_eq!(value_to_mcp_string(Value::Text(None)), "");
}

#[test]
fn binary_as_lowercase_hex() {
    assert_eq!(value_to_mcp_string(Value::Binary(vec![0x00, 0x0f, 0xab, 0xff])), "000fabff");
    assert_eq!(value_to_mcp_string(Value::Binary(vec![])), "");
}

#[test]
fn arrays_and_nesting() {
    assert_eq!(value_to_mcp_string(Value::Array(vec![])), "[]");
    let v = Value::Array(vec![
        Value::Integer(1),
        text("two"),
        Value::Array(vec![Value::Nil, Value::Boolean(true)]),
    ]);
    assert_eq!(value_to_mcp_string(v), "[1, two, [null, true]]");
}

#[test]
fn mappings_keep_insertion_order() {
    assert_eq!(value_to_mcp_string(Value::Mapping(vec![])), "{}");
    let v = Value::Mapping(vec![
        (text("z"), Value::Integer(1)),
        (text("a"), Value::Array(vec![Value::Integer(2), Value::Integer(3)])),
        (Value::Integer(7), Value::Mapping(vec![(text("k"), Value::Nil)])),
    ]);
    assert_eq!(value_to_mcp_string(v), "{z: 1, a: [2, 3], 7: {k: null}}");
}

#[test]
fn extension_placeholder() {
    assert_eq!(value_to_mcp_string(Value::Ext(5, vec![1, 2])), "<ext>");
}
