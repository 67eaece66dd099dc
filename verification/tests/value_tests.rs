use bytecode_vm::value::{add_values, i64_to_string, u64_to_string, Value};

#[test]
fn display_number_positive() {
    assert_eq!(Value::Number(3).to_display_string(), "3");
}

#[test]
fn display_number_zero() {
    assert_eq!(Value::Number(0).to_display_string(), "0");
}

#[test]
fn display_number_negative() {
    assert_eq!(Value::Number(-42).to_display_string(), "-42");
}

#[test]
fn display_number_extremes() {
    assert_eq!(
        Value::Number(i64::MIN).to_display_string(),
        "-9223372036854775808"
    );
    assert_eq!(
        Value::Number(i64::MAX).to_display_string(),
        "9223372036854775807"
    );
}

#[test]
fn display_boolean() {
    assert_eq!(Value::Boolean(true).to_display_string(), "true");
    assert_eq!(Value::Boolean(false).to_display_string(), "false");
}

#[test]
fn display_empty() {
    assert_eq!(Value::Empty.to_display_string(), "[empty]");
}

#[test]
fn display_text() {
    assert_eq!(Value::Text("hi".to_string()).to_display_string(), "hi");
}

#[test]
fn u64_rendering() {
    assert_eq!(u64_to_string(0), "0");
    assert_eq!(u64_to_string(10), "10");
    assert_eq!(u64_to_string(90210), "90210");
    assert_eq!(u64_to_string(u64::MAX), "18446744073709551615");
}

#[test]
fn i64_rendering() {
    assert_eq!(i64_to_string(-1), "-1");
    assert_eq!(i64_to_string(1000000), "1000000");
}

#[test]
fn truthiness() {
    assert!(Value::Number(1).is_truthy());
    assert!(Value::Number(i64::MAX).is_truthy());
    assert!(!Value::Number(0).is_truthy());
    assert!(!Value::Number(-1).is_truthy());
    assert!(Value::Boolean(true).is_truthy());
    assert!(!Value::Boolean(false).is_truthy());
    assert!(!Value::Text("x".to_string()).is_truthy());
    assert!(!Value::Empty.is_truthy());
}

#[test]
fn add_numbers() {
    let r = add_values(&Value::Number(2), &Value::Number(3));
    assert_eq!(r, Some(Value::Number(5)));
}

#[test]
fn add_numbers_wraps() {
    let r = add_values(&Value::Number(i64::MAX), &Value::Number(1));
    assert_eq!(r, Some(Value::Number(i64::MIN)));
}

#[test]
fn add_texts_concatenates() {
    let r = add_values(
        &Value::Text("foo".to_string()),
        &Value::Text("bar".to_string()),
    );
    assert_eq!(r, Some(Value::Text("foobar".to_string())));
}

#[test]
fn add_text_and_number_coerces() {
    let r = add_values(&Value::Text("hi ".to_string()), &Value::Number(3));
    assert_eq!(r, Some(Value::Text("hi 3".to_string())));
}

#[test]
fn add_number_and_text_appends_the_number_too() {
    let r = add_values(&Value::Number(-7), &Value::Text("below ".to_string()));
    assert_eq!(r, Some(Value::Text("below -7".to_string())));
}

#[test]
fn add_incompatible_kinds_is_none() {
    assert_eq!(add_values(&Value::Boolean(true), &Value::Number(1)), None);
    assert_eq!(add_values(&Value::Empty, &Value::Empty), None);
    assert_eq!(
        add_values(&Value::Boolean(true), &Value::Text("x".to_string())),
        None
    );
}
