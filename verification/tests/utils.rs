use sophia::namespace::{read_value, write_value};
use sophia::value::Value;

#[test]
fn count() {
    // Counts characters correctly.
    assert_eq!(sophia::string::count("\t\t\n\t\t\n", '\t'), 4);
    // Handles absence of characters correctly.
    assert_eq!(sophia::string::count("\n\n", '\t'), 0);
}

#[test]
fn decimal_both_ways() {
    assert_eq!(sophia::string::to_decimal(0), "0");
    assert_eq!(sophia::string::to_decimal(1024), "1024");
    assert_eq!(sophia::string::to_negative_decimal(12), "-12");
    assert_eq!(sophia::string::parse_decimal("1024"), Some(1024));
    assert_eq!(sophia::string::parse_decimal("007"), Some(7));
    assert_eq!(sophia::string::parse_decimal(""), None);
    assert_eq!(sophia::string::parse_decimal("-1"), None);
    assert_eq!(sophia::string::parse_decimal("99999999999999999999999"), None);
}

#[test]
fn join_and_compare() {
    let parts = vec!["a".to_string(), "b".to_string(), "c".to_string()];
    assert_eq!(sophia::string::join(&parts, ", "), "a, b, c");
    assert_eq!(sophia::string::join(&Vec::new(), ", "), "");
    assert!(sophia::string::same_text("abc", "abc"));
    assert!(!sophia::string::same_text("abc", "abd"));
}

#[test]
fn namespace_reads_what_was_written() {
    let mut values = Vec::new();
    write_value(&mut values, "x", Value::Boolean(true));
    write_value(&mut values, "y", Value::Nothing);
    write_value(&mut values, "x", Value::Boolean(false));
    assert_eq!(values.len(), 2);
    assert_eq!(read_value(&values, "x"), Some(Value::Boolean(false)));
    assert_eq!(read_value(&values, "y"), Some(Value::Nothing));
    assert_eq!(read_value(&values, "z"), None);
}
