use sp_op_viewer::path::{segment_lt, SPPath};
use sp_op_viewer::value::{int_to_string, is_decimal, parse_i32, SPValue};

fn p(s: &str) -> SPPath {
    SPPath::from_string(s)
}

#[test]
fn path_round_trips_through_its_text() {
    let path = p("resource/sub/field");
    assert_eq!(path.path, vec!["resource".to_string(), "sub".to_string(), "field".to_string()]);
    assert_eq!(path.to_string(), "resource/sub/field");
    assert_eq!(p("").path, vec!["".to_string()]);
    assert_eq!(p("a//b").path.len(), 3);
}

#[test]
fn path_from_slice_joins_with_slash() {
    let path = SPPath::from_slice(&["runner", "plans", "0"]);
    assert_eq!(path.to_string(), "runner/plans/0");
    assert!(path == p("runner/plans/0"));
    assert!(!(path == p("runner/plans")));
}

#[test]
fn path_order_is_lexicographic_over_segments() {
    assert!(p("a/b").lt(&p("a/c")));
    assert!(p("a").lt(&p("a/b")));
    assert!(!p("a/b").lt(&p("a")));
    assert!(p("a/z").lt(&p("b")));
    assert!(!p("a/b").lt(&p("a/b")));
    assert!(p("ab").lt(&p("b")));
    assert!(segment_lt("buffer1", "buffer2"));
    assert!(!segment_lt("x", "x"));
}

#[test]
fn values_render_canonically() {
    assert_eq!(SPValue::Bool(true).to_string(), "true");
    assert_eq!(SPValue::Bool(false).to_string(), "false");
    assert_eq!(SPValue::Int32(-42).to_string(), "-42");
    assert_eq!(SPValue::Int32(0).to_string(), "0");
    assert_eq!(SPValue::Int32(i32::MIN).to_string(), "-2147483648");
    assert_eq!(SPValue::Float32("1.5".to_string()).to_string(), "1.5");
    assert_eq!(SPValue::String("hi".to_string()).to_string(), "hi");
    assert_eq!(SPValue::Path(p("a/b")).to_string(), "a/b");
    assert_eq!(SPValue::Unknown.to_string(), "[unknown]");
    let arr = SPValue::Array(vec![SPValue::Path(p("a/b")), SPValue::Path(p("c"))]);
    assert_eq!(arr.to_string(), "[a/b, c]");
    assert_eq!(SPValue::Array(vec![]).to_string(), "[]");
    assert_eq!(int_to_string(1234567), "1234567");
}

#[test]
fn values_compare_structurally() {
    assert!(SPValue::Int32(3) == SPValue::Int32(3));
    assert!(!(SPValue::Int32(3) == SPValue::Bool(true)));
    let a = SPValue::Array(vec![SPValue::Int32(1), SPValue::String("x".to_string())]);
    let b = a.clone();
    assert!(a == b);
    let c = SPValue::Array(vec![SPValue::Int32(1)]);
    assert!(!(a == c));
}

#[test]
fn integers_parse_as_rust_does() {
    assert_eq!(parse_i32("42"), Some(42));
    assert_eq!(parse_i32("-42"), Some(-42));
    assert_eq!(parse_i32("+7"), Some(7));
    assert_eq!(parse_i32("007"), Some(7));
    assert_eq!(parse_i32("2147483647"), Some(i32::MAX));
    assert_eq!(parse_i32("-2147483648"), Some(i32::MIN));
    assert_eq!(parse_i32("2147483648"), None);
    assert_eq!(parse_i32("99999999999999999999"), None);
    assert_eq!(parse_i32(""), None);
    assert_eq!(parse_i32("-"), None);
    assert_eq!(parse_i32("4a"), None);
    assert_eq!(parse_i32(" 4"), None);
}

#[test]
fn decimals_are_recognised() {
    assert!(is_decimal("3.14"));
    assert!(is_decimal("-0.5"));
    assert!(is_decimal("12"));
    assert!(!is_decimal("1."));
    assert!(!is_decimal(".5"));
    assert!(!is_decimal("1.2.3"));
    assert!(!is_decimal("abc"));
    assert!(!is_decimal(""));
}

#[test]
fn path_leaf_is_last_segment() {
    assert_eq!(p("a/b/c").leaf(), "c");
    assert_eq!(SPPath::new(vec![]).leaf(), "");
}
