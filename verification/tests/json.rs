//! Reading and writing JSON.

use murmur::json::Json;

#[test]
fn every_form_of_value_is_read() {
    let v = Json::parse(r#"{"s": "a\"b", "n": 7, "m": -7, "f": 1.5, "t": true, "z": null, "l": [1]}"#)
        .unwrap();
    assert_eq!(v.get_str("s"), Some("a\"b"));
    assert_eq!(v.get("n").unwrap().as_u64(), Some(7));
    assert_eq!(v.get("n").unwrap().as_i64(), Some(7));
    assert_eq!(v.get("m").unwrap().as_i64(), Some(-7));
    assert_eq!(v.get("m").unwrap().as_u64(), None);
    assert_eq!(*v.get("f").unwrap(), Json::Float("1.5".into()));
    assert_eq!(v.get("f").unwrap().as_i64(), None);
    assert_eq!(v.get("t").unwrap().as_bool(), Some(true));
    assert_eq!(*v.get("z").unwrap(), Json::Null);
    assert_eq!(v.get("l").unwrap().as_array().unwrap().len(), 1);
    assert_eq!(v.as_object().unwrap().len(), 7);
    assert!(v.get("missing").is_none());
    assert!(v.get_str("n").is_none());
    assert!(Json::Null.get("s").is_none());
}

#[test]
fn largest_integers_keep_their_value() {
    let v = Json::parse("[18446744073709551615, -9223372036854775808, 9223372036854775808]").unwrap();
    let list = v.as_array().unwrap();
    assert_eq!(list[0].as_u64(), Some(u64::MAX));
    assert_eq!(list[0].as_i64(), None);
    assert_eq!(list[1].as_i64(), Some(i64::MIN));
    assert_eq!(list[2].as_i64(), None);
    assert_eq!(v.render(), "[18446744073709551615,-9223372036854775808,9223372036854775808]");
}

#[test]
fn rendered_text_is_read_back() {
    let v = Json::Object(vec![
        ("a".into(), Json::Array(vec![Json::Bool(false), Json::Null])),
        ("b".into(), Json::Str("line\nbreak — \u{1}".into())),
    ]);
    assert_eq!(v.render(), "{\"a\":[false,null],\"b\":\"line\\nbreak — \\u0001\"}");
    assert_eq!(Json::parse(&v.render()).unwrap(), v);
}

#[test]
fn later_of_two_equal_keys_counts() {
    let v = Json::parse(r#"{"b": 1, "a": 2, "b": 3}"#).unwrap();
    assert_eq!(v.get("b").unwrap().as_u64(), Some(3));
    assert_eq!(v.as_object().unwrap().len(), 2);
}

#[test]
fn what_is_no_json_is_refused() {
    for text in ["", "nope", "{\"a\":}", "[1,]", "1 2"] {
        let reason = Json::parse(text).unwrap_err();
        assert!(reason.contains("line 1"), "{text}: {reason}");
    }
}

#[test]
fn depth_has_a_limit() {
    let deep = |n: usize| format!("{}{}", "[".repeat(n), "]".repeat(n));
    assert!(Json::parse(&deep(127)).is_ok());
    assert!(Json::parse(&deep(128)).is_err());
}
