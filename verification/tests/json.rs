use gprox::json::Json;
use gprox::text::{
    decimal_text, has_part, is_before, is_blank, strip_prefix, to_lower, trim,
};

#[test]
fn values_are_read_and_written_back() {
    for text in [
        "null",
        "true",
        "18446744073709551615",
        "-9223372036854775808",
        "0.25",
        r#""a\"\\\n\u0001世界""#,
        "[]",
        r#"[1,[2,{"a":null}]]"#,
        r#"{"a":{"b":[false]},"c":"d"}"#,
    ] {
        let value = Json::parse(text).ok().unwrap();
        let again = Json::parse(&value.render()).ok().unwrap();
        assert_eq!(value.render(), again.render());
        assert_eq!(
            value.to_value(),
            serde_json::from_str::<serde_json::Value>(text).unwrap()
        );
    }
    assert!(Json::parse("{").is_err());
    assert!(Json::parse("").is_err());
}

#[test]
fn the_reader_takes_one_name_for_a_piece_of_json() {
    let name = "$serde_json::private::RawValue";
    let value = Json::object().with(name, Json::text("[1]"));
    let again = Json::parse(&value.render()).ok().unwrap();
    assert_eq!(again.render(), "[1]");
    // Behind another name it is an ordinary member.
    let value = Json::object().with("!", Json::Null).with(name, Json::text("[1]"));
    let again = Json::parse(&value.render()).ok().unwrap();
    assert_eq!(again.at(name).as_text(), Some("[1]"));
}

#[test]
fn deep_values_are_refused() {
    let deep = format!("{}{}", "[".repeat(127), "]".repeat(127));
    assert!(Json::parse(&deep).is_ok());
    let deeper = format!("{}{}", "[".repeat(128), "]".repeat(128));
    assert!(Json::parse(&deeper).is_err());
}

#[test]
fn the_later_member_of_a_name_counts() {
    let value = Json::parse(r#"{"a":1,"a":2}"#).ok().unwrap();
    assert!(value.at("a").is_number(2));
    let value = Json::object().with("a", Json::Null).with("a", Json::Bool(true));
    assert_eq!(value.at("a").as_bool(), Some(true));
    assert_eq!(value.render(), r#"{"a":true}"#);
}

#[test]
fn members_that_are_not_there_are_null() {
    let value = Json::parse(r#"{"a":{"b":"c"},"n":null}"#).ok().unwrap();
    assert_eq!(value.at("a").at("b").as_text(), Some("c"));
    assert!(value.at("x").at("y").is_null());
    assert!(value.field("x").is_none());
    assert!(value.field("n").is_some());
    assert!(Json::text("a").field("a").is_none());
    assert!(value.at("a").at("b").is_text("c"));
    assert!(!value.at("a").is_text("c"));
    assert_eq!(value.clone().render(), value.render());
}

#[test]
fn numbers_compare_by_their_value() {
    assert!(Json::Unsigned(1).is_number(1));
    assert!(Json::Negative(1).is_number(1));
    assert!(!Json::Negative(-1).is_number(1));
    assert!(!Json::parse("1.0").ok().unwrap().is_number(1));
    assert!(Json::parse("5").ok().unwrap().is_number(5));
}

#[test]
fn texts_are_cut_and_compared_by_characters() {
    assert_eq!(trim("\u{3000} a b \n"), "a b");
    assert_eq!(trim(" \t"), "");
    assert!(is_blank("\u{a0}\u{2028}"));
    assert!(!is_blank("\u{200b}"));
    assert!(has_part("it timed out", "timed out"));
    assert!(has_part("x", ""));
    assert!(!has_part("timed", "timed out"));
    assert_eq!(strip_prefix("Bearer k", "Bearer ").as_deref(), Some("k"));
    assert!(strip_prefix("Bear", "Bearer ").is_none());
    assert_eq!(to_lower("AZaz09É"), "azaz09É");
    assert_eq!(decimal_text(0), "0");
    assert_eq!(decimal_text(18446744073709551615), "18446744073709551615");
    assert!(is_before("a", "b"));
    assert!(is_before("a", "aa"));
    assert!(!is_before("b", "ab"));
}
