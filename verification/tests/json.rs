use poster_catalog::json::{find_field, parse_json, Json};

fn text(value: &str) -> Json {
    Json::Text(value.to_string())
}

#[test]
fn scalars_are_read() {
    assert_eq!(parse_json("null"), Some(Json::Null));
    assert_eq!(parse_json("true"), Some(Json::Bool(true)));
    assert_eq!(parse_json("false"), Some(Json::Bool(false)));
    assert_eq!(parse_json("\"a\\nb\""), Some(text("a\nb")));
    assert_eq!(parse_json(" 7 "), Some(Json::Number(Some(7))));
}

#[test]
fn integers_of_64_bits_are_kept() {
    assert_eq!(parse_json("0"), Some(Json::Number(Some(0))));
    assert_eq!(parse_json("-5"), Some(Json::Number(Some(-5))));
    assert_eq!(parse_json("9223372036854775807"), Some(Json::Number(Some(i64::MAX))));
    assert_eq!(parse_json("-9223372036854775808"), Some(Json::Number(Some(i64::MIN))));
}

#[test]
fn other_numbers_have_no_integer() {
    assert_eq!(parse_json("1.5"), Some(Json::Number(None)));
    assert_eq!(parse_json("1.0"), Some(Json::Number(None)));
    assert_eq!(parse_json("1e3"), Some(Json::Number(None)));
    assert_eq!(parse_json("9223372036854775808"), Some(Json::Number(None)));
    assert_eq!(parse_json("-9223372036854775809"), Some(Json::Number(None)));
}

#[test]
fn arrays_keep_their_order() {
    assert_eq!(parse_json("[]"), Some(Json::Array(vec![])));
    assert_eq!(
        parse_json("[3, \"x\", [null], {}]"),
        Some(Json::Array(vec![
            Json::Number(Some(3)),
            text("x"),
            Json::Array(vec![Json::Null]),
            Json::Object(vec![]),
        ]))
    );
}

#[test]
fn objects_hold_each_name_once() {
    assert_eq!(
        parse_json("{\"b\": 1, \"a\": {\"c\": [true]}, \"b\": 2}"),
        Some(Json::Object(vec![
            ("a".to_string(), Json::Object(vec![("c".to_string(), Json::Array(vec![Json::Bool(true)]))])),
            ("b".to_string(), Json::Number(Some(2))),
        ]))
    );
}

#[test]
fn faulty_text_is_no_document() {
    assert_eq!(parse_json(""), None);
    assert_eq!(parse_json("["), None);
    assert_eq!(parse_json("[1,]"), None);
    assert_eq!(parse_json("{\"a\" 1}"), None);
    assert_eq!(parse_json("[] []"), None);
    assert_eq!(parse_json("nul"), None);
    assert_eq!(parse_json("'a'"), None);
}

#[test]
fn last_field_of_a_name_is_found() {
    let fields = vec![
        ("title".to_string(), text("first")),
        ("poster".to_string(), text("p")),
        ("title".to_string(), text("last")),
    ];
    assert_eq!(find_field(&fields, "title"), Some(&text("last")));
    assert_eq!(find_field(&fields, "poster"), Some(&text("p")));
    assert_eq!(find_field(&fields, "release_date"), None);
    assert_eq!(find_field(&fields, "Title"), None);
    assert_eq!(find_field(&[], "title"), None);
}
