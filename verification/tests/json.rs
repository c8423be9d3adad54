use line_chat_bot::json::{decimal_text, field, Json};

#[test]
fn parse_reads_each_kind_of_value() {
    assert_eq!(Json::parse(b"null"), Some(Json::Null));
    assert_eq!(Json::parse(b"true"), Some(Json::Bool(true)));
    assert_eq!(Json::parse(b"false"), Some(Json::Bool(false)));
    assert_eq!(Json::parse(b"\"hi\""), Some(Json::Text("hi".to_string())));
    assert_eq!(Json::parse(b"42"), Some(Json::Number("42".to_string())));
    assert_eq!(Json::parse(b"-7"), Some(Json::Number("-7".to_string())));
    assert_eq!(Json::parse(b"1.5"), Some(Json::Number("1.5".to_string())));
    assert_eq!(Json::parse(b"[]"), Some(Json::Array(vec![])));
    assert_eq!(Json::parse(b"{}"), Some(Json::Object(vec![])));
}

#[test]
fn parse_reads_nested_documents() {
    let doc = Json::parse(b" {\"a\": [1, {\"b\": null}], \"c\": \"d\"} ").unwrap();
    assert_eq!(
        doc,
        Json::Object(vec![
            (
                "a".to_string(),
                Json::Array(vec![
                    Json::Number("1".to_string()),
                    Json::Object(vec![("b".to_string(), Json::Null)]),
                ])
            ),
            ("c".to_string(), Json::Text("d".to_string())),
        ])
    );
}

#[test]
fn parse_unescapes_strings() {
    assert_eq!(
        Json::parse(b"\"a\\n\\u00e9\\\"\\ud83d\\ude00\""),
        Some(Json::Text("a\n\u{e9}\"\u{1F600}".to_string()))
    );
}

#[test]
fn parse_rejects_what_is_no_json() {
    assert_eq!(Json::parse(b""), None);
    assert_eq!(Json::parse(b"{"), None);
    assert_eq!(Json::parse(b"{\"a\":}"), None);
    assert_eq!(Json::parse(b"[1,]"), None);
    assert_eq!(Json::parse(b"{} x"), None);
    assert_eq!(Json::parse(b"'a'"), None);
    assert_eq!(Json::parse(&[0x22, 0xff, 0x22]), None);
}

#[test]
fn parse_keeps_the_last_of_repeated_fields() {
    let doc = Json::parse(b"{\"a\":1,\"a\":2}").unwrap();
    assert_eq!(doc.get("a"), Some(&Json::Number("2".to_string())));
}

#[test]
fn get_finds_a_field_by_its_exact_name() {
    let doc = Json::parse(b"{\"type\":\"message\",\"replyToken\":\"t\"}").unwrap();
    assert_eq!(doc.get("type"), Some(&Json::Text("message".to_string())));
    assert_eq!(doc.get("replyToken"), Some(&Json::Text("t".to_string())));
    assert_eq!(doc.get("replytoken"), None);
    assert_eq!(doc.get("reply_token"), None);
    assert_eq!(doc.get(""), None);
}

#[test]
fn get_takes_the_first_of_fields_with_one_name() {
    let doc = Json::Object(vec![
        field("a", Json::Bool(true)),
        field("b", Json::Null),
        field("a", Json::Bool(false)),
    ]);
    assert_eq!(doc.get("a"), Some(&Json::Bool(true)));
    assert_eq!(doc.get("b"), Some(&Json::Null));
}

#[test]
fn get_finds_nothing_in_what_is_no_object() {
    assert_eq!(Json::Null.get("a"), None);
    assert_eq!(Json::Array(vec![Json::Object(vec![field("a", Json::Null)])]).get("a"), None);
    assert_eq!(Json::Text("a".to_string()).get("a"), None);
}

#[test]
fn as_array_tells_an_array_from_the_rest() {
    let items = vec![Json::Null, Json::Bool(true)];
    assert_eq!(Json::array(vec![Json::Null, Json::Bool(true)]).as_array(), Some(&items));
    assert_eq!(Json::text("x").as_array(), None);
    assert_eq!(Json::object(vec![]).as_array(), None);
}

#[test]
fn constructors_build_the_variants() {
    assert_eq!(Json::text("x"), Json::Text("x".to_string()));
    assert_eq!(Json::number(0), Json::Number("0".to_string()));
    assert_eq!(Json::number(4000), Json::Number("4000".to_string()));
    assert_eq!(Json::array(vec![Json::Null]), Json::Array(vec![Json::Null]));
    assert_eq!(
        Json::object(vec![field("k", Json::Null)]),
        Json::Object(vec![("k".to_string(), Json::Null)])
    );
}

#[test]
fn decimal_text_writes_numbers_without_leading_zeros() {
    assert_eq!(decimal_text(0), "0");
    assert_eq!(decimal_text(7), "7");
    assert_eq!(decimal_text(10), "10");
    assert_eq!(decimal_text(105), "105");
    assert_eq!(decimal_text(1234567890), "1234567890");
    assert_eq!(decimal_text(u32::MAX), "4294967295");
}
