use siglauncher::json::{item_of, member_of, text_of, Json, Member};

#[test]
fn parse_reads_a_string_member() {
    let json = Json::parse("{\"id\": \"1.20\"}").ok().unwrap();
    assert_eq!(
        json,
        Json::Object(vec![Member { key: "id".to_string(), value: Json::Text("1.20".to_string()) }])
    );
}

#[test]
fn parse_rejects_broken_text() {
    let error = Json::parse("{\"id\": ").err().unwrap();
    assert!(!error.message.is_empty());
    assert!(Json::parse("").is_err());
    assert!(Json::parse("{} x").is_err());
}

#[test]
fn parse_reads_every_kind() {
    let json = Json::parse(r#"[null, true, false, 17, -3, 2.5, "t", [], {}]"#).ok().unwrap();
    assert_eq!(
        json,
        Json::Array(vec![
            Json::Null,
            Json::Bool(true),
            Json::Bool(false),
            Json::Number(Some(17)),
            Json::Number(Some(-3)),
            Json::Number(None),
            Json::Text("t".to_string()),
            Json::Array(Vec::new()),
            Json::Object(Vec::new()),
        ])
    );
}

#[test]
fn parse_keeps_nested_documents() {
    let json = Json::parse(r#"{"a": {"b": [{"c": "deep"}]}}"#).ok().unwrap();
    let found = text_of(member_of(item_of(member_of(json.member("a"), "b"), 0), "c"));
    assert_eq!(found.map(|s| s.as_str()), Some("deep"));
}

#[test]
fn steps_that_find_nothing() {
    let json = Json::parse(r#"{"a": [1, 2], "t": "x"}"#).ok().unwrap();
    assert_eq!(json.member("b"), None);
    assert_eq!(json.item(0), None);
    assert_eq!(item_of(json.member("a"), 2), None);
    assert_eq!(item_of(json.member("a"), 1), Some(&Json::Number(Some(2))));
    assert_eq!(member_of(json.member("t"), "x"), None);
    assert_eq!(text_of(json.member("a")), None);
    assert_eq!(json.member("a").unwrap().integer(), None);
    assert_eq!(item_of(json.member("a"), 0).unwrap().integer(), Some(1));
    assert_eq!(json.items(), None);
    assert_eq!(json.member("a").unwrap().members(), None);
    assert_eq!(json.members().map(|m| m.len()), Some(2));
    assert_eq!(json.member("a").unwrap().items().map(|i| i.len()), Some(2));
}
