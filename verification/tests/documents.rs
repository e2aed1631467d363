use unicos::json::{
    array, from_value, json_text, object, parse_json, put, settle_text, to_value, Json,
};

#[test]
fn documents_are_read() {
    let v = parse_json("{\"b\":[1,null,true,\"x\"],\"a\":{\"n\":-2}}").unwrap();
    assert_eq!(v.get("a").unwrap().get("n"), Some(&Json::Integer(-2)));
    let items = v.get("b").unwrap().as_array().unwrap();
    assert_eq!(
        *items,
        vec![Json::Integer(1), Json::Null, Json::Bool(true), Json::Text("x".to_string())],
    );
    assert_eq!(items[3].as_text(), Some("x"));
    assert_eq!(items[0].as_text(), None);
    assert!(v.get("c").is_none() && v.as_array().is_none() && items[0].get("a").is_none());
}

#[test]
fn numbers_that_are_no_integers_keep_their_text() {
    let v = parse_json("[1.5, 18446744073709551615, -9223372036854775808]").unwrap();
    assert_eq!(
        v,
        Json::Array(vec![
            Json::Decimal("1.5".to_string()),
            Json::Decimal("18446744073709551615".to_string()),
            Json::Integer(i64::MIN),
        ]),
    );
}

#[test]
fn a_broken_text_is_refused() {
    let e = parse_json("{").unwrap_err();
    assert_eq!(e, "EOF while parsing an object at line 1 column 1");
}

#[test]
fn documents_are_built() {
    let mut fields = vec![];
    put(&mut fields, "k", array(vec![Json::Null]));
    assert_eq!(object(fields), parse_json("{\"k\":[null]}").unwrap());
}

#[test]
fn documents_are_written() {
    let text = Json::Text("a\"\n".to_string());
    let v = Json::Object(vec![
        ("b".to_string(), Json::Integer(1)),
        ("a".to_string(), Json::Array(vec![Json::Null, Json::Bool(false), text])),
        ("b".to_string(), Json::Integer(2)),
    ]);
    assert_eq!(json_text(&v), "{\"a\":[null,false,\"a\\\"\\n\"],\"b\":2}");
    assert_eq!(json_text(&Json::Decimal("1.50".to_string())), "1.5");
    assert_eq!(json_text(&Json::Decimal("x".to_string())), "\"x\"");
    assert_eq!(settle_text(None), "\"<non-json>\"");
    assert_eq!(settle_text(Some("1".to_string())), "1");
}

#[test]
fn tidy_documents_come_back() {
    let text = "{\"a\":[1,-2,\"é\"],\"b\":{\"c\":null,\"d\":true}}";
    let v = parse_json(text).unwrap();
    assert_eq!(from_value(to_value(&v)), v);
    assert_eq!(json_text(&v), text);
    assert_eq!(to_value(&v), serde_json::from_str::<serde_json::Value>(text).unwrap());
}
