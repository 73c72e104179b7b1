use notifyhealth::json::{find_field, Json};

fn text(document: &Json) -> String {
    let mut out = String::from("> ");
    document.write(&mut out).unwrap();
    out
}

#[test]
fn document_is_written_after_what_the_text_holds() {
    assert_eq!(text(&Json::Null), "> null");
    assert_eq!(text(&Json::Bool(true)), "> true");
    assert_eq!(text(&Json::Bool(false)), "> false");
    assert_eq!(text(&Json::Number("-12.5e3".to_string())), "> -12.5e3");
    assert_eq!(text(&Json::Text("a".to_string())), "> \"a\"");
    assert_eq!(text(&Json::List(vec![])), "> []");
    assert_eq!(text(&Json::Object(vec![])), "> {}");
}

#[test]
fn nested_document_is_written_without_spaces() {
    let document = Json::Object(vec![
        ("list".to_string(), Json::List(vec![Json::Null, Json::Bool(true), Json::List(vec![])])),
        ("a \"key\"".to_string(), Json::Object(vec![("n".to_string(), Json::Number("1".to_string()))])),
        ("last".to_string(), Json::Text("tab\there".to_string())),
    ]);
    assert_eq!(
        text(&document),
        "> {\"list\":[null,true,[]],\"a \\\"key\\\"\":{\"n\":1},\"last\":\"tab\\there\"}"
    );
    let parsed = serde_json::from_str::<serde_json::Value>(&text(&document)[2..]).unwrap();
    assert_eq!(parsed["last"], serde_json::Value::String("tab\there".to_string()));
    assert_eq!(parsed["a \"key\""]["n"], serde_json::Value::from(1));
}

#[test]
fn first_field_of_a_key_is_found() {
    let fields = vec![
        ("a".to_string(), Json::Null),
        ("b".to_string(), Json::Bool(true)),
        ("a".to_string(), Json::Bool(false)),
    ];
    assert_eq!(find_field(&fields, "a"), Some(&Json::Null));
    assert_eq!(find_field(&fields, "b"), Some(&Json::Bool(true)));
    assert_eq!(find_field(&fields, "c"), None);
    assert_eq!(find_field(&vec![], "a"), None);
}
