use granite_cli::json::set_member_exec;
use granite_cli::json::JsonValue;

fn s(v: &str) -> JsonValue {
    JsonValue::Str(v.to_string())
}

#[test]
fn a_set_member_is_read_back_and_others_keep_theirs() {
    let mut members = vec![("a".to_string(), s("1")), ("b".to_string(), s("2"))];
    set_member_exec(&mut members, "a", s("changed"));
    set_member_exec(&mut members, "c", s("3"));
    let obj = JsonValue::Object(members);
    assert_eq!(obj.get_str("a"), Some("changed"));
    assert_eq!(obj.get_str("b"), Some("2"));
    assert_eq!(obj.get_str("c"), Some("3"));
    match &obj {
        JsonValue::Object(m) => {
            let keys: Vec<&str> = m.iter().map(|(k, _)| k.as_str()).collect();
            assert_eq!(keys, vec!["a", "b", "c"]);
        }
        _ => panic!("expected an object"),
    }
}

#[test]
fn get_on_a_non_object_finds_nothing() {
    assert!(s("x").get("x").is_none());
    assert_eq!(s("x").as_str(), Some("x"));
}
