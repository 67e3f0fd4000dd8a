use genesis_agent::json::{Json, JsonNumber};

#[test]
fn object_lookup_takes_named_member() {
    let obj = Json::Obj(vec![
        ("a".to_string(), Json::Str("x".to_string())),
        ("n".to_string(), Json::Num(JsonNumber::PosInt(5))),
    ]);
    assert!(matches!(obj.get("a"), Some(Json::Str(s)) if s == "x"));
    assert_eq!(obj.get_str("a"), Some("x"));
    assert_eq!(obj.get_str("n"), None);
    assert!(obj.get("missing").is_none());
    assert!(Json::Arr(vec![]).get("a").is_none());
}

#[test]
fn integers_as_i64() {
    assert_eq!(Json::Num(JsonNumber::PosInt(3600)).as_i64(), Some(3600));
    assert_eq!(Json::Num(JsonNumber::PosInt(u64::MAX)).as_i64(), None);
    assert_eq!(Json::Num(JsonNumber::NegInt(-4)).as_i64(), Some(-4));
    assert_eq!(Json::Num(JsonNumber::Float("1.5".to_string())).as_i64(), None);
    assert_eq!(Json::Str("3".to_string()).as_i64(), None);
}
