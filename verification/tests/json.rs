use gladiator::json::Json;

#[test]
fn json_parse_and_write() {
    let j = Json::parse(r#"{"b": [1, -2, 0.5, null, true], "a": "x\ny"}"#).unwrap();
    assert_eq!(j.write(), r#"{"a":"x\ny","b":[1,-2,0.5,null,true]}"#);
    assert_eq!(j.str_at("a"), Some("x\ny"));
    let b = j.get("b").unwrap().as_array().unwrap();
    assert_eq!(b[0], Json::UInt(1));
    assert_eq!(b[1], Json::NegInt(-2));
    assert_eq!(b[2], Json::Float("0.5".to_string()));
    assert!(b[3].is_null());
    assert_eq!(b[4].as_bool(), Some(true));
    assert!(Json::parse("{\"a\":").is_none());
}

#[test]
fn the_order_of_entries_does_not_count() {
    let a = Json::parse(r#"{"a":1,"b":[{"x":null,"y":true}]}"#).unwrap();
    let mut b = Json::object();
    let inner = Json::parse(r#"{"y":true,"x":null}"#).unwrap();
    b.set("b", Json::array(vec![inner]));
    b.set("a", Json::UInt(1));
    assert_eq!(a, b);
    b.set("a", Json::UInt(2));
    assert_ne!(a, b);
    b.remove("a");
    assert_ne!(a, b);
}

#[test]
fn broken_json_is_refused_with_a_reason() {
    assert!(Json::parse("{").is_none());
    assert!(Json::read("{").unwrap_err().contains("EOF"));
}

#[test]
fn pretty_text_reads_back() {
    let v = Json::parse(r#"{"k":[1,-2,"é\n",{"a":false}]}"#).unwrap();
    let text = v.write_pretty();
    assert!(text.contains('\n'));
    assert_eq!(Json::parse(&text).unwrap(), v);
}

const RESERVED: &str = "$serde_json::private::RawValue";

#[test]
fn an_object_under_the_reserved_key_is_read_as_what_it_spells() {
    let text = format!(r#"{{"{}":"[1]"}}"#, RESERVED);
    assert_eq!(Json::parse(&text).unwrap().write(), "[1]");
    assert!(Json::parse(&format!(r#"{{"{}":5}}"#, RESERVED)).is_none());
    let mut held = Json::object();
    held.set(RESERVED, Json::UInt(5));
    assert!(!held.is_unreserved());
    assert!(Json::parse(&held.write()).is_none());
    assert!(held.convert().is_err());
    held.set(RESERVED, Json::text("{\"a\":true}"));
    assert_eq!(held.convert().unwrap().write(), "{\"a\":true}");
    let plain = Json::parse(r#"{"a":[{"b":1.5}]}"#).unwrap();
    assert!(plain.is_unreserved());
    assert_eq!(plain.convert().unwrap(), plain);
    assert!(!Json::array(vec![Json::Null, held]).is_unreserved());
}

#[test]
fn a_record_is_an_object_or_an_array() {
    let o = Json::parse(r#"{"a":"x","b":2}"#).unwrap();
    let a = Json::parse(r#"["x",2]"#).unwrap();
    assert_eq!(o.part_text("a", 0), Some("x"));
    assert_eq!(a.part_text("a", 0), Some("x"));
    assert_eq!(a.part("b", 1), Some(&Json::UInt(2)));
    assert!(a.part("c", 2).is_none());
    assert!(o.part("c", 0).is_none());
    assert!(a.has_parts(1, 2) && !a.has_parts(3, 3) && !a.has_parts(0, 1));
    assert!(o.has_parts(9, 9));
}
