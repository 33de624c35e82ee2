use kiro_gateway::json::{from_value, parse_json, parse_json_bytes, to_value, Json};

#[test]
fn documents_are_read() {
    let j = parse_json(r#" {"a":[1,-2,18446744073709551615,0.5,null,true,"t"],"b":{"c":"d"}} "#).unwrap();
    let items = j.get("a").unwrap().as_array().unwrap();
    assert_eq!(items[0], Json::Int(1));
    assert_eq!(items[1], Json::Int(-2));
    assert_eq!(items[2], Json::UInt(u64::MAX));
    assert_eq!(items[3], Json::Float(0.5f64.to_bits()));
    assert_eq!(items[4], Json::Null);
    assert_eq!(items[5], Json::Bool(true));
    assert_eq!(items[6].as_str(), Some("t"));
    assert_eq!(j.get2_str("b", "c"), Some("d"));
    assert_eq!(items[2].as_i64(), None);
    assert_eq!(items[0].get("x"), None);
    assert_eq!(parse_json_bytes(b"[1]").unwrap(), Json::Array(vec![Json::Int(1)]));
}

#[test]
fn the_later_of_two_members_counts() {
    let j = parse_json(r#"{"a":1,"a":2}"#).unwrap();
    assert_eq!(j.get_i64("a"), Some(2));
    let j = Json::object().with("a", Json::Int(1)).with("a", Json::Int(3));
    assert_eq!(j.get_i64("a"), Some(3));
    assert_eq!(j.to_text(), r#"{"a":3}"#);
    assert_eq!(Json::Null.with("a", Json::Int(1)), Json::Null);
}

#[test]
fn faults_are_told() {
    assert_eq!(
        parse_json("{").unwrap_err(),
        "EOF while parsing an object at line 1 column 1"
    );
    assert_eq!(parse_json_bytes(b"").unwrap_err(), "EOF while parsing a value at line 1 column 0");
    assert!(parse_json_bytes(b"\"\xff\"").is_err());
}

#[test]
fn documents_are_written_on_one_line() {
    let j = Json::object()
        .with("z", Json::text("a\nb\u{1}"))
        .with("a", Json::Array(vec![Json::Float(1.5f64.to_bits()), Json::UInt(u64::MAX)]))
        .with("m", Json::or_null(None));
    assert_eq!(
        j.to_text(),
        r#"{"a":[1.5,18446744073709551615],"m":null,"z":"a\nb\u0001"}"#
    );
    assert_eq!(parse_json(&j.to_text()).unwrap().to_text(), j.to_text());
}

#[test]
fn floats_that_are_no_numbers_are_null() {
    assert_eq!(Json::Float(f64::NAN.to_bits()).to_text(), "null");
    assert_eq!(Json::Float(f64::INFINITY.to_bits()).as_float_bits(), None);
    assert_eq!(Json::Float(2.5f64.to_bits()).as_float_bits(), Some(2.5f64.to_bits()));
    assert_eq!(Json::Int(-3).as_float_bits(), Some((-3f64).to_bits()));
    assert_eq!(Json::UInt(u64::MAX).as_float_bits(), Some((u64::MAX as f64).to_bits()));
    assert_eq!(Json::text("1").as_float_bits(), None);
}

#[test]
fn values_go_back_and_forth() {
    let v: serde_json::Value = serde_json::from_str(r#"{"k":[1,2.25,"x",{"y":null}]}"#).unwrap();
    assert_eq!(to_value(&from_value(&v)), v);
}
