use yggdrasil_client::json::{parse, Json};

fn obj(members: Vec<(&str, Json)>) -> Json {
    Json::Obj(members.into_iter().map(|(k, v)| (k.as_bytes().to_vec(), v)).collect())
}

fn jstr(s: &str) -> Json {
    Json::Str(s.as_bytes().to_vec())
}

#[test]
fn serialize_simple_object() {
    let j = obj(vec![("name", jstr("Minecraft")), ("version", Json::UInt(1))]);
    assert_eq!(j.to_bytes(), b"{\"name\":\"Minecraft\",\"version\":1}".to_vec());
}

#[test]
fn serialize_nested_and_array() {
    let j = obj(vec![
        ("list", Json::Arr(vec![Json::UInt(0), Json::Bool(true), Json::Null])),
        ("inner", obj(vec![("x", jstr(""))])),
    ]);
    assert_eq!(
        j.to_bytes(),
        b"{\"list\":[0,true,null],\"inner\":{\"x\":\"\"}}".to_vec()
    );
}

#[test]
fn serialize_escapes_quotes_backslashes_and_controls() {
    let j = jstr("a\"b\\c\nd");
    assert_eq!(j.to_bytes(), b"\"a\\\"b\\\\c\\u000ad\"".to_vec());
}

#[test]
fn parse_inverts_serialize() {
    let j = obj(vec![
        ("s", jstr("a\"b\\c\u{1}d")),
        ("n", Json::UInt(18446744073709551615)),
        ("a", Json::Arr(vec![jstr("x"), Json::Bool(false)])),
        ("o", obj(vec![("k", Json::Null)])),
    ]);
    let bytes = j.to_bytes();
    let back = parse(&bytes).expect("canonical form parses");
    assert_eq!(back.to_bytes(), bytes);
}

#[test]
fn parse_accepts_whitespace() {
    let back = parse(b" { \"a\" : [ 1 , 2 ] , \"b\" : \"x\" } \n").expect("parses");
    assert_eq!(back.to_bytes(), b"{\"a\":[1,2],\"b\":\"x\"}".to_vec());
}

#[test]
fn parse_decodes_standard_escapes() {
    let back = parse(b"\"\\u0041\\t\\r\\n\\b\\f\\/\\\\\\\"\"").expect("parses");
    match back {
        Json::Str(s) => assert_eq!(s, b"A\t\r\n\x08\x0c/\\\"".to_vec()),
        _ => panic!("expected a string"),
    }
}

#[test]
fn parse_rejects_garbage() {
    assert!(parse(b"not json").is_none());
    assert!(parse(b"{\"a\":}").is_none());
    assert!(parse(b"[1,]").is_none());
    assert!(parse(b"{\"a\":1").is_none());
    assert!(parse(b"\"unterminated").is_none());
    assert!(parse(b"").is_none());
    assert!(parse(b"{}extra").is_none());
}

#[test]
fn parse_rejects_number_overflow() {
    assert_eq!(parse(b"18446744073709551615").expect("fits").to_bytes(), b"18446744073709551615".to_vec());
    assert!(parse(b"18446744073709551616").is_none());
}

#[test]
fn parse_rejects_leading_zeros() {
    assert_eq!(parse(b"0").expect("zero").to_bytes(), b"0".to_vec());
    assert!(parse(b"0123").is_none());
    assert!(parse(b"[00]").is_none());
}

#[test]
fn serialize_is_deterministic() {
    let j = obj(vec![("s", jstr("payload")), ("n", Json::UInt(7))]);
    assert_eq!(j.to_bytes(), j.to_bytes());
}
