//! The JSON codec and the session/error decoders on concrete wire texts.

use oxysky_lib::json::{parse_json, write_json, Json};
use oxysky_lib::server::{decode_error, decode_session, encode_session, DidDoc, Service, Session, VerificationMethod};

fn write(v: &Json) -> String {
    let mut out = String::new();
    write_json(v, &mut out);
    out
}

#[test]
fn writes_scalars() {
    assert_eq!(write(&Json::Null), "null");
    assert_eq!(write(&Json::Bool(true)), "true");
    assert_eq!(write(&Json::Bool(false)), "false");
    assert_eq!(write(&Json::Str("hi".to_string())), "\"hi\"");
}

#[test]
fn writes_compound_values() {
    let v = Json::Obj(vec![
        ("a".to_string(), Json::Arr(vec![Json::Null, Json::Bool(true)])),
        ("b".to_string(), Json::Str("x".to_string())),
    ]);
    assert_eq!(write(&v), "{\"a\":[null,true],\"b\":\"x\"}");
}

#[test]
fn parses_scalars() {
    assert!(matches!(parse_json("null"), Some(Json::Null)));
    assert!(matches!(parse_json("true"), Some(Json::Bool(true))));
    assert!(matches!(parse_json("false"), Some(Json::Bool(false))));
    match parse_json("\"hey\"") {
        Some(Json::Str(t)) => assert_eq!(t, "hey"),
        other => panic!("unexpected: {:?}", other),
    }
}

#[test]
fn parses_nested_structure() {
    let v = parse_json("{\"k\":[\"a\",{\"b\":false}],\"c\":null}").expect("should parse");
    let text = write(&v);
    assert_eq!(text, "{\"k\":[\"a\",{\"b\":false}],\"c\":null}");
}

#[test]
fn rejects_malformed_text() {
    assert!(parse_json("").is_none());
    assert!(parse_json("nul").is_none());
    assert!(parse_json("{").is_none());
    assert!(parse_json("{}x").is_none());
    assert!(parse_json("[1]").is_none());
    assert!(parse_json("\"unterminated").is_none());
}

#[test]
fn parses_escape_sequences() {
    match parse_json("\"a\\\"b\\\\c\\nd\\u0041\"") {
        Some(Json::Str(t)) => assert_eq!(t, "a\"b\\c\nd\u{41}"),
        other => panic!("unexpected: {:?}", other),
    }
    match parse_json("\"\\u00e9\\t\\b\\f\\r\\/\"") {
        Some(Json::Str(t)) => assert_eq!(t, "\u{e9}\t\u{8}\u{c}\r/"),
        other => panic!("unexpected: {:?}", other),
    }
}

#[test]
fn rejects_what_is_outside_the_string_grammar() {
    assert!(parse_json("\"\\x\"").is_none());
    assert!(parse_json("\"\\ud800\"").is_none());
    assert!(parse_json("\"\\u12g4\"").is_none());
    assert!(parse_json("\"raw\tcontrol\"").is_none());
    assert!(parse_json("12").is_none());
}

#[test]
fn writes_escape_sequences() {
    let v = Json::Str("a\"b\\c\nd\te\u{1}".to_string());
    assert_eq!(write(&v), "\"a\\\"b\\\\c\\nd\\te\\u0001\"");
}

#[test]
fn strings_with_quotes_and_controls_round_trip() {
    let s = Session::new(
        "a\"b".to_string(),
        "c\\d".to_string(),
        "e\nf".to_string(),
        "g\u{1}h".to_string(),
        DidDoc::default(),
        "i\tj".to_string(),
        false,
        false,
        false,
        Some("k\rl".to_string()),
    );
    let text = encode_session(&s);
    let back = decode_session(&text).expect("own encoding must decode");
    assert_eq!(back, s);
}

#[test]
fn decode_session_fills_defaults_when_members_are_missing() {
    let s = decode_session("{\"accessJwt\":\"A\"}").expect("an object must decode");
    assert_eq!(s.access_jwt, "A");
    assert_eq!(s.refresh_jwt, "");
    assert_eq!(s.handle, "");
    assert_eq!(s.did, "");
    assert_eq!(s.email, "");
    assert!(!s.email_confirmed);
    assert!(!s.email_auth_factor);
    assert!(!s.active);
    assert_eq!(s.status, None);
    assert!(s.did_doc.context.is_empty());
    assert!(s.did_doc.service.is_empty());
}

#[test]
fn decode_session_of_empty_object_is_all_defaults() {
    let s = decode_session("{}").expect("an empty object must decode");
    assert_eq!(s, Session::default());
}

#[test]
fn decode_session_rejects_non_objects() {
    assert!(decode_session("[]").is_none());
    assert!(decode_session("\"x\"").is_none());
    assert!(decode_session("not json").is_none());
}

#[test]
fn session_round_trips_through_the_wire_text() {
    let did_doc = DidDoc::new(
        vec!["ctx1".to_string(), "ctx2".to_string()],
        vec!["at://alice.test".to_string()],
        "did:plc:abc".to_string(),
        vec![Service::new(
            "#atproto_pds".to_string(),
            "https://pds.example".to_string(),
            "AtprotoPersonalDataServer".to_string(),
        )],
        vec![VerificationMethod::new(
            "did:plc:abc".to_string(),
            "did:plc:abc#atproto".to_string(),
            "zQ3sh".to_string(),
            "Multikey".to_string(),
        )],
    );
    let s = Session::new(
        "A.jwt".to_string(),
        "R.jwt".to_string(),
        "alice.test".to_string(),
        "did:plc:abc".to_string(),
        did_doc,
        "a@b.com".to_string(),
        true,
        false,
        true,
        Some("ok".to_string()),
    );
    let text = encode_session(&s);
    let back = decode_session(&text).expect("own encoding must decode");
    assert_eq!(back, s);
}

#[test]
fn session_round_trips_with_absent_status() {
    let s = Session::new(
        "A".to_string(),
        "R".to_string(),
        "h".to_string(),
        "d".to_string(),
        DidDoc::default(),
        "".to_string(),
        false,
        false,
        false,
        None,
    );
    let text = encode_session(&s);
    assert!(text.contains("\"status\":null"));
    let back = decode_session(&text).expect("own encoding must decode");
    assert_eq!(back, s);
}

#[test]
fn decode_error_needs_both_members_as_strings() {
    let no = decode_error("{\"error\":\"X\",\"message\":\"Y\"}").expect("must decode");
    assert_eq!(no.error, "X");
    assert_eq!(no.message, "Y");
    assert!(decode_error("{\"error\":\"X\"}").is_none());
    assert!(decode_error("{\"message\":\"Y\"}").is_none());
    assert!(decode_error("{\"error\":null,\"message\":\"Y\"}").is_none());
    assert!(decode_error("[]").is_none());
    assert!(decode_error("nonsense").is_none());
}

#[test]
fn tolerates_insignificant_whitespace() {
    let v = parse_json(" {\n  \"k\" : [ \"a\" , true ] ,\n  \"c\" : null\n}\n").expect("should parse");
    assert_eq!(write(&v), "{\"k\":[\"a\",true],\"c\":null}");
    assert!(matches!(parse_json("  null  "), Some(Json::Null)));
    assert!(matches!(parse_json("[ ]"), Some(Json::Arr(_))));
    assert!(matches!(parse_json("{ }"), Some(Json::Obj(_))));
    let s = decode_session("{\n  \"handle\": \"alice.test\",\n  \"active\": true\n}").expect("must decode");
    assert_eq!(s.handle, "alice.test");
    assert!(s.active);
}

#[test]
fn decode_takes_the_first_of_equal_keys() {
    let s = decode_session("{\"handle\":\"first\",\"handle\":\"second\"}").expect("must decode");
    assert_eq!(s.handle, "first");
}

#[test]
fn non_ascii_text_round_trips() {
    let s = Session::new(
        "tøken".to_string(),
        "R".to_string(),
        "ålice.test".to_string(),
        "did:plc:αβγ".to_string(),
        DidDoc::default(),
        "å@ø.no".to_string(),
        false,
        false,
        true,
        None,
    );
    let text = encode_session(&s);
    let back = decode_session(&text).expect("own encoding must decode");
    assert_eq!(back, s);
}
