//! The four session operations on concrete status codes and bodies, the
//! request body of the create operation, and the refresh merge.

use oxysky_lib::server::{
    create_session, delete_session, get_session, refresh_session, CreateSession, DidDoc, Session,
};
use oxysky_lib::{Response, NO};

#[test]
fn create_request_body_sends_empty_auth_factor_token() {
    let cs = CreateSession::new("alice.test".to_string(), "hunter2".to_string(), None);
    assert_eq!(
        cs.request_body(),
        "{\"identifier\":\"alice.test\",\"password\":\"hunter2\",\"authFactorToken\":\"\"}"
    );
}

#[test]
fn create_request_body_sends_a_given_auth_factor_token() {
    let cs = CreateSession::new(
        "alice.test".to_string(),
        "hunter2".to_string(),
        Some("123456".to_string()),
    );
    assert_eq!(
        cs.request_body(),
        "{\"identifier\":\"alice.test\",\"password\":\"hunter2\",\"authFactorToken\":\"123456\"}"
    );
}

#[test]
fn request_body_escapes_a_quote_in_the_password() {
    let cs = CreateSession::new("alice.test".to_string(), "hun\"ter".to_string(), None);
    assert_eq!(
        cs.request_body(),
        "{\"identifier\":\"alice.test\",\"password\":\"hun\\\"ter\",\"authFactorToken\":\"\"}"
    );
}

#[test]
fn create_200_with_session_body_is_success() {
    let body = "{\"accessJwt\":\"A\",\"refreshJwt\":\"R\",\"handle\":\"alice.test\",\"did\":\"did:plc:abc\"}";
    match create_session(200, body) {
        Some(Response::Success(s)) => {
            assert_eq!(s.access_jwt, "A");
            assert_eq!(s.refresh_jwt, "R");
            assert_eq!(s.handle, "alice.test");
            assert_eq!(s.did, "did:plc:abc");
        },
        other => panic!("unexpected: {:?}", other),
    }
}

#[test]
fn a_400_decodes_the_error_payload_for_create_refresh_delete() {
    let body = "{\"error\":\"X\",\"message\":\"Y\"}";
    let expected = NO::new("X".to_string(), "Y".to_string());
    assert_eq!(create_session(400, body), Some(Response::Failure(expected)));
    let expected = NO::new("X".to_string(), "Y".to_string());
    assert_eq!(refresh_session(400, body), Some(Response::Failure(expected)));
    let expected = NO::new("X".to_string(), "Y".to_string());
    assert_eq!(delete_session(400, body), Some(Response::Failure(expected)));
}

#[test]
fn a_401_decodes_the_error_payload_for_refresh_get_delete() {
    let body = "{\"error\":\"AuthRequired\",\"message\":\"no\"}";
    let expected = NO::new("AuthRequired".to_string(), "no".to_string());
    assert_eq!(refresh_session(401, body), Some(Response::Failure(expected)));
    let expected = NO::new("AuthRequired".to_string(), "no".to_string());
    assert_eq!(get_session(401, body), Some(Response::Failure(expected)));
    let expected = NO::new("AuthRequired".to_string(), "no".to_string());
    assert_eq!(delete_session(401, body), Some(Response::Failure(expected)));
}

#[test]
fn an_unrecognized_status_is_an_empty_failure_for_every_operation() {
    let empty = || NO::new(String::new(), String::new());
    assert_eq!(create_session(500, "ignored"), Some(Response::Failure(empty())));
    assert_eq!(refresh_session(500, "ignored"), Some(Response::Failure(empty())));
    assert_eq!(get_session(500, "ignored"), Some(Response::Failure(empty())));
    assert_eq!(delete_session(500, "ignored"), Some(Response::Failure(empty())));
    assert_eq!(create_session(404, ""), Some(Response::Failure(empty())));
}

#[test]
fn an_undecodable_body_on_a_mapped_status_has_no_outcome() {
    assert!(create_session(200, "not json").is_none());
    assert!(create_session(400, "{\"error\":\"X\"}").is_none());
    assert!(refresh_session(200, "[]").is_none());
    assert!(get_session(401, "oops").is_none());
    assert!(delete_session(401, "oops").is_none());
}

#[test]
fn delete_200_is_success_with_the_status_marker() {
    assert_eq!(delete_session(200, ""), Some(Response::Success(200u16)));
}

#[test]
fn get_200_decodes_the_session() {
    match get_session(200, "{\"handle\":\"alice.test\",\"active\":true}") {
        Some(Response::Success(s)) => {
            assert_eq!(s.handle, "alice.test");
            assert!(s.active);
        },
        other => panic!("unexpected: {:?}", other),
    }
}

#[test]
fn refresh_merges_new_identity_and_keeps_email_fields() {
    let original = Session::new(
        "oldA".to_string(),
        "oldR".to_string(),
        "old.handle".to_string(),
        "did:plc:old".to_string(),
        DidDoc::default(),
        "a@b.com".to_string(),
        true,
        true,
        false,
        None,
    );
    let body = "{\"accessJwt\":\"newA\",\"refreshJwt\":\"newR\",\"handle\":\"new.handle\",\
                \"did\":\"did:plc:new\",\"email\":\"x@y.org\",\"emailConfirmed\":false,\
                \"active\":true,\"status\":\"fine\"}";
    match original.refresh_outcome(200, body) {
        Some(Response::Success(merged)) => {
            assert_eq!(merged.access_jwt, "newA");
            assert_eq!(merged.refresh_jwt, "newR");
            assert_eq!(merged.handle, "new.handle");
            assert_eq!(merged.did, "did:plc:new");
            assert!(merged.active);
            assert_eq!(merged.status, Some("fine".to_string()));
            assert_eq!(merged.email, "a@b.com");
            assert!(merged.email_confirmed);
            assert!(merged.email_auth_factor);
        },
        other => panic!("unexpected: {:?}", other),
    }
}

#[test]
fn refresh_failure_passes_the_error_through_unmerged() {
    let original = Session::default();
    let body = "{\"error\":\"ExpiredToken\",\"message\":\"gone\"}";
    let expected = NO::new("ExpiredToken".to_string(), "gone".to_string());
    assert_eq!(original.refresh_outcome(401, body), Some(Response::Failure(expected)));
}

#[test]
fn unwrap_yields_the_successful_payload() {
    let r: Response<u16> = Response::Success(200);
    assert_eq!(r.unwrap(), 200);
}

#[test]
fn default_error_payload_is_empty() {
    let no = NO::default();
    assert_eq!(no.error, "");
    assert_eq!(no.message, "");
}

#[test]
fn constructors_keep_their_fields() {
    let s = oxysky_lib::server::Service::new("i".to_string(), "e".to_string(), "t".to_string());
    assert_eq!((s.id.as_str(), s.service_endpoint.as_str(), s.service_type.as_str()), ("i", "e", "t"));
    let v = oxysky_lib::server::VerificationMethod::new(
        "c".to_string(),
        "i".to_string(),
        "p".to_string(),
        "t".to_string(),
    );
    assert_eq!(v.controller, "c");
    assert_eq!(v.public_key_multibase, "p");
    let d = DidDoc::new(vec!["a".to_string()], vec![], "id".to_string(), vec![s], vec![v]);
    assert_eq!(d.context, vec!["a".to_string()]);
    assert_eq!(d.id, "id");
    assert_eq!(d.service.len(), 1);
    assert_eq!(d.verification_method.len(), 1);
}

#[test]
fn create_200_with_a_sessions_own_encoding_returns_it_exactly() {
    let s = Session::new(
        "A.jwt".to_string(),
        "R.jwt".to_string(),
        "alice.test".to_string(),
        "did:plc:abc".to_string(),
        DidDoc::default(),
        "a@b.com".to_string(),
        true,
        false,
        true,
        Some("ok".to_string()),
    );
    let text = oxysky_lib::server::encode_session(&s);
    assert_eq!(create_session(200, &text), Some(Response::Success(s)));
}
