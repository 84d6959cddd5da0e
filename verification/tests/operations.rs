use yggdrasil_client::errors::ApiError;
use yggdrasil_client::objects::Profile;
use yggdrasil_client::requests::{
    Authenticate, Invalidate, Refresh, Signout, Validate, DEFAULT_TIMEOUT_SECS,
};

#[test]
fn authenticate_encode_omits_unset_optionals() {
    let req = Authenticate::new("a@b.com".to_string(), "secret".to_string());
    let body = req.encode();
    assert_eq!(
        body,
        b"{\"agent\":{\"name\":\"Minecraft\",\"version\":1},\"username\":\"a@b.com\",\"password\":\"secret\"}"
            .to_vec()
    );
    let text = String::from_utf8(body).unwrap();
    assert!(!text.contains("clientToken"));
    assert!(!text.contains("requestUser"));
}

#[test]
fn authenticate_decode_scenario() {
    let resp = b"{\"accessToken\":\"t1\",\"clientToken\":\"c1\",\"availableProfiles\":[{\"id\":\"1\",\"name\":\"Steve\"}]}";
    let result = Authenticate::process_response(200, resp).expect("success");
    assert_eq!(result.access_token, "t1");
    assert_eq!(result.client_token, "c1");
    assert_eq!(result.available_profiles.len(), 1);
    assert_eq!(result.available_profiles[0].id, "1");
    assert_eq!(result.available_profiles[0].name, "Steve");
    assert_eq!(result.available_profiles[0].legacy, None);
    assert!(result.selected_profile.is_none());
    assert!(result.user.is_none());
}

#[test]
fn authenticate_encode_with_optionals() {
    let req = Authenticate::new("u".to_string(), "p".to_string())
        .client_token("tok".to_string())
        .request_user(true);
    assert_eq!(
        req.encode(),
        b"{\"agent\":{\"name\":\"Minecraft\",\"version\":1},\"username\":\"u\",\"password\":\"p\",\"clientToken\":\"tok\",\"requestUser\":true}"
            .to_vec()
    );
}

#[test]
fn authenticate_decode_full_response() {
    let resp = b"{\"accessToken\":\"t\",\"clientToken\":\"c\",\"availableProfiles\":[{\"id\":\"1\",\"name\":\"A\",\"legacy\":true},{\"id\":\"2\",\"name\":\"B\"}],\"selectedProfile\":{\"id\":\"1\",\"name\":\"A\",\"legacy\":true},\"user\":{\"id\":\"u1\",\"properties\":[{\"name\":\"k\",\"value\":\"v\"}]}}";
    let result = Authenticate::process_response(200, resp).expect("success");
    assert_eq!(result.available_profiles.len(), 2);
    assert_eq!(result.available_profiles[0].legacy, Some(true));
    assert_eq!(result.available_profiles[1].legacy, None);
    let sel = result.selected_profile.expect("selected");
    assert_eq!(sel.id, "1");
    let user = result.user.expect("user");
    assert_eq!(user.id, "u1");
    assert_eq!(user.properties.len(), 1);
    assert_eq!(user.properties[0].name, "k");
    assert_eq!(user.properties[0].value, "v");
}

#[test]
fn authenticate_decode_ignores_unknown_fields() {
    let resp = b"{\"extra\":[1,2,3],\"accessToken\":\"t\",\"clientToken\":\"c\",\"availableProfiles\":[],\"other\":null}";
    let result = Authenticate::process_response(200, resp).expect("success");
    assert_eq!(result.access_token, "t");
    assert!(result.available_profiles.is_empty());
}

#[test]
fn authenticate_missing_mandatory_field_is_decode_error() {
    let resp = b"{\"accessToken\":\"t\",\"clientToken\":\"c\"}";
    match Authenticate::process_response(200, resp) {
        Err(ApiError::Decode { status }) => assert_eq!(status, 200),
        other => panic!("expected a decode error, got {:?}", other),
    }
}

#[test]
fn validate_success_with_empty_body() {
    assert!(Validate::process_response(204, b"").is_ok());
}

#[test]
fn validate_forbidden_scenario() {
    let resp = b"{\"error\":\"ForbiddenOperationException\",\"errorMessage\":\"Invalid token\"}";
    match Validate::process_response(403, resp) {
        Err(ApiError::Domain { status, error }) => {
            assert_eq!(status, 403);
            assert_eq!(error.error, "ForbiddenOperationException");
            assert_eq!(error.error_message, "Invalid token");
            assert_eq!(error.cause, None);
        },
        other => panic!("expected a domain error, got {:?}", other),
    }
}

#[test]
fn refresh_missing_selected_profile_is_decode_error() {
    let resp = b"{\"accessToken\":\"t\",\"clientToken\":\"c\",\"user\":{\"id\":\"u\",\"properties\":[]}}";
    match Refresh::process_response(200, resp) {
        Err(ApiError::Decode { status }) => assert_eq!(status, 200),
        other => panic!("expected a decode error, got {:?}", other),
    }
}

#[test]
fn refresh_decode_success() {
    let resp = b"{\"accessToken\":\"t2\",\"clientToken\":\"c2\",\"selectedProfile\":{\"id\":\"9\",\"name\":\"Alex\"}}";
    let result = Refresh::process_response(200, resp).expect("success");
    assert_eq!(result.access_token, "t2");
    assert_eq!(result.selected_profile.name, "Alex");
    assert!(result.user.is_none());
}

#[test]
fn refresh_encode_with_profile() {
    let req = Refresh::new("at".to_string(), "ct".to_string())
        .selected_profile(Profile::new_legacy("1".to_string(), "A".to_string()));
    assert_eq!(
        req.encode(),
        b"{\"accessToken\":\"at\",\"clientToken\":\"ct\",\"selectedProfile\":{\"id\":\"1\",\"name\":\"A\",\"legacy\":true}}"
            .to_vec()
    );
}

#[test]
fn refresh_encode_omits_unset_optionals() {
    let req = Refresh::new("at".to_string(), "ct".to_string());
    let text = String::from_utf8(req.encode()).unwrap();
    assert!(!text.contains("selectedProfile"));
    assert!(!text.contains("requestUser"));
}

#[test]
fn unexpected_status_with_unparseable_body_is_decode_error() {
    match Signout::process_response(500, b"<html>oops</html>") {
        Err(ApiError::Decode { status }) => assert_eq!(status, 500),
        other => panic!("expected a decode error, got {:?}", other),
    }
}

#[test]
fn domain_error_for_each_empty_operation() {
    let resp = b"{\"error\":\"E\",\"errorMessage\":\"m\",\"cause\":\"c\"}";
    for result in [
        Validate::process_response(401, resp),
        Signout::process_response(401, resp),
        Invalidate::process_response(401, resp),
    ] {
        match result {
            Err(ApiError::Domain { status, error }) => {
                assert_eq!(status, 401);
                assert_eq!(error.error, "E");
                assert_eq!(error.cause.as_deref(), Some("c"));
            },
            other => panic!("expected a domain error, got {:?}", other),
        }
    }
}

#[test]
fn domain_error_with_null_cause() {
    let resp = b"{\"error\":\"E\",\"errorMessage\":\"m\",\"cause\":null}";
    match Invalidate::process_response(400, resp) {
        Err(ApiError::Domain { error, .. }) => assert_eq!(error.cause, None),
        other => panic!("expected a domain error, got {:?}", other),
    }
}

#[test]
fn signout_and_invalidate_success() {
    assert!(Signout::process_response(204, b"").is_ok());
    assert!(Invalidate::process_response(204, b"").is_ok());
}

#[test]
fn encode_round_trips_through_parse() {
    let req = Authenticate::new("user\"with\\quotes".to_string(), "p\nw".to_string())
        .client_token("tok".to_string());
    let bytes = req.encode();
    let doc = yggdrasil_client::json::parse(&bytes).expect("own encoding parses");
    assert_eq!(doc.to_bytes(), bytes);
}

#[test]
fn encode_is_idempotent() {
    let req = Validate::new("a".to_string(), "b".to_string());
    assert_eq!(req.encode(), req.encode());
    let req2 = Signout::new("u".to_string(), "p".to_string());
    assert_eq!(req2.encode(), req2.encode());
}

#[test]
fn escaped_strings_survive_decode() {
    let resp = b"{\"error\":\"a\\\"b\",\"errorMessage\":\"x\\\\y\\nz\"}";
    match Validate::process_response(418, resp) {
        Err(ApiError::Domain { error, .. }) => {
            assert_eq!(error.error, "a\"b");
            assert_eq!(error.error_message, "x\\y\nz");
        },
        other => panic!("expected a domain error, got {:?}", other),
    }
}

#[test]
fn profile_constructors() {
    let p = Profile::new("id1".to_string(), "n1".to_string());
    assert_eq!(p.legacy, None);
    let q = Profile::new_legacy("id2".to_string(), "n2".to_string());
    assert_eq!(q.legacy, Some(true));
}

#[test]
fn http_request_description() {
    let req = Validate::new("a".to_string(), "b".to_string());
    let http = req.http_request(yggdrasil_client::default_api_url(), DEFAULT_TIMEOUT_SECS, 5);
    assert_eq!(http.url, "https://authserver.mojang.com/validate");
    assert_eq!(http.body, req.encode());
    assert_eq!(http.timeout_sec, 10);
    assert_eq!(http.connect_timeout_sec, 5);
}

#[test]
fn http_request_paths_per_operation() {
    let base = "http://example.test";
    assert!(Authenticate::new("u".into(), "p".into())
        .http_request(base, 10, 10)
        .url
        .ends_with("/authenticate"));
    assert!(Refresh::new("a".into(), "c".into()).http_request(base, 10, 10).url.ends_with("/refresh"));
    assert!(Signout::new("u".into(), "p".into()).http_request(base, 10, 10).url.ends_with("/signout"));
    assert!(Invalidate::new("a".into(), "c".into())
        .http_request(base, 10, 10)
        .url
        .ends_with("/invalidate"));
}

#[test]
fn invalid_utf8_in_string_value_is_decode_error() {
    let mut resp: Vec<u8> = b"{\"error\":\"".to_vec();
    resp.push(0xff);
    resp.extend_from_slice(b"\",\"errorMessage\":\"m\"}");
    match Validate::process_response(400, &resp) {
        Err(ApiError::Decode { status }) => assert_eq!(status, 400),
        other => panic!("expected a decode error, got {:?}", other),
    }
}
