use taiko::body::empty::Empty;
use taiko::body::json::Json;
use taiko::json::JsonValue;
use taiko::response::{IntoResponse, Response};

#[test]
fn empty_reply_is_a_bare_200() {
    let out = Response::empty().into_response();
    assert_eq!(out.status, 200);
    assert!(out.headers.is_empty());
    assert!(out.body.is_empty());
}

#[test]
fn with_status_overrides_only_the_status() {
    let json = Json::new(vec![("id".to_string(), JsonValue::Int(42))]).unwrap();
    let out = Response::json(json).with_status(201).into_response();
    assert_eq!(out.status, 201);
    assert_eq!(out.headers[0].1.as_str(), "application/json");
    assert_eq!(String::from_utf8(out.body).unwrap(), "{\"id\":42}");
}

#[test]
fn results_convert_through_their_present_side() {
    let ok: Result<Empty, Json> = Ok(Empty);
    assert_eq!(ok.into_response().status, 200);
    let json = Json::new(vec![("e".to_string(), JsonValue::Int(1))]).unwrap();
    let err: Result<Empty, Json> = Err(json);
    let out = err.into_response();
    assert_eq!(String::from_utf8(out.body).unwrap(), "{\"e\":1}");
}
