use taiko::body::json::{Json, JsonError};
use taiko::json::{encode_object, parse_object, JsonValue};
use taiko::request::{Consume, Method, Request};
use taiko::response::IntoResponse;

fn fields_sample() -> Vec<(String, JsonValue)> {
    vec![
        ("message".to_string(), JsonValue::Text("Bad request".to_string())),
        ("code".to_string(), JsonValue::Int(-17)),
        ("retry".to_string(), JsonValue::Bool(true)),
        ("detail".to_string(), JsonValue::Null),
    ]
}

fn request_with_body(body: Vec<u8>) -> Request {
    let mut request = Request::new(Method::Post, "/items".to_string(), String::new());
    request.body = body;
    request
}

#[test]
fn json_round_trips_through_the_extractor() {
    let json = Json::new(fields_sample()).expect("plain fields serialize");
    let response = json.into_response();
    let back = Json::consume(request_with_body(response.body)).expect("own encoding parses");
    assert_eq!(back.fields(), &fields_sample());
}

#[test]
fn json_response_is_marked_and_compact() {
    let json = Json::new(fields_sample()).expect("plain fields serialize");
    let response = json.into_response();
    assert_eq!(response.status, 200);
    assert_eq!(response.headers.len(), 1);
    assert_eq!(response.headers[0].0.as_str(), "content-type");
    assert_eq!(response.headers[0].1.as_str(), "application/json");
    assert_eq!(
        String::from_utf8(response.body).unwrap(),
        "{\"message\":\"Bad request\",\"code\":-17,\"retry\":true,\"detail\":null}"
    );
}

#[test]
fn malformed_bytes_are_a_typed_error() {
    let bad = Json::consume(request_with_body(b"{oops".to_vec()));
    assert!(matches!(bad, Err(JsonError::Deserialize)));
    let not_utf8 = Json::consume(request_with_body(vec![0x7b, 0xff, 0xfe, 0x7d]));
    assert!(matches!(not_utf8, Err(JsonError::Deserialize)));
    let trailing = Json::consume(request_with_body(b"{} ".to_vec()));
    assert!(matches!(trailing, Err(JsonError::Deserialize)));
    let empty = Json::consume(request_with_body(Vec::new()));
    assert!(matches!(empty, Err(JsonError::Deserialize)));
}

#[test]
fn unsupported_json_is_a_typed_error_not_a_crash() {
    // nested objects, fractions and escapes are outside this adapter
    for body in ["{\"a\":{\"b\":1}}", "{\"a\":1.5}", "{\"a\":\"x\\ny\"}", "[1,2]"] {
        let out = Json::consume(request_with_body(body.as_bytes().to_vec()));
        assert!(matches!(out, Err(JsonError::Deserialize)), "{body} must be refused");
    }
}

#[test]
fn text_needing_escapes_is_a_serialize_error() {
    let fields = vec![("m".to_string(), JsonValue::Text("say \"hi\"".to_string()))];
    assert!(matches!(Json::new(fields), Err(JsonError::Serialize)));
    let fields = vec![("bad\\key".to_string(), JsonValue::Null)];
    assert!(matches!(Json::new(fields), Err(JsonError::Serialize)));
}

#[test]
fn empty_object_round_trips() {
    let json = Json::new(Vec::new()).expect("no fields serialize trivially");
    let response = json.into_response();
    assert_eq!(String::from_utf8(response.body.clone()).unwrap(), "{}");
    let back = Json::consume(request_with_body(response.body)).expect("empty object parses");
    assert_eq!(back.fields().len(), 0);
}

#[test]
fn integer_extremes_round_trip() {
    let fields = vec![
        ("min".to_string(), JsonValue::Int(i64::MIN)),
        ("max".to_string(), JsonValue::Int(i64::MAX)),
        ("zero".to_string(), JsonValue::Int(0)),
    ];
    let text = encode_object(&fields);
    assert_eq!(
        text,
        "{\"min\":-9223372036854775808,\"max\":9223372036854775807,\"zero\":0}"
    );
    let back = parse_object(text.as_str()).expect("own encoding parses");
    assert_eq!(back, fields);
}

#[test]
fn out_of_range_integers_are_refused() {
    assert!(parse_object("{\"a\":9223372036854775808}").is_none());
    assert!(parse_object("{\"a\":-9223372036854775809}").is_none());
    assert!(parse_object("{\"a\":9223372036854775807}").is_some());
    assert!(parse_object("{\"a\":-9223372036854775808}").is_some());
}

#[test]
fn outside_decoder_reads_the_encoding() {
    // the compact text this codec prints is plain JSON: an outside decoder
    // agrees about its content
    let text = encode_object(&fields_sample());
    let value: serde_json::Value = serde_json::from_str(&text).expect("valid JSON");
    assert_eq!(value["message"], serde_json::Value::String("Bad request".to_string()));
    assert_eq!(value["code"], serde_json::Value::from(-17i64));
    assert_eq!(value["retry"], serde_json::Value::Bool(true));
    assert_eq!(value["detail"], serde_json::Value::Null);
}

#[test]
fn outside_encoder_feeds_the_extractor() {
    // compact output of an outside encoder parses back to the same fields
    let mut object = serde_json::Map::new();
    object.insert("z".to_string(), serde_json::Value::from(5i64));
    let text = serde_json::to_string(&serde_json::Value::Object(object)).unwrap();
    let back = Json::consume(request_with_body(text.into_bytes())).expect("compact JSON parses");
    assert_eq!(back.fields(), &vec![("z".to_string(), JsonValue::Int(5))]);
}
