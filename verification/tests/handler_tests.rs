use taiko::app::App;
use taiko::body::json::Json;
use taiko::handler::{
    Boxed, EchoHandler, Extracting, FixedHandler, Handler, JsonEchoHandler, Layer, TraceLayer,
};
use taiko::json::JsonValue;
use taiko::request::{Method, Request};
use taiko::response::HttpResponse;
use taiko::router::Router;

fn request_with_body(body: Vec<u8>) -> Request {
    let mut request = Request::new(Method::Post, "/items".to_string(), String::new());
    request.body = body;
    request
}

#[test]
fn echo_answers_with_the_request_body() {
    let request = request_with_body(b"ping".to_vec());
    let out = EchoHandler.handle(request, &());
    assert_eq!(out.status, 200);
    assert_eq!(out.body, b"ping".to_vec());
}

#[test]
fn boxed_handles_are_cheap_copies_of_one_handler() {
    let boxed = Boxed::new(EchoHandler);
    let copy = boxed.clone();
    let out = copy.handle(request_with_body(b"pong".to_vec()), &());
    assert_eq!(out.body, b"pong".to_vec());
    let out = boxed.inner().handle(request_with_body(b"ping".to_vec()), &());
    assert_eq!(out.body, b"ping".to_vec());
}

#[test]
fn middleware_runs_outside_in_and_unwinds_inside_out() {
    let a = TraceLayer { label: "a".to_string() };
    let b = TraceLayer { label: "b".to_string() };
    // wrap with a first, then b: b is the outermost layer
    let wrapped = b.wrap(a.wrap(EchoHandler));
    let out = wrapped.handle(request_with_body(Vec::new()), &());
    // the response passes a's tagging first, then b's
    let tags: Vec<&str> = out.headers.iter().map(|(_, v)| v.as_str()).collect();
    assert_eq!(tags, vec!["a", "b"]);
    assert!(out.headers.iter().all(|(k, _)| k.as_str() == "x-trace"));
}

#[test]
fn app_assembles_state_handler_and_layers() {
    let app = App::new(())
        .handler(EchoHandler)
        .layer(TraceLayer { label: "outer".to_string() })
        .boxed();
    let copy = app.clone();
    let out = copy.handle(request_with_body(b"hello".to_vec()));
    assert_eq!(out.body, b"hello".to_vec());
    assert_eq!(out.headers.len(), 1);
    assert_eq!(out.headers[0].1.as_str(), "outer");
}

#[test]
fn extraction_glue_runs_the_typed_handler() {
    let router: Router<(), Extracting<Json, JsonEchoHandler>> =
        Router::new().post("/items", Extracting::new(JsonEchoHandler));
    let mut request = request_with_body(b"{\"n\":7}".to_vec());
    request.path = "/items".to_string();
    let out = router.handle(request, &());
    assert_eq!(out.status, 200);
    assert_eq!(out.headers[0].1.as_str(), "application/json");
    assert_eq!(String::from_utf8(out.body).unwrap(), "{\"n\":7}");
}

#[test]
fn extraction_failure_becomes_a_400_response() {
    let router: Router<(), Extracting<Json, JsonEchoHandler>> =
        Router::new().post("/items", Extracting::new(JsonEchoHandler));
    let mut request = request_with_body(b"not json".to_vec());
    request.path = "/items".to_string();
    let out = router.handle(request, &());
    assert_eq!(out.status, 400);
    assert!(out.body.is_empty());
}

#[test]
fn fixed_handler_ignores_the_request() {
    let handler = FixedHandler {
        response: HttpResponse { status: 204, headers: Vec::new(), body: Vec::new() },
    };
    let out = handler.handle(request_with_body(b"anything".to_vec()), &());
    assert_eq!(out.status, 204);
    assert!(out.body.is_empty());
    // the typed JSON echo, for contrast, answers with its input
    let json = Json::new(vec![("k".to_string(), JsonValue::Bool(false))]).unwrap();
    let out = JsonEchoHandler.handle(json, &());
    assert_eq!(out.fields(), &vec![("k".to_string(), JsonValue::Bool(false))]);
}
