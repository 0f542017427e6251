use taiko::handler::{FixedHandler, Handler};
use taiko::request::{Method, Request};
use taiko::response::HttpResponse;
use taiko::router::Router;

fn fixed(status: u16, tag: &str) -> FixedHandler {
    FixedHandler {
        response: HttpResponse {
            status,
            headers: Vec::new(),
            body: tag.as_bytes().to_vec(),
        },
    }
}

fn request(method: Method, path: &str) -> Request {
    Request::new(method, path.to_string(), String::new())
}

#[test]
fn registered_route_reaches_its_handler() {
    let router: Router<(), FixedHandler> = Router::new()
        .get("/users/{id}", fixed(200, "param"))
        .get("/health", fixed(200, "health"));
    let out = router.handle(request(Method::Get, "/users/42"), &());
    assert_eq!(out.status, 200);
    assert_eq!(out.body, b"param".to_vec());
    let out = router.handle(request(Method::Get, "/health"), &());
    assert_eq!(out.body, b"health".to_vec());
}

#[test]
fn static_segment_wins_over_parameter() {
    let router: Router<(), FixedHandler> = Router::new()
        .get("/users/{id}", fixed(200, "param"))
        .get("/users/me", fixed(200, "me"));
    let out = router.handle(request(Method::Get, "/users/me"), &());
    assert_eq!(out.body, b"me".to_vec());
    let out = router.handle(request(Method::Get, "/users/you"), &());
    assert_eq!(out.body, b"param".to_vec());
}

#[test]
fn unmatched_path_is_404_with_empty_body() {
    let router: Router<(), FixedHandler> = Router::new().get("/users/{id}", fixed(200, "param"));
    let out = router.handle(request(Method::Get, "/missing"), &());
    assert_eq!(out.status, 404);
    assert!(out.body.is_empty());
    assert!(out.headers.is_empty());
    // too many segments is a miss too
    let out = router.handle(request(Method::Get, "/users/1/2"), &());
    assert_eq!(out.status, 404);
}

#[test]
fn wrong_method_is_405() {
    let router: Router<(), FixedHandler> = Router::new().get("/users/{id}", fixed(200, "param"));
    let out = router.handle(request(Method::Post, "/users/42"), &());
    assert_eq!(out.status, 405);
    assert!(out.body.is_empty());
}

#[test]
fn several_methods_share_one_route() {
    let router: Router<(), FixedHandler> = Router::new()
        .get("/items", fixed(200, "get"))
        .post("/items", fixed(201, "post"))
        .put("/items", fixed(200, "put"));
    assert_eq!(router.handle(request(Method::Get, "/items"), &()).body, b"get".to_vec());
    let out = router.handle(request(Method::Post, "/items"), &());
    assert_eq!(out.status, 201);
    assert_eq!(out.body, b"post".to_vec());
    assert_eq!(router.handle(request(Method::Put, "/items"), &()).body, b"put".to_vec());
    assert_eq!(router.handle(request(Method::Delete, "/items"), &()).status, 405);
}

#[test]
fn duplicate_registration_is_rejected() {
    let router: Router<(), FixedHandler> = Router::new().get("/users/{id}", fixed(200, "a"));
    assert!(router.has_route("/users/{id}", Method::Get));
    // the same template under another parameter name is the same route
    assert!(router.has_route("/users/{name}", Method::Get));
    assert!(!router.has_route("/users/{id}", Method::Post));
    let again = router.try_insert("/users/{other}", Method::Get, fixed(200, "b"));
    assert!(again.is_err());
}

#[test]
fn registering_another_method_on_the_same_template_is_allowed() {
    let router: Router<(), FixedHandler> = Router::new().get("/users/{id}", fixed(200, "a"));
    let router = match router.try_insert("/users/{id}", Method::Post, fixed(201, "b")) {
        Ok(r) => r,
        Err(_) => panic!("registering a new method must be accepted"),
    };
    assert_eq!(router.handle(request(Method::Post, "/users/7"), &()).status, 201);
}

#[test]
fn match_yields_parameter_map() {
    let router: Router<(), FixedHandler> =
        Router::new().get("/users/{id}/posts/{post}", fixed(200, "x"));
    let (route, params) = router.at("/users/42/posts/7").expect("path must match");
    assert_eq!(route, 0);
    assert_eq!(params.len(), 2);
    assert_eq!(params.get("id").unwrap().as_str(), "42");
    assert_eq!(params.get("post").unwrap().as_str(), "7");
    assert!(params.get("missing").is_none());
    assert!(router.at("/users/42").is_none());
}

#[test]
fn parameter_does_not_match_empty_segment() {
    let router: Router<(), FixedHandler> = Router::new().get("/users/{id}", fixed(200, "x"));
    let out = router.handle(request(Method::Get, "/users/"), &());
    assert_eq!(out.status, 404);
}

#[test]
fn handler_sees_injected_parameters() {
    // the echo of the parameters is observable through `at`; dispatch itself
    // injects the same map, as its contract states
    let router: Router<(), FixedHandler> = Router::new().get("/files/{name}", fixed(200, "x"));
    let (_, params) = router.at("/files/readme").expect("path must match");
    assert_eq!(params.get("name").unwrap().as_str(), "readme");
}

#[test]
fn matched_parameters_decode_into_typed_fields() {
    let router: Router<(), FixedHandler> = Router::new().get("/users/{id}", fixed(200, "x"));
    let (_, params) = router.at("/users/42").expect("path must match");
    // the captured map decodes field by field into a typed record
    assert_eq!(params.get_u64("id"), Ok(42u64));
    assert!(params.get_bool("id").is_err());
}
