use taiko::extract::path::Path;
use taiko::extract::ExtractError;
use taiko::extract::query::Query;
use taiko::num::{parse_bool, parse_u64};
use taiko::request::{Extract, Method, Params, Request};

fn get_request(path: &str, query: &str) -> Request {
    Request::new(Method::Get, path.to_string(), query.to_string())
}

#[test]
fn query_pairs_decode() {
    let request = get_request("/search", "q=rust&page=2");
    let Query(params): Query<Params> = Query::extract(&request, &()).expect("query must decode");
    assert_eq!(params.get("q").unwrap().as_str(), "rust");
    let page = parse_u64(params.get("page").unwrap().as_str()).expect("page must be a number");
    assert_eq!(page, 2u64);
}

#[test]
fn empty_query_decodes_to_no_pairs() {
    let request = get_request("/search", "");
    let Query(params): Query<Params> = Query::extract(&request, &()).expect("empty query is fine");
    assert_eq!(params.len(), 0);
    // every field of an all-optional target is simply absent
    assert!(params.get("q").is_none());
    assert!(params.get("page").is_none());
}

#[test]
fn query_decoding_unescapes() {
    let request = get_request("/search", "q=one+two&r=a%26b");
    let Query(params): Query<Params> = Query::extract(&request, &()).expect("query must decode");
    assert_eq!(params.get("q").unwrap().as_str(), "one two");
    assert_eq!(params.get("r").unwrap().as_str(), "a&b");
}

#[test]
fn path_parameters_extract_from_the_request() {
    let mut request = get_request("/users/42", "");
    request.params.push("id".to_string(), "42".to_string());
    let Path(params): Path<Params> = Path::extract(&request, &()).expect("params are present");
    assert_eq!(params.len(), 1);
    assert_eq!(params.get("id").unwrap().as_str(), "42");
}

#[test]
fn numeric_parameter_parses_to_its_value() {
    assert_eq!(parse_u64("42"), Some(42u64));
    assert_eq!(parse_u64("0"), Some(0u64));
    assert_eq!(parse_u64("18446744073709551615"), Some(u64::MAX));
}

#[test]
fn non_numeric_parameter_is_a_typed_failure() {
    assert_eq!(parse_u64("abc"), None);
    assert_eq!(parse_u64(""), None);
    assert_eq!(parse_u64("4 2"), None);
    assert_eq!(parse_u64("-1"), None);
    // overflow is a failure, not a wrap
    assert_eq!(parse_u64("18446744073709551616"), None);
    // a numeric value does not read as a boolean
    assert_eq!(parse_bool("42"), None);
    assert_eq!(parse_bool("true"), Some(true));
    assert_eq!(parse_bool("false"), Some(false));
}

#[test]
fn first_binding_of_a_repeated_key_wins() {
    let request = get_request("/search", "a=1&a=2");
    let Query(params): Query<Params> = Query::extract(&request, &()).expect("query must decode");
    assert_eq!(params.len(), 2);
    assert_eq!(params.get("a").unwrap().as_str(), "1");
}

#[test]
fn typed_parameter_decoding_yields_typed_errors() {
    let mut params = Params::new();
    params.push("id".to_string(), "42".to_string());
    params.push("flag".to_string(), "true".to_string());
    assert_eq!(params.get_u64("id"), Ok(42u64));
    assert_eq!(params.get_bool("flag"), Ok(true));
    // an absent key and a value of the wrong type fail with typed errors
    assert_eq!(params.get_u64("missing"), Err(ExtractError::Missing));
    assert_eq!(params.get_bool("id"), Err(ExtractError::Invalid));
    assert_eq!(params.get_u64("flag"), Err(ExtractError::Invalid));
}
