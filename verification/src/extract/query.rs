//! Query-string extraction: the URI's query component decoded into pairs by
//! the urlencoded format's decoder, then into a structured value.
use vstd::prelude::*;
use crate::extract::FromParams;
use crate::request::{Extract, Params, ReqRep, Request};

verus! {

/// What the urlencoded decoder makes of a query string: its key/value
/// pairs, or nothing when the text is not decodable. The outcome depends on
/// the characters alone.
pub uninterp spec fn query_pairs_of(q: Seq<char>) -> Option<Seq<(Seq<char>, Seq<char>)>>;

/// Relies on `serde_urlencoded::from_str`: decodes a query string into its
/// key/value pairs, exactly when the text is decodable.
#[verifier::external_body]
fn decode_query_pairs(q: &str) -> (r: Result<
    Vec<(String, String)>,
    serde_urlencoded::de::Error,
>)
    ensures
        match query_pairs_of(q@) {
            Some(ps) => r matches Ok(v) && v.deep_view() == ps,
            None => r is Err,
        },
{
    serde_urlencoded::from_str::<Vec<(String, String)>>(q)
}

/// Relies on the decode error's `Display` implementation for its
/// diagnostic text.
#[verifier::external_body]
fn decode_error_text(e: &serde_urlencoded::de::Error) -> String {
    e.to_string()
}

#[verifier::external_type_specification]
#[verifier::external_body]
pub struct ExUrlDecodeError(serde_urlencoded::de::Error);

/// The query component of the URI, decoded into `T`.
pub struct Query<T>(pub T);

/// A failed query extraction, with the decoder's diagnostic text.
#[derive(Debug)]
pub struct QueryError(pub String);

impl<S, T: FromParams> Extract<S> for Query<T> {
    type Error = QueryError;

    /// Extraction decodes the query into pairs and the pairs into `T`; the
    /// diagnostic text of a failure is the decoder's own.
    open spec fn extract_rel(req: ReqRep, state: &S, result: &Result<Self, QueryError>) -> bool {
        match query_pairs_of(req.query) {
            Some(ps) => match T::spec_from_params(ps) {
                Ok(v) => match result {
                    Ok(q) => q.0.rep() == v,
                    Err(_) => false,
                },
                Err(_) => result is Err,
            },
            None => result is Err,
        }
    }

    fn extract(request: &Request, state: &S) -> (r: Result<Self, QueryError>) {
        match decode_query_pairs(request.query.as_str()) {
            Ok(pairs) => {
                let params = Params { pairs };
                match T::from_params(&params) {
                    Ok(v) => Ok(Query(v)),
                    Err(_) => Err(QueryError(String::from_str("invalid query parameters"))),
                }
            },
            Err(e) => Err(QueryError(decode_error_text(&e))),
        }
    }
}

} // verus!
