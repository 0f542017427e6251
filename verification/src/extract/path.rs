//! Path-parameter extraction: the string map a route match captured,
//! decoded into a structured value.
use vstd::prelude::*;
use crate::body::empty::Empty;
use crate::extract::FromParams;
use crate::request::{Extract, ReqRep, Request};

verus! {

/// The path parameters of the route match, decoded into `T`.
pub struct Path<T>(pub T);

impl<S, T: FromParams> Extract<S> for Path<T> {
    type Error = Empty;

    /// Extraction decodes the captured parameter map and carries no detail
    /// when that fails.
    open spec fn extract_rel(req: ReqRep, state: &S, result: &Result<Self, Empty>) -> bool {
        match T::spec_from_params(req.params) {
            Ok(v) => match result {
                Ok(p) => p.0.rep() == v,
                Err(_) => false,
            },
            Err(_) => result is Err,
        }
    }

    fn extract(request: &Request, state: &S) -> (r: Result<Self, Empty>) {
        match T::from_params(&request.params) {
            Ok(v) => Ok(Path(v)),
            Err(_) => Err(Empty),
        }
    }
}

} // verus!
