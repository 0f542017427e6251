//! The empty body: a response with nothing in it, and the error of an
//! extraction that carries no detail.
use vstd::prelude::*;
use crate::request::{Consume, Modeled, ReqRep, Request};
use crate::response::{rep_status_only, HttpResponse, IntoResponse, RespRep, STATUS_OK};

verus! {

/// No body: converts to an empty 200 response, extracts from any request,
/// and doubles as the error of an extraction with nothing to say.
#[derive(Debug)]
pub struct Empty;

impl DeepView for Empty {
    type V = Empty;

    open spec fn deep_view(&self) -> Empty {
        Empty
    }
}

impl Modeled for Empty {
    type Rep = Empty;

    open spec fn rep(&self) -> Empty {
        Empty
    }
}

impl IntoResponse for Empty {
    /// No body: an empty 200 response.
    open spec fn spec_response_of(rep: Empty) -> RespRep {
        rep_status_only(STATUS_OK)
    }

    fn into_response(self) -> (r: HttpResponse) {
        HttpResponse::new_empty(STATUS_OK)
    }
}

impl Consume for Empty {
    type Error = Empty;

    /// Consuming any request succeeds with nothing.
    open spec fn spec_consume(req: ReqRep) -> Result<Empty, Empty> {
        Ok(Empty)
    }

    fn consume(request: Request) -> (r: Result<Self, Self::Error>) {
        Ok(Empty)
    }
}

impl Consume for Request {
    type Error = Empty;

    /// The request consumes to itself.
    open spec fn spec_consume(req: ReqRep) -> Result<ReqRep, Empty> {
        Ok(req)
    }

    fn consume(request: Request) -> (r: Result<Self, Self::Error>) {
        Ok(request)
    }
}

} // verus!
