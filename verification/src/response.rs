//! Wire-level responses and conversion of handler outputs into them.
use vstd::prelude::*;

verus! {

/// Status code for a successful response.
pub const STATUS_OK: u16 = 200;

/// Status code for a request whose body could not be decoded.
pub const STATUS_BAD_REQUEST: u16 = 400;

/// Status code for a path that matches no registered template.
pub const STATUS_NOT_FOUND: u16 = 404;

/// Status code for a matched path with no handler for the request's method.
pub const STATUS_METHOD_NOT_ALLOWED: u16 = 405;

/// A response with the given status, no headers and an empty body.
pub open spec fn rep_status_only(status: u16) -> RespRep {
    RespRep {
        status,
        headers: Seq::<(Seq<char>, Seq<char>)>::empty(),
        body: Seq::<u8>::empty(),
    }
}

/// Mathematical content of a wire response: what contracts speak about.
pub struct RespRep {
    pub status: u16,
    pub headers: Seq<(Seq<char>, Seq<char>)>,
    pub body: Seq<u8>,
}

/// An outbound response: a status code, headers, and a byte body.
pub struct HttpResponse {
    pub status: u16,
    pub headers: Vec<(String, String)>,
    pub body: Vec<u8>,
}

impl DeepView for HttpResponse {
    type V = RespRep;

    open spec fn deep_view(&self) -> RespRep {
        RespRep {
            status: self.status,
            headers: self.headers.deep_view(),
            body: self.body.deep_view(),
        }
    }
}

impl HttpResponse {
    /// A response with the given status and an empty body.
    pub fn new_empty(status: u16) -> (r: HttpResponse)
        ensures
            r.deep_view() == (RespRep {
                status,
                headers: Seq::<(Seq<char>, Seq<char>)>::empty(),
                body: Seq::<u8>::empty(),
            }),
    {
        let r = HttpResponse { status, headers: Vec::new(), body: Vec::new() };
        proof {
            assert(r.headers.deep_view() =~= Seq::<(Seq<char>, Seq<char>)>::empty());
            assert(r.body.deep_view() =~= Seq::<u8>::empty());
        }
        r
    }
}

/// A copy of a byte vector.
pub fn clone_bytes(v: &Vec<u8>) -> (r: Vec<u8>)
    ensures
        r@ == v@,
{
    let mut r: Vec<u8> = Vec::new();
    let n = v.len();
    for i in 0..n
        invariant
            n == v.len(),
            r@ =~= v@.subrange(0, i as int),
    {
        r.push(v[i]);
        proof {
            assert(r@ =~= v@.subrange(0, i as int + 1));
        }
    }
    proof {
        assert(v@.subrange(0, n as int) =~= v@);
    }
    r
}

/// A copy of a vector of string pairs.
pub fn clone_string_pairs(v: &Vec<(String, String)>) -> (r: Vec<(String, String)>)
    ensures
        r@ == v@,
{
    let mut r: Vec<(String, String)> = Vec::new();
    let n = v.len();
    for i in 0..n
        invariant
            n == v.len(),
            r@ =~= v@.subrange(0, i as int),
    {
        let key = v[i].0.clone();
        let value = v[i].1.clone();
        r.push((key, value));
        proof {
            assert(r@ =~= v@.subrange(0, i as int + 1));
        }
    }
    proof {
        assert(v@.subrange(0, n as int) =~= v@);
    }
    r
}

impl Clone for HttpResponse {
    /// A copy of the response, with the same content as the original.
    fn clone(&self) -> (r: Self)
        ensures
            r.deep_view() == self.deep_view(),
            r.status == self.status,
            r.headers@ == self.headers@,
            r.body@ == self.body@,
    {
        HttpResponse {
            status: self.status,
            headers: clone_string_pairs(&self.headers),
            body: clone_bytes(&self.body),
        }
    }
}

impl crate::request::Modeled for HttpResponse {
    type Rep = RespRep;

    open spec fn rep(&self) -> RespRep {
        self.deep_view()
    }
}

/// Conversion of a handler output (or error) into a wire response. The
/// response is a function of the value's content, so conversions compose
/// through the pipeline's contracts.
pub trait IntoResponse: Sized + crate::request::Modeled {
    /// The response a value with this content converts to.
    spec fn spec_response_of(rep: <Self as crate::request::Modeled>::Rep) -> RespRep;

    /// Convert this value into a wire response.
    fn into_response(self) -> (r: HttpResponse)
        ensures
            r.deep_view() == Self::spec_response_of(self.rep()),
    ;
}

impl IntoResponse for HttpResponse {
    /// A response converts to itself.
    open spec fn spec_response_of(rep: RespRep) -> RespRep {
        rep
    }

    fn into_response(self) -> (r: HttpResponse) {
        self
    }
}

/// A typed response body together with the status code to send it under:
/// how a handler returns a 200-shaped body with another status.
pub struct Response<T> {
    body: T,
    status: u16,
}

impl<T: crate::request::Modeled> crate::request::Modeled for Response<T> {
    type Rep = (<T as crate::request::Modeled>::Rep, u16);

    closed spec fn rep(&self) -> (<T as crate::request::Modeled>::Rep, u16) {
        (self.body.rep(), self.status)
    }
}

impl<T: IntoResponse> IntoResponse for Response<T> {
    /// The body's own response, with the status overwritten.
    open spec fn spec_response_of(rep: (<T as crate::request::Modeled>::Rep, u16)) -> RespRep {
        RespRep { status: rep.1, ..T::spec_response_of(rep.0) }
    }

    fn into_response(self) -> (r: HttpResponse) {
        let mut r = self.body.into_response();
        r.status = self.status;
        r
    }
}

impl<T> Response<T> {
    /// The status this response will be sent under.
    pub closed spec fn status(&self) -> u16 {
        self.status
    }

    /// The body this response carries.
    pub closed spec fn body(&self) -> T {
        self.body
    }

    /// The same body under another status.
    pub fn with_status(self, status: u16) -> (r: Response<T>)
        ensures
            r.status() == status,
            r.body() == self.body(),
    {
        Response { body: self.body, status }
    }
}

impl Response<crate::body::empty::Empty> {
    /// An empty 200 response.
    pub fn empty() -> (r: Self)
        ensures
            r.status() == STATUS_OK,
    {
        Response { body: crate::body::empty::Empty, status: STATUS_OK }
    }
}

impl Response<crate::body::json::Json> {
    /// A JSON 200 response.
    pub fn json(value: crate::body::json::Json) -> (r: Self)
        ensures
            r.status() == STATUS_OK,
            r.body() == value,
    {
        Response { body: value, status: STATUS_OK }
    }
}

impl<T: IntoResponse, E: IntoResponse> IntoResponse for Result<T, E> {
    /// A result converts by delegating to whichever side is present, so a
    /// handler returning `Result` gets its error responses for free.
    open spec fn spec_response_of(
        rep: Result<<T as crate::request::Modeled>::Rep, <E as crate::request::Modeled>::Rep>,
    ) -> RespRep {
        match rep {
            Ok(ok) => T::spec_response_of(ok),
            Err(err) => E::spec_response_of(err),
        }
    }

    fn into_response(self) -> (r: HttpResponse) {
        match self {
            Ok(ok) => ok.into_response(),
            Err(err) => err.into_response(),
        }
    }
}

} // verus!
