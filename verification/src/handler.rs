//! The uniform handler capability, middleware layers, and the shared
//! type-erasing wrapper that makes a composed handler cheaply clonable.
use vstd::prelude::*;
use core::marker::PhantomData;
use std::sync::Arc;
use crate::request::{Consume, Modeled, ReqRep, Request};
use crate::response::IntoResponse;
use crate::response::{HttpResponse, RespRep, STATUS_OK};

verus! {

/// The uniform call contract: given a typed input and the shared state,
/// produce a typed output. `spec_handle` pins the output's content down for
/// every input, so composition can be reasoned about through the trait.
pub trait Handler<I: Modeled, S> {
    type Output: Modeled;

    /// The content of the output produced on the given input content.
    spec fn spec_handle(&self, input: <I as Modeled>::Rep, state: &S) -> <Self::Output as Modeled>::Rep;

    /// Handle one input.
    fn handle(&self, input: I, state: &S) -> (out: Self::Output)
        ensures
            out.rep() == self.spec_handle(input.rep(), state),
    ;
}

/// A middleware decorator: wraps one handler to produce another. `wrap_rel`
/// relates the wrapped handler to its parts, so callers with concrete types
/// know exactly what `wrap` built.
pub trait Layer<H> {
    type Handler;

    /// Holds when `result` is the handler this layer builds around `handler`.
    spec fn wrap_rel(self, handler: H, result: Self::Handler) -> bool;

    /// Wrap the handler.
    fn wrap(self, handler: H) -> (r: Self::Handler)
        ensures
            self.wrap_rel(handler, r),
    ;
}

/// A shared, cheaply clonable handle to a handler: every per-connection task
/// can hold its own copy of the fully composed handler without duplicating
/// the handler itself.
pub struct Boxed<H>(Arc<H>);

impl<H> Boxed<H> {
    /// The handler behind the handle.
    pub closed spec fn spec_inner(&self) -> H {
        *self.0
    }

    /// Share a handler.
    pub fn new(handler: H) -> (r: Self)
        ensures
            r.spec_inner() == handler,
    {
        Boxed(Arc::new(handler))
    }

    /// Borrow the shared handler.
    pub fn inner(&self) -> (r: &H)
        ensures
            *r == self.spec_inner(),
    {
        &self.0
    }
}

impl<H> Clone for Boxed<H> {
    /// A second handle to the same handler.
    fn clone(&self) -> (r: Self)
        ensures
            r.spec_inner() == self.spec_inner(),
    {
        Boxed(Arc::clone(&self.0))
    }
}

impl<I: Modeled, S, H: Handler<I, S>> Handler<I, S> for Boxed<H> {
    type Output = H::Output;

    open spec fn spec_handle(&self, input: <I as Modeled>::Rep, state: &S) -> <H::Output as Modeled>::Rep {
        self.spec_inner().spec_handle(input, state)
    }

    fn handle(&self, input: I, state: &S) -> (out: H::Output) {
        self.inner().handle(input, state)
    }
}

/// A handler that answers every request with its own body: the default
/// handler an application starts from.
pub struct EchoHandler;

impl<S> Handler<Request, S> for EchoHandler {
    type Output = HttpResponse;

    open spec fn spec_handle(&self, input: ReqRep, state: &S) -> RespRep {
        RespRep { status: STATUS_OK, headers: Seq::empty(), body: input.body }
    }

    fn handle(&self, input: Request, state: &S) -> (out: HttpResponse) {
        let out = HttpResponse { status: STATUS_OK, headers: Vec::new(), body: input.body };
        proof {
            assert(out.headers.deep_view() =~= Seq::<(Seq<char>, Seq<char>)>::empty());
        }
        out
    }
}

/// A handler that answers every request with one fixed response: useful as a
/// route endpoint whose behaviour is wholly known in advance.
pub struct FixedHandler {
    pub response: HttpResponse,
}

impl<S> Handler<Request, S> for FixedHandler {
    type Output = HttpResponse;

    open spec fn spec_handle(&self, input: ReqRep, state: &S) -> RespRep {
        self.response.deep_view()
    }

    fn handle(&self, input: Request, state: &S) -> (out: HttpResponse) {
        self.response.clone()
    }
}

/// The extract-call-convert sequence as one handler: consume the request
/// into the typed input the inner handler declares, call it, and convert its
/// output — or the extraction error — into a response.
pub struct Extracting<I, F> {
    inner: F,
    marker: PhantomData<I>,
}

impl<I, F> Extracting<I, F> {
    /// The typed handler inside.
    pub closed spec fn spec_inner(&self) -> F {
        self.inner
    }

    /// Run `inner` behind the extraction of its input.
    pub fn new(inner: F) -> (r: Self)
        ensures
            r.spec_inner() == inner,
    {
        Extracting { inner, marker: PhantomData }
    }
}

impl<I, S, F> Handler<Request, S> for Extracting<I, F> where
    I: Consume,
    I::Error: IntoResponse,
    F: Handler<I, S>,
    F::Output: IntoResponse,
 {
    type Output = HttpResponse;

    /// What the sequence answers: the converted output of the inner handler
    /// on the extracted input, or the converted extraction error.
    open spec fn spec_handle(&self, input: ReqRep, state: &S) -> RespRep {
        match I::spec_consume(input) {
            Ok(iv) => <F::Output as IntoResponse>::spec_response_of(
                self.spec_inner().spec_handle(iv, state),
            ),
            Err(ev) => <I::Error as IntoResponse>::spec_response_of(ev),
        }
    }

    fn handle(&self, input: Request, state: &S) -> (out: HttpResponse) {
        match I::consume(input) {
            Ok(typed) => self.inner.handle(typed, state).into_response(),
            Err(error) => error.into_response(),
        }
    }
}

/// The header name under which tracing middleware records its passage.
pub fn trace_header_name() -> (r: String)
    ensures
        r@ == "x-trace"@,
{
    String::from_str("x-trace")
}

/// Middleware that tags the request on the way in and the response on the
/// way out, appending its label to the `x-trace` headers. The order of those
/// tags makes the onion ordering of a middleware stack observable.
pub struct TraceLayer {
    pub label: String,
}

/// The handler a [`TraceLayer`] builds: delegates to the inner handler with
/// a tagged request, then tags the response.
pub struct TraceHandler<H> {
    pub label: String,
    pub inner: H,
}

impl<H> Layer<H> for TraceLayer {
    type Handler = TraceHandler<H>;

    open spec fn wrap_rel(self, handler: H, result: TraceHandler<H>) -> bool {
        result.label == self.label && result.inner == handler
    }

    fn wrap(self, handler: H) -> (r: TraceHandler<H>) {
        TraceHandler { label: self.label, inner: handler }
    }
}

/// The request as the inner handler sees it: one trace tag appended.
pub open spec fn spec_tag_request(req: ReqRep, label: Seq<char>) -> ReqRep {
    ReqRep {
        method: req.method,
        path: req.path,
        query: req.query,
        headers: req.headers.push(("x-trace"@, label)),
        body: req.body,
        params: req.params,
        peer: req.peer,
    }
}

/// The response as the caller sees it: one trace tag appended.
pub open spec fn spec_tag_response(resp: RespRep, label: Seq<char>) -> RespRep {
    RespRep {
        status: resp.status,
        headers: resp.headers.push(("x-trace"@, label)),
        body: resp.body,
    }
}

impl<S, H: Handler<Request, S, Output = HttpResponse>> Handler<Request, S> for TraceHandler<H> {
    type Output = HttpResponse;

    open spec fn spec_handle(&self, input: ReqRep, state: &S) -> RespRep {
        spec_tag_response(
            self.inner.spec_handle(spec_tag_request(input, self.label@), state),
            self.label@,
        )
    }

    fn handle(&self, input: Request, state: &S) -> (out: HttpResponse) {
        let mut req = input;
        req.headers.push((trace_header_name(), self.label.clone()));
        proof {
            assert(req.headers.deep_view() =~= spec_tag_request(
                input.deep_view(),
                self.label@,
            ).headers);
            assert(req.deep_view() == spec_tag_request(input.deep_view(), self.label@));
        }
        let mut out = self.inner.handle(req, state);
        let ghost inner_rep = out.deep_view();
        out.headers.push((trace_header_name(), self.label.clone()));
        proof {
            assert(out.headers.deep_view() =~= spec_tag_response(inner_rep, self.label@).headers);
            assert(out.deep_view() == spec_tag_response(inner_rep, self.label@));
        }
        out
    }
}

/// A handler that answers a JSON body with the same JSON body: the typed
/// pipeline's identity, and the simplest handler with an extracted input.
pub struct JsonEchoHandler;

impl<S> Handler<crate::body::json::Json, S> for JsonEchoHandler {
    type Output = crate::body::json::Json;

    open spec fn spec_handle(
        &self,
        input: crate::json::FieldsRep,
        state: &S,
    ) -> crate::json::FieldsRep {
        input
    }

    fn handle(&self, input: crate::body::json::Json, state: &S) -> (out: crate::body::json::Json) {
        input
    }
}

/// Middleware ordering: wrapping a handler with layer `a` and then layer `b`
/// runs `b`'s request tagging first, then `a`'s, then the handler, then
/// `a`'s response tagging, then `b`'s — the classic onion order.
pub proof fn lemma_middleware_onion_order<S, H: Handler<Request, S, Output = HttpResponse>>(
    h: H,
    a: TraceLayer,
    b: TraceLayer,
    wrapped_once: TraceHandler<H>,
    wrapped_twice: TraceHandler<TraceHandler<H>>,
    req: ReqRep,
    state: &S,
)
    requires
        a.wrap_rel(h, wrapped_once),
        b.wrap_rel(wrapped_once, wrapped_twice),
    ensures
        wrapped_twice.spec_handle(req, state) == spec_tag_response(
            spec_tag_response(
                h.spec_handle(
                    spec_tag_request(spec_tag_request(req, b.label@), a.label@),
                    state,
                ),
                a.label@,
            ),
            b.label@,
        ),
{
}

} // verus!
