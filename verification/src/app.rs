//! Application assembly: shared state plus a handler, composed by layering
//! and then erased behind a shared handle so every connection task can hold
//! a cheap copy.
use vstd::prelude::*;
use std::sync::Arc;
use crate::handler::{Boxed, EchoHandler, Handler, Layer};
use crate::request::{Modeled, Request};

verus! {

/// An application: one shared state value and the handler every request goes
/// to. Built by value: `new`, then `handler` and `layer`, then `boxed`.
pub struct App<S, H> {
    state: Arc<S>,
    handler: H,
}

impl<S, H> App<S, H> {
    /// The shared state.
    pub closed spec fn spec_state(&self) -> S {
        *self.state
    }

    /// The composed handler.
    pub closed spec fn spec_handler(&self) -> H {
        self.handler
    }

    /// Replace the handler, keeping the state.
    pub fn handler<H2>(self, handler: H2) -> (r: App<S, H2>)
        ensures
            r.spec_state() == self.spec_state(),
            r.spec_handler() == handler,
    {
        App { state: self.state, handler }
    }

    /// Wrap the current handler in a middleware layer.
    pub fn layer<L: Layer<H>>(self, layer: L) -> (r: App<S, L::Handler>)
        ensures
            r.spec_state() == self.spec_state(),
            layer.wrap_rel(self.spec_handler(), r.spec_handler()),
    {
        App { state: self.state, handler: layer.wrap(self.handler) }
    }

    /// Erase the handler behind a shared, clonable handle.
    pub fn boxed(self) -> (r: App<S, Boxed<H>>)
        ensures
            r.spec_state() == self.spec_state(),
            r.spec_handler().spec_inner() == self.spec_handler(),
    {
        App { state: self.state, handler: Boxed::new(self.handler) }
    }
}

impl<S> App<S, EchoHandler> {
    /// An application over the given state, answering every request by
    /// echoing it until a real handler is installed.
    pub fn new(state: S) -> (r: App<S, EchoHandler>)
        ensures
            r.spec_state() == state,
            r.spec_handler() == EchoHandler,
    {
        App { state: Arc::new(state), handler: EchoHandler }
    }
}

impl<S, H: Handler<Request, S>> App<S, Boxed<H>> {
    /// Hand one request to the shared handler under the shared state.
    pub fn handle(&self, request: Request) -> (out: H::Output)
        ensures
            out.rep() == self.spec_handler().spec_inner().spec_handle(
                request.rep(),
                &self.spec_state(),
            ),
    {
        self.handler.inner().handle(request, &*self.state)
    }
}

impl<S, H> Clone for App<S, Boxed<H>> {
    /// A second handle to the same state and handler.
    fn clone(&self) -> (r: Self)
        ensures
            r.spec_state() == self.spec_state(),
            r.spec_handler().spec_inner() == self.spec_handler().spec_inner(),
    {
        App { state: Arc::clone(&self.state), handler: self.handler.clone() }
    }
}

} // verus!
