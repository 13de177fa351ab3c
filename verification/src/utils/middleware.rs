//! Middleware: hooks a server calls as it handles requests, for metrics and
//! logging. A server's behaviour does not depend on what the hooks do.

use vstd::prelude::*;

verus! {

/// Defines a middleware with callbacks during the RPC request life-cycle. The primary use case for
/// this is to collect timings for a larger metrics collection solution but the only constraints on
/// the associated type is that it be [`Send`], giving users some freedom to do what they need to
/// do. A server hands each connection its own copy of the middleware, so implementors are
/// normally `Clone` too.
pub trait Middleware: Default + Send + Sync + 'static {
    /// Intended to carry timestamp of a request, for example `std::time::Instant`. How the middleware
    /// measures time, if at all, is entirely up to the implementation.
    type Instant: Send;

    /// Called when a new JSON-RPC comes to the server.
    fn on_request(&self) -> Self::Instant;

    /// Called on each JSON-RPC method call, batch requests will trigger `on_call` multiple times.
    fn on_call(&self, name: &str);

    /// Called on each JSON-RPC method completion, batch requests will trigger `on_result` multiple times.
    fn on_result(&self, name: &str, succeess: bool, started_at: Self::Instant);

    /// Called once the JSON-RPC request is finished and response is sent to the output buffer.
    fn on_response(&self, started_at: Self::Instant);
}

impl Middleware for () {
    type Instant = ();

    fn on_request(&self) -> Self::Instant {
    }

    fn on_call(&self, _name: &str) {
    }

    fn on_result(&self, _name: &str, _succeess: bool, _started_at: Self::Instant) {
    }

    fn on_response(&self, _started_at: Self::Instant) {
    }
}

impl<A, B> Middleware for (A, B) where A: Middleware, B: Middleware {
    type Instant = (A::Instant, B::Instant);

    /// Both middlewares are told, the first one first; the instant is the
    /// pair of what each returned.
    fn on_request(&self) -> (res: Self::Instant)
        ensures
            call_ensures(A::on_request, (&self.0,), res.0),
            call_ensures(B::on_request, (&self.1,), res.1),
    {
        (self.0.on_request(), self.1.on_request())
    }

    fn on_call(&self, name: &str) {
        self.0.on_call(name);
        self.1.on_call(name);
    }

    fn on_result(&self, name: &str, success: bool, started_at: Self::Instant) {
        self.0.on_result(name, success, started_at.0);
        self.1.on_result(name, success, started_at.1);
    }

    fn on_response(&self, started_at: Self::Instant) {
        self.0.on_response(started_at.0);
        self.1.on_response(started_at.1);
    }
}

} // verus!
