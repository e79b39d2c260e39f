//! The request-logging middleware's data shells: a service wrapper
//! holding the inner service, and the layer that wraps one.
//!
//! The timing, printing and future-driving around a request live with
//! the deployment; what is kept here is the state the middleware owns
//! and that wrapping loses nothing: the wrapped service is exactly the
//! one handed in.

use vstd::prelude::*;

verus! {

/// A service wrapper that logs each request around the inner service.
#[derive(Clone, Copy)]
pub struct LogService<S> {
    inner: S,
}

impl<S> LogService<S> {
    /// The service being wrapped.
    pub closed spec fn inner_of(&self) -> S {
        self.inner
    }

    pub fn new(inner: S) -> (r: Self)
        ensures
            r.inner_of() == inner,
    {
        Self { inner }
    }

    /// Hands the wrapped service back.
    pub fn into_inner(self) -> (r: S)
        ensures
            r == self.inner_of(),
    {
        self.inner
    }
}

/// The layer that wraps a service in a `LogService`.
#[derive(Clone, Copy)]
pub struct LogLayer;

impl LogLayer {
    pub fn new() -> (r: Self) {
        Self {  }
    }

    /// Wraps `inner`, exactly as handed in.
    pub fn layer<S>(&self, inner: S) -> (r: LogService<S>)
        ensures
            r.inner_of() == inner,
    {
        LogService::new(inner)
    }
}

} // verus!
