use vstd::prelude::*;

verus! {

/// The text of an optional owned string.
pub open spec fn opt_view(s: Option<String>) -> Option<Seq<char>> {
    match s {
        Some(v) => Some(v@),
        None => None,
    }
}

/// Settings shared by every request handler of the host.
pub struct HostState {
    remote_header: Option<String>,
}

impl HostState {
    /// Name of the request header that carries the client address, if the host
    /// sits behind a proxy that sets one.
    pub closed spec fn header(&self) -> Option<Seq<char>> {
        opt_view(self.remote_header)
    }

    pub fn new(remote_header: Option<String>) -> (r: HostState)
        ensures
            r.header() == opt_view(remote_header),
    {
        HostState { remote_header }
    }

    pub fn remote_header(&self) -> (r: Option<&str>)
        ensures
            match r {
                Some(h) => self.header() == Some(h@),
                None => self.header() is None,
            },
    {
        match &self.remote_header {
            Some(h) => Some(h.as_str()),
            None => None,
        }
    }

    /// A second handle on the same settings.
    pub fn share(&self) -> (r: HostState)
        ensures
            r.header() == self.header(),
    {
        match &self.remote_header {
            Some(h) => HostState { remote_header: Some(h.clone()) },
            None => HostState { remote_header: None },
        }
    }
}

/// Middleware factory that logs the start and end of every request.
pub struct AccessLog {
    state: HostState,
}

/// The access-log middleware wrapped around the service `inner`.
pub struct AccessLogService<S> {
    inner: S,
    state: HostState,
}

impl AccessLog {
    pub closed spec fn header(&self) -> Option<Seq<char>> {
        self.state.header()
    }

    pub fn new(state: HostState) -> (r: AccessLog)
        ensures
            r.header() == state.header(),
    {
        AccessLog { state }
    }

    /// Wraps `inner` in the middleware, which reads the same host settings.
    pub fn layer<S>(&self, inner: S) -> (r: AccessLogService<S>)
        ensures
            r.wrapped() == inner,
            r.header() == self.header(),
    {
        AccessLogService { inner, state: self.state.share() }
    }
}

impl<S> AccessLogService<S> {
    pub closed spec fn header(&self) -> Option<Seq<char>> {
        self.state.header()
    }

    pub closed spec fn wrapped(&self) -> S {
        self.inner
    }

    pub fn inner(&self) -> (r: &S)
        ensures
            *r == self.wrapped(),
    {
        &self.inner
    }

    pub fn state(&self) -> (r: &HostState)
        ensures
            r.header() == self.header(),
    {
        &self.state
    }
}

/// Whether a response status counts as failed (client or server error).
pub open spec fn is_error_status_spec(status: u16) -> bool {
    400 <= status <= 599
}

pub fn is_error_status(status: u16) -> (r: bool)
    ensures
        r == is_error_status_spec(status),
{
    400 <= status && status <= 599
}

/// How a request ended, for the closing log line.
#[derive(Clone, Copy, Debug, PartialEq, Eq, Structural)]
pub enum RequestEnd {
    /// The service answered with a status below 400 or above 599.
    Success { status: u16, cost_ms: u64 },
    /// The service answered with a status in 400..=599.
    ErrorStatus { status: u16, cost_ms: u64 },
    /// The service failed without producing a response.
    ServerError { cost_ms: u64 },
}

/// Elapsed milliseconds from `start_ms` to `now_ms`, zero if the clock went back.
pub open spec fn elapsed(start_ms: u64, now_ms: u64) -> u64 {
    if now_ms >= start_ms {
        (now_ms - start_ms) as u64
    } else {
        0
    }
}

/// The closing record for a request started at `start_ms` that finished at
/// `now_ms` with the response status `outcome`, or with a service error.
pub open spec fn request_end(outcome: Option<u16>, start_ms: u64, now_ms: u64) -> RequestEnd {
    match outcome {
        Some(status) => if is_error_status_spec(status) {
            RequestEnd::ErrorStatus { status, cost_ms: elapsed(start_ms, now_ms) }
        } else {
            RequestEnd::Success { status, cost_ms: elapsed(start_ms, now_ms) }
        },
        None => RequestEnd::ServerError { cost_ms: elapsed(start_ms, now_ms) },
    }
}

/// Bookkeeping of one request in flight: its path, when it started, and whether
/// its end has been logged; `inner` is the wrapped service's pending response.
pub struct AccessLogServiceFuture<F> {
    pathname: String,
    done: bool,
    start_ms: u64,
    inner: F,
}

impl<F> AccessLogServiceFuture<F> {
    pub closed spec fn path(&self) -> Seq<char> {
        self.pathname@
    }

    pub closed spec fn finished(&self) -> bool {
        self.done
    }

    pub closed spec fn started_at(&self) -> u64 {
        self.start_ms
    }

    pub closed spec fn wrapped(&self) -> F {
        self.inner
    }

    pub fn inner(&self) -> (r: &F)
        ensures
            *r == self.wrapped(),
    {
        &self.inner
    }

    pub fn new(pathname: String, start_ms: u64, inner: F) -> (r: AccessLogServiceFuture<F>)
        ensures
            r.path() == pathname@,
            r.started_at() == start_ms,
            !r.finished(),
            r.wrapped() == inner,
    {
        AccessLogServiceFuture { pathname, done: false, start_ms, inner }
    }

    pub fn pathname(&self) -> (r: &str)
        ensures
            r@ == self.path(),
    {
        self.pathname.as_str()
    }

    /// Called when the wrapped response is ready, with its status or `None` for a
    /// service error: the closing record the first time, nothing afterwards.
    pub fn complete(&mut self, outcome: Option<u16>, now_ms: u64) -> (r: Option<RequestEnd>)
        ensures
            !old(self).finished() ==> r == Some(request_end(outcome, old(self).started_at(), now_ms)),
            old(self).finished() ==> r is None,
            final(self).finished(),
            final(self).path() == old(self).path(),
            final(self).started_at() == old(self).started_at(),
            final(self).wrapped() == old(self).wrapped(),
    {
        if self.done {
            return None;
        }
        self.done = true;
        let cost_ms = now_ms.saturating_sub(self.start_ms);
        match outcome {
            Some(status) => if is_error_status(status) {
                Some(RequestEnd::ErrorStatus { status, cost_ms })
            } else {
                Some(RequestEnd::Success { status, cost_ms })
            },
            None => Some(RequestEnd::ServerError { cost_ms }),
        }
    }

    /// Called when the request is dropped at `now_ms`: the milliseconds it ran
    /// if it was dropped before finishing, nothing if its end was logged.
    pub fn abandoned(&self, now_ms: u64) -> (r: Option<u64>)
        ensures
            !self.finished() ==> r == Some(elapsed(self.started_at(), now_ms)),
            self.finished() ==> r is None,
    {
        if self.done {
            None
        } else {
            Some(now_ms.saturating_sub(self.start_ms))
        }
    }
}

} // verus!
