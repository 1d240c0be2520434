//! Stubs of an HTTP mock: which requests a stub answers, and the response
//! it gives them.

use vstd::prelude::*;
use crate::http::{HttpRequest, HttpResponse};
use crate::kv::eq_str;
use crate::recorder::{eq_ignore_ascii_case, str_eq_ignore_ascii_case};

verus! {

/// Which requests a stub answers: those a function of the caller's
/// accepts, those of a path, or those of a path and a method (compared
/// regardless of ASCII case).
pub enum RequestMatch<M> {
    Custom(M),
    Path(String),
    PathAndMethod(String, String),
}

/// A stub: a request matcher and a response generator.
pub struct HttpStub<M, G> {
    pub request_matcher: RequestMatch<M>,
    pub response_generator: G,
}

impl<M: Fn(&HttpRequest) -> bool, G: Fn(&HttpRequest) -> HttpResponse> HttpStub<M, G> {
    /// A stub of this matcher and generator.
    pub fn new(request_matcher: M, response_generator: G) -> (s: HttpStub<M, G>)
        ensures
            s.request_matcher == RequestMatch::Custom(request_matcher),
            s.response_generator == response_generator,
    {
        HttpStub { request_matcher: RequestMatch::Custom(request_matcher), response_generator }
    }

    /// A stub answering the requests of this path.
    pub fn for_path(path: String, response_generator: G) -> (s: HttpStub<M, G>)
        ensures
            s.request_matcher == RequestMatch::<M>::Path(path),
            s.response_generator == response_generator,
    {
        HttpStub { request_matcher: RequestMatch::Path(path), response_generator }
    }

    /// A stub answering the requests of this path and method.
    pub fn for_path_and_method(path: String, method: String, response_generator: G) -> (s: HttpStub<M, G>)
        ensures
            s.request_matcher == RequestMatch::<M>::PathAndMethod(path, method),
            s.response_generator == response_generator,
    {
        HttpStub { request_matcher: RequestMatch::PathAndMethod(path, method), response_generator }
    }

    /// Does the stub answer this request?
    pub fn matches(&self, request: &HttpRequest) -> (b: bool)
        requires
            self.request_matcher matches RequestMatch::Custom(m) ==> call_requires(m, (request,)),
        ensures
            match self.request_matcher {
                RequestMatch::Custom(m) => call_ensures(m, (request,), b),
                RequestMatch::Path(p) => b == (request.path@ == p@),
                RequestMatch::PathAndMethod(p, m) => b == (request.path@ == p@ && eq_ignore_ascii_case(
                    request.method@,
                    m@,
                )),
            },
    {
        match &self.request_matcher {
            RequestMatch::Custom(m) => m(request),
            RequestMatch::Path(p) => eq_str(request.path.as_str(), p.as_str()),
            RequestMatch::PathAndMethod(p, m) => eq_str(request.path.as_str(), p.as_str()) && str_eq_ignore_ascii_case(
                request.method.as_str(),
                m.as_str(),
            ),
        }
    }

    /// The stub's response to this request.
    pub fn generate_response(&self, request: &HttpRequest) -> (r: HttpResponse)
        requires
            call_requires(self.response_generator, (request,)),
        ensures
            call_ensures(self.response_generator, (request,), r),
    {
        (self.response_generator)(request)
    }
}

} // verus!
