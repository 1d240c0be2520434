//! Responses of mock behaviors, and a builder for them.

use vstd::prelude::*;
use crate::chars::{decimal, decimal_string};
use crate::json::JsonValue;
use crate::recorder::Interaction;
use crate::kv::{map_of, StrMap};
use crate::model::TestHarnessError;

verus! {

/// A response of a mock behavior.
#[derive(Debug)]
pub struct Response {
    pub data: Option<JsonValue>,
    pub status: u16,
    pub headers: StrMap,
    /// How long to wait before answering, in milliseconds.
    pub delay: Option<u64>,
    pub error: Option<String>,
}

/// A response is a success when its status is 2xx and it carries no error.
pub open spec fn success(status: u16, error: Option<String>) -> bool {
    200 <= status < 300 && error is None
}

/// The message of the error a failed response stands for: its own error,
/// else `HTTP error: ` and the status.
pub open spec fn failure_message(status: u16, error: Option<String>) -> Seq<char> {
    match error {
        Some(e) => e@,
        None => "HTTP error: "@ + decimal(status as nat),
    }
}

impl Response {
    /// An empty success: status 200, no data, headers, delay or error.
    pub fn new() -> (r: Response)
        ensures
            r.data is None,
            r.status == 200,
            r.headers@ == Map::<Seq<char>, Seq<char>>::empty(),
            r.delay is None,
            r.error is None,
    {
        Response { data: None, status: 200, headers: StrMap::new(), delay: None, error: None }
    }

    /// A builder of responses.
    pub fn builder() -> (b: ResponseBuilder)
        ensures
            b.data is None,
            b.status is None,
            b.headers@ == Map::<Seq<char>, Seq<char>>::empty(),
            b.delay is None,
            b.error is None,
    {
        ResponseBuilder::new()
    }

    /// Is this a success, as `success` describes?
    pub fn is_success(&self) -> (b: bool)
        ensures
            b == success(self.status, self.error),
    {
        self.status >= 200 && self.status < 300 && self.error.is_none()
    }

    /// Is this not a success?
    pub fn is_error(&self) -> (b: bool)
        ensures
            b == !success(self.status, self.error),
    {
        !self.is_success()
    }

    /// The response itself when it is a success, else a mock error with
    /// the message `failure_message` gives.
    pub fn into_result(self) -> (r: Result<Response, TestHarnessError>)
        ensures
            success(self.status, self.error) ==> r == Ok::<Response, TestHarnessError>(self),
            !success(self.status, self.error) ==> (r matches Err(TestHarnessError::MockError(m)) && m@
                == failure_message(self.status, self.error)),
    {
        if self.is_success() {
            Ok(self)
        } else {
            let m = match self.error {
                Some(e) => e,
                None => {
                    let mut m = "HTTP error: ".to_owned();
                    let n = decimal_string(self.status as u64);
                    m.append(n.as_str());
                    m
                },
            };
            Err(TestHarnessError::MockError(m))
        }
    }

    /// A copy of the response's data; a mock error when it has none.
    /// Reading the data into a type of the caller's is left to the caller.
    pub fn data(&self) -> (r: Result<JsonValue, TestHarnessError>)
        ensures
            match self.data {
                Some(d) => r matches Ok(v) && v@ == d@,
                None => r matches Err(TestHarnessError::MockError(m)) && m@ == "No data in response"@,
            },
    {
        match &self.data {
            Some(d) => Ok(d.copy()),
            None => Err(TestHarnessError::MockError("No data in response".to_owned())),
        }
    }

    /// The value of a header.
    pub fn header(&self, key: &str) -> (r: Option<&str>)
        ensures
            match r {
                Some(v) => self.headers@.contains_key(key@) && self.headers@[key@] == v@,
                None => !self.headers@.contains_key(key@),
            },
    {
        match self.headers.get(key) {
            Some(v) => Some(v.as_str()),
            None => None,
        }
    }
}

impl Default for Response {
    /// An empty success, as `Response::new` gives.
    fn default() -> (r: Self)
        ensures
            r.data is None,
            r.status == 200,
            r.headers@ == Map::<Seq<char>, Seq<char>>::empty(),
            r.delay is None,
            r.error is None,
    {
        Response::new()
    }
}

/// Builds a response step by step.
#[derive(Debug)]
pub struct ResponseBuilder {
    pub data: Option<JsonValue>,
    pub status: Option<u16>,
    pub headers: StrMap,
    /// In milliseconds.
    pub delay: Option<u64>,
    pub error: Option<String>,
}

impl ResponseBuilder {
    /// Nothing set.
    pub fn new() -> (b: ResponseBuilder)
        ensures
            b.data is None,
            b.status is None,
            b.headers@ == Map::<Seq<char>, Seq<char>>::empty(),
            b.delay is None,
            b.error is None,
    {
        ResponseBuilder { data: None, status: None, headers: StrMap::new(), delay: None, error: None }
    }

    /// Sets the data. A value of the library's JSON type always
    /// serialises, so this succeeds.
    pub fn with_data(self, data: JsonValue) -> (r: Result<ResponseBuilder, TestHarnessError>)
        ensures
            r == Ok::<ResponseBuilder, TestHarnessError>(ResponseBuilder { data: Some(data), ..self }),
    {
        Ok(ResponseBuilder { data: Some(data), ..self })
    }

    /// Sets the status.
    pub fn with_status(self, status: u16) -> (b: ResponseBuilder)
        ensures
            b == (ResponseBuilder { status: Some(status), ..self }),
    {
        ResponseBuilder { status: Some(status), ..self }
    }

    /// Sets a header.
    pub fn with_header(self, key: String, value: String) -> (b: ResponseBuilder)
        ensures
            b.headers@ == self.headers@.insert(key@, value@),
            b == (ResponseBuilder { headers: b.headers, ..self }),
    {
        let mut b = self;
        b.headers.insert(key, value);
        b
    }

    /// Sets headers, in order.
    pub fn with_headers(self, headers: Vec<(String, String)>) -> (b: ResponseBuilder)
        ensures
            b.headers@ == self.headers@.union_prefer_right(map_of(headers@)),
            b == (ResponseBuilder { headers: b.headers, ..self }),
    {
        let mut b = self;
        b.headers.insert_pairs(headers);
        b
    }

    /// Sets the delay, in milliseconds.
    pub fn with_delay(self, delay_ms: u64) -> (b: ResponseBuilder)
        ensures
            b == (ResponseBuilder { delay: Some(delay_ms), ..self }),
    {
        ResponseBuilder { delay: Some(delay_ms), ..self }
    }

    /// Sets the error.
    pub fn with_error(self, error: String) -> (b: ResponseBuilder)
        ensures
            b == (ResponseBuilder { error: Some(error), ..self }),
    {
        ResponseBuilder { error: Some(error), ..self }
    }

    /// The response: what was set, with status 200 when none was.
    pub fn build(self) -> (r: Response)
        ensures
            r.data == self.data,
            r.status == match self.status {
                Some(s) => s,
                None => 200u16,
            },
            r.headers == self.headers,
            r.delay == self.delay,
            r.error == self.error,
    {
        let status = match self.status {
            Some(s) => s,
            None => 200,
        };
        Response { data: self.data, status, headers: self.headers, delay: self.delay, error: self.error }
    }

    /// A success with this data and status 200.
    pub fn success(data: JsonValue) -> (r: Result<Response, TestHarnessError>)
        ensures
            r matches Ok(x) && x.data == Some(data) && x.status == 200 && x.headers@ == Map::<Seq<char>, Seq<char>>::empty()
                && x.delay is None && x.error is None,
    {
        let b = ResponseBuilder::new();
        match b.with_data(data) {
            Ok(b) => b.with_status(200).build().into_result(),
            Err(e) => Err(e),
        }
    }

    /// A response of this status carrying this error.
    pub fn error(status: u16, message: String) -> (r: Response)
        ensures
            r.data is None,
            r.status == status,
            r.headers@ == Map::<Seq<char>, Seq<char>>::empty(),
            r.delay is None,
            r.error == Some(message),
    {
        ResponseBuilder::new().with_status(status).with_error(message).build()
    }

    /// A 404 response carrying this error.
    pub fn not_found(message: String) -> (r: Response)
        ensures
            r.data is None,
            r.status == 404,
            r.headers@ == Map::<Seq<char>, Seq<char>>::empty(),
            r.delay is None,
            r.error == Some(message),
    {
        ResponseBuilder::error(404, message)
    }

    /// A 400 response carrying this error.
    pub fn bad_request(message: String) -> (r: Response)
        ensures
            r.data is None,
            r.status == 400,
            r.headers@ == Map::<Seq<char>, Seq<char>>::empty(),
            r.delay is None,
            r.error == Some(message),
    {
        ResponseBuilder::error(400, message)
    }

    /// A 401 response carrying this error.
    pub fn unauthorized(message: String) -> (r: Response)
        ensures
            r.data is None,
            r.status == 401,
            r.headers@ == Map::<Seq<char>, Seq<char>>::empty(),
            r.delay is None,
            r.error == Some(message),
    {
        ResponseBuilder::error(401, message)
    }

    /// A 403 response carrying this error.
    pub fn forbidden(message: String) -> (r: Response)
        ensures
            r.data is None,
            r.status == 403,
            r.headers@ == Map::<Seq<char>, Seq<char>>::empty(),
            r.delay is None,
            r.error == Some(message),
    {
        ResponseBuilder::error(403, message)
    }

    /// A 500 response carrying this error.
    pub fn internal_server_error(message: String) -> (r: Response)
        ensures
            r.data is None,
            r.status == 500,
            r.headers@ == Map::<Seq<char>, Seq<char>>::empty(),
            r.delay is None,
            r.error == Some(message),
    {
        ResponseBuilder::error(500, message)
    }

    /// A 503 response carrying this error.
    pub fn service_unavailable(message: String) -> (r: Response)
        ensures
            r.data is None,
            r.status == 503,
            r.headers@ == Map::<Seq<char>, Seq<char>>::empty(),
            r.delay is None,
            r.error == Some(message),
    {
        ResponseBuilder::error(503, message)
    }

    /// A 408 response carrying this error, delayed by thirty seconds.
    pub fn timeout(message: String) -> (r: Response)
        ensures
            r.data is None,
            r.status == 408,
            r.headers@ == Map::<Seq<char>, Seq<char>>::empty(),
            r.delay == Some(30_000u64),
            r.error == Some(message),
    {
        ResponseBuilder::new().with_status(408).with_error(message).with_delay(30_000).build()
    }
}

impl Default for ResponseBuilder {
    /// Nothing set.
    fn default() -> (b: Self)
        ensures
            b.data is None,
            b.status is None,
            b.headers@ == Map::<Seq<char>, Seq<char>>::empty(),
            b.delay is None,
            b.error is None,
    {
        ResponseBuilder::new()
    }
}

/// Builds a mock behavior: a name, a description, a matcher that tells
/// which interactions it answers and a responder that answers them.
pub struct BehaviorBuilder<M, R> {
    pub name: String,
    pub description: Option<String>,
    pub matcher: Option<M>,
    pub responder: Option<R>,
}

impl<M: Fn(&Interaction) -> bool, R: Fn(&Interaction) -> Response> BehaviorBuilder<M, R> {
    /// A behavior of this name, with nothing else set.
    pub fn new(name: String) -> (b: BehaviorBuilder<M, R>)
        ensures
            b.name == name,
            b.description is None,
            b.matcher is None,
            b.responder is None,
    {
        BehaviorBuilder { name, description: None, matcher: None, responder: None }
    }

    /// Sets the description.
    pub fn with_description(self, description: String) -> (b: BehaviorBuilder<M, R>)
        ensures
            b == (BehaviorBuilder { description: Some(description), ..self }),
    {
        BehaviorBuilder { description: Some(description), ..self }
    }

    /// Sets the matcher.
    pub fn with_matcher(self, matcher: M) -> (b: BehaviorBuilder<M, R>)
        ensures
            b == (BehaviorBuilder { matcher: Some(matcher), ..self }),
    {
        BehaviorBuilder { matcher: Some(matcher), ..self }
    }

    /// Sets the responder.
    pub fn with_responder(self, responder: R) -> (b: BehaviorBuilder<M, R>)
        ensures
            b == (BehaviorBuilder { responder: Some(responder), ..self }),
    {
        BehaviorBuilder { responder: Some(responder), ..self }
    }

    /// The behavior, not yet invoked; both the matcher and the responder
    /// are required, the matcher's absence reported first.
    pub fn build(self) -> (r: Result<MockBehavior<M, R>, TestHarnessError>)
        ensures
            match (self.matcher, self.responder) {
                (Some(m), Some(a)) => r matches Ok(b) && b.name_text() == self.name@ && b.description_text() == self.description
                    && b.matcher_fn() == m && b.responder_fn() == a && b.invocations() == 0,
                (None, _) => r matches Err(TestHarnessError::MockError(x)) && x@ == "Matcher function is required"@,
                (Some(_), None) => r matches Err(TestHarnessError::MockError(x)) && x@
                    == "Responder function is required"@,
            },
    {
        let matcher = match self.matcher {
            Some(m) => m,
            None => {
                return Err(TestHarnessError::MockError("Matcher function is required".to_owned()));
            },
        };
        let responder = match self.responder {
            Some(a) => a,
            None => {
                return Err(TestHarnessError::MockError("Responder function is required".to_owned()));
            },
        };
        Ok(MockBehavior { name: self.name, description: self.description, matcher, responder, invocation_count: 0 })
    }
}

/// A mock behavior: it answers the interactions its matcher accepts with
/// its responder, and counts how often it answered.
pub struct MockBehavior<M, R> {
    name: String,
    description: Option<String>,
    matcher: M,
    responder: R,
    invocation_count: usize,
}

impl<M: Fn(&Interaction) -> bool, R: Fn(&Interaction) -> Response> MockBehavior<M, R> {
    /// How often the behavior has answered since it was built or reset.
    pub closed spec fn invocations(&self) -> nat {
        self.invocation_count as nat
    }

    /// The behavior's name.
    pub closed spec fn name_text(&self) -> Seq<char> {
        self.name@
    }

    /// The behavior's description.
    pub closed spec fn description_text(&self) -> Option<String> {
        self.description
    }

    /// The matcher.
    pub closed spec fn matcher_fn(&self) -> M {
        self.matcher
    }

    /// The responder.
    pub closed spec fn responder_fn(&self) -> R {
        self.responder
    }

    /// The behavior's name.
    pub fn name(&self) -> (s: &str)
        ensures
            s@ == self.name_text(),
    {
        self.name.as_str()
    }

    /// The behavior's description.
    pub fn description(&self) -> (d: Option<&str>)
        ensures
            match d {
                Some(x) => self.description_text() matches Some(y) && x@ == y@,
                None => self.description_text() is None,
            },
    {
        match &self.description {
            Some(d) => Some(d.as_str()),
            None => None,
        }
    }

    /// Does the matcher accept this interaction?
    pub fn matches(&self, interaction: &Interaction) -> (b: bool)
        requires
            call_requires(self.matcher_fn(), (interaction,)),
        ensures
            call_ensures(self.matcher_fn(), (interaction,), b),
    {
        (self.matcher)(interaction)
    }

    /// Answers the interaction with the responder, counting the answer.
    pub fn respond(&mut self, interaction: &Interaction) -> (r: Response)
        requires
            call_requires(old(self).responder_fn(), (interaction,)),
            old(self).invocations() < usize::MAX,
        ensures
            call_ensures(old(self).responder_fn(), (interaction,), r),
            final(self).invocations() == old(self).invocations() + 1,
            final(self).name_text() == old(self).name_text(),
            final(self).description_text() == old(self).description_text(),
            final(self).matcher_fn() == old(self).matcher_fn(),
            final(self).responder_fn() == old(self).responder_fn(),
    {
        self.invocation_count = self.invocation_count + 1;
        (self.responder)(interaction)
    }

    /// How often the behavior has answered.
    pub fn invocation_count(&self) -> (n: usize)
        ensures
            n == self.invocations(),
    {
        self.invocation_count
    }

    /// Sets the count of answers back to zero.
    pub fn reset(&mut self)
        ensures
            final(self).invocations() == 0,
            final(self).name_text() == old(self).name_text(),
            final(self).description_text() == old(self).description_text(),
            final(self).matcher_fn() == old(self).matcher_fn(),
            final(self).responder_fn() == old(self).responder_fn(),
    {
        self.invocation_count = 0;
    }
}

} // verus!
