//! HTTP requests and responses of the mocks, recorded interactions, and the
//! matching and replay decisions of the interaction recorder.

use vstd::prelude::*;
use crate::json::{json_string_text, optional_json_equal, quoted_json, JsonValue, JsonView};
use crate::kv::{eq_str, StrMap};
use crate::behavior::Response;
use crate::mock_recorder::RecordedInteraction;
use crate::recorder::{HeaderFields, Interaction, InteractionRequest, RequestView};
use crate::text::views;

verus! {

/// An HTTP request.
#[derive(Debug)]
pub struct HttpRequest {
    pub method: String,
    pub path: String,
    pub query: StrMap,
    pub headers: StrMap,
    pub body: Option<JsonValue>,
}

/// The view of an optional JSON body.
pub open spec fn body_view(b: Option<JsonValue>) -> Option<JsonView> {
    match b {
        Some(v) => Some(v@),
        None => None,
    }
}

impl HttpRequest {
    /// A request with no query, headers or body.
    pub fn new(method: String, path: String) -> (r: HttpRequest)
        ensures
            r.method@ == method@,
            r.path@ == path@,
            r.query@ == Map::<Seq<char>, Seq<char>>::empty(),
            r.headers@ == Map::<Seq<char>, Seq<char>>::empty(),
            r.body is None,
    {
        HttpRequest { method, path, query: StrMap::new(), headers: StrMap::new(), body: None }
    }

    /// Sets a query parameter.
    pub fn with_query(self, key: String, value: String) -> (r: HttpRequest)
        ensures
            r.method@ == self.method@,
            r.path@ == self.path@,
            r.query@ == self.query@.insert(key@, value@),
            r.headers@ == self.headers@,
            body_view(r.body) == body_view(self.body),
    {
        let mut r = self;
        r.query.insert(key, value);
        r
    }

    /// Sets query parameters, in order.
    pub fn with_queries(self, queries: Vec<(String, String)>) -> (r: HttpRequest)
        ensures
            r.method@ == self.method@,
            r.path@ == self.path@,
            r.query@ == self.query@.union_prefer_right(crate::kv::map_of(queries@)),
            r.headers@ == self.headers@,
            body_view(r.body) == body_view(self.body),
    {
        let mut r = self;
        r.query.insert_pairs(queries);
        r
    }

    /// Sets headers, in order.
    pub fn with_headers(self, headers: Vec<(String, String)>) -> (r: HttpRequest)
        ensures
            r.method@ == self.method@,
            r.path@ == self.path@,
            r.query@ == self.query@,
            r.headers@ == self.headers@.union_prefer_right(crate::kv::map_of(headers@)),
            body_view(r.body) == body_view(self.body),
    {
        let mut r = self;
        r.headers.insert_pairs(headers);
        r
    }

    /// Sets a header.
    pub fn with_header(self, key: String, value: String) -> (r: HttpRequest)
        ensures
            r.method@ == self.method@,
            r.path@ == self.path@,
            r.query@ == self.query@,
            r.headers@ == self.headers@.insert(key@, value@),
            body_view(r.body) == body_view(self.body),
    {
        let mut r = self;
        r.headers.insert(key, value);
        r
    }

    /// Sets the body.
    pub fn with_body(self, body: JsonValue) -> (r: HttpRequest)
        ensures
            r.method@ == self.method@,
            r.path@ == self.path@,
            r.query@ == self.query@,
            r.headers@ == self.headers@,
            body_view(r.body) == Some(body@),
    {
        let mut r = self;
        r.body = Some(body);
        r
    }

    /// A copy of this request.
    pub fn copy(&self) -> (r: HttpRequest)
        ensures
            r.method@ == self.method@,
            r.path@ == self.path@,
            r.query@ == self.query@,
            r.headers@ == self.headers@,
            body_view(r.body) == body_view(self.body),
    {
        HttpRequest {
            method: self.method.clone(),
            path: self.path.clone(),
            query: self.query.copy(),
            headers: self.headers.copy(),
            body: match &self.body {
                Some(b) => Some(b.copy()),
                None => None,
            },
        }
    }
}

/// An HTTP response.
#[derive(Debug)]
pub struct HttpResponse {
    pub status: u16,
    pub headers: StrMap,
    pub body: Option<JsonValue>,
}

impl HttpResponse {
    /// A response of the given status with no headers and no body.
    pub fn new(status: u16) -> (r: HttpResponse)
        ensures
            r.status == status,
            r.headers@ == Map::<Seq<char>, Seq<char>>::empty(),
            r.body is None,
    {
        HttpResponse { status, headers: StrMap::new(), body: None }
    }

    /// Sets a header.
    pub fn with_header(self, key: String, value: String) -> (r: HttpResponse)
        ensures
            r.status == self.status,
            r.headers@ == self.headers@.insert(key@, value@),
            body_view(r.body) == body_view(self.body),
    {
        let mut r = self;
        r.headers.insert(key, value);
        r
    }

    /// Sets headers, in order.
    pub fn with_headers(self, headers: Vec<(String, String)>) -> (r: HttpResponse)
        ensures
            r.status == self.status,
            r.headers@ == self.headers@.union_prefer_right(crate::kv::map_of(headers@)),
            body_view(r.body) == body_view(self.body),
    {
        let mut r = self;
        r.headers.insert_pairs(headers);
        r
    }

    /// Sets the body.
    pub fn with_body(self, body: JsonValue) -> (r: HttpResponse)
        ensures
            r.status == self.status,
            r.headers@ == self.headers@,
            body_view(r.body) == Some(body@),
    {
        let mut r = self;
        r.body = Some(body);
        r
    }

    /// A copy of this response.
    pub fn copy(&self) -> (r: HttpResponse)
        ensures
            r.status == self.status,
            r.headers@ == self.headers@,
            body_view(r.body) == body_view(self.body),
    {
        HttpResponse {
            status: self.status,
            headers: self.headers.copy(),
            body: match &self.body {
                Some(b) => Some(b.copy()),
                None => None,
            },
        }
    }

    /// The mock response of the same status, headers and data, with no
    /// delay and no error.
    pub fn to_response(&self) -> (r: Response)
        ensures
            r.status == self.status,
            r.headers@ == self.headers@,
            body_view(r.data) == body_view(self.body),
            r.delay is None,
            r.error is None,
    {
        let mut response = Response::new();
        response.status = self.status;
        response.headers = self.headers.copy();
        response.data = match &self.body {
            Some(b) => Some(b.copy()),
            None => None,
        };
        response
    }

    /// The response of the same status, headers and body as a mock
    /// response.
    pub fn from_response(response: &Response) -> (r: HttpResponse)
        ensures
            r.status == response.status,
            r.headers@ == response.headers@,
            body_view(r.body) == body_view(response.data),
    {
        HttpResponse {
            status: response.status,
            headers: response.headers.copy(),
            body: match &response.data {
                Some(b) => Some(b.copy()),
                None => None,
            },
        }
    }
}

/// A recorded request with the response it got.
#[derive(Debug)]
pub struct HttpInteraction {
    pub id: String,
    pub request: HttpRequest,
    pub response: HttpResponse,
    /// Latency in milliseconds.
    pub latency_ms: u64,
    pub tags: Vec<String>,
    pub metadata: StrMap,
}

impl HttpInteraction {
    /// An interaction of the given id, with no latency and no tags.
    pub fn new(id: String, request: HttpRequest, response: HttpResponse) -> (r: HttpInteraction)
        ensures
            r.id@ == id@,
            r.request == request,
            r.response == response,
            r.latency_ms == 0,
            r.tags@.len() == 0,
            r.metadata@ == Map::<Seq<char>, Seq<char>>::empty(),
    {
        HttpInteraction { id, request, response, latency_ms: 0, tags: Vec::new(), metadata: StrMap::new() }
    }

    /// Sets the latency.
    pub fn with_latency(self, latency_ms: u64) -> (r: HttpInteraction)
        ensures
            r.id == self.id,
            r.request == self.request,
            r.response == self.response,
            r.latency_ms == latency_ms,
            r.tags == self.tags,
            r.metadata == self.metadata,
    {
        let mut r = self;
        r.latency_ms = latency_ms;
        r
    }

    /// Adds a tag.
    pub fn with_tag(self, tag: String) -> (r: HttpInteraction)
        ensures
            r.id == self.id,
            r.request == self.request,
            r.response == self.response,
            r.latency_ms == self.latency_ms,
            r.tags@ == self.tags@.push(tag),
            r.metadata == self.metadata,
    {
        let mut r = self;
        r.tags.push(tag);
        r
    }

    /// Adds tags, in order.
    pub fn with_tags(self, tags: Vec<String>) -> (r: HttpInteraction)
        ensures
            r.tags@ == self.tags@ + tags@,
            r == (HttpInteraction { tags: r.tags, ..self }),
    {
        let mut r = self;
        let mut more = tags;
        r.tags.append(&mut more);
        r
    }

    /// Sets a metadata entry.
    pub fn with_metadata(self, key: String, value: String) -> (r: HttpInteraction)
        ensures
            r.metadata@ == self.metadata@.insert(key@, value@),
            r == (HttpInteraction { metadata: r.metadata, ..self }),
    {
        let mut r = self;
        r.metadata.insert(key, value);
        r
    }

    /// The interaction as a mock recorder keeps it: under its id, its
    /// request's path, method and headers, answered by no behavior and not
    /// verified.
    pub fn to_recorded_interaction(&self) -> (r: RecordedInteraction)
        ensures
            r@.interaction.id == self.id@,
            r@.interaction.request == (RequestView {
                path: Some(self.request.path@),
                method: Some(self.request.method@),
                headers: Some((self.request.headers@, Seq::<Seq<char>>::empty())),
            }),
            r@.behavior is None,
            !r@.verified,
    {
        let i = self.request.to_interaction(self.id.clone());
        proof {
            let h = i.request.headers->0;
            assert(views(h.other@) =~= Seq::<Seq<char>>::empty());
        }
        RecordedInteraction::new(i)
    }
}

/// Which parts of a request a recorded interaction must share with it.
#[derive(Debug, Clone)]
pub struct HttpInteractionMatcher {
    pub match_method: bool,
    pub match_path: bool,
    pub match_query: bool,
    pub match_headers: Vec<String>,
    pub match_body: bool,
    pub match_body_fields: Vec<String>,
}

impl HttpInteractionMatcher {
    /// Matches by method and path only.
    pub fn new() -> (m: HttpInteractionMatcher)
        ensures
            m.match_method,
            m.match_path,
            !m.match_query,
            m.match_headers@.len() == 0,
            !m.match_body,
            m.match_body_fields@.len() == 0,
    {
        HttpInteractionMatcher {
            match_method: true,
            match_path: true,
            match_query: false,
            match_headers: Vec::new(),
            match_body: false,
            match_body_fields: Vec::new(),
        }
    }

    /// Sets method matching.
    pub fn with_method_matching(self, match_method: bool) -> (m: HttpInteractionMatcher)
        ensures
            m.match_method == match_method,
            m.match_path == self.match_path,
            m.match_query == self.match_query,
            m.match_headers == self.match_headers,
            m.match_body == self.match_body,
            m.match_body_fields == self.match_body_fields,
    {
        let mut m = self;
        m.match_method = match_method;
        m
    }

    /// Sets path matching.
    pub fn with_path_matching(self, match_path: bool) -> (m: HttpInteractionMatcher)
        ensures
            m.match_method == self.match_method,
            m.match_path == match_path,
            m.match_query == self.match_query,
            m.match_headers == self.match_headers,
            m.match_body == self.match_body,
            m.match_body_fields == self.match_body_fields,
    {
        let mut m = self;
        m.match_path = match_path;
        m
    }

    /// Sets query matching.
    pub fn with_query_matching(self, match_query: bool) -> (m: HttpInteractionMatcher)
        ensures
            m.match_method == self.match_method,
            m.match_path == self.match_path,
            m.match_query == match_query,
            m.match_headers == self.match_headers,
            m.match_body == self.match_body,
            m.match_body_fields == self.match_body_fields,
    {
        let mut m = self;
        m.match_query = match_query;
        m
    }

    /// Adds headers to match.
    pub fn with_header_matching(self, headers: Vec<String>) -> (m: HttpInteractionMatcher)
        ensures
            m.match_method == self.match_method,
            m.match_path == self.match_path,
            m.match_query == self.match_query,
            m.match_headers@ == self.match_headers@ + headers@,
            m.match_body == self.match_body,
            m.match_body_fields == self.match_body_fields,
    {
        let mut m = self;
        let mut headers = headers;
        m.match_headers.append(&mut headers);
        m
    }

    /// Sets body matching.
    pub fn with_body_matching(self, match_body: bool) -> (m: HttpInteractionMatcher)
        ensures
            m.match_method == self.match_method,
            m.match_path == self.match_path,
            m.match_query == self.match_query,
            m.match_headers == self.match_headers,
            m.match_body == match_body,
            m.match_body_fields == self.match_body_fields,
    {
        let mut m = self;
        m.match_body = match_body;
        m
    }

    /// Adds body fields to match.
    pub fn with_body_field_matching(self, fields: Vec<String>) -> (m: HttpInteractionMatcher)
        ensures
            m.match_method == self.match_method,
            m.match_path == self.match_path,
            m.match_query == self.match_query,
            m.match_headers == self.match_headers,
            m.match_body == self.match_body,
            m.match_body_fields@ == self.match_body_fields@ + fields@,
    {
        let mut m = self;
        let mut fields = fields;
        m.match_body_fields.append(&mut fields);
        m
    }

    /// Does the recorded interaction answer the request? Method, path,
    /// body and the listed headers must be equal where asked; with query
    /// matching every query parameter of the request must be recorded with
    /// the same value; with body fields listed both bodies must be objects
    /// that agree on each listed field (both lacking it counts as agreeing).
    pub fn matches(&self, recorded: &HttpInteraction, request: &HttpRequest) -> (b: bool)
        ensures
            b == interaction_matches(*self, recorded.request, *request),
            forall|j: int|
                0 <= j < self.match_headers.len() && recorded.request.headers@.contains_key(#[trigger] self.match_headers@[j]@)
                    && request.headers@.contains_key(self.match_headers@[j]@) && recorded.request.headers@[self.match_headers@[j]@]
                    != request.headers@[self.match_headers@[j]@] ==> !b,
            forall|j: int|
                0 <= j < self.match_headers.len() && !recorded.request.headers@.contains_key(#[trigger] self.match_headers@[j]@) ==> !b,
    {
        let rec = &recorded.request;
        if self.match_method && !eq_str(rec.method.as_str(), request.method.as_str()) {
            return false;
        }
        if self.match_path && !eq_str(rec.path.as_str(), request.path.as_str()) {
            return false;
        }
        if self.match_query && !request.query.is_submap_of(&rec.query) {
            return false;
        }
        let mut i: usize = 0;
        while i < self.match_headers.len()
            invariant
                i <= self.match_headers.len(),
                *rec == recorded.request,
                self.match_method ==> rec.method@ == request.method@,
                self.match_path ==> rec.path@ == request.path@,
                self.match_query ==> request.query@.submap_of(rec.query@),
                forall|j: int| 0 <= j < i ==> header_agrees(rec.headers@, request.headers@, #[trigger] self.match_headers@[j]@),
            decreases self.match_headers.len() - i,
        {
            let h = self.match_headers[i].as_str();
            let ghost hv = self.match_headers@[i as int]@;
            proof {
                if !header_agrees(rec.headers@, request.headers@, hv) {
                    assert(!(forall|j: int| 0 <= j < self.match_headers.len() ==> header_agrees(rec.headers@, request.headers@, #[trigger] self.match_headers@[j]@)));
                }
            }
            match rec.headers.get(h) {
                Some(v) => {
                    match request.headers.get(h) {
                        Some(w) => {
                            if !eq_str(v.as_str(), w.as_str()) {
                                return false;
                            }
                        },
                        None => {
                            return false;
                        },
                    }
                },
                None => {
                    return false;
                },
            }
            i += 1;
        }
        if self.match_body && !optional_json_equal(&rec.body, &request.body) {
            return false;
        }
        if self.match_body_fields.len() > 0 {
            match (&rec.body, &request.body) {
                (Some(rb), Some(qb)) => {
                    match (rb.as_object(), qb.as_object()) {
                        (Some(ro), Some(qo)) => {
                            let mut k: usize = 0;
                            while k < self.match_body_fields.len()
                                invariant
                                    k <= self.match_body_fields.len(),
                                    *rec == recorded.request,
                                    body_view(rec.body) == Some(JsonView::Object(ro@)),
                                    body_view(request.body) == Some(JsonView::Object(qo@)),
                                    self.match_method ==> rec.method@ == request.method@,
                                    self.match_path ==> rec.path@ == request.path@,
                                    self.match_query ==> request.query@.submap_of(rec.query@),
                                    forall|j: int| 0 <= j < self.match_headers.len() ==> header_agrees(rec.headers@, request.headers@, #[trigger] self.match_headers@[j]@),
                                    self.match_body ==> body_view(rec.body) == body_view(request.body),
                                    forall|j: int| 0 <= j < k ==> field_agrees(ro@, qo@, #[trigger] self.match_body_fields@[j]@),
                                decreases self.match_body_fields.len() - k,
                            {
                                let f = self.match_body_fields[k].as_str();
                                proof {
                                    let fv = self.match_body_fields@[k as int]@;
                                    if !field_agrees(ro@, qo@, fv) {
                                        assert(!(forall|j: int| 0 <= j < self.match_body_fields.len() ==> field_agrees(ro@, qo@, #[trigger] self.match_body_fields@[j]@)));
                                    }
                                }
                                let agree = match (ro.get(f), qo.get(f)) {
                                    (Some(x), Some(y)) => eq_str(x.as_str(), y.as_str()),
                                    (None, None) => true,
                                    _ => false,
                                };
                                if !agree {
                                    return false;
                                }
                                k += 1;
                            }
                        },
                        _ => {
                            return false;
                        },
                    }
                },
                _ => {
                    return false;
                },
            }
        }
        true
    }
}

/// The recorded request holds header `h` with the value the request has
/// for it.
pub open spec fn header_agrees(recorded: Map<Seq<char>, Seq<char>>, request: Map<Seq<char>, Seq<char>>, h: Seq<char>) -> bool {
    recorded.contains_key(h) && request.contains_key(h) && recorded[h] == request[h]
}

/// Both objects have field `f` with equal values, or both lack it.
pub open spec fn field_agrees(a: Map<Seq<char>, Seq<char>>, b: Map<Seq<char>, Seq<char>>, f: Seq<char>) -> bool {
    a.index_opt(f) == b.index_opt(f)
}

/// The matcher lets the recorded request answer the request.
pub open spec fn interaction_matches(m: HttpInteractionMatcher, recorded: HttpRequest, request: HttpRequest) -> bool {
    &&& m.match_method ==> recorded.method@ == request.method@
    &&& m.match_path ==> recorded.path@ == request.path@
    &&& m.match_query ==> request.query@.submap_of(recorded.query@)
    &&& forall|j: int| 0 <= j < m.match_headers.len() ==> header_agrees(recorded.headers@, request.headers@, #[trigger] m.match_headers@[j]@)
    &&& m.match_body ==> body_view(recorded.body) == body_view(request.body)
    &&& m.match_body_fields.len() > 0 ==> match (body_view(recorded.body), body_view(request.body)) {
        (Some(JsonView::Object(a)), Some(JsonView::Object(b))) => forall|j: int|
            0 <= j < m.match_body_fields.len() ==> field_agrees(a, b, #[trigger] m.match_body_fields@[j]@),
        _ => false,
    }
}

/// How the interaction recorder answers requests.
#[derive(Debug, Clone, Copy, PartialEq, Eq, Structural)]
pub enum RecordingMode {
    /// Call the real service and record every interaction.
    Record,
    /// Answer from recorded interactions only.
    Replay,
    /// Answer from a recorded interaction if one matches, else call the
    /// real service and record.
    Auto,
    /// Call the real service without recording.
    Passthrough,
}

impl RecordingMode {
    /// The mode's name, as it is displayed.
    pub fn name(&self) -> (s: &'static str)
        ensures
            s@ == match *self {
                RecordingMode::Record => "Record"@,
                RecordingMode::Replay => "Replay"@,
                RecordingMode::Auto => "Auto"@,
                RecordingMode::Passthrough => "Passthrough"@,
            },
    {
        match self {
            RecordingMode::Record => "Record",
            RecordingMode::Replay => "Replay",
            RecordingMode::Auto => "Auto",
            RecordingMode::Passthrough => "Passthrough",
        }
    }
}

/// What the recorder does with a request.
#[derive(Debug, Clone, Copy, PartialEq, Eq, Structural)]
pub enum RecorderAction {
    /// Answer with the response of the recorded interaction at this position.
    Replay(usize),
    /// Answer 404: no recorded interaction matches.
    NotFound,
    /// Call the real service, and record the interaction when asked.
    CallService { record: bool },
}

/// The position of the first recorded interaction that answers the request.
pub open spec fn first_match(m: HttpInteractionMatcher, recorded: Seq<HttpInteraction>, request: HttpRequest, i: int) -> bool {
    &&& 0 <= i < recorded.len()
    &&& interaction_matches(m, recorded[i].request, request)
    &&& forall|j: int| 0 <= j < i ==> !interaction_matches(m, #[trigger] recorded[j].request, request)
}

/// The first recorded interaction that answers the request.
pub fn find_matching(m: &HttpInteractionMatcher, recorded: &Vec<HttpInteraction>, request: &HttpRequest) -> (r: Option<usize>)
    ensures
        match r {
            Some(i) => first_match(*m, recorded@, *request, i as int),
            None => forall|j: int| 0 <= j < recorded.len() ==> !interaction_matches(*m, #[trigger] recorded@[j].request, *request),
        },
{
    let mut i: usize = 0;
    while i < recorded.len()
        invariant
            i <= recorded.len(),
            forall|j: int| 0 <= j < i ==> !interaction_matches(*m, #[trigger] recorded@[j].request, *request),
        decreases recorded.len() - i,
    {
        if m.matches(&recorded[i], request) {
            return Some(i);
        }
        i += 1;
    }
    None
}

proof fn lemma_first_match_upto(m: HttpInteractionMatcher, recorded: Seq<HttpInteraction>, request: HttpRequest, k: int)
    requires
        0 <= k < recorded.len(),
        interaction_matches(m, recorded[k].request, request),
    ensures
        exists|i: int| 0 <= i <= k && first_match(m, recorded, request, i),
    decreases k,
{
    if exists|j: int| 0 <= j < k && interaction_matches(m, #[trigger] recorded[j].request, request) {
        let j = choose|j: int| 0 <= j < k && interaction_matches(m, #[trigger] recorded[j].request, request);
        lemma_first_match_upto(m, recorded, request, j);
    } else {
        assert(first_match(m, recorded, request, k));
    }
}

/// Law: a request that was recorded is answered on replay, by the first
/// matching interaction, found no later than the first record of that same
/// request; for this the request must carry every header the matcher
/// compares, and have an object body when body fields are compared.
pub proof fn lemma_replay_finds_recorded(
    m: HttpInteractionMatcher,
    recorded: Seq<HttpInteraction>,
    request: HttpRequest,
    k: int,
)
    requires
        0 <= k < recorded.len(),
        recorded[k].request == request,
        forall|j: int| 0 <= j < m.match_headers.len() ==> request.headers@.contains_key(#[trigger] m.match_headers@[j]@),
        m.match_body_fields.len() > 0 ==> body_view(request.body) is Some && body_view(request.body).unwrap() is Object,
    ensures
        exists|i: int| 0 <= i <= k && first_match(m, recorded, request, i),
{
    assert(request.query@.submap_of(request.query@));
    assert forall|j: int| 0 <= j < m.match_headers.len() implies header_agrees(
        request.headers@,
        request.headers@,
        #[trigger] m.match_headers@[j]@,
    ) by {}
    assert(interaction_matches(m, recorded[k].request, request));
    lemma_first_match_upto(m, recorded, request, k);
}

/// Law: a recorded request that lacks a header the matcher compares, or
/// whose value for it differs from the request's, never answers the
/// request; nor does one when the request lacks the header.
pub proof fn lemma_differing_header_never_matches(m: HttpInteractionMatcher, recorded: HttpRequest, request: HttpRequest, j: int)
    requires
        0 <= j < m.match_headers.len(),
        !recorded.headers@.contains_key(m.match_headers@[j]@) || !request.headers@.contains_key(m.match_headers@[j]@)
            || recorded.headers@[m.match_headers@[j]@] != request.headers@[m.match_headers@[j]@],
    ensures
        !interaction_matches(m, recorded, request),
{
}

/// Law: `find_matching` never gives the position of a recorded interaction
/// that disagrees with the request on a header the matcher compares.
pub proof fn lemma_find_matching_skips_differing_header(
    m: HttpInteractionMatcher,
    recorded: Seq<HttpInteraction>,
    request: HttpRequest,
    i: int,
    j: int,
)
    requires
        0 <= i < recorded.len(),
        0 <= j < m.match_headers.len(),
        !recorded[i].request.headers@.contains_key(m.match_headers@[j]@) || !request.headers@.contains_key(m.match_headers@[j]@)
            || recorded[i].request.headers@[m.match_headers@[j]@] != request.headers@[m.match_headers@[j]@],
    ensures
        !first_match(m, recorded, request, i),
{
    lemma_differing_header_never_matches(m, recorded[i].request, request, j);
}

/// What the recorder in `mode` does with a request, given the first
/// recorded interaction that answers it, if any.
pub fn recorder_action(mode: RecordingMode, found: Option<usize>) -> (a: RecorderAction)
    ensures
        a == match mode {
            RecordingMode::Record => RecorderAction::CallService { record: true },
            RecordingMode::Replay => match found {
                Some(i) => RecorderAction::Replay(i),
                None => RecorderAction::NotFound,
            },
            RecordingMode::Auto => match found {
                Some(i) => RecorderAction::Replay(i),
                None => RecorderAction::CallService { record: true },
            },
            RecordingMode::Passthrough => RecorderAction::CallService { record: false },
        },
{
    match mode {
        RecordingMode::Record => RecorderAction::CallService { record: true },
        RecordingMode::Replay => match found {
            Some(i) => RecorderAction::Replay(i),
            None => RecorderAction::NotFound,
        },
        RecordingMode::Auto => match found {
            Some(i) => RecorderAction::Replay(i),
            None => RecorderAction::CallService { record: true },
        },
        RecordingMode::Passthrough => RecorderAction::CallService { record: false },
    }
}

impl HttpRequest {
    /// The interaction that records this request under `id`: its path,
    /// method and headers, every header by its text.
    pub fn to_interaction(&self, id: String) -> (r: Interaction)
        ensures
            r.id@ == id@,
            r.request.path matches Some(p) && p@ == self.path@,
            r.request.method matches Some(m) && m@ == self.method@,
            r.request.headers matches Some(h) && h.text@ == self.headers@ && h.other@.len() == 0,
    {
        let headers = HeaderFields { text: self.headers.copy(), other: Vec::new() };
        let request = InteractionRequest {
            path: Some(self.path.clone()),
            method: Some(self.method.clone()),
            headers: Some(headers),
        };
        Interaction::new(id, request)
    }
}

/// A 404 response whose JSON body says `Not found` under `error` and
/// `message` under `message`.
pub fn not_found_response(message: &str) -> (r: HttpResponse)
    ensures
        r.status == 404,
        r.headers@ == Map::<Seq<char>, Seq<char>>::empty(),
        body_view(r.body) == Some(
            JsonView::Object(
                Map::<Seq<char>, Seq<char>>::empty().insert("error"@, quoted_json("Not found"@)).insert(
                    "message"@,
                    quoted_json(message@),
                ),
            ),
        ),
{
    let mut fields = StrMap::new();
    fields.insert("error".to_owned(), json_string_text("Not found"));
    fields.insert("message".to_owned(), json_string_text(message));
    HttpResponse::new(404).with_body(JsonValue::Object(fields))
}

/// How a mock answers a request.
#[derive(Debug, Clone, Copy, PartialEq, Eq, Structural)]
pub enum MockDispatch {
    /// The behavior at this position answers.
    Behavior(usize),
    /// The stub at this position answers.
    Stub(usize),
    /// Nothing answers: the mock replies 404.
    NotFound,
}

/// The first position whose flag is set.
pub open spec fn first_set(flags: Seq<bool>, i: int) -> bool {
    0 <= i < flags.len() && flags[i] && forall|j: int| 0 <= j < i ==> !#[trigger] flags[j]
}

fn first_true(flags: &Vec<bool>) -> (r: Option<usize>)
    ensures
        match r {
            Some(i) => first_set(flags@, i as int),
            None => forall|j: int| 0 <= j < flags.len() ==> !#[trigger] flags@[j],
        },
{
    let mut i: usize = 0;
    while i < flags.len()
        invariant
            i <= flags.len(),
            forall|j: int| 0 <= j < i ==> !#[trigger] flags@[j],
        decreases flags.len() - i,
    {
        if flags[i] {
            return Some(i);
        }
        i += 1;
    }
    None
}

/// Who answers a request to a mock, given which behaviors and which stubs
/// match it: the first matching behavior, else the first matching stub,
/// else nobody.
pub fn dispatch_request(behavior_matches: &Vec<bool>, stub_matches: &Vec<bool>) -> (d: MockDispatch)
    ensures
        match d {
            MockDispatch::Behavior(i) => first_set(behavior_matches@, i as int),
            MockDispatch::Stub(i) => (forall|j: int| 0 <= j < behavior_matches.len() ==> !#[trigger] behavior_matches@[j])
                && first_set(stub_matches@, i as int),
            MockDispatch::NotFound => (forall|j: int| 0 <= j < behavior_matches.len() ==> !#[trigger] behavior_matches@[j])
                && (forall|j: int| 0 <= j < stub_matches.len() ==> !#[trigger] stub_matches@[j]),
        },
{
    match first_true(behavior_matches) {
        Some(i) => MockDispatch::Behavior(i),
        None => match first_true(stub_matches) {
            Some(i) => MockDispatch::Stub(i),
            None => MockDispatch::NotFound,
        },
    }
}

} // verus!
