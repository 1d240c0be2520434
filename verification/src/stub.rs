//! Stubs generated from recorded interactions: the generation settings and
//! the request matcher each stub is given.

use vstd::prelude::*;
use crate::http::{body_view, field_agrees, HttpInteraction, HttpRequest, HttpResponse};
use crate::json::{JsonValue, JsonView};
use crate::kv::{eq_str, StrMap};

verus! {

/// How stubs are generated from recorded interactions.
#[derive(Debug, Clone)]
pub struct StubGenerationConfig {
    pub auto_generate: bool,
    /// Directory the stubs are written to.
    pub output_dir: String,
    pub overwrite_existing: bool,
    pub include_headers: bool,
    /// Headers left out of the matchers.
    pub excluded_headers: Vec<String>,
    pub include_request_body: bool,
    pub include_response_body: bool,
    /// Match query parameters and the body too.
    pub strict_matching: bool,
    /// With strict matching, compare only these body fields.
    pub strict_match_fields: Vec<String>,
}

impl Default for StubGenerationConfig {
    /// Automatic generation into `stubs`, headers included but for
    /// `authorization`, `cookie` and `set-cookie`, bodies included, no
    /// strict matching.
    fn default() -> (c: Self)
        ensures
            c.auto_generate,
            c.output_dir@ == "stubs"@,
            !c.overwrite_existing,
            c.include_headers,
            c.excluded_headers@.len() == 3,
            c.excluded_headers@[0]@ == "authorization"@,
            c.excluded_headers@[1]@ == "cookie"@,
            c.excluded_headers@[2]@ == "set-cookie"@,
            c.include_request_body,
            c.include_response_body,
            !c.strict_matching,
            c.strict_match_fields@.len() == 0,
    {
        let mut excluded: Vec<String> = Vec::new();
        excluded.push("authorization".to_owned());
        excluded.push("cookie".to_owned());
        excluded.push("set-cookie".to_owned());
        StubGenerationConfig {
            auto_generate: true,
            output_dir: "stubs".to_owned(),
            overwrite_existing: false,
            include_headers: true,
            excluded_headers: excluded,
            include_request_body: true,
            include_response_body: true,
            strict_matching: false,
            strict_match_fields: Vec::new(),
        }
    }
}

/// `m` is the matcher a stub gets for a recorded request: its method and
/// path always; its query and body with strict matching (the body only when
/// request bodies are included); its headers, but the excluded ones, when
/// headers are included.
pub open spec fn matcher_for(m: StubMatcher, request: HttpRequest, config: StubGenerationConfig) -> bool {
    &&& m.method@ == request.method@
    &&& m.path@ == request.path@
    &&& m.query@ == if config.strict_matching {
        request.query@
    } else {
        Map::empty()
    }
    &&& m.headers@ == if config.include_headers {
        request.headers@.remove_keys(crate::text::views(config.excluded_headers@).to_set())
    } else {
        Map::empty()
    }
    &&& body_view(m.body) == if config.include_request_body && config.strict_matching {
        body_view(request.body)
    } else {
        None
    }
    &&& m.strict_match_fields@ == config.strict_match_fields@
}

/// The request matcher of a generated stub.
#[derive(Debug)]
pub struct StubMatcher {
    pub method: String,
    pub path: String,
    /// Query parameters a request must carry.
    pub query: StrMap,
    /// Headers a request must carry.
    pub headers: StrMap,
    /// The body a request must carry, if any.
    pub body: Option<JsonValue>,
    /// When set, only these fields of the body are compared.
    pub strict_match_fields: Vec<String>,
}

impl StubMatcher {
    /// The matcher for a recorded request: its method and path always; its
    /// query and body with strict matching (the body only when request
    /// bodies are included); its headers, but the excluded ones, when
    /// headers are included.
    pub fn for_request(request: &HttpRequest, config: &StubGenerationConfig) -> (m: StubMatcher)
        ensures
            matcher_for(m, *request, *config),
    {
        let query = if config.strict_matching {
            request.query.copy()
        } else {
            StrMap::new()
        };
        let headers = if config.include_headers {
            request.headers.without_keys(&config.excluded_headers)
        } else {
            StrMap::new()
        };
        let body = if config.include_request_body && config.strict_matching {
            match &request.body {
                Some(b) => Some(b.copy()),
                None => None,
            }
        } else {
            None
        };
        StubMatcher {
            method: request.method.clone(),
            path: request.path.clone(),
            query,
            headers,
            body,
            strict_match_fields: config.strict_match_fields.clone(),
        }
    }

    /// Does the stub answer the request? Method and path must be equal, the
    /// request must carry the matcher's query parameters and headers with
    /// their values, and when the matcher has a body the request must have
    /// one: equal to it, or with strict fields listed, both objects agreeing
    /// on each listed field.
    pub fn matches(&self, req: &HttpRequest) -> (b: bool)
        ensures
            b == stub_matches(*self, *req),
            forall|k: Seq<char>|
                #[trigger] self.query@.contains_key(k) && !(req.query@.contains_key(k) && req.query@[k] == self.query@[k]) ==> !b,
            forall|k: Seq<char>|
                #[trigger] self.headers@.contains_key(k) && !(req.headers@.contains_key(k) && req.headers@[k] == self.headers@[k]) ==> !b,
    {
        if !eq_str(req.method.as_str(), self.method.as_str()) || !eq_str(req.path.as_str(), self.path.as_str()) {
            return false;
        }
        if !self.query.is_submap_of(&req.query) {
            return false;
        }
        if !self.headers.is_submap_of(&req.headers) {
            return false;
        }
        match (&self.body, &req.body) {
            (Some(expected), Some(actual)) => {
                if self.strict_match_fields.len() > 0 {
                    match (expected.as_object(), actual.as_object()) {
                        (Some(eo), Some(ao)) => {
                            let mut k: usize = 0;
                            while k < self.strict_match_fields.len()
                                invariant
                                    k <= self.strict_match_fields.len(),
                                    req.method@ == self.method@,
                                    req.path@ == self.path@,
                                    self.query@.submap_of(req.query@),
                                    self.headers@.submap_of(req.headers@),
                                    self.strict_match_fields.len() > 0,
                                    body_view(self.body) == Some(JsonView::Object(eo@)),
                                    body_view(req.body) == Some(JsonView::Object(ao@)),
                                    forall|j: int| 0 <= j < k ==> field_agrees(eo@, ao@, #[trigger] self.strict_match_fields@[j]@),
                                decreases self.strict_match_fields.len() - k,
                            {
                                let f = self.strict_match_fields[k].as_str();
                                let agree = match (eo.get(f), ao.get(f)) {
                                    (Some(x), Some(y)) => eq_str(x.as_str(), y.as_str()),
                                    (None, None) => true,
                                    _ => false,
                                };
                                if !agree {
                                    proof {
                                        assert(!field_agrees(eo@, ao@, self.strict_match_fields@[k as int]@));
                                    }
                                    return false;
                                }
                                k += 1;
                            }
                            true
                        },
                        _ => false,
                    }
                } else {
                    expected.equals(actual)
                }
            },
            (Some(_), None) => false,
            (None, _) => true,
        }
    }
}

/// Law: a stub matcher answers no request that lacks one of its query
/// parameters or holds it with another value; the same holds of its
/// headers.
pub proof fn lemma_stub_needs_its_query_and_headers(m: StubMatcher, req: HttpRequest, k: Seq<char>)
    ensures
        m.query@.contains_key(k) && !(req.query@.contains_key(k) && req.query@[k] == m.query@[k]) ==> !stub_matches(m, req),
        m.headers@.contains_key(k) && !(req.headers@.contains_key(k) && req.headers@[k] == m.headers@[k]) ==> !stub_matches(m, req),
{
    if stub_matches(m, req) {
        assert(m.query@.submap_of(req.query@));
        assert(m.headers@.submap_of(req.headers@));
        if m.query@.contains_key(k) {
            assert(m.query@.dom().contains(k));
        }
        if m.headers@.contains_key(k) {
            assert(m.headers@.dom().contains(k));
        }
    }
}

/// Law: the stub made for a recorded request with strict matching answers
/// no request that lacks one of the recorded query parameters or holds it
/// with another value.
pub proof fn lemma_strict_stub_needs_recorded_query(
    m: StubMatcher,
    recorded: HttpRequest,
    config: StubGenerationConfig,
    req: HttpRequest,
    k: Seq<char>,
)
    requires
        matcher_for(m, recorded, config),
        config.strict_matching,
        recorded.query@.contains_key(k),
        !(req.query@.contains_key(k) && req.query@[k] == recorded.query@[k]),
    ensures
        !stub_matches(m, req),
{
    lemma_stub_needs_its_query_and_headers(m, req, k);
}

/// Law: the stub made for a recorded request answers that same request
/// again, unless strict body fields are compared on a body that is not an
/// object.
pub proof fn lemma_stub_answers_its_own_request(m: StubMatcher, recorded: HttpRequest, config: StubGenerationConfig)
    requires
        matcher_for(m, recorded, config),
        config.strict_match_fields@.len() > 0 && config.include_request_body && config.strict_matching ==> !(body_view(
            recorded.body,
        ) matches Some(JsonView::Other(_))),
    ensures
        stub_matches(m, recorded),
{
    assert(m.query@.submap_of(recorded.query@));
    assert(m.headers@.submap_of(recorded.headers@));
}

/// The stub's matcher answers the request.
pub open spec fn stub_matches(m: StubMatcher, req: HttpRequest) -> bool {
    &&& req.method@ == m.method@
    &&& req.path@ == m.path@
    &&& m.query@.submap_of(req.query@)
    &&& m.headers@.submap_of(req.headers@)
    &&& match (body_view(m.body), body_view(req.body)) {
        (Some(e), Some(a)) => if m.strict_match_fields.len() > 0 {
            match (e, a) {
                (JsonView::Object(eo), JsonView::Object(ao)) => forall|j: int|
                    0 <= j < m.strict_match_fields.len() ==> field_agrees(eo, ao, #[trigger] m.strict_match_fields@[j]@),
                _ => false,
            }
        } else {
            e == a
        },
        (Some(_), None) => false,
        (None, _) => true,
    }
}

/// A stub made from a recorded interaction: the matcher of its request and
/// the recorded response it answers with.
#[derive(Debug)]
pub struct GeneratedStub {
    pub matcher: StubMatcher,
    pub response: HttpResponse,
}

/// One stub for each recorded interaction, in order.
pub fn generate_stubs(recorded: &Vec<HttpInteraction>, config: &StubGenerationConfig) -> (r: Vec<GeneratedStub>)
    ensures
        r.len() == recorded.len(),
        forall|i: int| 0 <= i < r.len() ==> #[trigger] matcher_for(r@[i].matcher, recorded@[i].request, *config),
        forall|i: int|
            0 <= i < r.len() ==> (#[trigger] r@[i].response).status == recorded@[i].response.status && r@[i].response.headers@
                == recorded@[i].response.headers@ && body_view(r@[i].response.body) == body_view(recorded@[i].response.body),
{
    let mut r: Vec<GeneratedStub> = Vec::new();
    let mut i: usize = 0;
    while i < recorded.len()
        invariant
            i <= recorded.len(),
            r.len() == i,
            forall|j: int| 0 <= j < i ==> #[trigger] matcher_for(r@[j].matcher, recorded@[j].request, *config),
            forall|j: int|
                0 <= j < i ==> (#[trigger] r@[j].response).status == recorded@[j].response.status
                    && r@[j].response.headers@ == recorded@[j].response.headers@ && body_view(r@[j].response.body)
                    == body_view(recorded@[j].response.body),
        decreases recorded.len() - i,
    {
        let matcher = StubMatcher::for_request(&recorded[i].request, config);
        let response = recorded[i].response.copy();
        r.push(GeneratedStub { matcher, response });
        i += 1;
    }
    r
}

} // verus!
