//! Configured response behaviors of the mocks: simulated errors and their
//! responses, and transformations of responses under conditions.

use vstd::prelude::*;
use crate::chars::{decimal, decimal_chars, parse_status, parse_u16, split_first, split_trimmed, trim};
use crate::http::{body_view, HttpRequest, HttpResponse};
use crate::json::{
    json_or_string, json_or_string_text, json_or_string_text_of, json_or_string_value, json_string_text, quoted_json,
    JsonValue, JsonView,
};
use crate::kv::StrMap;
use crate::text::to_chars;

verus! {

/// Latency added to responses.
#[derive(Debug, Clone, Copy, PartialEq, Eq, Structural)]
pub struct LatencyConfig {
    pub enabled: bool,
    /// A fixed latency, used instead of a random one when set.
    pub fixed_ms: Option<u64>,
    pub min_ms: u64,
    pub max_ms: u64,
    pub distribution: LatencyDistribution,
}

/// How random latency is distributed between its bounds.
#[derive(Debug, Clone, Copy, PartialEq, Eq, Structural)]
pub enum LatencyDistribution {
    Uniform,
    Normal,
    Exponential,
}

impl Default for LatencyConfig {
    /// Latency off; when on, uniform between 10 and 100 milliseconds.
    fn default() -> (c: Self)
        ensures
            c == (LatencyConfig {
                enabled: false,
                fixed_ms: None,
                min_ms: 10,
                max_ms: 100,
                distribution: LatencyDistribution::Uniform,
            }),
    {
        LatencyConfig { enabled: false, fixed_ms: None, min_ms: 10, max_ms: 100, distribution: LatencyDistribution::Uniform }
    }
}

/// The latency a response waits, in milliseconds: the fixed latency when
/// one is set, else for a uniform distribution a draw between the bounds;
/// `None` for the other distributions, which the runner draws.
pub fn response_latency_ms(config: &LatencyConfig) -> (r: Option<u64>)
    requires
        config.fixed_ms is None && config.distribution == LatencyDistribution::Uniform ==> config.min_ms
            <= config.max_ms,
    ensures
        match config.fixed_ms {
            Some(f) => r == Some(f),
            None => match config.distribution {
                LatencyDistribution::Uniform => r matches Some(x) && config.min_ms <= x <= config.max_ms,
                _ => r is None,
            },
        },
{
    match config.fixed_ms {
        Some(f) => Some(f),
        None => match config.distribution {
            LatencyDistribution::Uniform => Some(crate::network::random_between(config.min_ms, config.max_ms)),
            _ => None,
        },
    }
}

/// A kind of simulated error.
#[derive(Debug, Clone, Copy, PartialEq, Eq, Structural, Hash)]
pub enum ErrorType {
    ServerError,
    NotFound,
    BadRequest,
    Unauthorized,
    Forbidden,
    Timeout,
    RateLimited,
    ServiceUnavailable,
    Custom,
}

/// The HTTP status of an error type.
pub open spec fn error_status(e: ErrorType) -> u16 {
    match e {
        ErrorType::ServerError => 500,
        ErrorType::NotFound => 404,
        ErrorType::BadRequest => 400,
        ErrorType::Unauthorized => 401,
        ErrorType::Forbidden => 403,
        ErrorType::Timeout => 504,
        ErrorType::RateLimited => 429,
        ErrorType::ServiceUnavailable => 503,
        ErrorType::Custom => 500,
    }
}

/// The default message of an error type.
pub open spec fn error_message(e: ErrorType) -> Seq<char> {
    match e {
        ErrorType::ServerError => "Internal Server Error"@,
        ErrorType::NotFound => "Not Found"@,
        ErrorType::BadRequest => "Bad Request"@,
        ErrorType::Unauthorized => "Unauthorized"@,
        ErrorType::Forbidden => "Forbidden"@,
        ErrorType::Timeout => "Gateway Timeout"@,
        ErrorType::RateLimited => "Too Many Requests"@,
        ErrorType::ServiceUnavailable => "Service Unavailable"@,
        ErrorType::Custom => "Error"@,
    }
}

/// The name of an error type.
pub open spec fn error_name(e: ErrorType) -> Seq<char> {
    match e {
        ErrorType::ServerError => "ServerError"@,
        ErrorType::NotFound => "NotFound"@,
        ErrorType::BadRequest => "BadRequest"@,
        ErrorType::Unauthorized => "Unauthorized"@,
        ErrorType::Forbidden => "Forbidden"@,
        ErrorType::Timeout => "Timeout"@,
        ErrorType::RateLimited => "RateLimited"@,
        ErrorType::ServiceUnavailable => "ServiceUnavailable"@,
        ErrorType::Custom => "Custom"@,
    }
}

impl ErrorType {
    /// The HTTP status of the error: 500 for server and custom errors, 404,
    /// 400, 401, 403, 504 for a timeout, 429 for rate limiting, 503.
    pub fn status_code(&self) -> (s: u16)
        ensures
            s == error_status(*self),
    {
        match self {
            ErrorType::ServerError => 500,
            ErrorType::NotFound => 404,
            ErrorType::BadRequest => 400,
            ErrorType::Unauthorized => 401,
            ErrorType::Forbidden => 403,
            ErrorType::Timeout => 504,
            ErrorType::RateLimited => 429,
            ErrorType::ServiceUnavailable => 503,
            ErrorType::Custom => 500,
        }
    }

    /// The standard reason phrase of the error.
    pub fn default_message(&self) -> (m: &'static str)
        ensures
            m@ == error_message(*self),
    {
        match self {
            ErrorType::ServerError => "Internal Server Error",
            ErrorType::NotFound => "Not Found",
            ErrorType::BadRequest => "Bad Request",
            ErrorType::Unauthorized => "Unauthorized",
            ErrorType::Forbidden => "Forbidden",
            ErrorType::Timeout => "Gateway Timeout",
            ErrorType::RateLimited => "Too Many Requests",
            ErrorType::ServiceUnavailable => "Service Unavailable",
            ErrorType::Custom => "Error",
        }
    }

    /// The name of the error type.
    pub fn name(&self) -> (m: &'static str)
        ensures
            m@ == error_name(*self),
    {
        match self {
            ErrorType::ServerError => "ServerError",
            ErrorType::NotFound => "NotFound",
            ErrorType::BadRequest => "BadRequest",
            ErrorType::Unauthorized => "Unauthorized",
            ErrorType::Forbidden => "Forbidden",
            ErrorType::Timeout => "Timeout",
            ErrorType::RateLimited => "RateLimited",
            ErrorType::ServiceUnavailable => "ServiceUnavailable",
            ErrorType::Custom => "Custom",
        }
    }
}

/// An HTTP response as a value.
pub struct ResponseView {
    pub status: u16,
    pub headers: Map<Seq<char>, Seq<char>>,
    pub body: Option<JsonView>,
}

/// The value of a response.
pub open spec fn response_view(r: HttpResponse) -> ResponseView {
    ResponseView { status: r.status, headers: r.headers@, body: body_view(r.body) }
}

/// The error body: an object with the error's name and message, each a
/// JSON string.
pub open spec fn error_body(name: Seq<char>, message: Seq<char>) -> Map<Seq<char>, Seq<char>> {
    Map::<Seq<char>, Seq<char>>::empty().insert("error"@, quoted_json(name)).insert("message"@, quoted_json(message))
}

/// The response of a standard error: its status, a JSON content type, and
/// a body with the error's name and default message.
pub fn create_error_response(error_type: ErrorType) -> (r: HttpResponse)
    ensures
        r.status == error_status(error_type),
        r.headers@ == Map::<Seq<char>, Seq<char>>::empty().insert("Content-Type"@, "application/json"@),
        body_view(r.body) == Some(JsonView::Object(error_body(error_name(error_type), error_message(error_type)))),
{
    let mut body = StrMap::new();
    body.insert("error".to_owned(), json_string_text(error_type.name()));
    body.insert("message".to_owned(), json_string_text(error_type.default_message()));
    HttpResponse::new(error_type.status_code()).with_header("Content-Type".to_owned(), "application/json".to_owned()).with_body(
        JsonValue::Object(body),
    )
}

/// The response of a custom error: its status and headers, and a body with
/// its name and message, and its details when it has some.
pub fn create_custom_error_response(
    name: &str,
    status: u16,
    message: &str,
    details: Option<&JsonValue>,
    details_text: Option<&str>,
    headers: &StrMap,
) -> (r: HttpResponse)
    requires
        details is Some <==> details_text is Some,
    ensures
        r.status == status,
        r.headers@ == headers@,
        body_view(r.body) == Some(
            JsonView::Object(
                match details_text {
                    Some(t) => error_body(name@, message@).insert("details"@, t@),
                    None => error_body(name@, message@),
                },
            ),
        ),
{
    let mut body = StrMap::new();
    body.insert("error".to_owned(), json_string_text(name));
    body.insert("message".to_owned(), json_string_text(message));
    if let Some(t) = details_text {
        body.insert("details".to_owned(), t.to_owned());
    }
    let mut r = HttpResponse::new(status);
    r.headers = headers.copy();
    r.with_body(JsonValue::Object(body))
}

/// What a condition of a custom error or a transformation looks at.
#[derive(Debug, Clone, Copy, PartialEq, Eq, Structural)]
pub enum ErrorConditionType {
    Path,
    Method,
    Header,
    Query,
    BodyField,
}

/// A condition under which a custom error is answered. Headers, query
/// parameters and body fields are written `name: value` or `name=value`.
#[derive(Debug, Clone)]
pub struct ErrorCondition {
    pub condition_type: ErrorConditionType,
    pub value: String,
}

/// A `name<sep>value` condition on a map holds: without the separator it
/// is ignored, else the map has the trimmed name with the trimmed value.
pub open spec fn pair_condition(m: Map<Seq<char>, Seq<char>>, value: Seq<char>, sep: char) -> bool {
    match split_first(value, sep) {
        None => true,
        Some((n, v)) => m.contains_key(trim(n)) && m[trim(n)] == trim(v),
    }
}

/// A `name=value` condition on a JSON body holds: without `=` it is
/// ignored, else the body is an object whose field of the trimmed name is
/// the JSON string of the trimmed value, written without escapes.
pub open spec fn body_field_condition(body: Option<JsonView>, value: Seq<char>) -> bool {
    match split_first(value, '=') {
        None => true,
        Some((n, v)) => match body {
            Some(JsonView::Object(m)) => m.contains_key(trim(n)) && m[trim(n)] == seq!['"'] + trim(v) + seq!['"'],
            _ => false,
        },
    }
}

/// A condition of a custom error holds for a request.
pub open spec fn error_condition_holds(c: ErrorCondition, request: HttpRequest) -> bool {
    match c.condition_type {
        ErrorConditionType::Path => request.path@ == c.value@,
        ErrorConditionType::Method => request.method@ == c.value@,
        ErrorConditionType::Header => pair_condition(request.headers@, c.value@, ':'),
        ErrorConditionType::Query => pair_condition(request.query@, c.value@, '='),
        ErrorConditionType::BodyField => body_field_condition(body_view(request.body), c.value@),
    }
}

/// Does the map have `name` with `value`?
fn map_has(m: &StrMap, name: &Vec<char>, value: &Vec<char>) -> (b: bool)
    ensures
        b == (m@.contains_key(name@) && m@[name@] == value@),
{
    match m.get_by_chars(name) {
        Some(v) => {
            let vc = to_chars(v.as_str());
            chars_equal(&vc, value)
        },
        None => false,
    }
}

/// Are both character lists equal?
pub fn chars_equal(a: &Vec<char>, b: &Vec<char>) -> (r: bool)
    ensures
        r == (a@ == b@),
{
    if a.len() != b.len() {
        return false;
    }
    let mut i: usize = 0;
    while i < a.len()
        invariant
            i <= a.len() == b.len(),
            forall|j: int| 0 <= j < i ==> a@[j] == b@[j],
        decreases a.len() - i,
    {
        if a[i] != b[i] {
            return false;
        }
        i += 1;
    }
    assert(a@ =~= b@);
    true
}

/// Does a `name<sep>value` condition hold on a map?
fn pair_condition_exec(m: &StrMap, value: &str, sep: char) -> (b: bool)
    ensures
        b == pair_condition(m@, value@, sep),
{
    match split_trimmed(value, sep) {
        None => true,
        Some((n, v)) => map_has(m, &n, &v),
    }
}

/// Does a `name=value` condition hold on a JSON body?
fn body_field_condition_exec(body: &Option<JsonValue>, value: &str) -> (b: bool)
    ensures
        b == body_field_condition(body_view(*body), value@),
{
    match split_trimmed(value, '=') {
        None => true,
        Some((n, v)) => match body {
            Some(JsonValue::Object(m)) => {
                let mut quoted: Vec<char> = Vec::new();
                quoted.push('"');
                let mut i: usize = 0;
                while i < v.len()
                    invariant
                        i <= v.len(),
                        quoted@ == seq!['"'] + v@.subrange(0, i as int),
                    decreases v.len() - i,
                {
                    quoted.push(v[i]);
                    assert(quoted@ =~= seq!['"'] + v@.subrange(0, i + 1));
                    i += 1;
                }
                quoted.push('"');
                assert(quoted@ =~= seq!['"'] + v@ + seq!['"']);
                map_has(m, &n, &quoted)
            },
            _ => false,
        },
    }
}

/// Do all the conditions of a custom error hold for the request?
pub fn error_conditions_hold(conditions: &Vec<ErrorCondition>, request: &HttpRequest) -> (b: bool)
    ensures
        b == (forall|k: int| 0 <= k < conditions.len() ==> error_condition_holds(#[trigger] conditions@[k], *request)),
{
    let mut k: usize = 0;
    while k < conditions.len()
        invariant
            k <= conditions.len(),
            forall|j: int| 0 <= j < k ==> error_condition_holds(#[trigger] conditions@[j], *request),
        decreases conditions.len() - k,
    {
        let c = &conditions[k];
        let holds = match c.condition_type {
            ErrorConditionType::Path => crate::kv::eq_str(request.path.as_str(), c.value.as_str()),
            ErrorConditionType::Method => crate::kv::eq_str(request.method.as_str(), c.value.as_str()),
            ErrorConditionType::Header => pair_condition_exec(&request.headers, c.value.as_str(), ':'),
            ErrorConditionType::Query => pair_condition_exec(&request.query, c.value.as_str(), '='),
            ErrorConditionType::BodyField => body_field_condition_exec(&request.body, c.value.as_str()),
        };
        if !holds {
            return false;
        }
        k += 1;
    }
    true
}


/// What a response transformation does.
#[derive(Debug, Clone, Copy, PartialEq, Eq, Structural)]
pub enum TransformationType {
    AddHeader,
    RemoveHeader,
    ModifyHeader,
    AddBodyField,
    RemoveBodyField,
    ModifyBodyField,
    ReplaceBody,
    ChangeStatus,
}

/// What a condition of a transformation looks at.
#[derive(Debug, Clone, Copy, PartialEq, Eq, Structural)]
pub enum TransformationConditionType {
    Path,
    Method,
    Status,
    Header,
    BodyField,
}

/// A condition under which a transformation applies. Headers and body
/// fields are written `name: value` and `name=value`.
#[derive(Debug, Clone)]
pub struct TransformationCondition {
    pub condition_type: TransformationConditionType,
    pub value: String,
}

/// A change made to responses.
#[derive(Debug, Clone)]
pub struct ResponseTransformation {
    pub name: String,
    pub transformation_type: TransformationType,
    /// The header or body field the transformation changes.
    pub field: Option<String>,
    /// The value the transformation sets.
    pub value: Option<String>,
    pub conditions: Vec<TransformationCondition>,
}

/// The transformations applied to responses.
#[derive(Debug, Clone)]
pub struct TransformationConfig {
    pub enabled: bool,
    pub transformations: Vec<ResponseTransformation>,
}

impl Default for TransformationConfig {
    /// Transformations off, none configured.
    fn default() -> (c: Self)
        ensures
            !c.enabled,
            c.transformations@.len() == 0,
    {
        TransformationConfig { enabled: false, transformations: Vec::new() }
    }
}

/// A condition of a transformation holds for a request and the response
/// so far.
pub open spec fn transformation_condition_holds(c: TransformationCondition, request: HttpRequest, r: ResponseView) -> bool {
    match c.condition_type {
        TransformationConditionType::Path => request.path@ == c.value@,
        TransformationConditionType::Method => request.method@ == c.value@,
        TransformationConditionType::Status => decimal(r.status as nat) == c.value@,
        TransformationConditionType::Header => pair_condition(r.headers, c.value@, ':'),
        TransformationConditionType::BodyField => body_field_condition(r.body, c.value@),
    }
}

/// All conditions of the transformation hold.
pub open spec fn transformation_applies(t: ResponseTransformation, request: HttpRequest, r: ResponseView) -> bool {
    forall|k: int| 0 <= k < t.conditions.len() ==> transformation_condition_holds(#[trigger] t.conditions@[k], request, r)
}

/// The response after one transformation.
pub open spec fn transformed_once(t: ResponseTransformation, r: ResponseView) -> ResponseView {
    match t.transformation_type {
        TransformationType::AddHeader => match (t.field, t.value) {
            (Some(f), Some(v)) => ResponseView { headers: r.headers.insert(f@, v@), ..r },
            _ => r,
        },
        TransformationType::RemoveHeader => match t.field {
            Some(f) => ResponseView { headers: r.headers.remove(f@), ..r },
            None => r,
        },
        TransformationType::ModifyHeader => match (t.field, t.value) {
            (Some(f), Some(v)) => if r.headers.contains_key(f@) {
                ResponseView { headers: r.headers.insert(f@, v@), ..r }
            } else {
                r
            },
            _ => r,
        },
        TransformationType::AddBodyField => match (t.field, t.value) {
            (Some(f), Some(v)) => match r.body {
                Some(JsonView::Object(m)) => ResponseView {
                    body: Some(JsonView::Object(m.insert(f@, quoted_json(v@)))),
                    ..r
                },
                Some(JsonView::Other(_)) => r,
                None => ResponseView {
                    body: Some(JsonView::Object(Map::<Seq<char>, Seq<char>>::empty().insert(f@, quoted_json(v@)))),
                    ..r
                },
            },
            _ => r,
        },
        TransformationType::RemoveBodyField => match (t.field, r.body) {
            (Some(f), Some(JsonView::Object(m))) => ResponseView { body: Some(JsonView::Object(m.remove(f@))), ..r },
            _ => r,
        },
        TransformationType::ModifyBodyField => match (t.field, t.value, r.body) {
            (Some(f), Some(v), Some(JsonView::Object(m))) => if m.contains_key(f@) {
                ResponseView { body: Some(JsonView::Object(m.insert(f@, json_or_string_text(v@)))), ..r }
            } else {
                r
            },
            _ => r,
        },
        TransformationType::ReplaceBody => match t.value {
            Some(v) => ResponseView { body: Some(json_or_string(v@)), ..r },
            None => r,
        },
        TransformationType::ChangeStatus => match t.value {
            Some(v) => match parse_u16(v@) {
                Some(s) => ResponseView { status: s, ..r },
                None => r,
            },
            None => r,
        },
    }
}

/// The response after the transformations, applied in order, each when its
/// conditions hold on the response as the earlier ones left it.
pub open spec fn transformed(ts: Seq<ResponseTransformation>, request: HttpRequest, r: ResponseView) -> ResponseView
    decreases ts.len(),
{
    if ts.len() == 0 {
        r
    } else {
        let prev = transformed(ts.drop_last(), request, r);
        if transformation_applies(ts.last(), request, prev) {
            transformed_once(ts.last(), prev)
        } else {
            prev
        }
    }
}

/// Law: removing a header takes that header out of the response and
/// leaves every other header, the status and the body as they were.
pub proof fn lemma_remove_header(t: ResponseTransformation, r: ResponseView, other: Seq<char>)
    requires
        t.transformation_type == TransformationType::RemoveHeader,
        t.field is Some,
    ensures
        !transformed_once(t, r).headers.contains_key(t.field.unwrap()@),
        other != t.field.unwrap()@ ==> transformed_once(t, r).headers.contains_key(other) == r.headers.contains_key(other),
        other != t.field.unwrap()@ && r.headers.contains_key(other) ==> transformed_once(t, r).headers[other] == r.headers[other],
        transformed_once(t, r).status == r.status,
        transformed_once(t, r).body == r.body,
{
}

/// Law: a single unconditional header removal, applied to a response,
/// gives that response without the header and otherwise unchanged.
pub proof fn lemma_single_remove_header(ts: Seq<ResponseTransformation>, request: HttpRequest, r: ResponseView)
    requires
        ts.len() == 1,
        ts[0].transformation_type == TransformationType::RemoveHeader,
        ts[0].field is Some,
        ts[0].conditions.len() == 0,
    ensures
        transformed(ts, request, r).headers == r.headers.remove(ts[0].field.unwrap()@),
        !transformed(ts, request, r).headers.contains_key(ts[0].field.unwrap()@),
        transformed(ts, request, r).status == r.status,
        transformed(ts, request, r).body == r.body,
{
    assert(ts.drop_last().len() == 0);
    assert(transformed(ts.drop_last(), request, r) == r);
    assert(ts.last() == ts[0]);
    assert(transformation_applies(ts[0], request, r));
    assert(transformed(ts, request, r) == transformed_once(ts[0], r));
}

/// Is the status written `value` in decimal?
fn status_is(status: u16, value: &str) -> (b: bool)
    ensures
        b == (decimal(status as nat) == value@),
{
    let d = decimal_chars(status as u64);
    let v = to_chars(value);
    chars_equal(&d, &v)
}

/// Do all the conditions of the transformation hold for the request and
/// the response?
pub fn should_apply_transformation(t: &ResponseTransformation, request: &HttpRequest, response: &HttpResponse) -> (b: bool)
    ensures
        b == transformation_applies(*t, *request, response_view(*response)),
{
    let mut k: usize = 0;
    while k < t.conditions.len()
        invariant
            k <= t.conditions.len(),
            forall|j: int| 0 <= j < k ==> transformation_condition_holds(#[trigger] t.conditions@[j], *request, response_view(*response)),
        decreases t.conditions.len() - k,
    {
        let c = &t.conditions[k];
        let holds = match c.condition_type {
            TransformationConditionType::Path => crate::kv::eq_str(request.path.as_str(), c.value.as_str()),
            TransformationConditionType::Method => crate::kv::eq_str(request.method.as_str(), c.value.as_str()),
            TransformationConditionType::Status => status_is(response.status, c.value.as_str()),
            TransformationConditionType::Header => pair_condition_exec(&response.headers, c.value.as_str(), ':'),
            TransformationConditionType::BodyField => body_field_condition_exec(&response.body, c.value.as_str()),
        };
        if !holds {
            return false;
        }
        k += 1;
    }
    true
}

/// Applies one transformation to a response.
pub fn apply_transformation(t: &ResponseTransformation, response: HttpResponse) -> (r: HttpResponse)
    ensures
        response_view(r) == transformed_once(*t, response_view(response)),
        t.transformation_type == TransformationType::RemoveHeader && t.field is Some ==> {
            &&& !r.headers@.contains_key(t.field.unwrap()@)
            &&& r.headers@ == response.headers@.remove(t.field.unwrap()@)
            &&& r.status == response.status
            &&& body_view(r.body) == body_view(response.body)
        },
{
    let mut r = response;
    match t.transformation_type {
        TransformationType::AddHeader => {
            if let (Some(f), Some(v)) = (&t.field, &t.value) {
                r.headers.insert(f.clone(), v.clone());
            }
        },
        TransformationType::RemoveHeader => {
            if let Some(f) = &t.field {
                r.headers.remove(f.as_str());
            }
        },
        TransformationType::ModifyHeader => {
            if let (Some(f), Some(v)) = (&t.field, &t.value) {
                if r.headers.contains_key(f.as_str()) {
                    r.headers.insert(f.clone(), v.clone());
                }
            }
        },
        TransformationType::AddBodyField => {
            if let (Some(f), Some(v)) = (&t.field, &t.value) {
                let text = json_string_text(v.as_str());
                match r.body {
                    Some(JsonValue::Object(mut m)) => {
                        m.insert(f.clone(), text);
                        r.body = Some(JsonValue::Object(m));
                    },
                    Some(JsonValue::Other(o)) => {
                        r.body = Some(JsonValue::Other(o));
                    },
                    None => {
                        let mut m = StrMap::new();
                        m.insert(f.clone(), text);
                        r.body = Some(JsonValue::Object(m));
                    },
                }
            }
        },
        TransformationType::RemoveBodyField => {
            if let Some(f) = &t.field {
                match r.body {
                    Some(JsonValue::Object(mut m)) => {
                        m.remove(f.as_str());
                        r.body = Some(JsonValue::Object(m));
                    },
                    other => {
                        r.body = other;
                    },
                }
            }
        },
        TransformationType::ModifyBodyField => {
            if let (Some(f), Some(v)) = (&t.field, &t.value) {
                match r.body {
                    Some(JsonValue::Object(mut m)) => {
                        if m.contains_key(f.as_str()) {
                            m.insert(f.clone(), json_or_string_text_of(v.as_str()));
                        }
                        r.body = Some(JsonValue::Object(m));
                    },
                    other => {
                        r.body = other;
                    },
                }
            }
        },
        TransformationType::ReplaceBody => {
            if let Some(v) = &t.value {
                r.body = Some(json_or_string_value(v.as_str()));
            }
        },
        TransformationType::ChangeStatus => {
            if let Some(v) = &t.value {
                if let Some(s) = parse_status(v.as_str()) {
                    r.status = s;
                }
            }
        },
    }
    r
}

/// Applies the enabled transformations, in order, each when its
/// conditions hold on the response as the earlier ones left it; when
/// transformations are off the response is unchanged.
pub fn apply_transformations(config: &TransformationConfig, request: &HttpRequest, response: HttpResponse) -> (r: HttpResponse)
    ensures
        config.enabled ==> response_view(r) == transformed(config.transformations@, *request, response_view(response)),
        !config.enabled ==> response_view(r) == response_view(response),
{
    if !config.enabled {
        return response;
    }
    let ghost start = response_view(response);
    let mut r = response;
    let mut i: usize = 0;
    while i < config.transformations.len()
        invariant
            i <= config.transformations.len(),
            response_view(r) == transformed(config.transformations@.subrange(0, i as int), *request, start),
        decreases config.transformations.len() - i,
    {
        let t = &config.transformations[i];
        assert(config.transformations@.subrange(0, i + 1).drop_last() =~= config.transformations@.subrange(0, i as int));
        if should_apply_transformation(t, request, &r) {
            r = apply_transformation(t, r);
        }
        i += 1;
    }
    assert(config.transformations@.subrange(0, i as int) =~= config.transformations@);
    r
}

} // verus!
