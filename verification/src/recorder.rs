//! Matchers over recorded mock interactions: by path, by method, by both,
//! and by header.

use vstd::prelude::*;
use crate::kv::{eq_str, StrMap};
use crate::text::{contains_string, views};

verus! {

/// The headers of a recorded request: those whose value is a string, and
/// the names of those whose value is not.
#[derive(Debug)]
pub struct HeaderFields {
    pub text: StrMap,
    pub other: Vec<String>,
}

/// What the matchers read of a recorded request: its path and method when
/// they are strings, and its headers when they form an object.
#[derive(Debug)]
pub struct InteractionRequest {
    pub path: Option<String>,
    pub method: Option<String>,
    pub headers: Option<HeaderFields>,
}

/// An interaction with a mock.
#[derive(Debug)]
pub struct Interaction {
    pub id: String,
    pub request: InteractionRequest,
}

impl Interaction {
    /// An interaction of the given id and request.
    pub fn new(id: String, request: InteractionRequest) -> (r: Interaction)
        ensures
            r.id@ == id@,
            r.request == request,
    {
        Interaction { id, request }
    }
}

/// The code of a character's ASCII lower case; other characters keep
/// their code.
pub open spec fn ascii_lower(c: char) -> u32 {
    if 'A' <= c <= 'Z' {
        (c as u32 + 32) as u32
    } else {
        c as u32
    }
}

/// Both texts are equal when ASCII letters are compared regardless of case.
pub open spec fn eq_ignore_ascii_case(a: Seq<char>, b: Seq<char>) -> bool {
    a.len() == b.len() && forall|i: int| 0 <= i < a.len() ==> ascii_lower(#[trigger] a[i]) == ascii_lower(b[i])
}

fn lower_char(c: char) -> (r: u32)
    ensures
        r == ascii_lower(c),
{
    if 'A' <= c && c <= 'Z' {
        c as u32 + 32
    } else {
        c as u32
    }
}

/// Are both texts equal, ASCII letters compared regardless of case?
pub fn str_eq_ignore_ascii_case(a: &str, b: &str) -> (r: bool)
    ensures
        r == eq_ignore_ascii_case(a@, b@),
{
    let n = a.unicode_len();
    if n != b.unicode_len() {
        return false;
    }
    let mut i: usize = 0;
    while i < n
        invariant
            i <= n,
            n == a@.len() == b@.len(),
            forall|j: int| 0 <= j < i ==> ascii_lower(#[trigger] a@[j]) == ascii_lower(b@[j]),
        decreases n - i,
    {
        if lower_char(a.get_char(i)) != lower_char(b.get_char(i)) {
            return false;
        }
        i += 1;
    }
    true
}

/// What a recorded request is to a matcher: its path and method when they
/// are strings, and its headers, by those with a string value and the
/// names of the others, when they form an object.
pub struct RequestView {
    pub path: Option<Seq<char>>,
    pub method: Option<Seq<char>>,
    pub headers: Option<(Map<Seq<char>, Seq<char>>, Seq<Seq<char>>)>,
}

/// An optional string by its characters.
pub open spec fn opt_chars(s: Option<String>) -> Option<Seq<char>> {
    match s {
        Some(x) => Some(x@),
        None => None,
    }
}

/// What a recorded request is to a matcher.
pub open spec fn request_view(r: InteractionRequest) -> RequestView {
    RequestView {
        path: opt_chars(r.path),
        method: opt_chars(r.method),
        headers: match r.headers {
            Some(h) => Some((h.text@, views(h.other@))),
            None => None,
        },
    }
}

/// An interaction by its identifier and request.
pub struct InteractionView {
    pub id: Seq<char>,
    pub request: RequestView,
}

impl View for Interaction {
    type V = InteractionView;

    open spec fn view(&self) -> InteractionView {
        InteractionView { id: self.id@, request: request_view(self.request) }
    }
}

fn copy_opt(s: &Option<String>) -> (r: Option<String>)
    ensures
        opt_chars(r) == opt_chars(*s),
{
    match s {
        Some(x) => Some(x.clone()),
        None => None,
    }
}

impl InteractionRequest {
    /// A copy of this request.
    pub fn copy(&self) -> (r: InteractionRequest)
        ensures
            request_view(r) == request_view(*self),
    {
        InteractionRequest {
            path: copy_opt(&self.path),
            method: copy_opt(&self.method),
            headers: match &self.headers {
                Some(h) => {
                    let other = crate::engine::copy_strings(&h.other);
                    Some(HeaderFields { text: h.text.copy(), other })
                },
                None => None,
            },
        }
    }
}

impl Interaction {
    /// A copy of this interaction.
    pub fn copy(&self) -> (r: Interaction)
        ensures
            r@ == self@,
    {
        Interaction { id: self.id.clone(), request: self.request.copy() }
    }
}

/// Tells which interactions it accepts.
pub trait InteractionMatcher {
    /// Does the matcher accept an interaction of this view?
    spec fn accepts(&self, interaction: InteractionView) -> bool;

    /// Does the matcher accept this interaction?
    fn matches(&self, interaction: &Interaction) -> (b: bool)
        ensures
            b == self.accepts(interaction@),
    ;
}

/// Matches interactions whose request path is the given path.
pub struct PathMatcher {
    pub path: String,
}

impl PathMatcher {
    /// A matcher for `path`.
    pub fn new(path: String) -> (m: PathMatcher)
        ensures
            m.path@ == path@,
    {
        PathMatcher { path }
    }
}

impl InteractionMatcher for PathMatcher {
    /// The request has a path, equal to this matcher's.
    open spec fn accepts(&self, interaction: InteractionView) -> bool {
        interaction.request.path == Some(self.path@)
    }

    fn matches(&self, interaction: &Interaction) -> (b: bool) {
        match &interaction.request.path {
            Some(p) => eq_str(p.as_str(), self.path.as_str()),
            None => false,
        }
    }
}

/// Matches interactions whose request method is the given method, in any
/// ASCII case.
pub struct MethodMatcher {
    pub method: String,
}

impl MethodMatcher {
    /// A matcher for `method`.
    pub fn new(method: String) -> (m: MethodMatcher)
        ensures
            m.method@ == method@,
    {
        MethodMatcher { method }
    }
}

impl InteractionMatcher for MethodMatcher {
    /// The request has a method, equal to this matcher's regardless of
    /// ASCII case.
    open spec fn accepts(&self, interaction: InteractionView) -> bool {
        interaction.request.method matches Some(m) && eq_ignore_ascii_case(m, self.method@)
    }

    fn matches(&self, interaction: &Interaction) -> (b: bool) {
        match &interaction.request.method {
            Some(m) => str_eq_ignore_ascii_case(m.as_str(), self.method.as_str()),
            None => false,
        }
    }
}

/// Matches interactions by path and by method.
pub struct PathAndMethodMatcher {
    pub path: String,
    pub method: String,
}

impl PathAndMethodMatcher {
    /// A matcher for `path` and `method`.
    pub fn new(path: String, method: String) -> (m: PathAndMethodMatcher)
        ensures
            m.path@ == path@,
            m.method@ == method@,
    {
        PathAndMethodMatcher { path, method }
    }
}

impl InteractionMatcher for PathAndMethodMatcher {
    /// The request's path is this matcher's, and its method this matcher's
    /// regardless of ASCII case.
    open spec fn accepts(&self, interaction: InteractionView) -> bool {
        &&& interaction.request.path == Some(self.path@)
        &&& interaction.request.method matches Some(m) && eq_ignore_ascii_case(m, self.method@)
    }

    fn matches(&self, interaction: &Interaction) -> (b: bool) {
        let path_matches = match &interaction.request.path {
            Some(p) => eq_str(p.as_str(), self.path.as_str()),
            None => false,
        };
        let method_matches = match &interaction.request.method {
            Some(m) => str_eq_ignore_ascii_case(m.as_str(), self.method.as_str()),
            None => false,
        };
        path_matches && method_matches
    }
}

/// Matches interactions whose request has a header, with a given value if
/// one is set.
pub struct HeaderMatcher {
    pub name: String,
    pub value: Option<String>,
}

/// Recorded headers, by those with a string value and the names of the
/// others, let a header matcher of this name and value match.
pub open spec fn header_matches(
    text: Map<Seq<char>, Seq<char>>,
    other: Seq<Seq<char>>,
    name: Seq<char>,
    value: Option<Seq<char>>,
) -> bool {
    if text.contains_key(name) {
        match value {
            Some(v) => text[name] == v,
            None => true,
        }
    } else if other.contains(name) {
        value is None
    } else {
        false
    }
}

impl HeaderMatcher {
    /// A matcher for the presence of header `name`.
    pub fn new(name: String) -> (m: HeaderMatcher)
        ensures
            m.name@ == name@,
            m.value is None,
    {
        HeaderMatcher { name, value: None }
    }

    /// A matcher for header `name` with value `value`.
    pub fn with_value(name: String, value: String) -> (m: HeaderMatcher)
        ensures
            m.name@ == name@,
            m.value matches Some(v) && v@ == value@,
    {
        HeaderMatcher { name, value: Some(value) }
    }
}

impl InteractionMatcher for HeaderMatcher {
    /// The request has headers, among them this matcher's; when a value is
    /// set the header's value is a string equal to it.
    open spec fn accepts(&self, interaction: InteractionView) -> bool {
        interaction.request.headers matches Some(h) && header_matches(h.0, h.1, self.name@, opt_chars(self.value))
    }

    fn matches(&self, interaction: &Interaction) -> (b: bool) {
        match &interaction.request.headers {
            Some(h) => {
                match h.text.get(self.name.as_str()) {
                    Some(v) => match &self.value {
                        Some(want) => eq_str(v.as_str(), want.as_str()),
                        None => true,
                    },
                    None => {
                        if contains_string(&h.other, &self.name) {
                            self.value.is_none()
                        } else {
                            false
                        }
                    },
                }
            },
            None => false,
        }
    }
}

/// Matches interactions that all of its matchers accept, or any of them.
pub struct CompositeMatcher<M> {
    pub matchers: Vec<M>,
    pub all: bool,
}

impl<M: InteractionMatcher> CompositeMatcher<M> {
    /// A matcher accepting what all of these accept.
    pub fn all(matchers: Vec<M>) -> (c: CompositeMatcher<M>)
        ensures
            c.matchers == matchers,
            c.all,
    {
        CompositeMatcher { matchers, all: true }
    }

    /// A matcher accepting what any of these accepts.
    pub fn any(matchers: Vec<M>) -> (c: CompositeMatcher<M>)
        ensures
            c.matchers == matchers,
            !c.all,
    {
        CompositeMatcher { matchers, all: false }
    }

    /// Adds a matcher.
    pub fn add_matcher(&mut self, matcher: M)
        ensures
            final(self).matchers@ == old(self).matchers@.push(matcher),
            final(self).all == old(self).all,
    {
        self.matchers.push(matcher);
    }
}

impl<M: InteractionMatcher> InteractionMatcher for CompositeMatcher<M> {
    /// All of the matchers accept the interaction, or any of them does.
    open spec fn accepts(&self, interaction: InteractionView) -> bool {
        if self.all {
            forall|i: int| 0 <= i < self.matchers.len() ==> #[trigger] self.matchers@[i].accepts(interaction)
        } else {
            exists|i: int| 0 <= i < self.matchers.len() && #[trigger] self.matchers@[i].accepts(interaction)
        }
    }

    fn matches(&self, interaction: &Interaction) -> (b: bool) {
        let mut i: usize = 0;
        while i < self.matchers.len()
            invariant
                i <= self.matchers.len(),
                self.all ==> forall|j: int| 0 <= j < i ==> #[trigger] self.matchers@[j].accepts(interaction@),
                !self.all ==> forall|j: int| 0 <= j < i ==> !#[trigger] self.matchers@[j].accepts(interaction@),
            decreases self.matchers.len() - i,
        {
            let m = self.matchers[i].matches(interaction);
            if self.all && !m {
                return false;
            }
            if !self.all && m {
                return true;
            }
            i += 1;
        }
        self.all
    }
}

} // verus!
