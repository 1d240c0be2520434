//! The sizes, in bytes, that the network simulation charges for a request
//! and a response: their texts as they would travel.

use vstd::prelude::*;
use crate::environment::utf8_len;
use crate::http::{HttpRequest, HttpResponse};
use crate::json::{json_string_text, quoted_json, JsonValue};
use crate::kv::StrMap;

verus! {

/// The bytes of name-value pairs: each name and value with two bytes of
/// separators.
pub open spec fn pairs_size(e: Seq<(String, String)>) -> nat
    decreases e.len(),
{
    if e.len() == 0 {
        0
    } else {
        pairs_size(e.drop_last()) + utf8_len(e.last().0@) + utf8_len(e.last().1@) + 2
    }
}

/// The bytes of an object's fields as compact JSON, without the braces
/// and commas: each name quoted, a colon, and the value's text.
pub open spec fn fields_size(e: Seq<(String, String)>) -> nat
    decreases e.len(),
{
    if e.len() == 0 {
        0
    } else {
        fields_size(e.drop_last()) + utf8_len(quoted_json(e.last().0@)) + 1 + utf8_len(e.last().1@)
    }
}

/// The bytes of a JSON value written compactly: an object's braces, fields
/// and the commas between them, or any other value's text.
pub open spec fn json_size(v: JsonValue) -> nat {
    match v {
        JsonValue::Object(m) => {
            let n = m.entry_seq().len();
            2 + fields_size(m.entry_seq()) + if n > 0 {
                (n - 1) as nat
            } else {
                0
            }
        },
        JsonValue::Other(t) => utf8_len(t@),
    }
}

/// The bytes of an optional body.
pub open spec fn body_size(b: Option<JsonValue>) -> nat {
    match b {
        Some(v) => json_size(v),
        None => 0,
    }
}

/// The bytes charged for a request: its method and path, its headers and
/// its query parameters as pairs, and its body.
pub open spec fn request_size(r: HttpRequest) -> nat {
    utf8_len(r.method@) + utf8_len(r.path@) + pairs_size(r.headers.entry_seq()) + pairs_size(r.query.entry_seq())
        + body_size(r.body)
}

/// The bytes charged for a response: three for its status, its headers as
/// pairs, and its body.
pub open spec fn response_size(r: HttpResponse) -> nat {
    3 + pairs_size(r.headers.entry_seq()) + body_size(r.body)
}

/// A size in bytes, or the largest `usize` when it is larger.
pub open spec fn capped(n: int) -> usize {
    if n <= usize::MAX {
        n as usize
    } else {
        usize::MAX
    }
}

fn byte_len(s: &str) -> (n: usize)
    ensures
        n == utf8_len(s@),
{
    s.as_bytes().len()
}

fn pairs_bytes(m: &StrMap, start: usize) -> (n: usize)
    ensures
        n == capped(start + pairs_size(m.entry_seq())),
{
    let len = m.len();
    let mut total = start;
    let mut i: usize = 0;
    while i < len
        invariant
            i <= len,
            len == m.entry_seq().len(),
            total == capped(start + pairs_size(m.entry_seq().subrange(0, i as int))),
        decreases len - i,
    {
        let (k, v) = m.entry(i);
        assert(m.entry_seq().subrange(0, i + 1).drop_last() =~= m.entry_seq().subrange(0, i as int));
        total = total.saturating_add(byte_len(k.as_str())).saturating_add(byte_len(v.as_str())).saturating_add(2);
        i += 1;
    }
    assert(m.entry_seq().subrange(0, i as int) =~= m.entry_seq());
    total
}

fn json_bytes(v: &JsonValue, start: usize) -> (n: usize)
    ensures
        n == capped(start + json_size(*v)),
{
    match v {
        JsonValue::Other(t) => start.saturating_add(byte_len(t.as_str())),
        JsonValue::Object(m) => {
            let len = m.len();
            let mut total = start.saturating_add(2);
            let mut i: usize = 0;
            while i < len
                invariant
                    i <= len,
                    len == m.entry_seq().len(),
                    total == capped(start + 2 + fields_size(m.entry_seq().subrange(0, i as int)) + if i > 0 {
                        (i - 1) as nat
                    } else {
                        0
                    }),
                decreases len - i,
            {
                let (k, val) = m.entry(i);
                assert(m.entry_seq().subrange(0, i + 1).drop_last() =~= m.entry_seq().subrange(0, i as int));
                if i > 0 {
                    total = total.saturating_add(1);
                }
                let q = json_string_text(k.as_str());
                total = total.saturating_add(byte_len(q.as_str())).saturating_add(1).saturating_add(
                    byte_len(val.as_str()),
                );
                i += 1;
            }
            assert(m.entry_seq().subrange(0, i as int) =~= m.entry_seq());
            total
        },
    }
}

/// The bytes charged for a request, as `request_size` counts them, or the
/// largest `usize` when there are more.
pub fn calculate_request_size(r: &HttpRequest) -> (n: usize)
    ensures
        n == capped(request_size(*r) as int),
{
    let a = byte_len(r.method.as_str()).saturating_add(byte_len(r.path.as_str()));
    let b = pairs_bytes(&r.headers, a);
    let c = pairs_bytes(&r.query, b);
    match &r.body {
        Some(v) => json_bytes(v, c),
        None => c,
    }
}

/// The bytes charged for a response, as `response_size` counts them, or
/// the largest `usize` when there are more.
pub fn calculate_response_size(r: &HttpResponse) -> (n: usize)
    ensures
        n == capped(response_size(*r) as int),
{
    let b = pairs_bytes(&r.headers, 3);
    match &r.body {
        Some(v) => json_bytes(v, b),
        None => b,
    }
}

} // verus!
