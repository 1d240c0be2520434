//! JSON bodies as the mocks read them: an object by its fields, each field
//! by the canonical text of its value, and any other value by its
//! canonical text.

use vstd::prelude::*;
use crate::kv::{distinct_keys, eq_str, map_of, StrMap};

verus! {

/// A JSON value: an object, field name to the canonical text of the
/// field's value, or any other value by its canonical text.
#[derive(Debug)]
pub enum JsonValue {
    Object(StrMap),
    Other(String),
}

/// The mathematical form of a JSON value.
pub enum JsonView {
    Object(Map<Seq<char>, Seq<char>>),
    Other(Seq<char>),
}

impl View for JsonValue {
    type V = JsonView;

    open spec fn view(&self) -> JsonView {
        match self {
            JsonValue::Object(m) => JsonView::Object(m@),
            JsonValue::Other(t) => JsonView::Other(t@),
        }
    }
}

/// The JSON value that `serde_json` reads from a text, if the text is JSON.
pub uninterp spec fn parsed_json(text: Seq<char>) -> Option<JsonView>;

/// A hexadecimal digit, in lower case.
pub open spec fn hex_digit(n: nat) -> char {
    if n < 10 {
        ('0' as nat + n) as char
    } else {
        ('a' as nat + (n - 10)) as char
    }
}

/// How a character stands in a JSON string as `serde_json` writes it: `"`
/// and `\` behind a backslash; backspace, form feed, line feed, carriage
/// return and tab as `\b`, `\f`, `\n`, `\r` and `\t`; any other
/// character below U+0020 as `\u00` and two lower-case hexadecimal digits;
/// every other character as itself.
pub open spec fn escaped_char(c: char) -> Seq<char> {
    if c == '"' {
        seq!['\\', '"']
    } else if c == '\\' {
        seq!['\\', '\\']
    } else if c == '\u{8}' {
        seq!['\\', 'b']
    } else if c == '\u{c}' {
        seq!['\\', 'f']
    } else if c == '\n' {
        seq!['\\', 'n']
    } else if c == '\r' {
        seq!['\\', 'r']
    } else if c == '\t' {
        seq!['\\', 't']
    } else if (c as u32) < 0x20 {
        seq!['\\', 'u', '0', '0', hex_digit((c as u32 / 16) as nat), hex_digit((c as u32 % 16) as nat)]
    } else {
        seq![c]
    }
}

/// The characters of `s`, each escaped as `escaped_char` describes.
pub open spec fn escaped(s: Seq<char>) -> Seq<char>
    decreases s.len(),
{
    if s.len() == 0 {
        Seq::empty()
    } else {
        escaped(s.drop_last()) + escaped_char(s.last())
    }
}

/// The canonical text of the JSON string holding `s`, as `serde_json`
/// writes a `Value::String`: `s` escaped, in double quotes.
pub open spec fn quoted_json(s: Seq<char>) -> Seq<char> {
    seq!['"'] + escaped(s) + seq!['"']
}

/// The canonical text of the JSON value that a text holds, if it is JSON.
pub uninterp spec fn canonical_json(text: Seq<char>) -> Option<Seq<char>>;

/// Reads `text` with `serde_json::from_str` into a `serde_json::Value` and
/// writes it back with `to_string`: `None` when the text is not JSON. The
/// result is a function of the text alone.
#[verifier::external_body]
pub(crate) fn canonical_json_text(text: &str) -> (r: Option<String>)
    ensures
        match r {
            Some(t) => canonical_json(text@) == Some(t@),
            None => canonical_json(text@) is None,
        },
{
    serde_json::from_str::<serde_json::Value>(text).ok().map(|v| v.to_string())
}

/// Reads `text` with `serde_json::from_str` into a `serde_json::Value`:
/// `None` when the text is not JSON; for an object, its fields in the
/// map's order, each value by its canonical text (`to_string`), the keys
/// distinct as in any `serde_json::Map`; for any other value, its canonical
/// text. The result is a function of the text alone.
#[verifier::external_body]
fn parse_json_parts(text: &str) -> (r: Option<Result<Vec<(String, String)>, String>>)
    ensures
        match r {
            None => parsed_json(text@) is None,
            Some(Ok(fields)) => distinct_keys(fields@) && parsed_json(text@) == Some(
                JsonView::Object(map_of(fields@)),
            ),
            Some(Err(t)) => parsed_json(text@) == Some(JsonView::Other(t@)),
        },
{
    match serde_json::from_str::<serde_json::Value>(text) {
        Ok(serde_json::Value::Object(map)) => Some(Ok(map.into_iter().map(|(k, v)| (k, v.to_string())).collect())),
        Ok(v) => Some(Err(v.to_string())),
        Err(_) => None,
    }
}

/// The JSON value a text holds, if it is JSON: an object by its fields,
/// each by the canonical text of its value, or any other value by its
/// canonical text.
pub(crate) fn parse_json_value(text: &str) -> (r: Option<JsonValue>)
    ensures
        match r {
            Some(v) => parsed_json(text@) == Some(v@),
            None => parsed_json(text@) is None,
        },
{
    match parse_json_parts(text) {
        None => None,
        Some(Ok(fields)) => {
            let ghost fs = fields@;
            let mut m = StrMap::new();
            m.insert_pairs(fields);
            assert(m@ =~= map_of(fs));
            Some(JsonValue::Object(m))
        },
        Some(Err(t)) => Some(JsonValue::Other(t)),
    }
}

fn hex_str(n: u32) -> (h: &'static str)
    requires
        n < 16,
    ensures
        h@ == seq![hex_digit(n as nat)],
{
    proof {
        reveal_strlit("0");
        reveal_strlit("1");
        reveal_strlit("2");
        reveal_strlit("3");
        reveal_strlit("4");
        reveal_strlit("5");
        reveal_strlit("6");
        reveal_strlit("7");
        reveal_strlit("8");
        reveal_strlit("9");
        reveal_strlit("a");
        reveal_strlit("b");
        reveal_strlit("c");
        reveal_strlit("d");
        reveal_strlit("e");
        reveal_strlit("f");
    }
    match n {
        0 => "0",
        1 => "1",
        2 => "2",
        3 => "3",
        4 => "4",
        5 => "5",
        6 => "6",
        7 => "7",
        8 => "8",
        9 => "9",
        10 => "a",
        11 => "b",
        12 => "c",
        13 => "d",
        14 => "e",
        _ => "f",
    }
}

/// Appends the character of `s` at `i`, escaped as `escaped_char` says.
fn push_escaped(out: &mut String, s: &str, i: usize)
    requires
        i < s@.len() <= usize::MAX,
    ensures
        final(out)@ == old(out)@ + escaped_char(s@[i as int]),
{
    proof {
        reveal_strlit("\\\"");
        reveal_strlit("\\\\");
        reveal_strlit("\\b");
        reveal_strlit("\\f");
        reveal_strlit("\\n");
        reveal_strlit("\\r");
        reveal_strlit("\\t");
        reveal_strlit("\\u00");
    }
    let c = s.get_char(i);
    let ghost before = out@;
    if c == '"' {
        out.append("\\\"");
    } else if c == '\\' {
        out.append("\\\\");
    } else if c == '\u{8}' {
        out.append("\\b");
    } else if c == '\u{c}' {
        out.append("\\f");
    } else if c == '\n' {
        out.append("\\n");
    } else if c == '\r' {
        out.append("\\r");
    } else if c == '\t' {
        out.append("\\t");
    } else if (c as u32) < 0x20 {
        out.append("\\u00");
        out.append(hex_str(c as u32 / 16));
        out.append(hex_str(c as u32 % 16));
    } else {
        out.append(s.substring_char(i, i + 1));
    }
    assert(out@ =~= before + escaped_char(c));
}

/// The canonical text of the JSON string holding `s`, as `quoted_json`
/// describes.
pub(crate) fn json_string_text(s: &str) -> (r: String)
    ensures
        r@ == quoted_json(s@),
{
    proof {
        reveal_strlit("\"");
    }
    let n = s.unicode_len();
    let mut out = "\"".to_owned();
    let mut i: usize = 0;
    while i < n
        invariant
            i <= n,
            n == s@.len(),
            out@ == seq!['"'] + escaped(s@.subrange(0, i as int)),
        decreases n - i,
    {
        assert(s@.subrange(0, i + 1).drop_last() =~= s@.subrange(0, i as int));
        push_escaped(&mut out, s, i);
        assert(out@ =~= seq!['"'] + escaped(s@.subrange(0, i + 1)));
        i += 1;
    }
    assert(s@.subrange(0, i as int) =~= s@);
    out.append("\"");
    out
}

/// The value that a text stands for in a mock's configuration: the JSON it
/// holds, or else the JSON string holding the text itself.
pub open spec fn json_or_string(text: Seq<char>) -> JsonView {
    match parsed_json(text) {
        Some(v) => v,
        None => JsonView::Other(quoted_json(text)),
    }
}

/// The canonical text of the value a configured text stands for: the JSON
/// it holds, or else the JSON string holding the text itself.
pub open spec fn json_or_string_text(text: Seq<char>) -> Seq<char> {
    match canonical_json(text) {
        Some(t) => t,
        None => quoted_json(text),
    }
}

/// The canonical text of the value a configured text stands for.
pub fn json_or_string_text_of(text: &str) -> (r: String)
    ensures
        r@ == json_or_string_text(text@),
{
    match canonical_json_text(text) {
        Some(t) => t,
        None => json_string_text(text),
    }
}

/// The value a configured text stands for.
pub fn json_or_string_value(text: &str) -> (v: JsonValue)
    ensures
        v@ == json_or_string(text@),
{
    match parse_json_value(text) {
        Some(v) => v,
        None => JsonValue::Other(json_string_text(text)),
    }
}

impl JsonValue {
    /// A copy of this value.
    pub fn copy(&self) -> (r: JsonValue)
        ensures
            r@ == self@,
    {
        match self {
            JsonValue::Object(m) => JsonValue::Object(m.copy()),
            JsonValue::Other(t) => JsonValue::Other(t.clone()),
        }
    }

    /// Are both values equal?
    pub fn equals(&self, other: &JsonValue) -> (b: bool)
        ensures
            b == (self@ == other@),
    {
        match (self, other) {
            (JsonValue::Object(a), JsonValue::Object(b)) => a.same_as(b),
            (JsonValue::Other(a), JsonValue::Other(b)) => eq_str(a.as_str(), b.as_str()),
            _ => false,
        }
    }

    /// The fields of an object, or `None` for any other value.
    pub fn as_object(&self) -> (r: Option<&StrMap>)
        ensures
            match r {
                Some(m) => self@ == JsonView::Object(m@),
                None => self@ is Other,
            },
    {
        match self {
            JsonValue::Object(m) => Some(m),
            JsonValue::Other(_) => None,
        }
    }
}

/// Are both optional values equal?
pub fn optional_json_equal(a: &Option<JsonValue>, b: &Option<JsonValue>) -> (r: bool)
    ensures
        r == (match (a, b) {
            (Some(x), Some(y)) => x@ == y@,
            (None, None) => true,
            _ => false,
        }),
{
    match (a, b) {
        (Some(x), Some(y)) => x.equals(y),
        (None, None) => true,
        _ => false,
    }
}

} // verus!
