//! The JSON values that the agent's replies carry, held as plain data, and
//! the parse and quoting that `serde_json` does for them.
use vstd::prelude::*;

verus! {

#[verifier::external_type_specification]
#[verifier::external_body]
pub struct ExSerdeJsonValue(serde_json::Value);

/// A JSON value. Numbers keep their decimal text; an object keeps its
/// members in the order the parser yields them, each key once.
pub enum JsonValue {
    Null,
    Bool(bool),
    Number(String),
    Text(String),
    Array(Vec<JsonValue>),
    Object(Vec<(String, JsonValue)>),
}

/// What `serde_json::from_str::<serde_json::Value>` yields for a text: the
/// parsed value, or the text of the parse error.
pub uninterp spec fn spec_json_parse(text: Seq<char>) -> Result<JsonValue, Seq<char>>;


/// A `serde_json::Value` as a `JsonValue`, variant for variant.
#[verifier::external_body]
fn json_tree(v: &serde_json::Value) -> JsonValue {
    match v {
        serde_json::Value::Null => JsonValue::Null,
        serde_json::Value::Bool(b) => JsonValue::Bool(*b),
        serde_json::Value::Number(n) => JsonValue::Number(n.to_string()),
        serde_json::Value::String(s) => JsonValue::Text(s.clone()),
        serde_json::Value::Array(a) => JsonValue::Array(a.iter().map(json_tree).collect()),
        serde_json::Value::Object(m) => JsonValue::Object(
            m.iter().map(|(k, x)| (k.clone(), json_tree(x))).collect(),
        ),
    }
}

/// Calls `serde_json::from_str::<serde_json::Value>`. Its result is named,
/// not described: the value parsed from `text`, or the error's text.
#[verifier::external_body]
pub(crate) fn json_parse(text: &str) -> (r: Result<JsonValue, String>)
    ensures
        match r {
            Ok(v) => spec_json_parse(text@) == Ok::<JsonValue, Seq<char>>(v),
            Err(e) => spec_json_parse(text@) == Err::<JsonValue, Seq<char>>(e@),
        },
{
    match serde_json::from_str::<serde_json::Value>(text) {
        Ok(v) => Ok(json_tree(&v)),
        Err(e) => Err(e.to_string()),
    }
}

/// The lowercase hexadecimal digit `d` (below 16).
pub open spec fn hex_char(d: nat) -> char {
    if d < 10 {
        crate::text::digit_char(d)
    } else if d == 10 {
        'a'
    } else if d == 11 {
        'b'
    } else if d == 12 {
        'c'
    } else if d == 13 {
        'd'
    } else if d == 14 {
        'e'
    } else {
        'f'
    }
}

/// How one character is written inside a JSON string: `"` and `\` and the
/// control characters below U+0020 are escaped (`\b` `\t` `\n` `\f` `\r`
/// for their usual ones, `\u00XX` with lowercase hex for the rest); every
/// other character stands for itself.
pub open spec fn json_escape_char(c: char) -> Seq<char> {
    if c == '"' {
        seq!['\\', '"']
    } else if c == '\\' {
        seq!['\\', '\\']
    } else if c == '\u{8}' {
        seq!['\\', 'b']
    } else if c == '\t' {
        seq!['\\', 't']
    } else if c == '\n' {
        seq!['\\', 'n']
    } else if c == '\u{c}' {
        seq!['\\', 'f']
    } else if c == '\r' {
        seq!['\\', 'r']
    } else if (c as u32) < 0x20 {
        seq!['\\', 'u', '0', '0', hex_char((c as u32 / 16) as nat), hex_char((c as u32 % 16) as nat)]
    } else {
        seq![c]
    }
}

/// The characters of a text, each written as inside a JSON string.
pub open spec fn json_escaped(text: Seq<char>) -> Seq<char>
    decreases text.len(),
{
    if text.len() == 0 {
        seq![]
    } else {
        json_escaped(text.drop_last()) + json_escape_char(text.last())
    }
}

/// The JSON string literal for a text, as `serde_json::to_string` writes it
/// for a `str`: the escaped text between double quotes.
pub open spec fn spec_json_quoted(text: Seq<char>) -> Seq<char> {
    seq!['"'] + json_escaped(text) + seq!['"']
}

fn hex_char_exec(d: u32) -> (c: char)
    requires
        d < 16,
    ensures
        c == hex_char(d as nat),
{
    if d < 10 {
        let v = crate::text::decimal_chars(d as u64);
        proof {
            assert(crate::text::decimal(d as nat) == seq![crate::text::digit_char(d as nat)]);
        }
        v[0]
    } else if d == 10 {
        'a'
    } else if d == 11 {
        'b'
    } else if d == 12 {
        'c'
    } else if d == 13 {
        'd'
    } else if d == 14 {
        'e'
    } else {
        'f'
    }
}

/// Appends `json_escape_char(c)`.
fn push_escaped_char(out: &mut Vec<char>, c: char)
    ensures
        final(out)@ == old(out)@ + json_escape_char(c),
{
    let ghost before = out@;
    if c == '"' {
        out.push('\\');
        out.push('"');
    } else if c == '\\' {
        out.push('\\');
        out.push('\\');
    } else if c == '\u{8}' {
        out.push('\\');
        out.push('b');
    } else if c == '\t' {
        out.push('\\');
        out.push('t');
    } else if c == '\n' {
        out.push('\\');
        out.push('n');
    } else if c == '\u{c}' {
        out.push('\\');
        out.push('f');
    } else if c == '\r' {
        out.push('\\');
        out.push('r');
    } else if (c as u32) < 0x20 {
        let n = c as u32;
        out.push('\\');
        out.push('u');
        out.push('0');
        out.push('0');
        out.push(hex_char_exec(n / 16));
        out.push(hex_char_exec(n % 16));
    } else {
        out.push(c);
    }
    assert(out@ =~= before + json_escape_char(c));
}

/// The JSON string literal for `text` (see `spec_json_quoted`).
pub fn json_quoted(text: &str) -> (r: String)
    ensures
        r@ == spec_json_quoted(text@),
{
    let cs = crate::text::chars_of(text);
    let mut out: Vec<char> = Vec::new();
    out.push('"');
    let mut i: usize = 0;
    while i < cs.len()
        invariant
            0 <= i <= cs.len(),
            out@ == seq!['"'] + json_escaped(cs@.take(i as int)),
        decreases cs.len() - i,
    {
        let ghost before = out@;
        push_escaped_char(&mut out, cs[i]);
        proof {
            let t = cs@.take(i + 1);
            assert(t.drop_last() =~= cs@.take(i as int));
            assert(t.last() == cs@[i as int]);
            assert(out@ =~= seq!['"'] + json_escaped(t));
        }
        i = i + 1;
    }
    out.push('"');
    assert(cs@.take(cs.len() as int) =~= cs@);
    assert(out@ =~= spec_json_quoted(text@));
    crate::text::string_of(out.as_slice())
}

/// The first member of `entries` named `key`.
pub open spec fn lookup(entries: Seq<(String, JsonValue)>, key: Seq<char>) -> Option<JsonValue>
    decreases entries.len(),
{
    if entries.len() == 0 {
        None
    } else if entries[0].0@ == key {
        Some(entries[0].1)
    } else {
        lookup(entries.drop_first(), key)
    }
}

/// `Value::get` with a key: the member of an object, `None` for anything else.
pub open spec fn json_get(v: JsonValue, key: Seq<char>) -> Option<JsonValue> {
    match v {
        JsonValue::Object(entries) => lookup(entries@, key),
        _ => None,
    }
}

/// `Value::as_str` on an optional value.
pub open spec fn json_text(v: Option<JsonValue>) -> Option<Seq<char>> {
    match v {
        Some(JsonValue::Text(s)) => Some(s@),
        _ => None,
    }
}

/// `json_get` followed by `json_text`.
pub open spec fn json_get_text(v: JsonValue, key: Seq<char>) -> Option<Seq<char>> {
    json_text(json_get(v, key))
}

/// `json_get(v, key)`.
pub fn json_get_exec<'a>(v: &'a JsonValue, key: &str) -> (r: Option<&'a JsonValue>)
    ensures
        r matches Some(x) ==> json_get(*v, key@) == Some(*x),
        r is None ==> json_get(*v, key@) is None,
{
    match v {
        JsonValue::Object(entries) => {
            let k = crate::text::chars_of(key);
            let mut i: usize = 0;
            assert(entries@.skip(0) =~= entries@);
            while i < entries.len()
                invariant
                    0 <= i <= entries@.len(),
                    k@ == key@,
                    json_get(*v, key@) == lookup(entries@, key@),
                    lookup(entries@, key@) == lookup(entries@.skip(i as int), key@),
                decreases entries.len() - i,
            {
                let name = crate::text::chars_of(entries[i].0.as_str());
                assert(entries@.skip(i as int).drop_first() =~= entries@.skip(i + 1));
                assert(entries@.skip(i as int)[0] == entries@[i as int]);
                assert(name@ == entries@[i as int].0@);
                if crate::text::chars_eq(name.as_slice(), k.as_slice()) {
                    assert(lookup(entries@.skip(i as int), key@) == Some(entries@[i as int].1));
                    return Some(&entries[i].1);
                }
                i = i + 1;
            }
            None
        },
        _ => None,
    }
}

/// `json_get_text(v, key)`.
pub fn json_get_text_exec<'a>(v: &'a JsonValue, key: &str) -> (r: Option<&'a String>)
    ensures
        r matches Some(s) ==> json_get_text(*v, key@) == Some(s@),
        r is None ==> json_get_text(*v, key@) is None,
{
    match json_get_exec(v, key) {
        Some(JsonValue::Text(s)) => Some(s),
        _ => None,
    }
}

} // verus!
