//! Encodings the engines read and write through outside crates: JSON
//! documents (GitHub's answers, the stack comment's data line) as a plain
//! tree of values, JSON string quoting, and standard base64.

use base64::Engine;
use vstd::prelude::*;

use crate::text::is_ws;

verus! {

/// `serde_json`'s dynamically typed JSON value, carried only to be turned
/// into a [`Json`].
#[verifier::external_type_specification]
#[verifier::external_body]
pub struct ExJsonValue(serde_json::Value);

/// A JSON document as plain values. Numbers that are not non-negative
/// integers fitting `u64` are kept only as `OtherNumber`: nothing here
/// reads them.
#[derive(Debug)]
pub enum Json {
    Null,
    Bool(bool),
    UInt(u64),
    OtherNumber,
    Str(String),
    Array(Vec<Json>),
    /// Members in document order.
    Object(Vec<(String, Json)>),
}

/// A JSON document's content as mathematical values.
pub ghost enum JsonView {
    Null,
    Bool(bool),
    UInt(u64),
    OtherNumber,
    Str(Seq<char>),
    Array(Seq<JsonView>),
    Object(Seq<(Seq<char>, JsonView)>),
}

/// The content of a document.
pub open spec fn json_view(j: Json) -> JsonView
    decreases j,
{
    match j {
        Json::Null => JsonView::Null,
        Json::Bool(b) => JsonView::Bool(b),
        Json::UInt(n) => JsonView::UInt(n),
        Json::OtherNumber => JsonView::OtherNumber,
        Json::Str(s) => JsonView::Str(s@),
        Json::Array(a) => {
            proof {
                assert(decreases_to!(j => a@));
            }
            JsonView::Array(json_views(a@))
        },
        Json::Object(m) => {
            proof {
                assert(decreases_to!(j => m@));
            }
            JsonView::Object(member_views(m@))
        },
    }
}

/// The contents of a list of documents.
pub open spec fn json_views(a: Seq<Json>) -> Seq<JsonView>
    decreases a,
{
    if a.len() == 0 {
        Seq::empty()
    } else {
        json_views(a.drop_last()).push(json_view(a.last()))
    }
}

/// The contents of an object's members, names as texts.
pub open spec fn member_views(m: Seq<(String, Json)>) -> Seq<(Seq<char>, JsonView)>
    decreases m,
{
    if m.len() == 0 {
        Seq::empty()
    } else {
        member_views(m.drop_last()).push((m.last().0@, json_view(m.last().1)))
    }
}

/// The compact JSON text of a document, the way `serde_json` writes it:
/// no whitespace, strings quoted as [`json_quote`] says, members in order.
/// (A number that is not a `u64` has no text here.)
pub open spec fn json_text(v: JsonView) -> Seq<char>
    decreases v,
{
    match v {
        JsonView::Null => "null"@,
        JsonView::Bool(b) => if b {
            "true"@
        } else {
            "false"@
        },
        JsonView::UInt(n) => crate::text::dec(n as nat),
        JsonView::OtherNumber => Seq::empty(),
        JsonView::Str(s) => json_quote(s),
        JsonView::Array(a) => seq!['['] + json_texts(a) + seq![']'],
        JsonView::Object(m) => seq!['{'] + members_text(m) + seq!['}'],
    }
}

/// The texts of a list of documents, separated by commas.
pub open spec fn json_texts(a: Seq<JsonView>) -> Seq<char>
    decreases a,
{
    if a.len() == 0 {
        Seq::empty()
    } else if a.len() == 1 {
        json_text(a[0])
    } else {
        json_texts(a.drop_last()) + seq![','] + json_text(a.last())
    }
}

/// The texts of an object's members, `"name":value`, separated by commas.
pub open spec fn members_text(m: Seq<(Seq<char>, JsonView)>) -> Seq<char>
    decreases m,
{
    if m.len() == 0 {
        Seq::empty()
    } else if m.len() == 1 {
        json_quote(m[0].0) + seq![':'] + json_text(m[0].1)
    } else {
        members_text(m.drop_last()) + seq![','] + json_quote(m.last().0) + seq![':'] + json_text(m.last().1)
    }
}

/// A document that reads back as written: no number outside `u64`, no
/// object naming a member twice, and arrays and objects nested at most
/// `depth` deep.
pub open spec fn json_plain(v: JsonView, depth: nat) -> bool
    decreases v,
{
    match v {
        JsonView::OtherNumber => false,
        JsonView::Array(a) => depth > 0 && plain_all(a, (depth - 1) as nat),
        JsonView::Object(m) => depth > 0 && names_distinct(m) && plain_members(m, (depth - 1) as nat),
        _ => true,
    }
}

/// Every document of the list is plain.
pub open spec fn plain_all(a: Seq<JsonView>, depth: nat) -> bool
    decreases a,
{
    a.len() == 0 || (plain_all(a.drop_last(), depth) && json_plain(a.last(), depth))
}

/// Every member's value is plain.
pub open spec fn plain_members(m: Seq<(Seq<char>, JsonView)>, depth: nat) -> bool
    decreases m,
{
    m.len() == 0 || (plain_members(m.drop_last(), depth) && json_plain(m.last().1, depth))
}

/// No two members share a name.
pub open spec fn names_distinct(m: Seq<(Seq<char>, JsonView)>) -> bool {
    forall|i: int, j: int| 0 <= i < j < m.len() ==> #[trigger] m[i].0 != #[trigger] m[j].0
}

/// What `serde_json::from_slice` reads from these bytes, if they are one
/// JSON document.
pub uninterp spec fn json_parse(bytes: Seq<u8>) -> Option<Json>;

/// A lowercase hexadecimal digit.
pub open spec fn hex_digit(n: int) -> char {
    if n < 10 {
        ((n + '0' as int) as u8) as char
    } else {
        ((n - 10 + 'a' as int) as u8) as char
    }
}

/// How `serde_json` writes one character inside a string literal: a
/// quote and a backslash behind a backslash, the five control characters
/// with a short escape by it, every other control character below U+0020
/// as `\u00` and two lowercase hex digits, anything else as itself.
pub open spec fn json_char(c: char) -> Seq<char> {
    if c == '"' {
        seq!['\\', '"']
    } else if c == '\\' {
        seq!['\\', '\\']
    } else if c == '\u{08}' {
        seq!['\\', 'b']
    } else if c == '\t' {
        seq!['\\', 't']
    } else if c == '\n' {
        seq!['\\', 'n']
    } else if c == '\u{0C}' {
        seq!['\\', 'f']
    } else if c == '\r' {
        seq!['\\', 'r']
    } else if (c as int) < 0x20 {
        seq!['\\', 'u', '0', '0', hex_digit((c as int) / 16), hex_digit((c as int) % 16)]
    } else {
        seq![c]
    }
}

/// The escaped characters of a string.
pub open spec fn json_escaped(s: Seq<char>) -> Seq<char>
    decreases s.len(),
{
    if s.len() == 0 {
        Seq::empty()
    } else {
        json_escaped(s.drop_last()) + json_char(s.last())
    }
}

/// `serde_json`'s quoted, escaped rendering of a string: the escaped
/// characters between two quotes.
pub open spec fn json_quote(s: Seq<char>) -> Seq<char> {
    seq!['"'] + json_escaped(s) + seq!['"']
}

/// The character of a six-bit value in the standard base64 alphabet:
/// `A`–`Z`, `a`–`z`, `0`–`9`, `+`, `/`.
pub open spec fn b64_char(i: int) -> char {
    if i < 26 {
        (i + 'A' as int) as char
    } else if i < 52 {
        (i - 26 + 'a' as int) as char
    } else if i < 62 {
        (i - 52 + '0' as int) as char
    } else if i == 62 {
        '+'
    } else {
        '/'
    }
}

/// Standard base64 (RFC 4648 alphabet, `=` padding) of the bytes: every
/// three bytes become four characters of six bits each, high bits first;
/// a last group of one or two bytes is filled with zero bits and padded
/// with `=` to four characters.
pub open spec fn base64_of(b: Seq<u8>) -> Seq<char>
    decreases b.len(),
{
    if b.len() == 0 {
        Seq::empty()
    } else if b.len() == 1 {
        let x = b[0] as int;
        seq![b64_char(x / 4), b64_char((x % 4) * 16), '=', '=']
    } else if b.len() == 2 {
        let x = b[0] as int;
        let y = b[1] as int;
        seq![b64_char(x / 4), b64_char((x % 4) * 16 + y / 16), b64_char((y % 16) * 4), '=']
    } else {
        let x = b[0] as int;
        let y = b[1] as int;
        let z = b[2] as int;
        seq![b64_char(x / 4), b64_char((x % 4) * 16 + y / 16), b64_char((y % 16) * 4 + z / 64), b64_char(z % 64)]
            + base64_of(b.skip(3))
    }
}

/// The same document as plain values: one variant for each of
/// `serde_json::Value`'s, numbers kept only when they read as `u64`.
#[verifier::external_body]
fn json_from_value(v: serde_json::Value) -> Json {
    match v {
        serde_json::Value::Null => Json::Null,
        serde_json::Value::Bool(b) => Json::Bool(b),
        serde_json::Value::Number(n) => match n.as_u64() {
            Some(u) => Json::UInt(u),
            None => Json::OtherNumber,
        },
        serde_json::Value::String(s) => Json::Str(s),
        serde_json::Value::Array(a) => Json::Array(a.into_iter().map(json_from_value).collect()),
        serde_json::Value::Object(o) => Json::Object(
            o.into_iter().map(|(k, x)| (k, json_from_value(x))).collect(),
        ),
    }
}

/// `serde_json`'s message for bytes that are not one JSON document.
pub uninterp spec fn json_error_text(bytes: Seq<u8>) -> Seq<char>;

/// Parse one JSON document (`serde_json::from_slice`); on failure, the
/// message of `serde_json`'s error. Both are functions of the bytes alone.
/// The compact text of a plain document (see [`json_text`] and
/// [`json_plain`]: only `u64` numbers, no member named twice, nesting well
/// inside `serde_json`'s recursion limit of 128) parses back to that
/// document, members in order (the `preserve_order` feature).
#[verifier::external_body]
pub(crate) fn parse_json(bytes: &[u8]) -> (r: Result<Json, String>)
    ensures
        match r {
            Ok(j) => json_parse(bytes@) == Some(j),
            Err(e) => json_parse(bytes@) is None && e@ == json_error_text(bytes@),
        },
        match r {
            Ok(j) => forall|v: JsonView|
                json_plain(v, 100) && bytes@ == vstd::utf8::encode_utf8(#[trigger] json_text(v)) ==> json_view(j) == v,
            Err(_) => forall|v: JsonView|
                json_plain(v, 100) ==> bytes@ != vstd::utf8::encode_utf8(#[trigger] json_text(v)),
        },
{
    match serde_json::from_slice::<serde_json::Value>(bytes) {
        Ok(v) => Ok(json_from_value(v)),
        Err(err) => Err(err.to_string()),
    }
}

/// A string as a JSON string literal (`serde_json::to_string` on a
/// `str`, which cannot fail).
#[verifier::external_body]
pub(crate) fn quote_json(s: &str) -> (r: String)
    ensures
        r@ == json_quote(s@),
{
    serde_json::to_string(s).unwrap_or_default()
}

/// Standard base64 with padding (`base64`'s `STANDARD` engine) of a
/// text's UTF-8 bytes. (The engine refuses only inputs whose encoded
/// length would overflow `usize`, which no string in memory reaches.)
#[verifier::external_body]
pub(crate) fn base64_encode(text: &str) -> (r: String)
    ensures
        r@ == base64_of(vstd::utf8::encode_utf8(text@)),
{
    base64::engine::general_purpose::STANDARD.encode(text)
}

/// Decode standard base64 (`base64`'s `STANDARD` engine, which demands
/// canonical padding and zero trailing bits): exactly the texts that
/// encoding produces decode, each to the bytes it encodes.
#[verifier::external_body]
pub(crate) fn base64_decode(text: &str) -> (r: Option<Vec<u8>>)
    ensures
        match r {
            Some(b) => base64_of(b@) == text@,
            None => forall|b: Seq<u8>| base64_of(b) != text@,
        },
        forall|b: Seq<u8>| base64_of(b) == text@ ==> (r is Some && r->0@ == b),
{
    base64::engine::general_purpose::STANDARD.decode(text).ok()
}

/// The member `key` of an object (the first such member), `Null` for a
/// missing member or a non-object — `serde_json`'s `value[key]`.
pub open spec fn member(j: Json, key: Seq<char>) -> Json {
    match j {
        Json::Object(m) => member_of(m@, key),
        _ => Json::Null,
    }
}

/// The first member named `key`, `Null` when there is none.
pub open spec fn member_of(m: Seq<(String, Json)>, key: Seq<char>) -> Json
    decreases m.len(),
{
    if m.len() == 0 {
        Json::Null
    } else if m[0].0@ == key {
        m[0].1
    } else {
        member_of(m.drop_first(), key)
    }
}

/// Element `i` of an array, `Null` out of range or for a non-array.
pub open spec fn element(j: Json, i: int) -> Json {
    match j {
        Json::Array(a) => if 0 <= i < a@.len() {
            a@[i]
        } else {
            Json::Null
        },
        _ => Json::Null,
    }
}

/// `value.as_str()`.
pub open spec fn as_str(j: Json) -> Option<Seq<char>> {
    match j {
        Json::Str(s) => Some(s@),
        _ => None,
    }
}

/// `value.as_u64()`.
pub open spec fn as_u64(j: Json) -> Option<u64> {
    match j {
        Json::UInt(u) => Some(u),
        _ => None,
    }
}

/// `value.as_bool()`.
pub open spec fn as_bool(j: Json) -> Option<bool> {
    match j {
        Json::Bool(b) => Some(b),
        _ => None,
    }
}

impl Json {
    /// The member `key` (`value[key]`): `Null` when absent or not an object.
    pub fn get(&self, key: &str) -> (r: &Json)
        ensures
            *r == member(*self, key@),
    {
        match self {
            Json::Object(m) => {
                let want = crate::text::chars_of(key);
                let mut i: usize = 0;
                assert(m@.skip(0) =~= m@);
                while i < m.len()
                    invariant
                        i <= m@.len(),
                        want@ == key@,
                        member(*self, key@) == member_of(m@, key@),
                        member_of(m@, key@) == member_of(m@.skip(i as int), key@),
                    decreases m@.len() - i,
                {
                    assert(m@.skip(i as int)[0] == m@[i as int]);
                    let have = crate::text::chars_of(m[i].0.as_str());
                    if crate::text::chars_eq(&have, &want) {
                        assert(m@.skip(i as int)[0].0@ == key@);
                        return &m[i].1;
                    }
                    assert(m@.skip(i as int).drop_first() =~= m@.skip(i + 1));
                    i += 1;
                }
                &JSON_NULL
            },
            _ => &JSON_NULL,
        }
    }

    /// Element `i` (`value[i]`): `Null` out of range or for a non-array.
    pub fn at(&self, i: usize) -> (r: &Json)
        ensures
            *r == element(*self, i as int),
    {
        match self {
            Json::Array(a) => if i < a.len() {
                &a[i]
            } else {
                &JSON_NULL
            },
            _ => &JSON_NULL,
        }
    }

    /// `value.as_str()`.
    pub fn str_value(&self) -> (r: Option<&str>)
        ensures
            match r {
                Some(s) => as_str(*self) == Some(s@),
                None => as_str(*self) is None,
            },
    {
        match self {
            Json::Str(s) => Some(s.as_str()),
            _ => None,
        }
    }

    /// `value.as_u64()`.
    pub fn u64_value(&self) -> (r: Option<u64>)
        ensures
            r == as_u64(*self),
    {
        match self {
            Json::UInt(u) => Some(*u),
            _ => None,
        }
    }

    /// `value.as_bool()`.
    pub fn bool_value(&self) -> (r: Option<bool>)
        ensures
            r == as_bool(*self),
    {
        match self {
            Json::Bool(b) => Some(*b),
            _ => None,
        }
    }

    /// `value.is_null()`.
    pub fn is_null(&self) -> (r: bool)
        ensures
            r == (*self is Null),
    {
        match self {
            Json::Null => true,
            _ => false,
        }
    }
}

/// The shared `Null` that missing members read as.
pub const JSON_NULL: Json = Json::Null;

/// An alphabet character: printable ASCII other than `=`, so neither
/// whitespace nor a newline.
pub proof fn lemma_b64_char(i: int)
    requires
        0 <= i < 64,
    ensures
        43 <= b64_char(i) as int <= 122,
        b64_char(i) != '=',
        !is_ws(b64_char(i)),
{
}

/// Base64 text is four characters per started group of three bytes, each
/// an alphabet character or `=`; none is whitespace.
pub proof fn lemma_base64_shape(b: Seq<u8>)
    ensures
        base64_of(b).len() == 4 * ((b.len() + 2) / 3),
        forall|k: int| 0 <= k < base64_of(b).len() ==> !is_ws(#[trigger] base64_of(b)[k]),
    decreases b.len(),
{
    let out = base64_of(b);
    if b.len() == 0 {
    } else if b.len() <= 2 {
        let x = b[0] as int;
        lemma_b64_char(x / 4);
        if b.len() == 1 {
            lemma_b64_char((x % 4) * 16);
        } else {
            let y = b[1] as int;
            lemma_b64_char((x % 4) * 16 + y / 16);
            lemma_b64_char((y % 16) * 4);
        }
    } else {
        let x = b[0] as int;
        let y = b[1] as int;
        let z = b[2] as int;
        lemma_b64_char(x / 4);
        lemma_b64_char((x % 4) * 16 + y / 16);
        lemma_b64_char((y % 16) * 4 + z / 64);
        lemma_b64_char(z % 64);
        lemma_base64_shape(b.skip(3));
        let rest = base64_of(b.skip(3));
        assert forall|k: int| 0 <= k < out.len() implies !is_ws(#[trigger] out[k]) by {
            if k >= 4 {
                assert(out[k] == rest[k - 4]);
            }
        }
    }
}

} // verus!
