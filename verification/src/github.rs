//! Reading GitHub's answers: HTTP failures mapped to the forge errors the
//! UI explains, JSON bodies unwrapped (GraphQL's per-field errors
//! included), and the small REST answers reshaped. Sending the requests is
//! the host's part; everything decided about what came back is here.

use vstd::prelude::*;

use crate::codec::{as_str, as_u64, json_error_text, json_parse, member, parse_json, Json};
use crate::error::{error_message, ForgeError};
use crate::pr::{parse_rest_pr, rest_pr_spec, PrState, PrSummary};
use crate::submit::{join_sep, join_strings, str_views};
use crate::text::{
    chars_of, contains, contains_chars, dec, decimal, owned, push_all, push_str, slice_chars,
    string_of, trim, trim_chars,
};

verus! {

// ---------------------------------------------------------------------
// Error bodies
// ---------------------------------------------------------------------

/// `str::to_lowercase`: the Unicode lower case of every character.
pub uninterp spec fn lowercase(s: Seq<char>) -> Seq<char>;

/// `str::to_lowercase`.
#[verifier::external_body]
fn to_lowercase(s: &str) -> (r: String)
    ensures
        r@ == lowercase(s@),
{
    s.to_lowercase()
}

/// How many bytes a character takes in UTF-8.
pub open spec fn utf8_width(c: char) -> nat {
    if (c as u32) < 0x80 {
        1
    } else if (c as u32) < 0x800 {
        2
    } else if (c as u32) < 0x10000 {
        3
    } else {
        4
    }
}

/// The UTF-8 length of a text, in bytes.
pub open spec fn utf8_len(s: Seq<char>) -> nat
    decreases s.len(),
{
    if s.len() == 0 {
        0
    } else {
        utf8_width(s[0]) + utf8_len(s.drop_first())
    }
}

/// How many leading characters fit in `budget` bytes of UTF-8.
pub open spec fn fitting(s: Seq<char>, budget: int) -> nat
    decreases s.len(),
{
    if s.len() == 0 || utf8_width(s[0]) > budget {
        0
    } else {
        1 + fitting(s.drop_first(), budget - utf8_width(s[0]))
    }
}

/// A message kept under 300 bytes: a longer one is cut at the last
/// character boundary within 300 bytes and marked with an ellipsis.
pub open spec fn bounded_message(m: Seq<char>) -> Seq<char> {
    if utf8_len(m) > 300 {
        m.take(fitting(m, 300) as int).push('…')
    } else {
        m
    }
}

/// An error body's `message` field when it is a JSON object carrying one,
/// else the trimmed raw body.
pub open spec fn body_message(body: Seq<char>) -> Seq<char> {
    let from_json = match json_parse(vstd::utf8::encode_utf8(body)) {
        Some(v) => as_str(member(v, "message"@)),
        None => None,
    };
    match from_json {
        Some(t) => t,
        None => trim(body),
    }
}

/// What an error body says, as a forge error carries it.
pub open spec fn api_message_spec(body: Seq<char>) -> Seq<char> {
    let t = body_message(body);
    bounded_message(
        if t.len() == 0 {
            "(empty answer)"@
        } else {
            t
        },
    )
}

/// UTF-8 width of one character.
fn width_of(c: char) -> (w: u64)
    ensures
        w == utf8_width(c),
        1 <= w <= 4,
{
    let u = c as u32;
    if u < 0x80 {
        1
    } else if u < 0x800 {
        2
    } else if u < 0x10000 {
        3
    } else {
        4
    }
}

/// `bounded_message`, executed.
fn bound_message(m: Vec<char>) -> (r: Vec<char>)
    ensures
        r@ == bounded_message(m@),
{
    let mut used: u64 = 0;
    let mut i: usize = 0;
    assert(m@.skip(0) =~= m@);
    while i < m.len()
        invariant
            i <= m@.len(),
            used <= 300,
            used + utf8_len(m@.skip(i as int)) == utf8_len(m@),
            fitting(m@, 300) == i + fitting(m@.skip(i as int), 300 - used),
        decreases m@.len() - i,
    {
        let w = width_of(m[i]);
        proof {
            let rest = m@.skip(i as int);
            assert(rest[0] == m@[i as int]);
            assert(rest.drop_first() =~= m@.skip(i + 1));
        }
        if used + w > 300 {
            let mut out = slice_chars(m.as_slice(), 0, i);
            out.push('…');
            assert(m@.subrange(0, i as int) =~= m@.take(i as int));
            return out;
        }
        used += w;
        i += 1;
    }
    m
}

/// GitHub error bodies carry a `message` field; fall back to the raw
/// body, and keep the result under 300 bytes.
pub fn api_message(body: &str) -> (r: String)
    ensures
        r@ == api_message_spec(body@),
{
    let parsed = parse_json(body.as_bytes());
    let from_json: Option<String> = match &parsed {
        Ok(v) => match v.get("message").str_value() {
            Some(t) => Some(owned(t)),
            None => None,
        },
        Err(_) => None,
    };
    let text: Vec<char> = match from_json {
        Some(t) => chars_of(t.as_str()),
        None => trim_chars(&chars_of(body)),
    };
    let message = if text.len() == 0 {
        chars_of("(empty answer)")
    } else {
        text
    };
    string_of(&bound_message(message))
}

/// Whether a status code is a success (2xx).
pub open spec fn is_success(status: u16) -> bool {
    200 <= status < 300
}

/// The forge error an HTTP failure status with this message maps to:
/// 401 is an auth failure; 403 or 429 naming a rate limit is one; any
/// other 403 (missing scopes, SSO, org policy) is an access problem; 404
/// is not found; the rest are API failures naming the status.
pub open spec fn http_failure_is(e: ForgeError, status: u16, m: Seq<char>) -> bool {
    if status == 401 {
        e matches ForgeError::AuthFailed(x) && x@ == m
    } else if (status == 403 || status == 429) && contains(lowercase(m), "rate limit"@) {
        e matches ForgeError::RateLimited(x) && x@ == m
    } else if status == 403 {
        e matches ForgeError::AuthFailed(x) && x@ == m
    } else if status == 404 {
        e matches ForgeError::NotFound(x) && x@ == m
    } else {
        e matches ForgeError::Api(x) && x@ == "HTTP "@ + dec(status as nat) + ": "@ + m
    }
}

/// Map an HTTP failure status and its body to the forge error the UI
/// should explain.
pub fn classify_http_failure(status: u16, body: &str) -> (r: ForgeError)
    ensures
        http_failure_is(r, status, api_message_spec(body@)),
{
    let message = api_message(body);
    if status == 401 {
        return ForgeError::AuthFailed(message);
    }
    if status == 403 || status == 429 {
        let lowered = to_lowercase(message.as_str());
        if contains_chars(&chars_of(lowered.as_str()), &chars_of("rate limit")) {
            return ForgeError::RateLimited(message);
        }
    }
    if status == 403 {
        ForgeError::AuthFailed(message)
    } else if status == 404 {
        ForgeError::NotFound(message)
    } else {
        let mut v = chars_of("HTTP ");
        push_all(&mut v, &decimal(status as u64));
        push_str(&mut v, ": ");
        push_str(&mut v, message.as_str());
        ForgeError::Api(string_of(&v))
    }
}

// ---------------------------------------------------------------------
// GraphQL errors
// ---------------------------------------------------------------------

/// The `errors` list of a GraphQL answer (empty when absent).
pub open spec fn gql_errors(body: Json) -> Seq<Json> {
    match member(body, "errors"@) {
        Json::Array(a) => a@,
        _ => Seq::empty(),
    }
}

/// The errors' string `message` fields, in order.
pub open spec fn gql_messages(errs: Seq<Json>) -> Seq<Seq<char>>
    decreases errs.len(),
{
    if errs.len() == 0 {
        Seq::empty()
    } else {
        match as_str(member(errs.last(), "message"@)) {
            Some(m) => gql_messages(errs.drop_last()).push(m),
            None => gql_messages(errs.drop_last()),
        }
    }
}

/// The errors' messages joined with "; ".
pub open spec fn gql_joined(errs: Seq<Json>) -> Seq<char> {
    let ms = gql_messages(errs);
    if ms.len() == 0 {
        "unspecified GraphQL error"@
    } else {
        join_sep(ms, "; "@)
    }
}

/// Some error carries this `type`.
pub open spec fn has_error_type(errs: Seq<Json>, t: Seq<char>) -> bool {
    exists|i: int| 0 <= i < errs.len() && #[trigger] as_str(member(errs[i], "type"@)) == Some(t)
}

/// What a GraphQL answer's errors amount to: nothing without errors;
/// otherwise `NOT_FOUND` before `RATE_LIMITED` before a plain API failure,
/// all carrying the joined messages.
pub open spec fn graphql_failure_is(r: Option<ForgeError>, body: Json) -> bool {
    let errs = gql_errors(body);
    let m = gql_joined(errs);
    if errs.len() == 0 {
        r is None
    } else if has_error_type(errs, "NOT_FOUND"@) {
        r matches Some(ForgeError::NotFound(x)) && x@ == m
    } else if has_error_type(errs, "RATE_LIMITED"@) {
        r matches Some(ForgeError::RateLimited(x)) && x@ == m
    } else {
        r matches Some(ForgeError::Api(x)) && x@ == m
    }
}

/// Whether a JSON value is the string `lit`.
fn is_str(j: &Json, lit: &str) -> (r: bool)
    ensures
        r == (as_str(*j) == Some(lit@)),
{
    match j.str_value() {
        Some(s) => crate::text::str_eq(s, lit),
        None => false,
    }
}

/// A 200 GraphQL answer can still fail per field; surface those errors
/// like their HTTP equivalents. `NOT_FOUND` is the visibility case (bad
/// owner or name, or a token without access).
pub fn graphql_failure(body: &Json) -> (r: Option<ForgeError>)
    ensures
        graphql_failure_is(r, *body),
{
    let errs = match body.get("errors") {
        Json::Array(a) => a,
        _ => return None,
    };
    if errs.len() == 0 {
        return None;
    }
    let mut messages: Vec<String> = Vec::new();
    let mut not_found = false;
    let mut limited = false;
    let mut i: usize = 0;
    while i < errs.len()
        invariant
            i <= errs@.len(),
            gql_errors(*body) == errs@,
            str_views(messages@) == gql_messages(errs@.take(i as int)),
            not_found == has_error_type(errs@.take(i as int), "NOT_FOUND"@),
            limited == has_error_type(errs@.take(i as int), "RATE_LIMITED"@),
        decreases errs@.len() - i,
    {
        let e = &errs[i];
        let ghost t = errs@.take(i + 1);
        proof {
            assert(t.drop_last() =~= errs@.take(i as int));
            assert(t.last() == errs@[i as int]);
        }
        match e.get("message").str_value() {
            Some(m) => {
                messages.push(owned(m));
                assert(str_views(messages@) =~= gql_messages(t));
            },
            None => {},
        }
        let ty = e.get("type");
        let nf = is_str(ty, "NOT_FOUND");
        let rl = is_str(ty, "RATE_LIMITED");
        proof {
            let p = errs@.take(i as int);
            if nf {
                assert(t[i as int] == errs@[i as int]);
            }
            if rl {
                assert(t[i as int] == errs@[i as int]);
            }
            if not_found {
                let k = choose|k: int| 0 <= k < p.len() && #[trigger] as_str(member(p[k], "type"@)) == Some("NOT_FOUND"@);
                assert(t[k] == p[k]);
            }
            if limited {
                let k = choose|k: int| 0 <= k < p.len() && #[trigger] as_str(member(p[k], "type"@)) == Some("RATE_LIMITED"@);
                assert(t[k] == p[k]);
            }
            if has_error_type(t, "NOT_FOUND"@) && !nf {
                let k = choose|k: int| 0 <= k < t.len() && #[trigger] as_str(member(t[k], "type"@)) == Some("NOT_FOUND"@);
                assert(k < i);
                assert(p[k] == t[k]);
            }
            if has_error_type(t, "RATE_LIMITED"@) && !rl {
                let k = choose|k: int| 0 <= k < t.len() && #[trigger] as_str(member(t[k], "type"@)) == Some("RATE_LIMITED"@);
                assert(k < i);
                assert(p[k] == t[k]);
            }
        }
        not_found = not_found || nf;
        limited = limited || rl;
        i += 1;
    }
    assert(errs@.take(errs@.len() as int) =~= errs@);
    let joined = if messages.len() == 0 {
        owned("unspecified GraphQL error")
    } else {
        join_strings(&messages, "; ")
    };
    if not_found {
        Some(ForgeError::NotFound(joined))
    } else if limited {
        Some(ForgeError::RateLimited(joined))
    } else {
        Some(ForgeError::Api(joined))
    }
}


// ---------------------------------------------------------------------
// Answers
// ---------------------------------------------------------------------

/// What a REST answer reads as: a failure status is the mapped error; a
/// blank body (some write endpoints answer 201/204 with nothing) is
/// `Null`; otherwise the JSON document, or an API failure naming the
/// request when it does not parse.
pub open spec fn rest_answer_is(
    r: Result<Json, ForgeError>,
    method: Seq<char>,
    path: Seq<char>,
    status: u16,
    text: Seq<char>,
) -> bool {
    let bytes = vstd::utf8::encode_utf8(text);
    if !is_success(status) {
        r matches Err(e) && http_failure_is(e, status, api_message_spec(text))
    } else if trim(text).len() == 0 {
        r == Ok::<Json, ForgeError>(Json::Null)
    } else {
        match json_parse(bytes) {
            Some(j) => r == Ok::<Json, ForgeError>(j),
            None => r matches Err(ForgeError::Api(x)) && x@ == method + " "@ + path + " answered malformed JSON: "@
                + json_error_text(bytes),
        }
    }
}

/// Read a REST answer: its status and body text.
pub fn read_answer(method: &str, path: &str, status: u16, text: &str) -> (r: Result<Json, ForgeError>)
    ensures
        rest_answer_is(r, method@, path@, status, text@),
{
    if !(200 <= status && status < 300) {
        return Err(classify_http_failure(status, text));
    }
    if trim_chars(&chars_of(text)).len() == 0 {
        return Ok(Json::Null);
    }
    match parse_json(text.as_bytes()) {
        Ok(j) => Ok(j),
        Err(err) => {
            let mut v = chars_of(method);
            push_str(&mut v, " ");
            push_str(&mut v, path);
            push_str(&mut v, " answered malformed JSON: ");
            push_str(&mut v, err.as_str());
            Err(ForgeError::Api(string_of(&v)))
        },
    }
}

/// The member `key` of a document, moved out (`Null` when absent).
fn take_member(j: Json, key: &str) -> (r: Json)
    ensures
        r == member(j, key@),
{
    match j {
        Json::Object(m) => {
            let want = chars_of(key);
            let mut m = m;
            let ghost orig = m@;
            let mut i: usize = 0;
            assert(m@.skip(0) =~= m@);
            while i < m.len()
                invariant
                    i <= m@.len(),
                    m@ == orig,
                    want@ == key@,
                    member(j, key@) == crate::codec::member_of(orig, key@),
                    crate::codec::member_of(orig, key@) == crate::codec::member_of(orig.skip(i as int), key@),
                decreases m@.len() - i,
            {
                assert(orig.skip(i as int)[0] == orig[i as int]);
                let have = chars_of(m[i].0.as_str());
                if crate::text::chars_eq(&have, &want) {
                    let pair = m.remove(i);
                    return pair.1;
                }
                assert(orig.skip(i as int).drop_first() =~= orig.skip(i + 1));
                i += 1;
            }
            Json::Null
        },
        _ => Json::Null,
    }
}

/// What a GraphQL answer reads as: a failure status is the mapped error;
/// an unparsable body an API failure; per-field errors their forge error;
/// otherwise the `data` member.
pub open spec fn graphql_answer_is(r: Result<Json, ForgeError>, status: u16, text: Seq<char>) -> bool {
    let bytes = vstd::utf8::encode_utf8(text);
    if !is_success(status) {
        r matches Err(e) && http_failure_is(e, status, api_message_spec(text))
    } else {
        match json_parse(bytes) {
            None => r matches Err(ForgeError::Api(x)) && x@ == "GraphQL answered malformed JSON: "@
                + json_error_text(bytes),
            Some(body) => if gql_errors(body).len() == 0 {
                r == Ok::<Json, ForgeError>(member(body, "data"@))
            } else {
                r matches Err(e) && graphql_failure_is(Some(e), body)
            },
        }
    }
}

/// Read a GraphQL answer and unwrap its `data` object; GraphQL-level
/// errors map to the same forge errors HTTP failures do.
pub fn graphql_answer(status: u16, text: &str) -> (r: Result<Json, ForgeError>)
    ensures
        graphql_answer_is(r, status, text@),
{
    if !(200 <= status && status < 300) {
        return Err(classify_http_failure(status, text));
    }
    let body = match parse_json(text.as_bytes()) {
        Ok(j) => j,
        Err(err) => {
            let mut v = chars_of("GraphQL answered malformed JSON: ");
            push_str(&mut v, err.as_str());
            return Err(ForgeError::Api(string_of(&v)));
        },
    };
    match graphql_failure(&body) {
        Some(e) => Err(e),
        None => Ok(take_member(body, "data")),
    }
}

/// The login the token authenticates as, from `GET /user`.
pub fn parse_viewer(body: &Json) -> (r: Result<String, ForgeError>)
    ensures
        match as_str(member(*body, "login"@)) {
            Some(l) => r matches Ok(s) && s@ == l,
            None => r matches Err(ForgeError::Api(x)) && x@ == "user answer carried no login"@,
        },
{
    match body.get("login").str_value() {
        Some(l) => Ok(owned(l)),
        None => Err(ForgeError::Api(owned("user answer carried no login"))),
    }
}

/// The comments of a list answer as (id, body): entries without a numeric
/// id are skipped; a missing body reads as empty.
pub open spec fn comments_of(a: Seq<Json>) -> Seq<(u64, Seq<char>)>
    decreases a.len(),
{
    if a.len() == 0 {
        Seq::empty()
    } else {
        match as_u64(member(a.last(), "id"@)) {
            Some(id) => comments_of(a.drop_last()).push(
                (
                    id,
                    match as_str(member(a.last(), "body"@)) {
                        Some(b) => b,
                        None => Seq::empty(),
                    },
                ),
            ),
            None => comments_of(a.drop_last()),
        }
    }
}

/// (id, body) pairs as plain values.
pub open spec fn comment_views(v: Seq<(u64, String)>) -> Seq<(u64, Seq<char>)> {
    v.map_values(|p: (u64, String)| (p.0, p.1@))
}

/// A PR's issue comments from `GET /issues/{n}/comments`.
pub fn parse_comments(answer: &Json) -> (r: Result<Vec<(u64, String)>, ForgeError>)
    ensures
        match *answer {
            Json::Array(a) => r matches Ok(v) && comment_views(v@) == comments_of(a@),
            _ => r matches Err(ForgeError::Api(x)) && x@ == "comments answer was not a list"@,
        },
{
    let a = match answer {
        Json::Array(a) => a,
        _ => return Err(ForgeError::Api(owned("comments answer was not a list"))),
    };
    let mut out: Vec<(u64, String)> = Vec::new();
    let mut i: usize = 0;
    while i < a.len()
        invariant
            i <= a@.len(),
            *answer == Json::Array(*a),
            comment_views(out@) == comments_of(a@.take(i as int)),
        decreases a@.len() - i,
    {
        let ghost t = a@.take(i + 1);
        proof {
            assert(t.drop_last() =~= a@.take(i as int));
            assert(t.last() == a@[i as int]);
        }
        let c = &a[i];
        match c.get("id").u64_value() {
            Some(id) => {
                let body = match c.get("body").str_value() {
                    Some(b) => owned(b),
                    None => {
                        let e = owned("");
                        proof {
                            reveal_strlit("");
                            assert(e@ =~= Seq::<char>::empty());
                        }
                        e
                    },
                };
                let ghost before = out@;
                let ghost bv = body@;
                out.push((id, body));
                proof {
                    assert(comment_views(out@) =~= comment_views(before).push((id, bv)));
                }
                assert(comment_views(out@) =~= comments_of(t));
            },
            None => {},
        }
        i += 1;
    }
    assert(a@.take(a@.len() as int) =~= a@);
    Ok(out)
}

/// The first merged PR of a closed-PR list, newest first; a malformed
/// entry before it is refused.
pub open spec fn first_merged_spec(a: Seq<Json>) -> Result<Option<PrSummary>, Seq<char>>
    decreases a.len(),
{
    if a.len() == 0 {
        Ok(None)
    } else {
        match rest_pr_spec(a[0]) {
            Err(m) => Err(m),
            Ok(pr) => if pr.state == PrState::Merged {
                Ok(Some(pr))
            } else {
                first_merged_spec(a.drop_first())
            },
        }
    }
}

/// The merged PR a branch once headed, from the closed-PR list filtered by
/// head `owner:branch`; `None` when the branch never merged one.
pub fn first_merged_pr(answer: &Json) -> (r: Result<Option<PrSummary>, ForgeError>)
    ensures
        match *answer {
            Json::Array(a) => match r {
                Ok(o) => first_merged_spec(a@) == Ok::<Option<PrSummary>, Seq<char>>(o),
                Err(e) => first_merged_spec(a@) == Err::<Option<PrSummary>, Seq<char>>(error_message(e)),
            },
            _ => r matches Err(ForgeError::Api(x)) && x@ == "closed-PR answer was not a list"@,
        },
{
    let a = match answer {
        Json::Array(a) => a,
        _ => return Err(ForgeError::Api(owned("closed-PR answer was not a list"))),
    };
    let mut i: usize = 0;
    assert(a@.skip(0) =~= a@);
    while i < a.len()
        invariant
            i <= a@.len(),
            *answer == Json::Array(*a),
            first_merged_spec(a@) == first_merged_spec(a@.skip(i as int)),
        decreases a@.len() - i,
    {
        proof {
            assert(a@.skip(i as int)[0] == a@[i as int]);
            assert(a@.skip(i as int).drop_first() =~= a@.skip(i + 1));
        }
        match parse_rest_pr(&a[i]) {
            Err(e) => return Err(e),
            Ok(pr) => {
                if pr.state == PrState::Merged {
                    return Ok(Some(pr));
                }
            },
        }
        i += 1;
    }
    Ok(None)
}


// ---------------------------------------------------------------------
// Query strings
// ---------------------------------------------------------------------

/// Bytes the form-urlencoded serializer leaves as they are: ASCII
/// letters, digits and `*-._`.
pub open spec fn form_unchanged(b: u8) -> bool {
    b == 42 || b == 45 || b == 46 || (48 <= b <= 57) || (65 <= b <= 90) || b == 95 || (97 <= b <= 122)
}

/// An upper-case hexadecimal digit.
pub open spec fn hex_upper(d: int) -> char {
    if d < 10 {
        ((d + 48) as u32) as char
    } else {
        ((d + 55) as u32) as char
    }
}

/// One byte, form-urlencoded: unchanged, a space as `+`, anything else
/// as `%XX`.
pub open spec fn form_byte(b: u8) -> Seq<char> {
    if form_unchanged(b) {
        seq![(b as u32) as char]
    } else if b == 32 {
        seq!['+']
    } else {
        seq!['%', hex_upper(b as int / 16), hex_upper(b as int % 16)]
    }
}

/// The `application/x-www-form-urlencoded` byte serialization.
pub open spec fn form_encoded(bytes: Seq<u8>) -> Seq<char>
    decreases bytes.len(),
{
    if bytes.len() == 0 {
        Seq::empty()
    } else {
        form_encoded(bytes.drop_last()) + form_byte(bytes.last())
    }
}

/// `url::form_urlencoded::byte_serialize` of a text's UTF-8 bytes,
/// collected: letters, digits and `*-._` pass, a space becomes `+`, every
/// other byte `%XX` with upper-case hex (as the crate's source does it).
#[verifier::external_body]
fn form_urlencode(s: &str) -> (r: String)
    ensures
        r@ == form_encoded(vstd::utf8::encode_utf8(s@)),
{
    url::form_urlencoded::byte_serialize(s.as_bytes()).collect()
}

/// The workflow-runs request for one commit, newest first.
pub open spec fn workflow_runs_path_spec(owner: Seq<char>, name: Seq<char>, head_sha: Seq<char>) -> Seq<char> {
    "repos/"@ + owner + "/"@ + name + "/actions/runs?head_sha="@ + form_encoded(vstd::utf8::encode_utf8(head_sha))
        + "&per_page=100"@
}

/// `GET repos/{owner}/{name}/actions/runs?head_sha=…&per_page=100`.
pub fn workflow_runs_path(owner: &str, name: &str, head_sha: &str) -> (r: String)
    ensures
        r@ == workflow_runs_path_spec(owner@, name@, head_sha@),
{
    let sha = form_urlencode(head_sha);
    let mut v = chars_of("repos/");
    push_str(&mut v, owner);
    push_str(&mut v, "/");
    push_str(&mut v, name);
    push_str(&mut v, "/actions/runs?head_sha=");
    push_str(&mut v, sha.as_str());
    push_str(&mut v, "&per_page=100");
    string_of(&v)
}

/// The closed-PR request for a branch: filtered by head `owner:branch`,
/// which scopes to this repo's own branches.
pub open spec fn closed_prs_path_spec(owner: Seq<char>, name: Seq<char>, branch: Seq<char>) -> Seq<char> {
    "repos/"@ + owner + "/"@ + name + "/pulls?head="@ + form_encoded(
        vstd::utf8::encode_utf8(owner + ":"@ + branch),
    ) + "&state=closed&per_page=30"@
}

/// `GET repos/{owner}/{name}/pulls?head={owner}:{branch}&state=closed&per_page=30`.
pub fn closed_prs_path(owner: &str, name: &str, branch: &str) -> (r: String)
    ensures
        r@ == closed_prs_path_spec(owner@, name@, branch@),
{
    let mut h = chars_of(owner);
    push_str(&mut h, ":");
    push_str(&mut h, branch);
    let head_text = string_of(&h);
    let head = form_urlencode(head_text.as_str());
    let mut v = chars_of("repos/");
    push_str(&mut v, owner);
    push_str(&mut v, "/");
    push_str(&mut v, name);
    push_str(&mut v, "/pulls?head=");
    push_str(&mut v, head.as_str());
    push_str(&mut v, "&state=closed&per_page=30");
    string_of(&v)
}

/// The REST path of repository `owner/name`.
pub open spec fn repo_path_spec(owner: Seq<char>, name: Seq<char>) -> Seq<char> {
    "repos/"@ + owner + "/"@ + name
}

/// `repos/{owner}/{name}` followed by `mid`, a number and `tail`.
fn numbered_path(owner: &str, name: &str, mid: &str, n: u64, tail: &str) -> (r: String)
    ensures
        r@ == repo_path_spec(owner@, name@) + mid@ + dec(n as nat) + tail@,
{
    let mut v = chars_of("repos/");
    push_str(&mut v, owner);
    push_str(&mut v, "/");
    push_str(&mut v, name);
    push_str(&mut v, mid);
    let d = decimal(n);
    push_all(&mut v, d.as_slice());
    push_str(&mut v, tail);
    string_of(&v)
}

/// `POST repos/{owner}/{name}/pulls`: open a PR.
pub fn pulls_path(owner: &str, name: &str) -> (r: String)
    ensures
        r@ == repo_path_spec(owner@, name@) + "/pulls"@,
{
    let mut v = chars_of("repos/");
    push_str(&mut v, owner);
    push_str(&mut v, "/");
    push_str(&mut v, name);
    push_str(&mut v, "/pulls");
    string_of(&v)
}

/// `repos/{owner}/{name}/pulls/{number}`: one PR, to read or edit.
pub fn pull_path(owner: &str, name: &str, number: u64) -> (r: String)
    ensures
        r@ == repo_path_spec(owner@, name@) + "/pulls/"@ + dec(number as nat),
{
    let r = numbered_path(owner, name, "/pulls/", number, "");
    proof {
        reveal_strlit("");
    }
    assert(r@ =~= repo_path_spec(owner@, name@) + "/pulls/"@ + dec(number as nat));
    r
}

/// `PUT repos/{owner}/{name}/pulls/{number}/merge`.
pub fn merge_path(owner: &str, name: &str, number: u64) -> (r: String)
    ensures
        r@ == repo_path_spec(owner@, name@) + "/pulls/"@ + dec(number as nat) + "/merge"@,
{
    numbered_path(owner, name, "/pulls/", number, "/merge")
}

/// `repos/{owner}/{name}/issues/{number}/comments`: a PR's comments.
pub fn comments_path(owner: &str, name: &str, number: u64) -> (r: String)
    ensures
        r@ == repo_path_spec(owner@, name@) + "/issues/"@ + dec(number as nat) + "/comments"@,
{
    numbered_path(owner, name, "/issues/", number, "/comments")
}

/// `PATCH repos/{owner}/{name}/issues/comments/{id}`: edit one comment.
pub fn comment_path(owner: &str, name: &str, id: u64) -> (r: String)
    ensures
        r@ == repo_path_spec(owner@, name@) + "/issues/comments/"@ + dec(id as nat),
{
    let r = numbered_path(owner, name, "/issues/comments/", id, "");
    proof {
        reveal_strlit("");
    }
    assert(r@ =~= repo_path_spec(owner@, name@) + "/issues/comments/"@ + dec(id as nat));
    r
}

/// `POST repos/{owner}/{name}/actions/runs/{run_id}/rerun-failed-jobs`.
pub fn rerun_path(owner: &str, name: &str, run_id: u64) -> (r: String)
    ensures
        r@ == repo_path_spec(owner@, name@) + "/actions/runs/"@ + dec(run_id as nat) + "/rerun-failed-jobs"@,
{
    numbered_path(owner, name, "/actions/runs/", run_id, "/rerun-failed-jobs")
}

} // verus!
