//! The stack-info comment: one Jiji-maintained comment per PR that
//! explains the whole stack to GitHub readers.
//!
//! A sentinel identifies the comment as Jiji's so re-submits edit it in
//! place, a machine-readable data line carries the stack so future runs
//! can keep listing PRs that have since left the local stack ("fossils" —
//! merged, closed, or reshaped away), and the visible part is a plain
//! numbered list, bottom-up in merge order, with the comment's own PR
//! bolded.

use vstd::prelude::*;

use crate::codec::{
    as_str, as_u64, base64_decode, base64_encode, base64_of, element, json_char, json_escaped, json_parse,
    json_plain, json_quote, json_text, json_texts, json_view, json_views, member, member_of, member_views,
    members_text, names_distinct, parse_json, plain_all, plain_members, quote_json, Json, JsonView,
};
use crate::text::{
    chars_eq, chars_of, contains, contains_chars, dec, decimal, find, is_ws, lemma_find_is, line_of, lines,
    lines_of, occurs_at, push_all, push_str, str_eq, string_of, strip_prefix, strip_prefix_chars,
    strip_suffix, strip_suffix_chars, trim, trim_chars, trim_end, trim_start,
};

verus! {

/// Identifies a Jiji stack comment; never change it, or every stack gets a
/// duplicate comment on its next submit.
pub const STACK_SENTINEL: &'static str = "<!-- jiji:stack-info -->";

/// Opens the machine-readable data line.
pub const DATA_PREFIX: &'static str = "<!-- jiji:stack-data ";

/// Closes the machine-readable data line.
pub const DATA_SUFFIX: &'static str = " -->";

/// The comment's closing note.
pub const FOOTER: &'static str = "*This comment is kept up to date by Jiji.*";

/// The machine-readable stack embedded in the comment.
#[derive(Debug, Clone, PartialEq, Eq)]
pub struct StackData {
    pub version: u32,
    pub stack: Vec<StackDataItem>,
}

#[derive(Debug, Clone, PartialEq, Eq)]
pub struct StackDataItem {
    pub bookmark: String,
    pub number: u64,
    pub url: String,
}

/// One live stack position for rendering: PRs being created in the same
/// submit have no number or URL yet and render as plain names.
#[derive(Debug, Clone, PartialEq, Eq)]
pub struct StackEntry {
    pub bookmark: String,
    pub number: Option<u64>,
    pub url: Option<String>,
}

/// Is this comment body Jiji's stack comment?
pub fn is_stack_comment(body: &str) -> (r: bool)
    ensures
        r == contains(body@, STACK_SENTINEL@),
{
    contains_chars(&chars_of(body), &chars_of(STACK_SENTINEL))
}

/// A live entry carries this bookmark.
pub open spec fn in_live(live: Seq<StackEntry>, bookmark: Seq<char>) -> bool {
    exists|i: int| 0 <= i < live.len() && #[trigger] live[i].bookmark@ == bookmark
}

/// The previous items whose bookmark left the live stack, in order.
pub open spec fn fossils_of(items: Seq<StackDataItem>, live: Seq<StackEntry>) -> Seq<StackDataItem>
    decreases items.len(),
{
    if items.len() == 0 {
        Seq::empty()
    } else {
        let p = fossils_of(items.drop_last(), live);
        if in_live(live, items.last().bookmark@) {
            p
        } else {
            p.push(items.last())
        }
    }
}

/// Whether a live entry carries `bookmark`.
fn live_has(live: &[StackEntry], bookmark: &str) -> (r: bool)
    ensures
        r == in_live(live@, bookmark@),
{
    let mut i: usize = 0;
    while i < live.len()
        invariant
            i <= live@.len(),
            forall|j: int| 0 <= j < i ==> #[trigger] live@[j].bookmark@ != bookmark@,
        decreases live@.len() - i,
    {
        if str_eq(live[i].bookmark.as_str(), bookmark) {
            return true;
        }
        i += 1;
    }
    false
}

/// Entries the previous comment knew that are no longer in the live stack:
/// their PRs merged, closed, or were reshaped away locally, but GitHub
/// readers still benefit from the historical links. Previous order is
/// preserved.
pub fn inherit_fossils(previous: Option<&StackData>, live: &[StackEntry]) -> (r: Vec<
    StackDataItem,
>)
    ensures
        r@ == match previous {
            Some(p) => fossils_of(p.stack@, live@),
            None => Seq::empty(),
        },
{
    let previous = match previous {
        Some(p) => p,
        None => return Vec::new(),
    };
    let mut out: Vec<StackDataItem> = Vec::new();
    let mut i: usize = 0;
    while i < previous.stack.len()
        invariant
            i <= previous.stack@.len(),
            out@ == fossils_of(previous.stack@.take(i as int), live@),
        decreases previous.stack@.len() - i,
    {
        let item = &previous.stack[i];
        proof {
            let t = previous.stack@.take(i + 1);
            assert(t.drop_last() =~= previous.stack@.take(i as int));
            assert(t.last() == previous.stack@[i as int]);
        }
        if !live_has(live, item.bookmark.as_str()) {
            out.push(item.duplicate());
        }
        i += 1;
    }
    assert(previous.stack@.take(previous.stack@.len() as int) =~= previous.stack@);
    out
}

impl StackDataItem {
    /// A field-for-field copy.
    pub fn duplicate(&self) -> (r: StackDataItem)
        ensures
            r == *self,
    {
        StackDataItem { bookmark: self.bookmark.clone(), number: self.number, url: self.url.clone() }
    }
}

impl StackEntry {
    /// A field-for-field copy.
    pub fn duplicate(&self) -> (r: StackEntry)
        ensures
            r == *self,
    {
        StackEntry {
            bookmark: self.bookmark.clone(),
            number: self.number,
            url: crate::pr::clone_opt_string(&self.url),
        }
    }
}

// ---------------------------------------------------------------------
// Rendering
// ---------------------------------------------------------------------

/// The live entries that already have a PR, as data items.
pub open spec fn live_items(live: Seq<StackEntry>) -> Seq<StackDataItem>
    decreases live.len(),
{
    if live.len() == 0 {
        Seq::empty()
    } else {
        let p = live_items(live.drop_last());
        let e = live.last();
        match (e.number, e.url) {
            (Some(n), Some(u)) => p.push(StackDataItem { bookmark: e.bookmark, number: n, url: u }),
            _ => p,
        }
    }
}

/// One data item as JSON, in the field order the data line uses.
pub open spec fn item_json(it: StackDataItem) -> Seq<char> {
    "{\"bookmark\":"@ + json_quote(it.bookmark@) + ",\"number\":"@ + dec(it.number as nat)
        + ",\"url\":"@ + json_quote(it.url@) + "}"@
}

/// Data items as a comma-separated JSON list body.
pub open spec fn items_json(items: Seq<StackDataItem>) -> Seq<char>
    decreases items.len(),
{
    if items.len() == 0 {
        Seq::empty()
    } else if items.len() == 1 {
        item_json(items[0])
    } else {
        items_json(items.drop_last()) + ","@ + item_json(items.last())
    }
}

/// The stack data as the compact JSON document the data line carries.
pub open spec fn stack_json(items: Seq<StackDataItem>) -> Seq<char> {
    "{\"version\":1,\"stack\":["@ + items_json(items) + "]}"@
}

/// The visible list line for one live entry.
pub open spec fn entry_line(e: StackEntry, current: Option<Seq<char>>) -> Seq<char> {
    if current == Some(e.bookmark@) {
        "1. **`"@ + e.bookmark@ + "` \u{2190} this PR**\n"@
    } else {
        match e.url {
            Some(u) => "1. [`"@ + e.bookmark@ + "`]("@ + u@ + ")\n"@,
            None => "1. `"@ + e.bookmark@ + "`\n"@,
        }
    }
}

/// The visible lines for the live entries.
pub open spec fn entry_lines(live: Seq<StackEntry>, current: Option<Seq<char>>) -> Seq<char>
    decreases live.len(),
{
    if live.len() == 0 {
        Seq::empty()
    } else {
        entry_lines(live.drop_last(), current) + entry_line(live.last(), current)
    }
}

/// The struck-through lines for the fossils.
pub open spec fn fossil_lines(fossils: Seq<StackDataItem>) -> Seq<char>
    decreases fossils.len(),
{
    if fossils.len() == 0 {
        Seq::empty()
    } else {
        fossil_lines(fossils.drop_last()) + "1. ~~[`"@ + fossils.last().bookmark@ + "`]("@
            + fossils.last().url@ + ")~~\n"@
    }
}

/// The whole comment body.
pub open spec fn render_spec(
    live: Seq<StackEntry>,
    fossils: Seq<StackDataItem>,
    current: Option<Seq<char>>,
) -> Seq<char> {
    let json = stack_json(live_items(live) + fossils);
    let encoded = base64_of(vstd::utf8::encode_utf8(json));
    STACK_SENTINEL@ + "\n"@ + DATA_PREFIX@ + encoded + DATA_SUFFIX@ + "\n"@
        + "This pull request is part of a stack, in merge order:\n\n"@ + entry_lines(live, current)
        + (if fossils.len() > 0 {
        "\nEarlier parts of the stack, no longer open:\n\n"@ + fossil_lines(fossils)
    } else {
        Seq::empty()
    }) + "\n---\n"@ + FOOTER@ + "\n"@
}

fn push_item_json(out: &mut Vec<char>, it: &StackDataItem)
    ensures
        final(out)@ == old(out)@ + item_json(*it),
{
    push_str(out, "{\"bookmark\":");
    push_str(out, quote_json(it.bookmark.as_str()).as_str());
    push_str(out, ",\"number\":");
    push_all(out, &decimal(it.number));
    push_str(out, ",\"url\":");
    push_str(out, quote_json(it.url.as_str()).as_str());
    push_str(out, "}");
}

fn stack_json_of(items: &Vec<StackDataItem>) -> (r: Vec<char>)
    ensures
        r@ == stack_json(items@),
{
    let mut body: Vec<char> = Vec::new();
    let mut i: usize = 0;
    while i < items.len()
        invariant
            i <= items@.len(),
            body@ == items_json(items@.take(i as int)),
        decreases items@.len() - i,
    {
        let ghost before = body@;
        if i > 0 {
            push_str(&mut body, ",");
        }
        push_item_json(&mut body, &items[i]);
        proof {
            let t = items@.take(i + 1);
            assert(t.drop_last() =~= items@.take(i as int));
            assert(t.last() == items@[i as int]);
            if i == 0 {
                assert(body@ =~= item_json(items@[0]));
            } else {
                assert(body@ =~= before + ","@ + item_json(items@[i as int]));
            }
        }
        i += 1;
    }
    assert(items@.take(items@.len() as int) =~= items@);
    let mut out: Vec<char> = chars_of("{\"version\":1,\"stack\":[");
    push_all(&mut out, &body);
    push_str(&mut out, "]}");
    out
}

fn push_entry_line(out: &mut Vec<char>, e: &StackEntry, current: Option<&str>)
    ensures
        final(out)@ == old(out)@ + entry_line(
            *e,
            match current {
                Some(c) => Some(c@),
                None => None,
            },
        ),
{
    let is_current = match current {
        Some(c) => str_eq(c, e.bookmark.as_str()),
        None => false,
    };
    if is_current {
        push_str(out, "1. **`");
        push_str(out, e.bookmark.as_str());
        push_str(out, "` \u{2190} this PR**\n");
    } else {
        match &e.url {
            Some(u) => {
                push_str(out, "1. [`");
                push_str(out, e.bookmark.as_str());
                push_str(out, "`](");
                push_str(out, u.as_str());
                push_str(out, ")\n");
            },
            None => {
                push_str(out, "1. `");
                push_str(out, e.bookmark.as_str());
                push_str(out, "`\n");
            },
        }
    }
}

/// Render the comment for one PR. `live` is bottom-up (merge order);
/// `current` names the bookmark whose PR this comment sits on (`None`
/// renders the neutral preview the plan panel shows). `fossils` render
/// struck-through under the live list.
pub fn render_stack_comment(
    live: &[StackEntry],
    fossils: &[StackDataItem],
    current: Option<&str>,
) -> (r: String)
    ensures
        r@ == render_spec(
            live@,
            fossils@,
            match current {
                Some(c) => Some(c@),
                None => None,
            },
        ),
{
    let ghost cur = match current {
        Some(c) => Some(c@),
        None => None,
    };
    let mut items: Vec<StackDataItem> = Vec::new();
    let mut i: usize = 0;
    while i < live.len()
        invariant
            i <= live@.len(),
            items@ == live_items(live@.take(i as int)),
        decreases live@.len() - i,
    {
        let e = &live[i];
        proof {
            let t = live@.take(i + 1);
            assert(t.drop_last() =~= live@.take(i as int));
            assert(t.last() == live@[i as int]);
        }
        match (e.number, &e.url) {
            (Some(n), Some(u)) => {
                items.push(StackDataItem { bookmark: e.bookmark.clone(), number: n, url: u.clone() });
            },
            _ => {},
        }
        i += 1;
    }
    assert(live@.take(live@.len() as int) =~= live@);
    let ghost live_part = items@;
    let mut j: usize = 0;
    while j < fossils.len()
        invariant
            j <= fossils@.len(),
            items@ == live_part + fossils@.take(j as int),
        decreases fossils@.len() - j,
    {
        items.push(fossils[j].duplicate());
        j += 1;
        assert(items@ =~= live_part + fossils@.take(j as int));
    }
    assert(fossils@.take(fossils@.len() as int) =~= fossils@);
    let json = string_of(&stack_json_of(&items));
    let encoded = base64_encode(json.as_str());

    let mut body: Vec<char> = chars_of(STACK_SENTINEL);
    push_str(&mut body, "\n");
    push_str(&mut body, DATA_PREFIX);
    push_str(&mut body, encoded.as_str());
    push_str(&mut body, DATA_SUFFIX);
    push_str(&mut body, "\n");
    push_str(&mut body, "This pull request is part of a stack, in merge order:\n\n");
    let ghost head = body@;
    let mut k: usize = 0;
    while k < live.len()
        invariant
            k <= live@.len(),
            body@ == head + entry_lines(live@.take(k as int), cur),
            cur == match current {
                Some(c) => Some(c@),
                None => None::<Seq<char>>,
            },
        decreases live@.len() - k,
    {
        push_entry_line(&mut body, &live[k], current);
        proof {
            let t = live@.take(k + 1);
            assert(t.drop_last() =~= live@.take(k as int));
            assert(t.last() == live@[k as int]);
            assert(body@ =~= head + entry_lines(live@.take(k + 1), cur));
        }
        k += 1;
    }
    assert(live@.take(live@.len() as int) =~= live@);
    let ghost mid = body@;
    if fossils.len() > 0 {
        push_str(&mut body, "\nEarlier parts of the stack, no longer open:\n\n");
        let ghost head2 = body@;
        let mut f: usize = 0;
        while f < fossils.len()
            invariant
                f <= fossils@.len(),
                body@ == head2 + fossil_lines(fossils@.take(f as int)),
            decreases fossils@.len() - f,
        {
            push_str(&mut body, "1. ~~[`");
            push_str(&mut body, fossils[f].bookmark.as_str());
            push_str(&mut body, "`](");
            push_str(&mut body, fossils[f].url.as_str());
            push_str(&mut body, ")~~\n");
            proof {
                let t = fossils@.take(f + 1);
                assert(t.drop_last() =~= fossils@.take(f as int));
                assert(t.last() == fossils@[f as int]);
                assert(body@ =~= head2 + fossil_lines(fossils@.take(f + 1)));
            }
            f += 1;
        }
        assert(fossils@.take(fossils@.len() as int) =~= fossils@);
    }
    push_str(&mut body, "\n---\n");
    push_str(&mut body, FOOTER);
    push_str(&mut body, "\n");
    proof {
        let fos = if fossils@.len() > 0 {
            "\nEarlier parts of the stack, no longer open:\n\n"@ + fossil_lines(fossils@)
        } else {
            Seq::<char>::empty()
        };
        assert(body@ =~= mid + fos + "\n---\n"@ + FOOTER@ + "\n"@);
        assert(body@ =~= render_spec(live@, fossils@, cur));
    }
    string_of(&body)
}

// ---------------------------------------------------------------------
// Parsing
// ---------------------------------------------------------------------

/// The encoded payload of a data line, when the (trimmed) line is one.
pub open spec fn data_payload(line: Seq<char>) -> Option<Seq<char>> {
    match strip_prefix(trim(line), DATA_PREFIX@) {
        Some(rest) => strip_suffix(rest, DATA_SUFFIX@),
        None => None,
    }
}

/// The payload of the first data line among `ls`.
pub open spec fn first_payload(ls: Seq<Seq<char>>) -> Option<Seq<char>>
    decreases ls.len(),
{
    if ls.len() == 0 {
        None
    } else {
        match data_payload(ls[0]) {
            Some(p) => Some(p),
            None => first_payload(ls.drop_first()),
        }
    }
}

/// A JSON value as one data item, the way a derived deserializer reads
/// it: an object with a string `bookmark`, a `u64` `number` and a string
/// `url`, other members ignored; or an array of exactly those three, in
/// that order.
pub open spec fn item_of(j: Json) -> Option<StackDataItem> {
    match j {
        Json::Object(_) => match (member(j, "bookmark"@), as_u64(member(j, "number"@)), member(j, "url"@)) {
            (Json::Str(b), Some(n), Json::Str(u)) => Some(StackDataItem { bookmark: b, number: n, url: u }),
            _ => None,
        },
        Json::Array(a) => if a@.len() == 3 {
            match (a@[0], as_u64(a@[1]), a@[2]) {
                (Json::Str(b), Some(n), Json::Str(u)) => Some(StackDataItem { bookmark: b, number: n, url: u }),
                _ => None,
            }
        } else {
            None
        },
        _ => None,
    }
}

/// Every element of a JSON array as a data item, or `None`.
pub open spec fn items_of(a: Seq<Json>) -> Option<Seq<StackDataItem>>
    decreases a.len(),
{
    if a.len() == 0 {
        Some(Seq::empty())
    } else {
        match (items_of(a.drop_last()), item_of(a.last())) {
            (Some(p), Some(it)) => Some(p.push(it)),
            _ => None,
        }
    }
}

/// The stack data of a `version` value and a `stack` value.
pub open spec fn stack_fields(version: Json, stack: Json) -> Option<(u32, Seq<StackDataItem>)> {
    match (as_u64(version), stack) {
        (Some(v), Json::Array(a)) => if v <= u32::MAX {
            match items_of(a@) {
                Some(items) => Some((v as u32, items)),
                None => None,
            }
        } else {
            None
        },
        _ => None,
    }
}

/// A JSON document as stack data, the way a derived deserializer reads
/// it: an object with a `u32` `version` and a `stack` array of items,
/// other members ignored; or an array of exactly those two, in that order.
pub open spec fn stack_data_of(j: Json) -> Option<(u32, Seq<StackDataItem>)> {
    match j {
        Json::Object(_) => stack_fields(member(j, "version"@), member(j, "stack"@)),
        Json::Array(a) => if a@.len() == 2 {
            stack_fields(a@[0], a@[1])
        } else {
            None
        },
        _ => None,
    }
}

/// What the embedded data of a comment body reads as.
pub open spec fn parse_stack_data_spec(body: Seq<char>) -> Option<(u32, Seq<StackDataItem>)> {
    match first_payload(lines(body)) {
        None => None,
        Some(p) => if exists|b: Seq<u8>| base64_of(b) == trim(p) {
            let b = choose|b: Seq<u8>| base64_of(b) == trim(p);
            match json_parse(b) {
                Some(j) => stack_data_of(j),
                None => None,
            }
        } else {
            None
        },
    }
}

fn item_fields(b: &Json, n: &Json, u: &Json) -> (r: Option<StackDataItem>)
    ensures
        r == match (*b, as_u64(*n), *u) {
            (Json::Str(b), Some(n), Json::Str(u)) => Some(StackDataItem { bookmark: b, number: n, url: u }),
            _ => None,
        },
{
    match (b, n.u64_value(), u) {
        (Json::Str(b), Some(n), Json::Str(u)) => Some(
            StackDataItem { bookmark: b.clone(), number: n, url: u.clone() },
        ),
        _ => None,
    }
}

fn item_from(j: &Json) -> (r: Option<StackDataItem>)
    ensures
        r == item_of(*j),
{
    match j {
        Json::Object(_) => item_fields(j.get("bookmark"), j.get("number"), j.get("url")),
        Json::Array(a) => if a.len() == 3 {
            item_fields(&a[0], &a[1], &a[2])
        } else {
            None
        },
        _ => None,
    }
}

fn stack_fields_from(version: &Json, stack: &Json) -> (r: Option<StackData>)
    ensures
        match r {
            Some(d) => stack_fields(*version, *stack) == Some((d.version, d.stack@)),
            None => stack_fields(*version, *stack) is None,
        },
{
    let v = match version.u64_value() {
        Some(v) => v,
        None => return None,
    };
    let a = match stack {
        Json::Array(a) => a,
        _ => return None,
    };
    if v > 4294967295 {
        return None;
    }
    let mut items: Vec<StackDataItem> = Vec::new();
    let mut i: usize = 0;
    while i < a.len()
        invariant
            i <= a@.len(),
            items_of(a@.take(i as int)) == Some(items@),
            *stack == Json::Array(*a),
            as_u64(*version) == Some(v),
            v <= u32::MAX,
        decreases a@.len() - i,
    {
        proof {
            let t = a@.take(i + 1);
            assert(t.drop_last() =~= a@.take(i as int));
            assert(t.last() == a@[i as int]);
        }
        match item_from(&a[i]) {
            Some(it) => items.push(it),
            None => {
                proof {
                    lemma_items_of_prefix(a@, i + 1);
                }
                return None;
            },
        }
        i += 1;
    }
    assert(a@.take(a@.len() as int) =~= a@);
    Some(StackData { version: v as u32, stack: items })
}

fn stack_data_from(j: &Json) -> (r: Option<StackData>)
    ensures
        match r {
            Some(d) => stack_data_of(*j) == Some((d.version, d.stack@)),
            None => stack_data_of(*j) is None,
        },
{
    match j {
        Json::Object(_) => stack_fields_from(j.get("version"), j.get("stack")),
        Json::Array(a) => if a.len() == 2 {
            stack_fields_from(&a[0], &a[1])
        } else {
            None
        },
        _ => None,
    }
}

/// A failing prefix fails the whole array.
proof fn lemma_items_of_prefix(a: Seq<Json>, k: int)
    requires
        0 <= k <= a.len(),
        items_of(a.take(k)) is None,
    ensures
        items_of(a) is None,
    decreases a.len() - k,
{
    if k < a.len() {
        assert(a.take(k + 1).drop_last() =~= a.take(k));
        lemma_items_of_prefix(a, k + 1);
    } else {
        assert(a.take(k) =~= a);
    }
}

/// Parse the embedded stack data from an existing comment, if present.
/// A comment [`render_stack_comment`] wrote reads back as version 1 with
/// the live entries that have both a number and a URL, in order, then the
/// fossils.
pub fn parse_stack_data(body: &str) -> (r: Option<StackData>)
    ensures
        match r {
            Some(d) => parse_stack_data_spec(body@) == Some((d.version, d.stack@)),
            None => parse_stack_data_spec(body@) is None,
        },
        forall|live: Seq<StackEntry>, fossils: Seq<StackDataItem>, current: Option<Seq<char>>|
            #[trigger] render_spec(live, fossils, current) == body@ ==> (r matches Some(d) && d.version == 1
                && item_views(d.stack@) == item_views(live_items(live) + fossils)),
{
    let text = chars_of(body);
    let ls = lines_of(&text);
    let ghost gl = lines(body@);
    let prefix = chars_of(DATA_PREFIX);
    let suffix = chars_of(DATA_SUFFIX);
    let mut i: usize = 0;
    assert(gl.skip(0) =~= gl);
    while i < ls.len()
        invariant
            i <= ls@.len(),
            ls@.len() == gl.len(),
            gl == lines(body@),
            prefix@ == DATA_PREFIX@,
            suffix@ == DATA_SUFFIX@,
            forall|k: int| 0 <= k < ls@.len() ==> #[trigger] ls@[k]@ == gl[k],
            first_payload(gl) == first_payload(gl.skip(i as int)),
        decreases ls@.len() - i,
    {
        let line = trim_chars(&ls[i]);
        assert(ls@[i as int]@ == gl[i as int]);
        assert(gl.skip(i as int)[0] == gl[i as int]);
        let payload = match strip_prefix_chars(&line, &prefix) {
            Some(rest) => strip_suffix_chars(&rest, &suffix),
            None => None,
        };
        match payload {
            Some(p) => {
                assert(first_payload(gl) == Some(p@));
                let encoded = string_of(&trim_chars(&p));
                let bytes = match base64_decode(encoded.as_str()) {
                    Some(b) => b,
                    None => {
                        assert forall|live: Seq<StackEntry>, fossils: Seq<StackDataItem>, current: Option<Seq<char>>|
                            #[trigger] render_spec(live, fossils, current) == body@ implies false by {
                            lemma_render_payload(live, fossils, current);
                            let bs = vstd::utf8::encode_utf8(stack_json(live_items(live) + fossils));
                            assert(base64_of(bs) == encoded@);
                        }
                        return None;
                    },
                };
                let parsed = parse_json(bytes.as_slice());
                let ghost seen = parsed;
                return match parsed {
                    Ok(j) => {
                        let r = stack_data_from(&j);
                        assert forall|live: Seq<StackEntry>, fossils: Seq<StackDataItem>, current: Option<Seq<char>>|
                            #[trigger] render_spec(live, fossils, current) == body@ implies (r matches Some(d) && d.version == 1
                                && item_views(d.stack@) == item_views(live_items(live) + fossils)) by {
                            let items = live_items(live) + fossils;
                            lemma_render_payload(live, fossils, current);
                            let bs = vstd::utf8::encode_utf8(stack_json(items));
                            assert(base64_of(bs) == encoded@);
                            assert(bytes@ == bs);
                            lemma_data_text(items);
                            lemma_data_plain(items);
                            assert(json_view(j) == data_jv(items));
                            lemma_data_back(j, items);
                        }
                        r
                    },
                    Err(_) => {
                        assert forall|live: Seq<StackEntry>, fossils: Seq<StackDataItem>, current: Option<Seq<char>>|
                            #[trigger] render_spec(live, fossils, current) == body@ implies false by {
                            let items = live_items(live) + fossils;
                            lemma_render_payload(live, fossils, current);
                            let bs = vstd::utf8::encode_utf8(stack_json(items));
                            assert(base64_of(bs) == encoded@);
                            assert(bytes@ == bs);
                            lemma_data_text(items);
                            lemma_data_plain(items);
                            assert(bytes@ == vstd::utf8::encode_utf8(json_text(data_jv(items))));
                        }
                        None
                    },
                };
            },
            None => {},
        }
        assert(gl.skip(i as int).drop_first() =~= gl.skip(i + 1));
        i += 1;
    }
    assert(gl.skip(i as int) =~= Seq::<Seq<char>>::empty());
    assert forall|live: Seq<StackEntry>, fossils: Seq<StackDataItem>, current: Option<Seq<char>>|
        #[trigger] render_spec(live, fossils, current) == body@ implies false by {
        lemma_render_payload(live, fossils, current);
    }
    None
}

// ---------------------------------------------------------------------
// Reading back what rendering wrote
// ---------------------------------------------------------------------

/// A text with no whitespace at either end trims to itself.
proof fn lemma_trim_keeps(s: Seq<char>)
    requires
        s.len() == 0 || (!is_ws(s[0]) && !is_ws(s.last())),
    ensures
        trim(s) == s,
{
    assert(trim_start(s) == s);
    assert(trim_end(s) == s);
}

/// The first line of a text whose first newline ends `a`.
proof fn lemma_first_line(a: Seq<char>, rest: Seq<char>)
    requires
        a.len() > 0,
        a.last() != '\r',
        forall|j: int| 0 <= j < a.len() ==> a[j] != '\n',
    ensures
        lines(a + seq!['\n'] + rest) == seq![a] + lines(rest),
{
    let s = a + seq!['\n'] + rest;
    let nl = seq!['\n'];
    let k = a.len() as int;
    assert(s.subrange(k, k + 1) =~= nl);
    assert forall|j: int| 0 <= j < k implies !occurs_at(s, nl, j) by {
        assert(s.subrange(j, j + 1)[0] == a[j]);
    }
    lemma_find_is(s, nl, k);
    assert(s.take(k) =~= a);
    assert(line_of(s, k) == a);
    assert(s.skip(k + 1) =~= rest);
}

/// The data line a rendered comment carries: its payload is the base64 of
/// the stack data's JSON, which trims to itself.
#[verifier::rlimit(60)]
proof fn lemma_render_payload(live: Seq<StackEntry>, fossils: Seq<StackDataItem>, current: Option<Seq<char>>)
    ensures
        first_payload(lines(render_spec(live, fossils, current))) == Some(
            base64_of(vstd::utf8::encode_utf8(stack_json(live_items(live) + fossils))),
        ),
        trim(base64_of(vstd::utf8::encode_utf8(stack_json(live_items(live) + fossils)))) == base64_of(
            vstd::utf8::encode_utf8(stack_json(live_items(live) + fossils)),
        ),
{
    let e = base64_of(vstd::utf8::encode_utf8(stack_json(live_items(live) + fossils)));
    crate::codec::lemma_base64_shape(vstd::utf8::encode_utf8(stack_json(live_items(live) + fossils)));
    reveal_strlit("<!-- jiji:stack-info -->");
    reveal_strlit("<!-- jiji:stack-data ");
    reveal_strlit(" -->");
    reveal_strlit("\n");
    let sent = STACK_SENTINEL@;
    let line = DATA_PREFIX@ + e + DATA_SUFFIX@;
    let body = render_spec(live, fossils, current);
    let rest = body.skip((sent.len() + 1 + line.len() + 1) as int);
    assert(body =~= sent + seq!['\n'] + (line + seq!['\n'] + rest));
    assert forall|j: int| 0 <= j < line.len() implies line[j] != '\n' by {
        if DATA_PREFIX@.len() <= j < DATA_PREFIX@.len() + e.len() {
            assert(line[j] == e[j - DATA_PREFIX@.len()]);
            assert(!is_ws(e[j - DATA_PREFIX@.len()]));
        }
    }
    lemma_first_line(sent, line + seq!['\n'] + rest);
    lemma_first_line(line, rest);
    let ls = lines(body);
    assert(ls[0] == sent);
    assert(ls[1] == line);
    lemma_trim_keeps(sent);
    lemma_trim_keeps(line);
    assert(sent[10] != DATA_PREFIX@[10] || sent[16] != DATA_PREFIX@[16]);
    assert(sent.take(DATA_PREFIX@.len() as int) != DATA_PREFIX@) by {
        assert(sent.take(DATA_PREFIX@.len() as int)[16] == sent[16]);
    }
    assert(data_payload(ls[0]) is None);
    assert(line.take(DATA_PREFIX@.len() as int) =~= DATA_PREFIX@);
    let after = line.skip(DATA_PREFIX@.len() as int);
    assert(after =~= e + DATA_SUFFIX@);
    assert(after.skip(after.len() - DATA_SUFFIX@.len()) =~= DATA_SUFFIX@);
    assert(after.take(after.len() - DATA_SUFFIX@.len()) =~= e);
    assert(data_payload(ls[1]) == Some(e));
    assert(ls.drop_first()[0] == ls[1]);
    assert(first_payload(ls.drop_first()) == Some(e));
    if e.len() > 0 {
        assert(!is_ws(e[0]));
        assert(!is_ws(e[e.len() - 1]));
    }
    lemma_trim_keeps(e);
}

/// A data item as a JSON document, in the field order the data line uses.
pub open spec fn item_jv(it: StackDataItem) -> JsonView {
    JsonView::Object(
        seq![
            ("bookmark"@, JsonView::Str(it.bookmark@)),
            ("number"@, JsonView::UInt(it.number)),
            ("url"@, JsonView::Str(it.url@)),
        ],
    )
}

/// The stack data as the JSON document the data line carries.
pub open spec fn data_jv(items: Seq<StackDataItem>) -> JsonView {
    JsonView::Object(
        seq![
            ("version"@, JsonView::UInt(1)),
            ("stack"@, JsonView::Array(items.map_values(|it: StackDataItem| item_jv(it)))),
        ],
    )
}

/// The content of a data item.
pub open spec fn item_view(it: StackDataItem) -> (Seq<char>, u64, Seq<char>) {
    (it.bookmark@, it.number, it.url@)
}

/// The contents of data items.
pub open spec fn item_views(items: Seq<StackDataItem>) -> Seq<(Seq<char>, u64, Seq<char>)> {
    items.map_values(|it: StackDataItem| item_view(it))
}

/// Lowercase letters escape as themselves.
proof fn lemma_escaped_letters(s: Seq<char>)
    requires
        forall|i: int| 0 <= i < s.len() ==> 'a' <= #[trigger] s[i] <= 'z',
    ensures
        json_escaped(s) == s,
    decreases s.len(),
{
    if s.len() > 0 {
        lemma_escaped_letters(s.drop_last());
        assert(json_char(s.last()) == seq![s.last()]);
        assert(s.drop_last() + seq![s.last()] =~= s);
    }
}

/// A member name of lowercase letters quotes as itself between quotes.
proof fn lemma_quote_letters(s: Seq<char>)
    requires
        forall|i: int| 0 <= i < s.len() ==> 'a' <= #[trigger] s[i] <= 'z',
    ensures
        json_quote(s) == seq!['"'] + s + seq!['"'],
{
    lemma_escaped_letters(s);
}

/// One item's JSON text is the text the data line writes for it.
proof fn lemma_item_text(it: StackDataItem)
    ensures
        json_text(item_jv(it)) == item_json(it),
{
    reveal_strlit("bookmark");
    reveal_strlit("number");
    reveal_strlit("url");
    reveal_strlit("{\"bookmark\":");
    reveal_strlit(",\"number\":");
    reveal_strlit(",\"url\":");
    reveal_strlit("}");
    lemma_quote_letters("bookmark"@);
    lemma_quote_letters("number"@);
    lemma_quote_letters("url"@);
    let m = seq![
        ("bookmark"@, JsonView::Str(it.bookmark@)),
        ("number"@, JsonView::UInt(it.number)),
        ("url"@, JsonView::Str(it.url@)),
    ];
    let q = seq!['"'];
    let c = seq![':'];
    let k = seq![','];
    assert(m.drop_last() =~= seq![m[0], m[1]]);
    assert(seq![m[0], m[1]].drop_last() =~= seq![m[0]]);
    assert(json_text(JsonView::Str(it.bookmark@)) == json_quote(it.bookmark@));
    assert(json_text(JsonView::UInt(it.number)) == crate::text::dec(it.number as nat));
    assert(json_text(JsonView::Str(it.url@)) == json_quote(it.url@));
    let t1 = members_text(seq![m[0]]);
    assert(t1 == json_quote("bookmark"@) + c + json_quote(it.bookmark@));
    let t2 = members_text(seq![m[0], m[1]]);
    assert(t2 == t1 + k + json_quote("number"@) + c + crate::text::dec(it.number as nat));
    let t3 = members_text(m);
    assert(t3 == t2 + k + json_quote("url"@) + c + json_quote(it.url@));
    assert(json_text(item_jv(it)) == seq!['{'] + t3 + seq!['}']);
    assert(json_text(item_jv(it)) =~= item_json(it));
}

/// The items' JSON texts, comma-separated, are the list the data line
/// writes.
proof fn lemma_items_text(items: Seq<StackDataItem>)
    ensures
        json_texts(items.map_values(|it: StackDataItem| item_jv(it))) == items_json(items),
    decreases items.len(),
{
    let vs = items.map_values(|it: StackDataItem| item_jv(it));
    if items.len() == 1 {
        lemma_item_text(items[0]);
    } else if items.len() > 1 {
        lemma_items_text(items.drop_last());
        lemma_item_text(items.last());
        assert(vs.drop_last() =~= items.drop_last().map_values(|it: StackDataItem| item_jv(it)));
        reveal_strlit(",");
        assert(json_texts(vs) =~= items_json(items));
    }
}

/// The stack data's JSON text is the document the data line writes.
proof fn lemma_data_text(items: Seq<StackDataItem>)
    ensures
        json_text(data_jv(items)) == stack_json(items),
{
    reveal_strlit("version");
    reveal_strlit("stack");
    reveal_strlit("{\"version\":1,\"stack\":[");
    reveal_strlit("]}");
    lemma_quote_letters("version"@);
    lemma_quote_letters("stack"@);
    lemma_items_text(items);
    let m = seq![
        ("version"@, JsonView::UInt(1)),
        ("stack"@, JsonView::Array(items.map_values(|it: StackDataItem| item_jv(it)))),
    ];
    assert(m.drop_last() =~= seq![m[0]]);
    assert(crate::text::dec(1) == seq!['1']);
    let vs = items.map_values(|it: StackDataItem| item_jv(it));
    assert(json_text(JsonView::UInt(1)) == seq!['1']);
    let t1 = members_text(seq![m[0]]);
    assert(t1 == json_quote("version"@) + seq![':'] + seq!['1']);
    let t2 = members_text(m);
    assert(t2 == t1 + seq![','] + json_quote("stack"@) + seq![':'] + json_text(JsonView::Array(vs)));
    assert(json_text(JsonView::Array(vs)) == seq!['['] + items_json(items) + seq![']']);
    assert(json_text(data_jv(items)) == seq!['{'] + t2 + seq!['}']);
    assert(json_text(data_jv(items)) =~= stack_json(items));
}

/// Every item document is plain at any depth of one or more.
proof fn lemma_items_plain(items: Seq<StackDataItem>, depth: nat)
    requires
        depth > 0,
    ensures
        plain_all(items.map_values(|it: StackDataItem| item_jv(it)), depth),
    decreases items.len(),
{
    let vs = items.map_values(|it: StackDataItem| item_jv(it));
    if items.len() > 0 {
        lemma_items_plain(items.drop_last(), depth);
        assert(vs.drop_last() =~= items.drop_last().map_values(|it: StackDataItem| item_jv(it)));
        reveal_strlit("bookmark");
        reveal_strlit("number");
        reveal_strlit("url");
        let it = items.last();
        let m = seq![
            ("bookmark"@, JsonView::Str(it.bookmark@)),
            ("number"@, JsonView::UInt(it.number)),
            ("url"@, JsonView::Str(it.url@)),
        ];
        assert(m.drop_last() =~= seq![m[0], m[1]]);
        assert(seq![m[0], m[1]].drop_last() =~= seq![m[0]]);
        assert(seq![m[0]].drop_last() =~= Seq::<(Seq<char>, JsonView)>::empty());
        assert("bookmark"@.len() == 8 && "number"@.len() == 6 && "url"@.len() == 3);
        assert(names_distinct(m));
        assert(json_plain(m[0].1, (depth - 1) as nat));
        assert(json_plain(m[1].1, (depth - 1) as nat));
        assert(json_plain(m[2].1, (depth - 1) as nat));
        assert(plain_members(Seq::<(Seq<char>, JsonView)>::empty(), (depth - 1) as nat));
        assert(plain_members(seq![m[0]], (depth - 1) as nat));
        assert(plain_members(seq![m[0], m[1]], (depth - 1) as nat));
        assert(plain_members(m, (depth - 1) as nat));
        assert(json_plain(item_jv(it), depth));
    }
}

/// The stack data document reads back as written.
proof fn lemma_data_plain(items: Seq<StackDataItem>)
    ensures
        json_plain(data_jv(items), 100),
{
    reveal_strlit("version");
    reveal_strlit("stack");
    lemma_items_plain(items, 98);
    let m = seq![
        ("version"@, JsonView::UInt(1)),
        ("stack"@, JsonView::Array(items.map_values(|it: StackDataItem| item_jv(it)))),
    ];
    assert(m.drop_last() =~= seq![m[0]]);
    assert(seq![m[0]].drop_last() =~= Seq::<(Seq<char>, JsonView)>::empty());
    assert("version"@.len() == 7 && "stack"@.len() == 5);
    assert(names_distinct(m));
    assert(json_plain(m[0].1, 99));
    assert(json_plain(m[1].1, 99));
    assert(plain_members(Seq::<(Seq<char>, JsonView)>::empty(), 99));
    assert(plain_members(seq![m[0]], 99));
    assert(plain_members(m, 99));
}

/// The contents of a list of documents, element by element.
proof fn lemma_views_at(a: Seq<Json>)
    ensures
        json_views(a).len() == a.len(),
        forall|i: int| 0 <= i < a.len() ==> #[trigger] json_views(a)[i] == json_view(a[i]),
    decreases a.len(),
{
    if a.len() > 0 {
        lemma_views_at(a.drop_last());
    }
}

/// The contents of an object's members, member by member.
proof fn lemma_member_views_at(m: Seq<(String, Json)>)
    ensures
        member_views(m).len() == m.len(),
        forall|i: int| 0 <= i < m.len() ==> #[trigger] member_views(m)[i] == (m[i].0@, json_view(m[i].1)),
    decreases m.len(),
{
    if m.len() > 0 {
        lemma_member_views_at(m.drop_last());
    }
}

/// A document whose content is an item's reads as an item with the same
/// content.
proof fn lemma_item_back(x: Json, it: StackDataItem)
    requires
        json_view(x) == item_jv(it),
    ensures
        item_of(x) matches Some(r) && item_view(r) == item_view(it),
{
    reveal_strlit("bookmark");
    reveal_strlit("number");
    reveal_strlit("url");
    assert("bookmark"@.len() == 8 && "number"@.len() == 6 && "url"@.len() == 3);
    match x {
        Json::Object(m) => {
            lemma_member_views_at(m@);
            assert(member_views(m@)[0] == ("bookmark"@, JsonView::Str(it.bookmark@)));
            assert(member_views(m@)[1] == ("number"@, JsonView::UInt(it.number)));
            assert(member_views(m@)[2] == ("url"@, JsonView::Str(it.url@)));
            let m1 = m@.drop_first();
            let m2 = m1.drop_first();
            assert(m1[0] == m@[1]);
            assert(m2[0] == m@[2]);
            assert(member_of(m@, "bookmark"@) == m@[0].1);
            assert(member_of(m1, "number"@) == m@[1].1);
            assert(member_of(m@, "number"@) == m@[1].1);
            assert(member_of(m2, "url"@) == m@[2].1);
            assert(member_of(m1, "url"@) == m@[2].1);
            assert(member_of(m@, "url"@) == m@[2].1);
            assert(m@[0].1 is Str);
            assert(m@[1].1 is UInt);
            assert(m@[2].1 is Str);
        },
        _ => {},
    }
}

/// A list of documents whose contents are items' reads as items with the
/// same contents.
proof fn lemma_items_back(a: Seq<Json>, items: Seq<StackDataItem>)
    requires
        json_views(a) == items.map_values(|it: StackDataItem| item_jv(it)),
    ensures
        items_of(a) matches Some(r) && item_views(r) == item_views(items),
    decreases a.len(),
{
    lemma_views_at(a);
    if a.len() > 0 {
        let vs = items.map_values(|it: StackDataItem| item_jv(it));
        lemma_views_at(a.drop_last());
        assert forall|i: int| 0 <= i < a.len() - 1 implies #[trigger] json_views(a.drop_last())[i] == items.drop_last().map_values(
            |it: StackDataItem| item_jv(it),
        )[i] by {
            assert(json_views(a.drop_last())[i] == json_view(a.drop_last()[i]));
            assert(a.drop_last()[i] == a[i]);
            assert(json_views(a)[i] == vs[i]);
        }
        assert(json_views(a.drop_last()) =~= items.drop_last().map_values(|it: StackDataItem| item_jv(it)));
        lemma_items_back(a.drop_last(), items.drop_last());
        assert(json_views(a)[a.len() - 1] == vs[a.len() - 1]);
        lemma_item_back(a.last(), items.last());
        let r0 = items_of(a.drop_last())->0;
        let x = item_of(a.last())->0;
        assert(item_views(r0.push(x)) =~= item_views(items)) by {
            assert(item_views(r0) == item_views(items.drop_last()));
            assert(items.len() == a.len());
            assert(item_views(r0).len() == r0.len());
            assert(item_views(items.drop_last()).len() == items.len() - 1);
            assert(r0.len() == items.len() - 1);
            assert forall|i: int| 0 <= i < items.len() - 1 implies item_views(r0.push(x))[i] == item_views(items)[i] by {
                assert(item_views(r0)[i] == item_views(items.drop_last())[i]);
                assert(r0.push(x)[i] == r0[i]);
                assert(items.drop_last()[i] == items[i]);
            }
            assert(item_views(r0.push(x))[items.len() - 1] == item_views(items)[items.len() - 1]);
        }
    } else {
        assert(item_views(Seq::<StackDataItem>::empty()) =~= item_views(items));
    }
}

/// A document whose content is the stack data's reads as that stack data.
proof fn lemma_data_back(j: Json, items: Seq<StackDataItem>)
    requires
        json_view(j) == data_jv(items),
    ensures
        stack_data_of(j) matches Some((v, r)) && v == 1 && item_views(r) == item_views(items),
{
    reveal_strlit("version");
    reveal_strlit("stack");
    assert("version"@.len() == 7 && "stack"@.len() == 5);
    match j {
        Json::Object(m) => {
            lemma_member_views_at(m@);
            assert(member_views(m@)[0] == ("version"@, JsonView::UInt(1)));
            assert(member_views(m@)[1] == ("stack"@, JsonView::Array(items.map_values(|it: StackDataItem| item_jv(it)))));
            let m1 = m@.drop_first();
            assert(m1[0] == m@[1]);
            assert(member_of(m@, "version"@) == m@[0].1);
            assert(member_of(m1, "stack"@) == m@[1].1);
            assert(member_of(m@, "stack"@) == m@[1].1);
            assert(m@[0].1 is UInt);
            match m@[1].1 {
                Json::Array(a) => {
                    lemma_items_back(a@, items);
                },
                _ => {},
            }
        },
        _ => {},
    }
}

} // verus!
