//! PR text reconciliation: updating an existing PR's title and description
//! from the commit without clobbering hand edits.
//!
//! Jiji writes the commit-derived description inside sentinel markers,
//! followed by fingerprints of the text it wrote. On the next submit, a
//! three-way comparison — the commit-derived text ("ours"), the on-GitHub
//! text ("theirs"), and the fingerprint of what Jiji last wrote ("base") —
//! tells "the commit moved, the PR is stale" apart from "the user
//! hand-edited the PR". Text outside the sentinels always belongs to the
//! user and is preserved verbatim.

use vstd::prelude::*;
use vstd::string::StrSliceExecFns;

use crate::text::{
    chars_eq, chars_of, find, find_chars, push_all, push_str, slice_chars, starts_with,
    starts_with_chars, str_eq, string_of, strip_prefix, strip_prefix_chars, trim, trim_end_index,
    trim_start_index,
};

verus! {

/// Opens the Jiji-managed section of a PR description.
pub const DESCRIPTION_START: &'static str = "<!-- jiji:description -->";

/// Closes the Jiji-managed section.
pub const DESCRIPTION_END: &'static str = "<!-- /jiji:description -->";

/// Opens the body-fingerprint marker.
pub const BODY_FP_PREFIX: &'static str = "<!-- jiji:body-fp ";

/// Opens the title-fingerprint marker.
pub const TITLE_FP_PREFIX: &'static str = "<!-- jiji:title-fp ";

/// Closes a fingerprint marker.
pub const FP_SUFFIX: &'static str = " -->";

/// The FNV-1a 64 offset basis.
pub const FNV_OFFSET: u64 = 0xcbf2_9ce4_8422_2325;

/// The FNV-1a 64 prime.
pub const FNV_PRIME: u64 = 0x0000_0100_0000_01b3;

// ---------------------------------------------------------------------
// Fingerprints
// ---------------------------------------------------------------------

/// One FNV-1a step.
pub open spec fn fnv_step(hash: u64, byte: u8) -> u64 {
    vstd::wrapping::u64_specs::wrapping_mul(hash ^ (byte as u64), FNV_PRIME)
}

/// FNV-1a 64 over a byte sequence.
pub open spec fn fnv(bytes: Seq<u8>) -> u64
    decreases bytes.len(),
{
    if bytes.len() == 0 {
        FNV_OFFSET
    } else {
        fnv_step(fnv(bytes.drop_last()), bytes.last())
    }
}

/// Lower-case hex digit.
pub open spec fn hex_digit(d: nat) -> char {
    if d < 10 {
        crate::text::digit(d)
    } else if d == 10 {
        'a'
    } else if d == 11 {
        'b'
    } else if d == 12 {
        'c'
    } else if d == 13 {
        'd'
    } else if d == 14 {
        'e'
    } else {
        'f'
    }
}

/// The low `k` hex digits of `n`, most significant first, zero-padded.
pub open spec fn hex_digits(n: nat, k: nat) -> Seq<char>
    decreases k,
{
    if k == 0 {
        Seq::empty()
    } else {
        hex_digits(n / 16, (k - 1) as nat).push(hex_digit(n % 16))
    }
}

/// The fingerprint of a text: FNV-1a 64 over its UTF-8 bytes, as 16
/// lower-case hex digits.
pub open spec fn fingerprint_spec(text: Seq<char>) -> Seq<char> {
    hex_digits(fnv(vstd::utf8::encode_utf8(text)) as nat, 16)
}

fn hex_char(d: u64) -> (c: char)
    requires
        d < 16,
    ensures
        c == hex_digit(d as nat),
{
    if d < 10 {
        crate::text::digit_char(d)
    } else if d == 10 {
        'a'
    } else if d == 11 {
        'b'
    } else if d == 12 {
        'c'
    } else if d == 13 {
        'd'
    } else if d == 14 {
        'e'
    } else {
        'f'
    }
}

fn hex_of(n: u64, k: u64) -> (r: Vec<char>)
    ensures
        r@ == hex_digits(n as nat, k as nat),
    decreases k,
{
    if k == 0 {
        Vec::new()
    } else {
        let mut r = hex_of(n / 16, k - 1);
        r.push(hex_char(n % 16));
        r
    }
}

/// Stable 64-bit FNV-1a hash, hex-encoded.
///
/// The fingerprint is written into PR bodies and read back by future Jiji
/// versions, so the algorithm must stay byte-for-byte stable forever.
pub fn fingerprint(text: &str) -> (r: String)
    ensures
        r@ == fingerprint_spec(text@),
        r@.len() == 16,
{
    let bytes = text.as_bytes();
    let mut hash: u64 = FNV_OFFSET;
    let mut i: usize = 0;
    while i < bytes.len()
        invariant
            i <= bytes@.len(),
            bytes@ == vstd::utf8::encode_utf8(text@),
            hash == fnv(bytes@.take(i as int)),
        decreases bytes@.len() - i,
    {
        assert(bytes@.take(i + 1int).drop_last() =~= bytes@.take(i as int));
        hash = (hash ^ (bytes[i] as u64)).wrapping_mul(FNV_PRIME);
        i += 1;
    }
    assert(bytes@.take(bytes@.len() as int) =~= bytes@);
    let digits = hex_of(hash, 16);
    proof {
        lemma_hex_digits_len(hash as nat, 16);
    }
    string_of(&digits)
}

/// `hex_digits` has exactly `k` digits.
pub proof fn lemma_hex_digits_len(n: nat, k: nat)
    ensures
        hex_digits(n, k).len() == k,
    decreases k,
{
    if k > 0 {
        lemma_hex_digits_len(n / 16, (k - 1) as nat);
    }
}

// ---------------------------------------------------------------------
// Markers
// ---------------------------------------------------------------------

/// Where the managed section's text lies in a body: just after the
/// opening sentinel up to the first closing sentinel after it.
pub open spec fn managed_bounds(body: Seq<char>) -> Option<(int, int)> {
    match find(body, DESCRIPTION_START@) {
        Some(i) => {
            let st = i + DESCRIPTION_START@.len();
            match find(body.skip(st), DESCRIPTION_END@) {
                Some(j) => Some((st, st + j)),
                None => None,
            }
        },
        None => None,
    }
}

/// The managed section's trimmed text, when the sentinels are present.
pub open spec fn extract_managed_spec(body: Seq<char>) -> Option<Seq<char>> {
    match managed_bounds(body) {
        Some((st, en)) => Some(trim(body.subrange(st, en))),
        None => None,
    }
}

/// The trimmed text between a marker's prefix and the next `FP_SUFFIX`.
pub open spec fn extract_fp_spec(body: Seq<char>, prefix: Seq<char>) -> Option<Seq<char>> {
    match find(body, prefix) {
        Some(i) => {
            let st = i + prefix.len();
            match find(body.skip(st), FP_SUFFIX@) {
                Some(j) => Some(trim(body.subrange(st, st + j))),
                None => None,
            }
        },
        None => None,
    }
}

/// The body fingerprint a PR body records.
pub open spec fn stored_body_fp_spec(body: Seq<char>) -> Option<Seq<char>> {
    extract_fp_spec(body, BODY_FP_PREFIX@)
}

/// The title fingerprint a PR body records.
pub open spec fn stored_title_fp_spec(body: Seq<char>) -> Option<Seq<char>> {
    extract_fp_spec(body, TITLE_FP_PREFIX@)
}

/// The fingerprint marker lines.
pub open spec fn fp_block_spec(body_fp: Seq<char>, title_fp: Option<Seq<char>>) -> Seq<char> {
    match title_fp {
        Some(t) => BODY_FP_PREFIX@ + body_fp + FP_SUFFIX@ + seq!['\n'] + TITLE_FP_PREFIX@ + t
            + FP_SUFFIX@,
        None => BODY_FP_PREFIX@ + body_fp + FP_SUFFIX@,
    }
}

/// A managed section around `body` followed by a fingerprint block.
pub open spec fn wrap_with(body: Seq<char>, title_fp: Option<Seq<char>>) -> Seq<char> {
    DESCRIPTION_START@ + seq!['\n'] + body + seq!['\n'] + DESCRIPTION_END@ + seq!['\n']
        + fp_block_spec(fingerprint_spec(body), title_fp)
}

/// The initial PR body Jiji writes for a commit body and title.
pub open spec fn wrap_managed_spec(body: Seq<char>, title: Seq<char>) -> Seq<char> {
    wrap_with(body, Some(fingerprint_spec(title)))
}

/// Drop one fingerprint marker line (and the newline before it).
pub open spec fn strip_one_marker(rest: Seq<char>, prefix: Seq<char>) -> Seq<char> {
    let candidate = match strip_prefix(rest, seq!['\n']) {
        Some(t) => t,
        None => rest,
    };
    if starts_with(candidate, prefix) {
        match find(candidate, FP_SUFFIX@) {
            Some(rel) => candidate.skip(rel + FP_SUFFIX@.len()),
            None => rest,
        }
    } else {
        rest
    }
}

/// Drop the body and title fingerprint marker lines that immediately
/// follow the closing sentinel.
pub open spec fn strip_leading_fp_markers_spec(after_end: Seq<char>) -> Seq<char> {
    strip_one_marker(strip_one_marker(after_end, BODY_FP_PREFIX@), TITLE_FP_PREFIX@)
}

/// A PR body rebuilt around its managed section.
pub open spec fn rebuild_spec(
    body: Seq<char>,
    managed: Seq<char>,
    body_fp: Seq<char>,
    title_fp: Option<Seq<char>>,
) -> Seq<char> {
    match find(body, DESCRIPTION_START@) {
        Some(start) => match find(body.skip(start), DESCRIPTION_END@) {
            Some(end_rel) => {
                let end = start + end_rel + DESCRIPTION_END@.len();
                body.take(start) + DESCRIPTION_START@ + seq!['\n'] + managed + seq!['\n']
                    + DESCRIPTION_END@ + seq!['\n'] + fp_block_spec(body_fp, title_fp)
                    + strip_leading_fp_markers_spec(body.skip(end))
            },
            None => body,
        },
        None => body,
    }
}

/// The window of `s` that `trim` keeps.
fn trim_window(s: &[char], from: usize, to: usize) -> (r: (usize, usize))
    requires
        from <= to <= s@.len(),
    ensures
        from <= r.0 <= r.1 <= to,
        s@.subrange(r.0 as int, r.1 as int) == trim(s@.subrange(from as int, to as int)),
{
    let region = slice_chars(s, from, to);
    let a = trim_start_index(&region);
    let rest = slice_chars(&region, a, region.len());
    assert(rest@ =~= region@.skip(a as int));
    let b = trim_end_index(&rest);
    assert(s@.subrange(from + a, from + a + b) =~= rest@.take(b as int));
    (from + a, from + a + b)
}

/// Extract the managed section's text, when the sentinels are present.
pub fn extract_managed_body(pr_body: &str) -> (r: Option<&str>)
    ensures
        match r {
            Some(t) => extract_managed_spec(pr_body@) == Some(t@),
            None => extract_managed_spec(pr_body@) is None,
        },
{
    let b = chars_of(pr_body);
    let start_pat = chars_of(DESCRIPTION_START);
    let end_pat = chars_of(DESCRIPTION_END);
    let i = match find_chars(&b, &start_pat) {
        Some(i) => i,
        None => return None,
    };
    proof {
        crate::text::lemma_find(b@, start_pat@);
        assert(crate::text::occurs_at(b@, start_pat@, i as int));
    }
    assert(i + start_pat.len() <= b.len());
    let st = i + start_pat.len();
    let rest = slice_chars(&b, st, b.len());
    assert(rest@ =~= b@.skip(st as int));
    let j = match find_chars(&rest, &end_pat) {
        Some(j) => j,
        None => return None,
    };
    proof {
        crate::text::lemma_find(rest@, end_pat@);
    }
    let (x, y) = trim_window(&b, st, st + j);
    Some(pr_body.substring_char(x, y))
}

fn extract_fp<'a>(pr_body: &'a str, prefix: &str) -> (r: Option<&'a str>)
    ensures
        match r {
            Some(t) => extract_fp_spec(pr_body@, prefix@) == Some(t@),
            None => extract_fp_spec(pr_body@, prefix@) is None,
        },
{
    let b = chars_of(pr_body);
    let p = chars_of(prefix);
    let suffix = chars_of(FP_SUFFIX);
    let i = match find_chars(&b, &p) {
        Some(i) => i,
        None => return None,
    };
    proof {
        crate::text::lemma_find(b@, p@);
        assert(crate::text::occurs_at(b@, p@, i as int));
    }
    assert(i + p.len() <= b.len());
    let st = i + p.len();
    let rest = slice_chars(&b, st, b.len());
    assert(rest@ =~= b@.skip(st as int));
    let j = match find_chars(&rest, &suffix) {
        Some(j) => j,
        None => return None,
    };
    proof {
        crate::text::lemma_find(rest@, suffix@);
    }
    let (x, y) = trim_window(&b, st, st + j);
    Some(pr_body.substring_char(x, y))
}

/// The body fingerprint Jiji last recorded, if any. Absence means the PR
/// predates fingerprinting or the user deleted the marker — "ownership
/// unknown", never a license to overwrite.
pub fn stored_body_fp(pr_body: &str) -> (r: Option<&str>)
    ensures
        match r {
            Some(t) => stored_body_fp_spec(pr_body@) == Some(t@),
            None => stored_body_fp_spec(pr_body@) is None,
        },
{
    extract_fp(pr_body, BODY_FP_PREFIX)
}

/// The title fingerprint Jiji last recorded, if any.
pub fn stored_title_fp(pr_body: &str) -> (r: Option<&str>)
    ensures
        match r {
            Some(t) => stored_title_fp_spec(pr_body@) == Some(t@),
            None => stored_title_fp_spec(pr_body@) is None,
        },
{
    extract_fp(pr_body, TITLE_FP_PREFIX)
}

/// Append the fingerprint block (see [`fp_block_spec`]).
fn fp_block(v: &mut Vec<char>, body_fp: &str, title_fp: Option<&str>)
    ensures
        final(v)@ == old(v)@ + fp_block_spec(
            body_fp@,
            match title_fp {
                Some(t) => Some(t@),
                None => None,
            },
        ),
{
    push_str(v, BODY_FP_PREFIX);
    push_str(v, body_fp);
    push_str(v, FP_SUFFIX);
    if let Some(t) = title_fp {
        v.push('\n');
        push_str(v, TITLE_FP_PREFIX);
        push_str(v, t);
        push_str(v, FP_SUFFIX);
    }
}

fn wrap_chars(commit_body: &str, title_fp: Option<&str>) -> (r: Vec<char>)
    ensures
        r@ == wrap_with(
            commit_body@,
            match title_fp {
                Some(t) => Some(t@),
                None => None,
            },
        ),
{
    let mut v = chars_of(DESCRIPTION_START);
    v.push('\n');
    push_str(&mut v, commit_body);
    v.push('\n');
    push_str(&mut v, DESCRIPTION_END);
    v.push('\n');
    let fp = fingerprint(commit_body);
    fp_block(&mut v, fp.as_str(), title_fp);
    v
}

/// The initial PR body: the commit-derived text inside sentinels, followed
/// by fingerprints of the body and title Jiji is writing.
pub fn wrap_managed_body(commit_body: &str, title: &str) -> (r: String)
    ensures
        r@ == wrap_managed_spec(commit_body@, title@),
{
    let tfp = fingerprint(title);
    let v = wrap_chars(commit_body, Some(tfp.as_str()));
    string_of(&v)
}

fn strip_one_marker_exec(rest: Vec<char>, prefix: &[char]) -> (r: Vec<char>)
    ensures
        r@ == strip_one_marker(rest@, prefix@),
{
    let nl: Vec<char> = vec!['\n'];
    assert(nl@ =~= seq!['\n']);
    let candidate = match strip_prefix_chars(&rest, &nl) {
        Some(t) => t,
        None => slice_chars(&rest, 0, rest.len()),
    };
    assert(rest@.subrange(0, rest@.len() as int) =~= rest@);
    if starts_with_chars(&candidate, prefix) {
        let suffix = chars_of(FP_SUFFIX);
        match find_chars(&candidate, &suffix) {
            Some(rel) => {
                proof {
                    crate::text::lemma_find(candidate@, suffix@);
                    assert(crate::text::occurs_at(candidate@, suffix@, rel as int));
                }
                assert(rel + suffix.len() <= candidate.len());
                let t = slice_chars(&candidate, rel + suffix.len(), candidate.len());
                assert(t@ =~= candidate@.skip(rel + suffix@.len()));
                t
            },
            None => rest,
        }
    } else {
        rest
    }
}

/// Drop the fingerprint marker lines right after the closing sentinel
/// (see [`strip_leading_fp_markers_spec`]).
fn strip_leading_fp_markers(after_end: Vec<char>) -> (r: Vec<char>)
    ensures
        r@ == strip_leading_fp_markers_spec(after_end@),
{
    let body_prefix = chars_of(BODY_FP_PREFIX);
    let title_prefix = chars_of(TITLE_FP_PREFIX);
    let after1 = strip_one_marker_exec(after_end, &body_prefix);
    strip_one_marker_exec(after1, &title_prefix)
}

/// Rebuild a PR body around its managed section: the given managed text
/// and fingerprint block replace the old ones, everything the user wrote
/// before and after the sentinels survives verbatim. Bodies without
/// sentinels come back unchanged.
pub fn rebuild_body(pr_body: &str, managed: &str, body_fp: &str, title_fp: Option<&str>) -> (r:
    String)
    ensures
        r@ == rebuild_spec(
            pr_body@,
            managed@,
            body_fp@,
            match title_fp {
                Some(t) => Some(t@),
                None => None,
            },
        ),
{
    let b = chars_of(pr_body);
    let start_pat = chars_of(DESCRIPTION_START);
    let end_pat = chars_of(DESCRIPTION_END);
    let start = match find_chars(&b, &start_pat) {
        Some(s) => s,
        None => return string_of(&b),
    };
    proof {
        crate::text::lemma_find(b@, start_pat@);
    }
    let from_start = slice_chars(&b, start, b.len());
    assert(from_start@ =~= b@.skip(start as int));
    let end_rel = match find_chars(&from_start, &end_pat) {
        Some(e) => e,
        None => return string_of(&b),
    };
    proof {
        crate::text::lemma_find(from_start@, end_pat@);
        assert(crate::text::occurs_at(from_start@, end_pat@, end_rel as int));
    }
    assert(start + end_rel + end_pat.len() <= b.len());
    let end = start + end_rel + end_pat.len();
    let before = slice_chars(&b, 0, start);
    assert(before@ =~= b@.take(start as int));
    let after_end = slice_chars(&b, end, b.len());
    assert(after_end@ =~= b@.skip(end as int));
    let after = strip_leading_fp_markers(after_end);
    let mut v = before;
    push_all(&mut v, &start_pat);
    v.push('\n');
    push_str(&mut v, managed);
    v.push('\n');
    push_all(&mut v, &end_pat);
    v.push('\n');
    fp_block(&mut v, body_fp, title_fp);
    push_all(&mut v, &after);
    string_of(&v)
}

// ---------------------------------------------------------------------
// The three-way decision
// ---------------------------------------------------------------------

/// How one text compares across the recorded fingerprint of what Jiji
/// last wrote, the text on GitHub now, and the text the commit implies.
#[derive(Debug, Clone, Copy, PartialEq, Eq, Structural)]
pub enum TextReconcile {
    /// Already matching (fingerprint recorded).
    InSync,
    /// Matching, but no fingerprint recorded yet — record one.
    Backfill,
    /// The commit moved and the PR did not: safe to update.
    Update,
    /// The user edited the PR and the commit did not: respect it silently.
    Leave,
    /// Both moved (or the fingerprint is gone): no safe winner.
    Conflict,
}

/// The three-way decision.
pub open spec fn reconcile_text_spec(
    stored_fp: Option<Seq<char>>,
    current: Seq<char>,
    expected: Seq<char>,
) -> TextReconcile {
    if current == expected {
        match stored_fp {
            Some(_) => TextReconcile::InSync,
            None => TextReconcile::Backfill,
        }
    } else {
        match stored_fp {
            None => TextReconcile::Conflict,
            Some(base) => {
                let pr_edited = fingerprint_spec(current) != base;
                let commit_edited = fingerprint_spec(expected) != base;
                if commit_edited && !pr_edited {
                    TextReconcile::Update
                } else if !commit_edited && pr_edited {
                    TextReconcile::Leave
                } else if commit_edited && pr_edited {
                    TextReconcile::Conflict
                } else {
                    TextReconcile::InSync
                }
            },
        }
    }
}

/// The three-way decision for one text.
pub fn reconcile_text(stored_fp: Option<&str>, current: &str, expected: &str) -> (r: TextReconcile)
    ensures
        r == reconcile_text_spec(
            match stored_fp {
                Some(t) => Some(t@),
                None => None,
            },
            current@,
            expected@,
        ),
{
    if str_eq(current, expected) {
        return match stored_fp {
            Some(_) => TextReconcile::InSync,
            None => TextReconcile::Backfill,
        };
    }
    let base = match stored_fp {
        Some(b) => b,
        None => return TextReconcile::Conflict,
    };
    let fc = fingerprint(current);
    let fe = fingerprint(expected);
    let pr_edited = !str_eq(fc.as_str(), base);
    let commit_edited = !str_eq(fe.as_str(), base);
    if commit_edited && !pr_edited {
        TextReconcile::Update
    } else if !commit_edited && pr_edited {
        TextReconcile::Leave
    } else if commit_edited && pr_edited {
        TextReconcile::Conflict
    } else {
        // Differing texts with neither side moved from base is impossible;
        // treat it as nothing-to-do rather than guess.
        TextReconcile::InSync
    }
}

/// Why a PR's text is being left alone, for the plan's warnings.
#[derive(Debug, Clone, Copy, PartialEq, Eq, Structural)]
pub enum TextWarning {
    /// The managed description and the commit body both changed since Jiji
    /// last wrote the PR (`unfingerprinted`: the sentinels are there but
    /// the fingerprint is gone, so ownership cannot be proven).
    BodyConflict { unfingerprinted: bool },
    /// The title and the commit's first line both changed since Jiji last
    /// wrote the title.
    TitleConflict,
    /// The title differs from the commit and no fingerprint says who wrote
    /// it (a hand-created or pre-tracking PR).
    TitleDrift,
}

/// What a re-submit should do to one PR's text.
#[derive(Debug, Clone, PartialEq, Eq)]
pub struct TextPlan {
    /// The title to set, when the commit moved and the PR title did not.
    pub title: Option<String>,
    /// The full replacement body, when the managed section or its
    /// fingerprints should be rewritten.
    pub body: Option<String>,
    /// True when nothing visible changes — the write only records
    /// fingerprints (adopting a pre-tracking PR).
    pub seed: bool,
    pub warnings: Vec<TextWarning>,
}

/// The mathematical content of a [`TextPlan`].
pub ghost struct TextPlanView {
    pub title: Option<Seq<char>>,
    pub body: Option<Seq<char>>,
    pub seed: bool,
    pub warnings: Seq<TextWarning>,
}

/// The view of an optional string.
pub open spec fn opt_view(o: Option<String>) -> Option<Seq<char>> {
    match o {
        Some(s) => Some(s@),
        None => None,
    }
}

impl View for TextPlan {
    type V = TextPlanView;

    open spec fn view(&self) -> TextPlanView {
        TextPlanView {
            title: opt_view(self.title),
            body: opt_view(self.body),
            seed: self.seed,
            warnings: self.warnings@,
        }
    }
}

impl Default for TextPlan {
    fn default() -> (r: TextPlan)
        ensures
            r@ == empty_text_plan(),
    {
        TextPlan { title: None, body: None, seed: false, warnings: Vec::new() }
    }
}

/// The plan that writes nothing and warns about nothing.
pub open spec fn empty_text_plan() -> TextPlanView {
    TextPlanView { title: None, body: None, seed: false, warnings: Seq::empty() }
}

impl TextPlan {
    /// Whether the plan writes anything to GitHub.
    pub fn has_write(&self) -> (r: bool)
        ensures
            r == (self.title is Some || self.body is Some),
    {
        self.title.is_some() || self.body.is_some()
    }
}

/// The title fingerprint a body rewrite records: the title is claimed only
/// when Jiji set it (or it matches the commit).
pub open spec fn record_title_fp_spec(
    decision: TextReconcile,
    title_fp: Option<Seq<char>>,
    expected_title: Seq<char>,
) -> Option<Seq<char>> {
    match decision {
        TextReconcile::InSync | TextReconcile::Backfill | TextReconcile::Update => Some(
            fingerprint_spec(expected_title),
        ),
        TextReconcile::Leave | TextReconcile::Conflict => title_fp,
    }
}

/// The full decision for one PR's title and body.
pub open spec fn plan_pr_text_spec(
    current_title: Seq<char>,
    current_body: Seq<char>,
    expected_title: Seq<char>,
    expected_body: Seq<char>,
) -> TextPlanView {
    let title_fp = stored_title_fp_spec(current_body);
    let decision = reconcile_text_spec(title_fp, current_title, expected_title);
    let rtfp = record_title_fp_spec(decision, title_fp, expected_title);
    let title_updates = decision == TextReconcile::Update && title_fp is Some;
    let title = if title_updates {
        Some(expected_title)
    } else {
        None
    };
    let title_warnings: Seq<TextWarning> = if decision == TextReconcile::Conflict {
        if title_fp is Some {
            seq![TextWarning::TitleConflict]
        } else {
            seq![TextWarning::TitleDrift]
        }
    } else {
        Seq::empty()
    };
    match extract_managed_spec(current_body) {
        Some(managed) => {
            let body_fp = stored_body_fp_spec(current_body);
            let keep_fp = match body_fp {
                Some(f) => f,
                None => fingerprint_spec(managed),
            };
            let keep_body = if title_updates {
                Some(rebuild_spec(current_body, managed, keep_fp, rtfp))
            } else {
                None
            };
            match reconcile_text_spec(body_fp, managed, expected_body) {
                TextReconcile::Update => TextPlanView {
                    title,
                    body: Some(
                        rebuild_spec(
                            current_body,
                            expected_body,
                            fingerprint_spec(expected_body),
                            rtfp,
                        ),
                    ),
                    seed: false,
                    warnings: title_warnings,
                },
                TextReconcile::Backfill => TextPlanView {
                    title,
                    body: Some(
                        rebuild_spec(
                            current_body,
                            expected_body,
                            fingerprint_spec(expected_body),
                            rtfp,
                        ),
                    ),
                    seed: !title_updates,
                    warnings: title_warnings,
                },
                TextReconcile::InSync | TextReconcile::Leave => TextPlanView {
                    title,
                    body: keep_body,
                    seed: false,
                    warnings: title_warnings,
                },
                TextReconcile::Conflict => TextPlanView {
                    title,
                    body: keep_body,
                    seed: false,
                    warnings: title_warnings.push(
                        TextWarning::BodyConflict { unfingerprinted: body_fp is None },
                    ),
                },
            }
        },
        None => {
            let current_trimmed = trim(current_body);
            let adopted = if decision == TextReconcile::Conflict {
                wrap_with(expected_body, None)
            } else {
                wrap_managed_spec(expected_body, expected_title)
            };
            if current_trimmed.len() == 0 {
                TextPlanView {
                    title,
                    body: if expected_body.len() != 0 {
                        Some(adopted)
                    } else {
                        None
                    },
                    seed: false,
                    warnings: title_warnings,
                }
            } else if current_trimmed == expected_body {
                TextPlanView { title, body: Some(adopted), seed: true, warnings: title_warnings }
            } else {
                TextPlanView { title, body: None, seed: false, warnings: title_warnings }
            }
        },
    }
}

/// Decide what to do with an existing PR's title and body given the
/// commit-derived expectations. Pure — the caller supplies the on-GitHub
/// text and applies the answer.
///
/// Titles reconcile through their own fingerprint; without a stored title
/// fingerprint, drift only warns. A markerless body is adopted when
/// nothing could be lost: an empty body takes the commit's text outright,
/// and a body identical to the commit's text gains markers (`seed`). Any
/// other markerless body is the user's and is never touched.
pub fn plan_pr_text(
    current_title: &str,
    current_body: &str,
    expected_title: &str,
    expected_body: &str,
) -> (r: TextPlan)
    ensures
        r@ == plan_pr_text_spec(current_title@, current_body@, expected_title@, expected_body@),
{
    let title_fp = stored_title_fp(current_body);
    let decision = reconcile_text(title_fp, current_title, expected_title);
    let record_title_fp: Option<String> = match decision {
        TextReconcile::InSync | TextReconcile::Backfill | TextReconcile::Update => Some(
            fingerprint(expected_title),
        ),
        TextReconcile::Leave | TextReconcile::Conflict => match title_fp {
            Some(t) => Some(crate::text::owned(t)),
            None => None,
        },
    };
    let rtfp: Option<&str> = match &record_title_fp {
        Some(s) => Some(s.as_str()),
        None => None,
    };
    let title_updates = decision == TextReconcile::Update && title_fp.is_some();
    let title: Option<String> = if title_updates {
        Some(crate::text::owned(expected_title))
    } else {
        None
    };
    let mut warnings: Vec<TextWarning> = Vec::new();
    if decision == TextReconcile::Conflict {
        if title_fp.is_some() {
            warnings.push(TextWarning::TitleConflict);
        } else {
            warnings.push(TextWarning::TitleDrift);
        }
    }
    let ghost title_warnings = warnings@;
    proof {
        assert(title_warnings =~= (if decision == TextReconcile::Conflict {
            if title_fp is Some {
                seq![TextWarning::TitleConflict]
            } else {
                seq![TextWarning::TitleDrift]
            }
        } else {
            Seq::<TextWarning>::empty()
        }));
    }
    match extract_managed_body(current_body) {
        Some(managed) => {
            let body_fp = stored_body_fp(current_body);
            let keep_fp: String = match body_fp {
                Some(f) => crate::text::owned(f),
                None => fingerprint(managed),
            };
            match reconcile_text(body_fp, managed, expected_body) {
                TextReconcile::Update => {
                    let efp = fingerprint(expected_body);
                    let body = rebuild_body(current_body, expected_body, efp.as_str(), rtfp);
                    TextPlan { title, body: Some(body), seed: false, warnings }
                },
                TextReconcile::Backfill => {
                    let efp = fingerprint(expected_body);
                    let body = rebuild_body(current_body, expected_body, efp.as_str(), rtfp);
                    TextPlan { title, body: Some(body), seed: !title_updates, warnings }
                },
                TextReconcile::InSync | TextReconcile::Leave => {
                    // The managed text stays exactly as it is on GitHub; a
                    // rewrite happens only to carry a title change's
                    // fingerprint.
                    let body = if title_updates {
                        Some(rebuild_body(current_body, managed, keep_fp.as_str(), rtfp))
                    } else {
                        None
                    };
                    TextPlan { title, body, seed: false, warnings }
                },
                TextReconcile::Conflict => {
                    warnings.push(TextWarning::BodyConflict { unfingerprinted: body_fp.is_none() });
                    let body = if title_updates {
                        Some(rebuild_body(current_body, managed, keep_fp.as_str(), rtfp))
                    } else {
                        None
                    };
                    TextPlan { title, body, seed: false, warnings }
                },
            }
        },
        None => {
            let cb = chars_of(current_body);
            let trimmed = crate::text::trim_chars(&cb);
            let eb = chars_of(expected_body);
            if trimmed.len() == 0 {
                // Nothing to clobber: an empty body takes the commit's
                // text outright (and starts tracking).
                let body = if eb.len() != 0 {
                    Some(adopted_body(decision, expected_body, expected_title))
                } else {
                    None
                };
                TextPlan { title, body, seed: false, warnings }
            } else if chars_eq(&trimmed, &eb) {
                // Identical to the commit: adopting records that Jiji owns
                // it without changing a visible character.
                let body = adopted_body(decision, expected_body, expected_title);
                TextPlan { title, body: Some(body), seed: true, warnings }
            } else {
                // Any other markerless body is the user's; leave silently.
                TextPlan { title, body: None, seed: false, warnings }
            }
        },
    }
}

/// The body a markerless PR adopts; the title is claimed only when the
/// title decision is not a conflict.
fn adopted_body(decision: TextReconcile, expected_body: &str, expected_title: &str) -> (r: String)
    ensures
        r@ == (if decision == TextReconcile::Conflict {
            wrap_with(expected_body@, None)
        } else {
            wrap_managed_spec(expected_body@, expected_title@)
        }),
{
    if decision == TextReconcile::Conflict {
        let v = wrap_chars(expected_body, None);
        string_of(&v)
    } else {
        wrap_managed_body(expected_body, expected_title)
    }
}

} // verus!
