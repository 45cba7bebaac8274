//! Laws of the library as a whole: what reading a PR body gives back of
//! what Jiji wrote into it, and what a re-submit plans for a PR whose
//! text is already in step with its commit.

use vstd::prelude::*;

use crate::reconcile::{
    empty_text_plan, extract_managed_spec, fp_block_spec, managed_bounds, plan_pr_text_spec,
    rebuild_spec, reconcile_text_spec, stored_body_fp_spec, wrap_managed_spec, TextReconcile,
    BODY_FP_PREFIX, DESCRIPTION_END, DESCRIPTION_START, FP_SUFFIX,
};
use crate::template::new_pr_body_spec;
use crate::text::{
    contains, find, is_ws, lemma_find, lemma_find_is, lemma_trim_start_is_skip, occurs_at,
    starts_with, strip_prefix, trim, trim_end, trim_start,
};

verus! {

broadcast use vstd::seq_lib::group_seq_properties;

// ---------------------------------------------------------------------
// Trimming
// ---------------------------------------------------------------------

/// Trimming the start of a text with a newline after it: the trimmed text
/// with the newline, or nothing when the text was all whitespace.
proof fn lemma_trim_start_then_nl(m: Seq<char>)
    ensures
        trim_start(m + seq!['\n']) == (if trim_start(m).len() > 0 {
            trim_start(m) + seq!['\n']
        } else {
            Seq::<char>::empty()
        }),
    decreases m.len(),
{
    assert(is_ws('\n'));
    if m.len() == 0 {
        assert(m + seq!['\n'] =~= seq!['\n']);
        assert(seq!['\n'].drop_first() =~= Seq::<char>::empty());
        assert(trim_start(seq!['\n']) == trim_start(Seq::<char>::empty()));
    } else if is_ws(m[0]) {
        assert((m + seq!['\n']).drop_first() =~= m.drop_first() + seq!['\n']);
        lemma_trim_start_then_nl(m.drop_first());
    } else {
        assert((m + seq!['\n'])[0] == m[0]);
    }
}

/// Any text framed by newlines trims to what the text trims to.
proof fn lemma_trim_framed_any(m: Seq<char>)
    ensures
        trim(seq!['\n'] + m + seq!['\n']) == trim(m),
{
    let framed = seq!['\n'] + m + seq!['\n'];
    assert(framed.drop_first() =~= m + seq!['\n']);
    assert(is_ws('\n'));
    assert(trim_start(framed) == trim_start(m + seq!['\n']));
    lemma_trim_start_then_nl(m);
    if trim_start(m).len() > 0 {
        let ts = trim_start(m) + seq!['\n'];
        assert(ts.drop_last() =~= trim_start(m));
        assert(trim_end(ts) == trim_end(trim_start(m)));
    } else {
        assert(trim_start(m) =~= Seq::<char>::empty());
        assert(trim_end(Seq::<char>::empty()) == Seq::<char>::empty());
    }
}

// ---------------------------------------------------------------------
// Finding the closing sentinel
// ---------------------------------------------------------------------

/// The closing sentinel opens with `<` and holds no newline.
proof fn lemma_end_chars()
    ensures
        DESCRIPTION_END@.len() == 26,
        DESCRIPTION_END@[0] == '<',
        forall|i: int| 0 <= i < DESCRIPTION_END@.len() ==> DESCRIPTION_END@[i] != '\n',
{
    reveal_strlit("<!-- /jiji:description -->");
}

/// Right after the opening sentinel, the first closing sentinel is the one
/// that follows the managed text, when that text holds none itself.
proof fn lemma_end_after(m: Seq<char>, t: Seq<char>)
    requires
        !contains(m, DESCRIPTION_END@),
    ensures
        find(seq!['\n'] + m + seq!['\n'] + DESCRIPTION_END@ + t, DESCRIPTION_END@) == Some(m.len() + 2int),
{
    let e = DESCRIPTION_END@;
    let r = seq!['\n'] + m + seq!['\n'] + e + t;
    let ml: int = m.len() as int;
    let el: int = e.len() as int;
    lemma_end_chars();
    lemma_find(m, e);
    assert(r.subrange(ml + 2, ml + 2 + el) =~= e);
    assert(occurs_at(r, e, ml + 2));
    assert forall|j: int| 0 <= j < ml + 2 implies !occurs_at(r, e, j) by {
        if occurs_at(r, e, j) {
            assert(r.subrange(j, j + e.len())[0] == e[0]);
            if j == 0 {
                assert(r[0] == '\n');
            } else if j == ml + 1 {
                assert(r[j] == '\n');
            } else if j - 1 + el <= ml {
                assert(m.subrange(j - 1, j - 1 + el) =~= r.subrange(j, j + el));
                assert(occurs_at(m, e, j - 1));
            } else {
                let q = ml + 1 - j;
                assert(0 <= q < el);
                assert(r.subrange(j, j + el)[q] == r[ml + 1]);
                assert(r[ml + 1] == '\n');
            }
        }
    }
    lemma_find_is(r, e, ml + 2);
}

/// A body made of a prefix holding no opening sentinel, the opening
/// sentinel, the newline-framed managed text and the closing sentinel
/// reads back that managed text, trimmed.
proof fn lemma_reads_section(p: Seq<char>, m: Seq<char>, t: Seq<char>)
    requires
        forall|j: int| 0 <= j < p.len() ==> !occurs_at(p + DESCRIPTION_START@, DESCRIPTION_START@, j),
        !contains(m, DESCRIPTION_END@),
    ensures
        extract_managed_spec(
            p + DESCRIPTION_START@ + seq!['\n'] + m + seq!['\n'] + DESCRIPTION_END@ + t,
        ) == Some(trim(m)),
{
    let s = DESCRIPTION_START@;
    let e = DESCRIPTION_END@;
    let rest = seq!['\n'] + m + seq!['\n'] + e + t;
    let w = p + s + rest;
    let pl: int = p.len() as int;
    let sl: int = s.len() as int;
    let ml: int = m.len() as int;
    assert(w =~= p + s + seq!['\n'] + m + seq!['\n'] + e + t);
    assert(w.subrange(pl, pl + sl) =~= s);
    assert forall|j: int| 0 <= j < p.len() implies !occurs_at(w, s, j) by {
        if occurs_at(w, s, j) {
            assert((p + s).subrange(j, j + sl) =~= w.subrange(j, j + sl));
            assert(occurs_at(p + s, s, j));
        }
    }
    lemma_find_is(w, s, pl);
    let st = pl + sl;
    assert(w.skip(st) =~= rest);
    lemma_end_after(m, t);
    assert(managed_bounds(w) == Some((st, st + ml + 2)));
    assert(w.subrange(st, st + ml + 2) =~= seq!['\n'] + m + seq!['\n']);
    lemma_trim_framed_any(m);
}

// ---------------------------------------------------------------------
// Laws
// ---------------------------------------------------------------------

/// Reading back a freshly written PR body gives the commit text Jiji
/// wrote into it: extracting the managed section of `wrap_managed_body`'s
/// output answers the commit body trimmed, for any title — as long as the
/// body does not itself hold the closing sentinel.
pub proof fn law_extract_reads_back_wrap(body: Seq<char>, title: Seq<char>)
    requires
        !contains(body, DESCRIPTION_END@),
    ensures
        extract_managed_spec(wrap_managed_spec(body, title)) == Some(trim(body)),
{
    let t = seq!['\n'] + fp_block_spec(
        crate::reconcile::fingerprint_spec(body),
        Some(crate::reconcile::fingerprint_spec(title)),
    );
    let p = Seq::<char>::empty();
    assert(wrap_managed_spec(body, title) =~= p + DESCRIPTION_START@ + seq!['\n'] + body + seq!['\n']
        + DESCRIPTION_END@ + t);
    lemma_reads_section(p, body, t);
}


/// The body-fingerprint marker Jiji writes is found again, whatever the
/// managed text holds: some marker and its closing are read.
proof fn lemma_body_fp_found(body: Seq<char>, title: Seq<char>)
    ensures
        stored_body_fp_spec(wrap_managed_spec(body, title)) is Some,
{
    let w = wrap_managed_spec(body, title);
    let bf = crate::reconcile::fingerprint_spec(body);
    let tf = crate::reconcile::fingerprint_spec(title);
    let pre = DESCRIPTION_START@ + seq!['\n'] + body + seq!['\n'] + DESCRIPTION_END@ + seq!['\n'];
    let tail = seq!['\n'] + crate::reconcile::TITLE_FP_PREFIX@ + tf + FP_SUFFIX@;
    assert(w =~= pre + BODY_FP_PREFIX@ + bf + FP_SUFFIX@ + tail);
    let pos_p: int = pre.len() as int;
    let pl: int = BODY_FP_PREFIX@.len() as int;
    let pos_s: int = pos_p + pl + bf.len();
    let sl: int = FP_SUFFIX@.len() as int;
    assert(w.subrange(pos_p, pos_p + pl) =~= BODY_FP_PREFIX@);
    assert(occurs_at(w, BODY_FP_PREFIX@, pos_p));
    lemma_find(w, BODY_FP_PREFIX@);
    let k = find(w, BODY_FP_PREFIX@)->0;
    assert(k <= pos_p);
    let st = k + pl;
    let rest = w.skip(st);
    assert(rest.subrange(pos_s - st, pos_s - st + sl) =~= w.subrange(pos_s, pos_s + sl));
    assert(w.subrange(pos_s, pos_s + sl) =~= FP_SUFFIX@);
    assert(occurs_at(rest, FP_SUFFIX@, pos_s - st));
    lemma_find(rest, FP_SUFFIX@);
}

/// A PR whose title and body are exactly what Jiji last wrote for the
/// same commit plans no write and no warning on re-submit: submitting an
/// unchanged stack again leaves its PRs alone.
pub proof fn law_in_step_pr_plans_nothing(body: Seq<char>, title: Seq<char>)
    requires
        trim(body) == body,
        !contains(body, DESCRIPTION_END@),
    ensures
        plan_pr_text_spec(title, wrap_managed_spec(body, title), title, body) == empty_text_plan(),
{
    let w = wrap_managed_spec(body, title);
    law_extract_reads_back_wrap(body, title);
    lemma_body_fp_found(body, title);
    let title_fp = crate::reconcile::stored_title_fp_spec(w);
    let decision = reconcile_text_spec(title_fp, title, title);
    assert(decision == TextReconcile::InSync || decision == TextReconcile::Backfill);
    let body_fp = stored_body_fp_spec(w);
    assert(reconcile_text_spec(body_fp, body, body) == TextReconcile::InSync);
    assert(plan_pr_text_spec(title, w, title, body).warnings =~= Seq::<crate::reconcile::TextWarning>::empty());
}


/// Rewriting the managed section of a body that has one reads back the
/// new text: after an update, extraction answers what the update wrote,
/// whatever the user wrote around the section — as long as the new text
/// is trimmed and holds no closing sentinel.
pub proof fn law_extract_reads_back_rebuild(
    body: Seq<char>,
    managed: Seq<char>,
    body_fp: Seq<char>,
    title_fp: Option<Seq<char>>,
)
    requires
        extract_managed_spec(body) is Some,
        trim(managed) == managed,
        !contains(managed, DESCRIPTION_END@),
    ensures
        extract_managed_spec(rebuild_spec(body, managed, body_fp, title_fp)) == Some(managed),
{
    let s = DESCRIPTION_START@;
    let e = DESCRIPTION_END@;
    let sl: int = s.len() as int;
    lemma_find(body, s);
    let start = find(body, s)->0;
    let st = start + sl;
    let after = body.skip(st);
    lemma_find(after, e);
    let j = find(after, e)->0;
    let from_start = body.skip(start);
    assert(from_start.subrange(sl + j, sl + j + e.len()) =~= after.subrange(j, j + e.len()));
    assert(occurs_at(from_start, e, sl + j));
    lemma_find(from_start, e);
    let end_rel = find(from_start, e)->0;
    let end = start + end_rel + e.len();
    let p = body.take(start);
    assert(body.subrange(start, start + sl) == s);
    assert(body.take(start + sl) =~= p + s);
    assert forall|k: int| 0 <= k < p.len() implies !occurs_at(p + s, s, k) by {
        if occurs_at(p + s, s, k) {
            assert(body.subrange(k, k + sl) =~= (p + s).subrange(k, k + sl));
            assert(occurs_at(body, s, k));
        }
    }
    let t = seq!['\n'] + fp_block_spec(body_fp, title_fp) + crate::reconcile::strip_leading_fp_markers_spec(
        body.skip(end),
    );
    assert(rebuild_spec(body, managed, body_fp, title_fp) =~= p + s + seq!['\n'] + managed + seq!['\n'] + e + t);
    lemma_reads_section(p, managed, t);
}

/// The three-way decision on one text, against the fingerprint of what
/// Jiji last wrote: matching texts are in step; a commit that moved while
/// the PR did not is an update; a PR edited while the commit did not is
/// left alone; both moved is a conflict, never a guess; and without a
/// recorded fingerprint, differing texts are a conflict too.
pub proof fn law_three_way(base: Seq<char>, current: Seq<char>, expected: Seq<char>)
    ensures
        current == expected ==> reconcile_text_spec(Some(base), current, expected) == TextReconcile::InSync,
        current != expected && crate::reconcile::fingerprint_spec(current) == base
            && crate::reconcile::fingerprint_spec(expected) != base ==> reconcile_text_spec(
            Some(base),
            current,
            expected,
        ) == TextReconcile::Update,
        current != expected && crate::reconcile::fingerprint_spec(current) != base
            && crate::reconcile::fingerprint_spec(expected) == base ==> reconcile_text_spec(
            Some(base),
            current,
            expected,
        ) == TextReconcile::Leave,
        current != expected && crate::reconcile::fingerprint_spec(current) != base
            && crate::reconcile::fingerprint_spec(expected) != base ==> reconcile_text_spec(
            Some(base),
            current,
            expected,
        ) == TextReconcile::Conflict,
        current != expected ==> reconcile_text_spec(None, current, expected) == TextReconcile::Conflict,
{
}


// ---------------------------------------------------------------------
// Reading the body fingerprint back
// ---------------------------------------------------------------------

/// A hexadecimal digit: an ASCII digit or `a`–`f`.
spec fn is_hex_char(c: char) -> bool {
    ('0' <= c && c <= '9') || ('a' <= c && c <= 'f')
}

/// Fingerprints are made of hex digits only.
proof fn lemma_hex_chars(n: nat, k: nat)
    ensures
        forall|i: int| 0 <= i < crate::reconcile::hex_digits(n, k).len() ==> is_hex_char(
            #[trigger] crate::reconcile::hex_digits(n, k)[i],
        ),
    decreases k,
{
    if k > 0 {
        lemma_hex_chars(n / 16, (k - 1) as nat);
        let d = n % 16;
        let prev = crate::reconcile::hex_digits(n / 16, (k - 1) as nat);
        let cur = crate::reconcile::hex_digits(n, k);
        assert(cur == prev.push(crate::reconcile::hex_digit(d)));
        assert(is_hex_char(crate::reconcile::hex_digit(d)));
        assert forall|i: int| 0 <= i < cur.len() implies is_hex_char(#[trigger] cur[i]) by {
            if i < prev.len() {
                assert(cur[i] == prev[i]);
            }
        }
    }
}

/// A fingerprint holds no whitespace and no space: it trims to itself and
/// the marker's closing cannot start inside it.
proof fn lemma_fp_shape(text: Seq<char>)
    ensures
        crate::reconcile::fingerprint_spec(text).len() == 16,
        forall|i: int| 0 <= i < crate::reconcile::fingerprint_spec(text).len() ==> {
            let c = #[trigger] crate::reconcile::fingerprint_spec(text)[i];
            c != ' ' && c != '>' && c != '<' && !is_ws(c)
        },
        trim(crate::reconcile::fingerprint_spec(text)) == crate::reconcile::fingerprint_spec(text),
{
    let f = crate::reconcile::fingerprint_spec(text);
    let n = crate::reconcile::fnv(vstd::utf8::encode_utf8(text)) as nat;
    crate::reconcile::lemma_hex_digits_len(n, 16);
    lemma_hex_chars(n, 16);
    assert forall|i: int| 0 <= i < f.len() implies #[trigger] f[i] != ' ' && f[i] != '>' && f[i] != '<' && !is_ws(
        f[i],
    ) by {
        assert(is_hex_char(f[i]));
    }
    assert(trim_start(f) == f);
    assert(trim_end(f) == f);
}

/// The marker prefix opens with `<`, holds no newline, and occurs in
/// neither sentinel.
proof fn lemma_body_prefix_chars()
    ensures
        BODY_FP_PREFIX@.len() == 18,
        forall|i: int| 0 <= i < BODY_FP_PREFIX@.len() ==> BODY_FP_PREFIX@[i] != '\n',
        !contains(DESCRIPTION_START@, BODY_FP_PREFIX@),
        !contains(DESCRIPTION_END@, BODY_FP_PREFIX@),
{
    reveal_strlit("<!-- jiji:body-fp ");
    reveal_strlit("<!-- jiji:description -->");
    reveal_strlit("<!-- /jiji:description -->");
    let p = BODY_FP_PREFIX@;
    let s = DESCRIPTION_START@;
    let e = DESCRIPTION_END@;
    assert forall|j: int| !occurs_at(s, p, j) by {
        if occurs_at(s, p, j) {
            assert(s.subrange(j, j + 18)[0] == p[0]);
            assert(s.subrange(j, j + 18)[10] == p[10]);
            assert(0 <= j <= 7);
            assert(j == 0 || j == 1 || j == 2 || j == 3 || j == 4 || j == 5 || j == 6 || j == 7);
        }
    }
    lemma_find(s, p);
    assert forall|j: int| !occurs_at(e, p, j) by {
        if occurs_at(e, p, j) {
            assert(e.subrange(j, j + 18)[0] == p[0]);
            assert(e.subrange(j, j + 18)[5] == p[5]);
            assert(0 <= j <= 8);
            assert(j == 0 || j == 1 || j == 2 || j == 3 || j == 4 || j == 5 || j == 6 || j == 7 || j == 8);
        }
    }
    lemma_find(e, p);
}

/// A pattern without newlines that a line does not hold cannot start
/// anywhere in that line or on the newline ending it.
proof fn lemma_not_in_line(x: Seq<char>, y: Seq<char>, pat: Seq<char>)
    requires
        pat.len() > 0,
        forall|i: int| 0 <= i < pat.len() ==> pat[i] != '\n',
        !contains(x, pat),
    ensures
        forall|j: int| 0 <= j <= x.len() ==> !occurs_at(x + seq!['\n'] + y, pat, j),
{
    let w = x + seq!['\n'] + y;
    let xl: int = x.len() as int;
    let pl: int = pat.len() as int;
    lemma_find(x, pat);
    assert forall|j: int| 0 <= j <= xl implies !occurs_at(w, pat, j) by {
        if occurs_at(w, pat, j) {
            if j + pl <= xl {
                assert(x.subrange(j, j + pl) =~= w.subrange(j, j + pl));
                assert(occurs_at(x, pat, j));
            } else {
                assert(w.subrange(j, j + pl)[xl - j] == w[xl]);
                assert(w[xl] == '\n');
            }
        }
    }
}

/// An occurrence past a line's newline is an occurrence in the rest.
proof fn lemma_occurs_shift(x: Seq<char>, y: Seq<char>, pat: Seq<char>, j: int)
    requires
        j > x.len(),
        occurs_at(x + seq!['\n'] + y, pat, j),
    ensures
        occurs_at(y, pat, j - x.len() - 1),
{
    let w = x + seq!['\n'] + y;
    let k = j - x.len() - 1;
    assert(y.subrange(k, k + pat.len()) =~= w.subrange(j, j + pat.len()));
}

/// The body Jiji wrote for `written` and `title`, with the text inside
/// the managed section replaced by `edited` — what a hand edit on GitHub
/// leaves behind.
pub open spec fn hand_edited(edited: Seq<char>, written: Seq<char>, title: Seq<char>) -> Seq<char> {
    DESCRIPTION_START@ + seq!['\n'] + edited + seq!['\n'] + DESCRIPTION_END@ + seq!['\n'] + fp_block_spec(
        crate::reconcile::fingerprint_spec(written),
        Some(crate::reconcile::fingerprint_spec(title)),
    )
}

/// The body fingerprint recorded after the managed section is the one
/// read back, when the managed text holds no fingerprint marker itself.
proof fn lemma_body_fp_exact(managed: Seq<char>, written: Seq<char>, title: Seq<char>)
    requires
        !contains(managed, BODY_FP_PREFIX@),
    ensures
        stored_body_fp_spec(hand_edited(managed, written, title)) == Some(
            crate::reconcile::fingerprint_spec(written),
        ),
{
    let w = hand_edited(managed, written, title);
    let p = BODY_FP_PREFIX@;
    let bf = crate::reconcile::fingerprint_spec(written);
    let tf = crate::reconcile::fingerprint_spec(title);
    let tail = seq!['\n'] + crate::reconcile::TITLE_FP_PREFIX@ + tf + FP_SUFFIX@;
    let z = p + bf + FP_SUFFIX@ + tail;
    let y2 = DESCRIPTION_END@ + seq!['\n'] + z;
    let y1 = managed + seq!['\n'] + y2;
    assert(w =~= DESCRIPTION_START@ + seq!['\n'] + y1);
    lemma_body_prefix_chars();
    lemma_fp_shape(written);
    reveal_strlit(" -->");
    let sl: int = DESCRIPTION_START@.len() as int;
    let bl: int = managed.len() as int;
    let el: int = DESCRIPTION_END@.len() as int;
    let pos_p: int = sl + 1 + bl + 1 + el + 1;
    lemma_not_in_line(DESCRIPTION_START@, y1, p);
    lemma_not_in_line(managed, y2, p);
    lemma_not_in_line(DESCRIPTION_END@, z, p);
    assert forall|j: int| 0 <= j < pos_p implies !occurs_at(w, p, j) by {
        if occurs_at(w, p, j) {
            if j > sl {
                lemma_occurs_shift(DESCRIPTION_START@, y1, p, j);
                let j1 = j - sl - 1;
                if j1 > bl {
                    lemma_occurs_shift(managed, y2, p, j1);
                    let j2 = j1 - bl - 1;
                    if j2 > el {
                        assert(j2 == el + 1);
                        lemma_occurs_shift(DESCRIPTION_END@, z, p, j2);
                        assert(false);
                    }
                }
            }
        }
    }
    assert(w.subrange(pos_p, pos_p + 18) =~= p);
    lemma_find_is(w, p, pos_p);
    let st = pos_p + 18;
    let rest = w.skip(st);
    assert(rest =~= bf + FP_SUFFIX@ + tail);
    assert(rest.subrange(16, 20) =~= FP_SUFFIX@);
    assert forall|j: int| 0 <= j < 16 implies !occurs_at(rest, FP_SUFFIX@, j) by {
        if occurs_at(rest, FP_SUFFIX@, j) {
            assert(rest.subrange(j, j + 4)[0] == rest[j]);
            assert(rest[j] == bf[j]);
        }
    }
    lemma_find_is(rest, FP_SUFFIX@, 16);
    assert(w.subrange(st, st + 16) =~= bf);
}

/// A PR Jiji wrote for an earlier commit text, and nobody edited since,
/// is updated when the commit's text moved: the plan rewrites the body,
/// the new body reads back the new commit text, the title (unchanged)
/// is left alone, and nothing warns. (The moved text is told apart by its
/// fingerprint, so it must fingerprint differently from the old one.)
pub proof fn law_moved_commit_updates_untouched_pr(
    old_body: Seq<char>,
    new_body: Seq<char>,
    title: Seq<char>,
)
    requires
        trim(old_body) == old_body,
        trim(new_body) == new_body,
        !contains(old_body, DESCRIPTION_END@),
        !contains(new_body, DESCRIPTION_END@),
        !contains(old_body, BODY_FP_PREFIX@),
        crate::reconcile::fingerprint_spec(new_body) != crate::reconcile::fingerprint_spec(old_body),
    ensures
        ({
            let plan = plan_pr_text_spec(title, wrap_managed_spec(old_body, title), title, new_body);
            &&& plan.title is None
            &&& plan.body matches Some(b) && extract_managed_spec(b) == Some(new_body)
            &&& !plan.seed
            &&& plan.warnings.len() == 0
        }),
{
    let w = wrap_managed_spec(old_body, title);
    law_extract_reads_back_wrap(old_body, title);
    assert(w == hand_edited(old_body, old_body, title));
    lemma_body_fp_exact(old_body, old_body, title);
    let title_fp = crate::reconcile::stored_title_fp_spec(w);
    let decision = reconcile_text_spec(title_fp, title, title);
    assert(decision == TextReconcile::InSync || decision == TextReconcile::Backfill);
    assert(old_body != new_body);
    assert(reconcile_text_spec(stored_body_fp_spec(w), old_body, new_body) == TextReconcile::Update);
    let rtfp = crate::reconcile::record_title_fp_spec(decision, title_fp, title);
    law_extract_reads_back_rebuild(w, new_body, crate::reconcile::fingerprint_spec(new_body), rtfp);
}


/// A hand edit on GitHub survives a re-submit of an unchanged commit: when
/// the managed text was edited away from what Jiji wrote (and the commit
/// text is still what Jiji wrote), the plan writes nothing and warns about
/// nothing — the edit is respected silently.
pub proof fn law_hand_edit_is_left_alone(written: Seq<char>, edited: Seq<char>, title: Seq<char>)
    requires
        trim(edited) == edited,
        !contains(edited, DESCRIPTION_END@),
        !contains(edited, BODY_FP_PREFIX@),
        crate::reconcile::fingerprint_spec(edited) != crate::reconcile::fingerprint_spec(written),
    ensures
        plan_pr_text_spec(title, hand_edited(edited, written, title), title, written) == empty_text_plan(),
{
    let w = hand_edited(edited, written, title);
    let t = seq!['\n'] + fp_block_spec(
        crate::reconcile::fingerprint_spec(written),
        Some(crate::reconcile::fingerprint_spec(title)),
    );
    assert(w =~= Seq::<char>::empty() + DESCRIPTION_START@ + seq!['\n'] + edited + seq!['\n'] + DESCRIPTION_END@ + t);
    lemma_reads_section(Seq::<char>::empty(), edited, t);
    lemma_body_fp_exact(edited, written, title);
    let title_fp = crate::reconcile::stored_title_fp_spec(w);
    let decision = reconcile_text_spec(title_fp, title, title);
    assert(decision == TextReconcile::InSync || decision == TextReconcile::Backfill);
    assert(edited != written);
    assert(reconcile_text_spec(stored_body_fp_spec(w), edited, written) == TextReconcile::Leave);
    assert(plan_pr_text_spec(title, w, title, written).warnings =~= Seq::<crate::reconcile::TextWarning>::empty());
}


// ---------------------------------------------------------------------
// The template below the managed section
// ---------------------------------------------------------------------

/// Neither fingerprint prefix holds a `>`.
proof fn lemma_prefixes_have_no_close()
    ensures
        forall|i: int| 0 <= i < BODY_FP_PREFIX@.len() ==> BODY_FP_PREFIX@[i] != '>',
        forall|i: int|
            0 <= i < crate::reconcile::TITLE_FP_PREFIX@.len() ==> crate::reconcile::TITLE_FP_PREFIX@[i] != '>',
{
    reveal_strlit("<!-- jiji:body-fp ");
    reveal_strlit("<!-- jiji:title-fp ");
}

/// The marker line that follows a fingerprint prefix ends right after the
/// fingerprint: neither prefix nor fingerprint holds a marker's closing.
proof fn lemma_marker_closing(prefix: Seq<char>, f: Seq<char>, rest: Seq<char>)
    requires
        prefix == BODY_FP_PREFIX@ || prefix == crate::reconcile::TITLE_FP_PREFIX@,
        f.len() == 16,
        forall|i: int| 0 <= i < f.len() ==> #[trigger] f[i] != ' ' && f[i] != '>',
    ensures
        find(prefix + f + FP_SUFFIX@ + rest, FP_SUFFIX@) == Some(prefix.len() + 16int),
{
    lemma_prefixes_have_no_close();
    reveal_strlit(" -->");
    let c = prefix + f + FP_SUFFIX@ + rest;
    let pl: int = prefix.len() as int;
    assert(c.subrange(pl + 16, pl + 20) =~= FP_SUFFIX@);
    assert forall|j: int| 0 <= j < pl + 16 implies !occurs_at(c, FP_SUFFIX@, j) by {
        if occurs_at(c, FP_SUFFIX@, j) {
            assert(c.subrange(j, j + 4)[0] == c[j]);
            assert(c.subrange(j, j + 4)[3] == c[j + 3]);
            assert(c[j] == ' ');
            assert(c[j + 3] == '>');
            if j + 3 < pl {
                assert(c[j + 3] == prefix[j + 3]);
            } else if j + 3 < pl + 16 {
                assert(c[j + 3] == f[j + 3 - pl]);
            } else {
                assert(c[j] == f[j - pl]);
            }
        }
    }
    lemma_find_is(c, FP_SUFFIX@, pl + 16);
}

/// Stripping one marker line drops exactly that line.
proof fn lemma_strip_one(prefix: Seq<char>, f: Seq<char>, rest: Seq<char>)
    requires
        prefix == BODY_FP_PREFIX@ || prefix == crate::reconcile::TITLE_FP_PREFIX@,
        f.len() == 16,
        forall|i: int| 0 <= i < f.len() ==> #[trigger] f[i] != ' ' && f[i] != '>',
    ensures
        crate::reconcile::strip_one_marker(seq!['\n'] + prefix + f + FP_SUFFIX@ + rest, prefix) == rest,
{
    let r = seq!['\n'] + prefix + f + FP_SUFFIX@ + rest;
    let c = prefix + f + FP_SUFFIX@ + rest;
    assert(r.take(1) =~= seq!['\n']);
    assert(starts_with(r, seq!['\n']));
    assert(r.skip(1) =~= c);
    assert(strip_prefix(r, seq!['\n']) == Some(c));
    assert(c.take(prefix.len() as int) =~= prefix);
    lemma_marker_closing(prefix, f, rest);
    reveal_strlit(" -->");
    assert(c.skip(prefix.len() + 16int + 4) =~= rest);
}

/// A new PR body, spelled out: the managed section, its fingerprint
/// lines, and the template below.
proof fn lemma_new_body_shape(body: Seq<char>, title: Seq<char>, template: Seq<char>)
    requires
        trim(template).len() != 0,
    ensures
        new_pr_body_spec(body, title, Some(template)) == DESCRIPTION_START@ + seq!['\n'] + body + seq!['\n']
            + DESCRIPTION_END@ + fp_lines(body, title) + seq!['\n', '\n'] + trim_end(template),
{
    assert(new_pr_body_spec(body, title, Some(template)) =~= DESCRIPTION_START@ + seq!['\n'] + body
        + seq!['\n'] + DESCRIPTION_END@ + fp_lines(body, title) + seq!['\n', '\n'] + trim_end(template));
}

/// The fingerprint lines Jiji writes after the closing sentinel.
spec fn fp_lines(body: Seq<char>, title: Seq<char>) -> Seq<char> {
    seq!['\n'] + BODY_FP_PREFIX@ + crate::reconcile::fingerprint_spec(body) + FP_SUFFIX@ + seq!['\n']
        + crate::reconcile::TITLE_FP_PREFIX@ + crate::reconcile::fingerprint_spec(title) + FP_SUFFIX@
}

/// The first closing sentinel of a body that opens with the opening
/// sentinel is the one after the managed text.
proof fn lemma_first_end(body: Seq<char>, tail: Seq<char>)
    requires
        !contains(body, DESCRIPTION_END@),
    ensures
        find(DESCRIPTION_START@ + seq!['\n'] + body + seq!['\n'] + DESCRIPTION_END@ + tail, DESCRIPTION_END@)
            == Some((DESCRIPTION_START@.len() + body.len() + 2) as int),
{
    let s = DESCRIPTION_START@;
    let e = DESCRIPTION_END@;
    reveal_strlit("<!-- jiji:description -->");
    lemma_end_chars();
    let sl: int = s.len() as int;
    let bl: int = body.len() as int;
    let el: int = e.len() as int;
    let rest1 = seq!['\n'] + body + seq!['\n'] + e + tail;
    let w = s + rest1;
    assert(w =~= DESCRIPTION_START@ + seq!['\n'] + body + seq!['\n'] + DESCRIPTION_END@ + tail);
    lemma_end_after(body, tail);
    lemma_find(rest1, e);
    assert(w.subrange(sl + bl + 2, sl + bl + 2 + el) =~= rest1.subrange(bl + 2, bl + 2 + el));
    assert forall|j: int| 0 <= j < sl + bl + 2 implies !occurs_at(w, e, j) by {
        if occurs_at(w, e, j) {
            if j < sl {
                assert(w.subrange(j, j + el)[sl - j] == w[sl]);
                assert(w[sl] == '\n');
            } else {
                assert(rest1.subrange(j - sl, j - sl + el) =~= w.subrange(j, j + el));
                assert(occurs_at(rest1, e, j - sl));
            }
        }
    }
    lemma_find_is(w, e, sl + bl + 2);
}

/// Stripping the fingerprint lines Jiji wrote leaves what follows them.
proof fn lemma_strip_fp_lines(body: Seq<char>, title: Seq<char>, below: Seq<char>)
    ensures
        crate::reconcile::strip_leading_fp_markers_spec(fp_lines(body, title) + below) == below,
{
    let bf = crate::reconcile::fingerprint_spec(body);
    let tf = crate::reconcile::fingerprint_spec(title);
    let tp = crate::reconcile::TITLE_FP_PREFIX@;
    lemma_fp_shape(body);
    lemma_fp_shape(title);
    let second = seq!['\n'] + tp + tf + FP_SUFFIX@ + below;
    assert(fp_lines(body, title) + below =~= seq!['\n'] + BODY_FP_PREFIX@ + bf + FP_SUFFIX@ + second);
    lemma_strip_one(BODY_FP_PREFIX@, bf, second);
    lemma_strip_one(tp, tf, below);
}

/// A new PR body — the managed section with the repo's template below —
/// reads back the commit text, and any later rewrite of the managed
/// section (new text, new fingerprints) keeps the filled-in template
/// below it verbatim.
pub proof fn law_template_survives_rewrites(
    body: Seq<char>,
    title: Seq<char>,
    template: Seq<char>,
    managed: Seq<char>,
    body_fp: Seq<char>,
    title_fp: Option<Seq<char>>,
)
    requires
        trim(body) == body,
        !contains(body, DESCRIPTION_END@),
        trim(template).len() != 0,
    ensures
        extract_managed_spec(new_pr_body_spec(body, title, Some(template))) == Some(body),
        rebuild_spec(new_pr_body_spec(body, title, Some(template)), managed, body_fp, title_fp)
            == DESCRIPTION_START@ + seq!['\n'] + managed + seq!['\n'] + DESCRIPTION_END@ + seq!['\n']
            + fp_block_spec(body_fp, title_fp) + seq!['\n', '\n'] + trim_end(template),
{
    let s = DESCRIPTION_START@;
    let e = DESCRIPTION_END@;
    let below = seq!['\n', '\n'] + trim_end(template);
    let after = fp_lines(body, title) + below;
    let w = new_pr_body_spec(body, title, Some(template));
    lemma_new_body_shape(body, title, template);
    assert(w =~= Seq::<char>::empty() + s + seq!['\n'] + body + seq!['\n'] + e + after);
    lemma_reads_section(Seq::<char>::empty(), body, after);
    assert(w =~= s + seq!['\n'] + body + seq!['\n'] + e + after);
    assert(w.subrange(0, s.len() as int) =~= s);
    lemma_find_is(w, s, 0);
    assert(w.skip(0) =~= w);
    lemma_first_end(body, after);
    let end: int = (s.len() + body.len() + 2 + e.len()) as int;
    assert(w.skip(end) =~= after);
    lemma_strip_fp_lines(body, title, below);
    assert(w.take(0) =~= Seq::<char>::empty());
}


// ---------------------------------------------------------------------
// Titles
// ---------------------------------------------------------------------

/// The title prefix opens with `<` (its only one), holds no newline, and
/// occurs in neither sentinel.
proof fn lemma_title_prefix_chars()
    ensures
        crate::reconcile::TITLE_FP_PREFIX@.len() == 19,
        crate::reconcile::TITLE_FP_PREFIX@[0] == '<',
        crate::reconcile::TITLE_FP_PREFIX@[10] == 't',
        forall|i: int|
            0 <= i < crate::reconcile::TITLE_FP_PREFIX@.len() ==> crate::reconcile::TITLE_FP_PREFIX@[i] != '\n',
        !contains(DESCRIPTION_START@, crate::reconcile::TITLE_FP_PREFIX@),
        !contains(DESCRIPTION_END@, crate::reconcile::TITLE_FP_PREFIX@),
        forall|i: int| 0 < i < BODY_FP_PREFIX@.len() ==> BODY_FP_PREFIX@[i] != '<',
        BODY_FP_PREFIX@[10] == 'b',
        forall|i: int| 0 <= i < FP_SUFFIX@.len() ==> FP_SUFFIX@[i] != '<',
{
    reveal_strlit("<!-- jiji:title-fp ");
    reveal_strlit("<!-- jiji:body-fp ");
    reveal_strlit("<!-- jiji:description -->");
    reveal_strlit("<!-- /jiji:description -->");
    reveal_strlit(" -->");
    let p = crate::reconcile::TITLE_FP_PREFIX@;
    let s = DESCRIPTION_START@;
    let e = DESCRIPTION_END@;
    assert forall|j: int| !occurs_at(s, p, j) by {
        if occurs_at(s, p, j) {
            assert(s.subrange(j, j + 19)[0] == p[0]);
            assert(s.subrange(j, j + 19)[10] == p[10]);
            assert(0 <= j <= 6);
            assert(j == 0 || j == 1 || j == 2 || j == 3 || j == 4 || j == 5 || j == 6);
        }
    }
    lemma_find(s, p);
    assert forall|j: int| !occurs_at(e, p, j) by {
        if occurs_at(e, p, j) {
            assert(e.subrange(j, j + 19)[0] == p[0]);
            assert(e.subrange(j, j + 19)[5] == p[5]);
            assert(0 <= j <= 7);
            assert(j == 0 || j == 1 || j == 2 || j == 3 || j == 4 || j == 5 || j == 6 || j == 7);
        }
    }
    lemma_find(e, p);
}

/// The body-fingerprint line holds no title marker.
proof fn lemma_body_line_has_no_title_marker(f: Seq<char>)
    requires
        forall|i: int| 0 <= i < f.len() ==> #[trigger] f[i] != '<',
    ensures
        !contains(BODY_FP_PREFIX@ + f + FP_SUFFIX@, crate::reconcile::TITLE_FP_PREFIX@),
{
    lemma_title_prefix_chars();
    lemma_body_prefix_chars();
    let line = BODY_FP_PREFIX@ + f + FP_SUFFIX@;
    let p = crate::reconcile::TITLE_FP_PREFIX@;
    assert forall|j: int| !occurs_at(line, p, j) by {
        if occurs_at(line, p, j) {
            assert(line.subrange(j, j + 19)[0] == line[j]);
            assert(line[j] == '<');
            if j == 0 {
                assert(line.subrange(0, 19)[10] == line[10]);
                assert(line[10] == BODY_FP_PREFIX@[10]);
            } else if j < 18 {
                assert(line[j] == BODY_FP_PREFIX@[j]);
            } else if j < 18 + f.len() {
                assert(line[j] == f[j - 18]);
            } else {
                assert(line[j] == FP_SUFFIX@[j - 18 - f.len()]);
            }
        }
    }
    lemma_find(line, p);
}

/// The title fingerprint Jiji writes is the one read back, when the
/// managed text holds no title marker of its own.
proof fn lemma_title_fp_exact(managed: Seq<char>, written: Seq<char>, title: Seq<char>)
    requires
        !contains(managed, crate::reconcile::TITLE_FP_PREFIX@),
    ensures
        crate::reconcile::stored_title_fp_spec(hand_edited(managed, written, title)) == Some(
            crate::reconcile::fingerprint_spec(title),
        ),
{
    let w = hand_edited(managed, written, title);
    let tp = crate::reconcile::TITLE_FP_PREFIX@;
    let bf = crate::reconcile::fingerprint_spec(written);
    let tf = crate::reconcile::fingerprint_spec(title);
    let bline = BODY_FP_PREFIX@ + bf + FP_SUFFIX@;
    let z = tp + tf + FP_SUFFIX@;
    let y3 = bline + seq!['\n'] + z;
    let y2 = DESCRIPTION_END@ + seq!['\n'] + y3;
    let y1 = managed + seq!['\n'] + y2;
    assert(w =~= DESCRIPTION_START@ + seq!['\n'] + y1);
    lemma_title_prefix_chars();
    lemma_fp_shape(written);
    lemma_fp_shape(title);
    lemma_body_line_has_no_title_marker(bf);
    let sl: int = DESCRIPTION_START@.len() as int;
    let ml: int = managed.len() as int;
    let el: int = DESCRIPTION_END@.len() as int;
    let ll: int = bline.len() as int;
    let pos: int = sl + 1 + ml + 1 + el + 1 + ll + 1;
    lemma_not_in_line(DESCRIPTION_START@, y1, tp);
    lemma_not_in_line(managed, y2, tp);
    lemma_not_in_line(DESCRIPTION_END@, y3, tp);
    lemma_not_in_line(bline, z, tp);
    assert forall|j: int| 0 <= j < pos implies !occurs_at(w, tp, j) by {
        if occurs_at(w, tp, j) {
            if j > sl {
                lemma_occurs_shift(DESCRIPTION_START@, y1, tp, j);
                let j1 = j - sl - 1;
                if j1 > ml {
                    lemma_occurs_shift(managed, y2, tp, j1);
                    let j2 = j1 - ml - 1;
                    if j2 > el {
                        lemma_occurs_shift(DESCRIPTION_END@, y3, tp, j2);
                        let j3 = j2 - el - 1;
                        if j3 > ll {
                            assert(j3 == ll + 1);
                            lemma_occurs_shift(bline, z, tp, j3);
                            assert(false);
                        }
                    }
                }
            }
        }
    }
    assert(w.subrange(pos, pos + 19) =~= tp);
    lemma_find_is(w, tp, pos);
    let st = pos + 19;
    let rest = w.skip(st);
    assert(rest =~= tf + FP_SUFFIX@);
    reveal_strlit(" -->");
    assert(rest.subrange(16, 20) =~= FP_SUFFIX@);
    assert forall|j: int| 0 <= j < 16 implies !occurs_at(rest, FP_SUFFIX@, j) by {
        if occurs_at(rest, FP_SUFFIX@, j) {
            assert(rest.subrange(j, j + 4)[0] == rest[j]);
            assert(rest[j] == tf[j]);
        }
    }
    lemma_find_is(rest, FP_SUFFIX@, 16);
    assert(w.subrange(st, st + 16) =~= tf);
}

/// A PR title Jiji set, untouched since, follows the commit when the
/// commit's first line moved: the plan sets the new title, rewrites the
/// body only to record the new title's fingerprint (its text reads back
/// unchanged), and warns about nothing. (The moved title is told apart by
/// its fingerprint, so it must fingerprint differently from the old one.)
pub proof fn law_moved_title_updates_untouched_pr(body: Seq<char>, old_title: Seq<char>, new_title: Seq<char>)
    requires
        trim(body) == body,
        !contains(body, DESCRIPTION_END@),
        !contains(body, BODY_FP_PREFIX@),
        !contains(body, crate::reconcile::TITLE_FP_PREFIX@),
        crate::reconcile::fingerprint_spec(new_title) != crate::reconcile::fingerprint_spec(old_title),
    ensures
        ({
            let plan = plan_pr_text_spec(old_title, wrap_managed_spec(body, old_title), new_title, body);
            &&& plan.title == Some(new_title)
            &&& plan.body matches Some(b) && extract_managed_spec(b) == Some(body)
            &&& !plan.seed
            &&& plan.warnings.len() == 0
        }),
{
    let w = wrap_managed_spec(body, old_title);
    assert(w == hand_edited(body, body, old_title));
    law_extract_reads_back_wrap(body, old_title);
    lemma_body_fp_exact(body, body, old_title);
    lemma_title_fp_exact(body, body, old_title);
    assert(old_title != new_title);
    let title_fp = crate::reconcile::stored_title_fp_spec(w);
    assert(reconcile_text_spec(title_fp, old_title, new_title) == TextReconcile::Update);
    assert(reconcile_text_spec(stored_body_fp_spec(w), body, body) == TextReconcile::InSync);
    let rtfp = crate::reconcile::record_title_fp_spec(TextReconcile::Update, title_fp, new_title);
    law_extract_reads_back_rebuild(w, body, crate::reconcile::fingerprint_spec(body), rtfp);
}


// ---------------------------------------------------------------------
// Landing
// ---------------------------------------------------------------------

/// An action that lands a PR: merging it, or handing it to GitHub's
/// auto-merge or merge queue.
pub open spec fn lands_a_pr(a: crate::land::LandActionView) -> bool {
    a is MergePr || a is EnableAutoMerge || a is EnqueuePr
}

proof fn lemma_rebases_land_nothing(nodes: Seq<crate::snapshot::GraphNode>, hid: Seq<char>, m: int)
    ensures
        forall|i: int| 0 <= i < crate::land::rebase_list(nodes, hid, m).len() ==> !lands_a_pr(
            #[trigger] crate::land::rebase_list(nodes, hid, m)[i],
        ),
    decreases m,
{
    if m > 0 && m <= nodes.len() {
        lemma_rebases_land_nothing(nodes, hid, m - 1);
        let prev = crate::land::rebase_list(nodes, hid, m - 1);
        let cur = crate::land::rebase_list(nodes, hid, m);
        assert forall|i: int| 0 <= i < cur.len() implies !lands_a_pr(#[trigger] cur[i]) by {
            if i < prev.len() {
                assert(cur[i] == prev[i]);
            }
        }
    }
}

proof fn lemma_cleanups_land_nothing(placed: Seq<crate::land::PlacedView>, flags: Seq<bool>, m: int)
    ensures
        forall|i: int| 0 <= i < crate::land::cleanup_list(placed, flags, m).len() ==> !lands_a_pr(
            #[trigger] crate::land::cleanup_list(placed, flags, m)[i],
        ),
        forall|i: int| 0 <= i < crate::land::abandon_list(placed, flags, m).len() ==> !lands_a_pr(
            #[trigger] crate::land::abandon_list(placed, flags, m)[i],
        ),
    decreases m,
{
    if m > 0 && m <= placed.len() && m <= flags.len() {
        lemma_cleanups_land_nothing(placed, flags, m - 1);
        let prev = crate::land::cleanup_list(placed, flags, m - 1);
        let cur = crate::land::cleanup_list(placed, flags, m);
        assert forall|i: int| 0 <= i < cur.len() implies !lands_a_pr(#[trigger] cur[i]) by {
            if i < prev.len() {
                assert(cur[i] == prev[i]);
            }
        }
        let aprev = crate::land::abandon_list(placed, flags, m - 1);
        let acur = crate::land::abandon_list(placed, flags, m);
        assert forall|i: int| 0 <= i < acur.len() implies !lands_a_pr(#[trigger] acur[i]) by {
            if i < aprev.len() {
                assert(acur[i] == aprev[i]);
            }
        }
    }
}

/// The reconcile tail lands no PR.
proof fn lemma_reconcile_lands_nothing(
    snap: crate::snapshot::RepoSnapshot,
    remote: Seq<char>,
    segs: Seq<(Seq<char>, Seq<int>)>,
    placed: Seq<crate::land::PlacedView>,
    flags: Seq<bool>,
    top: int,
    trunk: Seq<char>,
    method: Option<crate::land::MergeMethod>,
)
    ensures
        forall|i: int|
            0 <= i < crate::land::reconcile_spec(snap, remote, segs, placed, flags, top, trunk, method).len()
                ==> !lands_a_pr(
                #[trigger] crate::land::reconcile_spec(snap, remote, segs, placed, flags, top, trunk, method)[i],
            ),
{
    let nodes = snap.nodes@;
    let hid = nodes[segs[top].1.last()].id@;
    lemma_rebases_land_nothing(nodes, hid, nodes.len() as int);
    lemma_cleanups_land_nothing(placed, flags, placed.len() as int);
}

/// A landing round lands at most one PR, and only as its first action:
/// everything after it (fetch, rebase, push, retarget, cleanup) follows
/// from that one landing, and a PR above it stays put until a later run
/// — merging it now would land the stale pre-rebase diff.
pub proof fn law_one_landing_per_round(
    snap: crate::snapshot::RepoSnapshot,
    prs: crate::pr::RepoPrState,
    repo: crate::remote::ForgeRepo,
    head: Seq<char>,
    answers: Seq<crate::land::LandAnswer>,
)
    ensures
        forall|i: int|
            0 < i < crate::land::land_plan_spec(snap, prs, repo, head, answers).1.len() ==> !lands_a_pr(
                #[trigger] crate::land::land_plan_spec(snap, prs, repo, head, answers).1[i],
            ),
{
    let segs = crate::submit::stack_segs(snap, prs, head).0;
    let w = crate::land::walk_upto(snap, prs, segs, answers, segs.len() as int);
    let trunk = snap.trunk_bookmark@;
    let actions = crate::land::land_plan_spec(snap, prs, repo, head, answers).1;
    if w.merged_top is Some {
        let placed = match w.no_pr {
            Some(b) => crate::land::restatus(w.placed, crate::land::first_named(w.placed, b, 0), crate::land::StatusView::Stacked),
            None => w.placed,
        };
        lemma_reconcile_lands_nothing(
            snap,
            repo.remote@,
            segs,
            placed,
            crate::land::merged_flags(placed),
            w.merged_top->0,
            trunk,
            None,
        );
    } else if w.no_pr is None {
        match w.candidate {
            Some((index, pr, Some(land))) => {
                let method = crate::land::pick_method_spec(land)->0;
                let tail = crate::land::reconcile_spec(
                    snap,
                    repo.remote@,
                    segs,
                    w.placed,
                    crate::land::only_flag(index, w.placed.len()),
                    index,
                    trunk,
                    Some(method),
                );
                lemma_reconcile_lands_nothing(
                    snap,
                    repo.remote@,
                    segs,
                    w.placed,
                    crate::land::only_flag(index, w.placed.len()),
                    index,
                    trunk,
                    Some(method),
                );
                assert forall|i: int| 0 < i < actions.len() implies !lands_a_pr(#[trigger] actions[i]) by {
                    let first = seq![
                        crate::land::LandActionView::MergePr {
                            number: pr.number,
                            bookmark: segs[index].0,
                            method,
                            expected_head: land.head_commit@,
                        },
                    ];
                    if actions == first + tail {
                        assert(actions[i] == tail[i - 1]);
                    }
                }
            },
            _ => {},
        }
    }
}


// ---------------------------------------------------------------------
// Stack comments, auto-land progress, error messages, CI
// ---------------------------------------------------------------------

/// Every comment Jiji renders is recognized as its stack comment again.
pub proof fn law_rendered_comment_is_recognized(
    live: Seq<crate::comment::StackEntry>,
    fossils: Seq<crate::comment::StackDataItem>,
    current: Option<Seq<char>>,
)
    ensures
        contains(crate::comment::render_spec(live, fossils, current), crate::comment::STACK_SENTINEL@),
{
    let r = crate::comment::render_spec(live, fossils, current);
    let sent = crate::comment::STACK_SENTINEL@;
    assert(r.subrange(0, sent.len() as int) =~= sent);
    assert(occurs_at(r, sent, 0));
    lemma_find(r, sent);
}

/// The auto-land story never lists a landed PR twice: recording a merge
/// keeps the recorded PR numbers distinct.
pub proof fn law_merged_story_has_no_repeats(
    merged: Seq<crate::autoland::AutoLandMerged>,
    number: u64,
    url: Seq<char>,
    bookmark: Seq<char>,
)
    requires
        forall|i: int, j: int| 0 <= i < j < merged.len() ==> merged[i].number != merged[j].number,
    ensures
        ({
            let after = crate::autoland::note_merged_spec(merged, number, url, bookmark);
            forall|i: int, j: int| 0 <= i < j < after.len() ==> after[i].0 != after[j].0
        }),
{
    let after = crate::autoland::note_merged_spec(merged, number, url, bookmark);
    let v = crate::autoland::merged_views(merged);
    assert(v.len() == merged.len());
    assert forall|i: int| 0 <= i < v.len() implies #[trigger] v[i].0 == merged[i].number by {}
    if !(exists|i: int| 0 <= i < merged.len() && #[trigger] merged[i].number == number) {
        assert forall|i: int, j: int| 0 <= i < j < after.len() implies after[i].0 != after[j].0 by {
            if j == v.len() {
                assert(after[j].0 == number);
                assert(after[i] == v[i]);
                assert(merged[i].number != number);
            } else {
                assert(after[i] == v[i]);
                assert(after[j] == v[j]);
            }
        }
    }
}

/// UTF-8 lengths add up over concatenation.
proof fn lemma_utf8_len_concat(a: Seq<char>, b: Seq<char>)
    ensures
        crate::github::utf8_len(a + b) == crate::github::utf8_len(a) + crate::github::utf8_len(b),
    decreases a.len(),
{
    if a.len() > 0 {
        assert((a + b).drop_first() =~= a.drop_first() + b);
        lemma_utf8_len_concat(a.drop_first(), b);
    } else {
        assert(a + b =~= b);
    }
}

/// The characters that fit a byte budget take at most that many bytes.
proof fn lemma_fitting_fits(s: Seq<char>, budget: int)
    requires
        budget >= 0,
    ensures
        crate::github::fitting(s, budget) <= s.len(),
        crate::github::utf8_len(s.take(crate::github::fitting(s, budget) as int)) <= budget,
    decreases s.len(),
{
    let k = crate::github::fitting(s, budget);
    if s.len() == 0 || crate::github::utf8_width(s[0]) > budget {
        assert(s.take(0) =~= Seq::<char>::empty());
    } else {
        let w = crate::github::utf8_width(s[0]);
        lemma_fitting_fits(s.drop_first(), budget - w);
        assert(s.take(k as int).drop_first() =~= s.drop_first().take(k - 1));
    }
}

/// An error message carried by a forge error never exceeds 303 bytes of
/// UTF-8: 300 bytes of the body's message at most, plus the ellipsis.
pub proof fn law_error_messages_are_bounded(body: Seq<char>)
    ensures
        crate::github::utf8_len(crate::github::api_message_spec(body)) <= 303,
{
    let t = crate::github::body_message(body);
    let m = if t.len() == 0 {
        "(empty answer)"@
    } else {
        t
    };
    if crate::github::utf8_len(m) > 300 {
        let k = crate::github::fitting(m, 300);
        lemma_fitting_fits(m, 300);
        lemma_utf8_len_concat(m.take(k as int), seq!['…']);
        assert(seq!['…'].drop_first() =~= Seq::<char>::empty());
        assert(('…' as u32) == 0x2026u32);
        assert(crate::github::utf8_width('…') == 3);
        let ell = seq!['…'];
        assert(ell.len() == 1 && ell[0] == '…');
        assert(crate::github::utf8_len(Seq::<char>::empty()) == 0);
        assert(crate::github::utf8_len(ell) == crate::github::utf8_width(ell[0]) + crate::github::utf8_len(
            ell.drop_first(),
        ));
        assert(crate::github::utf8_len(ell) == 3);
        assert(m.take(k as int).push('…') =~= m.take(k as int) + seq!['…']);
    }
}

/// Re-running CI never sends one workflow back twice: the picked runs
/// belong to distinct workflows, each its workflow's latest run, and each
/// a finished failure.
pub proof fn law_one_rerun_per_workflow(runs: Seq<crate::ci::WorkflowRun>, k: int)
    requires
        0 <= k <= runs.len(),
    ensures
        ({
            let picked = crate::ci::rerunnable_upto(runs, k);
            &&& forall|a: int, b: int|
                0 <= a < b < picked.len() ==> runs[picked[a]].workflow_id != runs[picked[b]].workflow_id
            &&& forall|a: int|
                0 <= a < picked.len() ==> 0 <= #[trigger] picked[a] < k && crate::ci::latest_of_workflow(
                    runs,
                    picked[a],
                ) && crate::ci::rerunnable_spec(runs[picked[a]])
            &&& forall|a: int, b: int| 0 <= a < b < picked.len() ==> picked[a] < picked[b]
        }),
    decreases k,
{
    if k > 0 {
        law_one_rerun_per_workflow(runs, k - 1);
        let prev = crate::ci::rerunnable_upto(runs, k - 1);
        let cur = crate::ci::rerunnable_upto(runs, k);
        if cur.len() > prev.len() {
            assert(cur == prev.push(k - 1));
            assert forall|a: int| 0 <= a < prev.len() implies runs[#[trigger] cur[a]].workflow_id
                != runs[k - 1].workflow_id by {
                assert(cur[a] == prev[a]);
                assert(crate::ci::latest_of_workflow(runs, k - 1));
                assert(0 <= prev[a] < k - 1);
            }
            assert forall|a: int, b: int| 0 <= a < b < cur.len() implies runs[cur[a]].workflow_id
                != runs[cur[b]].workflow_id by {
                if b < prev.len() {
                    assert(cur[a] == prev[a]);
                    assert(cur[b] == prev[b]);
                } else {
                    assert(runs[cur[a]].workflow_id != runs[k - 1].workflow_id);
                }
            }
            assert forall|a: int| 0 <= a < cur.len() implies 0 <= #[trigger] cur[a] < k
                && crate::ci::latest_of_workflow(runs, cur[a]) && crate::ci::rerunnable_spec(runs[cur[a]]) by {
                if a < prev.len() {
                    assert(cur[a] == prev[a]);
                }
            }
            assert forall|a: int, b: int| 0 <= a < b < cur.len() implies cur[a] < cur[b] by {
                if b < prev.len() {
                    assert(cur[a] == prev[a]);
                    assert(cur[b] == prev[b]);
                } else {
                    assert(cur[a] == prev[a]);
                }
            }
        }
    }
}


// ---------------------------------------------------------------------
// Shipping
// ---------------------------------------------------------------------

/// The walk up from a node starts at that node.
proof fn lemma_climb_starts_here(nodes: Seq<crate::snapshot::GraphNode>, cur: int, fuel: nat)
    requires
        fuel > 0,
        0 <= cur < nodes.len(),
    ensures
        crate::ship::climb(nodes, cur, fuel).0.len() > 0,
        crate::ship::climb(nodes, cur, fuel).0[0] == cur,
{
}

/// Shipping is idempotent: once the trunk bookmark points at the stack's
/// head, a re-plan rebases and moves nothing — it only pushes the trunk
/// when the remote is not yet in step (a push that failed last time),
/// and starts a fresh working copy when the old one is in the shipped
/// stack. A shipped, pushed stack plans no action at all.
pub proof fn law_shipping_is_idempotent(
    snap: crate::snapshot::RepoSnapshot,
    remote: Seq<char>,
    h: int,
    t: crate::snapshot::BookmarkState,
)
    requires
        0 <= h < snap.nodes@.len(),
        t.target@ == snap.nodes@[h].id@,
    ensures
        crate::ship::ship_actions(snap, remote, h, t) == (if t.sync == crate::snapshot::SyncState::Synced {
            Seq::<crate::ship::ShipActionView>::empty()
        } else {
            seq![crate::ship::ShipActionView::PushTrunk { bookmark: t.name@, remote }]
        }) + (if crate::ship::chain_has(snap.nodes@, crate::ship::ship_chain(snap, h), snap.working_copy@) {
            seq![crate::ship::ShipActionView::NewWorkingCopy { on: snap.nodes@[h].id@ }]
        } else {
            Seq::<crate::ship::ShipActionView>::empty()
        }),
{
    let nodes = snap.nodes@;
    let up = crate::ship::climb(nodes, h, nodes.len() as nat).0;
    lemma_climb_starts_here(nodes, h, nodes.len() as nat);
    let chain = crate::ship::ship_chain(snap, h);
    let last: int = chain.len() - 1;
    assert(chain[last] == up[0]);
    assert(nodes[chain[last]].id@ == t.target@);
    assert(crate::ship::chain_has(nodes, chain, t.target@));
    let a = crate::ship::ship_actions(snap, remote, h, t);
    let rhs = (if t.sync == crate::snapshot::SyncState::Synced {
        Seq::<crate::ship::ShipActionView>::empty()
    } else {
        seq![crate::ship::ShipActionView::PushTrunk { bookmark: t.name@, remote }]
    }) + (if crate::ship::chain_has(nodes, chain, snap.working_copy@) {
        seq![crate::ship::ShipActionView::NewWorkingCopy { on: nodes[h].id@ }]
    } else {
        Seq::<crate::ship::ShipActionView>::empty()
    });
    assert(a =~= rhs);
}


// ---------------------------------------------------------------------
// Submitting
// ---------------------------------------------------------------------

/// The base segment `t` of the stack targets: the trunk for the bottom
/// segment, the segment below otherwise.
pub open spec fn base_before(snap: crate::snapshot::RepoSnapshot, segs: Seq<(Seq<char>, Seq<int>)>, t: int) -> Seq<char> {
    if t == 0 {
        snap.trunk_bookmark@
    } else {
        segs[t - 1].0
    }
}

/// Segment `t` is already published and in step: (unless all its changes
/// are empty) its bookmark is pushed and in sync, its open PR targets the
/// right base, and the PR's title and body are exactly what Jiji writes
/// for the segment's bottom change.
pub open spec fn published(
    snap: crate::snapshot::RepoSnapshot,
    prs: crate::pr::RepoPrState,
    segs: Seq<(Seq<char>, Seq<int>)>,
    t: int,
) -> bool {
    let nodes = snap.nodes@;
    let bms = snap.bookmarks@;
    let name = segs[t].0;
    let idx = segs[t].1;
    ||| crate::submit::all_empty(nodes, idx)
    ||| {
        let st = bms[crate::snapshot::bookmark_index(bms, name, false)->0];
        let desc = nodes[idx[0]].description@;
        let tb = crate::submit::derive_title_body_spec(desc, name);
        &&& st.sync == crate::snapshot::SyncState::Synced
        &&& st.remote is Some
        &&& prs.pr_for(name) matches Some(p) && {
            &&& p.base_branch@ == base_before(snap, segs, t)
            &&& (desc.len() > 0 ==> {
                &&& p.title@ == tb.0
                &&& crate::submit::body_or_empty(p.body) == wrap_managed_spec(tb.1, tb.0)
                &&& !contains(tb.1, DESCRIPTION_END@)
            })
        }
    }
}

/// Trimming the end twice is trimming it once.
proof fn lemma_trim_end_idempotent(s: Seq<char>)
    ensures
        trim_end(trim_end(s)) == trim_end(s),
    decreases s.len(),
{
    if s.len() > 0 && is_ws(s.last()) {
        lemma_trim_end_idempotent(s.drop_last());
    }
}

/// Trimming the end keeps a non-blank first character.
proof fn lemma_trim_end_keeps_head(s: Seq<char>)
    requires
        s.len() > 0,
        !is_ws(s[0]),
    ensures
        trim_end(s).len() > 0,
        trim_end(s)[0] == s[0],
    decreases s.len(),
{
    if is_ws(s.last()) {
        assert(s.len() > 1);
        assert(s.drop_last()[0] == s[0]);
        lemma_trim_end_keeps_head(s.drop_last());
    }
}

/// Trimming the start leaves nothing or a non-blank first character.
proof fn lemma_trim_start_head(s: Seq<char>)
    ensures
        trim_start(s).len() == 0 || !is_ws(trim_start(s)[0]),
    decreases s.len(),
{
    if s.len() > 0 && is_ws(s[0]) {
        lemma_trim_start_head(s.drop_first());
    }
}

/// A trimmed text is empty or starts with a non-blank.
proof fn lemma_trim_head(s: Seq<char>)
    ensures
        trim(s).len() == 0 || !is_ws(trim(s)[0]),
{
    lemma_trim_start_head(s);
    if trim_start(s).len() > 0 {
        lemma_trim_end_keeps_head(trim_start(s));
    }
}

/// Trimming the end of a text that is empty or starts with a non-blank
/// gives a fully trimmed text.
proof fn lemma_trim_end_of_headed(s: Seq<char>)
    requires
        s.len() == 0 || !is_ws(s[0]),
    ensures
        trim(trim_end(s)) == trim_end(s),
{
    lemma_trim_end_idempotent(s);
    if s.len() > 0 {
        lemma_trim_end_keeps_head(s);
    }
    assert(trim_start(trim_end(s)) == trim_end(s));
}

/// Joined lines begin with the first line's first character.
proof fn lemma_join_head(ls: Seq<Seq<char>>)
    requires
        ls.len() > 0,
        ls[0].len() > 0,
    ensures
        crate::submit::join_lines(ls).len() > 0,
        crate::submit::join_lines(ls)[0] == ls[0][0],
    decreases ls.len(),
{
    if ls.len() > 1 {
        assert(ls.drop_last()[0] == ls[0]);
        lemma_join_head(ls.drop_last());
    }
}

/// The first line of a text that starts with a non-blank starts with it
/// too.
proof fn lemma_first_line_head(s: Seq<char>)
    requires
        s.len() > 0,
        !is_ws(s[0]),
    ensures
        crate::text::lines(s).len() > 0,
        crate::text::lines(s)[0].len() > 0,
        crate::text::lines(s)[0][0] == s[0],
{
    lemma_find(s, seq!['\n']);
    match find(s, seq!['\n']) {
        Some(i) => {
            if 0 <= i < s.len() {
                assert(s.subrange(i, i + 1)[0] == s[i]);
                assert(s[i] == '\n');
                assert(i != 0);
                let raw = s.take(i);
                assert(raw[0] == s[0]);
                if raw.last() == '\r' {
                    assert(i != 1);
                    assert(raw.drop_last()[0] == s[0]);
                }
            }
        },
        None => {},
    }
}

/// The kept prefix of the lines is a prefix.
proof fn lemma_kept_in_range(ls: Seq<Seq<char>>, end: int)
    requires
        0 <= end,
    ensures
        0 <= crate::submit::kept_lines(ls, end) <= end,
    decreases end,
{
    if end > 0 {
        lemma_kept_in_range(ls, end - 1);
    }
}

/// A PR body derived from a change description comes trimmed.
pub proof fn law_derived_bodies_come_trimmed(description: Seq<char>, fallback: Seq<char>)
    ensures
        trim(crate::submit::derive_title_body_spec(description, fallback).1)
            == crate::submit::derive_title_body_spec(description, fallback).1,
{
    let d = trim(description);
    if d.len() > 0 {
        let t = crate::text::lines(d)[0];
        let body = trim(d.skip(t.len() as int));
        lemma_trim_head(d.skip(t.len() as int));
        let ls = crate::text::lines(body);
        let k = crate::submit::kept_lines(ls, ls.len() as int);
        lemma_kept_in_range(ls, ls.len() as int);
        let j = crate::submit::join_lines(ls.take(k));
        if k > 0 {
            assert(body.len() > 0);
            lemma_first_line_head(body);
            assert(ls.take(k)[0] == ls[0]);
            lemma_join_head(ls.take(k));
        } else {
            assert(ls.take(k) =~= Seq::<Seq<char>>::empty());
        }
        lemma_trim_end_of_headed(j);
    } else {
        assert(trim(Seq::<char>::empty()) =~= Seq::<char>::empty());
    }
}

/// Submitting a stack that is already published and in step is a no-op
/// for everything but the stack comments: no push, no PR to create, no
/// base to retarget, no PR text to rewrite, no blocker — and, unless a
/// segment is all empty, nothing to warn about. (A body holding the
/// closing sentinel cannot round-trip and is left out.) Its stack
/// comments plan nothing either when they already read right (see
/// [`law_read_right_comments_plan_nothing`]).
pub proof fn law_published_stack_plans_nothing(
    snap: crate::snapshot::RepoSnapshot,
    prs: crate::pr::RepoPrState,
    template: Option<Seq<char>>,
    segs: Seq<(Seq<char>, Seq<int>)>,
    k: int,
)
    requires
        0 <= k <= segs.len(),
        forall|t: int| 0 <= t < k ==> #[trigger] published(snap, prs, segs, t),
    ensures
        ({
            let acc = crate::submit::plan_upto(snap, prs, template, segs, k);
            &&& acc.pushes.len() == 0
            &&& acc.creates.len() == 0
            &&& acc.retargets.len() == 0
            &&& acc.texts.len() == 0
            &&& acc.blockers.len() == 0
            &&& acc.base == if k == 0 {
                snap.trunk_bookmark@
            } else {
                segs[k - 1].0
            }
        }),
        (forall|t: int| 0 <= t < k ==> !crate::submit::all_empty(snap.nodes@, #[trigger] segs[t].1))
            ==> crate::submit::warnings_upto(snap, prs, segs, k).len() == 0,
    decreases k,
{
    if k > 0 {
        law_published_stack_plans_nothing(snap, prs, template, segs, k - 1);
        assert(published(snap, prs, segs, k - 1));
        let nodes = snap.nodes@;
        let idx = segs[k - 1].1;
        let name = segs[k - 1].0;
        if !crate::submit::all_empty(nodes, idx) {
            let desc = nodes[idx[0]].description@;
            let tb = crate::submit::derive_title_body_spec(desc, name);
            if desc.len() > 0 {
                law_derived_bodies_come_trimmed(desc, name);
                law_in_step_pr_plans_nothing(tb.1, tb.0);
            }
        }
    }
}


// ---------------------------------------------------------------------
// Remote detection
// ---------------------------------------------------------------------

proof fn lemma_seq_less_irreflexive(a: Seq<char>)
    ensures
        !crate::text::seq_less(a, a),
    decreases a.len(),
{
    if a.len() > 0 {
        lemma_seq_less_irreflexive(a.drop_first());
    }
}

proof fn lemma_seq_less_transitive(a: Seq<char>, b: Seq<char>, c: Seq<char>)
    requires
        crate::text::seq_less(a, b),
        crate::text::seq_less(b, c),
    ensures
        crate::text::seq_less(a, c),
    decreases a.len(),
{
    if a.len() > 0 && b.len() > 0 && c.len() > 0 && a[0] == b[0] && b[0] == c[0] {
        lemma_seq_less_transitive(a.drop_first(), b.drop_first(), c.drop_first());
    }
}

proof fn lemma_ranks_before_transitive(a: Seq<char>, b: Seq<char>, c: Seq<char>)
    requires
        crate::remote::ranks_before(a, b),
        crate::remote::ranks_before(b, c),
    ensures
        crate::remote::ranks_before(a, c),
{
    if crate::remote::remote_rank_spec(a) == crate::remote::remote_rank_spec(b)
        && crate::remote::remote_rank_spec(b) == crate::remote::remote_rank_spec(c) {
        lemma_seq_less_transitive(a, b, c);
    }
}

/// Detection picks the best-ranked GitHub remote: the answer is one of the
/// list's GitHub remotes, and no GitHub remote of the list ranks before it
/// (origin, then upstream, then the rest in name order); with no GitHub
/// remote at all, nothing is detected.
pub proof fn law_detection_picks_the_best_remote(remotes: Seq<(Seq<char>, Seq<char>)>, n: int)
    requires
        0 <= n <= remotes.len(),
    ensures
        match crate::remote::detect_upto(remotes, n) {
            Some((name, parts)) => {
                &&& exists|i: int|
                    0 <= i < n && #[trigger] remotes[i].0 == name && crate::remote::parse_github_url_spec(
                        remotes[i].1,
                    ) == Some(parts)
                &&& forall|j: int|
                    0 <= j < n && #[trigger] crate::remote::parse_github_url_spec(remotes[j].1) is Some
                        ==> !crate::remote::ranks_before(remotes[j].0, name)
            },
            None => forall|j: int| 0 <= j < n ==> #[trigger] crate::remote::parse_github_url_spec(remotes[j].1) is None,
        },
    decreases n,
{
    if n > 0 {
        law_detection_picks_the_best_remote(remotes, n - 1);
        let (name, url) = remotes[n - 1];
        lemma_seq_less_irreflexive(name);
        match crate::remote::parse_github_url_spec(url) {
            None => {},
            Some(parts) => match crate::remote::detect_upto(remotes, n - 1) {
                None => {},
                Some((best, best_parts)) => {
                    if crate::remote::ranks_before(name, best) {
                        assert forall|j: int|
                            0 <= j < n && #[trigger] crate::remote::parse_github_url_spec(remotes[j].1) is Some
                                implies !crate::remote::ranks_before(remotes[j].0, name) by {
                            if j < n - 1 && crate::remote::ranks_before(remotes[j].0, name) {
                                lemma_ranks_before_transitive(remotes[j].0, name, best);
                            }
                        }
                    }
                },
            },
        }
    }
}

/// Reading back a freshly written PR body gives both fingerprints Jiji
/// recorded: the commit body's, as long as the body holds no body
/// fingerprint marker of its own, and the title's, as long as the body
/// holds no title marker of its own — for any body and title.
pub proof fn law_fingerprints_read_back_wrap(body: Seq<char>, title: Seq<char>)
    ensures
        !contains(body, BODY_FP_PREFIX@) ==> stored_body_fp_spec(wrap_managed_spec(body, title)) == Some(
            crate::reconcile::fingerprint_spec(body),
        ),
        !contains(body, crate::reconcile::TITLE_FP_PREFIX@) ==> crate::reconcile::stored_title_fp_spec(
            wrap_managed_spec(body, title),
        ) == Some(crate::reconcile::fingerprint_spec(title)),
{
    assert(hand_edited(body, body, title) =~= wrap_managed_spec(body, title));
    if !contains(body, BODY_FP_PREFIX@) {
        lemma_body_fp_exact(body, body, title);
    }
    if !contains(body, crate::reconcile::TITLE_FP_PREFIX@) {
        lemma_title_fp_exact(body, body, title);
    }
}

/// A body without a fingerprint marker records no fingerprint: neither a
/// body nor a title fingerprint is read from it.
pub proof fn law_no_marker_no_fingerprint(x: Seq<char>)
    ensures
        !contains(x, BODY_FP_PREFIX@) ==> stored_body_fp_spec(x) is None,
        !contains(x, crate::reconcile::TITLE_FP_PREFIX@) ==> crate::reconcile::stored_title_fp_spec(x) is None,
{
}

/// A hand-edited managed section is never replaced nor re-claimed: when
/// the managed text no longer matches the fingerprint Jiji recorded,
/// whatever the commit and the titles now say, the plan either leaves the
/// body alone or rewrites it only around the same managed text under the
/// same recorded body fingerprint, and never seeds markers.
pub proof fn law_hand_edited_section_is_kept(
    current_title: Seq<char>,
    current_body: Seq<char>,
    expected_title: Seq<char>,
    expected_body: Seq<char>,
    managed: Seq<char>,
    recorded: Seq<char>,
)
    requires
        extract_managed_spec(current_body) == Some(managed),
        stored_body_fp_spec(current_body) == Some(recorded),
        crate::reconcile::fingerprint_spec(managed) != recorded,
    ensures
        !plan_pr_text_spec(current_title, current_body, expected_title, expected_body).seed,
        match plan_pr_text_spec(current_title, current_body, expected_title, expected_body).body {
            Some(b) => exists|t: Option<Seq<char>>| #[trigger] rebuild_spec(current_body, managed, recorded, t) == b,
            None => true,
        },
{
    let d = reconcile_text_spec(Some(recorded), managed, expected_body);
    assert(d == TextReconcile::InSync || d == TextReconcile::Leave || d == TextReconcile::Conflict);
    let title_fp = crate::reconcile::stored_title_fp_spec(current_body);
    let decision = reconcile_text_spec(title_fp, current_title, expected_title);
    let rtfp = crate::reconcile::record_title_fp_spec(decision, title_fp, expected_title);
    assert(rebuild_spec(current_body, managed, recorded, rtfp) == rebuild_spec(current_body, managed, recorded, rtfp));
}

/// The bottom-up walk never places a segment as landing, and places one as
/// merged only once it found a merged segment.
proof fn lemma_walk_statuses(
    snap: crate::snapshot::RepoSnapshot,
    prs: crate::pr::RepoPrState,
    segs: Seq<(Seq<char>, Seq<int>)>,
    answers: Seq<crate::land::LandAnswer>,
    k: int,
)
    ensures
        forall|i: int|
            0 <= i < crate::land::walk_upto(snap, prs, segs, answers, k).placed.len() ==> !((#[trigger] crate::land::walk_upto(
                snap,
                prs,
                segs,
                answers,
                k,
            ).placed[i]).status is Landing) && (crate::land::walk_upto(snap, prs, segs, answers, k).placed[i].status is Merged
                ==> crate::land::walk_upto(snap, prs, segs, answers, k).merged_top is Some),
    decreases k,
{
    if k > 0 {
        lemma_walk_statuses(snap, prs, segs, answers, k - 1);
        let w0 = crate::land::walk_upto(snap, prs, segs, answers, k - 1);
        let w = crate::land::walk_upto(snap, prs, segs, answers, k);
        assert forall|i: int| 0 <= i < w.placed.len() implies !((#[trigger] w.placed[i]).status is Landing) && (w.placed[i].status is Merged
            ==> w.merged_top is Some) by {
            if i < w0.placed.len() {
                assert(w.placed[i] == w0.placed[i]);
            }
        }
    }
}

/// A land plan places at most one segment as landing, and a plan that
/// found any segment of the stack already merged lands no PR at all: it
/// only reconciles.
pub proof fn law_landing_is_exclusive(
    snap: crate::snapshot::RepoSnapshot,
    prs: crate::pr::RepoPrState,
    repo: crate::remote::ForgeRepo,
    head: Seq<char>,
    answers: Seq<crate::land::LandAnswer>,
)
    ensures
        forall|i: int, j: int|
            0 <= i < j < crate::land::land_plan_spec(snap, prs, repo, head, answers).0.len() && (#[trigger] crate::land::land_plan_spec(
                snap,
                prs,
                repo,
                head,
                answers,
            ).0[i]).status is Landing ==> !((#[trigger] crate::land::land_plan_spec(snap, prs, repo, head, answers).0[j]).status is Landing),
        (exists|i: int|
            0 <= i < crate::land::land_plan_spec(snap, prs, repo, head, answers).0.len() && (#[trigger] crate::land::land_plan_spec(
                snap,
                prs,
                repo,
                head,
                answers,
            ).0[i]).status is Merged) ==> forall|i: int|
            0 <= i < crate::land::land_plan_spec(snap, prs, repo, head, answers).1.len() ==> !lands_a_pr(
                #[trigger] crate::land::land_plan_spec(snap, prs, repo, head, answers).1[i],
            ),
{
    let segs = crate::submit::stack_segs(snap, prs, head).0;
    let w = crate::land::walk_upto(snap, prs, segs, answers, segs.len() as int);
    let plan = crate::land::land_plan_spec(snap, prs, repo, head, answers);
    lemma_walk_statuses(snap, prs, segs, answers, segs.len() as int);
    if w.merged_top is Some {
        let placed = match w.no_pr {
            Some(b) => crate::land::restatus(w.placed, crate::land::first_named(w.placed, b, 0), crate::land::StatusView::Stacked),
            None => w.placed,
        };
        assert forall|i: int| 0 <= i < placed.len() implies !((#[trigger] placed[i]).status is Landing) by {
            assert(w.placed.len() == placed.len());
        }
        lemma_reconcile_lands_nothing(
            snap,
            repo.remote@,
            segs,
            placed,
            crate::land::merged_flags(placed),
            w.merged_top->0,
            snap.trunk_bookmark@,
            None,
        );
    } else if w.no_pr is Some {
    } else {
        match w.candidate {
            Some((index, pr, Some(land))) => {
                assert forall|i: int, j: int| 0 <= i < j < plan.0.len() && (#[trigger] plan.0[i]).status is Landing implies !((#[trigger] plan.0[j]).status is Landing) by {
                    if 0 <= index < w.placed.len() {
                        assert(i == index);
                        assert(plan.0[j] == w.placed[j]);
                    } else {
                        assert(plan.0[i] == w.placed[i]);
                    }
                }
                assert forall|i: int| 0 <= i < plan.0.len() implies !((#[trigger] plan.0[i]).status is Merged) by {
                    if i != index {
                        assert(plan.0[i] == w.placed[i]);
                    }
                }
            },
            _ => {},
        }
    }
}

/// Which of the live segments' stack comments already read right: the
/// segment has a PR, and the comment found on it reads what would be
/// rendered there now.
pub open spec fn reads_right(
    live: Seq<(String, Option<crate::pr::PrSummary>)>,
    answers: Seq<Option<crate::submit::ExistingComment>>,
    i: int,
) -> bool {
    let entries = crate::submit::live_stack_entries(live);
    &&& live[i].1 is Some
    &&& answers[i] matches Some(e) && e.body@ == crate::comment::render_spec(
        entries,
        crate::submit::existing_fossils(answers[i], entries),
        Some(live[i].0@),
    )
}

/// When no PR is being opened and every PR's stack comment already reads
/// right, a submit plans no comment step.
pub proof fn law_read_right_comments_plan_nothing(
    live: Seq<(String, Option<crate::pr::PrSummary>)>,
    answers: Seq<Option<crate::submit::ExistingComment>>,
    n: int,
)
    requires
        0 <= n <= live.len(),
        answers.len() == live.len(),
        forall|i: int| 0 <= i < n ==> #[trigger] reads_right(live, answers, i),
    ensures
        crate::submit::comment_tail(live, false, answers, n) == Seq::<crate::submit::ActionView>::empty(),
    decreases n,
{
    if n > 0 {
        law_read_right_comments_plan_nothing(live, answers, n - 1);
        assert(reads_right(live, answers, n - 1));
    }
}

/// A store whose read fails resolves exactly as an empty store does: the
/// failure falls through to the environment and `gh`, and resolution never
/// fails for it.
pub proof fn law_failed_read_resolves_as_empty<E: Fn(&str) -> Option<String>, G: Fn() -> Option<String>>(
    e: crate::error::ForgeError,
    env: &E,
    gh: &G,
    r: Result<Option<crate::auth::ResolvedToken>, crate::error::ForgeError>,
)
    ensures
        crate::auth::resolved_after(Err(e), env, gh, r) == crate::auth::resolved_after(Ok(None), env, gh, r),
        crate::auth::resolved_after(Err(e), env, gh, r) ==> r is Ok,
{
}

/// Trimming the end keeps a prefix.
proof fn lemma_trim_end_is_take(s: Seq<char>)
    ensures
        exists|k: int| 0 <= k <= s.len() && trim_end(s) == s.take(k),
    decreases s.len(),
{
    if s.len() > 0 && is_ws(s.last()) {
        lemma_trim_end_is_take(s.drop_last());
        let k = choose|k: int| 0 <= k <= s.drop_last().len() && trim_end(s.drop_last()) == s.drop_last().take(k);
        assert(s.drop_last().take(k) =~= s.take(k));
    } else {
        assert(s.take(s.len() as int) =~= s);
    }
}

/// The managed text a body reads back is trimmed and holds no closing
/// sentinel.
proof fn lemma_extracted_shape(body: Seq<char>)
    requires
        extract_managed_spec(body) is Some,
    ensures
        trim(extract_managed_spec(body)->0) == extract_managed_spec(body)->0,
        !contains(extract_managed_spec(body)->0, DESCRIPTION_END@),
{
    let s = DESCRIPTION_START@;
    let e = DESCRIPTION_END@;
    lemma_find(body, s);
    let st = find(body, s)->0 + s.len();
    let after = body.skip(st);
    lemma_find(after, e);
    lemma_end_chars();
    assert(body.subrange(st, st + find(after, e)->0) =~= after.take(find(after, e)->0));
    lemma_trimmed_before(after, e);
}

/// When a hand edit is kept, the rewritten body (when there is one) still
/// reads back the hand-edited text and begins with everything written
/// before the managed section.
#[verifier::rlimit(40)]
pub proof fn law_hand_edited_section_reads_back(
    current_title: Seq<char>,
    current_body: Seq<char>,
    expected_title: Seq<char>,
    expected_body: Seq<char>,
    managed: Seq<char>,
    recorded: Seq<char>,
)
    requires
        extract_managed_spec(current_body) == Some(managed),
        stored_body_fp_spec(current_body) == Some(recorded),
        crate::reconcile::fingerprint_spec(managed) != recorded,
    ensures
        match plan_pr_text_spec(current_title, current_body, expected_title, expected_body).body {
            Some(b) => extract_managed_spec(b) == Some(managed) && starts_with(
                b,
                current_body.take(find(current_body, DESCRIPTION_START@)->0),
            ),
            None => true,
        },
{
    law_hand_edited_section_is_kept(current_title, current_body, expected_title, expected_body, managed, recorded);
    match plan_pr_text_spec(current_title, current_body, expected_title, expected_body).body {
        Some(b) => {
            let t = choose|t: Option<Seq<char>>| #[trigger] rebuild_spec(current_body, managed, recorded, t) == b;
            lemma_extracted_shape(current_body);
            law_extract_reads_back_rebuild(current_body, managed, recorded, t);
            lemma_find(current_body, DESCRIPTION_START@);
            let start = find(current_body, DESCRIPTION_START@)->0;
            let from_start = current_body.skip(start);
            let st = start + DESCRIPTION_START@.len();
            lemma_find(current_body.skip(st), DESCRIPTION_END@);
            let j = find(current_body.skip(st), DESCRIPTION_END@)->0;
            assert(from_start.subrange(DESCRIPTION_START@.len() + j, DESCRIPTION_START@.len() + j + DESCRIPTION_END@.len())
                =~= current_body.skip(st).subrange(j, j + DESCRIPTION_END@.len()));
            assert(occurs_at(from_start, DESCRIPTION_END@, DESCRIPTION_START@.len() + j));
            lemma_find(from_start, DESCRIPTION_END@);
            assert(b.take(start) =~= current_body.take(start));
        },
        None => {},
    }
}

/// A trimmed window before the first occurrence of a pattern is trimmed
/// and holds no occurrence of the pattern.
proof fn lemma_trimmed_before(after: Seq<char>, q: Seq<char>)
    requires
        find(after, q) is Some,
        q.len() > 0,
    ensures
        trim(trim(after.take(find(after, q)->0))) == trim(after.take(find(after, q)->0)),
        !contains(trim(after.take(find(after, q)->0)), q),
{
    lemma_find(after, q);
    let j = find(after, q)->0;
    let x = after.take(j);
    lemma_trim_start_is_skip(x);
    let a = choose|a: int| 0 <= a <= x.len() && trim_start(x) == x.skip(a);
    lemma_trim_end_is_take(x.skip(a));
    let b = choose|b: int| 0 <= b <= x.skip(a).len() && trim_end(x.skip(a)) == x.skip(a).take(b);
    let m = trim(x);
    assert(m =~= after.subrange(a, a + b));
    lemma_trim_start_head(x);
    lemma_trim_end_of_headed(trim_start(x));
    if contains(m, q) {
        lemma_find(m, q);
        let k = find(m, q)->0;
        assert(after.subrange(a + k, a + k + q.len()) =~= m.subrange(k, k + q.len()));
        assert(occurs_at(after, q, a + k));
        assert(false);
    }
}

/// Right after a fingerprint, the first marker closing is the one that
/// follows it, when the fingerprint holds no closing of its own.
proof fn lemma_closing_after(f: Seq<char>, rest: Seq<char>)
    requires
        !contains(f, FP_SUFFIX@),
    ensures
        find(f + FP_SUFFIX@ + rest, FP_SUFFIX@) == Some(f.len() as int),
{
    reveal_strlit(" -->");
    let q = FP_SUFFIX@;
    let c = f + q + rest;
    let fl: int = f.len() as int;
    lemma_find(f, q);
    assert(c.subrange(fl, fl + 4) =~= q);
    assert forall|j: int| 0 <= j < fl implies !occurs_at(c, q, j) by {
        if occurs_at(c, q, j) {
            if j + 4 <= fl {
                assert(f.subrange(j, j + 4) =~= c.subrange(j, j + 4));
                assert(occurs_at(f, q, j));
            } else {
                assert(c.subrange(j, j + 4)[fl - j] == c[fl]);
                assert(c[fl] == ' ');
            }
        }
    }
    lemma_find_is(c, q, fl);
}

/// Text without a body-fingerprint marker followed by the opening sentinel
/// holds no marker either.
proof fn lemma_no_marker_before_start(p: Seq<char>)
    requires
        !contains(p, BODY_FP_PREFIX@),
    ensures
        !contains(p + DESCRIPTION_START@, BODY_FP_PREFIX@),
{
    reveal_strlit("<!-- jiji:body-fp ");
    lemma_body_prefix_chars();
    let q = BODY_FP_PREFIX@;
    let s = DESCRIPTION_START@;
    let w = p + s;
    let pl: int = p.len() as int;
    lemma_find(p, q);
    lemma_find(s, q);
    assert forall|j: int| !occurs_at(w, q, j) by {
        if occurs_at(w, q, j) {
            if j + 18 <= pl {
                assert(p.subrange(j, j + 18) =~= w.subrange(j, j + 18));
                assert(occurs_at(p, q, j));
            } else if j >= pl {
                assert(s.subrange(j - pl, j - pl + 18) =~= w.subrange(j, j + 18));
                assert(occurs_at(s, q, j - pl));
            } else {
                reveal_strlit("<!-- jiji:description -->");
                assert(w.subrange(j, j + 18)[pl - j] == w[pl]);
                assert(w[pl] == '<');
                assert(q[pl - j] != '<');
            }
        }
    }
    lemma_find(w, q);
}

/// The body fingerprint a rewrite records after a managed section is the
/// one read back, when neither the text before the section nor the
/// managed text holds a body-fingerprint marker and the fingerprint holds
/// no marker closing.
proof fn lemma_rewritten_fp(p: Seq<char>, managed: Seq<char>, f: Seq<char>, rest: Seq<char>)
    requires
        !contains(p, BODY_FP_PREFIX@),
        !contains(managed, BODY_FP_PREFIX@),
        !contains(f, FP_SUFFIX@),
        trim(f) == f,
    ensures
        stored_body_fp_spec(
            p + DESCRIPTION_START@ + seq!['\n'] + managed + seq!['\n'] + DESCRIPTION_END@ + seq!['\n'] + BODY_FP_PREFIX@ + f
                + FP_SUFFIX@ + rest,
        ) == Some(f),
{
    let q = BODY_FP_PREFIX@;
    let x = p + DESCRIPTION_START@;
    let z = q + f + FP_SUFFIX@ + rest;
    let y2 = DESCRIPTION_END@ + seq!['\n'] + z;
    let y1 = managed + seq!['\n'] + y2;
    let w = x + seq!['\n'] + y1;
    assert(w =~= p + DESCRIPTION_START@ + seq!['\n'] + managed + seq!['\n'] + DESCRIPTION_END@ + seq!['\n'] + q + f
        + FP_SUFFIX@ + rest);
    lemma_body_prefix_chars();
    lemma_no_marker_before_start(p);
    let xl: int = x.len() as int;
    let bl: int = managed.len() as int;
    let el: int = DESCRIPTION_END@.len() as int;
    let pos: int = xl + 1 + bl + 1 + el + 1;
    lemma_not_in_line(x, y1, q);
    lemma_not_in_line(managed, y2, q);
    lemma_not_in_line(DESCRIPTION_END@, z, q);
    assert forall|j: int| 0 <= j < pos implies !occurs_at(w, q, j) by {
        if occurs_at(w, q, j) {
            if j > xl {
                lemma_occurs_shift(x, y1, q, j);
                let j1 = j - xl - 1;
                if j1 > bl {
                    lemma_occurs_shift(managed, y2, q, j1);
                    let j2 = j1 - bl - 1;
                    if j2 > el {
                        assert(false);
                    }
                }
            }
        }
    }
    assert(w.subrange(pos, pos + 18) =~= q);
    lemma_find_is(w, q, pos);
    let st = pos + 18;
    let after = w.skip(st);
    assert(after =~= f + FP_SUFFIX@ + rest);
    lemma_closing_after(f, rest);
    assert(w.subrange(st, st + f.len()) =~= f);
}

/// When a hand edit is kept, the rewritten body (when there is one) still
/// records the body fingerprint Jiji wrote last — as long as neither the
/// text before the managed section nor the managed text holds a
/// body-fingerprint marker of its own.
#[verifier::rlimit(100)]
pub proof fn law_hand_edited_fingerprint_reads_back(
    current_title: Seq<char>,
    current_body: Seq<char>,
    expected_title: Seq<char>,
    expected_body: Seq<char>,
    managed: Seq<char>,
    recorded: Seq<char>,
)
    requires
        extract_managed_spec(current_body) == Some(managed),
        stored_body_fp_spec(current_body) == Some(recorded),
        crate::reconcile::fingerprint_spec(managed) != recorded,
        !contains(managed, BODY_FP_PREFIX@),
        !contains(current_body.take(find(current_body, DESCRIPTION_START@)->0), BODY_FP_PREFIX@),
    ensures
        match plan_pr_text_spec(current_title, current_body, expected_title, expected_body).body {
            Some(b) => stored_body_fp_spec(b) == Some(recorded),
            None => true,
        },
{
    law_hand_edited_section_is_kept(current_title, current_body, expected_title, expected_body, managed, recorded);
    match plan_pr_text_spec(current_title, current_body, expected_title, expected_body).body {
        Some(b) => {
            let t = choose|t: Option<Seq<char>>| #[trigger] rebuild_spec(current_body, managed, recorded, t) == b;
            let s = DESCRIPTION_START@;
            let e = DESCRIPTION_END@;
            lemma_find(current_body, s);
            let start = find(current_body, s)->0;
            let st = start + s.len();
            lemma_find(current_body.skip(st), e);
            let j = find(current_body.skip(st), e)->0;
            let from_start = current_body.skip(start);
            assert(from_start.subrange(s.len() + j, s.len() + j + e.len()) =~= current_body.skip(st).subrange(j, j + e.len()));
            assert(occurs_at(from_start, e, s.len() + j));
            lemma_find(from_start, e);
            let end_rel = find(from_start, e)->0;
            let end = start + end_rel + e.len();
            let p = current_body.take(start);
            let tail = crate::reconcile::strip_leading_fp_markers_spec(current_body.skip(end));
            let rest = match t {
                Some(tf) => seq!['\n'] + crate::reconcile::TITLE_FP_PREFIX@ + tf + FP_SUFFIX@ + tail,
                None => tail,
            };
            assert(b =~= p + s + seq!['\n'] + managed + seq!['\n'] + e + seq!['\n'] + BODY_FP_PREFIX@ + recorded
                + FP_SUFFIX@ + rest);
            lemma_body_prefix_chars();
            lemma_find(current_body, BODY_FP_PREFIX@);
            let k = find(current_body, BODY_FP_PREFIX@)->0;
            let after = current_body.skip(k + BODY_FP_PREFIX@.len());
            reveal_strlit(" -->");
            lemma_trimmed_before(after, FP_SUFFIX@);
            lemma_find(after, FP_SUFFIX@);
            assert(current_body.subrange(k + BODY_FP_PREFIX@.len(), k + BODY_FP_PREFIX@.len() + find(after, FP_SUFFIX@)->0)
                =~= after.take(find(after, FP_SUFFIX@)->0));
            lemma_rewritten_fp(p, managed, recorded, rest);
        },
        None => {},
    }
}

/// A round that hands the merge to GitHub's automation (auto-merge
/// enabled or the PR put in the merge queue) never completes the stack:
/// the merge is still pending on GitHub, so a round that did not fail
/// keeps the job watching without asking the user for anything.
pub proof fn law_handed_off_round_never_completes(
    max: u32,
    errors: u32,
    failed: bool,
    story: Seq<char>,
    plan: crate::land::LandPlan,
    i: int,
)
    requires
        0 <= i < plan.actions@.len(),
        plan.actions@[i] is EnqueuePr || plan.actions@[i] is EnableAutoMerge,
    ensures
        crate::autoland::round_decision_spec(max, errors, failed, story, plan).1 != crate::autoland::PhaseView::Done,
        !failed ==> crate::autoland::round_decision_spec(max, errors, failed, story, plan) == (
            false,
            crate::autoland::PhaseView::Waiting {
                attention: false,
                reasons: seq!["GitHub is driving the merge now \u{2014} watching for it to finish"@],
            },
        ),
{
    assert(crate::autoland::hands_off_spec(plan));
}

/// The merge method a landing uses is one the repository allows, and the
/// most preferred of those: squash whenever squash is allowed, a merge
/// commit only when neither squash nor rebase is; nothing when the
/// repository allows no method at all.
pub proof fn law_merge_method_is_the_preferred_allowed_one(land: crate::land::PrLandState)
    ensures
        match crate::land::pick_method_spec(land) {
            Some(m) => {
                &&& match m {
                    crate::land::MergeMethod::Squash => land.allows_squash,
                    crate::land::MergeMethod::Rebase => land.allows_rebase,
                    crate::land::MergeMethod::Merge => land.allows_merge,
                }
                &&& land.allows_squash ==> m == crate::land::MergeMethod::Squash
                &&& land.allows_rebase ==> m != crate::land::MergeMethod::Merge
            },
            None => !land.allows_squash && !land.allows_rebase && !land.allows_merge,
        },
{
}

/// The fossils a comment keeps are exactly the previous stack's items
/// whose bookmark left the live stack, in the previous stack's order.
pub proof fn law_fossils_keep_previous_order(
    items: Seq<crate::comment::StackDataItem>,
    live: Seq<crate::comment::StackEntry>,
)
    ensures
        crate::comment::fossils_of(items, live) == items.filter(
            |it: crate::comment::StackDataItem| !crate::comment::in_live(live, it.bookmark@),
        ),
    decreases items.len(),
{
    reveal(Seq::filter);
    if items.len() > 0 {
        law_fossils_keep_previous_order(items.drop_last(), live);
    }
}

/// When the head bookmark is among the names on one change, the change
/// publishes through the head bookmark, whatever PRs the other names have.
pub proof fn law_head_bookmark_publishes_through_itself(
    names: Seq<Seq<char>>,
    head: Seq<char>,
    prs: crate::pr::RepoPrState,
)
    requires
        names.contains(head),
    ensures
        crate::submit::best_name(names, head, prs) == head,
    decreases names.len(),
{
    let k = choose|k: int| 0 <= k < names.len() && names[k] == head;
    if names.len() > 1 {
        if k < names.len() - 1 {
            assert(names.drop_last()[k] == head);
            law_head_bookmark_publishes_through_itself(names.drop_last(), head, prs);
        }
    }
}

} // verus!
