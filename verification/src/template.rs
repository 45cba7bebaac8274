//! The repo's pull-request template. GitHub reads
//! `PULL_REQUEST_TEMPLATE(.md|.txt)?` from `.github/`, the repo root, or
//! `docs/` and pre-fills the web compose box with it — but the API applies
//! no template at all. When the trunk tree carries a template, new PR
//! bodies fold it in below the managed description.

use vstd::prelude::*;

use crate::reconcile::{wrap_managed_body, wrap_managed_spec};
use crate::text::{chars_of, is_blank, push_all, push_str, string_of, trim, trim_end, trim_end_chars};

verus! {

/// A template found on trunk: where it lives and what it says.
#[derive(Debug, Clone, PartialEq, Eq)]
pub struct PrTemplate {
    pub path: String,
    pub text: String,
}

/// The template directories, in GitHub's precedence order.
pub open spec fn template_dir(i: int) -> Seq<char> {
    if i == 0 {
        ".github/"@
    } else if i == 1 {
        ""@
    } else {
        "docs/"@
    }
}

/// The two file-name spellings that occur in practice.
pub open spec fn template_stem(i: int) -> Seq<char> {
    if i == 0 {
        "PULL_REQUEST_TEMPLATE"@
    } else {
        "pull_request_template"@
    }
}

/// The extensions GitHub accepts.
pub open spec fn template_ext(i: int) -> Seq<char> {
    if i == 0 {
        ".md"@
    } else if i == 1 {
        ".txt"@
    } else {
        ""@
    }
}

/// The `i`-th candidate path: directory-major, then stem, then extension.
pub open spec fn template_candidate(i: int) -> Seq<char> {
    template_dir(i / 6) + template_stem((i % 6) / 3) + template_ext(i % 3)
}

fn dir_str(i: usize) -> (r: &'static str)
    ensures
        r@ == template_dir(i as int),
{
    if i == 0 {
        ".github/"
    } else if i == 1 {
        ""
    } else {
        "docs/"
    }
}

fn stem_str(i: usize) -> (r: &'static str)
    ensures
        r@ == template_stem(i as int),
{
    if i == 0 {
        "PULL_REQUEST_TEMPLATE"
    } else {
        "pull_request_template"
    }
}

fn ext_str(i: usize) -> (r: &'static str)
    ensures
        r@ == template_ext(i as int),
{
    if i == 0 {
        ".md"
    } else if i == 1 {
        ".txt"
    } else {
        ""
    }
}

/// Candidate template paths in GitHub's own precedence order (`.github/`,
/// then the repo root, then `docs/`), each with the upper- and lower-case
/// stem and the `.md`, `.txt` and bare extensions.
pub fn pr_template_candidates() -> (r: Vec<String>)
    ensures
        r@.len() == 18,
        forall|i: int| 0 <= i < 18 ==> #[trigger] r@[i]@ == template_candidate(i),
{
    let mut out: Vec<String> = Vec::new();
    let mut d: usize = 0;
    while d < 3
        invariant
            d <= 3,
            out@.len() == 6 * d,
            forall|i: int| 0 <= i < out@.len() ==> #[trigger] out@[i]@ == template_candidate(i),
        decreases 3 - d,
    {
        let mut s: usize = 0;
        while s < 2
            invariant
                d < 3,
                s <= 2,
                out@.len() == 6 * d + 3 * s,
                forall|i: int| 0 <= i < out@.len() ==> #[trigger] out@[i]@ == template_candidate(i),
            decreases 2 - s,
        {
            let mut e: usize = 0;
            while e < 3
                invariant
                    d < 3,
                    s < 2,
                    e <= 3,
                    out@.len() == 6 * d + 3 * s + e,
                    forall|i: int| 0 <= i < out@.len() ==> #[trigger] out@[i]@ == template_candidate(i),
                decreases 3 - e,
            {
                let mut v = chars_of(dir_str(d));
                push_str(&mut v, stem_str(s));
                push_str(&mut v, ext_str(e));
                let ghost k = out@.len() as int;
                assert(k / 6 == d && (k % 6) / 3 == s && k % 3 == e) by (nonlinear_arith)
                    requires
                        k == 6 * d + 3 * s + e,
                        d < 3,
                        s < 2,
                        e < 3,
                ;
                out.push(string_of(&v));
                e += 1;
            }
            s += 1;
        }
        d += 1;
    }
    out
}

/// The body of a new PR: the managed section, then the template below as
/// user-space text when the template is not blank.
pub open spec fn new_pr_body_spec(
    commit_body: Seq<char>,
    title: Seq<char>,
    template: Option<Seq<char>>,
) -> Seq<char> {
    let managed = wrap_managed_spec(commit_body, title);
    match template {
        Some(text) => if trim(text).len() != 0 {
            managed + seq!['\n', '\n'] + trim_end(text)
        } else {
            managed
        },
        None => managed,
    }
}

/// A new PR's full body: the commit-derived text inside Jiji's managed
/// sentinels, then the template below as ordinary user-space text, so
/// later re-submits keep updating the description without ever touching
/// the filled-in template.
pub fn new_pr_body(commit_body: &str, title: &str, template: Option<&PrTemplate>) -> (r: String)
    ensures
        r@ == new_pr_body_spec(
            commit_body@,
            title@,
            match template {
                Some(t) => Some(t.text@),
                None => None,
            },
        ),
{
    let managed = wrap_managed_body(commit_body, title);
    match template {
        Some(t) => {
            let text = chars_of(t.text.as_str());
            if !is_blank(&text) {
                let mut v = chars_of(managed.as_str());
                v.push('\n');
                v.push('\n');
                let tail = trim_end_chars(&text);
                push_all(&mut v, &tail);
                assert(v@ =~= managed@ + seq!['\n', '\n'] + trim_end(t.text@));
                string_of(&v)
            } else {
                managed
            }
        },
        None => managed,
    }
}

} // verus!
