//! Character-level text primitives shared by every module: the model of a
//! string is its sequence of chars, and each executable helper here is
//! proved against the spec function of the same name.

use vstd::prelude::*;

verus! {

broadcast use vstd::seq_lib::group_seq_properties;

// ---------------------------------------------------------------------
// Specifications
// ---------------------------------------------------------------------

/// Unicode `White_Space`, the property `char::is_whitespace` tests.
pub open spec fn is_ws(c: char) -> bool {
    ||| c == '\t'
    ||| c == '\n'
    ||| c == '\u{0B}'
    ||| c == '\u{0C}'
    ||| c == '\r'
    ||| c == ' '
    ||| c == '\u{85}'
    ||| c == '\u{A0}'
    ||| c == '\u{1680}'
    ||| ('\u{2000}' <= c && c <= '\u{200A}')
    ||| c == '\u{2028}'
    ||| c == '\u{2029}'
    ||| c == '\u{202F}'
    ||| c == '\u{205F}'
    ||| c == '\u{3000}'
}

/// `str::trim_start`.
pub open spec fn trim_start(s: Seq<char>) -> Seq<char>
    decreases s.len(),
{
    if s.len() > 0 && is_ws(s[0]) {
        trim_start(s.drop_first())
    } else {
        s
    }
}

/// `str::trim_end`.
pub open spec fn trim_end(s: Seq<char>) -> Seq<char>
    decreases s.len(),
{
    if s.len() > 0 && is_ws(s.last()) {
        trim_end(s.drop_last())
    } else {
        s
    }
}

/// `str::trim`.
pub open spec fn trim(s: Seq<char>) -> Seq<char> {
    trim_end(trim_start(s))
}

/// `pat` sits at position `i` of `s`.
pub open spec fn occurs_at(s: Seq<char>, pat: Seq<char>, i: int) -> bool {
    0 <= i && i + pat.len() <= s.len() && s.subrange(i, i + pat.len()) == pat
}

/// The first position at or after `i` where `pat` occurs.
pub open spec fn find_from(s: Seq<char>, pat: Seq<char>, i: int) -> Option<int>
    decreases s.len() + 1 - i,
{
    if i < 0 || i + pat.len() > s.len() {
        None
    } else if occurs_at(s, pat, i) {
        Some(i)
    } else {
        find_from(s, pat, i + 1)
    }
}

/// `str::find`, counted in chars.
pub open spec fn find(s: Seq<char>, pat: Seq<char>) -> Option<int> {
    find_from(s, pat, 0)
}

/// `str::contains`.
pub open spec fn contains(s: Seq<char>, pat: Seq<char>) -> bool {
    find(s, pat) is Some
}

/// `str::starts_with`.
pub open spec fn starts_with(s: Seq<char>, p: Seq<char>) -> bool {
    p.len() <= s.len() && s.take(p.len() as int) == p
}

/// `str::ends_with`.
pub open spec fn ends_with(s: Seq<char>, p: Seq<char>) -> bool {
    p.len() <= s.len() && s.skip(s.len() - p.len()) == p
}

/// One line of `str::lines`: a `\r` is dropped only before a `\n`.
pub open spec fn line_of(s: Seq<char>, i: int) -> Seq<char> {
    let raw = s.take(i);
    if raw.len() > 0 && raw.last() == '\r' {
        raw.drop_last()
    } else {
        raw
    }
}

/// `str::lines`.
pub open spec fn lines(s: Seq<char>) -> Seq<Seq<char>>
    decreases s.len(),
{
    if s.len() == 0 {
        Seq::empty()
    } else {
        match find(s, seq!['\n']) {
            Some(i) => {
                if 0 <= i < s.len() {
                    seq![line_of(s, i)] + lines(s.skip(i + 1))
                } else {
                    seq![s]
                }
            },
            None => seq![s],
        }
    }
}

/// Decimal digit for `d < 10`.
pub open spec fn digit(d: nat) -> char {
    if d == 0 { '0' }
    else if d == 1 { '1' }
    else if d == 2 { '2' }
    else if d == 3 { '3' }
    else if d == 4 { '4' }
    else if d == 5 { '5' }
    else if d == 6 { '6' }
    else if d == 7 { '7' }
    else if d == 8 { '8' }
    else { '9' }
}

/// The decimal rendering of a number, as `Display` writes it.
pub open spec fn dec(n: nat) -> Seq<char>
    decreases n,
{
    if n < 10 {
        seq![digit(n)]
    } else {
        dec(n / 10).push(digit(n % 10))
    }
}

/// `char::is_ascii_digit`.
pub open spec fn is_ascii_digit(c: char) -> bool {
    '0' <= c && c <= '9'
}

/// `char::to_ascii_lowercase`.
pub open spec fn ascii_lower(c: char) -> char {
    if 'A' <= c && c <= 'Z' {
        ((c as u32) + 32) as char
    } else {
        c
    }
}

/// `str::to_ascii_lowercase`.
pub open spec fn lower(s: Seq<char>) -> Seq<char> {
    s.map_values(|c: char| ascii_lower(c))
}

/// The last position of `c` in `s`.
pub open spec fn rfind_char(s: Seq<char>, c: char) -> Option<int>
    decreases s.len(),
{
    if s.len() == 0 {
        None
    } else if s.last() == c {
        Some(s.len() - 1)
    } else {
        rfind_char(s.drop_last(), c)
    }
}

/// `str::split_once` on a char.
pub open spec fn split_once(s: Seq<char>, c: char) -> Option<(Seq<char>, Seq<char>)> {
    match find(s, seq![c]) {
        Some(i) => Some((s.take(i), s.skip(i + 1))),
        None => None,
    }
}

/// `str::rsplit_once` on a char.
pub open spec fn rsplit_once(s: Seq<char>, c: char) -> Option<(Seq<char>, Seq<char>)> {
    match rfind_char(s, c) {
        Some(i) => Some((s.take(i), s.skip(i + 1))),
        None => None,
    }
}

/// `str::strip_prefix`.
pub open spec fn strip_prefix(s: Seq<char>, p: Seq<char>) -> Option<Seq<char>> {
    if starts_with(s, p) {
        Some(s.skip(p.len() as int))
    } else {
        None
    }
}

/// `str::strip_suffix`.
pub open spec fn strip_suffix(s: Seq<char>, p: Seq<char>) -> Option<Seq<char>> {
    if ends_with(s, p) {
        Some(s.take(s.len() - p.len()))
    } else {
        None
    }
}

/// Lexicographic order of char sequences (`str`'s `Ord`).
pub open spec fn seq_less(a: Seq<char>, b: Seq<char>) -> bool
    decreases a.len(),
{
    if a.len() == 0 {
        b.len() > 0
    } else if b.len() == 0 {
        false
    } else if a[0] != b[0] {
        (a[0] as u32) < (b[0] as u32)
    } else {
        seq_less(a.drop_first(), b.drop_first())
    }
}

/// Every char is an ASCII digit.
pub open spec fn all_ascii_digits(s: Seq<char>) -> bool {
    forall|i: int| 0 <= i < s.len() ==> is_ascii_digit(#[trigger] s[i])
}

// ---------------------------------------------------------------------
// Lemmas
// ---------------------------------------------------------------------

/// What `find_from` answers: the first occurrence at or after `i`.
pub proof fn lemma_find_from(s: Seq<char>, pat: Seq<char>, i: int)
    requires
        0 <= i,
    ensures
        match find_from(s, pat, i) {
            Some(k) => i <= k && occurs_at(s, pat, k) && forall|j: int|
                i <= j < k ==> !occurs_at(s, pat, j),
            None => forall|j: int| i <= j ==> !occurs_at(s, pat, j),
        },
    decreases s.len() + 1 - i,
{
    if i + pat.len() > s.len() {
    } else if occurs_at(s, pat, i) {
    } else {
        lemma_find_from(s, pat, i + 1);
    }
}

/// `find` characterized: the first occurrence.
pub proof fn lemma_find(s: Seq<char>, pat: Seq<char>)
    ensures
        match find(s, pat) {
            Some(k) => occurs_at(s, pat, k) && forall|j: int| 0 <= j < k ==> !occurs_at(s, pat, j),
            None => forall|j: int| !occurs_at(s, pat, j),
        },
{
    lemma_find_from(s, pat, 0);
}

/// A first occurrence pins `find`'s answer.
pub proof fn lemma_find_is(s: Seq<char>, pat: Seq<char>, k: int)
    requires
        occurs_at(s, pat, k),
        forall|j: int| 0 <= j < k ==> !occurs_at(s, pat, j),
    ensures
        find(s, pat) == Some(k),
{
    lemma_find(s, pat);
    match find(s, pat) {
        Some(k2) => {
            if k2 < k {
            } else if k < k2 {
            }
        },
        None => {},
    }
}

/// Trimming yields a window of the text it trims.
pub proof fn lemma_trim_start_is_skip(s: Seq<char>)
    ensures
        exists|k: int| 0 <= k <= s.len() && trim_start(s) == s.skip(k),
    decreases s.len(),
{
    if s.len() > 0 && is_ws(s[0]) {
        lemma_trim_start_is_skip(s.drop_first());
        let k = choose|k: int| 0 <= k <= s.drop_first().len() && trim_start(s.drop_first()) == s.drop_first().skip(k);
        assert(s.drop_first().skip(k) =~= s.skip(k + 1));
    } else {
        assert(s.skip(0) =~= s);
    }
}

// ---------------------------------------------------------------------
// Executable helpers
// ---------------------------------------------------------------------

/// The characters of a string slice, in order.
pub fn chars_of(s: &str) -> (v: Vec<char>)
    ensures
        v@ == s@,
{
    broadcast use vstd::string::group_string_axioms;

    let mut v: Vec<char> = Vec::new();
    let mut it = s.chars();
    let ghost all = s@;
    loop
        invariant
            all == s@,
            vstd::std_specs::iter::IteratorSpec::remaining(&it) == all.skip(v@.len() as int),
            v@ == all.take(v@.len() as int),
            v@.len() <= all.len(),
            vstd::std_specs::iter::IteratorSpec::obeys_prophetic_iter_laws(&it),
        decreases all.len() - v@.len(),
    {
        match it.next() {
            Some(c) => {
                assert(all.skip(v@.len() as int).drop_first() =~= all.skip(v@.len() + 1int));
                v.push(c);
                assert(v@ =~= all.take(v@.len() as int));
            },
            None => {
                assert(v@ =~= all);
                return v;
            },
        }
    }
}

/// Append one char to a string (`String::push`).
#[verifier::external_body]
fn push_char(s: &mut String, c: char)
    ensures
        final(s)@ == old(s)@.push(c),
{
    s.push(c);
}

/// A string holding exactly the given chars.
pub fn string_of(v: &[char]) -> (s: String)
    ensures
        s@ == v@,
{
    let mut s = String::new();
    let mut i: usize = 0;
    while i < v.len()
        invariant
            i <= v@.len(),
            s@ == v@.take(i as int),
        decreases v@.len() - i,
    {
        push_char(&mut s, v[i]);
        i += 1;
        assert(s@ =~= v@.take(i as int));
    }
    assert(v@.take(v@.len() as int) =~= v@);
    s
}

/// Owned copy of a string slice.
pub fn owned(s: &str) -> (r: String)
    ensures
        r@ == s@,
{
    let v = chars_of(s);
    string_of(&v)
}

/// Equal char sequences.
pub fn chars_eq(a: &[char], b: &[char]) -> (r: bool)
    ensures
        r == (a@ == b@),
{
    if a.len() != b.len() {
        return false;
    }
    let mut i: usize = 0;
    while i < a.len()
        invariant
            a@.len() == b@.len(),
            i <= a@.len(),
            forall|j: int| 0 <= j < i ==> a@[j] == b@[j],
        decreases a@.len() - i,
    {
        if a[i] != b[i] {
            return false;
        }
        i += 1;
    }
    assert(a@ =~= b@);
    true
}

/// Equal strings.
pub fn str_eq(a: &str, b: &str) -> (r: bool)
    ensures
        r == (a@ == b@),
{
    let x = chars_of(a);
    let y = chars_of(b);
    chars_eq(&x, &y)
}

/// Copy of `s[from..to]`.
pub fn slice_chars(s: &[char], from: usize, to: usize) -> (r: Vec<char>)
    requires
        from <= to <= s@.len(),
    ensures
        r@ == s@.subrange(from as int, to as int),
{
    let mut r: Vec<char> = Vec::new();
    let mut i: usize = from;
    while i < to
        invariant
            from <= i <= to <= s@.len(),
            r@ == s@.subrange(from as int, i as int),
        decreases to - i,
    {
        r.push(s[i]);
        i += 1;
        assert(r@ =~= s@.subrange(from as int, i as int));
    }
    r
}

/// Append all of `t` to `v`.
pub fn push_all(v: &mut Vec<char>, t: &[char])
    ensures
        final(v)@ == old(v)@ + t@,
{
    let ghost start = v@;
    let mut i: usize = 0;
    while i < t.len()
        invariant
            i <= t@.len(),
            v@ == start + t@.take(i as int),
        decreases t@.len() - i,
    {
        v.push(t[i]);
        i += 1;
        assert(v@ =~= start + t@.take(i as int));
    }
    assert(t@.take(t@.len() as int) =~= t@);
}

/// Append a string slice's chars to `v`.
pub fn push_str(v: &mut Vec<char>, t: &str)
    ensures
        final(v)@ == old(v)@ + t@,
{
    let c = chars_of(t);
    push_all(v, &c);
}

/// `pat` sits at position `i` of `s`.
pub fn matches_at(s: &[char], pat: &[char], i: usize) -> (r: bool)
    ensures
        r == occurs_at(s@, pat@, i as int),
{
    if i > s.len() || pat.len() > s.len() - i {
        return false;
    }
    let mut k: usize = 0;
    while k < pat.len()
        invariant
            i + pat@.len() <= s@.len(),
            k <= pat@.len(),
            forall|j: int| 0 <= j < k ==> s@[i + j] == pat@[j],
        decreases pat@.len() - k,
    {
        assert(i + k < s.len());
        if s[i + k] != pat[k] {
            assert(s@.subrange(i as int, i + pat@.len())[k as int] != pat@[k as int]);
            return false;
        }
        k += 1;
    }
    assert(s@.subrange(i as int, i + pat@.len()) =~= pat@);
    true
}

/// `find_from` executed.
pub fn find_chars_from(s: &[char], pat: &[char], from: usize) -> (r: Option<usize>)
    ensures
        match r {
            Some(k) => find_from(s@, pat@, from as int) == Some(k as int),
            None => find_from(s@, pat@, from as int) is None,
        },
{
    if pat.len() > s.len() || from > s.len() - pat.len() {
        return None;
    }
    let last = s.len() - pat.len();
    let mut i: usize = from;
    loop
        invariant
            from <= i <= last,
            last + pat@.len() == s@.len(),
            find_from(s@, pat@, from as int) == find_from(s@, pat@, i as int),
        decreases last - i,
    {
        if matches_at(s, pat, i) {
            return Some(i);
        }
        if i == last {
            assert(find_from(s@, pat@, i + 1) is None);
            return None;
        }
        i += 1;
    }
}

/// `str::find`, counted in chars.
pub fn find_chars(s: &[char], pat: &[char]) -> (r: Option<usize>)
    ensures
        match r {
            Some(k) => find(s@, pat@) == Some(k as int),
            None => find(s@, pat@) is None,
        },
{
    find_chars_from(s, pat, 0)
}

/// `str::contains`.
pub fn contains_chars(s: &[char], pat: &[char]) -> (r: bool)
    ensures
        r == contains(s@, pat@),
{
    find_chars(s, pat).is_some()
}

/// `str::starts_with`.
pub fn starts_with_chars(s: &[char], p: &[char]) -> (r: bool)
    ensures
        r == starts_with(s@, p@),
{
    let r = matches_at(s, p, 0);
    proof {
        if p@.len() <= s@.len() {
            assert(s@.subrange(0, p@.len() as int) =~= s@.take(p@.len() as int));
        }
    }
    r
}

/// `str::ends_with`.
pub fn ends_with_chars(s: &[char], p: &[char]) -> (r: bool)
    ensures
        r == ends_with(s@, p@),
{
    if p.len() > s.len() {
        return false;
    }
    let r = matches_at(s, p, s.len() - p.len());
    proof {
        assert(s@.subrange(s@.len() - p@.len(), s@.len() as int) =~= s@.skip(s@.len() - p@.len()));
    }
    r
}

/// `char::is_whitespace`.
pub fn is_ws_char(c: char) -> (r: bool)
    ensures
        r == is_ws(c),
{
    c == '\t' || c == '\n' || c == '\u{0B}' || c == '\u{0C}' || c == '\r' || c == ' ' || c
        == '\u{85}' || c == '\u{A0}' || c == '\u{1680}' || ('\u{2000}' <= c && c <= '\u{200A}')
        || c == '\u{2028}' || c == '\u{2029}' || c == '\u{202F}' || c == '\u{205F}' || c
        == '\u{3000}'
}

/// Where `trim_start` begins.
pub fn trim_start_index(s: &[char]) -> (k: usize)
    ensures
        k <= s@.len(),
        trim_start(s@) == s@.skip(k as int),
{
    let mut k: usize = 0;
    while k < s.len() && is_ws_char(s[k])
        invariant
            k <= s@.len(),
            trim_start(s@) == trim_start(s@.skip(k as int)),
        decreases s@.len() - k,
    {
        assert(s@.skip(k as int).drop_first() =~= s@.skip(k + 1int));
        k += 1;
    }
    k
}

/// Where `trim_end` stops.
pub fn trim_end_index(s: &[char]) -> (k: usize)
    ensures
        k <= s@.len(),
        trim_end(s@) == s@.take(k as int),
{
    let mut k: usize = s.len();
    assert(s@.take(k as int) =~= s@);
    while k > 0 && is_ws_char(s[k - 1])
        invariant
            k <= s@.len(),
            trim_end(s@) == trim_end(s@.take(k as int)),
        decreases k,
    {
        assert(s@.take(k as int).drop_last() =~= s@.take(k - 1));
        k -= 1;
    }
    k
}

/// `str::trim`, copied out.
pub fn trim_chars(s: &[char]) -> (r: Vec<char>)
    ensures
        r@ == trim(s@),
{
    let a = trim_start_index(s);
    let t = slice_chars(s, a, s.len());
    assert(t@ =~= s@.skip(a as int));
    let b = trim_end_index(&t);
    slice_chars(&t, 0, b)
}

/// `str::trim_end`, copied out.
pub fn trim_end_chars(s: &[char]) -> (r: Vec<char>)
    ensures
        r@ == trim_end(s@),
{
    let b = trim_end_index(s);
    let r = slice_chars(s, 0, b);
    assert(r@ =~= s@.take(b as int));
    r
}

/// `trim(s).is_empty()`.
pub fn is_blank(s: &[char]) -> (r: bool)
    ensures
        r == (trim(s@).len() == 0),
{
    let t = trim_chars(s);
    t.len() == 0
}

/// The decimal rendering of `n`.
pub fn decimal(n: u64) -> (r: Vec<char>)
    ensures
        r@ == dec(n as nat),
    decreases n,
{
    if n < 10 {
        let mut r: Vec<char> = Vec::new();
        r.push(digit_char(n));
        r
    } else {
        let mut r = decimal(n / 10);
        r.push(digit_char(n % 10));
        r
    }
}

/// `digit` executed.
pub fn digit_char(d: u64) -> (c: char)
    requires
        d < 10,
    ensures
        c == digit(d as nat),
{
    if d == 0 { '0' }
    else if d == 1 { '1' }
    else if d == 2 { '2' }
    else if d == 3 { '3' }
    else if d == 4 { '4' }
    else if d == 5 { '5' }
    else if d == 6 { '6' }
    else if d == 7 { '7' }
    else if d == 8 { '8' }
    else { '9' }
}

/// `lines` executed.
pub fn lines_of(s: &[char]) -> (r: Vec<Vec<char>>)
    ensures
        r@.len() == lines(s@).len(),
        forall|i: int| 0 <= i < r@.len() ==> #[trigger] r@[i]@ == lines(s@)[i],
{
    let mut out: Vec<Vec<char>> = Vec::new();
    let mut rest: Vec<char> = slice_chars(s, 0, s.len());
    assert(rest@ =~= s@);
    let nl: Vec<char> = vec!['\n'];
    assert(nl@ =~= seq!['\n']);
    let ghost done: Seq<Seq<char>> = Seq::empty();
    loop
        invariant
            nl@ == seq!['\n'],
            out@.len() == done.len(),
            forall|i: int| 0 <= i < out@.len() ==> #[trigger] out@[i]@ == done[i],
            done + lines(rest@) == lines(s@),
        decreases rest@.len(),
    {
        if rest.len() == 0 {
            assert(lines(rest@) =~= Seq::<Seq<char>>::empty());
            assert(done =~= lines(s@));
            return out;
        }
        match find_chars(&rest, &nl) {
            Some(i) => {
                proof {
                    lemma_find(rest@, nl@);
                }
                let mut line = slice_chars(&rest, 0, i);
                assert(line@ =~= rest@.take(i as int));
                if line.len() > 0 && line[line.len() - 1] == '\r' {
                    line.pop();
                    assert(line@ =~= rest@.take(i as int).drop_last());
                }
                let next = slice_chars(&rest, i + 1, rest.len());
                assert(next@ =~= rest@.skip(i + 1));
                proof {
                    assert(lines(rest@) == seq![line_of(rest@, i as int)] + lines(rest@.skip(i + 1)));
                    assert(done.push(line@) + lines(next@) =~= done + lines(rest@));
                    done = done.push(line@);
                }
                out.push(line);
                rest = next;
            },
            None => {
                proof {
                    assert(lines(rest@) == seq![rest@]);
                    done = done.push(rest@);
                }
                out.push(rest);
                proof {
                    assert(done =~= lines(s@));
                }
                return out;
            },
        }
    }
}

/// `str::split_once` on a char, copied out.
pub fn split_once_chars(s: &[char], c: char) -> (r: Option<(Vec<char>, Vec<char>)>)
    ensures
        match r {
            Some((a, b)) => split_once(s@, c) == Some((a@, b@)),
            None => split_once(s@, c) is None,
        },
{
    let pat: Vec<char> = vec![c];
    assert(pat@ =~= seq![c]);
    match find_chars(s, &pat) {
        Some(i) => {
            proof {
                lemma_find(s@, pat@);
                assert(occurs_at(s@, pat@, i as int));
                assert(pat@.len() == 1);
            }
            assert(i < s.len());
            let a = slice_chars(s, 0, i);
            let b = slice_chars(s, i + 1, s.len());
            assert(a@ =~= s@.take(i as int));
            assert(b@ =~= s@.skip(i + 1));
            Some((a, b))
        },
        None => None,
    }
}

/// `rfind_char` executed.
pub fn rfind_char_exec(s: &[char], c: char) -> (r: Option<usize>)
    ensures
        match r {
            Some(k) => rfind_char(s@, c) == Some(k as int),
            None => rfind_char(s@, c) is None,
        },
{
    let mut k: usize = s.len();
    assert(s@.take(k as int) =~= s@);
    while k > 0
        invariant
            k <= s@.len(),
            rfind_char(s@, c) == rfind_char(s@.take(k as int), c),
        decreases k,
    {
        if s[k - 1] == c {
            return Some(k - 1);
        }
        assert(s@.take(k as int).drop_last() =~= s@.take(k - 1));
        k -= 1;
    }
    None
}

/// `str::rsplit_once` on a char, copied out.
pub fn rsplit_once_chars(s: &[char], c: char) -> (r: Option<(Vec<char>, Vec<char>)>)
    ensures
        match r {
            Some((a, b)) => rsplit_once(s@, c) == Some((a@, b@)),
            None => rsplit_once(s@, c) is None,
        },
{
    match rfind_char_exec(s, c) {
        Some(i) => {
            proof {
                lemma_rfind_in_range(s@, c);
            }
            assert(i < s.len());
            let a = slice_chars(s, 0, i);
            let b = slice_chars(s, i + 1, s.len());
            assert(a@ =~= s@.take(i as int));
            assert(b@ =~= s@.skip(i + 1));
            Some((a, b))
        },
        None => None,
    }
}

/// `str::strip_prefix`, copied out.
pub fn strip_prefix_chars(s: &[char], p: &[char]) -> (r: Option<Vec<char>>)
    ensures
        match r {
            Some(t) => strip_prefix(s@, p@) == Some(t@),
            None => strip_prefix(s@, p@) is None,
        },
{
    if starts_with_chars(s, p) {
        let t = slice_chars(s, p.len(), s.len());
        assert(t@ =~= s@.skip(p@.len() as int));
        Some(t)
    } else {
        None
    }
}

/// `str::strip_suffix`, copied out.
pub fn strip_suffix_chars(s: &[char], p: &[char]) -> (r: Option<Vec<char>>)
    ensures
        match r {
            Some(t) => strip_suffix(s@, p@) == Some(t@),
            None => strip_suffix(s@, p@) is None,
        },
{
    if ends_with_chars(s, p) {
        let t = slice_chars(s, 0, s.len() - p.len());
        assert(t@ =~= s@.take(s@.len() - p@.len()));
        Some(t)
    } else {
        None
    }
}

/// `seq_less` executed.
pub fn chars_less(a: &[char], b: &[char]) -> (r: bool)
    ensures
        r == seq_less(a@, b@),
{
    let mut i: usize = 0;
    loop
        invariant
            i <= a@.len(),
            i <= b@.len(),
            seq_less(a@, b@) == seq_less(a@.skip(i as int), b@.skip(i as int)),
        decreases a@.len() - i,
    {
        if i == a.len() {
            return i < b.len();
        }
        if i == b.len() {
            return false;
        }
        if a[i] != b[i] {
            return (a[i] as u32) < (b[i] as u32);
        }
        assert(a@.skip(i as int).drop_first() =~= a@.skip(i + 1int));
        assert(b@.skip(i as int).drop_first() =~= b@.skip(i + 1int));
        i += 1;
    }
}

/// `str::to_ascii_lowercase`, copied out.
pub fn lower_chars(s: &[char]) -> (r: Vec<char>)
    ensures
        r@ == lower(s@),
{
    let mut r: Vec<char> = Vec::new();
    let mut i: usize = 0;
    while i < s.len()
        invariant
            i <= s@.len(),
            r@ == lower(s@.take(i as int)),
        decreases s@.len() - i,
    {
        let c = s[i];
        let l = if 'A' <= c && c <= 'Z' { ((c as u32) + 32) as u8 as char } else { c };
        proof {
            if 'A' <= c && c <= 'Z' {
                assert(((c as u32) + 32) as u8 as char == ascii_lower(c));
            }
        }
        r.push(l);
        i += 1;
        assert(r@ =~= lower(s@.take(i as int)));
    }
    assert(s@.take(s@.len() as int) =~= s@);
    r
}

/// Every char is an ASCII digit.
pub fn all_digits(s: &[char]) -> (r: bool)
    ensures
        r == all_ascii_digits(s@),
{
    let mut i: usize = 0;
    while i < s.len()
        invariant
            i <= s@.len(),
            forall|j: int| 0 <= j < i ==> is_ascii_digit(#[trigger] s@[j]),
        decreases s@.len() - i,
    {
        if !('0' <= s[i] && s[i] <= '9') {
            return false;
        }
        i += 1;
    }
    true
}

/// `rfind_char` answers a position inside the text holding `c`.
pub proof fn lemma_rfind_in_range(s: Seq<char>, c: char)
    ensures
        match rfind_char(s, c) {
            Some(k) => 0 <= k < s.len() && s[k] == c,
            None => true,
        },
    decreases s.len(),
{
    if s.len() > 0 && s.last() != c {
        lemma_rfind_in_range(s.drop_last(), c);
    }
}

/// Non-empty text has at least one line.
pub proof fn lemma_lines_nonempty(s: Seq<char>)
    requires
        s.len() > 0,
    ensures
        lines(s).len() > 0,
{
    match find(s, seq!['\n']) {
        Some(i) => {
            if 0 <= i < s.len() {
                assert(lines(s) == seq![line_of(s, i)] + lines(s.skip(i + 1)));
            }
        },
        None => {},
    }
}

/// The first line of non-empty text is no longer than the text.
pub proof fn lemma_first_line_prefix(s: Seq<char>)
    requires
        s.len() > 0,
    ensures
        lines(s).len() > 0,
        lines(s)[0].len() <= s.len(),
{
    lemma_lines_nonempty(s);
    match find(s, seq!['\n']) {
        Some(i) => {
            if 0 <= i < s.len() {
                assert(lines(s) == seq![line_of(s, i)] + lines(s.skip(i + 1)));
                assert(lines(s)[0] == line_of(s, i));
            }
        },
        None => {},
    }
}

/// The concatenation of the parts' texts.
pub open spec fn cat_spec(parts: Seq<&str>) -> Seq<char>
    decreases parts.len(),
{
    if parts.len() == 0 {
        Seq::empty()
    } else {
        cat_spec(parts.drop_last()) + parts.last()@
    }
}

/// The parts' texts, concatenated.
pub fn cat(parts: &[&str]) -> (r: String)
    ensures
        r@ == cat_spec(parts@),
{
    let mut v: Vec<char> = Vec::new();
    let mut i: usize = 0;
    while i < parts.len()
        invariant
            i <= parts@.len(),
            v@ == cat_spec(parts@.take(i as int)),
        decreases parts@.len() - i,
    {
        push_str(&mut v, parts[i]);
        proof {
            assert(parts@.take(i + 1).drop_last() =~= parts@.take(i as int));
        }
        i += 1;
    }
    assert(parts@.take(parts@.len() as int) =~= parts@);
    string_of(&v)
}

/// Two texts joined.
pub fn cat2(a: &str, b: &str) -> (r: String)
    ensures
        r@ == a@ + b@,
{
    let mut v = chars_of(a);
    push_str(&mut v, b);
    string_of(&v)
}

/// Three texts joined.
pub fn cat3(a: &str, b: &str, c: &str) -> (r: String)
    ensures
        r@ == a@ + b@ + c@,
{
    let mut v = chars_of(a);
    push_str(&mut v, b);
    push_str(&mut v, c);
    string_of(&v)
}

/// Four texts joined.
pub fn cat4(a: &str, b: &str, c: &str, d: &str) -> (r: String)
    ensures
        r@ == a@ + b@ + c@ + d@,
{
    let mut v = chars_of(a);
    push_str(&mut v, b);
    push_str(&mut v, c);
    push_str(&mut v, d);
    string_of(&v)
}

/// Five texts joined.
pub fn cat5(a: &str, b: &str, c: &str, d: &str, e: &str) -> (r: String)
    ensures
        r@ == a@ + b@ + c@ + d@ + e@,
{
    let mut v = chars_of(a);
    push_str(&mut v, b);
    push_str(&mut v, c);
    push_str(&mut v, d);
    push_str(&mut v, e);
    string_of(&v)
}

/// Six texts joined.
pub fn cat6(a: &str, b: &str, c: &str, d: &str, e: &str, f: &str) -> (r: String)
    ensures
        r@ == a@ + b@ + c@ + d@ + e@ + f@,
{
    let mut v = chars_of(a);
    push_str(&mut v, b);
    push_str(&mut v, c);
    push_str(&mut v, d);
    push_str(&mut v, e);
    push_str(&mut v, f);
    string_of(&v)
}


/// Two lists of strings with the same contents, in order.
pub fn str_lists_eq(a: &[String], b: &[String]) -> (r: bool)
    ensures
        r == (a@.map_values(|s: String| s@) == b@.map_values(|s: String| s@)),
{
    if a.len() != b.len() {
        assert(a@.map_values(|s: String| s@).len() != b@.map_values(|s: String| s@).len());
        return false;
    }
    let mut i: usize = 0;
    while i < a.len()
        invariant
            i <= a@.len(),
            a@.len() == b@.len(),
            forall|k: int| 0 <= k < i ==> (#[trigger] a@[k])@ == b@[k]@,
        decreases a@.len() - i,
    {
        if !str_eq(a[i].as_str(), b[i].as_str()) {
            assert(a@.map_values(|s: String| s@)[i as int] != b@.map_values(|s: String| s@)[i as int]);
            return false;
        }
        i += 1;
    }
    assert(a@.map_values(|s: String| s@) =~= b@.map_values(|s: String| s@));
    true
}

/// Two optional strings with the same contents.
pub fn opt_str_eq(a: &Option<String>, b: &Option<String>) -> (r: bool)
    ensures
        r == (match (*a, *b) {
            (Some(x), Some(y)) => x@ == y@,
            (None, None) => true,
            _ => false,
        }),
{
    match (a, b) {
        (Some(x), Some(y)) => str_eq(x.as_str(), y.as_str()),
        (None, None) => true,
        _ => false,
    }
}

} // verus!
