//! Content processing: cleaning captured text, splitting it into tokens,
//! cutting it to the size the embedder takes, classifying it, and pulling
//! URLs and file paths out of it.

use vstd::prelude::*;
use crate::text::{is_white_space, has_infix, has_suffix, has_prefix, utf8_len, white_space, chars_of, string_from_range, contains_chars, ends_with_chars, utf8_len_at_most};
use crate::external::{nfc, to_nfc, lowercase, to_lowercase, push_char, Pattern, regex_compiles, regex_find_all};

verus! {

broadcast use vstd::string::group_string_axioms;

// ---------------------------------------------------------------------------
// clean_text
// ---------------------------------------------------------------------------

/// What position `i` of `s` becomes once every `"\r\n"` is replaced by `"\n"`
/// and every remaining `'\r'` by `'\n'`.
pub open spec fn newline_piece(s: Seq<char>, i: int) -> Seq<char> {
    if s[i] == '\r' {
        if i + 1 < s.len() && s[i + 1] == '\n' {
            seq![]
        } else {
            seq!['\n']
        }
    } else {
        seq![s[i]]
    }
}

/// The newline-normalised form of the first `n` positions of `s`.
pub open spec fn normalize_upto(s: Seq<char>, n: nat) -> Seq<char>
    decreases n,
{
    if n == 0 {
        seq![]
    } else {
        normalize_upto(s, (n - 1) as nat) + newline_piece(s, n - 1)
    }
}

/// `s` with `"\r\n"` replaced by `"\n"`, then `'\r'` replaced by `"\n"`.
pub open spec fn normalize_newlines(s: Seq<char>) -> Seq<char> {
    normalize_upto(s, s.len())
}

/// `s` without its leading white space.
pub open spec fn trim_start(s: Seq<char>) -> Seq<char>
    decreases s.len(),
{
    if s.len() > 0 && is_white_space(s[0]) {
        trim_start(s.drop_first())
    } else {
        s
    }
}

/// `s` without its trailing white space.
pub open spec fn trim_end(s: Seq<char>) -> Seq<char>
    decreases s.len(),
{
    if s.len() > 0 && is_white_space(s.last()) {
        trim_end(s.drop_last())
    } else {
        s
    }
}

/// `s` without leading or trailing white space (`str::trim`).
pub open spec fn trim(s: Seq<char>) -> Seq<char> {
    trim_end(trim_start(s))
}

/// Whether cleaning drops `c`: a control character (Unicode category `Cc`,
/// what `char::is_control` tests) other than a line feed or a tab.
pub open spec fn is_dropped_control(c: char) -> bool {
    let u = c as u32;
    (u <= 0x1f || 0x7f <= u <= 0x9f) && c != '\n' && c != '\t'
}

/// `s` without the control characters that cleaning drops.
pub open spec fn strip_controls(s: Seq<char>) -> Seq<char>
    decreases s.len(),
{
    if s.len() == 0 {
        s
    } else {
        let rest = strip_controls(s.drop_last());
        if is_dropped_control(s.last()) {
            rest
        } else {
            rest.push(s.last())
        }
    }
}

/// `s` with each run of spaces shortened to a single space: a space is
/// dropped where the char before it is a space too.
pub open spec fn collapse_spaces(s: Seq<char>) -> Seq<char>
    decreases s.len(),
{
    if s.len() == 0 {
        s
    } else {
        let rest = collapse_spaces(s.drop_last());
        if s.last() == ' ' && s.len() >= 2 && s[s.len() - 2] == ' ' {
            rest
        } else {
            rest.push(s.last())
        }
    }
}

/// `s` tidied: control characters other than line feed and tab dropped,
/// runs of spaces shortened to one, and the ends trimmed.
pub open spec fn tidy(s: Seq<char>) -> Seq<char> {
    trim(collapse_spaces(strip_controls(s)))
}

/// Captured text with line endings made `'\n'`, tidied, then put in Unicode
/// Normalization Form C.
pub open spec fn composed(s: Seq<char>) -> Seq<char> {
    nfc(tidy(normalize_newlines(s)))
}

/// The cleaned form of captured text: the composed text (see `composed`)
/// tidied once more, since composing may leave what tidying removes.
pub open spec fn cleaned(s: Seq<char>) -> Seq<char> {
    tidy(composed(s))
}

/// `s` is in Unicode Normalization Form C: composing it changes nothing.
pub open spec fn is_nfc(s: Seq<char>) -> bool {
    nfc(s) == s
}

/// `s` holds no control character that cleaning drops.
pub open spec fn has_no_dropped_control(s: Seq<char>) -> bool {
    forall|i: int| 0 <= i < s.len() ==> !is_dropped_control(#[trigger] s[i])
}

/// No two neighbouring chars of `s` are both spaces.
pub open spec fn has_no_double_space(s: Seq<char>) -> bool {
    forall|i: int, j: int|
        0 <= i && j == i + 1 && j < s.len() ==> !(#[trigger] s[i] == ' ' && #[trigger] s[j] == ' ')
}

/// Neither end of `s` is white space.
pub open spec fn is_trimmed(s: Seq<char>) -> bool {
    s.len() > 0 ==> !is_white_space(s[0]) && !is_white_space(s.last())
}

/// `s` holds no carriage return.
pub open spec fn has_no_cr(s: Seq<char>) -> bool {
    forall|i: int| 0 <= i < s.len() ==> s[i] != '\r'
}

proof fn lemma_trim_start_skip(s: Seq<char>, a: int)
    requires
        0 <= a < s.len(),
        is_white_space(s[a]),
    ensures
        trim_start(s.subrange(a, s.len() as int)) == trim_start(s.subrange(a + 1, s.len() as int)),
{
    assert(s.subrange(a, s.len() as int).drop_first() =~= s.subrange(a + 1, s.len() as int));
}

proof fn lemma_trim_end_skip(s: Seq<char>, a: int, b: int)
    requires
        0 <= a < b <= s.len(),
        is_white_space(s[b - 1]),
    ensures
        trim_end(s.subrange(a, b)) == trim_end(s.subrange(a, b - 1)),
{
    assert(s.subrange(a, b).drop_last() =~= s.subrange(a, b - 1));
}

/// Bounds `[a, b)` with `trim(v) == v[a..b]`.
pub fn trim_bounds(v: &Vec<char>) -> (r: (usize, usize))
    ensures
        r.0 <= r.1 <= v.len(),
        trim(v@) == v@.subrange(r.0 as int, r.1 as int),
{
    let n = v.len();
    let mut a: usize = 0;
    assert(v@.subrange(0, n as int) =~= v@);
    while a < n && white_space(v[a])
        invariant
            n == v.len(),
            a <= n,
            trim_start(v@) == trim_start(v@.subrange(a as int, n as int)),
        decreases n - a,
    {
        proof {
            lemma_trim_start_skip(v@, a as int);
        }
        a += 1;
    }
    assert(trim_start(v@.subrange(a as int, n as int)) == v@.subrange(a as int, n as int));
    let mut b: usize = n;
    while b > a && white_space(v[b - 1])
        invariant
            n == v.len(),
            a <= b <= n,
            trim_start(v@) == v@.subrange(a as int, n as int),
            trim(v@) == trim_end(v@.subrange(a as int, b as int)),
        decreases b - a,
    {
        proof {
            lemma_trim_end_skip(v@, a as int, b as int);
        }
        b -= 1;
    }
    (a, b)
}

proof fn lemma_normalize_identity(s: Seq<char>, n: nat)
    requires
        n <= s.len(),
        has_no_cr(s),
    ensures
        normalize_upto(s, n) == s.take(n as int),
    decreases n,
{
    if n > 0 {
        lemma_normalize_identity(s, (n - 1) as nat);
        assert(s.take(n as int) =~= s.take(n - 1) + seq![s[n - 1]]);
    }
}

proof fn lemma_trim_start_shape(s: Seq<char>)
    ensures
        exists|a: int| 0 <= a <= s.len() && trim_start(s) == #[trigger] s.subrange(a, s.len() as int),
        trim_start(s).len() > 0 ==> !is_white_space(trim_start(s)[0]),
    decreases s.len(),
{
    if s.len() > 0 && is_white_space(s[0]) {
        lemma_trim_start_shape(s.drop_first());
        let a = choose|a: int|
            0 <= a <= s.drop_first().len() && trim_start(s.drop_first())
                == #[trigger] s.drop_first().subrange(a, s.drop_first().len() as int);
        assert(s.drop_first().subrange(a, s.drop_first().len() as int) =~= s.subrange(
            a + 1,
            s.len() as int,
        ));
    } else {
        assert(s.subrange(0, s.len() as int) =~= s);
    }
}

proof fn lemma_trim_end_shape(s: Seq<char>)
    ensures
        exists|b: int| 0 <= b <= s.len() && trim_end(s) == #[trigger] s.subrange(0, b),
        trim_end(s).len() > 0 ==> !is_white_space(trim_end(s).last()),
    decreases s.len(),
{
    if s.len() > 0 && is_white_space(s.last()) {
        lemma_trim_end_shape(s.drop_last());
        let b = choose|b: int|
            0 <= b <= s.drop_last().len() && trim_end(s.drop_last())
                == #[trigger] s.drop_last().subrange(0, b);
        assert(s.drop_last().subrange(0, b) =~= s.subrange(0, b));
    } else {
        assert(s.subrange(0, s.len() as int) =~= s);
    }
}

/// `trim` gives a run of the argument with neither end white space.
proof fn lemma_trim_shape(s: Seq<char>)
    ensures
        is_trimmed(trim(s)),
        exists|a: int, b: int| 0 <= a <= b <= s.len() && trim(s) == #[trigger] s.subrange(a, b),
{
    let t = trim_start(s);
    lemma_trim_start_shape(s);
    lemma_trim_end_shape(t);
    let a = choose|a: int| 0 <= a <= s.len() && t == #[trigger] s.subrange(a, s.len() as int);
    let b = choose|b: int| 0 <= b <= t.len() && trim_end(t) == #[trigger] t.subrange(0, b);
    assert(t.subrange(0, b) =~= s.subrange(a, a + b));
    if trim(s).len() > 0 {
        assert(trim(s)[0] == t[0]);
    }
}

proof fn lemma_trimmed_fixed(s: Seq<char>)
    requires
        is_trimmed(s),
    ensures
        trim(s) == s,
{
}

proof fn lemma_strip_controls_clean(s: Seq<char>)
    ensures
        has_no_dropped_control(strip_controls(s)),
    decreases s.len(),
{
    if s.len() > 0 {
        lemma_strip_controls_clean(s.drop_last());
    }
}

proof fn lemma_strip_controls_identity(s: Seq<char>)
    requires
        has_no_dropped_control(s),
    ensures
        strip_controls(s) == s,
    decreases s.len(),
{
    if s.len() > 0 {
        assert(has_no_dropped_control(s.drop_last()));
        lemma_strip_controls_identity(s.drop_last());
        assert(!is_dropped_control(s[s.len() - 1]));
        assert(s.drop_last().push(s.last()) =~= s);
    }
}

proof fn lemma_collapse_last(s: Seq<char>)
    requires
        s.len() > 0,
    ensures
        collapse_spaces(s).len() > 0,
        collapse_spaces(s).last() == s.last(),
    decreases s.len(),
{
    if s.last() == ' ' && s.len() >= 2 && s[s.len() - 2] == ' ' {
        lemma_collapse_last(s.drop_last());
    }
}

proof fn lemma_collapse_no_double_space(s: Seq<char>)
    ensures
        has_no_double_space(collapse_spaces(s)),
    decreases s.len(),
{
    if s.len() > 0 {
        let rest = collapse_spaces(s.drop_last());
        lemma_collapse_no_double_space(s.drop_last());
        if !(s.last() == ' ' && s.len() >= 2 && s[s.len() - 2] == ' ') {
            let t = rest.push(s.last());
            if rest.len() > 0 {
                lemma_collapse_last(s.drop_last());
            }
            assert forall|i: int, j: int|
                0 <= i && j == i + 1 && j < t.len() implies !(#[trigger] t[i] == ' '
                && #[trigger] t[j] == ' ') by {
                if j < rest.len() {
                    assert(t[i] == rest[i] && t[j] == rest[j]);
                }
            }
        }
    }
}

proof fn lemma_collapse_keeps_clean(s: Seq<char>)
    requires
        has_no_dropped_control(s),
    ensures
        has_no_dropped_control(collapse_spaces(s)),
    decreases s.len(),
{
    if s.len() > 0 {
        assert(has_no_dropped_control(s.drop_last()));
        lemma_collapse_keeps_clean(s.drop_last());
        assert(!is_dropped_control(s[s.len() - 1]));
    }
}

proof fn lemma_collapse_identity(s: Seq<char>)
    requires
        has_no_double_space(s),
    ensures
        collapse_spaces(s) == s,
    decreases s.len(),
{
    if s.len() > 0 {
        let d = s.drop_last();
        assert forall|i: int, j: int|
            0 <= i && j == i + 1 && j < d.len() implies !(#[trigger] d[i] == ' '
            && #[trigger] d[j] == ' ') by {
            assert(d[i] == s[i] && d[j] == s[j]);
        }
        lemma_collapse_identity(d);
        if s.len() >= 2 {
            assert(!(s[s.len() - 2] == ' ' && s[s.len() - 1] == ' '));
        }
        assert(d.push(s.last()) =~= s);
    }
}

proof fn lemma_subrange_keeps_shape(s: Seq<char>, a: int, b: int)
    requires
        0 <= a <= b <= s.len(),
    ensures
        has_no_dropped_control(s) ==> has_no_dropped_control(s.subrange(a, b)),
        has_no_double_space(s) ==> has_no_double_space(s.subrange(a, b)),
{
    let t = s.subrange(a, b);
    if has_no_dropped_control(s) {
        assert forall|i: int| 0 <= i < t.len() implies !is_dropped_control(#[trigger] t[i]) by {
            assert(t[i] == s[a + i]);
        }
    }
    if has_no_double_space(s) {
        assert forall|i: int, j: int|
            0 <= i && j == i + 1 && j < t.len() implies !(#[trigger] t[i] == ' '
            && #[trigger] t[j] == ' ') by {
            assert(t[i] == s[a + i] && t[j] == s[a + j]);
        }
    }
}

/// Tidied text holds no control character but line feeds and tabs (so no
/// carriage return), no two spaces in a row, and neither end is white space.
pub proof fn lemma_tidy_shape(s: Seq<char>)
    ensures
        has_no_dropped_control(tidy(s)),
        has_no_cr(tidy(s)),
        has_no_double_space(tidy(s)),
        is_trimmed(tidy(s)),
{
    let st = strip_controls(s);
    let n = collapse_spaces(st);
    lemma_strip_controls_clean(s);
    lemma_collapse_keeps_clean(st);
    lemma_collapse_no_double_space(st);
    lemma_trim_shape(n);
    let (a, b) = choose|a: int, b: int| 0 <= a <= b <= n.len() && trim(n) == #[trigger] n.subrange(a, b);
    lemma_subrange_keeps_shape(n, a, b);
    let c = tidy(s);
    assert forall|i: int| 0 <= i < c.len() implies c[i] != '\r' by {
        assert(!is_dropped_control(c[i]));
    }
}

/// Tidying text that has the shape tidying gives leaves it unchanged.
pub proof fn lemma_tidy_fixed(s: Seq<char>)
    requires
        has_no_dropped_control(s),
        has_no_double_space(s),
        is_trimmed(s),
    ensures
        tidy(s) == s,
{
    lemma_strip_controls_identity(s);
    lemma_collapse_identity(s);
    lemma_trimmed_fixed(s);
}

/// Cleaning is idempotent on text whose cleaned form is in Normalization
/// Form C (as it is whenever the second tidying changes nothing): cleaning
/// such text a second time leaves it unchanged.
pub proof fn lemma_clean_text_idempotent(s: Seq<char>)
    requires
        is_nfc(cleaned(s)),
    ensures
        cleaned(cleaned(s)) == cleaned(s),
{
    let c = cleaned(s);
    lemma_tidy_shape(composed(s));
    lemma_normalize_identity(c, c.len());
    assert(c.take(c.len() as int) =~= c);
    lemma_tidy_fixed(c);
    assert(normalize_newlines(c) == c);
    assert(composed(c) == c);
}

/// The tidied text of `w`.
fn tidy_chars(w: &Vec<char>) -> (r: String)
    ensures
        r@ == tidy(w@),
{
    let m = w.len();
    let mut kept: Vec<char> = Vec::new();
    let mut k: usize = 0;
    while k < m
        invariant
            m == w.len(),
            k <= m,
            kept@ == strip_controls(w@.take(k as int)),
        decreases m - k,
    {
        let c = w[k];
        let u: u32 = c as u32;
        assert(w@.take(k + 1).drop_last() =~= w@.take(k as int));
        if !((u <= 0x1f || (0x7f <= u && u <= 0x9f)) && c != '\n' && c != '\t') {
            kept.push(c);
        }
        assert(kept@ =~= strip_controls(w@.take(k + 1)));
        k += 1;
    }
    assert(w@.take(m as int) =~= w@);
    let p = kept.len();
    let mut single: Vec<char> = Vec::new();
    let mut j: usize = 0;
    while j < p
        invariant
            p == kept.len(),
            j <= p,
            single@ == collapse_spaces(kept@.take(j as int)),
        decreases p - j,
    {
        let c = kept[j];
        assert(kept@.take(j + 1).drop_last() =~= kept@.take(j as int));
        if !(c == ' ' && j >= 1 && kept[j - 1] == ' ') {
            single.push(c);
        }
        assert(single@ =~= collapse_spaces(kept@.take(j + 1)));
        j += 1;
    }
    assert(kept@.take(p as int) =~= kept@);
    let (a, b) = trim_bounds(&single);
    string_from_range(&single, a, b)
}

/// Cleans captured text: line endings become `'\n'`; control characters
/// other than line feed and tab are dropped, runs of spaces become one space
/// and surrounding white space is trimmed; the text is put in Unicode
/// Normalization Form C; and what composing left for tidying is tidied
/// again.  The result is in Normalization Form C whenever that second tidying
/// changed nothing.
pub fn clean_text(text: &str) -> (r: String)
    ensures
        r@ == cleaned(text@),
        has_no_dropped_control(r@),
        has_no_cr(r@),
        has_no_double_space(r@),
        is_trimmed(r@),
        r@ == composed(text@) ==> is_nfc(r@),
{
    let v = chars_of(text);
    let n = v.len();
    let mut out: Vec<char> = Vec::new();
    let mut i: usize = 0;
    while i < n
        invariant
            n == v.len(),
            i <= n,
            out@ == normalize_upto(v@, i as nat),
        decreases n - i,
    {
        let c = v[i];
        if c == '\r' {
            if i + 1 < n && v[i + 1] == '\n' {
            } else {
                out.push('\n');
            }
        } else {
            out.push(c);
        }
        assert(out@ =~= normalize_upto(v@, (i + 1) as nat));
        i += 1;
    }
    let tidied = tidy_chars(&out);
    let composed_text = to_nfc(tidied.as_str());
    let w = chars_of(composed_text.as_str());
    let r = tidy_chars(&w);
    proof {
        lemma_tidy_shape(composed(text@));
    }
    r
}

// ---------------------------------------------------------------------------
// tokenize
// ---------------------------------------------------------------------------

/// Scanning `s` left to right: the words completed so far and the word under
/// construction.
pub open spec fn scan_words(s: Seq<char>) -> (Seq<Seq<char>>, Seq<char>)
    decreases s.len(),
{
    if s.len() == 0 {
        (seq![], seq![])
    } else {
        let (done, cur) = scan_words(s.drop_last());
        if is_white_space(s.last()) {
            if cur.len() > 0 {
                (done.push(cur), seq![])
            } else {
                (done, seq![])
            }
        } else {
            (done, cur.push(s.last()))
        }
    }
}

/// The maximal runs of non-white-space chars of `s`, in order
/// (`str::split_whitespace`).
pub open spec fn split_whitespace(s: Seq<char>) -> Seq<Seq<char>> {
    let (done, cur) = scan_words(s);
    if cur.len() > 0 {
        done.push(cur)
    } else {
        done
    }
}

/// The lowercased words, keeping those whose UTF-8 encoding is longer than
/// one byte.
pub open spec fn keep_tokens(words: Seq<Seq<char>>) -> Seq<Seq<char>>
    decreases words.len(),
{
    if words.len() == 0 {
        seq![]
    } else {
        let l = lowercase(words.last());
        keep_tokens(words.drop_last()) + if utf8_len(l) > 1 {
            seq![l]
        } else {
            seq![]
        }
    }
}

/// The tokens of `s`.
pub open spec fn tokens(s: Seq<char>) -> Seq<Seq<char>> {
    keep_tokens(split_whitespace(s))
}

/// Every word of `s` is non-empty and free of white space.
pub proof fn lemma_words_shape(s: Seq<char>)
    ensures
        forall|i: int|
            0 <= i < split_whitespace(s).len() ==> (#[trigger] split_whitespace(s)[i]).len() > 0
                && forall|j: int|
                0 <= j < split_whitespace(s)[i].len() ==> !is_white_space(split_whitespace(s)[i][j]),
{
    lemma_scan_shape(s);
}

proof fn lemma_scan_shape(s: Seq<char>)
    ensures
        forall|i: int|
            0 <= i < scan_words(s).0.len() ==> (#[trigger] scan_words(s).0[i]).len() > 0
                && forall|j: int|
                0 <= j < scan_words(s).0[i].len() ==> !is_white_space(scan_words(s).0[i][j]),
        forall|j: int| 0 <= j < scan_words(s).1.len() ==> !is_white_space(scan_words(s).1[j]),
    decreases s.len(),
{
    if s.len() > 0 {
        lemma_scan_shape(s.drop_last());
        let (done, cur) = scan_words(s.drop_last());
        if is_white_space(s.last()) {
            if cur.len() > 0 {
                assert forall|i: int| 0 <= i < done.push(cur).len() implies #[trigger] done.push(
                    cur,
                )[i] == if i < done.len() {
                    done[i]
                } else {
                    cur
                } by {}
            }
        } else {
            assert forall|j: int| 0 <= j < cur.push(s.last()).len() implies #[trigger] cur.push(
                s.last(),
            )[j] == if j < cur.len() {
                cur[j]
            } else {
                s.last()
            } by {}
        }
    }
}

/// Every token is longer than one byte.
pub proof fn lemma_tokens_long(words: Seq<Seq<char>>)
    ensures
        forall|i: int| 0 <= i < keep_tokens(words).len() ==> utf8_len(#[trigger] keep_tokens(words)[i]) > 1,
        keep_tokens(words).len() <= words.len(),
    decreases words.len(),
{
    if words.len() > 0 {
        lemma_tokens_long(words.drop_last());
        let prev = keep_tokens(words.drop_last());
        let l = lowercase(words.last());
        let extra: Seq<Seq<char>> = if utf8_len(l) > 1 { seq![l] } else { seq![] };
        assert forall|i: int| 0 <= i < keep_tokens(words).len() implies utf8_len(
            #[trigger] keep_tokens(words)[i],
        ) > 1 by {
            if i < prev.len() {
                assert(keep_tokens(words)[i] == prev[i]);
            } else {
                assert(keep_tokens(words)[i] == extra[i - prev.len()]);
            }
        }
    }
}

/// The words of `text`, split on Unicode white space.
pub fn split_words(text: &str) -> (r: Vec<String>)
    ensures
        r.deep_view() == split_whitespace(text@),
{
    let v = chars_of(text);
    let n = v.len();
    let mut done: Vec<String> = Vec::new();
    let mut cur = String::new();
    let mut i: usize = 0;
    while i < n
        invariant
            n == v.len(),
            i <= n,
            (done.deep_view(), cur@) == scan_words(v@.take(i as int)),
        decreases n - i,
    {
        let c = v[i];
        proof {
            assert(v@.take(i + 1).drop_last() =~= v@.take(i as int));
            assert(v@.take(i + 1).last() == c);
        }
        if white_space(c) {
            if !cur.as_str().is_empty() {
                let ghost before = done.deep_view();
                done.push(cur);
                assert(done.deep_view() =~= before.push(scan_words(v@.take(i as int)).1));
            }
            cur = String::new();
        } else {
            push_char(&mut cur, c);
        }
        i += 1;
    }
    assert(v@.take(n as int) =~= v@);
    if !cur.as_str().is_empty() {
        let ghost before = done.deep_view();
        done.push(cur);
        assert(done.deep_view() =~= before.push(scan_words(v@).1));
    }
    done
}

/// Splits `text` on white space, lowercases each word and keeps the words
/// longer than one byte.
pub fn tokenize(text: &str) -> (r: Vec<String>)
    ensures
        r.deep_view() == tokens(text@),
        forall|i: int| 0 <= i < r.deep_view().len() ==> utf8_len(#[trigger] r.deep_view()[i]) > 1,
{
    let words = split_words(text);
    let ghost ws = words.deep_view();
    let mut out: Vec<String> = Vec::new();
    let mut i: usize = 0;
    while i < words.len()
        invariant
            ws == words.deep_view(),
            i <= words.len(),
            out.deep_view() == keep_tokens(ws.take(i as int)),
        decreases words.len() - i,
    {
        let l = to_lowercase(words[i].as_str());
        proof {
            assert(ws.take(i + 1).drop_last() =~= ws.take(i as int));
            assert(ws.take(i + 1).last() == words[i as int]@);
        }
        let ghost before = out.deep_view();
        let lv = chars_of(l.as_str());
        if !utf8_len_at_most(&lv, 1) {
            out.push(l);
            assert(out.deep_view() =~= before + seq![lowercase(ws[i as int])]);
        } else {
            assert(before + Seq::<Seq<char>>::empty() =~= before);
        }
        i += 1;
    }
    assert(ws.take(words.len() as int) =~= ws);
    proof {
        lemma_tokens_long(ws);
    }
    out
}

// ---------------------------------------------------------------------------
// truncate_for_embedding
// ---------------------------------------------------------------------------

/// The index of the last occurrence of `c` in `s`, if any.
pub open spec fn last_index_of(s: Seq<char>, c: char) -> Option<int>
    decreases s.len(),
{
    if s.len() == 0 {
        None
    } else if s.last() == c {
        Some(s.len() - 1)
    } else {
        last_index_of(s.drop_last(), c)
    }
}

/// `s` cut to its first `n` chars (all of it where it is shorter).
pub open spec fn first_chars(s: Seq<char>, n: nat) -> Seq<char> {
    if n < s.len() {
        s.take(n as int)
    } else {
        s
    }
}

/// `s` unchanged when its UTF-8 encoding fits in `max` bytes; otherwise its
/// first `max` chars, cut back to before the last space among them if there
/// is one.
pub open spec fn truncated(s: Seq<char>, max: nat) -> Seq<char> {
    if utf8_len(s) <= max {
        s
    } else {
        let t = first_chars(s, max);
        match last_index_of(t, ' ') {
            Some(p) => t.take(p),
            None => t,
        }
    }
}

proof fn lemma_last_index_bounds(s: Seq<char>, c: char)
    ensures
        last_index_of(s, c) matches Some(p) ==> 0 <= p < s.len() && s[p] == c,
    decreases s.len(),
{
    if s.len() > 0 {
        lemma_last_index_bounds(s.drop_last(), c);
    }
}

proof fn lemma_chars_within_bytes(s: Seq<char>)
    ensures
        s.len() <= utf8_len(s),
    decreases s.len(),
{
    if s.len() > 0 {
        lemma_chars_within_bytes(s.drop_first());
    }
}

/// The truncated text is a prefix of the input that holds at most `max`
/// chars, and text that fits is returned whole.
pub proof fn lemma_truncated_prefix(s: Seq<char>, max: nat)
    ensures
        has_prefix(s, truncated(s, max)),
        truncated(s, max).len() <= max,
        utf8_len(s) <= max ==> truncated(s, max) == s,
{
    lemma_chars_within_bytes(s);
    let t = first_chars(s, max);
    lemma_last_index_bounds(t, ' ');
    let r = truncated(s, max);
    assert(s.subrange(0, r.len() as int) =~= r);
}

/// Cuts `text` to at most `max_chars` chars for the embedder, preferring to
/// end at a space.
pub fn truncate_for_embedding(text: &str, max_chars: usize) -> (r: String)
    ensures
        r@ == truncated(text@, max_chars as nat),
        has_prefix(text@, r@),
        r@.len() <= max_chars,
{
    proof {
        lemma_truncated_prefix(text@, max_chars as nat);
    }
    let v = chars_of(text);
    if utf8_len_at_most(&v, max_chars) {
        return text.to_owned();
    }
    let n = if max_chars < v.len() {
        max_chars
    } else {
        v.len()
    };
    let ghost t = first_chars(v@, max_chars as nat);
    assert(t =~= v@.take(n as int));
    let mut k: usize = n;
    while k > 0 && v[k - 1] != ' '
        invariant
            k <= n <= v.len(),
            t == v@.take(n as int),
            last_index_of(t, ' ') == last_index_of(v@.take(k as int), ' '),
        decreases k,
    {
        assert(v@.take(k as int).drop_last() =~= v@.take(k - 1));
        k -= 1;
    }
    if k == 0 {
        assert(v@.take(0) =~= Seq::<char>::empty());
        string_from_range(&v, 0, n)
    } else {
        assert(v@.take(k as int).last() == ' ');
        string_from_range(&v, 0, k - 1)
    }
}

// ---------------------------------------------------------------------------
// detect_content_type
// ---------------------------------------------------------------------------

/// The content type that a URL alone decides, if any.
pub open spec fn url_content_type(u: Seq<char>) -> Option<Seq<char>> {
    if has_infix(u, "github.com"@) || has_infix(u, "gitlab.com"@) {
        Some("code"@)
    } else if has_infix(u, "stackoverflow.com"@) {
        Some("qa"@)
    } else if has_infix(u, "youtube.com"@) || has_infix(u, "vimeo.com"@) {
        Some("video"@)
    } else if has_infix(u, "docs."@) || has_infix(u, "wikipedia.org"@) {
        Some("documentation"@)
    } else {
        None
    }
}

/// The content type that a lowercased file path alone decides, if any.
pub open spec fn path_content_type(p: Seq<char>) -> Option<Seq<char>> {
    if has_suffix(p, ".rs"@) || has_suffix(p, ".js"@) || has_suffix(p, ".ts"@) || has_suffix(
        p,
        ".py"@,
    ) || has_suffix(p, ".go"@) || has_suffix(p, ".java"@) {
        Some("code"@)
    } else if has_suffix(p, ".pdf"@) {
        Some("document"@)
    } else if has_suffix(p, ".md"@) || has_suffix(p, ".txt"@) {
        Some("text"@)
    } else {
        None
    }
}

/// 1 when `p` occurs in `s`, else 0.
pub open spec fn occurs(s: Seq<char>, p: Seq<char>) -> nat {
    if has_infix(s, p) {
        1
    } else {
        0
    }
}

/// How many of the code indicators occur in `text`.
pub open spec fn code_indicator_count(text: Seq<char>) -> nat {
    occurs(text, "function"@) + occurs(text, "const "@) + occurs(text, "let "@) + occurs(
        text,
        "var "@,
    ) + occurs(text, "def "@) + occurs(text, "fn "@) + occurs(text, "pub "@) + occurs(
        text,
        "import "@,
    )
}

/// The content type of `text`, seen at `url` and in the file whose
/// lowercased path is `lowered_path`: the URL decides first, then the path,
/// then the text, which is code where two indicators occur in it.
pub open spec fn content_type(
    text: Seq<char>,
    url: Option<Seq<char>>,
    lowered_path: Option<Seq<char>>,
) -> Seq<char> {
    if url is Some && url_content_type(url->0) is Some {
        url_content_type(url->0)->0
    } else if lowered_path is Some && path_content_type(lowered_path->0) is Some {
        path_content_type(lowered_path->0)->0
    } else if code_indicator_count(text) >= 2 {
        "code"@
    } else {
        "general"@
    }
}

/// One of the content types this library assigns.
pub open spec fn is_content_type(t: Seq<char>) -> bool {
    ||| t == "code"@
    ||| t == "qa"@
    ||| t == "video"@
    ||| t == "documentation"@
    ||| t == "document"@
    ||| t == "text"@
    ||| t == "general"@
}

/// Every content type returned is one of the seven known ones.
pub proof fn lemma_content_type_known(
    text: Seq<char>,
    url: Option<Seq<char>>,
    lowered_path: Option<Seq<char>>,
)
    ensures
        is_content_type(content_type(text, url, lowered_path)),
{
}

/// The code indicators, in no particular order.
pub open spec fn code_indicators() -> Seq<Seq<char>> {
    seq!["function"@, "const "@, "let "@, "var "@, "def "@, "fn "@, "pub "@, "import "@]
}

proof fn lemma_suffix_last(s: Seq<char>, p: Seq<char>)
    requires
        p.len() > 0,
        has_suffix(s, p),
    ensures
        s.len() > 0,
        s.last() == p.last(),
{
    assert(s.subrange(s.len() - p.len(), s.len() as int)[p.len() - 1] == s[s.len() - 1]);
}

/// A URL on GitHub or GitLab makes content code, whatever its path and text.
pub proof fn lemma_code_hosts_are_code(text: Seq<char>, u: Seq<char>, lowered_path: Option<Seq<char>>)
    requires
        has_infix(u, "github.com"@) || has_infix(u, "gitlab.com"@),
    ensures
        content_type(text, Some(u), lowered_path) == "code"@,
{
}

/// A Stack Overflow URL makes content Q&A, a YouTube or Vimeo URL video, and
/// a `docs.` or Wikipedia URL documentation, each unless a site listed
/// before it also occurs in the URL (GitHub, GitLab, then Stack Overflow,
/// then YouTube and Vimeo).
pub proof fn lemma_sites_decide(text: Seq<char>, u: Seq<char>, lowered_path: Option<Seq<char>>)
    ensures
        !has_infix(u, "github.com"@) && !has_infix(u, "gitlab.com"@) && has_infix(
            u,
            "stackoverflow.com"@,
        ) ==> content_type(text, Some(u), lowered_path) == "qa"@,
        !has_infix(u, "github.com"@) && !has_infix(u, "gitlab.com"@) && !has_infix(
            u,
            "stackoverflow.com"@,
        ) && (has_infix(u, "youtube.com"@) || has_infix(u, "vimeo.com"@)) ==> content_type(
            text,
            Some(u),
            lowered_path,
        ) == "video"@,
        !has_infix(u, "github.com"@) && !has_infix(u, "gitlab.com"@) && !has_infix(
            u,
            "stackoverflow.com"@,
        ) && !has_infix(u, "youtube.com"@) && !has_infix(u, "vimeo.com"@) && (has_infix(
            u,
            "docs."@,
        ) || has_infix(u, "wikipedia.org"@)) ==> content_type(text, Some(u), lowered_path)
            == "documentation"@,
{
}

/// A URL on none of the known sites decides nothing: the content is typed as
/// if there were no URL.
pub proof fn lemma_other_urls_decide_nothing(
    text: Seq<char>,
    u: Seq<char>,
    lowered_path: Option<Seq<char>>,
)
    requires
        !has_infix(u, "github.com"@),
        !has_infix(u, "gitlab.com"@),
        !has_infix(u, "stackoverflow.com"@),
        !has_infix(u, "youtube.com"@),
        !has_infix(u, "vimeo.com"@),
        !has_infix(u, "docs."@),
        !has_infix(u, "wikipedia.org"@),
    ensures
        content_type(text, Some(u), lowered_path) == content_type(text, None, lowered_path),
{
}

/// With no URL, a file whose lowercased path ends in a code extension (`.rs`,
/// `.js`, `.ts`, `.py`, `.go`, `.java`) is code, whatever the text.
pub proof fn lemma_code_files_are_code(text: Seq<char>, lowered_path: Seq<char>)
    requires
        has_suffix(lowered_path, ".rs"@) || has_suffix(lowered_path, ".js"@) || has_suffix(
            lowered_path,
            ".ts"@,
        ) || has_suffix(lowered_path, ".py"@) || has_suffix(lowered_path, ".go"@) || has_suffix(
            lowered_path,
            ".java"@,
        ),
    ensures
        content_type(text, None, Some(lowered_path)) == "code"@,
{
}

/// With no URL, a file whose lowercased path ends in `.pdf` is a document,
/// and one ending in `.md` or `.txt` is text, whatever the text.
pub proof fn lemma_document_files(text: Seq<char>, lowered_path: Seq<char>)
    ensures
        has_suffix(lowered_path, ".pdf"@) ==> content_type(text, None, Some(lowered_path))
            == "document"@,
        has_suffix(lowered_path, ".md"@) || has_suffix(lowered_path, ".txt"@) ==> content_type(
            text,
            None,
            Some(lowered_path),
        ) == "text"@,
{
    reveal_strlit(".rs");
    reveal_strlit(".js");
    reveal_strlit(".ts");
    reveal_strlit(".py");
    reveal_strlit(".go");
    reveal_strlit(".java");
    reveal_strlit(".pdf");
    reveal_strlit(".md");
    reveal_strlit(".txt");
    let l = lowered_path;
    if has_suffix(l, ".pdf"@) || has_suffix(l, ".md"@) || has_suffix(l, ".txt"@) {
        if has_suffix(l, ".pdf"@) {
            lemma_suffix_last(l, ".pdf"@);
        }
        if has_suffix(l, ".md"@) {
            lemma_suffix_last(l, ".md"@);
        }
        if has_suffix(l, ".txt"@) {
            lemma_suffix_last(l, ".txt"@);
        }
        if has_suffix(l, ".rs"@) {
            lemma_suffix_last(l, ".rs"@);
        }
        if has_suffix(l, ".js"@) {
            lemma_suffix_last(l, ".js"@);
        }
        if has_suffix(l, ".ts"@) {
            lemma_suffix_last(l, ".ts"@);
        }
        if has_suffix(l, ".py"@) {
            lemma_suffix_last(l, ".py"@);
        }
        if has_suffix(l, ".go"@) {
            lemma_suffix_last(l, ".go"@);
        }
        if has_suffix(l, ".java"@) {
            lemma_suffix_last(l, ".java"@);
        }
    }
}

/// With no URL, a file path ending in none of the known extensions decides
/// nothing: the content is typed as if there were no path.
pub proof fn lemma_other_files_decide_nothing(text: Seq<char>, lowered_path: Seq<char>)
    requires
        !has_suffix(lowered_path, ".rs"@),
        !has_suffix(lowered_path, ".js"@),
        !has_suffix(lowered_path, ".ts"@),
        !has_suffix(lowered_path, ".py"@),
        !has_suffix(lowered_path, ".go"@),
        !has_suffix(lowered_path, ".java"@),
        !has_suffix(lowered_path, ".pdf"@),
        !has_suffix(lowered_path, ".md"@),
        !has_suffix(lowered_path, ".txt"@),
    ensures
        content_type(text, None, Some(lowered_path)) == content_type(text, None, None),
{
}

/// With nothing else to go by, text in which two different code indicators
/// occur is code, and text in which at most one occurs is general.
pub proof fn lemma_text_decides(text: Seq<char>)
    ensures
        (exists|i: int, j: int|
            0 <= i < j < code_indicators().len() && has_infix(text, #[trigger] code_indicators()[i])
                && has_infix(text, #[trigger] code_indicators()[j])) ==> content_type(text, None, None)
            == "code"@,
        (forall|i: int, j: int|
            0 <= i < j < code_indicators().len() ==> !(has_infix(text, #[trigger] code_indicators()[i])
                && has_infix(text, #[trigger] code_indicators()[j]))) ==> content_type(text, None, None)
            == "general"@,
{
    let ind = code_indicators();
    assert(ind[0] == "function"@);
    assert(ind[1] == "const "@);
    assert(ind[2] == "let "@);
    assert(ind[3] == "var "@);
    assert(ind[4] == "def "@);
    assert(ind[5] == "fn "@);
    assert(ind[6] == "pub "@);
    assert(ind[7] == "import "@);
    if code_indicator_count(text) >= 2 {
        assert(exists|i: int, j: int|
            0 <= i < j < ind.len() && has_infix(text, #[trigger] ind[i]) && has_infix(text, #[trigger] ind[j]));
    }
}

fn url_type(u: &str) -> (r: Option<String>)
    ensures
        r.is_some() == url_content_type(u@).is_some(),
        r matches Some(t) ==> t@ == url_content_type(u@)->0,
{
    let v = chars_of(u);
    if contains_chars(&v, &chars_of("github.com")) || contains_chars(&v, &chars_of("gitlab.com")) {
        Some("code".to_owned())
    } else if contains_chars(&v, &chars_of("stackoverflow.com")) {
        Some("qa".to_owned())
    } else if contains_chars(&v, &chars_of("youtube.com")) || contains_chars(
        &v,
        &chars_of("vimeo.com"),
    ) {
        Some("video".to_owned())
    } else if contains_chars(&v, &chars_of("docs.")) || contains_chars(
        &v,
        &chars_of("wikipedia.org"),
    ) {
        Some("documentation".to_owned())
    } else {
        None
    }
}

fn path_type(p: &str) -> (r: Option<String>)
    ensures
        r.is_some() == path_content_type(p@).is_some(),
        r matches Some(t) ==> t@ == path_content_type(p@)->0,
{
    let v = chars_of(p);
    if ends_with_chars(&v, &chars_of(".rs")) || ends_with_chars(&v, &chars_of(".js"))
        || ends_with_chars(&v, &chars_of(".ts")) || ends_with_chars(&v, &chars_of(".py"))
        || ends_with_chars(&v, &chars_of(".go")) || ends_with_chars(&v, &chars_of(".java")) {
        Some("code".to_owned())
    } else if ends_with_chars(&v, &chars_of(".pdf")) {
        Some("document".to_owned())
    } else if ends_with_chars(&v, &chars_of(".md")) || ends_with_chars(&v, &chars_of(".txt")) {
        Some("text".to_owned())
    } else {
        None
    }
}

fn occurs_in(v: &Vec<char>, p: &str) -> (n: u8)
    ensures
        n == occurs(v@, p@),
{
    if contains_chars(v, &chars_of(p)) {
        1
    } else {
        0
    }
}

/// Classifies `text` given its URL and the lowercased form of its file path.
pub fn classify_content(text: &str, url: Option<&str>, lowered_path: Option<&str>) -> (r: String)
    ensures
        r@ == content_type(
            text@,
            match url {
                Some(u) => Some(u@),
                None => None,
            },
            match lowered_path {
                Some(p) => Some(p@),
                None => None,
            },
        ),
        is_content_type(r@),
{
    if let Some(u) = url {
        if let Some(t) = url_type(u) {
            return t;
        }
    }
    if let Some(p) = lowered_path {
        if let Some(t) = path_type(p) {
            return t;
        }
    }
    let v = chars_of(text);
    let count = occurs_in(&v, "function") + occurs_in(&v, "const ") + occurs_in(&v, "let ")
        + occurs_in(&v, "var ") + occurs_in(&v, "def ") + occurs_in(&v, "fn ") + occurs_in(
        &v,
        "pub ",
    ) + occurs_in(&v, "import ");
    if count >= 2 {
        return "code".to_owned();
    }
    "general".to_owned()
}

/// Classifies captured content as code, Q&A, video, documentation, document,
/// text or general, from its URL, its file path (compared in lowercase) and
/// its text.
pub fn detect_content_type(text: &str, url: Option<&str>, file_path: Option<&str>) -> (r: String)
    ensures
        r@ == content_type(
            text@,
            match url {
                Some(u) => Some(u@),
                None => None,
            },
            match file_path {
                Some(p) => Some(lowercase(p@)),
                None => None,
            },
        ),
        is_content_type(r@),
{
    match file_path {
        Some(p) => {
            let lowered = to_lowercase(p);
            classify_content(text, url, Some(lowered.as_str()))
        },
        None => classify_content(text, url, None),
    }
}

// ---------------------------------------------------------------------------
// extract_urls, extract_file_paths
// ---------------------------------------------------------------------------

/// The pattern that URLs are found with.
pub open spec fn url_pattern() -> Seq<char> {
    "https?://[^\\s<>\\\"]+"@
}

/// The pattern that candidate file paths are found with.
pub open spec fn path_pattern() -> Seq<char> {
    "(?:/[\\w.-]+)+"@
}

/// The URLs found in `text`: every match of the URL pattern, in order.
pub fn extract_urls(text: &str) -> (r: Vec<String>)
    ensures
        r.deep_view() == if regex_compiles(url_pattern()) {
            regex_find_all(url_pattern(), text@)
        } else {
            Seq::<Seq<char>>::empty()
        },
        forall|i: int| 0 <= i < r.deep_view().len() ==> has_infix(text@, #[trigger] r.deep_view()[i]),
{
    match Pattern::compile("https?://[^\\s<>\\\"]+") {
        Some(re) => re.find_all(text),
        None => Vec::new(),
    }
}

/// Whether a candidate path, already lowercased, is worth keeping: it lies
/// under a user, home or var directory, or has a text, document or source
/// extension.
pub open spec fn is_path_of_interest(lowered: Seq<char>) -> bool {
    ||| has_infix(lowered, "/users/"@)
    ||| has_infix(lowered, "/home/"@)
    ||| has_infix(lowered, "/var/"@)
    ||| has_suffix(lowered, ".txt"@)
    ||| has_suffix(lowered, ".pdf"@)
    ||| has_suffix(lowered, ".md"@)
    ||| has_suffix(lowered, ".js"@)
    ||| has_suffix(lowered, ".rs"@)
    ||| has_suffix(lowered, ".py"@)
    ||| has_suffix(lowered, ".go"@)
}

/// The candidates whose lowercased form is a path of interest, in order.
pub open spec fn paths_of_interest(candidates: Seq<Seq<char>>) -> Seq<Seq<char>>
    decreases candidates.len(),
{
    if candidates.len() == 0 {
        seq![]
    } else {
        paths_of_interest(candidates.drop_last()) + if is_path_of_interest(
            lowercase(candidates.last()),
        ) {
            seq![candidates.last()]
        } else {
            seq![]
        }
    }
}

/// A path is worth keeping, by its lowercased form: it lies under a
/// `/users/`, `/home/` or `/var/` directory, or it ends in `.txt`, `.pdf`,
/// `.md`, `.js`, `.rs`, `.py` or `.go`.
pub proof fn lemma_path_of_interest_exactly(lowered: Seq<char>)
    ensures
        is_path_of_interest(lowered) <==> (has_infix(lowered, "/users/"@) || has_infix(lowered, "/home/"@)
            || has_infix(lowered, "/var/"@) || has_suffix(lowered, ".txt"@) || has_suffix(
            lowered,
            ".pdf"@,
        ) || has_suffix(lowered, ".md"@) || has_suffix(lowered, ".js"@) || has_suffix(
            lowered,
            ".rs"@,
        ) || has_suffix(lowered, ".py"@) || has_suffix(lowered, ".go"@)),
{
}

/// Selecting paths keeps exactly the candidates worth keeping, in their
/// order: each kept path is a candidate whose lowercased form is worth
/// keeping, and each such candidate is kept.
pub proof fn lemma_paths_of_interest(candidates: Seq<Seq<char>>)
    ensures
        forall|i: int|
            0 <= i < candidates.len() && is_path_of_interest(lowercase(#[trigger] candidates[i]))
                ==> paths_of_interest(candidates).contains(candidates[i]),
        forall|k: int|
            0 <= k < paths_of_interest(candidates).len() ==> candidates.contains(
                #[trigger] paths_of_interest(candidates)[k],
            ) && is_path_of_interest(lowercase(paths_of_interest(candidates)[k])),
        paths_of_interest(candidates).len() <= candidates.len(),
    decreases candidates.len(),
{
    if candidates.len() > 0 {
        let d = candidates.drop_last();
        lemma_paths_of_interest(d);
        let before = paths_of_interest(d);
        let c = candidates.last();
        let all = paths_of_interest(candidates);
        assert forall|i: int|
            0 <= i < candidates.len() && is_path_of_interest(lowercase(#[trigger] candidates[i]))
                implies all.contains(candidates[i]) by {
            if i < d.len() {
                assert(d[i] == candidates[i]);
                let k = choose|k: int| 0 <= k < before.len() && before[k] == d[i];
                assert(all[k] == before[k]);
            } else {
                assert(all[all.len() - 1] == c);
            }
        }
        assert forall|k: int| 0 <= k < all.len() implies candidates.contains(#[trigger] all[k])
            && is_path_of_interest(lowercase(all[k])) by {
            if k < before.len() {
                assert(all[k] == before[k]);
                let i = choose|i: int| 0 <= i < d.len() && d[i] == before[k];
                assert(candidates[i] == d[i]);
            } else {
                assert(all[k] == c);
                assert(candidates[candidates.len() - 1] == c);
            }
        }
    }
}

/// A file path found in text, such as `/Volumes/Work/report.pdf`, is kept
/// when its lowercased form ends in `.pdf`; likewise for each extension and
/// directory of interest.
pub proof fn lemma_found_paths_kept(text: Seq<char>, i: int)
    requires
        regex_compiles(path_pattern()),
        0 <= i < regex_find_all(path_pattern(), text).len(),
        ({
            let l = lowercase(regex_find_all(path_pattern(), text)[i]);
            has_infix(l, "/users/"@) || has_infix(l, "/home/"@) || has_infix(l, "/var/"@) || has_suffix(
                l,
                ".txt"@,
            ) || has_suffix(l, ".pdf"@) || has_suffix(l, ".md"@) || has_suffix(l, ".js"@)
                || has_suffix(l, ".rs"@) || has_suffix(l, ".py"@) || has_suffix(l, ".go"@)
        }),
    ensures
        paths_of_interest(regex_find_all(path_pattern(), text)).contains(
            regex_find_all(path_pattern(), text)[i],
        ),
{
    lemma_path_of_interest_exactly(lowercase(regex_find_all(path_pattern(), text)[i]));
    lemma_paths_of_interest(regex_find_all(path_pattern(), text));
}

/// Whether a lowercased candidate path is worth keeping.
pub fn path_of_interest(lowered: &str) -> (b: bool)
    ensures
        b == is_path_of_interest(lowered@),
{
    let v = chars_of(lowered);
    contains_chars(&v, &chars_of("/users/")) || contains_chars(&v, &chars_of("/home/"))
        || contains_chars(&v, &chars_of("/var/")) || ends_with_chars(&v, &chars_of(".txt"))
        || ends_with_chars(&v, &chars_of(".pdf")) || ends_with_chars(&v, &chars_of(".md"))
        || ends_with_chars(&v, &chars_of(".js")) || ends_with_chars(&v, &chars_of(".rs"))
        || ends_with_chars(&v, &chars_of(".py")) || ends_with_chars(&v, &chars_of(".go"))
}

/// Keeps the candidates whose lowercased form is a path of interest.
pub fn select_file_paths(candidates: Vec<String>) -> (r: Vec<String>)
    ensures
        r.deep_view() == paths_of_interest(candidates.deep_view()),
{
    let ghost cs = candidates.deep_view();
    let mut out: Vec<String> = Vec::new();
    let mut i: usize = 0;
    while i < candidates.len()
        invariant
            cs == candidates.deep_view(),
            i <= candidates.len(),
            out.deep_view() == paths_of_interest(cs.take(i as int)),
        decreases candidates.len() - i,
    {
        let lowered = to_lowercase(candidates[i].as_str());
        proof {
            assert(cs.take(i + 1).drop_last() =~= cs.take(i as int));
            assert(cs.take(i + 1).last() == candidates[i as int]@);
        }
        let ghost before = out.deep_view();
        if path_of_interest(lowered.as_str()) {
            out.push(candidates[i].clone());
            assert(out.deep_view() =~= before + seq![cs[i as int]]);
        } else {
            assert(before + Seq::<Seq<char>>::empty() =~= before);
        }
        i += 1;
    }
    assert(cs.take(candidates.len() as int) =~= cs);
    out
}

/// The file paths found in `text`: the matches of the path pattern whose
/// lowercased form is a path of interest, in order.
pub fn extract_file_paths(text: &str) -> (r: Vec<String>)
    ensures
        r.deep_view() == if regex_compiles(path_pattern()) {
            paths_of_interest(regex_find_all(path_pattern(), text@))
        } else {
            Seq::<Seq<char>>::empty()
        },
{
    match Pattern::compile("(?:/[\\w.-]+)+") {
        Some(re) => select_file_paths(re.find_all(text)),
        None => Vec::new(),
    }
}

} // verus!
