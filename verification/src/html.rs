//! Character-level HTML processing: case folding for tag and attribute
//! names, white space, entity decoding and the text of a document.

use vstd::prelude::*;
use crate::text::{find_from, is_whitespace, is_ws, occurs_at, occurs_at_exec};

verus! {

// ---------------------------------------------------------------------------
// Case folding
// ---------------------------------------------------------------------------

/// `c` with an ASCII capital letter made small; tag and attribute names are
/// matched on this form, character for character.
pub open spec fn fold(c: char) -> char {
    if 'A' <= c && c <= 'Z' {
        ((c as u32) + 32) as char
    } else {
        c
    }
}

/// Every character of `s` folded.
pub open spec fn fold_seq(s: Seq<char>) -> Seq<char> {
    s.map_values(|c: char| fold(c))
}

/// The folded form of one character.
pub fn fold_char(c: char) -> (r: char)
    ensures
        r == fold(c),
{
    if 'A' <= c && c <= 'Z' {
        (((c as u32) + 32) as u8) as char
    } else {
        c
    }
}

/// The folded characters of `s`.
pub fn fold_chars(s: &[char]) -> (r: Vec<char>)
    ensures
        r@ == fold_seq(s@),
{
    let mut r: Vec<char> = Vec::new();
    let mut i: usize = 0;
    while i < s.len()
        invariant
            i <= s@.len(),
            r@ == fold_seq(s@.take(i as int)),
        decreases s@.len() - i,
    {
        r.push(fold_char(s[i]));
        assert(fold_seq(s@.take(i as int + 1)) =~= fold_seq(s@.take(i as int)).push(fold(s@[i as int])));
        i += 1;
    }
    assert(s@.take(s@.len() as int) == s@);
    r
}

// ---------------------------------------------------------------------------
// White space
// ---------------------------------------------------------------------------

/// `s` without leading white space.
pub open spec fn trim_start(s: Seq<char>) -> Seq<char>
    decreases s.len(),
{
    if s.len() > 0 && is_ws(s[0]) {
        trim_start(s.drop_first())
    } else {
        s
    }
}

/// `s` without trailing white space.
pub open spec fn trim_end(s: Seq<char>) -> Seq<char>
    decreases s.len(),
{
    if s.len() > 0 && is_ws(s.last()) {
        trim_end(s.drop_last())
    } else {
        s
    }
}

/// `s` without leading and trailing white space (`str::trim`).
pub open spec fn trim(s: Seq<char>) -> Seq<char> {
    trim_end(trim_start(s))
}

/// The characters of `s` from `a` to `b`, trimmed.
pub fn trimmed_range(s: &[char], a: usize, b: usize) -> (r: Vec<char>)
    requires
        a <= b <= s@.len(),
    ensures
        r@ == trim(s@.subrange(a as int, b as int)),
{
    let ghost t = s@.subrange(a as int, b as int);
    let mut i = a;
    while i < b && is_whitespace(s[i])
        invariant
            a <= i <= b,
            b <= s@.len(),
            t == s@.subrange(a as int, b as int),
            trim_start(t) == trim_start(s@.subrange(i as int, b as int)),
        decreases b - i,
    {
        assert(s@.subrange(i as int, b as int).drop_first() == s@.subrange(i as int + 1, b as int));
        i += 1;
    }
    let mut j = b;
    while j > i && is_whitespace(s[j - 1])
        invariant
            a <= i <= j <= b,
            b <= s@.len(),
            t == s@.subrange(a as int, b as int),
            trim(t) == trim_end(s@.subrange(i as int, j as int)),
            trim_start(t) == s@.subrange(i as int, b as int) || true,
        decreases j - i,
    {
        assert(s@.subrange(i as int, j as int).drop_last() == s@.subrange(i as int, j as int - 1));
        j -= 1;
    }
    assert(trim(t) == s@.subrange(i as int, j as int));
    let mut r: Vec<char> = Vec::new();
    let mut k = i;
    while k < j
        invariant
            i <= k <= j,
            j <= s@.len(),
            r@ == s@.subrange(i as int, k as int),
        decreases j - k,
    {
        r.push(s[k]);
        assert(s@.subrange(i as int, k as int + 1) == s@.subrange(i as int, k as int).push(s@[k as int]));
        k += 1;
    }
    r
}

/// `s` with each run of white space made one space (`' '`).
pub open spec fn collapse_ws(s: Seq<char>) -> Seq<char>
    decreases s.len(),
{
    if s.len() == 0 {
        seq![]
    } else if is_ws(s.last()) {
        if s.len() > 1 && is_ws(s[s.len() - 2]) {
            collapse_ws(s.drop_last())
        } else {
            collapse_ws(s.drop_last()).push(' ')
        }
    } else {
        collapse_ws(s.drop_last()).push(s.last())
    }
}

/// Runs of white space made single spaces, then the ends trimmed.
pub open spec fn normalized_ws(s: Seq<char>) -> Seq<char> {
    trim(collapse_ws(s))
}

/// Collapses white space and trims the result.
pub fn normalize_whitespace(s: &[char]) -> (r: Vec<char>)
    ensures
        r@ == normalized_ws(s@),
{
    let mut out: Vec<char> = Vec::new();
    let mut prev_ws = false;
    let mut i: usize = 0;
    while i < s.len()
        invariant
            i <= s@.len(),
            out@ == collapse_ws(s@.take(i as int)),
            prev_ws == (i > 0 && is_ws(s@[i - 1])),
        decreases s@.len() - i,
    {
        let c = s[i];
        assert(s@.take(i as int + 1).drop_last() == s@.take(i as int));
        assert(s@.take(i as int + 1).last() == c);
        if i > 0 {
            assert(s@.take(i as int + 1)[i - 1] == s@[i - 1]);
        }
        if is_whitespace(c) {
            if !prev_ws {
                out.push(' ');
            }
            prev_ws = true;
        } else {
            out.push(c);
            prev_ws = false;
        }
        i += 1;
    }
    assert(s@.take(s@.len() as int) == s@);
    let n = out.len();
    assert(out@.subrange(0, n as int) == out@);
    trimmed_range(&out, 0, n)
}

// ---------------------------------------------------------------------------
// Replacement
// ---------------------------------------------------------------------------

/// `s` with every occurrence of `p`, scanning from the left and without
/// overlap, replaced by `r` (`str::replace`, for a non-empty `p`).
pub open spec fn replace_all(s: Seq<char>, p: Seq<char>, r: Seq<char>) -> Seq<char>
    decreases s.len(),
{
    if s.len() == 0 || p.len() == 0 {
        s
    } else if s.len() >= p.len() && s.take(p.len() as int) == p {
        r + replace_all(s.skip(p.len() as int), p, r)
    } else {
        seq![s[0]] + replace_all(s.skip(1), p, r)
    }
}

/// Replaces every occurrence of `p` by `r`.
pub fn replace_chars(s: &[char], p: &[char], r: &[char]) -> (out: Vec<char>)
    requires
        p@.len() > 0,
    ensures
        out@ == replace_all(s@, p@, r@),
{
    let mut out: Vec<char> = Vec::new();
    let mut i: usize = 0;
    assert(s@.skip(0) == s@);
    while i < s.len()
        invariant
            i <= s@.len(),
            p@.len() > 0,
            out@ + replace_all(s@.skip(i as int), p@, r@) == replace_all(s@, p@, r@),
        decreases s@.len() - i,
    {
        let ghost rest = s@.skip(i as int);
        if occurs_at_exec(s, p, i) {
            assert(rest.take(p@.len() as int) == s@.subrange(i as int, i + p@.len()));
            assert(rest.skip(p@.len() as int) == s@.skip(i + p@.len()));
            let ghost o = out@;
            let mut k: usize = 0;
            while k < r.len()
                invariant
                    k <= r@.len(),
                    out@ == o + r@.take(k as int),
                decreases r@.len() - k,
            {
                out.push(r[k]);
                assert(r@.take(k as int + 1) == r@.take(k as int).push(r@[k as int]));
                k += 1;
            }
            assert(r@.take(r@.len() as int) == r@);
            assert(o + (r@ + replace_all(rest.skip(p@.len() as int), p@, r@)) == o + r@ + replace_all(
                s@.skip(i + p@.len()),
                p@,
                r@,
            ));
            i += p.len();
        } else {
            proof {
                if rest.len() >= p@.len() {
                    assert(rest.take(p@.len() as int) == s@.subrange(i as int, i + p@.len()));
                }
            }
            assert(rest.skip(1) == s@.skip(i + 1));
            assert(rest[0] == s@[i as int]);
            let ghost o = out@;
            out.push(s[i]);
            assert(o + (seq![s@[i as int]] + replace_all(rest.skip(1), p@, r@)) == o.push(s@[i as int])
                + replace_all(s@.skip(i + 1), p@, r@));
            i += 1;
        }
    }
    assert(s@.skip(i as int).len() == 0);
    assert(out@ + s@.skip(i as int) == out@);
    out
}

// ---------------------------------------------------------------------------
// The text of a document
// ---------------------------------------------------------------------------

/// The state of reading text out of HTML: the text so far, whether inside a
/// tag, and whether the text ends in a space that was put for white space or
/// a tag.
pub ghost struct TextState {
    pub text: Seq<char>,
    pub in_tag: bool,
    pub prev_space: bool,
}

/// The state after reading the characters of `s`: a `<` starts a tag and
/// puts a space after non-empty text (unless one was just put), a `>` ends
/// it, and outside tags a run of white space becomes one space.
pub open spec fn text_state(s: Seq<char>) -> TextState
    decreases s.len(),
{
    if s.len() == 0 {
        TextState { text: seq![], in_tag: false, prev_space: false }
    } else {
        let st = text_state(s.drop_last());
        let c = s.last();
        if c == '<' {
            if !st.prev_space && st.text.len() > 0 {
                TextState { text: st.text.push(' '), in_tag: true, prev_space: true }
            } else {
                TextState { in_tag: true, ..st }
            }
        } else if c == '>' {
            TextState { in_tag: false, ..st }
        } else if st.in_tag {
            st
        } else if is_ws(c) {
            if !st.prev_space {
                TextState { text: st.text.push(' '), prev_space: true, ..st }
            } else {
                st
            }
        } else {
            TextState { text: st.text.push(c), prev_space: false, ..st }
        }
    }
}

/// `&nbsp;`, `&amp;`, `&lt;`, `&gt;`, `&quot;`, `&#39;` and `&apos;`
/// decoded, in that order, each over the result of the one before.
pub open spec fn decode_entities(s: Seq<char>) -> Seq<char> {
    let s1 = replace_all(s, "&nbsp;"@, " "@);
    let s2 = replace_all(s1, "&amp;"@, "&"@);
    let s3 = replace_all(s2, "&lt;"@, "<"@);
    let s4 = replace_all(s3, "&gt;"@, ">"@);
    let s5 = replace_all(s4, "&quot;"@, "\""@);
    let s6 = replace_all(s5, "&#39;"@, "'"@);
    replace_all(s6, "&apos;"@, "'"@)
}

/// The plain text of HTML: tags dropped, white space collapsed, common
/// entities decoded, the ends trimmed.
pub open spec fn html_text(html: Seq<char>) -> Seq<char> {
    trim(decode_entities(text_state(html).text))
}

/// Replaces one entity.
fn replace_str(s: &Vec<char>, p: &str, r: &str) -> (out: Vec<char>)
    requires
        p@.len() > 0,
    ensures
        out@ == replace_all(s@, p@, r@),
{
    let pc = crate::text::chars_of(p);
    let rc = crate::text::chars_of(r);
    replace_chars(s, &pc, &rc)
}

/// The plain text of HTML.
pub fn extract_text(html: &[char]) -> (r: Vec<char>)
    ensures
        r@ == html_text(html@),
{
    let mut text: Vec<char> = Vec::new();
    let mut in_tag = false;
    let mut prev_space = false;
    let mut i: usize = 0;
    while i < html.len()
        invariant
            i <= html@.len(),
            text_state(html@.take(i as int)) == (TextState { text: text@, in_tag, prev_space }),
        decreases html@.len() - i,
    {
        let c = html[i];
        assert(html@.take(i as int + 1).drop_last() == html@.take(i as int));
        assert(html@.take(i as int + 1).last() == c);
        if c == '<' {
            in_tag = true;
            if !prev_space && text.len() > 0 {
                text.push(' ');
                prev_space = true;
            }
        } else if c == '>' {
            in_tag = false;
        } else if !in_tag {
            if is_whitespace(c) {
                if !prev_space {
                    text.push(' ');
                    prev_space = true;
                }
            } else {
                text.push(c);
                prev_space = false;
            }
        }
        i += 1;
    }
    assert(html@.take(html@.len() as int) == html@);
    proof {
        reveal_strlit("&nbsp;");
        reveal_strlit("&amp;");
        reveal_strlit("&lt;");
        reveal_strlit("&gt;");
        reveal_strlit("&quot;");
        reveal_strlit("&#39;");
        reveal_strlit("&apos;");
    }
    let t1 = replace_str(&text, "&nbsp;", " ");
    let t2 = replace_str(&t1, "&amp;", "&");
    let t3 = replace_str(&t2, "&lt;", "<");
    let t4 = replace_str(&t3, "&gt;", ">");
    let t5 = replace_str(&t4, "&quot;", "\"");
    let t6 = replace_str(&t5, "&#39;", "'");
    let t7 = replace_str(&t6, "&apos;", "'");
    let n = t7.len();
    assert(t7@.subrange(0, n as int) == t7@);
    trimmed_range(&t7, 0, n)
}

} // verus!
