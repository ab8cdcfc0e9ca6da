//! Archiving of page content: cleaning HTML, extracting its text, title,
//! links and media, resolving URLs, naming media files, and deciding which
//! media downloads fit the size limits.

use vstd::prelude::*;
use crate::html::{
    fold_chars, fold_seq, html_text, normalized_ws, trim, trimmed_range,
};
use crate::matcher::{push_chars, push_str_chars};
use crate::model::ContentArchive;
use crate::text::{
    chars_of, contains, ends_with, find, find_chars, find_chars_from, find_from, is_whitespace,
    is_ws, lemma_find_from, lowercase, occurs_at, starts_with, starts_with_chars, string_from_chars,
    strings_view, to_lowercase, words,
};

verus! {

// ---------------------------------------------------------------------------
// Pieces of text
// ---------------------------------------------------------------------------

/// The part of `s` before the first `c`, or all of it
/// (`s.split(c).next()`).
pub open spec fn before_char(s: Seq<char>, c: char) -> Seq<char> {
    match find(s, seq![c]) {
        Some(k) => s.take(k),
        None => s,
    }
}

/// The index of the last `c` in `s`.
pub open spec fn last_index_of(s: Seq<char>, c: char) -> Option<int>
    decreases s.len(),
{
    if s.len() == 0 {
        None
    } else if s.last() == c {
        Some(s.len() - 1)
    } else {
        last_index_of(s.drop_last(), c)
    }
}

/// `last_index_of` is the index of the last `c`.
pub proof fn lemma_last_index_of(s: Seq<char>, c: char)
    ensures
        last_index_of(s, c) matches Some(k) ==> 0 <= k < s.len() && s[k] == c && forall|j: int|
            k < j < s.len() ==> s[j] != c,
        last_index_of(s, c) is None ==> forall|j: int| 0 <= j < s.len() ==> s[j] != c,
    decreases s.len(),
{
    if s.len() > 0 && s.last() != c {
        lemma_last_index_of(s.drop_last(), c);
        assert forall|j: int| 0 <= j < s.len() - 1 implies s.drop_last()[j] == s[j] by {}
    }
}

/// The part of `s` after its last `c`, or all of it
/// (`s.rsplit(c).next()`).
pub open spec fn after_last(s: Seq<char>, c: char) -> Seq<char> {
    match last_index_of(s, c) {
        Some(k) => s.skip(k + 1),
        None => s,
    }
}

/// The index of the first `c` in `s`.
pub fn index_of(s: &[char], c: char) -> (r: Option<usize>)
    ensures
        match r {
            Some(k) => find(s@, seq![c]) == Some(k as int),
            None => find(s@, seq![c]) is None,
        },
{
    let pat = [c];
    assert(pat@ == seq![c]);
    find_chars(s, &pat)
}

/// The index of the last `c` in `s`.
pub fn last_index(s: &[char], c: char) -> (r: Option<usize>)
    ensures
        match r {
            Some(k) => last_index_of(s@, c) == Some(k as int),
            None => last_index_of(s@, c) is None,
        },
{
    let mut i = s.len();
    assert(s@.take(i as int) == s@);
    while i > 0
        invariant
            i <= s@.len(),
            last_index_of(s@, c) == last_index_of(s@.take(i as int), c),
        decreases i,
    {
        assert(s@.take(i as int).drop_last() == s@.take(i as int - 1));
        if s[i - 1] == c {
            return Some(i - 1);
        }
        i -= 1;
    }
    None
}

/// The characters of `s` from `a` to `b`.
pub fn slice_chars(s: &[char], a: usize, b: usize) -> (r: Vec<char>)
    requires
        a <= b <= s@.len(),
    ensures
        r@ == s@.subrange(a as int, b as int),
{
    let mut r: Vec<char> = Vec::new();
    let mut k = a;
    while k < b
        invariant
            a <= k <= b,
            b <= s@.len(),
            r@ == s@.subrange(a as int, k as int),
        decreases b - k,
    {
        r.push(s[k]);
        assert(s@.subrange(a as int, k as int + 1) == s@.subrange(a as int, k as int).push(s@[k as int]));
        k += 1;
    }
    r
}

/// The part before the first `c`.
pub fn prefix_before(s: &[char], c: char) -> (r: Vec<char>)
    ensures
        r@ == before_char(s@, c),
{
    match index_of(s, c) {
        Some(k) => {
            proof {
                crate::text::lemma_find_from(s@, seq![c], 0);
            }
            let r = slice_chars(s, 0, k);
            assert(r@ == s@.take(k as int));
            r
        },
        None => slice_chars(s, 0, s.len()),
    }
}

/// The part after the last `c`.
pub fn suffix_after_last(s: &[char], c: char) -> (r: Vec<char>)
    ensures
        r@ == after_last(s@, c),
{
    match last_index(s, c) {
        Some(k) => {
            proof {
                lemma_last_index_of(s@, c);
            }
            assert(k < s@.len());
            let n = s.len();
            let r = slice_chars(s, k + 1, n);
            assert(r@ == s@.skip(k + 1));
            r
        },
        None => {
            let r = slice_chars(s, 0, s.len());
            assert(r@ == s@);
            r
        },
    }
}

// ---------------------------------------------------------------------------
// URLs
// ---------------------------------------------------------------------------

/// A URL split into protocol, host and path: the protocol is what precedes
/// the first `://`; the host runs to the next `/`, where the path starts
/// (`/` where there is none). `None` without `://`.
pub open spec fn url_parts(url: Seq<char>) -> Option<(Seq<char>, Seq<char>, Seq<char>)> {
    match find(url, "://"@) {
        None => None,
        Some(pe) => {
            let rest = url.skip(pe + 3);
            match find(rest, seq!['/']) {
                Some(ps) => Some((url.take(pe), rest.take(ps), rest.skip(ps))),
                None => Some((url.take(pe), rest, seq!['/'])),
            }
        },
    }
}

/// Splits a URL into protocol, host and path.
pub fn parse_url(url: &[char]) -> (r: Option<(Vec<char>, Vec<char>, Vec<char>)>)
    ensures
        match r {
            Some((a, b, c)) => url_parts(url@) == Some((a@, b@, c@)),
            None => url_parts(url@) is None,
        },
{
    let sep = [':', '/', '/'];
    proof {
        reveal_strlit("://");
    }
    assert(sep@ == "://"@);
    match find_chars(url, &sep) {
        None => None,
        Some(pe) => {
            proof {
                crate::text::lemma_find_from(url@, "://"@, 0);
            }
            assert(occurs_at(url@, "://"@, pe as int));
            assert(pe + 3 <= url@.len());
            let n = url.len();
            let protocol = slice_chars(url, 0, pe);
            let rest = slice_chars(url, pe + 3, n);
            assert(rest@ == url@.skip(pe + 3));
            assert(protocol@ == url@.take(pe as int));
            match index_of(&rest, '/') {
                Some(ps) => {
                    proof {
                        crate::text::lemma_find_from(rest@, seq!['/'], 0);
                    }
                    let host = slice_chars(&rest, 0, ps);
                    let path = slice_chars(&rest, ps, rest.len());
                    assert(host@ == rest@.take(ps as int));
                    assert(path@ == rest@.skip(ps as int));
                    Some((protocol, host, path))
                },
                None => {
                    let mut path: Vec<char> = Vec::new();
                    path.push('/');
                    assert(path@ == seq!['/']);
                    Some((protocol, rest, path))
                },
            }
        },
    }
}

/// The pieces of `s` between occurrences of `c`, empty ones included
/// (`str::split`).
pub open spec fn split_on(s: Seq<char>, c: char) -> Seq<Seq<char>> {
    split_acc(s, c, seq![])
}

/// `split_on` of `s`, where `cur` is the unfinished piece that precedes it.
pub open spec fn split_acc(s: Seq<char>, c: char, cur: Seq<char>) -> Seq<Seq<char>>
    decreases s.len(),
{
    if s.len() == 0 {
        seq![cur]
    } else if s[0] == c {
        seq![cur] + split_acc(s.drop_first(), c, seq![])
    } else {
        split_acc(s.drop_first(), c, cur.push(s[0]))
    }
}

/// The segments kept after resolving `.` and `..` in `segs`: empty and `.`
/// segments vanish, `..` removes the segment before it.
pub open spec fn path_stack(segs: Seq<Seq<char>>) -> Seq<Seq<char>>
    decreases segs.len(),
{
    if segs.len() == 0 {
        seq![]
    } else {
        let st = path_stack(segs.drop_last());
        let s = segs.last();
        if s.len() == 0 || s == seq!['.'] {
            st
        } else if s == seq!['.', '.'] {
            if st.len() > 0 {
                st.drop_last()
            } else {
                st
            }
        } else {
            st.push(s)
        }
    }
}

/// The segments joined by `/`.
pub open spec fn join_slash(segs: Seq<Seq<char>>) -> Seq<char>
    decreases segs.len(),
{
    if segs.len() == 0 {
        seq![]
    } else if segs.len() == 1 {
        segs[0]
    } else {
        join_slash(segs.drop_last()) + seq!['/'] + segs.last()
    }
}

/// A path with `.` and `..` resolved: `/` followed by the kept segments.
pub open spec fn normalized_path(path: Seq<char>) -> Seq<char> {
    seq!['/'] + join_slash(path_stack(split_on(path, '/')))
}

/// The segments of a path, split at `/`.
fn split_slash(s: &[char]) -> (r: Vec<Vec<char>>)
    ensures
        crate::change_detector::char_vecs(r@) == split_on(s@, '/'),
{
    let mut r: Vec<Vec<char>> = Vec::new();
    let mut cur: Vec<char> = Vec::new();
    let mut i: usize = 0;
    assert(s@.skip(0) == s@);
    assert(crate::change_detector::char_vecs(r@) + split_acc(s@.skip(0), '/', cur@) =~= split_on(
        s@,
        '/',
    ));
    while i < s.len()
        invariant
            i <= s@.len(),
            crate::change_detector::char_vecs(r@) + split_acc(s@.skip(i as int), '/', cur@)
                == split_on(s@, '/'),
        decreases s@.len() - i,
    {
        let c = s[i];
        assert(s@.skip(i as int)[0] == c);
        assert(s@.skip(i as int).drop_first() == s@.skip(i as int + 1));
        if c == '/' {
            let ghost o = crate::change_detector::char_vecs(r@);
            let ghost oc = cur@;
            r.push(cur);
            cur = Vec::new();
            assert(crate::change_detector::char_vecs(r@) =~= o.push(oc));
            assert(o + (seq![oc] + split_acc(s@.skip(i as int + 1), '/', seq![])) =~= o.push(oc)
                + split_acc(s@.skip(i as int + 1), '/', seq![]));
            assert(cur@ =~= Seq::<char>::empty());
        } else {
            cur.push(c);
        }
        i += 1;
    }
    let ghost o = crate::change_detector::char_vecs(r@);
    let ghost oc = cur@;
    r.push(cur);
    assert(crate::change_detector::char_vecs(r@) =~= o + seq![oc]);
    r
}

/// Resolves `.` and `..` in a path.
pub fn normalize_path(path: &[char]) -> (r: Vec<char>)
    ensures
        r@ == normalized_path(path@),
{
    let segs = split_slash(path);
    let ghost sv = crate::change_detector::char_vecs(segs@);
    let mut stack: Vec<Vec<char>> = Vec::new();
    let mut i: usize = 0;
    assert(sv.take(0) =~= Seq::<Seq<char>>::empty());
    assert(crate::change_detector::char_vecs(stack@) =~= Seq::<Seq<char>>::empty());
    while i < segs.len()
        invariant
            i <= segs@.len(),
            sv == crate::change_detector::char_vecs(segs@),
            crate::change_detector::char_vecs(stack@) == path_stack(sv.take(i as int)),
        decreases segs@.len() - i,
    {
        let s = &segs[i];
        assert(sv.take(i as int + 1).drop_last() == sv.take(i as int));
        assert(sv.take(i as int + 1).last() == s@);
        let ghost o = crate::change_detector::char_vecs(stack@);
        if s.len() == 0 || (s.len() == 1 && s[0] == '.') {
            proof {
                if s@.len() == 1 {
                    assert(s@ == seq!['.']);
                }
            }
        } else if s.len() == 2 && s[0] == '.' && s[1] == '.' {
            assert(s@ == seq!['.', '.']);
            if stack.len() > 0 {
                stack.pop();
                assert(crate::change_detector::char_vecs(stack@) =~= o.drop_last());
            }
        } else {
            assert(s@ != seq!['.']);
            assert(s@ != seq!['.', '.']);
            stack.push(s.clone());
            assert(crate::change_detector::char_vecs(stack@) =~= o.push(s@));
        }
        i += 1;
    }
    assert(sv.take(sv.len() as int) == sv);
    let ghost st = crate::change_detector::char_vecs(stack@);
    let mut out: Vec<char> = Vec::new();
    out.push('/');
    let mut k: usize = 0;
    assert(st.take(0) =~= Seq::<Seq<char>>::empty());
    while k < stack.len()
        invariant
            k <= stack@.len(),
            st == crate::change_detector::char_vecs(stack@),
            out@ == seq!['/'] + join_slash(st.take(k as int)),
        decreases stack@.len() - k,
    {
        assert(st.take(k as int + 1).drop_last() == st.take(k as int));
        assert(st.take(k as int + 1).last() == stack@[k as int]@);
        if k > 0 {
            out.push('/');
        } else {
            assert(st.take(1)[0] == stack@[0]@);
        }
        push_chars(&mut out, &stack[k]);
        assert(out@ =~= seq!['/'] + join_slash(st.take(k as int + 1)));
        k += 1;
    }
    assert(st.take(st.len() as int) == st);
    out
}

/// Whether `h` begins with the string `lit`.
pub fn starts_with_str(h: &[char], lit: &str) -> (r: bool)
    ensures
        r == starts_with(h@, lit@),
{
    let lc = chars_of(lit);
    starts_with_chars(h, &lc)
}

/// Whether `h` ends with the string `lit`.
pub fn ends_with_str(h: &[char], lit: &str) -> (r: bool)
    ensures
        r == ends_with(h@, lit@),
{
    let lc = chars_of(lit);
    crate::text::ends_with_chars(h, &lc)
}

/// A URL made absolute against `base`: absolute URLs are kept;
/// protocol-relative ones take the base's protocol (`https:` where the base
/// starts with `https://`, else `http:`); data URLs give none; paths from the
/// root join the base's protocol and host; other paths are resolved against
/// the directory of the base's path. The URL is trimmed first.
pub open spec fn resolved_url(url: Seq<char>, base: Seq<char>) -> Option<Seq<char>> {
    let u = trim(url);
    if starts_with(u, "http://"@) || starts_with(u, "https://"@) {
        Some(u)
    } else if starts_with(u, "//"@) {
        Some(
            (if starts_with(base, "https://"@) {
                "https:"@
            } else {
                "http:"@
            }) + u,
        )
    } else if starts_with(u, "data:"@) {
        None
    } else {
        match url_parts(base) {
            None => None,
            Some((p, h, path)) => if starts_with(u, seq!['/']) {
                Some(p + "://"@ + h + u)
            } else {
                let dir = match last_index_of(path, '/') {
                    Some(k) => path.take(k),
                    None => seq![],
                };
                Some(p + "://"@ + h + normalized_path(dir + seq!['/'] + u))
            },
        }
    }
}

/// Resolves a URL against `base`.
pub fn resolve_url_chars(url: &[char], base: &[char]) -> (r: Option<Vec<char>>)
    ensures
        match r {
            Some(v) => resolved_url(url@, base@) == Some(v@),
            None => resolved_url(url@, base@) is None,
        },
{
    let u = trimmed_range(url, 0, url.len());
    assert(url@.subrange(0, url@.len() as int) == url@);
    if starts_with_str(&u, "http://") || starts_with_str(&u, "https://") {
        return Some(u);
    }
    if starts_with_str(&u, "//") {
        let mut v: Vec<char> = Vec::new();
        if starts_with_str(base, "https://") {
            push_str_chars(&mut v, "https:");
        } else {
            push_str_chars(&mut v, "http:");
        }
        push_chars(&mut v, &u);
        return Some(v);
    }
    if starts_with_str(&u, "data:") {
        return None;
    }
    match parse_url(base) {
        None => None,
        Some((p, h, path)) => {
            let mut v: Vec<char> = Vec::new();
            push_chars(&mut v, &p);
            push_str_chars(&mut v, "://");
            push_chars(&mut v, &h);
            if u.len() > 0 && u[0] == '/' {
                assert(u@.take(1) =~= seq!['/']);
                assert(starts_with(u@, seq!['/']));
                push_chars(&mut v, &u);
                assert(v@ =~= p@ + "://"@ + h@ + u@);
                Some(v)
            } else {
                proof {
                    if u@.len() > 0 {
                        assert(u@.take(1) =~= seq![u@[0]]);
                        assert(u@.take(1)[0] == u@[0]);
                    }
                }
                assert(!starts_with(u@, seq!['/']));
                let dir = match last_index(&path, '/') {
                    Some(k) => {
                        proof {
                            lemma_last_index_of(path@, '/');
                        }
                        let d = slice_chars(&path, 0, k);
                        assert(d@ == path@.take(k as int));
                        d
                    },
                    None => {
                        let d: Vec<char> = Vec::new();
                        assert(d@ =~= Seq::<char>::empty());
                        d
                    },
                };
                let mut joined = dir;
                let ghost d0 = joined@;
                joined.push('/');
                push_chars(&mut joined, &u);
                assert(joined@ =~= d0 + seq!['/'] + u@);
                let norm = normalize_path(&joined);
                push_chars(&mut v, &norm);
                assert(v@ =~= p@ + "://"@ + h@ + norm@);
                Some(v)
            }
        },
    }
}

/// The host of a URL without its port, in lower case; empty where the URL
/// has no `://`.
pub open spec fn domain_part(url: Seq<char>) -> Seq<char> {
    match url_parts(url) {
        Some((_, h, _)) => lowercase(before_char(h, ':')),
        None => seq![],
    }
}

/// The host of a URL without its port, in lower case.
pub fn domain_chars(url: &[char]) -> (r: Vec<char>)
    ensures
        r@ == domain_part(url@),
{
    match parse_url(url) {
        Some((_, h, _)) => {
            let host = prefix_before(&h, ':');
            let hs = string_from_chars(&host);
            let low = to_lowercase(&hs);
            chars_of(&low)
        },
        None => Vec::new(),
    }
}

/// The index of the first white-space character or `>` at or after `from`,
/// or the length of `s`.
pub open spec fn value_end(s: Seq<char>, from: int) -> int
    decreases s.len() - from,
{
    if from >= s.len() {
        s.len() as int
    } else if is_ws(s[from]) || s[from] == '>' {
        from
    } else {
        value_end(s, from + 1)
    }
}

/// The value of attribute `attr` in a tag: the first `attr="` (in folded
/// case) with a closing `"` gives the text between; else the same with `'`;
/// else the first `attr=` gives the text up to white space or `>`.
pub open spec fn attribute_value(tag: Seq<char>, attr: Seq<char>) -> Option<Seq<char>> {
    let lower = fold_seq(tag);
    let p1 = attr + seq!['=', '"'];
    let p2 = attr + seq!['=', '\''];
    let p3 = attr + seq!['='];
    let q1 = match find(lower, p1) {
        Some(st) => match find_from(tag, seq!['"'], st + p1.len()) {
            Some(e) => Some(tag.subrange(st + p1.len(), e)),
            None => None,
        },
        None => None,
    };
    let q2 = match find(lower, p2) {
        Some(st) => match find_from(tag, seq!['\''], st + p2.len()) {
            Some(e) => Some(tag.subrange(st + p2.len(), e)),
            None => None,
        },
        None => None,
    };
    if q1 is Some {
        q1
    } else if q2 is Some {
        q2
    } else {
        match find(lower, p3) {
            Some(st) => Some(tag.subrange(st + p3.len(), value_end(tag, st + p3.len()))),
            None => None,
        }
    }
}

/// The value between quotes after the first `pat` of `lower` in `tag`.
fn quoted_value(tag: &[char], lower: &[char], pat: &[char], quote: char) -> (r: Option<Vec<char>>)
    requires
        lower@ == fold_seq(tag@),
    ensures
        match find(lower@, pat@) {
            Some(st) => match find_from(tag@, seq![quote], st + pat@.len()) {
                Some(e) => r matches Some(v) && v@ == tag@.subrange(st + pat@.len(), e),
                None => r is None,
            },
            None => r is None,
        },
{
    match find_chars(lower, pat) {
        None => None,
        Some(st) => {
            proof {
                lemma_find_from(lower@, pat@, 0);
            }
            assert(st + pat@.len() <= lower@.len());
            let n = lower.len();
            let vs = st + pat.len();
            let q = [quote];
            assert(q@ == seq![quote]);
            match find_chars_from(tag, &q, vs) {
                Some(e) => {
                    proof {
                        lemma_find_from(tag@, seq![quote], vs as int);
                    }
                    Some(slice_chars(tag, vs, e))
                },
                None => None,
            }
        },
    }
}

/// The value of an attribute in a tag.
pub fn attribute_chars(tag: &[char], attr: &[char]) -> (r: Option<Vec<char>>)
    ensures
        match r {
            Some(v) => attribute_value(tag@, attr@) == Some(v@),
            None => attribute_value(tag@, attr@) is None,
        },
{
    let lower = fold_chars(tag);
    let mut p1 = slice_chars(attr, 0, attr.len());
    p1.push('=');
    p1.push('"');
    let mut p2 = slice_chars(attr, 0, attr.len());
    p2.push('=');
    p2.push('\'');
    let mut p3 = slice_chars(attr, 0, attr.len());
    p3.push('=');
    assert(attr@.subrange(0, attr@.len() as int) == attr@);
    assert(p1@ == attr@ + seq!['=', '"']);
    assert(p2@ == attr@ + seq!['=', '\'']);
    assert(p3@ == attr@ + seq!['=']);
    if let Some(v) = quoted_value(tag, &lower, &p1, '"') {
        return Some(v);
    }
    if let Some(v) = quoted_value(tag, &lower, &p2, '\'') {
        return Some(v);
    }
    match find_chars(&lower, &p3) {
        None => None,
        Some(st) => {
            proof {
                lemma_find_from(lower@, p3@, 0);
            }
            assert(st + p3@.len() <= lower@.len());
            let n = lower.len();
            let vs = st + p3.len();
            let mut e = vs;
            while e < tag.len() && !is_whitespace(tag[e]) && tag[e] != '>'
                invariant
                    vs <= e <= tag@.len(),
                    value_end(tag@, vs as int) == value_end(tag@, e as int),
                decreases tag@.len() - e,
            {
                e += 1;
            }
            Some(slice_chars(tag, vs, e))
        },
    }
}

/// The content of the first element opened by `open` (in folded case) and
/// closed by `close`: from after the first `>` that follows the opening to
/// the first `close` after that.
pub open spec fn element_content(html: Seq<char>, open: Seq<char>, close: Seq<char>) -> Option<(int, int)> {
    let lower = fold_seq(html);
    match find(lower, open) {
        Some(st) => match find_from(html, seq!['>'], st) {
            Some(te) => match find_from(lower, close, te + 1) {
                Some(e) => Some((te + 1, e)),
                None => None,
            },
            None => None,
        },
        None => None,
    }
}

/// The title of a page: the trimmed content of its `<title>` element, else
/// the text of its first `<h1>` element, else empty.
pub open spec fn title_of(html: Seq<char>) -> Seq<char> {
    match element_content(html, "<title"@, "</title>"@) {
        Some((a, b)) => trim(html.subrange(a, b)),
        None => match element_content(html, "<h1"@, "</h1>"@) {
            Some((a, b)) => html_text(html.subrange(a, b)),
            None => seq![],
        },
    }
}

/// Where the content of the first such element lies.
fn element_range(html: &[char], lower: &[char], open: &str, close: &str) -> (r: Option<(usize, usize)>)
    requires
        lower@ == fold_seq(html@),
    ensures
        match r {
            Some((a, b)) => element_content(html@, open@, close@) == Some((a as int, b as int))
                && a <= b <= html@.len(),
            None => element_content(html@, open@, close@) is None,
        },
{
    let oc = chars_of(open);
    let cc = chars_of(close);
    let gt = ['>'];
    assert(gt@ == seq!['>']);
    match find_chars(lower, &oc) {
        None => None,
        Some(st) => match find_chars_from(html, &gt, st) {
            None => None,
            Some(te) => {
                proof {
                    lemma_find_from(html@, seq!['>'], st as int);
                }
                assert(te < html@.len());
                let n = html.len();
                match find_chars_from(lower, &cc, te + 1) {
                    None => None,
                    Some(e) => {
                        proof {
                            lemma_find_from(lower@, cc@, te + 1);
                        }
                        Some((te + 1, e))
                    },
                }
            },
        },
    }
}

/// The title of a page.
pub fn title_chars(html: &[char]) -> (r: Vec<char>)
    ensures
        r@ == title_of(html@),
{
    let lower = fold_chars(html);
    match element_range(html, &lower, "<title", "</title>") {
        Some((a, b)) => trimmed_range(html, a, b),
        None => match element_range(html, &lower, "<h1", "</h1>") {
            Some((a, b)) => {
                let inner = slice_chars(html, a, b);
                crate::html::extract_text(&inner)
            },
            None => Vec::new(),
        },
    }
}

/// Whether a URL names an image of a supported kind: its lower-case form,
/// up to the first `?`, ends with `.` and one of `exts`.
pub open spec fn supported_image(exts: Seq<Seq<char>>, url: Seq<char>) -> bool {
    exists|k: int|
        0 <= k < exts.len() && ends_with(before_char(lowercase(url), '?'), seq!['.'] + #[trigger] exts[k])
}

/// Whether `path` ends with `.` and one of `exts`.
fn ends_with_any_ext(path: &[char], exts: &Vec<String>) -> (r: bool)
    ensures
        r == exists|k: int|
            0 <= k < exts@.len() && ends_with(path@, seq!['.'] + #[trigger] strings_view(exts@)[k]),
{
    let mut i: usize = 0;
    while i < exts.len()
        invariant
            i <= exts@.len(),
            forall|k: int|
                0 <= k < i ==> !ends_with(path@, seq!['.'] + #[trigger] strings_view(exts@)[k]),
        decreases exts@.len() - i,
    {
        let mut suffix: Vec<char> = Vec::new();
        suffix.push('.');
        push_str_chars(&mut suffix, &exts[i]);
        assert(suffix@ == seq!['.'] + strings_view(exts@)[i as int]);
        if crate::text::ends_with_chars(path, &suffix) {
            return true;
        }
        i += 1;
    }
    false
}

/// The MIME type that a URL's extension suggests.
pub open spec fn mime_type_of(url: Seq<char>) -> Option<Seq<char>> {
    let p = before_char(lowercase(url), '?');
    if ends_with(p, ".jpg"@) || ends_with(p, ".jpeg"@) {
        Some("image/jpeg"@)
    } else if ends_with(p, ".png"@) {
        Some("image/png"@)
    } else if ends_with(p, ".gif"@) {
        Some("image/gif"@)
    } else if ends_with(p, ".webp"@) {
        Some("image/webp"@)
    } else if ends_with(p, ".svg"@) {
        Some("image/svg+xml"@)
    } else if ends_with(p, ".ico"@) {
        Some("image/x-icon"@)
    } else if ends_with(p, ".bmp"@) {
        Some("image/bmp"@)
    } else if ends_with(p, ".mp4"@) {
        Some("video/mp4"@)
    } else if ends_with(p, ".webm"@) {
        Some("video/webm"@)
    } else if ends_with(p, ".mp3"@) {
        Some("audio/mpeg"@)
    } else {
        None
    }
}

/// Whether `char::is_alphanumeric` holds of a character.
pub uninterp spec fn alphanumeric(c: char) -> bool;

/// `char::is_alphanumeric`: whether `c` is alphabetic or numeric in Unicode.
///
/// Trusted: the result is the named value `alphanumeric(c)`, a function of
/// the character alone; nothing more is claimed.
#[verifier::external_body]
fn is_alphanumeric(c: char) -> (r: bool)
    ensures
        r == alphanumeric(c),
{
    c.is_alphanumeric()
}

/// A character kept in a file name, or `_` in its place.
pub open spec fn file_name_char(c: char) -> char {
    if alphanumeric(c) || c == '.' || c == '-' || c == '_' {
        c
    } else {
        '_'
    }
}

/// The file name for a downloaded media file: the URL's last path segment
/// (before any `?`) with unsafe characters made `_`, then `_`, the URL's
/// hash, `.` and the extension (after the last `.`, or `bin`).
pub open spec fn media_file_name(url: Seq<char>) -> Seq<char> {
    let name = after_last(before_char(url, '?'), '/').map_values(|c: char| file_name_char(c));
    let hash = crate::digest::short_hash(url);
    match last_index_of(name, '.') {
        Some(k) => name.take(k) + seq!['_'] + hash + seq!['.'] + name.skip(k + 1),
        None => name + seq!['_'] + hash + ".bin"@,
    }
}

/// The number of words of a text, as `u32` (wrapping).
pub open spec fn word_count(text: Seq<char>) -> u32 {
    words(text).len() as u32
}

/// Minutes to read `n` words at 225 words a minute, rounded up.
pub open spec fn reading_minutes(n: u32) -> u32 {
    ((n + 224) / 225) as u32
}

// ---------------------------------------------------------------------------
// The archiver
// ---------------------------------------------------------------------------

/// Settings of a [`ContentArchiver`].
#[derive(Clone, Debug)]
pub struct ContentArchiverConfig {
    /// The directory under which media files are stored.
    pub media_storage_path: String,
    /// The largest media file kept, in bytes.
    pub max_media_file_size: u64,
    /// The most media bytes kept per archive.
    pub max_total_media_size: u64,
    pub download_timeout_secs: u64,
    pub enable_compression: bool,
    /// Extensions of the image files that are kept.
    pub supported_media_extensions: Vec<String>,
    pub max_concurrent_downloads: usize,
}

impl ContentArchiverConfig {
    /// The default settings.
    pub fn new() -> (r: Self)
        ensures
            r.media_storage_path@ == "./archives/media"@,
            r.max_media_file_size == 10 * 1024 * 1024,
            r.max_total_media_size == 100 * 1024 * 1024,
            r.download_timeout_secs == 30,
            r.enable_compression,
            strings_view(r.supported_media_extensions@) == seq![
                "jpg"@,
                "jpeg"@,
                "png"@,
                "gif"@,
                "webp"@,
                "svg"@,
                "ico"@,
                "bmp"@,
            ],
            r.max_concurrent_downloads == 5,
    {
        let mut exts: Vec<String> = Vec::new();
        exts.push("jpg".to_string());
        exts.push("jpeg".to_string());
        exts.push("png".to_string());
        exts.push("gif".to_string());
        exts.push("webp".to_string());
        exts.push("svg".to_string());
        exts.push("ico".to_string());
        exts.push("bmp".to_string());
        assert(strings_view(exts@) =~= seq![
            "jpg"@,
            "jpeg"@,
            "png"@,
            "gif"@,
            "webp"@,
            "svg"@,
            "ico"@,
            "bmp"@,
        ]);
        ContentArchiverConfig {
            media_storage_path: "./archives/media".to_string(),
            max_media_file_size: 10 * 1024 * 1024,
            max_total_media_size: 100 * 1024 * 1024,
            download_timeout_secs: 30,
            enable_compression: true,
            supported_media_extensions: exts,
            max_concurrent_downloads: 5,
        }
    }
}

impl Default for ContentArchiverConfig {
    fn default() -> (r: Self)
        ensures
            r.max_media_file_size == 10 * 1024 * 1024,
            r.max_total_media_size == 100 * 1024 * 1024,
            r.enable_compression,
    {
        Self::new()
    }
}

/// Archives page content.
pub struct ContentArchiver {
    pub config: ContentArchiverConfig,
}

impl ContentArchiver {
    /// An archiver with default settings.
    pub fn new() -> (r: Self)
        ensures
            r.config.max_media_file_size == 10 * 1024 * 1024,
            r.config.max_total_media_size == 100 * 1024 * 1024,
            strings_view(r.config.supported_media_extensions@) == seq![
                "jpg"@,
                "jpeg"@,
                "png"@,
                "gif"@,
                "webp"@,
                "svg"@,
                "ico"@,
                "bmp"@,
            ],
    {
        ContentArchiver { config: ContentArchiverConfig::new() }
    }

    /// An archiver with the given settings.
    pub fn with_config(config: ContentArchiverConfig) -> (r: Self)
        ensures
            r.config == config,
    {
        ContentArchiver { config }
    }

    /// The settings.
    pub fn config(&self) -> (r: &ContentArchiverConfig)
        ensures
            *r == self.config,
    {
        &self.config
    }

    /// Collapses white space runs to one space and trims.
    pub fn normalize_whitespace(html: &str) -> (r: String)
        ensures
            r@ == normalized_ws(html@),
    {
        let c = chars_of(html);
        string_from_chars(&crate::html::normalize_whitespace(&c))
    }

    /// The plain text of HTML.
    pub fn extract_text(&self, html: &str) -> (r: String)
        ensures
            r@ == html_text(html@),
    {
        let c = chars_of(html);
        string_from_chars(&crate::html::extract_text(&c))
    }

    /// The title of a page.
    pub fn extract_title(&self, html: &str) -> (r: String)
        ensures
            r@ == title_of(html@),
    {
        let c = chars_of(html);
        string_from_chars(&title_chars(&c))
    }

    /// The value of an attribute in a tag.
    pub fn extract_attribute(&self, tag: &str, attr_name: &str) -> (r: Option<String>)
        ensures
            match r {
                Some(v) => attribute_value(tag@, attr_name@) == Some(v@),
                None => attribute_value(tag@, attr_name@) is None,
            },
    {
        let t = chars_of(tag);
        let a = chars_of(attr_name);
        match attribute_chars(&t, &a) {
            Some(v) => Some(string_from_chars(&v)),
            None => None,
        }
    }

    /// A URL made absolute against `base_url`.
    pub fn resolve_url(&self, url: &str, base_url: &str) -> (r: Option<String>)
        ensures
            match r {
                Some(v) => resolved_url(url@, base_url@) == Some(v@),
                None => resolved_url(url@, base_url@) is None,
            },
    {
        let u = chars_of(url);
        let b = chars_of(base_url);
        match resolve_url_chars(&u, &b) {
            Some(v) => Some(string_from_chars(&v)),
            None => None,
        }
    }

    /// A URL split into protocol, host and path.
    pub fn parse_url(&self, url: &str) -> (r: Option<(String, String, String)>)
        ensures
            match r {
                Some((a, b, c)) => url_parts(url@) == Some((a@, b@, c@)),
                None => url_parts(url@) is None,
            },
    {
        let u = chars_of(url);
        match parse_url(&u) {
            Some((a, b, c)) => Some((string_from_chars(&a), string_from_chars(&b), string_from_chars(&c))),
            None => None,
        }
    }

    /// A path with `.` and `..` resolved.
    pub fn normalize_path(&self, path: &str) -> (r: String)
        ensures
            r@ == normalized_path(path@),
    {
        let p = chars_of(path);
        string_from_chars(&normalize_path(&p))
    }

    /// The host of a URL without its port, in lower case.
    pub fn extract_domain(&self, url: &str) -> (r: String)
        ensures
            r@ == domain_part(url@),
    {
        let u = chars_of(url);
        string_from_chars(&domain_chars(&u))
    }

    /// Whether a URL names an image of a supported kind.
    pub fn is_supported_image(&self, url: &str) -> (r: bool)
        ensures
            r == supported_image(strings_view(self.config.supported_media_extensions@), url@),
    {
        let low = to_lowercase(url);
        let lc = chars_of(&low);
        let path = prefix_before(&lc, '?');
        ends_with_any_ext(&path, &self.config.supported_media_extensions)
    }

    /// The number of words of a text.
    pub fn count_words(&self, text: &str) -> (r: u32)
        ensures
            r == word_count(text@),
    {
        let c = chars_of(text);
        let w = crate::text::split_words(&c);
        assert(w@.len() == words(text@).len()) by {
            assert(w@.map_values(|x: Vec<char>| x@).len() == w@.len());
        }
        w.len() as u32
    }

    /// Minutes to read a number of words, rounded up.
    pub fn estimate_reading_time(&self, word_count: u32) -> (r: u32)
        ensures
            r == reading_minutes(word_count),
    {
        ((word_count as u64 + 224) / 225) as u32
    }

    /// The MIME type that a URL's extension suggests.
    pub fn guess_mime_type(&self, url: &str) -> (r: Option<String>)
        ensures
            match r {
                Some(m) => mime_type_of(url@) == Some(m@),
                None => mime_type_of(url@) is None,
            },
    {
        let low = to_lowercase(url);
        let lc = chars_of(&low);
        let p = prefix_before(&lc, '?');
        let m = if ends_with_str(&p, ".jpg") || ends_with_str(&p, ".jpeg") {
            "image/jpeg"
        } else if ends_with_str(&p, ".png") {
            "image/png"
        } else if ends_with_str(&p, ".gif") {
            "image/gif"
        } else if ends_with_str(&p, ".webp") {
            "image/webp"
        } else if ends_with_str(&p, ".svg") {
            "image/svg+xml"
        } else if ends_with_str(&p, ".ico") {
            "image/x-icon"
        } else if ends_with_str(&p, ".bmp") {
            "image/bmp"
        } else if ends_with_str(&p, ".mp4") {
            "video/mp4"
        } else if ends_with_str(&p, ".webm") {
            "video/webm"
        } else if ends_with_str(&p, ".mp3") {
            "audio/mpeg"
        } else {
            return None;
        };
        Some(m.to_string())
    }

    /// The file name for a downloaded media file.
    pub fn generate_media_filename(&self, url: &str) -> (r: String)
        ensures
            r@ == media_file_name(url@),
    {
        let u = chars_of(url);
        let path = prefix_before(&u, '?');
        let seg = suffix_after_last(&path, '/');
        let mut name: Vec<char> = Vec::new();
        let mut i: usize = 0;
        while i < seg.len()
            invariant
                i <= seg@.len(),
                name@ == seg@.take(i as int).map_values(|c: char| file_name_char(c)),
            decreases seg@.len() - i,
        {
            let c = seg[i];
            let keep = is_alphanumeric(c) || c == '.' || c == '-' || c == '_';
            name.push(if keep {
                c
            } else {
                '_'
            });
            assert(seg@.take(i as int + 1).map_values(|c: char| file_name_char(c)) =~= seg@.take(
                i as int,
            ).map_values(|c: char| file_name_char(c)).push(file_name_char(c)));
            i += 1;
        }
        assert(seg@.take(seg@.len() as int) == seg@);
        let hash = crate::digest::simple_hash(url);
        let mut out: Vec<char> = Vec::new();
        match last_index(&name, '.') {
            Some(k) => {
                proof {
                    lemma_last_index_of(name@, '.');
                }
                let n = name.len();
                let stem = slice_chars(&name, 0, k);
                let ext = slice_chars(&name, k + 1, n);
                push_chars(&mut out, &stem);
                out.push('_');
                push_str_chars(&mut out, &hash);
                out.push('.');
                push_chars(&mut out, &ext);
                assert(out@ =~= name@.take(k as int) + seq!['_'] + hash@ + seq!['.'] + name@.skip(
                    k + 1,
                ));
            },
            None => {
                push_chars(&mut out, &name);
                out.push('_');
                push_str_chars(&mut out, &hash);
                push_str_chars(&mut out, ".bin");
                assert(out@ =~= name@ + seq!['_'] + hash@ + ".bin"@);
            },
        }
        string_from_chars(&out)
    }

    /// The FNV-1a checksum of a text.
    pub fn calculate_checksum(&self, content: &str) -> (r: String)
        ensures
            r@ == crate::digest::fnv_checksum(content@),
    {
        crate::digest::checksum(content)
    }

    /// The multiplicative hash of a text, in at least eight hexadecimal digits.
    pub fn simple_hash(&self, input: &str) -> (r: String)
        ensures
            r@ == crate::digest::short_hash(input@),
    {
        crate::digest::simple_hash(input)
    }

    /// Stored content: the content itself (no compression is applied).
    pub fn compress_content(&self, content: &str) -> (r: String)
        ensures
            r@ == content@,
    {
        string_from_chars(&chars_of(content))
    }

    /// Content as stored, restored: the content itself.
    pub fn decompress_content(&self, content: &str) -> (r: String)
        ensures
            r@ == content@,
    {
        string_from_chars(&chars_of(content))
    }
}

// ---------------------------------------------------------------------------
// Cleaning HTML
// ---------------------------------------------------------------------------

/// The state of removing comments: the output so far, the characters read
/// since the last comment began or ended, and whether inside a comment.
pub ghost struct CommentState {
    pub result: Seq<char>,
    pub buffer: Seq<char>,
    pub in_comment: bool,
}

/// Reading one more character: outside a comment, a buffer that ends in
/// `<!--` goes to the output without it and a comment begins; inside, a
/// buffer that ends in `-->` is dropped and the comment ends.
pub open spec fn comment_step(st: CommentState, c: char) -> CommentState {
    let b = st.buffer.push(c);
    if !st.in_comment {
        if ends_with(b, "<!--"@) {
            CommentState { result: st.result + b.take(b.len() - 4), buffer: seq![], in_comment: true }
        } else {
            CommentState { buffer: b, ..st }
        }
    } else {
        if ends_with(b, "-->"@) {
            CommentState { buffer: seq![], in_comment: false, ..st }
        } else {
            CommentState { buffer: b, ..st }
        }
    }
}

/// The state after reading `s`.
pub open spec fn comment_run(s: Seq<char>) -> CommentState
    decreases s.len(),
{
    if s.len() == 0 {
        CommentState { result: seq![], buffer: seq![], in_comment: false }
    } else {
        comment_step(comment_run(s.drop_last()), s.last())
    }
}

/// HTML without its comments; an unclosed comment runs to the end.
pub open spec fn without_comments(html: Seq<char>) -> Seq<char> {
    let st = comment_run(html);
    if st.in_comment {
        st.result
    } else {
        st.result + st.buffer
    }
}

/// Removes HTML comments.
pub fn remove_html_comments_chars(html: &[char]) -> (r: Vec<char>)
    ensures
        r@ == without_comments(html@),
{
    let mut result: Vec<char> = Vec::new();
    let mut buffer: Vec<char> = Vec::new();
    let mut in_comment = false;
    let mut i: usize = 0;
    proof {
        reveal_strlit("<!--");
        reveal_strlit("-->");
    }
    while i < html.len()
        invariant
            i <= html@.len(),
            comment_run(html@.take(i as int)) == (CommentState {
                result: result@,
                buffer: buffer@,
                in_comment,
            }),
            "<!--"@ == seq!['<', '!', '-', '-'],
            "-->"@ == seq!['-', '-', '>'],
        decreases html@.len() - i,
    {
        let c = html[i];
        assert(html@.take(i as int + 1).drop_last() == html@.take(i as int));
        assert(html@.take(i as int + 1).last() == c);
        let ghost st = CommentState { result: result@, buffer: buffer@, in_comment };
        buffer.push(c);
        if !in_comment {
            let open = ['<', '!', '-', '-'];
            if crate::text::ends_with_chars(&buffer, &open) {
                in_comment = true;
                let n = buffer.len();
                let kept = slice_chars(&buffer, 0, n - 4);
                assert(kept@ == buffer@.take(buffer@.len() - 4));
                push_chars(&mut result, &kept);
                buffer = Vec::new();
                assert(buffer@ =~= Seq::<char>::empty());
            }
        } else {
            let close = ['-', '-', '>'];
            if crate::text::ends_with_chars(&buffer, &close) {
                in_comment = false;
                buffer = Vec::new();
                assert(buffer@ =~= Seq::<char>::empty());
            }
        }
        assert(comment_step(st, c) == (CommentState { result: result@, buffer: buffer@, in_comment }));
        i += 1;
    }
    assert(html@.take(html@.len() as int) == html@);
    if !in_comment {
        push_chars(&mut result, &buffer);
    }
    result
}

proof fn lemma_comment_run_without_opening(html: Seq<char>, k: nat)
    requires
        k <= html.len(),
        forall|j: int| 0 <= j < k ==> !ends_with(#[trigger] html.take(j + 1), "<!--"@),
    ensures
        comment_run(html.take(k as int)) == (CommentState {
            result: seq![],
            buffer: html.take(k as int),
            in_comment: false,
        }),
    decreases k,
{
    if k > 0 {
        lemma_comment_run_without_opening(html, (k - 1) as nat);
        assert(html.take(k as int).drop_last() =~= html.take(k - 1));
        assert(html.take(k - 1).push(html.take(k as int).last()) =~= html.take(k as int));
        assert(!ends_with(html.take(k - 1 + 1), "<!--"@));
    } else {
        assert(html.take(0) =~= Seq::<char>::empty());
    }
}

/// HTML in which no comment opens is left as it is.
pub proof fn law_without_comments_keeps_html_without_them(html: Seq<char>)
    requires
        forall|k: int| 0 <= k < html.len() ==> !ends_with(#[trigger] html.take(k + 1), "<!--"@),
    ensures
        without_comments(html) == html,
{
    lemma_comment_run_without_opening(html, html.len());
    assert(html.take(html.len() as int) =~= html);
    assert(Seq::<char>::empty() + html =~= html);
}

/// Whether a character may follow a tag name.
pub open spec fn tag_separator(c: char) -> bool {
    c == ' ' || c == '>' || c == '/' || c == '\t' || c == '\n'
}

/// The state of removing an element: the output so far, the characters read
/// since the element last began or ended, whether inside the element, and
/// how deeply.
pub ghost struct TagState {
    pub result: Seq<char>,
    pub buffer: Seq<char>,
    pub in_tag: bool,
    pub depth: nat,
}

/// Reading character `c`, followed by `next` where there is one. Outside the
/// element, a buffer that ends in `open` (in folded case) followed by a
/// separator goes to the output without it and the element begins. Inside,
/// a buffer ending in `close`
/// closes one level, and the element ends when none is left, dropping the
/// buffer; a buffer ending in `open` followed by a separator opens a level.
pub open spec fn tag_step(
    st: TagState,
    c: char,
    next: Option<char>,
    open: Seq<char>,
    close: Seq<char>,
) -> TagState {
    let b = st.buffer.push(c);
    let opens = ends_with(fold_seq(b), open) && (next matches Some(n) && tag_separator(n));
    if !st.in_tag {
        if opens {
            TagState { result: st.result + b.take(b.len() - open.len()), buffer: seq![], in_tag: true, depth: 1 }
        } else {
            TagState { buffer: b, ..st }
        }
    } else if ends_with(fold_seq(b), close) {
        if st.depth <= 1 {
            TagState { buffer: seq![], in_tag: false, depth: 0, ..st }
        } else {
            TagState { buffer: b, depth: (st.depth - 1) as nat, ..st }
        }
    } else if opens {
        TagState { buffer: b, depth: st.depth + 1, ..st }
    } else {
        TagState { buffer: b, ..st }
    }
}

/// The state after reading the first `k` characters of `s`.
pub open spec fn tag_run(s: Seq<char>, k: nat, open: Seq<char>, close: Seq<char>) -> TagState
    decreases k,
{
    if k == 0 {
        TagState { result: seq![], buffer: seq![], in_tag: false, depth: 0 }
    } else {
        tag_step(
            tag_run(s, (k - 1) as nat, open, close),
            s[k - 1],
            if k < s.len() {
                Some(s[k as int])
            } else {
                None
            },
            open,
            close,
        )
    }
}

/// HTML without the elements named `tag` and their content: the output and
/// what is left in the buffer at the end.
pub open spec fn without_element(html: Seq<char>, tag: Seq<char>) -> Seq<char> {
    let st = tag_run(html, html.len(), seq!['<'] + tag, seq!['<', '/'] + tag + seq!['>']);
    st.result + st.buffer
}

/// Whether `b`, folded, ends with `pat`; only the tail of `b` is folded.
pub fn ends_with_folded(b: &[char], pat: &[char]) -> (r: bool)
    ensures
        r == ends_with(fold_seq(b@), pat@),
{
    if pat.len() > b.len() {
        return false;
    }
    let n = b.len();
    let k = pat.len();
    let tail = slice_chars(b, n - k, n);
    let folded = fold_chars(&tail);
    let r = crate::text::ends_with_chars(&folded, pat);
    proof {
        assert(fold_seq(b@).skip(n - k) =~= fold_seq(b@.subrange(n - k, n as int)));
        assert(folded@.skip(0) =~= folded@);
    }
    r
}

/// Whether an element named `tag` opens at position `k` of `html`: the
/// text up to and including `k`, folded, ends in `<` and the name, and a
/// separator follows.
pub open spec fn element_opens_at(html: Seq<char>, tag: Seq<char>, k: int) -> bool {
    &&& ends_with(fold_seq(html.take(k + 1)), seq!['<'] + tag)
    &&& k + 1 < html.len()
    &&& tag_separator(html[k + 1])
}

proof fn lemma_tag_run_without_opening(html: Seq<char>, tag: Seq<char>, k: nat)
    requires
        k <= html.len(),
        forall|j: int| 0 <= j < k ==> !#[trigger] element_opens_at(html, tag, j),
    ensures
        tag_run(html, k, seq!['<'] + tag, seq!['<', '/'] + tag + seq!['>']) == (TagState {
            result: seq![],
            buffer: html.take(k as int),
            in_tag: false,
            depth: 0,
        }),
    decreases k,
{
    if k > 0 {
        lemma_tag_run_without_opening(html, tag, (k - 1) as nat);
        assert(html.take(k - 1).push(html[k - 1]) =~= html.take(k as int));
        assert(!element_opens_at(html, tag, k - 1));
    } else {
        assert(html.take(0) =~= Seq::<char>::empty());
    }
}

/// HTML in which no element named `tag` opens is left as it is.
pub proof fn law_without_element_keeps_html_without_it(html: Seq<char>, tag: Seq<char>)
    requires
        forall|k: int| 0 <= k < html.len() ==> !#[trigger] element_opens_at(html, tag, k),
    ensures
        without_element(html, tag) == html,
{
    lemma_tag_run_without_opening(html, tag, html.len());
    assert(html.take(html.len() as int) =~= html);
    assert(Seq::<char>::empty() + html =~= html);
}

proof fn lemma_fold_suffix(t: Seq<char>, i: int, x: Seq<char>)
    requires
        0 <= i <= t.len(),
    ensures
        ends_with(fold_seq(t.skip(i)), x) ==> ends_with(fold_seq(t), x),
        ends_with(fold_seq(t), x) && t.len() - i >= x.len() ==> ends_with(fold_seq(t.skip(i)), x),
{
    assert(fold_seq(t.skip(i)) =~= fold_seq(t).skip(i));
    if x.len() <= t.len() - i {
        assert(fold_seq(t).skip(i).skip(t.len() - i - x.len()) =~= fold_seq(t).skip(t.len() - x.len()));
    }
}

proof fn lemma_tag_run_inside(html: Seq<char>, tag: Seq<char>, p: int, e: int, q: int)
    requires
        0 <= p < e < html.len(),
        p + 1 <= q <= e,
        element_opens_at(html, tag, p),
        forall|k: int| 0 <= k < p ==> !#[trigger] element_opens_at(html, tag, k),
        forall|k: int|
            p < k < e ==> !#[trigger] element_opens_at(html, tag, k) && !ends_with(
                fold_seq(html.take(k + 1)),
                seq!['<', '/'] + tag + seq!['>'],
            ),
    ensures
        tag_run(html, q as nat, seq!['<'] + tag, seq!['<', '/'] + tag + seq!['>']) == (TagState {
            result: html.take(p + 1 - (tag.len() + 1)),
            buffer: html.subrange(p + 1, q),
            in_tag: true,
            depth: 1,
        }),
    decreases q,
{
    let open = seq!['<'] + tag;
    let close = seq!['<', '/'] + tag + seq!['>'];
    if q == p + 1 {
        lemma_tag_run_without_opening(html, tag, p as nat);
        assert(html.take(p).push(html[p]) =~= html.take(p + 1));
        assert(html.subrange(p + 1, p + 1) =~= Seq::<char>::empty());
        assert(open.len() == tag.len() + 1);
        assert(fold_seq(html.take(p + 1)).len() == p + 1);
        assert(html.take(p + 1).take(p + 1 - (tag.len() + 1)) =~= html.take(p + 1 - (tag.len() + 1)));
    } else {
        lemma_tag_run_inside(html, tag, p, e, q - 1);
        let b = html.subrange(p + 1, q - 1).push(html[q - 1]);
        assert(b =~= html.subrange(p + 1, q));
        assert(html.take(q).skip(p + 1) =~= b);
        assert(!element_opens_at(html, tag, q - 1));
        lemma_fold_suffix(html.take(q), p + 1, close);
        lemma_fold_suffix(html.take(q), p + 1, open);
    }
}

proof fn lemma_tag_run_after(html: Seq<char>, tag: Seq<char>, start: int, r: Seq<char>, j: nat)
    requires
        0 <= start <= html.len(),
        j <= html.len() - start,
        tag_run(html, start as nat, seq!['<'] + tag, seq!['<', '/'] + tag + seq!['>']) == (TagState {
            result: r,
            buffer: seq![],
            in_tag: false,
            depth: 0,
        }),
    ensures
        ({
            let c = html.skip(start);
            let whole = tag_run(html, (start + j) as nat, seq!['<'] + tag, seq!['<', '/'] + tag + seq!['>']);
            let part = tag_run(c, j, seq!['<'] + tag, seq!['<', '/'] + tag + seq!['>']);
            whole == TagState { result: r + part.result, ..part }
        }),
    decreases j,
{
    let c = html.skip(start);
    if j == 0 {
        assert(r + Seq::<char>::empty() =~= r);
    } else {
        lemma_tag_run_after(html, tag, start, r, (j - 1) as nat);
        assert(html[start + j - 1] == c[j - 1]);
        if start + j < html.len() {
            assert(html[start + j] == c[j as int]);
        }
        let part = tag_run(c, (j - 1) as nat, seq!['<'] + tag, seq!['<', '/'] + tag + seq!['>']);
        let b = part.buffer.push(c[j - 1]);
        assert((r + part.result) + b.take(b.len() - (tag.len() + 1)) =~= r + (part.result + b.take(
            b.len() - (tag.len() + 1),
        )));
    }
}

/// An element that opens where no other opened before it, holds no further
/// element of the name, and is closed, is removed with its content: the
/// output is the text before it, then the text after it with its own
/// elements removed. `p` is the position of the last character of the
/// opening `<tag`, `e` that of the last character of the closing `</tag>`,
/// which follows the opening's separator.
pub proof fn law_closed_element_removed_with_content(html: Seq<char>, tag: Seq<char>, p: int, e: int)
    requires
        0 <= p < e < html.len(),
        e - p >= tag.len() + 3,
        element_opens_at(html, tag, p),
        forall|k: int| 0 <= k < p ==> !#[trigger] element_opens_at(html, tag, k),
        forall|k: int|
            p < k < e ==> !#[trigger] element_opens_at(html, tag, k) && !ends_with(
                fold_seq(html.take(k + 1)),
                seq!['<', '/'] + tag + seq!['>'],
            ),
        ends_with(fold_seq(html.take(e + 1)), seq!['<', '/'] + tag + seq!['>']),
    ensures
        without_element(html, tag) == html.take(p + 1 - (tag.len() + 1)) + without_element(
            html.skip(e + 1),
            tag,
        ),
{
    let open = seq!['<'] + tag;
    let close = seq!['<', '/'] + tag + seq!['>'];
    let r = html.take(p + 1 - (tag.len() + 1));
    lemma_tag_run_inside(html, tag, p, e, e);
    let b = html.subrange(p + 1, e).push(html[e]);
    assert(b =~= html.subrange(p + 1, e + 1));
    assert(html.take(e + 1).skip(p + 1) =~= b);
    lemma_fold_suffix(html.take(e + 1), p + 1, close);
    assert(tag_run(html, (e + 1) as nat, open, close) == (TagState {
        result: r,
        buffer: seq![],
        in_tag: false,
        depth: 0,
    }));
    let c = html.skip(e + 1);
    lemma_tag_run_after(html, tag, e + 1, r, c.len());
    let part = tag_run(c, c.len(), open, close);
    assert(r + part.result + part.buffer =~= r + (part.result + part.buffer));
}

/// Removes the elements named `tag` and their content.
pub fn remove_tag_with_content_chars(html: &[char], tag: &[char]) -> (r: Vec<char>)
    ensures
        r@ == without_element(html@, tag@),
{
    let mut open: Vec<char> = Vec::new();
    open.push('<');
    push_chars(&mut open, tag);
    let mut close: Vec<char> = Vec::new();
    close.push('<');
    close.push('/');
    push_chars(&mut close, tag);
    close.push('>');
    assert(open@ == seq!['<'] + tag@);
    assert(close@ == seq!['<', '/'] + tag@ + seq!['>']);
    let mut result: Vec<char> = Vec::new();
    let mut buffer: Vec<char> = Vec::new();
    let mut in_tag = false;
    let mut depth: usize = 0;
    let mut i: usize = 0;
    while i < html.len()
        invariant
            i <= html@.len(),
            tag_run(html@, i as nat, open@, close@) == (TagState {
                result: result@,
                buffer: buffer@,
                in_tag,
                depth: depth as nat,
            }),
            depth <= i,
        decreases html@.len() - i,
    {
        let c = html[i];
        let next: Option<char> = if i + 1 < html.len() {
            Some(html[i + 1])
        } else {
            None
        };
        let ghost st = TagState { result: result@, buffer: buffer@, in_tag, depth: depth as nat };
        buffer.push(c);
        let sep = match next {
            Some(n) => n == ' ' || n == '>' || n == '/' || n == '\t' || n == '\n',
            None => false,
        };
        let opens = ends_with_folded(&buffer, &open) && sep;
        if !in_tag {
            if opens {
                in_tag = true;
                depth = 1;
                let n = buffer.len();
                let kept = slice_chars(&buffer, 0, n - open.len());
                assert(kept@ == buffer@.take(buffer@.len() - open@.len()));
                push_chars(&mut result, &kept);
                buffer = Vec::new();
                assert(buffer@ =~= Seq::<char>::empty());
            }
        } else if ends_with_folded(&buffer, &close) {
            if depth <= 1 {
                in_tag = false;
                depth = 0;
                buffer = Vec::new();
                assert(buffer@ =~= Seq::<char>::empty());
            } else {
                depth = depth - 1;
            }
        } else if opens {
            depth = depth + 1;
        }
        assert(tag_step(st, c, next, open@, close@) == (TagState {
            result: result@,
            buffer: buffer@,
            in_tag,
            depth: depth as nat,
        }));
        i += 1;
    }
    push_chars(&mut result, &buffer);
    result
}

/// `s` with every attribute `name=` (in folded case) removed: from the
/// name to the next occurrence of the character that follows `=`. Stops
/// where that character is the last one or does not occur again.
pub open spec fn without_handler(s: Seq<char>, pat: Seq<char>) -> Seq<char>
    decreases s.len(),
{
    match find(fold_seq(s), pat) {
        None => s,
        Some(start) => {
            let after = start + pat.len() + 1;
            if after >= s.len() {
                s
            } else {
                match find_from(s, seq![s[after - 1]], after) {
                    None => s,
                    Some(e) => if pat.len() > 0 {
                        proof {
                            assert(fold_seq(s).len() == s.len());
                            lemma_find_from(fold_seq(s), pat, 0);
                            lemma_find_from(s, seq![s[after - 1]], after);
                        }
                        without_handler(s.take(start) + s.skip(e + 1), pat)
                    } else {
                        s
                    },
                }
            }
        },
    }
}

/// The event-handler attributes that are removed, in order.
pub open spec fn event_handlers() -> Seq<Seq<char>> {
    seq![
        "onclick"@,
        "onload"@,
        "onerror"@,
        "onmouseover"@,
        "onmouseout"@,
        "onkeydown"@,
        "onkeyup"@,
        "onkeypress"@,
        "onfocus"@,
        "onblur"@,
        "onchange"@,
        "onsubmit"@,
        "onreset"@,
        "onselect"@,
        "onscroll"@,
    ]
}

/// `s` with the first `k` handlers removed, in order.
pub open spec fn without_handlers_upto(s: Seq<char>, k: nat) -> Seq<char>
    decreases k,
{
    if k == 0 {
        s
    } else {
        without_handler(
            without_handlers_upto(s, (k - 1) as nat),
            event_handlers()[k - 1] + seq!['='],
        )
    }
}

/// `s` without inline event handlers.
pub open spec fn without_event_handlers(s: Seq<char>) -> Seq<char> {
    without_handlers_upto(s, 15)
}

/// Removes one kind of attribute.
fn remove_handler(s: Vec<char>, pat: &[char]) -> (r: Vec<char>)
    requires
        pat@.len() > 0,
    ensures
        r@ == without_handler(s@, pat@),
    decreases s@.len(),
{
    let lower = fold_chars(&s);
    match find_chars(&lower, pat) {
        None => s,
        Some(start) => {
            proof {
                lemma_find_from(lower@, pat@, 0);
            }
            let n = s.len();
            assert(start + pat@.len() <= n);
            if start + pat.len() >= n - 1 {
                return s;
            }
            let after = start + pat.len() + 1;
            let q = [s[after - 1]];
            assert(q@ == seq![s@[after - 1]]);
            match find_chars_from(&s, &q, after) {
                None => s,
                Some(e) => {
                    proof {
                        lemma_find_from(s@, q@, after as int);
                    }
                    let mut t = slice_chars(&s, 0, start);
                    let tail = slice_chars(&s, e + 1, n);
                    push_chars(&mut t, &tail);
                    assert(t@ =~= s@.take(start as int) + s@.skip(e + 1));
                    remove_handler(t, pat)
                },
            }
        },
    }
}

/// Removes inline event handlers.
pub fn remove_event_handlers_chars(html: Vec<char>) -> (r: Vec<char>)
    ensures
        r@ == without_event_handlers(html@),
{
    let handlers = [
        "onclick",
        "onload",
        "onerror",
        "onmouseover",
        "onmouseout",
        "onkeydown",
        "onkeyup",
        "onkeypress",
        "onfocus",
        "onblur",
        "onchange",
        "onsubmit",
        "onreset",
        "onselect",
        "onscroll",
    ];
    assert(handlers@.map_values(|h: &str| h@) =~= event_handlers());
    let mut result = html;
    let ghost h0 = result@;
    let mut k: usize = 0;
    while k < 15
        invariant
            k <= 15,
            handlers@.len() == 15,
            handlers@.map_values(|h: &str| h@) == event_handlers(),
            result@ == without_handlers_upto(h0, k as nat),
        decreases 15 - k,
    {
        let mut pat = chars_of(handlers[k]);
        pat.push('=');
        assert(pat@ == event_handlers()[k as int] + seq!['=']) by {
            assert(handlers@.map_values(|h: &str| h@)[k as int] == handlers@[k as int]@);
        }
        result = remove_handler(result, &pat);
        k += 1;
    }
    result
}

/// HTML cleaned: scripts, styles, noscript content, comments and event
/// handlers removed, white space normalized.
pub open spec fn cleaned_html(html: Seq<char>) -> Seq<char> {
    let a = without_element(html, "script"@);
    let b = without_element(a, "style"@);
    let c = without_element(b, "noscript"@);
    normalized_ws(without_event_handlers(without_comments(c)))
}

/// Cleans HTML.
pub fn clean_html_chars(html: &[char]) -> (r: Vec<char>)
    ensures
        r@ == cleaned_html(html@),
{
    let a = remove_tag_with_content_chars(html, &chars_of("script"));
    let b = remove_tag_with_content_chars(&a, &chars_of("style"));
    let c = remove_tag_with_content_chars(&b, &chars_of("noscript"));
    let d = remove_html_comments_chars(&c);
    let e = remove_event_handlers_chars(d);
    crate::html::normalize_whitespace(&e)
}

impl ContentArchiver {
    /// HTML without the elements named `tag` and their content.
    pub fn remove_tag_with_content(html: &str, tag: &str) -> (r: String)
        ensures
            r@ == without_element(html@, tag@),
    {
        string_from_chars(&remove_tag_with_content_chars(&chars_of(html), &chars_of(tag)))
    }

    /// HTML without its comments.
    pub fn remove_html_comments(html: &str) -> (r: String)
        ensures
            r@ == without_comments(html@),
    {
        string_from_chars(&remove_html_comments_chars(&chars_of(html)))
    }

    /// HTML without inline event handlers.
    pub fn remove_event_handlers(html: &str) -> (r: String)
        ensures
            r@ == without_event_handlers(html@),
    {
        string_from_chars(&remove_event_handlers_chars(chars_of(html)))
    }

    /// HTML cleaned of scripts, styles, comments and event handlers, with its
    /// white space normalized.
    pub fn clean_html(&self, html: &str) -> (r: String)
        ensures
            r@ == cleaned_html(html@),
    {
        string_from_chars(&clean_html_chars(&chars_of(html)))
    }
}

// ---------------------------------------------------------------------------
// Media and links
// ---------------------------------------------------------------------------

use crate::change_detector::{char_vecs, contains_chars_vec};

/// `acc` with `u` added unless it is there already.
pub open spec fn push_new(acc: Seq<Seq<char>>, u: Seq<char>) -> Seq<Seq<char>> {
    if acc.contains(u) {
        acc
    } else {
        acc.push(u)
    }
}

/// The first word of `s`, or empty.
pub open spec fn first_word(s: Seq<char>) -> Seq<char> {
    if words(s).len() > 0 {
        words(s)[0]
    } else {
        seq![]
    }
}

/// `s` without leading and trailing quote characters (`"` and `'`).
pub open spec fn trim_quotes(s: Seq<char>) -> Seq<char>
    decreases s.len(),
{
    if s.len() > 0 && (s[0] == '"' || s[0] == '\'') {
        trim_quotes(s.drop_first())
    } else if s.len() > 0 && (s.last() == '"' || s.last() == '\'') {
        trim_quotes(s.drop_last())
    } else {
        s
    }
}

/// The supported image URLs of the candidates of a `srcset`, in order, each
/// added unless already present.
pub open spec fn srcset_urls(
    parts: Seq<Seq<char>>,
    base: Seq<char>,
    exts: Seq<Seq<char>>,
    acc: Seq<Seq<char>>,
) -> Seq<Seq<char>>
    decreases parts.len(),
{
    if parts.len() == 0 {
        acc
    } else {
        let prev = srcset_urls(parts.drop_last(), base, exts, acc);
        match resolved_url(first_word(trim(parts.last())), base) {
            Some(u) => if supported_image(exts, u) {
                push_new(prev, u)
            } else {
                prev
            },
            None => prev,
        }
    }
}

/// The image URLs of one `<img>` tag added to `acc`: its `src`, resolved and
/// supported (added even where present), then the candidates of its `srcset`.
pub open spec fn img_tag_urls(
    tag: Seq<char>,
    base: Seq<char>,
    exts: Seq<Seq<char>>,
    acc: Seq<Seq<char>>,
) -> Seq<Seq<char>> {
    let a1 = src_url(tag, base, exts, acc);
    match attribute_value(tag, "srcset"@) {
        Some(ss) => srcset_urls(split_on(ss, ','), base, exts, a1),
        None => a1,
    }
}

/// The tag that starts with `open` (in folded case) at or after `from`: its
/// start and the index of its `>`.
pub open spec fn next_tag(html: Seq<char>, open: Seq<char>, from: int) -> Option<(int, int)> {
    match find_from(fold_seq(html), open, from) {
        Some(a) => match find_from(html, seq!['>'], a) {
            Some(te) => Some((a, te)),
            None => None,
        },
        None => None,
    }
}

/// `next_tag` lies at or after `from`.
pub proof fn lemma_next_tag(html: Seq<char>, open: Seq<char>, from: int)
    requires
        0 <= from,
    ensures
        next_tag(html, open, from) matches Some((a, te)) ==> from <= a <= te < html.len(),
{
    assert(fold_seq(html).len() == html.len());
    lemma_find_from(fold_seq(html), open, from);
    if let Some(a) = find_from(fold_seq(html), open, from) {
        lemma_find_from(html, seq!['>'], a);
    }
}

/// The image URLs of the `<img>` tags at or after `from`, added to `acc`;
/// the scan ends at an `<img` without a `>` after it.
pub open spec fn img_scan(
    html: Seq<char>,
    base: Seq<char>,
    exts: Seq<Seq<char>>,
    from: int,
    acc: Seq<Seq<char>>,
) -> Seq<Seq<char>>
    decreases html.len() - from,
{
    if from < 0 {
        acc
    } else {
        match next_tag(html, "<img"@, from) {
            None => acc,
            Some((a, te)) => {
                proof {
                    lemma_next_tag(html, "<img"@, from);
                }
                img_scan(html, base, exts, te + 1, img_tag_urls(html.subrange(a, te + 1), base, exts, acc))
            },
        }
    }
}

/// The background image of one `style` attribute added to `acc`: the value
/// of the first `style` attribute in `rest`, its first `url(`, up to the next
/// `)`, quotes trimmed, resolved, supported and new.
pub open spec fn style_url(
    rest: Seq<char>,
    base: Seq<char>,
    exts: Seq<Seq<char>>,
    acc: Seq<Seq<char>>,
) -> Seq<Seq<char>> {
    match attribute_value(rest, "style"@) {
        None => acc,
        Some(sv) => match find(fold_seq(sv), "url("@) {
            None => acc,
            Some(us) => match find_from(sv, seq![')'], us + 4) {
                None => acc,
                Some(ue) => match resolved_url(trim_quotes(sv.subrange(us + 4, ue)), base) {
                    Some(u) => if supported_image(exts, u) {
                        push_new(acc, u)
                    } else {
                        acc
                    },
                    None => acc,
                },
            },
        },
    }
}

/// The background images of the `style=` occurrences at or after `from`.
pub open spec fn style_scan(
    html: Seq<char>,
    base: Seq<char>,
    exts: Seq<Seq<char>>,
    from: int,
    acc: Seq<Seq<char>>,
) -> Seq<Seq<char>>
    decreases html.len() - from,
{
    if from < 0 {
        acc
    } else {
        match find_from(fold_seq(html), "style="@, from) {
            None => acc,
            Some(st) => {
                proof {
                    lemma_find_from(fold_seq(html), "style="@, from);
                    assert(fold_seq(html).len() == html.len());
                    reveal_strlit("style=");
                }
                style_scan(html, base, exts, st + 6, style_url(html.skip(st), base, exts, acc))
            },
        }
    }
}

/// The supported image URLs of a page, in order: those of `<img>` tags,
/// then background images of `style` attributes.
pub open spec fn image_urls(html: Seq<char>, base: Seq<char>, exts: Seq<Seq<char>>) -> Seq<Seq<char>> {
    style_scan(html, base, exts, 0, img_scan(html, base, exts, 0, seq![]))
}

/// Adds `u` unless present.
fn push_new_url(acc: &mut Vec<Vec<char>>, u: Vec<char>)
    ensures
        char_vecs(final(acc)@) == push_new(char_vecs(old(acc)@), u@),
{
    if !contains_chars_vec(acc, &u) {
        let ghost o = char_vecs(acc@);
        let ghost uv = u@;
        acc.push(u);
        assert(char_vecs(acc@) =~= o.push(uv));
    }
}

/// Whether a URL names a supported image, for settings `exts`.
fn supported_chars(exts: &Vec<String>, u: &[char]) -> (r: bool)
    ensures
        r == supported_image(strings_view(exts@), u@),
{
    let us = string_from_chars(u);
    let low = to_lowercase(&us);
    let lc = chars_of(&low);
    let path = prefix_before(&lc, '?');
    ends_with_any_ext(&path, exts)
}

/// The first word of a text.
fn first_word_chars(s: &[char]) -> (r: Vec<char>)
    ensures
        r@ == first_word(s@),
{
    let w = crate::text::split_words(s);
    if w.len() > 0 {
        assert(w@.map_values(|x: Vec<char>| x@)[0] == w@[0]@);
        w[0].clone()
    } else {
        Vec::new()
    }
}

/// Quotes trimmed from both ends.
fn trim_quotes_chars(s: &[char], a: usize, b: usize) -> (r: Vec<char>)
    requires
        a <= b <= s@.len(),
    ensures
        r@ == trim_quotes(s@.subrange(a as int, b as int)),
    decreases b - a,
{
    if a < b && (s[a] == '"' || s[a] == '\'') {
        assert(s@.subrange(a as int, b as int).drop_first() == s@.subrange(a + 1, b as int));
        trim_quotes_chars(s, a + 1, b)
    } else if a < b && (s[b - 1] == '"' || s[b - 1] == '\'') {
        assert(s@.subrange(a as int, b as int).drop_last() == s@.subrange(a as int, b - 1));
        trim_quotes_chars(s, a, b - 1)
    } else {
        slice_chars(s, a, b)
    }
}

/// Adds the candidates of a `srcset`.
fn add_srcset_urls(acc: &mut Vec<Vec<char>>, ss: &[char], base: &[char], exts: &Vec<String>)
    ensures
        char_vecs(final(acc)@) == srcset_urls(
            split_on(ss@, ','),
            base@,
            strings_view(exts@),
            char_vecs(old(acc)@),
        ),
{
    let parts = split_on_chars(ss, ',');
    let ghost pv = char_vecs(parts@);
    let ghost a0 = char_vecs(acc@);
    let mut i: usize = 0;
    assert(pv.take(0) =~= Seq::<Seq<char>>::empty());
    while i < parts.len()
        invariant
            i <= parts@.len(),
            pv == char_vecs(parts@),
            pv == split_on(ss@, ','),
            char_vecs(acc@) == srcset_urls(pv.take(i as int), base@, strings_view(exts@), a0),
        decreases parts@.len() - i,
    {
        assert(pv.take(i as int + 1).drop_last() == pv.take(i as int));
        assert(pv.take(i as int + 1).last() == parts@[i as int]@);
        let part = &parts[i];
        let n = part.len();
        let t = trimmed_range(part, 0, n);
        assert(part@.subrange(0, n as int) == part@);
        let src = first_word_chars(&t);
        if let Some(u) = resolve_url_chars(&src, base) {
            if supported_chars(exts, &u) {
                push_new_url(acc, u);
            }
        }
        i += 1;
    }
    assert(pv.take(pv.len() as int) == pv);
}

/// The pieces of `s` between occurrences of `c`.
pub fn split_on_chars(s: &[char], c: char) -> (r: Vec<Vec<char>>)
    ensures
        char_vecs(r@) == split_on(s@, c),
{
    let mut r: Vec<Vec<char>> = Vec::new();
    let mut cur: Vec<char> = Vec::new();
    let mut i: usize = 0;
    assert(s@.skip(0) == s@);
    assert(char_vecs(r@) + split_acc(s@.skip(0), c, cur@) =~= split_on(s@, c));
    while i < s.len()
        invariant
            i <= s@.len(),
            char_vecs(r@) + split_acc(s@.skip(i as int), c, cur@) == split_on(s@, c),
        decreases s@.len() - i,
    {
        let x = s[i];
        assert(s@.skip(i as int)[0] == x);
        assert(s@.skip(i as int).drop_first() == s@.skip(i as int + 1));
        if x == c {
            let ghost o = char_vecs(r@);
            let ghost oc = cur@;
            r.push(cur);
            cur = Vec::new();
            assert(char_vecs(r@) =~= o.push(oc));
            assert(o + (seq![oc] + split_acc(s@.skip(i as int + 1), c, seq![])) =~= o.push(oc)
                + split_acc(s@.skip(i as int + 1), c, seq![]));
            assert(cur@ =~= Seq::<char>::empty());
        } else {
            cur.push(x);
        }
        i += 1;
    }
    let ghost o = char_vecs(r@);
    let ghost oc = cur@;
    r.push(cur);
    assert(char_vecs(r@) =~= o + seq![oc]);
    r
}

/// The start and `>` of the next tag that opens with `open`.
fn next_tag_exec(html: &[char], lower: &[char], open: &[char], from: usize) -> (r: Option<(usize, usize)>)
    requires
        lower@ == fold_seq(html@),
    ensures
        match r {
            Some((a, te)) => next_tag(html@, open@, from as int) == Some((a as int, te as int)) && from
                <= a <= te < html@.len(),
            None => next_tag(html@, open@, from as int) is None,
        },
{
    proof {
        lemma_next_tag(html@, open@, from as int);
    }
    match find_chars_from(lower, open, from) {
        None => None,
        Some(a) => {
            let gt = ['>'];
            assert(gt@ == seq!['>']);
            match find_chars_from(html, &gt, a) {
                Some(te) => Some((a, te)),
                None => None,
            }
        },
    }
}

/// The supported image URLs of a page.
pub fn image_urls_chars(html: &[char], base: &[char], exts: &Vec<String>) -> (r: Vec<Vec<char>>)
    ensures
        char_vecs(r@) == image_urls(html@, base@, strings_view(exts@)),
{
    let lower = fold_chars(html);
    let ghost ev = strings_view(exts@);
    let mut acc: Vec<Vec<char>> = Vec::new();
    let mut from: usize = 0;
    let img = chars_of("<img");
    assert(char_vecs(acc@) =~= Seq::<Seq<char>>::empty());
    loop
        invariant
            from <= html@.len() + 1,
            lower@ == fold_seq(html@),
            img@ == "<img"@,
            ev == strings_view(exts@),
            img_scan(html@, base@, ev, 0, seq![]) == img_scan(html@, base@, ev, from as int, char_vecs(acc@)),
        ensures
            img_scan(html@, base@, ev, 0, seq![]) == char_vecs(acc@),
        decreases html@.len() + 1 - from,
    {
        match next_tag_exec(html, &lower, &img, from) {
            None => {
                break;
            },
            Some((a, te)) => {
                let n = html.len();
                assert(te < n);
                let tag = slice_chars(html, a, te + 1);
                let ghost acc0 = char_vecs(acc@);
                add_src_url(&mut acc, &tag, base, exts);
                let srcset_attr = chars_of("srcset");
                if let Some(ss) = attribute_chars(&tag, &srcset_attr) {
                    add_srcset_urls(&mut acc, &ss, base, exts);
                }
                assert(char_vecs(acc@) == img_tag_urls(tag@, base@, ev, acc0));
                from = te + 1;
            },
        }
    }
    assert(char_vecs(acc@) == img_scan(html@, base@, ev, 0, seq![]));
    assert(image_urls(html@, base@, ev) == style_scan(html@, base@, ev, 0, char_vecs(acc@)));
    let pat = chars_of("style=");
    proof {
        reveal_strlit("style=");
    }
    let mut from2: usize = 0;
    loop
        invariant
            lower@ == fold_seq(html@),
            pat@ == "style="@,
            "style="@.len() == 6,
            ev == strings_view(exts@),
            image_urls(html@, base@, ev) == style_scan(html@, base@, ev, from2 as int, char_vecs(acc@)),
        ensures
            image_urls(html@, base@, ev) == char_vecs(acc@),
        decreases html@.len() + 1 - from2,
    {
        match find_chars_from(&lower, &pat, from2) {
            None => {
                break;
            },
            Some(st) => {
                proof {
                    lemma_find_from(lower@, pat@, from2 as int);
                }
                let n = html.len();
                let rest = slice_chars(html, st, n);
                assert(rest@ == html@.skip(st as int));
                let ghost acc0 = char_vecs(acc@);
                add_style_url(&mut acc, &rest, base, exts);
                assert(char_vecs(acc@) == style_url(html@.skip(st as int), base@, ev, acc0));
                from2 = st + 6;
            },
        }
    }
    acc
}

/// The image of a tag's `src` attribute.
pub open spec fn src_url(tag: Seq<char>, base: Seq<char>, exts: Seq<Seq<char>>, acc: Seq<Seq<char>>) -> Seq<
    Seq<char>,
> {
    match attribute_value(tag, "src"@) {
        Some(src) => match resolved_url(src, base) {
            Some(u) => if supported_image(exts, u) {
                acc.push(u)
            } else {
                acc
            },
            None => acc,
        },
        None => acc,
    }
}

/// Adds the image of a tag's `src` attribute.
fn add_src_url(acc: &mut Vec<Vec<char>>, tag: &[char], base: &[char], exts: &Vec<String>)
    ensures
        char_vecs(final(acc)@) == src_url(tag@, base@, strings_view(exts@), char_vecs(old(acc)@)),
{
    let src_attr = chars_of("src");
    if let Some(src) = attribute_chars(tag, &src_attr) {
        if let Some(u) = resolve_url_chars(&src, base) {
            if supported_chars(exts, &u) {
                let ghost o = char_vecs(acc@);
                let ghost uv = u@;
                acc.push(u);
                assert(char_vecs(acc@) =~= o.push(uv));
            }
        }
    }
}

/// Adds the background image of the first `style` attribute of `rest`.
fn add_style_url(acc: &mut Vec<Vec<char>>, rest: &[char], base: &[char], exts: &Vec<String>)
    ensures
        char_vecs(final(acc)@) == style_url(rest@, base@, strings_view(exts@), char_vecs(old(acc)@)),
{
    let style_attr = chars_of("style");
    if let Some(sv) = attribute_chars(rest, &style_attr) {
        let lsv = fold_chars(&sv);
        let upat = chars_of("url(");
        proof {
            reveal_strlit("url(");
        }
        if let Some(us) = find_chars(&lsv, &upat) {
            proof {
                lemma_find_from(lsv@, upat@, 0);
            }
            assert(us + 4 <= sv@.len());
            let n2 = sv.len();
            let close = [')'];
            assert(close@ == seq![')']);
            if let Some(ue) = find_chars_from(&sv, &close, us + 4) {
                proof {
                    lemma_find_from(sv@, seq![')'], us + 4);
                }
                let inner = trim_quotes_chars(&sv, us + 4, ue);
                if let Some(u) = resolve_url_chars(&inner, base) {
                    if supported_chars(exts, &u) {
                        push_new_url(acc, u);
                    }
                }
            }
        }
    }
}

/// The `src` URLs of the tags opening with `open` at or after `from`,
/// resolved and each added unless present.
pub open spec fn media_scan(
    html: Seq<char>,
    base: Seq<char>,
    open: Seq<char>,
    from: int,
    acc: Seq<Seq<char>>,
) -> Seq<Seq<char>>
    decreases html.len() - from,
{
    if from < 0 {
        acc
    } else {
        match next_tag(html, open, from) {
            None => acc,
            Some((a, te)) => {
                proof {
                    lemma_next_tag(html, open, from);
                }
                let tag = html.subrange(a, te + 1);
                let acc1 = match attribute_value(tag, "src"@) {
                    Some(src) => match resolved_url(src, base) {
                        Some(u) => push_new(acc, u),
                        None => acc,
                    },
                    None => acc,
                };
                media_scan(html, base, open, te + 1, acc1)
            },
        }
    }
}

/// The video and audio URLs of a page: the `src` of `<video`, then
/// `<audio`, then `<source` tags.
pub open spec fn other_media_urls(html: Seq<char>, base: Seq<char>) -> Seq<Seq<char>> {
    let a = media_scan(html, base, "<video"@, 0, seq![]);
    let b = media_scan(html, base, "<audio"@, 0, a);
    media_scan(html, base, "<source"@, 0, b)
}

/// Adds the `src` URLs of the tags opening with `open`.
fn add_media_urls(acc: &mut Vec<Vec<char>>, html: &[char], lower: &[char], base: &[char], open: &[char])
    requires
        lower@ == fold_seq(html@),
    ensures
        char_vecs(final(acc)@) == media_scan(html@, base@, open@, 0, char_vecs(old(acc)@)),
{
    let ghost target = media_scan(html@, base@, open@, 0, char_vecs(acc@));
    let mut from: usize = 0;
    loop
        invariant
            from <= html@.len() + 1,
            lower@ == fold_seq(html@),
            target == media_scan(html@, base@, open@, from as int, char_vecs(acc@)),
        ensures
            target == char_vecs(acc@),
        decreases html@.len() + 1 - from,
    {
        match next_tag_exec(html, lower, open, from) {
            None => {
                break;
            },
            Some((a, te)) => {
                let n = html.len();
                let tag = slice_chars(html, a, te + 1);
                let src_attr = chars_of("src");
                if let Some(src) = attribute_chars(&tag, &src_attr) {
                    if let Some(u) = resolve_url_chars(&src, base) {
                        push_new_url(acc, u);
                    }
                }
                from = te + 1;
            },
        }
    }
}

/// The video and audio URLs of a page.
pub fn other_media_urls_chars(html: &[char], base: &[char]) -> (r: Vec<Vec<char>>)
    ensures
        char_vecs(r@) == other_media_urls(html@, base@),
{
    let lower = fold_chars(html);
    let mut acc: Vec<Vec<char>> = Vec::new();
    assert(char_vecs(acc@) =~= Seq::<Seq<char>>::empty());
    add_media_urls(&mut acc, html, &lower, base, &chars_of("<video"));
    add_media_urls(&mut acc, html, &lower, base, &chars_of("<audio"));
    add_media_urls(&mut acc, html, &lower, base, &chars_of("<source"));
    acc
}

/// Whether a link target is skipped: scripts, mail and fragments.
pub open spec fn skipped_href(href: Seq<char>) -> bool {
    starts_with(href, "javascript:"@) || starts_with(href, "mailto:"@) || starts_with(href, "#"@)
}

/// The links of the `<a` tags at or after `from`, each resolved and added,
/// unless present, to the internal links where its domain is `domain` and to
/// the external ones otherwise.
pub open spec fn link_scan(
    html: Seq<char>,
    base: Seq<char>,
    domain: Seq<char>,
    from: int,
    acc: (Seq<Seq<char>>, Seq<Seq<char>>),
) -> (Seq<Seq<char>>, Seq<Seq<char>>)
    decreases html.len() - from,
{
    if from < 0 {
        acc
    } else {
        match next_tag(html, "<a"@, from) {
            None => acc,
            Some((a, te)) => {
                proof {
                    lemma_next_tag(html, "<a"@, from);
                }
                let tag = html.subrange(a, te + 1);
                let acc1 = match attribute_value(tag, "href"@) {
                    Some(href) => if skipped_href(href) {
                        acc
                    } else {
                        match resolved_url(href, base) {
                            Some(u) => if domain_part(u) == domain {
                                (push_new(acc.0, u), acc.1)
                            } else {
                                (acc.0, push_new(acc.1, u))
                            },
                            None => acc,
                        }
                    },
                    None => acc,
                };
                link_scan(html, base, domain, te + 1, acc1)
            },
        }
    }
}

/// An `<a` tag of a page: `<a`, in any case, at `a`, and its end, the first
/// `>` at or after `a`, at `te`.
pub open spec fn a_tag_at(html: Seq<char>, a: int, te: int) -> bool {
    &&& 0 <= a && a + 2 <= html.len() && a <= te < html.len()
    &&& fold_seq(html.subrange(a, a + 2)) == seq!['<', 'a']
    &&& html[te] == '>'
    &&& forall|k: int| a <= k < te ==> html[k] != '>'
}

/// A link target that is followed: not a script, not mail, not a fragment
/// of the same page.
pub open spec fn followable(href: Seq<char>) -> bool {
    &&& !starts_with(href, "javascript:"@)
    &&& !starts_with(href, "mailto:"@)
    &&& !starts_with(href, "#"@)
}

/// `u` is the resolution of the followable target of the `<a` tag at `a`
/// to `te`.
pub open spec fn link_from_tag(html: Seq<char>, base: Seq<char>, a: int, te: int, u: Seq<char>) -> bool {
    &&& a_tag_at(html, a, te)
    &&& attribute_value(html.subrange(a, te + 1), "href"@) is Some
    &&& followable(attribute_value(html.subrange(a, te + 1), "href"@)->0)
    &&& resolved_url(attribute_value(html.subrange(a, te + 1), "href"@)->0, base) == Some(u)
}

/// `u` comes from a followable link of the page.
pub open spec fn from_followable_link(html: Seq<char>, base: Seq<char>, u: Seq<char>) -> bool {
    exists|a: int, te: int| #[trigger] link_from_tag(html, base, a, te, u)
}

proof fn lemma_link_scan_sources(
    html: Seq<char>,
    base: Seq<char>,
    domain: Seq<char>,
    from: int,
    acc: (Seq<Seq<char>>, Seq<Seq<char>>),
)
    requires
        forall|u: Seq<char>| acc.0.contains(u) || acc.1.contains(u) ==> from_followable_link(html, base, u),
    ensures
        forall|u: Seq<char>|
            #![trigger link_scan(html, base, domain, from, acc).0.contains(u)]
            #![trigger link_scan(html, base, domain, from, acc).1.contains(u)]
            link_scan(html, base, domain, from, acc).0.contains(u) || link_scan(
                html,
                base,
                domain,
                from,
                acc,
            ).1.contains(u) ==> from_followable_link(html, base, u),
    decreases html.len() - from,
{
    if from >= 0 {
        match next_tag(html, "<a"@, from) {
            None => {
                assert(link_scan(html, base, domain, from, acc) == acc);
            },
            Some((a, te)) => {
                lemma_next_tag(html, "<a"@, from);
                lemma_find_from(fold_seq(html), "<a"@, from);
                lemma_find_from(html, seq!['>'], a);
                reveal_strlit("<a");
                assert(fold_seq(html).len() == html.len());
                assert(fold_seq(html.subrange(a, a + 2)) =~= fold_seq(html).subrange(a, a + 2));
                assert("<a"@ =~= seq!['<', 'a']);
                assert(occurs_at(fold_seq(html), "<a"@, a));
                assert(fold_seq(html).subrange(a, a + 2) == seq!['<', 'a']);
                assert(occurs_at(html, seq!['>'], te));
                assert(html.subrange(te, te + 1) =~= seq![html[te]]);
                assert(html.subrange(te, te + 1)[0] == html[te]);
                assert forall|k: int| a <= k < te implies html[k] != '>' by {
                    assert(!occurs_at(html, seq!['>'], k));
                    assert(html.subrange(k, k + 1) =~= seq![html[k]]);
                }
                assert(a_tag_at(html, a, te));
                let tag = html.subrange(a, te + 1);
                let acc1 = match attribute_value(tag, "href"@) {
                    Some(href) => if skipped_href(href) {
                        acc
                    } else {
                        match resolved_url(href, base) {
                            Some(u) => if domain_part(u) == domain {
                                (push_new(acc.0, u), acc.1)
                            } else {
                                (acc.0, push_new(acc.1, u))
                            },
                            None => acc,
                        }
                    },
                    None => acc,
                };
                assert forall|u: Seq<char>| acc1.0.contains(u) || acc1.1.contains(u) implies from_followable_link(
                    html,
                    base,
                    u,
                ) by {
                    if !(acc.0.contains(u) || acc.1.contains(u)) {
                        let href = attribute_value(tag, "href"@)->0;
                        if acc1.0.contains(u) && acc1.0 == acc.0.push(u) {
                        }
                        assert(resolved_url(href, base) == Some(u)) by {
                            let v = resolved_url(href, base)->0;
                            if acc1.0 != acc.0 {
                                assert(acc1.0 == acc.0.push(v));
                                assert(acc1.0.contains(u));
                                let w = choose|w: int| 0 <= w < acc1.0.len() && acc1.0[w] == u;
                                if w < acc.0.len() {
                                    assert(acc.0.contains(u));
                                }
                            } else {
                                assert(acc1.1 == acc.1.push(v));
                                let w = choose|w: int| 0 <= w < acc1.1.len() && acc1.1[w] == u;
                                if w < acc.1.len() {
                                    assert(acc.1.contains(u));
                                }
                            }
                        }
                        assert(link_from_tag(html, base, a, te, u));
                    }
                }
                lemma_link_scan_sources(html, base, domain, te + 1, acc1);
                assert(link_scan(html, base, domain, from, acc) == link_scan(html, base, domain, te + 1, acc1));
            },
        }
    } else {
        assert(link_scan(html, base, domain, from, acc) == acc);
    }
}

/// Every link extracted from a page, internal or external, is the
/// resolution of the `href` of one of the page's `<a` tags that is neither
/// a script, nor mail, nor a fragment of the page (`#...`).
pub proof fn law_links_come_from_followable_anchors(html: Seq<char>, base: Seq<char>)
    ensures
        forall|u: Seq<char>|
            #![trigger page_links(html, base).0.contains(u)]
            #![trigger page_links(html, base).1.contains(u)]
            page_links(html, base).0.contains(u) || page_links(html, base).1.contains(u) ==> from_followable_link(
                html,
                base,
                u,
            ),
{
    lemma_link_scan_sources(html, base, domain_part(base), 0, (seq![], seq![]));
}

/// The internal and external links of a page.
pub open spec fn page_links(html: Seq<char>, base: Seq<char>) -> (Seq<Seq<char>>, Seq<Seq<char>>) {
    link_scan(html, base, domain_part(base), 0, (seq![], seq![]))
}

/// The internal and external links of a page.
pub fn links_chars(html: &[char], base: &[char]) -> (r: (Vec<Vec<char>>, Vec<Vec<char>>))
    ensures
        (char_vecs(r.0@), char_vecs(r.1@)) == page_links(html@, base@),
{
    let lower = fold_chars(html);
    let domain = domain_chars(base);
    let open = chars_of("<a");
    let mut internal: Vec<Vec<char>> = Vec::new();
    let mut external: Vec<Vec<char>> = Vec::new();
    assert(char_vecs(internal@) =~= Seq::<Seq<char>>::empty());
    assert(char_vecs(external@) =~= Seq::<Seq<char>>::empty());
    let ghost target = page_links(html@, base@);
    let mut from: usize = 0;
    loop
        invariant
            from <= html@.len() + 1,
            lower@ == fold_seq(html@),
            open@ == "<a"@,
            domain@ == domain_part(base@),
            target == link_scan(
                html@,
                base@,
                domain@,
                from as int,
                (char_vecs(internal@), char_vecs(external@)),
            ),
        ensures
            target == (char_vecs(internal@), char_vecs(external@)),
        decreases html@.len() + 1 - from,
    {
        match next_tag_exec(html, &lower, &open, from) {
            None => {
                break;
            },
            Some((a, te)) => {
                let n = html.len();
                let tag = slice_chars(html, a, te + 1);
                let href_attr = chars_of("href");
                if let Some(href) = attribute_chars(&tag, &href_attr) {
                    let skip = starts_with_str(&href, "javascript:") || starts_with_str(&href, "mailto:")
                        || starts_with_str(&href, "#");
                    if !skip {
                        if let Some(u) = resolve_url_chars(&href, base) {
                            let d = domain_chars(&u);
                            if crate::text::chars_eq(&d, &domain) {
                                push_new_url(&mut internal, u);
                            } else {
                                push_new_url(&mut external, u);
                            }
                        }
                    }
                }
                from = te + 1;
            },
        }
    }
    (internal, external)
}

/// Strings from character vectors.
pub fn strings_of(v: &Vec<Vec<char>>) -> (r: Vec<String>)
    ensures
        strings_view(r@) == char_vecs(v@),
{
    let mut r: Vec<String> = Vec::new();
    let mut i: usize = 0;
    while i < v.len()
        invariant
            i <= v@.len(),
            strings_view(r@) == char_vecs(v@).take(i as int),
        decreases v@.len() - i,
    {
        let ghost o = strings_view(r@);
        let s = string_from_chars(&v[i]);
        r.push(s);
        assert(strings_view(r@) =~= o.push(v@[i as int]@));
        assert(char_vecs(v@).take(i as int + 1) =~= char_vecs(v@).take(i as int).push(v@[i as int]@));
        i += 1;
    }
    assert(char_vecs(v@).take(v@.len() as int) == char_vecs(v@));
    r
}

/// What is extracted from a page.
#[derive(Clone, Debug)]
pub struct ExtractedContent {
    /// The cleaned HTML.
    pub html: String,
    /// The plain text of the cleaned HTML.
    pub text: String,
    pub title: String,
    pub image_urls: Vec<String>,
    pub other_media_urls: Vec<String>,
    pub internal_links: Vec<String>,
    pub external_links: Vec<String>,
    pub reading_time_minutes: u32,
    pub word_count: u32,
}

impl ContentArchiver {
    /// The supported image URLs of a page.
    pub fn extract_image_urls(&self, html: &str, base_url: &str) -> (r: Vec<String>)
        ensures
            strings_view(r@) == image_urls(
                html@,
                base_url@,
                strings_view(self.config.supported_media_extensions@),
            ),
    {
        let v = image_urls_chars(&chars_of(html), &chars_of(base_url), &self.config.supported_media_extensions);
        strings_of(&v)
    }

    /// The video and audio URLs of a page.
    pub fn extract_other_media_urls(&self, html: &str, base_url: &str) -> (r: Vec<String>)
        ensures
            strings_view(r@) == other_media_urls(html@, base_url@),
    {
        let v = other_media_urls_chars(&chars_of(html), &chars_of(base_url));
        strings_of(&v)
    }

    /// The internal and external links of a page.
    pub fn extract_links(&self, html: &str, base_url: &str) -> (r: (Vec<String>, Vec<String>))
        ensures
            (strings_view(r.0@), strings_view(r.1@)) == page_links(html@, base_url@),
    {
        let (i, e) = links_chars(&chars_of(html), &chars_of(base_url));
        (strings_of(&i), strings_of(&e))
    }

    /// Extracts the cleaned HTML, its text, the title, media, links, the
    /// word count and the reading time of a page.
    pub fn extract_content(&self, html: &str, base_url: &str) -> (r: ExtractedContent)
        ensures
            r.html@ == cleaned_html(html@),
            r.text@ == html_text(cleaned_html(html@)),
            r.title@ == title_of(html@),
            strings_view(r.image_urls@) == image_urls(
                html@,
                base_url@,
                strings_view(self.config.supported_media_extensions@),
            ),
            strings_view(r.other_media_urls@) == other_media_urls(html@, base_url@),
            (strings_view(r.internal_links@), strings_view(r.external_links@)) == page_links(
                html@,
                base_url@,
            ),
            r.word_count == word_count(html_text(cleaned_html(html@))),
            r.reading_time_minutes == reading_minutes(r.word_count),
    {
        let cleaned = self.clean_html(html);
        let text = self.extract_text(&cleaned);
        let title = self.extract_title(html);
        let image_urls = self.extract_image_urls(html, base_url);
        let other_media_urls = self.extract_other_media_urls(html, base_url);
        let (internal_links, external_links) = self.extract_links(html, base_url);
        let word_count = self.count_words(&text);
        let reading_time_minutes = self.estimate_reading_time(word_count);
        ExtractedContent {
            html: cleaned,
            text,
            title,
            image_urls,
            other_media_urls,
            internal_links,
            external_links,
            reading_time_minutes,
            word_count,
        }
    }
}

// ---------------------------------------------------------------------------
// Media files and archives
// ---------------------------------------------------------------------------

/// A stored media file.
#[derive(Clone, Debug)]
pub struct MediaFileInfo {
    pub original_url: String,
    pub local_path: String,
    pub file_size: u64,
    pub mime_type: Option<String>,
    pub checksum: String,
}

/// A media file that could not be stored, and why.
#[derive(Clone, Debug)]
pub struct MediaDownloadError {
    pub url: String,
    pub error: String,
}

/// A media file to be written: where, and what.
#[derive(Clone, Debug)]
pub struct PlannedMedia {
    pub local_path: String,
    pub content: String,
}

/// `dir` joined with `name` by `/` (the separator is not doubled).
pub open spec fn joined_path(dir: Seq<char>, name: Seq<char>) -> Seq<char> {
    if dir.len() == 0 {
        name
    } else if dir.last() == '/' {
        dir + name
    } else {
        dir + seq!['/'] + name
    }
}

/// The content stored for a media file: a placeholder naming its URL.
pub open spec fn placeholder_content(url: Seq<char>) -> Seq<char> {
    "PLACEHOLDER: "@ + url
}

/// Joins a directory and a name.
pub fn join_path(dir: &str, name: &str) -> (r: String)
    ensures
        r@ == joined_path(dir@, name@),
{
    let d = chars_of(dir);
    let mut v: Vec<char> = Vec::new();
    push_chars(&mut v, &d);
    if d.len() > 0 && d[d.len() - 1] != '/' {
        v.push('/');
    }
    push_str_chars(&mut v, name);
    assert(v@ =~= joined_path(dir@, name@));
    string_from_chars(&v)
}

/// The byte length of a text's UTF-8 encoding, saturated at `u64::MAX`.
pub fn byte_len(s: &str) -> (r: u64)
    ensures
        r == if crate::digest::utf8(s@).len() <= u64::MAX {
            crate::digest::utf8(s@).len()
        } else {
            u64::MAX as nat
        },
{
    let b = crate::digest::utf8_bytes(s);
    if b.len() as u128 <= u64::MAX as u128 {
        b.len() as u64
    } else {
        u64::MAX
    }
}

/// The UTF-8 byte length of a text, saturated at `u64::MAX`.
pub open spec fn sat_len(s: Seq<char>) -> int {
    if crate::digest::utf8(s).len() <= u64::MAX {
        crate::digest::utf8(s).len() as int
    } else {
        u64::MAX as int
    }
}

/// The sum of `a` and `b`, saturated at `u64::MAX`.
pub open spec fn sat_add(a: int, b: int) -> int {
    if a + b <= u64::MAX {
        a + b
    } else {
        u64::MAX as int
    }
}

/// The failure of a URL whose directory could not be made.
pub open spec fn directory_failure(e: MediaDownloadError, url: Seq<char>, reason: Seq<char>) -> bool {
    e.url@ == url && e.error@ == "Failed to create directory: "@ + reason
}

/// The progress of storing the media files of an archive: the bytes stored,
/// the files stored and those that failed.
pub struct MediaDownloads {
    pub total_size: u64,
    pub downloaded: Vec<MediaFileInfo>,
    pub failed: Vec<MediaDownloadError>,
}

impl MediaDownloads {
    /// No progress yet.
    pub fn new() -> (r: Self)
        ensures
            r.total_size == 0,
            r.downloaded@.len() == 0,
            r.failed@.len() == 0,
    {
        MediaDownloads { total_size: 0, downloaded: Vec::new(), failed: Vec::new() }
    }

    /// Every URL fails because the media directory could not be made.
    pub fn directory_failed(&mut self, urls: &Vec<String>, reason: &str)
        ensures
            final(self).total_size == old(self).total_size,
            final(self).downloaded@ == old(self).downloaded@,
            final(self).failed@.len() == old(self).failed@.len() + urls@.len(),
            forall|k: int|
                0 <= k < urls@.len() ==> directory_failure(
                    #[trigger] final(self).failed@[old(self).failed@.len() + k],
                    urls@[k]@,
                    reason@,
                ),
            forall|k: int|
                0 <= k < old(self).failed@.len() ==> final(self).failed@[k] == old(self).failed@[k],
    {
        let start = self.failed.len();
        let mut i: usize = 0;
        while i < urls.len()
            invariant
                i <= urls@.len(),
                start == old(self).failed@.len(),
                self.total_size == old(self).total_size,
                self.downloaded@ == old(self).downloaded@,
                self.failed@.len() == start + i,
                forall|k: int|
                    0 <= k < i ==> directory_failure(#[trigger] self.failed@[start + k], urls@[k]@, reason@),
                forall|k: int| 0 <= k < start ==> self.failed@[k] == old(self).failed@[k],
            decreases urls@.len() - i,
        {
            let mut msg: Vec<char> = Vec::new();
            push_str_chars(&mut msg, "Failed to create directory: ");
            push_str_chars(&mut msg, reason);
            let e = MediaDownloadError {
                url: crate::text::copy_string(&urls[i]),
                error: string_from_chars(&msg),
            };
            assert(e.url@ == urls@[i as int]@);
            assert(e.error@ == "Failed to create directory: "@ + reason@);
            let ghost of = self.failed@;
            self.failed.push(e);
            assert(self.failed@[start + i as int] == e);
            assert forall|k: int| 0 <= k < i + 1 implies directory_failure(
                #[trigger] self.failed@[start + k],
                urls@[k]@,
                reason@,
            ) by {
                if k < i {
                    assert(self.failed@[start + k] == of[start + k]);
                }
            }
            i += 1;
        }
    }

    /// Begins storing `url` into directory `dir`: where the total size limit
    /// is reached, or the file would be too large, the URL fails and there is
    /// nothing to write; else the file to write.
    pub fn begin(&mut self, archiver: &ContentArchiver, url: &str, dir: &str) -> (r: Option<PlannedMedia>)
        ensures
            final(self).total_size == old(self).total_size,
            final(self).downloaded@ == old(self).downloaded@,
            old(self).total_size >= archiver.config.max_total_media_size ==> r is None
                && final(self).failed@.len() == old(self).failed@.len() + 1
                && final(self).failed@.last().url@ == url@ && final(self).failed@.last().error@
                == "Total media size limit exceeded"@,
            old(self).total_size < archiver.config.max_total_media_size
                && sat_len(placeholder_content(url@))
                > archiver.config.max_media_file_size ==> r is None && final(self).failed@.len()
                == old(self).failed@.len() + 1 && final(self).failed@.last().url@ == url@
                && final(self).failed@.last().error@ == "File size exceeds limit"@,
            old(self).total_size < archiver.config.max_total_media_size
                && sat_len(placeholder_content(url@))
                <= archiver.config.max_media_file_size ==> final(self).failed@ == old(self).failed@
                && (r matches Some(p) && p.local_path@ == joined_path(
                dir@,
                media_file_name(url@),
            ) && p.content@ == placeholder_content(url@)),
    {
        if self.total_size >= archiver.config.max_total_media_size {
            self.failed.push(
                MediaDownloadError {
                    url: string_from_chars(&chars_of(url)),
                    error: "Total media size limit exceeded".to_string(),
                },
            );
            return None;
        }
        let name = archiver.generate_media_filename(url);
        let local_path = join_path(dir, &name);
        let mut cv: Vec<char> = Vec::new();
        push_str_chars(&mut cv, "PLACEHOLDER: ");
        push_str_chars(&mut cv, url);
        let content = string_from_chars(&cv);
        let size = byte_len(&content);
        if size > archiver.config.max_media_file_size {
            self.failed.push(
                MediaDownloadError {
                    url: string_from_chars(&chars_of(url)),
                    error: "File size exceeds limit".to_string(),
                },
            );
            return None;
        }
        Some(PlannedMedia { local_path, content })
    }

    /// Finishes storing `url` once its file was written (or not): a written
    /// file is recorded with its size, MIME type and checksum and counts
    /// towards the total; a failed write records the reason.
    pub fn finish(
        &mut self,
        archiver: &ContentArchiver,
        url: &str,
        planned: PlannedMedia,
        written: Result<(), String>,
    )
        ensures
            written is Ok ==> final(self).failed@ == old(self).failed@ && final(self).downloaded@.len()
                == old(self).downloaded@.len() + 1 && final(self).downloaded@.last().original_url@
                == url@ && final(self).downloaded@.last().local_path@ == planned.local_path@
                && final(self).downloaded@.last().file_size as int == (if crate::digest::utf8(
                planned.content@,
            ).len() <= u64::MAX {
                crate::digest::utf8(planned.content@).len() as int
            } else {
                u64::MAX as int
            }) && final(self).downloaded@.last().checksum@ == crate::digest::fnv_checksum(
                planned.content@,
            ) && crate::text::opt_view(final(self).downloaded@.last().mime_type) == mime_type_of(
                url@,
            ) && final(self).total_size == sat_add(
                old(self).total_size as int,
                final(self).downloaded@.last().file_size as int,
            ),
            written matches Err(e) ==> final(self).downloaded@ == old(self).downloaded@
                && final(self).total_size == old(self).total_size && final(self).failed@.len()
                == old(self).failed@.len() + 1 && final(self).failed@.last().url@ == url@
                && final(self).failed@.last().error@ == "Failed to write file: "@ + e@,
    {
        match written {
            Ok(()) => {
                let size = byte_len(&planned.content);
                let checksum = crate::digest::checksum(&planned.content);
                let mime = archiver.guess_mime_type(url);
                self.total_size = if self.total_size as u128 + size as u128 <= u64::MAX as u128 {
                    self.total_size + size
                } else {
                    u64::MAX
                };
                self.downloaded.push(
                    MediaFileInfo {
                        original_url: string_from_chars(&chars_of(url)),
                        local_path: planned.local_path,
                        file_size: size,
                        mime_type: mime,
                        checksum,
                    },
                );
            },
            Err(e) => {
                let mut msg: Vec<char> = Vec::new();
                push_str_chars(&mut msg, "Failed to write file: ");
                push_str_chars(&mut msg, &e);
                self.failed.push(
                    MediaDownloadError { url: string_from_chars(&chars_of(url)), error: string_from_chars(&msg) },
                );
            },
        }
    }
}

/// An archive and what was stored with it.
#[derive(Clone, Debug)]
pub struct ArchiveResult {
    pub archive: ContentArchive,
    pub downloaded_media: Vec<MediaFileInfo>,
    pub failed_media: Vec<MediaDownloadError>,
    pub total_size: u64,
    pub archive_duration_ms: u64,
}

/// The total size of stored media files, saturated at `u64::MAX`.
pub open spec fn media_bytes(files: Seq<MediaFileInfo>) -> int
    decreases files.len(),
{
    if files.len() == 0 {
        0
    } else {
        sat_add(media_bytes(files.drop_last()), files.last().file_size as int)
    }
}

/// The bytes of a page's cleaned HTML and text, saturated at `u64::MAX`.
pub open spec fn content_bytes(html: Seq<char>, text: Seq<char>) -> int {
    sat_add(
        if crate::digest::utf8(html).len() <= u64::MAX {
            crate::digest::utf8(html).len() as int
        } else {
            u64::MAX as int
        },
        if crate::digest::utf8(text).len() <= u64::MAX {
            crate::digest::utf8(text).len() as int
        } else {
            u64::MAX as int
        },
    )
}

impl ContentArchiver {
    /// The directory for a page's media files.
    pub fn media_directory(&self, page_id: u128) -> (r: String)
        ensures
            r@ == joined_path(self.config.media_storage_path@, crate::text::uuid_text(page_id)),
    {
        let mut v: Vec<char> = Vec::new();
        crate::text::push_uuid(&mut v, page_id);
        join_path(&self.config.media_storage_path, &string_from_chars(&v))
    }

    /// The archive of a page from what was extracted and stored: named
    /// `archive_id`, made at `now`, with the cleaned HTML and text, the paths
    /// of the stored media, the checksum of the text, and as size the bytes
    /// of HTML and text plus those of the media.
    pub fn assemble_archive(
        &self,
        page_id: u128,
        url: &str,
        extracted: ExtractedContent,
        downloads: MediaDownloads,
        archive_id: u128,
        now: i64,
        duration_ms: u64,
    ) -> (r: ArchiveResult)
        ensures
            r.archive.id == archive_id,
            r.archive.page_id == page_id,
            r.archive.url@ == url@,
            r.archive.title@ == extracted.title@,
            r.archive.content_html@ == extracted.html@,
            r.archive.content_text@ == extracted.text@,
            r.archive.media_files@.len() == downloads.downloaded@.len(),
            forall|k: int|
                0 <= k < downloads.downloaded@.len() ==> #[trigger] r.archive.media_files@[k]@
                    == downloads.downloaded@[k].local_path@,
            r.archive.archived_at == now,
            r.total_size == sat_add(
                content_bytes(extracted.html@, extracted.text@),
                media_bytes(downloads.downloaded@),
            ),
            r.archive.file_size == r.total_size,
            r.archive.checksum matches Some(c) && c@ == crate::digest::fnv_checksum(extracted.text@),
            r.downloaded_media@ == downloads.downloaded@,
            r.failed_media@ == downloads.failed@,
            r.archive_duration_ms == duration_ms,
    {
        let hb = byte_len(&extracted.html);
        let tb = byte_len(&extracted.text);
        let content_size: u64 = if hb as u128 + tb as u128 <= u64::MAX as u128 {
            hb + tb
        } else {
            u64::MAX
        };
        let mut media_size: u64 = 0;
        let mut paths: Vec<String> = Vec::new();
        let files = &downloads.downloaded;
        let mut i: usize = 0;
        while i < files.len()
            invariant
                i <= files@.len(),
                media_size == media_bytes(files@.take(i as int)),
                paths@.len() == i,
                forall|k: int| 0 <= k < i ==> #[trigger] paths@[k]@ == files@[k].local_path@,
            decreases files@.len() - i,
        {
            assert(files@.take(i as int + 1).drop_last() == files@.take(i as int));
            let f = files[i].file_size;
            media_size = if media_size as u128 + f as u128 <= u64::MAX as u128 {
                media_size + f
            } else {
                u64::MAX
            };
            paths.push(crate::text::copy_string(&files[i].local_path));
            i += 1;
        }
        assert(files@.take(files@.len() as int) == files@);
        let total: u64 = if content_size as u128 + media_size as u128 <= u64::MAX as u128 {
            content_size + media_size
        } else {
            u64::MAX
        };
        let checksum = crate::digest::checksum(&extracted.text);
        let html = if self.config.enable_compression {
            self.compress_content(&extracted.html)
        } else {
            crate::text::copy_string(&extracted.html)
        };
        let archive = ContentArchive {
            id: archive_id,
            page_id,
            url: string_from_chars(&chars_of(url)),
            title: extracted.title,
            content_html: html,
            content_text: extracted.text,
            media_files: paths,
            archived_at: now,
            file_size: total,
            checksum: Some(checksum),
        };
        ArchiveResult {
            archive,
            downloaded_media: downloads.downloaded,
            failed_media: downloads.failed,
            total_size: total,
            archive_duration_ms: duration_ms,
        }
    }
}


/// A normalized path holds no empty, `.` or `..` segment.
pub proof fn law_normalized_segments_clean(segs: Seq<Seq<char>>)
    ensures
        forall|k: int|
            0 <= k < path_stack(segs).len() ==> (#[trigger] path_stack(segs)[k]).len() > 0
                && path_stack(segs)[k] != seq!['.'] && path_stack(segs)[k] != seq!['.', '.'],
    decreases segs.len(),
{
    if segs.len() > 0 {
        law_normalized_segments_clean(segs.drop_last());
        let st = path_stack(segs.drop_last());
        assert forall|k: int| 0 <= k < path_stack(segs).len() implies (#[trigger] path_stack(segs)[k]).len() > 0
            && path_stack(segs)[k] != seq!['.'] && path_stack(segs)[k] != seq!['.', '.'] by {
            if k < st.len() {
                assert(st[k].len() > 0 && st[k] != seq!['.'] && st[k] != seq!['.', '.']);
            }
        }
    }
}

/// An absolute URL resolves to itself, trimmed, whatever the base.
pub proof fn law_absolute_url_resolves_to_itself(url: Seq<char>, base: Seq<char>)
    requires
        starts_with(trim(url), "http://"@) || starts_with(trim(url), "https://"@),
    ensures
        resolved_url(url, base) == Some(trim(url)),
{
}

} // verus!
