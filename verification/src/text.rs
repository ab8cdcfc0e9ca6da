//! Character-level string helpers used throughout the library.
//!
//! Strings are reasoned about through their views, sequences of `char`.

use vstd::prelude::*;

verus! {

// ---------------------------------------------------------------------------
// Conversions between `str`/`String` and character vectors
// ---------------------------------------------------------------------------

/// The characters of `s`, in order.
pub fn chars_of(s: &str) -> (r: Vec<char>)
    ensures
        r@ == s@,
{
    let mut r: Vec<char> = Vec::new();
    for c in it: s.chars()
        invariant
            r@ == it.seq().take(it.index() as int),
            it.seq() == s@,
    {
        r.push(c);
    }
    r
}

/// Appends one character to a string (`String::push`).
#[verifier::external_body]
pub fn push_char(s: &mut String, c: char)
    ensures
        final(s)@ == old(s)@.push(c),
{
    s.push(c);
}

/// The string made of the given characters.
pub fn string_from_chars(v: &[char]) -> (r: String)
    ensures
        r@ == v@,
{
    let mut r = String::new();
    let mut i: usize = 0;
    while i < v.len()
        invariant
            i <= v@.len(),
            r@ == v@.take(i as int),
        decreases v@.len() - i,
    {
        push_char(&mut r, v[i]);
        assert(v@.take(i as int).push(v@[i as int]) == v@.take(i as int + 1));
        i += 1;
    }
    assert(v@.take(v@.len() as int) == v@);
    r
}

/// A copy of a string.
pub fn copy_string(s: &String) -> (r: String)
    ensures
        r@ == s@,
{
    s.clone()
}

/// A copy of an optional string.
pub fn copy_opt_string(s: &Option<String>) -> (r: Option<String>)
    ensures
        opt_view(r) == opt_view(*s),
{
    match s {
        Some(x) => Some(x.clone()),
        None => None,
    }
}

/// A copy of a vector of strings.
pub fn copy_strings(v: &Vec<String>) -> (r: Vec<String>)
    ensures
        strings_view(r@) == strings_view(v@),
{
    let mut r: Vec<String> = Vec::new();
    let mut i: usize = 0;
    while i < v.len()
        invariant
            i <= v@.len(),
            r@.len() == i,
            strings_view(r@) == strings_view(v@).take(i as int),
        decreases v@.len() - i,
    {
        let ghost old_r = r@;
        r.push(v[i].clone());
        assert(r@ == old_r.push(v@[i as int]));
        assert forall|j: int| 0 <= j < i + 1 implies #[trigger] strings_view(r@)[j] == strings_view(
            v@,
        ).take(i as int + 1)[j] by {
            if j < i {
                assert(strings_view(old_r)[j] == strings_view(v@).take(i as int)[j]);
            }
        }
        assert(strings_view(r@) =~= strings_view(v@).take(i as int + 1));
        i += 1;
    }
    assert(strings_view(v@).take(v@.len() as int) == strings_view(v@));
    r
}

/// The view of an optional string.
pub open spec fn opt_view(s: Option<String>) -> Option<Seq<char>> {
    match s {
        Some(x) => Some(x@),
        None => None,
    }
}

/// The views of a sequence of strings.
pub open spec fn strings_view(v: Seq<String>) -> Seq<Seq<char>> {
    v.map_values(|s: String| s@)
}

/// Whether two strings have the same characters.
pub fn str_eq(a: &str, b: &str) -> (r: bool)
    ensures
        r == (a@ == b@),
{
    let x = chars_of(a);
    let y = chars_of(b);
    chars_eq(&x, &y)
}

/// Whether two character slices are equal.
pub fn chars_eq(a: &[char], b: &[char]) -> (r: bool)
    ensures
        r == (a@ == b@),
{
    if a.len() != b.len() {
        return false;
    }
    let mut i: usize = 0;
    while i < a.len()
        invariant
            a@.len() == b@.len(),
            i <= a@.len(),
            forall|k: int| 0 <= k < i ==> a@[k] == b@[k],
        decreases a@.len() - i,
    {
        if a[i] != b[i] {
            return false;
        }
        i += 1;
    }
    assert(a@ =~= b@);
    true
}

// ---------------------------------------------------------------------------
// Lower-casing
// ---------------------------------------------------------------------------

/// The result of `str::to_lowercase` on a string with these characters.
pub uninterp spec fn lowercase(s: Seq<char>) -> Seq<char>;

/// `str::to_lowercase`: the Unicode lower-case form of `s`.
///
/// Trusted: the result is the named value `lowercase(s@)`, a function of the
/// characters of `s` alone; nothing more is claimed about it.
#[verifier::external_body]
pub fn to_lowercase(s: &str) -> (r: String)
    ensures
        r@ == lowercase(s@),
{
    s.to_lowercase()
}

// ---------------------------------------------------------------------------
// Debug form
// ---------------------------------------------------------------------------

/// What `format!("{:?}", s)` writes for a string with these characters:
/// the `Debug` form of a `str`, in double quotes with std's escapes.
pub uninterp spec fn debug_quoted(s: Seq<char>) -> Seq<char>;

/// `<str as Debug>::fmt`, through `format!("{:?}", s)`.
///
/// Trusted: the result is the named value `debug_quoted(s@)`, a function of
/// the characters of `s` alone; the escaping rules are not written out.
#[verifier::external_body]
pub fn debug_string(s: &str) -> (r: String)
    ensures
        r@ == debug_quoted(s@),
{
    format!("{:?}", s)
}

// ---------------------------------------------------------------------------
// Searching
// ---------------------------------------------------------------------------

/// `n` occurs in `h` starting at index `i`.
pub open spec fn occurs_at(h: Seq<char>, n: Seq<char>, i: int) -> bool {
    0 <= i && i + n.len() <= h.len() && h.subrange(i, i + n.len()) == n
}

/// `n` occurs somewhere in `h` (`str::contains`).
pub open spec fn contains(h: Seq<char>, n: Seq<char>) -> bool {
    exists|i: int| occurs_at(h, n, i)
}

/// `h` begins with `n`.
pub open spec fn starts_with(h: Seq<char>, n: Seq<char>) -> bool {
    n.len() <= h.len() && h.take(n.len() as int) == n
}

/// `h` ends with `n`.
pub open spec fn ends_with(h: Seq<char>, n: Seq<char>) -> bool {
    n.len() <= h.len() && h.skip(h.len() - n.len()) == n
}

/// The first index at or after `from` where `n` occurs in `h`.
pub open spec fn find_from(h: Seq<char>, n: Seq<char>, from: int) -> Option<int>
    decreases h.len() + 1 - from,
{
    if from < 0 || from + n.len() > h.len() {
        None
    } else if occurs_at(h, n, from) {
        Some(from)
    } else {
        find_from(h, n, from + 1)
    }
}

/// The first index where `n` occurs in `h` (`str::find`).
pub open spec fn find(h: Seq<char>, n: Seq<char>) -> Option<int> {
    find_from(h, n, 0)
}

/// What `find_from` returns is the least occurrence at or after `from`.
pub proof fn lemma_find_from(h: Seq<char>, n: Seq<char>, from: int)
    requires
        0 <= from,
    ensures
        find_from(h, n, from) matches Some(k) ==> from <= k && occurs_at(h, n, k) && forall|
            j: int,
        | from <= j < k ==> !occurs_at(h, n, j),
        find_from(h, n, from) is None ==> forall|j: int| from <= j ==> !occurs_at(h, n, j),
    decreases h.len() + 1 - from,
{
    if from + n.len() > h.len() {
    } else if occurs_at(h, n, from) {
    } else {
        lemma_find_from(h, n, from + 1);
    }
}

/// `find` succeeds exactly when `contains` holds.
pub proof fn lemma_find_contains(h: Seq<char>, n: Seq<char>)
    ensures
        find(h, n) is Some <==> contains(h, n),
        find(h, n) matches Some(k) ==> occurs_at(h, n, k),
{
    lemma_find_from(h, n, 0);
}

/// Whether `n` occurs in `h` at index `i`.
pub fn occurs_at_exec(h: &[char], n: &[char], i: usize) -> (r: bool)
    ensures
        r == occurs_at(h@, n@, i as int),
{
    if n.len() > h.len() || i > h.len() - n.len() {
        return false;
    }
    let mut k: usize = 0;
    while k < n.len()
        invariant
            i + n@.len() <= h@.len(),
            h@.len() == h.len(),
            n@.len() == n.len(),
            k <= n@.len(),
            forall|j: int| 0 <= j < k ==> h@[i + j] == n@[j],
        decreases n@.len() - k,
    {
        if h[i + k] != n[k] {
            return false;
        }
        k += 1;
    }
    assert(h@.subrange(i as int, i + n@.len()) =~= n@);
    true
}

/// The first index at or after `from` where `n` occurs in `h`.
pub fn find_chars_from(h: &[char], n: &[char], from: usize) -> (r: Option<usize>)
    ensures
        match r {
            Some(k) => find_from(h@, n@, from as int) == Some(k as int),
            None => find_from(h@, n@, from as int) is None,
        },
{
    let mut i = from;
    while i <= h.len() && n.len() <= h.len() - i
        invariant
            from <= i,
            find_from(h@, n@, from as int) == find_from(h@, n@, i as int),
        decreases h@.len() + 1 - i,
    {
        if occurs_at_exec(h, n, i) {
            return Some(i);
        }
        proof {
            if n@.len() == 0 {
                assert(h@.subrange(i as int, i as int) =~= n@);
            }
        }
        i += 1;
    }
    None
}

/// The first index where `n` occurs in `h`.
pub fn find_chars(h: &[char], n: &[char]) -> (r: Option<usize>)
    ensures
        match r {
            Some(k) => find(h@, n@) == Some(k as int),
            None => find(h@, n@) is None,
        },
{
    find_chars_from(h, n, 0)
}

/// Whether `n` occurs in `h`.
pub fn contains_chars(h: &[char], n: &[char]) -> (r: bool)
    ensures
        r == contains(h@, n@),
{
    proof {
        lemma_find_contains(h@, n@);
    }
    find_chars(h, n).is_some()
}

/// Whether the string `n` occurs in the string `h`.
pub fn str_contains(h: &str, n: &str) -> (r: bool)
    ensures
        r == contains(h@, n@),
{
    let hc = chars_of(h);
    let nc = chars_of(n);
    contains_chars(&hc, &nc)
}

/// Whether `h` begins with `n`.
pub fn starts_with_chars(h: &[char], n: &[char]) -> (r: bool)
    ensures
        r == starts_with(h@, n@),
{
    let r = occurs_at_exec(h, n, 0);
    proof {
        if n@.len() <= h@.len() {
            assert(h@.subrange(0, n@.len() as int) == h@.take(n@.len() as int));
        }
    }
    r
}

/// Whether the string `h` begins with the string `n`.
pub fn str_starts_with(h: &str, n: &str) -> (r: bool)
    ensures
        r == starts_with(h@, n@),
{
    let hc = chars_of(h);
    let nc = chars_of(n);
    starts_with_chars(&hc, &nc)
}

/// Whether `h` ends with `n`.
pub fn ends_with_chars(h: &[char], n: &[char]) -> (r: bool)
    ensures
        r == ends_with(h@, n@),
{
    if n.len() > h.len() {
        return false;
    }
    let r = occurs_at_exec(h, n, h.len() - n.len());
    proof {
        assert(h@.subrange(h@.len() - n@.len(), h@.len() as int) == h@.skip(
            h@.len() - n@.len(),
        ));
    }
    r
}

/// Whether the string `h` ends with the string `n`.
pub fn str_ends_with(h: &str, n: &str) -> (r: bool)
    ensures
        r == ends_with(h@, n@),
{
    let hc = chars_of(h);
    let nc = chars_of(n);
    ends_with_chars(&hc, &nc)
}

// ---------------------------------------------------------------------------
// Whitespace
// ---------------------------------------------------------------------------

/// The Unicode `White_Space` property, which `char::is_whitespace` tests.
pub open spec fn is_ws(c: char) -> bool {
    let u = c as u32;
    (0x09 <= u && u <= 0x0d) || u == 0x20 || u == 0x85 || u == 0xa0 || u == 0x1680 || (0x2000
        <= u && u <= 0x200a) || u == 0x2028 || u == 0x2029 || u == 0x202f || u == 0x205f || u
        == 0x3000
}

/// Whether `c` is white space.
pub fn is_whitespace(c: char) -> (r: bool)
    ensures
        r == is_ws(c),
{
    let u = c as u32;
    (0x09 <= u && u <= 0x0d) || u == 0x20 || u == 0x85 || u == 0xa0 || u == 0x1680 || (0x2000
        <= u && u <= 0x200a) || u == 0x2028 || u == 0x2029 || u == 0x202f || u == 0x205f || u
        == 0x3000
}

/// The maximal runs of non-white-space characters of `s`, in order
/// (`str::split_whitespace`).
pub open spec fn words(s: Seq<char>) -> Seq<Seq<char>>
    decreases s.len(),
{
    words_acc(s, seq![])
}

/// `words` of `s`, where `cur` is the unfinished word that precedes `s`.
pub open spec fn words_acc(s: Seq<char>, cur: Seq<char>) -> Seq<Seq<char>>
    decreases s.len(),
{
    if s.len() == 0 {
        if cur.len() == 0 {
            seq![]
        } else {
            seq![cur]
        }
    } else if is_ws(s[0]) {
        if cur.len() == 0 {
            words_acc(s.drop_first(), cur)
        } else {
            seq![cur] + words_acc(s.drop_first(), seq![])
        }
    } else {
        words_acc(s.drop_first(), cur.push(s[0]))
    }
}

/// The white-space separated words of `s`.
pub fn split_words(s: &[char]) -> (r: Vec<Vec<char>>)
    ensures
        r@.map_values(|w: Vec<char>| w@) == words(s@),
{
    let mut r: Vec<Vec<char>> = Vec::new();
    let mut cur: Vec<char> = Vec::new();
    let mut i: usize = 0;
    assert(s@.skip(0) == s@);
    assert(r@.map_values(|w: Vec<char>| w@) + words_acc(s@.skip(0), cur@) =~= words_acc(s@, seq![]));
    while i < s.len()
        invariant
            i <= s@.len(),
            r@.map_values(|w: Vec<char>| w@) + words_acc(s@.skip(i as int), cur@) == words(s@),
        decreases s@.len() - i,
    {
        let c = s[i];
        let ghost rest = s@.skip(i as int);
        assert(rest[0] == c);
        assert(rest.drop_first() == s@.skip(i as int + 1));
        if is_whitespace(c) {
            if cur.len() > 0 {
                let ghost old_r = r@.map_values(|w: Vec<char>| w@);
                let ghost old_cur = cur@;
                r.push(cur);
                cur = Vec::new();
                assert(r@.map_values(|w: Vec<char>| w@) == old_r.push(old_cur));
                assert(old_r + (seq![old_cur] + words_acc(s@.skip(i as int + 1), seq![])) == old_r.push(old_cur) + words_acc(s@.skip(i as int + 1), seq![]));
                assert(cur@ == Seq::<char>::empty());
            }
        } else {
            cur.push(c);
        }
        i += 1;
    }
    assert(s@.skip(i as int).len() == 0);
    if cur.len() > 0 {
        let ghost old_r = r@.map_values(|w: Vec<char>| w@);
        let ghost old_cur = cur@;
        r.push(cur);
        assert(r@.map_values(|w: Vec<char>| w@) == old_r.push(old_cur));
        assert(old_r + seq![old_cur] == old_r.push(old_cur));
    } else {
        assert(r@.map_values(|w: Vec<char>| w@) + seq![] == r@.map_values(|w: Vec<char>| w@));
    }
    r
}

// ---------------------------------------------------------------------------
// Hexadecimal
// ---------------------------------------------------------------------------

/// The lower-case hexadecimal digit for `d < 16`.
pub open spec fn hex_char(d: nat) -> char {
    if d < 10 {
        ((48 + d) as u32) as char
    } else {
        ((87 + d) as u32) as char
    }
}

/// The last `width` hexadecimal digits of `n`, with leading zeros.
pub open spec fn hex_digits(n: nat, width: nat) -> Seq<char>
    decreases width,
{
    if width == 0 {
        seq![]
    } else {
        hex_digits(n / 16, (width - 1) as nat).push(hex_char(n % 16))
    }
}

/// The lower-case hexadecimal digit for `d < 16`.
pub fn hex_digit(d: u8) -> (c: char)
    requires
        d < 16,
    ensures
        c == hex_char(d as nat),
{
    if d < 10 {
        (48 + d) as char
    } else {
        (87 + d) as char
    }
}

/// Appends the last `width` hexadecimal digits of `n`.
pub fn push_hex(v: &mut Vec<char>, n: u128, width: u32)
    ensures
        final(v)@ == old(v)@ + hex_digits(n as nat, width as nat),
    decreases width,
{
    if width == 0 {
        assert(old(v)@ + seq![] == old(v)@);
    } else {
        push_hex(v, n / 16, width - 1);
        v.push(hex_digit((n % 16) as u8));
        assert(old(v)@ + hex_digits((n / 16) as nat, (width - 1) as nat) + seq![hex_char((n % 16) as nat)]
            == old(v)@ + hex_digits(n as nat, width as nat));
    }
}

/// A UUID in hyphenated form: its 32 hexadecimal digits in groups of 8, 4,
/// 4, 4 and 12.
pub open spec fn uuid_text(n: u128) -> Seq<char> {
    let h = hex_digits(n as nat, 32);
    h.subrange(0, 8) + seq!['-'] + h.subrange(8, 12) + seq!['-'] + h.subrange(12, 16) + seq!['-']
        + h.subrange(16, 20) + seq!['-'] + h.subrange(20, 32)
}

/// Appends a UUID in hyphenated form.
pub fn push_uuid(v: &mut Vec<char>, n: u128)
    ensures
        final(v)@ == old(v)@ + uuid_text(n),
{
    let mut h: Vec<char> = Vec::new();
    push_hex(&mut h, n, 32);
    assert(h@ =~= hex_digits(n as nat, 32));
    proof {
        lemma_hex_digits_len(n as nat, 32);
    }
    let ghost start = v@;
    let mut i: usize = 0;
    while i < 32
        invariant
            i <= 32,
            h@.len() == 32,
            v@ == start + uuid_prefix(h@, i as int),
        decreases 32 - i,
    {
        if i == 8 || i == 12 || i == 16 || i == 20 {
            v.push('-');
        }
        v.push(h[i]);
        i += 1;
    }
    proof {
        reveal_with_fuel(uuid_prefix, 33);
        assert(uuid_prefix(h@, 32) =~= uuid_text(n));
    }
}

/// The first `i` digits of a hyphenated UUID with the hyphens that precede them.
pub open spec fn uuid_prefix(h: Seq<char>, i: int) -> Seq<char>
    decreases i,
{
    if i <= 0 {
        seq![]
    } else if i == 8 || i == 12 || i == 16 || i == 20 {
        uuid_prefix(h, i - 1).push(h[i - 1])
    } else if i == 9 || i == 13 || i == 17 || i == 21 {
        uuid_prefix(h, i - 1).push('-').push(h[i - 1])
    } else {
        uuid_prefix(h, i - 1).push(h[i - 1])
    }
}

/// `hex_digits` has `width` digits.
pub proof fn lemma_hex_digits_len(n: nat, width: nat)
    ensures
        hex_digits(n, width).len() == width,
    decreases width,
{
    if width > 0 {
        lemma_hex_digits_len(n / 16, (width - 1) as nat);
    }
}

} // verus!
