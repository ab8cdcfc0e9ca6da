//! Matching tabs with bookmarks by URL and by domain, and detecting where a
//! tab's title or icon has drifted from its bookmark's.

use vstd::prelude::*;
use crate::model::{BookmarkInfo, BookmarkModel, TabInfo, TabModel};
use crate::platform::{UrlModel, UrlParts, now_millis, parse_url_parts, parsed_url};
use crate::text::{
    chars_eq, chars_of, copy_opt_string, copy_string, lowercase, opt_view, push_char,
    string_from_chars, to_lowercase,
};

verus! {

// ---------------------------------------------------------------------------
// Configuration and results
// ---------------------------------------------------------------------------

/// Configuration of a [`TabBookmarkMatcher`].
#[derive(Clone, Copy, Debug)]
pub struct MatcherConfig {
    /// Minimum content similarity, in percent, for content-based matching.
    pub content_similarity_threshold_percent: u32,
    /// Whether to match by exact URL.
    pub match_exact_url: bool,
    /// Whether to match by domain.
    pub match_domain: bool,
    /// Whether to match by content similarity.
    pub match_content: bool,
    /// Whether to normalize URLs before matching.
    pub normalize_urls: bool,
}

impl Default for MatcherConfig {
    fn default() -> (r: Self)
        ensures
            r.content_similarity_threshold_percent == 70,
            r.match_exact_url,
            r.match_domain,
            r.match_content,
            r.normalize_urls,
    {
        MatcherConfig {
            content_similarity_threshold_percent: 70,
            match_exact_url: true,
            match_domain: true,
            match_content: true,
            normalize_urls: true,
        }
    }
}

/// How a tab matched a bookmark.
#[derive(Clone, Copy, Debug, PartialEq, Eq, Structural)]
pub enum MatchType {
    /// The normalized URLs are equal.
    ExactUrl,
    /// The URLs have the same host.
    SameDomain,
}

/// A match between a tab and a bookmark.
#[derive(Clone, Debug)]
pub struct MatchInfo {
    pub tab_id: String,
    pub bookmark_id: String,
    pub match_type: MatchType,
    /// Confidence in percent: 100 for an exact URL match, 50 for a domain match.
    pub confidence_percent: u32,
    pub matched_at: i64,
}

/// The mathematical value of a [`MatchInfo`].
pub ghost struct MatchModel {
    pub tab_id: Seq<char>,
    pub bookmark_id: Seq<char>,
    pub match_type: MatchType,
    pub confidence_percent: u32,
    pub matched_at: i64,
}

impl View for MatchInfo {
    type V = MatchModel;

    open spec fn view(&self) -> MatchModel {
        MatchModel {
            tab_id: self.tab_id@,
            bookmark_id: self.bookmark_id@,
            match_type: self.match_type,
            confidence_percent: self.confidence_percent,
            matched_at: self.matched_at,
        }
    }
}

impl MatchInfo {
    /// A copy of this match.
    pub fn duplicate(&self) -> (r: MatchInfo)
        ensures
            r@ == self@,
    {
        MatchInfo {
            tab_id: copy_string(&self.tab_id),
            bookmark_id: copy_string(&self.bookmark_id),
            match_type: self.match_type,
            confidence_percent: self.confidence_percent,
            matched_at: self.matched_at,
        }
    }
}

/// The views of a sequence of matches.
pub open spec fn matches_view(v: Seq<MatchInfo>) -> Seq<MatchModel> {
    v.map_values(|m: MatchInfo| m@)
}

/// The matches of one tab.
#[derive(Clone, Debug)]
pub struct TabMatches {
    pub tab_id: String,
    pub matches: Vec<MatchInfo>,
}

/// The mathematical value of a [`TabMatches`].
pub ghost struct TabMatchesModel {
    pub tab_id: Seq<char>,
    pub matches: Seq<MatchModel>,
}

impl View for TabMatches {
    type V = TabMatchesModel;

    open spec fn view(&self) -> TabMatchesModel {
        TabMatchesModel { tab_id: self.tab_id@, matches: matches_view(self.matches@) }
    }
}

/// The views of a match map.
pub open spec fn match_map_view(v: Seq<TabMatches>) -> Seq<TabMatchesModel> {
    v.map_values(|e: TabMatches| e@)
}

// ---------------------------------------------------------------------------
// URL normalization
// ---------------------------------------------------------------------------

/// The character of a decimal digit.
pub open spec fn digit_char(d: nat) -> char {
    if d == 0 {
        '0'
    } else if d == 1 {
        '1'
    } else if d == 2 {
        '2'
    } else if d == 3 {
        '3'
    } else if d == 4 {
        '4'
    } else if d == 5 {
        '5'
    } else if d == 6 {
        '6'
    } else if d == 7 {
        '7'
    } else if d == 8 {
        '8'
    } else {
        '9'
    }
}

/// The decimal representation of `n`, without leading zeros.
pub open spec fn decimal(n: nat) -> Seq<char>
    decreases n,
{
    if n < 10 {
        seq![digit_char(n)]
    } else {
        decimal(n / 10).push(digit_char(n % 10))
    }
}

/// The character of a decimal digit.
pub fn digit_to_char(d: u64) -> (c: char)
    requires
        d < 10,
    ensures
        c == digit_char(d as nat),
{
    if d == 0 {
        '0'
    } else if d == 1 {
        '1'
    } else if d == 2 {
        '2'
    } else if d == 3 {
        '3'
    } else if d == 4 {
        '4'
    } else if d == 5 {
        '5'
    } else if d == 6 {
        '6'
    } else if d == 7 {
        '7'
    } else if d == 8 {
        '8'
    } else {
        '9'
    }
}

/// Appends the decimal representation of `n`.
pub fn push_decimal(v: &mut Vec<char>, n: u64)
    ensures
        final(v)@ == old(v)@ + decimal(n as nat),
    decreases n,
{
    if n < 10 {
        v.push(digit_to_char(n));
        assert(old(v)@.push(digit_char(n as nat)) == old(v)@ + decimal(n as nat));
    } else {
        push_decimal(v, n / 10);
        v.push(digit_to_char(n % 10));
        assert(old(v)@ + decimal((n / 10) as nat) + seq![digit_char((n % 10) as nat)] == old(v)@
            + decimal(n as nat));
    }
}

/// `s` without its trailing occurrences of `c` (`str::trim_end_matches`).
pub open spec fn trim_end_char(s: Seq<char>, c: char) -> Seq<char>
    decreases s.len(),
{
    if s.len() > 0 && s.last() == c {
        trim_end_char(s.drop_last(), c)
    } else {
        s
    }
}

/// The length of `s` once its trailing occurrences of `c` are removed.
pub fn trimmed_end_len(s: &[char], c: char) -> (n: usize)
    ensures
        n <= s@.len(),
        s@.take(n as int) == trim_end_char(s@, c),
{
    let mut n = s.len();
    assert(s@.take(n as int) == s@);
    while n > 0 && s[n - 1] == c
        invariant
            n <= s@.len(),
            trim_end_char(s@.take(n as int), c) == trim_end_char(s@, c),
        decreases n,
    {
        assert(s@.take(n as int).drop_last() == s@.take(n - 1));
        n -= 1;
    }
    n
}

/// Whether a port is the default one of a scheme.
pub open spec fn is_standard_port(scheme: Seq<char>, port: u16) -> bool {
    (scheme == seq!['h', 't', 't', 'p'] && port == 80) || (scheme == seq![
        'h',
        't',
        't',
        'p',
        's',
    ] && port == 443)
}

/// The port as it appears in a normalized URL: absent where it is the scheme's default.
pub open spec fn port_part(scheme: Seq<char>, port: Option<u16>) -> Seq<char> {
    match port {
        Some(p) => if is_standard_port(scheme, p) {
            seq![]
        } else {
            seq![':'] + decimal(p as nat)
        },
        None => seq![],
    }
}

/// The path as it appears in a normalized URL: without trailing slashes, and
/// empty for the root path.
pub open spec fn path_part(path: Seq<char>) -> Seq<char> {
    if path == seq!['/'] {
        seq![]
    } else {
        trim_end_char(path, '/')
    }
}

/// The query as it appears in a normalized URL.
pub open spec fn query_part(query: Option<Seq<char>>) -> Seq<char> {
    match query {
        Some(q) => seq!['?'] + q,
        None => seq![],
    }
}

/// A parsed URL put back together as `scheme://host[:port]path[?query]`.
pub open spec fn assembled_url(m: UrlModel) -> Seq<char> {
    let host = match m.1 {
        Some(h) => h,
        None => seq![],
    };
    m.0 + seq![':', '/', '/'] + host + port_part(m.0, m.2) + path_part(m.3) + query_part(m.4)
}

/// The normalized form of a URL: unchanged where normalization is off; else
/// the lower-cased reassembly of the parsed URL, or the lower-cased URL
/// where it does not parse.
pub open spec fn normalized_url(normalize: bool, url: Seq<char>) -> Seq<char> {
    if !normalize {
        url
    } else {
        match parsed_url(url) {
            Some(m) => lowercase(assembled_url(m)),
            None => lowercase(url),
        }
    }
}

/// A parsed URL put back together as `scheme://host[:port]path[?query]`:
/// the port only where it is not the scheme's standard one, the path
/// without trailing slashes (and none for the root), the query after `?`.
#[verifier::rlimit(50)]
pub fn assemble_url(p: &UrlParts) -> (r: String)
    ensures
        r@ == assembled_url(crate::platform::parts_model(*p)),
{
    let mut v = chars_of(&p.scheme);
    v.push(':');
    v.push('/');
    v.push('/');
    match &p.host {
        Some(h) => push_str_chars(&mut v, h),
        None => {},
    }
    match p.port {
        Some(port) => {
            let scheme = chars_of(&p.scheme);
            let http = ['h', 't', 't', 'p'];
            let https = ['h', 't', 't', 'p', 's'];
            let standard = (chars_eq(&scheme, &http) && port == 80) || (chars_eq(&scheme, &https) && port
                == 443);
            proof {
                assert(http@ == seq!['h', 't', 't', 'p']);
                assert(https@ == seq!['h', 't', 't', 'p', 's']);
            }
            if !standard {
                v.push(':');
                push_decimal(&mut v, port as u64);
            }
        },
        None => {},
    }
    let path = chars_of(&p.path);
    let root = ['/'];
    proof {
        assert(root@ == seq!['/']);
    }
    if !chars_eq(&path, &root) {
        let n = trimmed_end_len(&path, '/');
        push_chars_prefix(&mut v, &path, n);
    }
    match &p.query {
        Some(q) => {
            v.push('?');
            push_str_chars(&mut v, q);
        },
        None => {},
    }
    proof {
        assert(v@ =~= assembled_url(crate::platform::parts_model(*p)));
    }
    string_from_chars(&v)
}

/// The lower-cased host of a URL, where it parses and has one.
pub open spec fn domain_of(url: Seq<char>) -> Option<Seq<char>> {
    match parsed_url(url) {
        Some(m) => match m.1 {
            Some(h) => Some(lowercase(h)),
            None => None,
        },
        None => None,
    }
}

/// Two URLs share a domain.
pub open spec fn same_domain(a: Seq<char>, b: Seq<char>) -> bool {
    domain_of(a) is Some && domain_of(a) == domain_of(b)
}

/// Appends the characters of a string.
pub fn push_str_chars(v: &mut Vec<char>, s: &str)
    ensures
        final(v)@ == old(v)@ + s@,
{
    let cs = chars_of(s);
    let mut i: usize = 0;
    while i < cs.len()
        invariant
            i <= cs@.len(),
            cs@ == s@,
            v@ == old(v)@ + cs@.take(i as int),
        decreases cs@.len() - i,
    {
        v.push(cs[i]);
        assert(old(v)@ + cs@.take(i as int + 1) == old(v)@ + cs@.take(i as int) + seq![cs@[i as int]]);
        i += 1;
    }
    assert(cs@.take(cs@.len() as int) == cs@);
}

/// Appends the first `n` characters of a slice.
pub fn push_chars_prefix(v: &mut Vec<char>, s: &[char], n: usize)
    requires
        n <= s@.len(),
    ensures
        final(v)@ == old(v)@ + s@.take(n as int),
{
    let mut i: usize = 0;
    while i < n
        invariant
            i <= n <= s@.len(),
            v@ == old(v)@ + s@.take(i as int),
        decreases n - i,
    {
        v.push(s[i]);
        assert(old(v)@ + s@.take(i as int + 1) == old(v)@ + s@.take(i as int) + seq![s@[i as int]]);
        i += 1;
    }
}

/// Appends a slice of characters.
pub fn push_chars(v: &mut Vec<char>, s: &[char])
    ensures
        final(v)@ == old(v)@ + s@,
{
    let mut i: usize = 0;
    while i < s.len()
        invariant
            i <= s@.len(),
            v@ == old(v)@ + s@.take(i as int),
        decreases s@.len() - i,
    {
        v.push(s[i]);
        assert(old(v)@ + s@.take(i as int + 1) == old(v)@ + s@.take(i as int) + seq![s@[i as int]]);
        i += 1;
    }
    assert(s@.take(s@.len() as int) == s@);
}

// ---------------------------------------------------------------------------
// Matching
// ---------------------------------------------------------------------------

/// The match between a tab and a bookmark, if any: an exact URL match takes
/// precedence over a domain match.
pub open spec fn match_of(cfg: MatcherConfig, tab: TabModel, bm: BookmarkModel, now: i64) -> Option<
    MatchModel,
> {
    if cfg.match_exact_url && normalized_url(cfg.normalize_urls, tab.url) == normalized_url(
        cfg.normalize_urls,
        bm.url,
    ) {
        Some(
            MatchModel {
                tab_id: tab.id,
                bookmark_id: bm.id,
                match_type: MatchType::ExactUrl,
                confidence_percent: 100,
                matched_at: now,
            },
        )
    } else if cfg.match_domain && same_domain(tab.url, bm.url) {
        Some(
            MatchModel {
                tab_id: tab.id,
                bookmark_id: bm.id,
                match_type: MatchType::SameDomain,
                confidence_percent: 50,
                matched_at: now,
            },
        )
    } else {
        None
    }
}

/// Whether a match is an exact URL match.
pub open spec fn is_exact(m: MatchModel) -> bool {
    m.match_type == MatchType::ExactUrl
}

/// Whether a match is not an exact URL match.
pub open spec fn is_not_exact(m: MatchModel) -> bool {
    m.match_type != MatchType::ExactUrl
}

/// A list of matches ordered by confidence, highest first, keeping the given
/// order among equal confidences; exact matches are the only ones with the
/// highest confidence.
pub open spec fn by_confidence(ms: Seq<MatchModel>) -> Seq<MatchModel> {
    ms.filter(|m: MatchModel| is_exact(m)) + ms.filter(|m: MatchModel| is_not_exact(m))
}

/// The matches of a tab with bookmarks, highest confidence first, bookmarks in
/// their order otherwise.
pub open spec fn matches_for_tab(
    cfg: MatcherConfig,
    tab: TabModel,
    bms: Seq<BookmarkModel>,
    now: i64,
) -> Seq<MatchModel> {
    by_confidence(raw_matches(cfg, tab, bms, now))
}

/// The matches of a tab with bookmarks, in bookmark order.
pub open spec fn raw_matches(
    cfg: MatcherConfig,
    tab: TabModel,
    bms: Seq<BookmarkModel>,
    now: i64,
) -> Seq<MatchModel> {
    bms.filter_map(|b: BookmarkModel| match_of(cfg, tab, b, now))
}

/// The matches of a bookmark with tabs, highest confidence first, tabs in
/// their order otherwise.
pub open spec fn matches_for_bookmark(
    cfg: MatcherConfig,
    bm: BookmarkModel,
    tabs: Seq<TabModel>,
    now: i64,
) -> Seq<MatchModel> {
    by_confidence(tabs.filter_map(|t: TabModel| match_of(cfg, t, bm, now)))
}

/// The views of a sequence of tabs.
pub open spec fn tabs_view(v: Seq<TabInfo>) -> Seq<TabModel> {
    v.map_values(|t: TabInfo| t@)
}

/// The views of a sequence of bookmarks.
pub open spec fn bookmarks_view(v: Seq<BookmarkInfo>) -> Seq<BookmarkModel> {
    v.map_values(|b: BookmarkInfo| b@)
}

/// The match map: for each tab in order that matches some bookmark, its
/// matches.
pub open spec fn match_map_of(
    cfg: MatcherConfig,
    tabs: Seq<TabModel>,
    bms: Seq<BookmarkModel>,
    now: i64,
) -> Seq<TabMatchesModel> {
    tabs.filter_map(
        |t: TabModel|
            if matches_for_tab(cfg, t, bms, now).len() > 0 {
                Some(TabMatchesModel { tab_id: t.id, matches: matches_for_tab(cfg, t, bms, now) })
            } else {
                None
            },
    )
}

/// Matches tabs with bookmarks by exact URL and by domain.
pub struct TabBookmarkMatcher {
    pub config: MatcherConfig,
}

impl TabBookmarkMatcher {
    /// A matcher with the default configuration.
    pub fn new() -> (r: Self)
        ensures
            r.config.match_exact_url,
            r.config.match_domain,
            r.config.match_content,
            r.config.normalize_urls,
            r.config.content_similarity_threshold_percent == 70,
    {
        TabBookmarkMatcher { config: MatcherConfig::default() }
    }

    /// A matcher with the given configuration.
    pub fn with_config(config: MatcherConfig) -> (r: Self)
        ensures
            r.config == config,
    {
        TabBookmarkMatcher { config }
    }

    /// The configuration.
    pub fn config(&self) -> (r: &MatcherConfig)
        ensures
            *r == self.config,
    {
        &self.config
    }

    /// The normalized form of a URL: scheme, host, non-default port, path
    /// without trailing slashes and query, lower-cased.
    #[verifier::rlimit(50)]
    pub fn normalize_url(&self, url: &str) -> (r: String)
        ensures
            r@ == normalized_url(self.config.normalize_urls, url@),
    {
        if !self.config.normalize_urls {
            return url.to_owned();
        }
        match parse_url_parts(url) {
            Some(p) => {
                let s = assemble_url(&p);
                to_lowercase(&s)
            },
            None => to_lowercase(url),
        }
    }

    /// The lower-cased host of a URL, where it parses and has a host.
    pub fn extract_domain(&self, url: &str) -> (r: Option<String>)
        ensures
            opt_view(r) == domain_of(url@),
    {
        match parse_url_parts(url) {
            Some(p) => match &p.host {
                Some(h) => Some(to_lowercase(h)),
                None => None,
            },
            None => None,
        }
    }

    /// Whether two URLs are equal once normalized.
    pub fn urls_match_exact(&self, url1: &str, url2: &str) -> (r: bool)
        ensures
            r == (normalized_url(self.config.normalize_urls, url1@) == normalized_url(
                self.config.normalize_urls,
                url2@,
            )),
    {
        let a = self.normalize_url(url1);
        let b = self.normalize_url(url2);
        a == b
    }

    /// Whether two URLs have the same host.
    pub fn urls_match_domain(&self, url1: &str, url2: &str) -> (r: bool)
        ensures
            r == same_domain(url1@, url2@),
    {
        match (self.extract_domain(url1), self.extract_domain(url2)) {
            (Some(d1), Some(d2)) => d1 == d2,
            _ => false,
        }
    }

    /// The match between a tab and a bookmark at time `now`, if any.
    pub fn match_tab_bookmark(&self, tab: &TabInfo, bookmark: &BookmarkInfo, now: i64) -> (r:
        Option<MatchInfo>)
        ensures
            opt_match_view(r) == match_of(self.config, tab@, bookmark@, now),
    {
        if self.config.match_exact_url && self.urls_match_exact(&tab.url, &bookmark.url) {
            return Some(
                MatchInfo {
                    tab_id: copy_string(&tab.id),
                    bookmark_id: copy_string(&bookmark.id),
                    match_type: MatchType::ExactUrl,
                    confidence_percent: 100,
                    matched_at: now,
                },
            );
        }
        if self.config.match_domain && self.urls_match_domain(&tab.url, &bookmark.url) {
            return Some(
                MatchInfo {
                    tab_id: copy_string(&tab.id),
                    bookmark_id: copy_string(&bookmark.id),
                    match_type: MatchType::SameDomain,
                    confidence_percent: 50,
                    matched_at: now,
                },
            );
        }
        None
    }

    /// The bookmarks that match a tab at time `now`: exact URL matches first,
    /// then domain matches, each in bookmark order.
    pub fn find_matches_for_tab_at(&self, tab: &TabInfo, bookmarks: &[BookmarkInfo], now: i64) -> (r:
        Vec<MatchInfo>)
        ensures
            matches_view(r@) == matches_for_tab(self.config, tab@, bookmarks_view(bookmarks@), now),
    {
        let ghost f = |b: BookmarkModel| match_of(self.config, tab@, b, now);
        let ghost bms = bookmarks_view(bookmarks@);
        let mut exact: Vec<MatchInfo> = Vec::new();
        let mut domain: Vec<MatchInfo> = Vec::new();
        let mut i: usize = 0;
        while i < bookmarks.len()
            invariant
                i <= bookmarks@.len(),
                bms == bookmarks_view(bookmarks@),
                f == (|b: BookmarkModel| match_of(self.config, tab@, b, now)),
                matches_view(exact@) == bms.take(i as int).filter_map(f).filter(
                    |m: MatchModel| is_exact(m),
                ),
                matches_view(domain@) == bms.take(i as int).filter_map(f).filter(
                    |m: MatchModel| is_not_exact(m),
                ),
            decreases bookmarks@.len() - i,
        {
            let ghost prev = bms.take(i as int).filter_map(f);
            let m = self.match_tab_bookmark(tab, &bookmarks[i], now);
            proof {
                bms.lemma_filter_map_take_succ(f, i as int);
                assert(bms[i as int] == bookmarks@[i as int]@);
            }
            match m {
                Some(mi) => {
                    let ghost mm = mi@;
                    assert(bms.take(i as int + 1).filter_map(f) == prev.push(mm));
                    proof {
                        prev.lemma_filter_push(mm, |m: MatchModel| is_exact(m));
                        prev.lemma_filter_push(mm, |m: MatchModel| is_not_exact(m));
                    }
                    if mi.match_type == MatchType::ExactUrl {
                        let ghost old_e = exact@;
                        exact.push(mi);
                        assert(matches_view(exact@) =~= matches_view(old_e).push(mm));
                    } else {
                        let ghost old_d = domain@;
                        domain.push(mi);
                        assert(matches_view(domain@) =~= matches_view(old_d).push(mm));
                    }
                },
                None => {
                    assert(bms.take(i as int + 1).filter_map(f) =~= prev);
                },
            }
            i += 1;
        }
        assert(bms.take(bookmarks@.len() as int) == bms);
        let ghost e = exact@;
        let ghost d = domain@;
        exact.append(&mut domain);
        assert(matches_view(exact@) =~= matches_view(e) + matches_view(d));
        exact
    }

    /// The bookmarks that match a tab, now: exact URL matches first, then
    /// domain matches, each in bookmark order.
    pub fn find_matches_for_tab(&self, tab: &TabInfo, bookmarks: &[BookmarkInfo]) -> (r: Vec<
        MatchInfo,
    >)
        ensures
            exists|now: i64|
                matches_view(r@) == matches_for_tab(
                    self.config,
                    tab@,
                    bookmarks_view(bookmarks@),
                    now,
                ),
    {
        let now = now_millis();
        self.find_matches_for_tab_at(tab, bookmarks, now)
    }

    /// The tabs that match a bookmark at time `now`: exact URL matches first,
    /// then domain matches, each in tab order.
    pub fn find_matches_for_bookmark_at(&self, bookmark: &BookmarkInfo, tabs: &[TabInfo], now: i64) -> (r:
        Vec<MatchInfo>)
        ensures
            matches_view(r@) == matches_for_bookmark(self.config, bookmark@, tabs_view(tabs@), now),
    {
        let ghost f = |t: TabModel| match_of(self.config, t, bookmark@, now);
        let ghost ts = tabs_view(tabs@);
        let mut exact: Vec<MatchInfo> = Vec::new();
        let mut domain: Vec<MatchInfo> = Vec::new();
        let mut i: usize = 0;
        while i < tabs.len()
            invariant
                i <= tabs@.len(),
                ts == tabs_view(tabs@),
                f == (|t: TabModel| match_of(self.config, t, bookmark@, now)),
                matches_view(exact@) == ts.take(i as int).filter_map(f).filter(
                    |m: MatchModel| is_exact(m),
                ),
                matches_view(domain@) == ts.take(i as int).filter_map(f).filter(
                    |m: MatchModel| is_not_exact(m),
                ),
            decreases tabs@.len() - i,
        {
            let ghost prev = ts.take(i as int).filter_map(f);
            let m = self.match_tab_bookmark(&tabs[i], bookmark, now);
            proof {
                ts.lemma_filter_map_take_succ(f, i as int);
                assert(ts[i as int] == tabs@[i as int]@);
            }
            match m {
                Some(mi) => {
                    let ghost mm = mi@;
                    assert(ts.take(i as int + 1).filter_map(f) == prev.push(mm));
                    proof {
                        prev.lemma_filter_push(mm, |m: MatchModel| is_exact(m));
                        prev.lemma_filter_push(mm, |m: MatchModel| is_not_exact(m));
                    }
                    if mi.match_type == MatchType::ExactUrl {
                        let ghost old_e = exact@;
                        exact.push(mi);
                        assert(matches_view(exact@) =~= matches_view(old_e).push(mm));
                    } else {
                        let ghost old_d = domain@;
                        domain.push(mi);
                        assert(matches_view(domain@) =~= matches_view(old_d).push(mm));
                    }
                },
                None => {
                    assert(ts.take(i as int + 1).filter_map(f) =~= prev);
                },
            }
            i += 1;
        }
        assert(ts.take(tabs@.len() as int) == ts);
        let ghost e = exact@;
        let ghost d = domain@;
        exact.append(&mut domain);
        assert(matches_view(exact@) =~= matches_view(e) + matches_view(d));
        exact
    }

    /// The tabs that match a bookmark, now.
    pub fn find_matches_for_bookmark(&self, bookmark: &BookmarkInfo, tabs: &[TabInfo]) -> (r: Vec<
        MatchInfo,
    >)
        ensures
            exists|now: i64|
                matches_view(r@) == matches_for_bookmark(
                    self.config,
                    bookmark@,
                    tabs_view(tabs@),
                    now,
                ),
    {
        let now = now_millis();
        self.find_matches_for_bookmark_at(bookmark, tabs, now)
    }

    /// The match map at time `now`: for each tab, in order, that matches some
    /// bookmark, its matches.
    pub fn build_match_map_at(&self, tabs: &[TabInfo], bookmarks: &[BookmarkInfo], now: i64) -> (r: Vec<
        TabMatches,
    >)
        ensures
            match_map_view(r@) == match_map_of(
                self.config,
                tabs_view(tabs@),
                bookmarks_view(bookmarks@),
                now,
            ),
    {
        let ghost cfg = self.config;
        let ghost bms = bookmarks_view(bookmarks@);
        let ghost ts = tabs_view(tabs@);
        let ghost f = |t: TabModel|
            if matches_for_tab(cfg, t, bms, now).len() > 0 {
                Some(TabMatchesModel { tab_id: t.id, matches: matches_for_tab(cfg, t, bms, now) })
            } else {
                None
            };
        let mut r: Vec<TabMatches> = Vec::new();
        let mut i: usize = 0;
        while i < tabs.len()
            invariant
                i <= tabs@.len(),
                cfg == self.config,
                bms == bookmarks_view(bookmarks@),
                ts == tabs_view(tabs@),
                f == (|t: TabModel|
                    if matches_for_tab(cfg, t, bms, now).len() > 0 {
                        Some(
                            TabMatchesModel {
                                tab_id: t.id,
                                matches: matches_for_tab(cfg, t, bms, now),
                            },
                        )
                    } else {
                        None
                    }),
                match_map_view(r@) == ts.take(i as int).filter_map(f),
            decreases tabs@.len() - i,
        {
            proof {
                ts.lemma_filter_map_take_succ(f, i as int);
                assert(ts[i as int] == tabs@[i as int]@);
            }
            let ms = self.find_matches_for_tab_at(&tabs[i], bookmarks, now);
            if ms.len() > 0 {
                let ghost old_r = r@;
                let e = TabMatches { tab_id: copy_string(&tabs[i].id), matches: ms };
                r.push(e);
                assert(match_map_view(r@) =~= match_map_view(old_r).push(r@[old_r.len() as int]@));
            } else {
                assert(ts.take(i as int + 1).filter_map(f) =~= ts.take(i as int).filter_map(f));
            }
            i += 1;
        }
        assert(ts.take(tabs@.len() as int) == ts);
        r
    }

    /// The match map, now.
    pub fn build_match_map(&self, tabs: &[TabInfo], bookmarks: &[BookmarkInfo]) -> (r: Vec<
        TabMatches,
    >)
        ensures
            exists|now: i64|
                match_map_view(r@) == match_map_of(
                    self.config,
                    tabs_view(tabs@),
                    bookmarks_view(bookmarks@),
                    now,
                ),
    {
        let now = now_millis();
        self.build_match_map_at(tabs, bookmarks, now)
    }

    /// The best match of a tab at time `now`: the first of its matches.
    pub fn get_best_match_for_tab_at(&self, tab: &TabInfo, bookmarks: &[BookmarkInfo], now: i64) -> (r:
        Option<MatchInfo>)
        ensures
            opt_match_view(r) == first_match(
                matches_for_tab(self.config, tab@, bookmarks_view(bookmarks@), now),
            ),
    {
        let ms = self.find_matches_for_tab_at(tab, bookmarks, now);
        if ms.len() > 0 {
            proof {
                assert(matches_view(ms@)[0] == ms@[0]@);
            }
            Some(ms[0].duplicate())
        } else {
            None
        }
    }

    /// The best match of a tab, now.
    pub fn get_best_match_for_tab(&self, tab: &TabInfo, bookmarks: &[BookmarkInfo]) -> (r: Option<
        MatchInfo,
    >)
        ensures
            exists|now: i64|
                opt_match_view(r) == first_match(
                    #[trigger] matches_for_tab(self.config, tab@, bookmarks_view(bookmarks@), now),
                ),
    {
        let now = now_millis();
        self.get_best_match_for_tab_at(tab, bookmarks, now)
    }

    /// Whether some bookmark matches the tab.
    pub fn tab_has_bookmark_match(&self, tab: &TabInfo, bookmarks: &[BookmarkInfo]) -> (r: bool)
        ensures
            r == exists|i: int|
                0 <= i < bookmarks@.len() && related(self.config, tab@, #[trigger] bookmarks@[i]@),
    {
        let mut i: usize = 0;
        while i < bookmarks.len()
            invariant
                i <= bookmarks@.len(),
                forall|j: int| 0 <= j < i ==> !related(self.config, tab@, #[trigger] bookmarks@[j]@),
            decreases bookmarks@.len() - i,
        {
            let b = &bookmarks[i];
            if (self.config.match_exact_url && self.urls_match_exact(&tab.url, &b.url)) || (
            self.config.match_domain && self.urls_match_domain(&tab.url, &b.url)) {
                assert(related(self.config, tab@, bookmarks@[i as int]@));
                return true;
            }
            i += 1;
        }
        false
    }
}

impl Default for TabBookmarkMatcher {
    fn default() -> (r: Self)
        ensures
            r.config.match_exact_url,
            r.config.match_domain,
            r.config.match_content,
            r.config.normalize_urls,
            r.config.content_similarity_threshold_percent == 70,
    {
        Self::new()
    }
}

/// The first of a list of matches, if any.
pub open spec fn first_match(ms: Seq<MatchModel>) -> Option<MatchModel> {
    if ms.len() > 0 {
        Some(ms[0])
    } else {
        None
    }
}

/// Whether a tab and a bookmark match at all, by URL or by domain.
pub open spec fn related(cfg: MatcherConfig, tab: TabModel, bm: BookmarkModel) -> bool {
    (cfg.match_exact_url && normalized_url(cfg.normalize_urls, tab.url) == normalized_url(
        cfg.normalize_urls,
        bm.url,
    )) || (cfg.match_domain && same_domain(tab.url, bm.url))
}

/// The view of an optional match.
pub open spec fn opt_match_view(m: Option<MatchInfo>) -> Option<MatchModel> {
    match m {
        Some(x) => Some(x@),
        None => None,
    }
}

// ---------------------------------------------------------------------------
// Content change detection
// ---------------------------------------------------------------------------

/// What changed between a tab and the bookmark that it matches exactly.
#[derive(Clone, Debug)]
pub struct ContentChangeDetection {
    pub tab_id: String,
    pub bookmark_id: String,
    pub title_changed: bool,
    pub favicon_changed: bool,
    /// The title of the bookmark.
    pub old_title: String,
    /// The title of the tab.
    pub new_title: String,
    /// The icon of the bookmark.
    pub old_favicon: Option<String>,
    /// The icon of the tab.
    pub new_favicon: Option<String>,
}

/// The mathematical value of a [`ContentChangeDetection`].
pub ghost struct DetectionModel {
    pub tab_id: Seq<char>,
    pub bookmark_id: Seq<char>,
    pub title_changed: bool,
    pub favicon_changed: bool,
    pub old_title: Seq<char>,
    pub new_title: Seq<char>,
    pub old_favicon: Option<Seq<char>>,
    pub new_favicon: Option<Seq<char>>,
}

impl View for ContentChangeDetection {
    type V = DetectionModel;

    open spec fn view(&self) -> DetectionModel {
        DetectionModel {
            tab_id: self.tab_id@,
            bookmark_id: self.bookmark_id@,
            title_changed: self.title_changed,
            favicon_changed: self.favicon_changed,
            old_title: self.old_title@,
            new_title: self.new_title@,
            old_favicon: opt_view(self.old_favicon),
            new_favicon: opt_view(self.new_favicon),
        }
    }
}

impl ContentChangeDetection {
    /// Whether the title or the icon changed.
    pub fn has_changes(&self) -> (r: bool)
        ensures
            r == (self.title_changed || self.favicon_changed),
    {
        self.title_changed || self.favicon_changed
    }

    /// A copy of this detection.
    pub fn duplicate(&self) -> (r: ContentChangeDetection)
        ensures
            r@ == self@,
    {
        ContentChangeDetection {
            tab_id: copy_string(&self.tab_id),
            bookmark_id: copy_string(&self.bookmark_id),
            title_changed: self.title_changed,
            favicon_changed: self.favicon_changed,
            old_title: copy_string(&self.old_title),
            new_title: copy_string(&self.new_title),
            old_favicon: copy_opt_string(&self.old_favicon),
            new_favicon: copy_opt_string(&self.new_favicon),
        }
    }
}

/// The comparison of a tab with a bookmark.
pub open spec fn detection_of(tab: TabModel, bm: BookmarkModel) -> DetectionModel {
    DetectionModel {
        tab_id: tab.id,
        bookmark_id: bm.id,
        title_changed: tab.title != bm.title,
        favicon_changed: tab.favicon_url != bm.favicon_url,
        old_title: bm.title,
        new_title: tab.title,
        old_favicon: bm.favicon_url,
        new_favicon: tab.favicon_url,
    }
}

/// Whether a detection found a change.
pub open spec fn detection_has_changes(d: DetectionModel) -> bool {
    d.title_changed || d.favicon_changed
}

/// The index of the last tab with the given id, as a map keyed by id holds it.
pub open spec fn last_tab_index(tabs: Seq<TabModel>, id: Seq<char>) -> Option<int>
    decreases tabs.len(),
{
    if tabs.len() == 0 {
        None
    } else if tabs.last().id == id {
        Some(tabs.len() - 1)
    } else {
        last_tab_index(tabs.drop_last(), id)
    }
}

/// The index of the last bookmark with the given id.
pub open spec fn last_bookmark_index(bms: Seq<BookmarkModel>, id: Seq<char>) -> Option<int>
    decreases bms.len(),
{
    if bms.len() == 0 {
        None
    } else if bms.last().id == id {
        Some(bms.len() - 1)
    } else {
        last_bookmark_index(bms.drop_last(), id)
    }
}

/// `last_tab_index` is a valid index of a tab with that id.
pub proof fn lemma_last_tab_index(tabs: Seq<TabModel>, id: Seq<char>)
    ensures
        last_tab_index(tabs, id) matches Some(k) ==> 0 <= k < tabs.len() && tabs[k].id == id,
    decreases tabs.len(),
{
    if tabs.len() > 0 && tabs.last().id != id {
        lemma_last_tab_index(tabs.drop_last(), id);
    }
}

/// `last_bookmark_index` is a valid index of a bookmark with that id.
pub proof fn lemma_last_bookmark_index(bms: Seq<BookmarkModel>, id: Seq<char>)
    ensures
        last_bookmark_index(bms, id) matches Some(k) ==> 0 <= k < bms.len() && bms[k].id == id,
    decreases bms.len(),
{
    if bms.len() > 0 && bms.last().id != id {
        lemma_last_bookmark_index(bms.drop_last(), id);
    }
}

/// The position of the last tab with the given id.
pub fn find_tab_index(tabs: &[TabInfo], id: &String) -> (r: Option<usize>)
    ensures
        match r {
            Some(k) => last_tab_index(tabs_view(tabs@), id@) == Some(k as int),
            None => last_tab_index(tabs_view(tabs@), id@) is None,
        },
{
    let ghost ts = tabs_view(tabs@);
    let mut n = tabs.len();
    assert(ts.take(n as int) == ts);
    while n > 0
        invariant
            n <= tabs@.len(),
            ts == tabs_view(tabs@),
            last_tab_index(ts.take(n as int), id@) == last_tab_index(ts, id@),
        decreases n,
    {
        assert(ts.take(n as int).last() == tabs@[n - 1]@);
        if tabs[n - 1].id == *id {
            return Some(n - 1);
        }
        assert(ts.take(n as int).drop_last() == ts.take(n - 1));
        n -= 1;
    }
    None
}

/// The position of the last bookmark with the given id.
pub fn find_bookmark_index(bms: &[BookmarkInfo], id: &String) -> (r: Option<usize>)
    ensures
        match r {
            Some(k) => last_bookmark_index(bookmarks_view(bms@), id@) == Some(k as int),
            None => last_bookmark_index(bookmarks_view(bms@), id@) is None,
        },
{
    let ghost bs = bookmarks_view(bms@);
    let mut n = bms.len();
    assert(bs.take(n as int) == bs);
    while n > 0
        invariant
            n <= bms@.len(),
            bs == bookmarks_view(bms@),
            last_bookmark_index(bs.take(n as int), id@) == last_bookmark_index(bs, id@),
        decreases n,
    {
        assert(bs.take(n as int).last() == bms@[n - 1]@);
        if bms[n - 1].id == *id {
            return Some(n - 1);
        }
        assert(bs.take(n as int).drop_last() == bs.take(n - 1));
        n -= 1;
    }
    None
}

/// The detection for one exact match of a tab, where the bookmark is known
/// and something changed.
pub open spec fn change_for_match(tab: TabModel, bms: Seq<BookmarkModel>, m: MatchModel) -> Option<
    DetectionModel,
> {
    if m.match_type == MatchType::ExactUrl {
        match last_bookmark_index(bms, m.bookmark_id) {
            Some(k) => if detection_has_changes(detection_of(tab, bms[k])) {
                Some(detection_of(tab, bms[k]))
            } else {
                None
            },
            None => None,
        }
    } else {
        None
    }
}

/// The detected changes of one entry of a match map.
pub open spec fn changes_for_entry(
    tabs: Seq<TabModel>,
    bms: Seq<BookmarkModel>,
    e: TabMatchesModel,
) -> Seq<DetectionModel> {
    match last_tab_index(tabs, e.tab_id) {
        Some(t) => e.matches.filter_map(|m: MatchModel| change_for_match(tabs[t], bms, m)),
        None => seq![],
    }
}

/// The detected changes of all entries of a match map, entry by entry.
pub open spec fn all_changes(
    tabs: Seq<TabModel>,
    bms: Seq<BookmarkModel>,
    entries: Seq<TabMatchesModel>,
) -> Seq<DetectionModel>
    decreases entries.len(),
{
    if entries.len() == 0 {
        seq![]
    } else {
        all_changes(tabs, bms, entries.drop_last()) + changes_for_entry(tabs, bms, entries.last())
    }
}

/// The views of a sequence of detections.
pub open spec fn detections_view(v: Seq<ContentChangeDetection>) -> Seq<DetectionModel> {
    v.map_values(|d: ContentChangeDetection| d@)
}

/// Compares tabs with their bookmarks.
pub struct ContentChangeDetector;

impl ContentChangeDetector {
    /// The comparison of a tab with a bookmark.
    pub fn detect_changes(tab: &TabInfo, bookmark: &BookmarkInfo) -> (r: ContentChangeDetection)
        ensures
            r@ == detection_of(tab@, bookmark@),
    {
        let title_changed = tab.title != bookmark.title;
        let favicon_changed = !opt_string_eq(&tab.favicon_url, &bookmark.favicon_url);
        ContentChangeDetection {
            tab_id: copy_string(&tab.id),
            bookmark_id: copy_string(&bookmark.id),
            title_changed,
            favicon_changed,
            old_title: copy_string(&bookmark.title),
            new_title: copy_string(&tab.title),
            old_favicon: copy_opt_string(&bookmark.favicon_url),
            new_favicon: copy_opt_string(&tab.favicon_url),
        }
    }

    /// The changes between tabs and the bookmarks that they match exactly,
    /// for each entry of the match map in turn: only pairs whose tab and
    /// bookmark are known and differ.
    pub fn detect_all_changes(
        tabs: &[TabInfo],
        bookmarks: &[BookmarkInfo],
        matches: &[TabMatches],
    ) -> (r: Vec<ContentChangeDetection>)
        ensures
            detections_view(r@) == all_changes(
                tabs_view(tabs@),
                bookmarks_view(bookmarks@),
                match_map_view(matches@),
            ),
    {
        let ghost ts = tabs_view(tabs@);
        let ghost bs = bookmarks_view(bookmarks@);
        let ghost es = match_map_view(matches@);
        let mut r: Vec<ContentChangeDetection> = Vec::new();
        let mut i: usize = 0;
        while i < matches.len()
            invariant
                i <= matches@.len(),
                ts == tabs_view(tabs@),
                bs == bookmarks_view(bookmarks@),
                es == match_map_view(matches@),
                detections_view(r@) == all_changes(ts, bs, es.take(i as int)),
            decreases matches@.len() - i,
        {
            let entry = &matches[i];
            assert(es.take(i as int + 1).drop_last() == es.take(i as int));
            assert(es.take(i as int + 1).last() == entry@);
            match find_tab_index(tabs, &entry.tab_id) {
                Some(t) => {
                    proof {
                        lemma_last_tab_index(ts, entry.tab_id@);
                        assert(ts[t as int] == tabs@[t as int]@);
                    }
                    let ghost g = |m: MatchModel| change_for_match(ts[t as int], bs, m);
                    let ghost ms = matches_view(entry.matches@);
                    let ghost base = detections_view(r@);
                    let mut j: usize = 0;
                    while j < entry.matches.len()
                        invariant
                            j <= entry.matches@.len(),
                            ms == matches_view(entry.matches@),
                            bs == bookmarks_view(bookmarks@),
                            ts == tabs_view(tabs@),
                            t < tabs@.len(),
                            ts[t as int] == tabs@[t as int]@,
                            g == (|m: MatchModel| change_for_match(ts[t as int], bs, m)),
                            detections_view(r@) == base + ms.take(j as int).filter_map(g),
                        decreases entry.matches@.len() - j,
                    {
                        let m = &entry.matches[j];
                        proof {
                            ms.lemma_filter_map_take_succ(g, j as int);
                            assert(ms[j as int] == m@);
                        }
                        let mut pushed = false;
                        if m.match_type == MatchType::ExactUrl {
                            match find_bookmark_index(bookmarks, &m.bookmark_id) {
                                Some(b) => {
                                    proof {
                                        lemma_last_bookmark_index(bs, m.bookmark_id@);
                                        assert(bs[b as int] == bookmarks@[b as int]@);
                                    }
                                    let d = Self::detect_changes(&tabs[t], &bookmarks[b]);
                                    if d.has_changes() {
                                        let ghost old_r = r@;
                                        r.push(d);
                                        pushed = true;
                                        assert(detections_view(r@) =~= detections_view(old_r).push(
                                            d@,
                                        ));
                                    }
                                },
                                None => {},
                            }
                        }
                        if !pushed {
                            assert(ms.take(j as int + 1).filter_map(g) =~= ms.take(j as int).filter_map(g));
                        }
                        j += 1;
                    }
                    assert(ms.take(entry.matches@.len() as int) == ms);
                },
                None => {},
            }
            i += 1;
        }
        assert(es.take(matches@.len() as int) == es);
        r
    }
}

/// Whether two optional strings are equal.
pub fn opt_string_eq(a: &Option<String>, b: &Option<String>) -> (r: bool)
    ensures
        r == (opt_view(*a) == opt_view(*b)),
{
    match (a, b) {
        (Some(x), Some(y)) => *x == *y,
        (None, None) => true,
        _ => false,
    }
}

// ---------------------------------------------------------------------------
// Laws
// ---------------------------------------------------------------------------

/// A match as `match_of` makes them: exact matches have confidence 100,
/// domain matches 50.
pub open spec fn well_formed_match(m: MatchModel) -> bool {
    (m.match_type == MatchType::ExactUrl && m.confidence_percent == 100) || (m.match_type
        == MatchType::SameDomain && m.confidence_percent == 50)
}

proof fn lemma_matches_well_formed(
    cfg: MatcherConfig,
    tab: TabModel,
    bms: Seq<BookmarkModel>,
    now: i64,
)
    ensures
        forall|k: int|
            0 <= k < raw_matches(cfg, tab, bms, now).len() ==> well_formed_match(
                #[trigger] raw_matches(cfg, tab, bms, now)[k],
            ),
    decreases bms.len(),
{
    if bms.len() > 0 {
        lemma_matches_well_formed(cfg, tab, bms.drop_last(), now);
        assert(raw_matches(cfg, tab, bms, now) == raw_matches(cfg, tab, bms.drop_last(), now) + match match_of(cfg, tab, bms.last(), now) {
            Some(m) => seq![m],
            None => Seq::<MatchModel>::empty(),
        });
    }
}

/// A match has a match exactly where the tab and bookmark are related.
pub proof fn law_match_iff_related(cfg: MatcherConfig, tab: TabModel, bm: BookmarkModel, now: i64)
    ensures
        match_of(cfg, tab, bm, now) is Some <==> related(cfg, tab, bm),
{
}

/// The matches of a tab are ordered by confidence, highest first.
pub proof fn law_matches_sorted_by_confidence(
    cfg: MatcherConfig,
    tab: TabModel,
    bms: Seq<BookmarkModel>,
    now: i64,
)
    ensures
        forall|i: int, j: int|
            0 <= i < j < matches_for_tab(cfg, tab, bms, now).len() ==> (#[trigger] matches_for_tab(
                cfg,
                tab,
                bms,
                now,
            )[i]).confidence_percent >= (#[trigger] matches_for_tab(cfg, tab, bms, now)[j]).confidence_percent,
{
    let ms = raw_matches(cfg, tab, bms, now);
    let pe = |m: MatchModel| is_exact(m);
    let pn = |m: MatchModel| is_not_exact(m);
    let e = ms.filter(pe);
    let n = ms.filter(pn);
    lemma_matches_well_formed(cfg, tab, bms, now);
    assert forall|k: int| 0 <= k < e.len() implies #[trigger] e[k].confidence_percent == 100 by {
        ms.lemma_filter_pred(pe, k);
        assert(ms.filter(pe).contains(ms.filter(pe)[k]));
        ms.lemma_filter_contains_rev(pe, ms.filter(pe)[k]);
        let w = choose|w: int| 0 <= w < ms.len() && ms[w] == e[k];
        assert(well_formed_match(ms[w]));
    }
    assert forall|k: int| 0 <= k < n.len() implies #[trigger] n[k].confidence_percent == 50 by {
        ms.lemma_filter_pred(pn, k);
        assert(ms.filter(pn).contains(ms.filter(pn)[k]));
        ms.lemma_filter_contains_rev(pn, ms.filter(pn)[k]);
        let w = choose|w: int| 0 <= w < ms.len() && ms[w] == n[k];
        assert(well_formed_match(ms[w]));
    }
    let all = e + n;
    assert(all == matches_for_tab(cfg, tab, bms, now));
    assert forall|i: int, j: int| 0 <= i < j < all.len() implies #[trigger] all[i].confidence_percent
        >= #[trigger] all[j].confidence_percent by {
        if i < e.len() {
            assert(all[i] == e[i]);
        } else {
            assert(all[i] == n[i - e.len()]);
            assert(all[j] == n[j - e.len()]);
        }
        if j < e.len() {
            assert(all[j] == e[j]);
        } else {
            assert(all[j] == n[j - e.len()]);
        }
    }
}

/// The matches of a bookmark with tabs, in the tabs' order.
spec fn raw_bookmark_matches(cfg: MatcherConfig, bm: BookmarkModel, tabs: Seq<TabModel>, now: i64) -> Seq<
    MatchModel,
> {
    tabs.filter_map(|t: TabModel| match_of(cfg, t, bm, now))
}

proof fn lemma_bookmark_matches_well_formed(
    cfg: MatcherConfig,
    bm: BookmarkModel,
    tabs: Seq<TabModel>,
    now: i64,
)
    ensures
        forall|k: int|
            0 <= k < raw_bookmark_matches(cfg, bm, tabs, now).len() ==> well_formed_match(
                #[trigger] raw_bookmark_matches(cfg, bm, tabs, now)[k],
            ),
    decreases tabs.len(),
{
    if tabs.len() > 0 {
        lemma_bookmark_matches_well_formed(cfg, bm, tabs.drop_last(), now);
        assert(raw_bookmark_matches(cfg, bm, tabs, now) == raw_bookmark_matches(cfg, bm, tabs.drop_last(), now)
            + match match_of(cfg, tabs.last(), bm, now) {
            Some(m) => seq![m],
            None => Seq::<MatchModel>::empty(),
        });
    }
}

/// The matches of a bookmark come highest confidence first: no match has
/// more confidence than one before it, and every exact URL match comes
/// before every other match.
pub proof fn law_bookmark_matches_sorted_by_confidence(
    cfg: MatcherConfig,
    bm: BookmarkModel,
    tabs: Seq<TabModel>,
    now: i64,
)
    ensures
        forall|i: int, j: int|
            #![trigger matches_for_bookmark(cfg, bm, tabs, now)[i], matches_for_bookmark(cfg, bm, tabs, now)[j]]
            0 <= i < j < matches_for_bookmark(cfg, bm, tabs, now).len() ==> {
                let r = matches_for_bookmark(cfg, bm, tabs, now);
                &&& r[i].confidence_percent >= r[j].confidence_percent
                &&& r[j].match_type == MatchType::ExactUrl ==> r[i].match_type == MatchType::ExactUrl
            },
{
    let ms = raw_bookmark_matches(cfg, bm, tabs, now);
    let pe = |m: MatchModel| is_exact(m);
    let pn = |m: MatchModel| is_not_exact(m);
    let e = ms.filter(pe);
    let n = ms.filter(pn);
    lemma_bookmark_matches_well_formed(cfg, bm, tabs, now);
    assert forall|k: int| 0 <= k < e.len() implies #[trigger] e[k].confidence_percent == 100
        && e[k].match_type == MatchType::ExactUrl by {
        ms.lemma_filter_pred(pe, k);
        assert(ms.filter(pe).contains(ms.filter(pe)[k]));
        ms.lemma_filter_contains_rev(pe, ms.filter(pe)[k]);
        let w = choose|w: int| 0 <= w < ms.len() && ms[w] == e[k];
        assert(well_formed_match(ms[w]));
    }
    assert forall|k: int| 0 <= k < n.len() implies #[trigger] n[k].confidence_percent == 50
        && n[k].match_type != MatchType::ExactUrl by {
        ms.lemma_filter_pred(pn, k);
        assert(ms.filter(pn).contains(ms.filter(pn)[k]));
        ms.lemma_filter_contains_rev(pn, ms.filter(pn)[k]);
        let w = choose|w: int| 0 <= w < ms.len() && ms[w] == n[k];
        assert(well_formed_match(ms[w]));
    }
    let all = e + n;
    assert(all == matches_for_bookmark(cfg, bm, tabs, now));
    assert forall|i: int, j: int| 0 <= i < j < all.len() implies #[trigger] all[i].confidence_percent
        >= #[trigger] all[j].confidence_percent && (all[j].match_type == MatchType::ExactUrl
        ==> all[i].match_type == MatchType::ExactUrl) by {
        if i < e.len() {
            assert(all[i] == e[i]);
        } else {
            assert(all[i] == n[i - e.len()]);
            assert(all[j] == n[j - e.len()]);
        }
        if j < e.len() {
            assert(all[j] == e[j]);
        } else {
            assert(all[j] == n[j - e.len()]);
        }
    }
}

/// A tab has a bookmark match exactly when its list of matches is not empty.
pub proof fn law_has_match_iff_matches_nonempty(
    cfg: MatcherConfig,
    tab: TabModel,
    bms: Seq<BookmarkModel>,
    now: i64,
)
    ensures
        (exists|i: int| 0 <= i < bms.len() && related(cfg, tab, #[trigger] bms[i])) <==> matches_for_tab(
            cfg,
            tab,
            bms,
            now,
        ).len() > 0,
    decreases bms.len(),
{
    let ms = raw_matches(cfg, tab, bms, now);
    let pe = |m: MatchModel| is_exact(m);
    let pn = |m: MatchModel| is_not_exact(m);
    ms.lemma_filter_len(pe);
    ms.lemma_filter_len(pn);
    if ms.len() > 0 {
        if is_exact(ms[0]) {
            ms.lemma_filter_contains(pe, 0);
        } else {
            ms.lemma_filter_contains(pn, 0);
        }
    }
    lemma_filter_map_nonempty(cfg, tab, bms, now);
}

proof fn lemma_filter_map_nonempty(cfg: MatcherConfig, tab: TabModel, bms: Seq<BookmarkModel>, now: i64)
    ensures
        (exists|i: int| 0 <= i < bms.len() && related(cfg, tab, #[trigger] bms[i])) <==> raw_matches(
            cfg,
            tab,
            bms,
            now,
        ).len() > 0,
    decreases bms.len(),
{
    if bms.len() > 0 {
        let rest = bms.drop_last();
        lemma_filter_map_nonempty(cfg, tab, rest, now);
        assert(raw_matches(cfg, tab, bms, now) == raw_matches(cfg, tab, rest, now) + match match_of(cfg, tab, bms.last(), now) {
            Some(m) => seq![m],
            None => Seq::<MatchModel>::empty(),
        });
        if exists|i: int| 0 <= i < bms.len() && related(cfg, tab, #[trigger] bms[i]) {
            let i = choose|i: int| 0 <= i < bms.len() && related(cfg, tab, #[trigger] bms[i]);
            if i < bms.len() - 1 {
                assert(rest[i] == bms[i]);
            }
        }
        if exists|i: int| 0 <= i < rest.len() && related(cfg, tab, #[trigger] rest[i]) {
            let i = choose|i: int| 0 <= i < rest.len() && related(cfg, tab, #[trigger] rest[i]);
            assert(bms[i] == rest[i]);
        }
    }
}


/// A tab and a bookmark with the same URL match exactly, with full
/// confidence, where exact matching is on: the bookmark's match comes
/// first among the tab's matches.
pub proof fn law_same_url_matches_exactly(
    cfg: MatcherConfig,
    tab: TabModel,
    bm: BookmarkModel,
    now: i64,
)
    requires
        cfg.match_exact_url,
        tab.url == bm.url,
    ensures
        matches_for_tab(cfg, tab, seq![bm], now) == seq![
            MatchModel {
                tab_id: tab.id,
                bookmark_id: bm.id,
                match_type: MatchType::ExactUrl,
                confidence_percent: 100,
                matched_at: now,
            },
        ],
{
    let m = MatchModel {
        tab_id: tab.id,
        bookmark_id: bm.id,
        match_type: MatchType::ExactUrl,
        confidence_percent: 100,
        matched_at: now,
    };
    let f = |b: BookmarkModel| match_of(cfg, tab, b, now);
    Seq::<BookmarkModel>::lemma_filter_map_singleton(bm, f);
    assert(raw_matches(cfg, tab, seq![bm], now) == seq![m]);
    let pe = |x: MatchModel| is_exact(x);
    let pn = |x: MatchModel| is_not_exact(x);
    reveal(Seq::filter);
    assert(seq![m].filter(pe) == seq![m]) by {
        seq![m].lemma_filter_prepend(m, pe);
        assert(Seq::<MatchModel>::empty().push(m) == seq![m]);
        Seq::<MatchModel>::empty().lemma_filter_push(m, pe);
    }
    assert(seq![m].filter(pn) == Seq::<MatchModel>::empty()) by {
        Seq::<MatchModel>::empty().lemma_filter_push(m, pn);
        assert(Seq::<MatchModel>::empty().push(m) == seq![m]);
    }
}

/// A tab compared with a bookmark that has its favicon shows a change
/// exactly where the titles differ, and records both titles.
pub proof fn law_change_detected_iff_titles_differ(tab: TabModel, bm: BookmarkModel)
    requires
        tab.favicon_url == bm.favicon_url,
    ensures
        detection_of(tab, bm).title_changed <==> tab.title != bm.title,
        detection_has_changes(detection_of(tab, bm)) <==> tab.title != bm.title,
        detection_of(tab, bm).old_title == bm.title,
        detection_of(tab, bm).new_title == tab.title,
{
}

} // verus!
