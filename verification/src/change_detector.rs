//! Detection of changes in archived pages: word-set similarity, the kind of
//! change, notifications awaiting the user's choice, and the bounded version
//! history of each page.

use vstd::prelude::*;
use crate::model::ContentArchive;
use crate::digest::{checksum, fnv_checksum};
use crate::matcher::{decimal, push_chars, push_decimal, push_str_chars};
use crate::text::{
    chars_eq, chars_of, copy_string, is_whitespace, opt_view, split_words, string_from_chars,
    words,
};

verus! {

// ---------------------------------------------------------------------------
// Words, lines and their distinct elements
// ---------------------------------------------------------------------------

/// The views of a sequence of character vectors.
pub open spec fn char_vecs(v: Seq<Vec<char>>) -> Seq<Seq<char>> {
    v.map_values(|x: Vec<char>| x@)
}

/// The elements of `s`, each once, in the order of their first occurrence.
pub open spec fn distinct(s: Seq<Seq<char>>) -> Seq<Seq<char>>
    decreases s.len(),
{
    if s.len() == 0 {
        seq![]
    } else {
        let d = distinct(s.drop_last());
        if d.contains(s.last()) {
            d
        } else {
            d.push(s.last())
        }
    }
}

/// `distinct(s)` holds the elements of `s`, each once.
pub proof fn lemma_distinct(s: Seq<Seq<char>>)
    ensures
        forall|w: Seq<char>| distinct(s).contains(w) <==> s.contains(w),
        distinct(s).no_duplicates(),
    decreases s.len(),
{
    if s.len() > 0 {
        lemma_distinct(s.drop_last());
        let d = distinct(s.drop_last());
        assert forall|w: Seq<char>| distinct(s).contains(w) <==> s.contains(w) by {
            if s.contains(w) {
                let k = choose|k: int| 0 <= k < s.len() && s[k] == w;
                if k < s.len() - 1 {
                    assert(s.drop_last()[k] == w);
                }
            }
            if s.drop_last().contains(w) {
                let k = choose|k: int| 0 <= k < s.drop_last().len() && s.drop_last()[k] == w;
                assert(s[k] == w);
            }
            if !d.contains(s.last()) {
                if distinct(s).contains(w) && w != s.last() {
                    let k = choose|k: int| 0 <= k < distinct(s).len() && distinct(s)[k] == w;
                    assert(d[k] == w);
                }
                if d.contains(w) {
                    let k = choose|k: int| 0 <= k < d.len() && d[k] == w;
                    assert(distinct(s)[k] == w);
                }
                assert(distinct(s)[d.len() as int] == s.last());
            }
            assert(s[s.len() - 1] == s.last());
        }
    }
}

/// Whether `w` is one of the vectors of `list`.
pub fn contains_chars_vec(list: &[Vec<char>], w: &[char]) -> (r: bool)
    ensures
        r == char_vecs(list@).contains(w@),
{
    let ghost lv = char_vecs(list@);
    let mut i: usize = 0;
    while i < list.len()
        invariant
            i <= list@.len(),
            lv == char_vecs(list@),
            forall|k: int| 0 <= k < i ==> lv[k] != w@,
        decreases list@.len() - i,
    {
        if chars_eq(&list[i], w) {
            assert(lv[i as int] == w@);
            return true;
        }
        i += 1;
    }
    false
}

/// The elements of `v`, each once, in the order of their first occurrence.
pub fn distinct_vecs(v: &[Vec<char>]) -> (r: Vec<Vec<char>>)
    ensures
        char_vecs(r@) == distinct(char_vecs(v@)),
{
    let ghost vv = char_vecs(v@);
    let mut r: Vec<Vec<char>> = Vec::new();
    let mut i: usize = 0;
    assert(vv.take(0) =~= Seq::<Seq<char>>::empty());
    assert(char_vecs(r@) =~= Seq::<Seq<char>>::empty());
    while i < v.len()
        invariant
            i <= v@.len(),
            vv == char_vecs(v@),
            char_vecs(r@) == distinct(vv.take(i as int)),
        decreases v@.len() - i,
    {
        assert(vv.take(i as int + 1).drop_last() == vv.take(i as int));
        assert(vv.take(i as int + 1).last() == v@[i as int]@);
        if !contains_chars_vec(&r, &v[i]) {
            let ghost o = char_vecs(r@);
            r.push(v[i].clone());
            assert(char_vecs(r@) =~= o.push(v@[i as int]@));
        }
        i += 1;
    }
    assert(vv.take(v@.len() as int) == vv);
    r
}

/// The lines of `s` (`str::lines`): split at each line feed, a carriage
/// return just before it removed, and no empty line after a final line feed.
pub open spec fn lines(s: Seq<char>) -> Seq<Seq<char>> {
    lines_acc(s, seq![])
}

/// `cur` without a final carriage return.
pub open spec fn strip_cr(cur: Seq<char>) -> Seq<char> {
    if cur.len() > 0 && cur.last() == '\r' {
        cur.drop_last()
    } else {
        cur
    }
}

/// `lines` of `s`, where `cur` is the unfinished line that precedes it.
pub open spec fn lines_acc(s: Seq<char>, cur: Seq<char>) -> Seq<Seq<char>>
    decreases s.len(),
{
    if s.len() == 0 {
        if cur.len() == 0 {
            seq![]
        } else {
            seq![cur]
        }
    } else if s[0] == '\n' {
        seq![strip_cr(cur)] + lines_acc(s.drop_first(), seq![])
    } else {
        lines_acc(s.drop_first(), cur.push(s[0]))
    }
}

/// The lines of a text.
pub fn split_lines(s: &[char]) -> (r: Vec<Vec<char>>)
    ensures
        char_vecs(r@) == lines(s@),
{
    let mut r: Vec<Vec<char>> = Vec::new();
    let mut cur: Vec<char> = Vec::new();
    let mut i: usize = 0;
    assert(s@.skip(0) == s@);
    assert(char_vecs(r@) + lines_acc(s@.skip(0), cur@) =~= lines(s@));
    while i < s.len()
        invariant
            i <= s@.len(),
            char_vecs(r@) + lines_acc(s@.skip(i as int), cur@) == lines(s@),
        decreases s@.len() - i,
    {
        let c = s[i];
        assert(s@.skip(i as int)[0] == c);
        assert(s@.skip(i as int).drop_first() == s@.skip(i as int + 1));
        if c == '\n' {
            let ghost o = char_vecs(r@);
            let ghost oc = cur@;
            if cur.len() > 0 && cur[cur.len() - 1] == '\r' {
                cur.pop();
            }
            assert(cur@ == strip_cr(oc));
            r.push(cur);
            cur = Vec::new();
            assert(char_vecs(r@) =~= o.push(strip_cr(oc)));
            assert(o + (seq![strip_cr(oc)] + lines_acc(s@.skip(i as int + 1), seq![])) =~= o.push(
                strip_cr(oc),
            ) + lines_acc(s@.skip(i as int + 1), seq![]));
            assert(cur@ =~= Seq::<char>::empty());
        } else {
            cur.push(c);
        }
        i += 1;
    }
    if cur.len() > 0 {
        let ghost o = char_vecs(r@);
        let ghost oc = cur@;
        r.push(cur);
        assert(char_vecs(r@) =~= o + seq![oc]);
    } else {
        assert(char_vecs(r@) + seq![] =~= char_vecs(r@));
    }
    r
}

// ---------------------------------------------------------------------------
// Similarity
// ---------------------------------------------------------------------------

/// A similarity as an exact fraction `shared / total` of word sets.
#[derive(Clone, Copy, Debug, PartialEq, Eq, Structural)]
pub struct Similarity {
    pub shared: u128,
    pub total: u128,
}

impl Similarity {
    /// Whether this similarity is at least `num / den`.
    pub open spec fn at_least(self, num: int, den: int) -> bool {
        self.shared * den >= num * self.total
    }
}

/// The number of distinct words that the two texts share.
pub open spec fn shared_words(old_text: Seq<char>, new_text: Seq<char>) -> nat {
    distinct(words(old_text)).filter(|w: Seq<char>| words(new_text).contains(w)).len()
}

/// The word-set (Jaccard) similarity of two texts: equal texts are
/// identical; a text and an empty one have nothing in common; else the
/// number of shared distinct words over the number of distinct words of both
/// (two texts without words are identical).
pub open spec fn similarity_of(old_text: Seq<char>, new_text: Seq<char>) -> (int, int) {
    if old_text == new_text {
        (1, 1)
    } else if old_text.len() == 0 || new_text.len() == 0 {
        (0, 1)
    } else {
        let shared = shared_words(old_text, new_text) as int;
        let union = distinct(words(old_text)).len() + distinct(words(new_text)).len() - shared;
        if union == 0 {
            (1, 1)
        } else {
            (shared, union)
        }
    }
}

/// The shared words never outnumber the distinct words of either text.
pub proof fn lemma_shared_words_bound(old_text: Seq<char>, new_text: Seq<char>)
    ensures
        shared_words(old_text, new_text) <= distinct(words(old_text)).len(),
        shared_words(old_text, new_text) <= distinct(words(new_text)).len(),
{
    let p = |w: Seq<char>| words(new_text).contains(w);
    let a = distinct(words(old_text));
    let b = distinct(words(new_text));
    let f = a.filter(p);
    a.lemma_filter_len(p);
    lemma_distinct(words(old_text));
    lemma_distinct(words(new_text));
    lemma_filter_no_duplicates(a, p);
    f.unique_seq_to_set();
    b.unique_seq_to_set();
    assert forall|w: Seq<char>| f.to_set().contains(w) implies b.to_set().contains(w) by {
        let k = choose|k: int| 0 <= k < f.len() && f[k] == w;
        a.lemma_filter_pred(p, k);
    }
    vstd::set_lib::lemma_len_subset(f.to_set(), b.to_set());
}

/// Filtering keeps a sequence free of duplicates.
proof fn lemma_filter_no_duplicates<A>(s: Seq<A>, p: spec_fn(A) -> bool)
    requires
        s.no_duplicates(),
    ensures
        s.filter(p).no_duplicates(),
    decreases s.len(),
{
    if s.len() > 0 {
        let t = s.drop_last();
        assert(t.no_duplicates());
        lemma_filter_no_duplicates(t, p);
        assert(s == t.push(s.last()));
        t.lemma_filter_push(s.last(), p);
        if p(s.last()) {
            if t.filter(p).contains(s.last()) {
                t.lemma_filter_contains_rev(p, s.last());
                let k = choose|k: int| 0 <= k < t.len() && t[k] == s.last();
                assert(s[k] == s[s.len() - 1]);
            }
        }
    }
}

/// A similarity lies between none and full: its count of shared words never
/// exceeds its total, and the total is positive.
pub proof fn law_similarity_within_unit(old_text: Seq<char>, new_text: Seq<char>)
    ensures
        0 <= similarity_of(old_text, new_text).0 <= similarity_of(old_text, new_text).1,
        similarity_of(old_text, new_text).1 > 0,
{
    lemma_shared_words_bound(old_text, new_text);
}

/// A text is fully similar to itself.
pub proof fn law_identical_texts_fully_similar(text: Seq<char>)
    ensures
        similarity_of(text, text) == (1int, 1int),
{
}

/// The similarity of two texts as a fraction.
pub fn calculate_similarity(old_text: &str, new_text: &str) -> (r: Similarity)
    ensures
        (r.shared as int, r.total as int) == similarity_of(old_text@, new_text@),
        r.total > 0,
        r.shared <= r.total,
        r.shared <= max_similarity_count(),
        r.total <= max_similarity_count(),
{
    let oc = chars_of(old_text);
    let nc = chars_of(new_text);
    if chars_eq(&oc, &nc) {
        return Similarity { shared: 1, total: 1 };
    }
    if oc.len() == 0 || nc.len() == 0 {
        return Similarity { shared: 0, total: 1 };
    }
    let ow = split_words(&oc);
    let nw = split_words(&nc);
    assert(char_vecs(ow@) == words(old_text@));
    assert(char_vecs(nw@) == words(new_text@));
    let od = distinct_vecs(&ow);
    let nd = distinct_vecs(&nw);
    let ghost dv = distinct(words(old_text@));
    let ghost p = |w: Seq<char>| words(new_text@).contains(w);
    proof {
        lemma_distinct(words(new_text@));
    }
    let mut shared: usize = 0;
    let mut i: usize = 0;
    proof {
        reveal(Seq::filter);
    }
    assert(dv.take(0) =~= Seq::<Seq<char>>::empty());
    while i < od.len()
        invariant
            i <= od@.len(),
            char_vecs(od@) == dv,
            char_vecs(nd@) == distinct(words(new_text@)),
            forall|w: Seq<char>| distinct(words(new_text@)).contains(w) <==> words(new_text@).contains(w),
            p == |w: Seq<char>| words(new_text@).contains(w),
            shared == dv.take(i as int).filter(p).len(),
            shared <= i,
        decreases od@.len() - i,
    {
        assert(dv.take(i as int + 1) == dv.take(i as int).push(od@[i as int]@));
        proof {
            dv.take(i as int).lemma_filter_push(od@[i as int]@, p);
        }
        if contains_chars_vec(&nd, &od[i]) {
            shared += 1;
        }
        i += 1;
    }
    assert(dv.take(dv.len() as int) == dv);
    proof {
        lemma_shared_words_bound(old_text@, new_text@);
    }
    let union = od.len() as u128 + nd.len() as u128 - shared as u128;
    if union == 0 {
        return Similarity { shared: 1, total: 1 };
    }
    Similarity { shared: shared as u128, total: union }
}

// ---------------------------------------------------------------------------
// Kinds of change
// ---------------------------------------------------------------------------

/// The kind of change found in a page.
#[derive(Clone, Debug, PartialEq)]
pub enum ChangeType {
    NoChange,
    Minor,
    Moderate,
    Major,
    StructuralChange,
    PageUnavailable,
    Redirected { new_url: String },
}

/// The mathematical value of a [`ChangeType`].
pub ghost enum ChangeModel {
    NoChange,
    Minor,
    Moderate,
    Major,
    StructuralChange,
    PageUnavailable,
    Redirected(Seq<char>),
}

impl View for ChangeType {
    type V = ChangeModel;

    open spec fn view(&self) -> ChangeModel {
        match self {
            ChangeType::NoChange => ChangeModel::NoChange,
            ChangeType::Minor => ChangeModel::Minor,
            ChangeType::Moderate => ChangeModel::Moderate,
            ChangeType::Major => ChangeModel::Major,
            ChangeType::StructuralChange => ChangeModel::StructuralChange,
            ChangeType::PageUnavailable => ChangeModel::PageUnavailable,
            ChangeType::Redirected { new_url } => ChangeModel::Redirected(new_url@),
        }
    }
}

impl ChangeType {
    /// A copy of this change type.
    pub fn duplicate(&self) -> (r: ChangeType)
        ensures
            r@ == self@,
    {
        match self {
            ChangeType::NoChange => ChangeType::NoChange,
            ChangeType::Minor => ChangeType::Minor,
            ChangeType::Moderate => ChangeType::Moderate,
            ChangeType::Major => ChangeType::Major,
            ChangeType::StructuralChange => ChangeType::StructuralChange,
            ChangeType::PageUnavailable => ChangeType::PageUnavailable,
            ChangeType::Redirected { new_url } => ChangeType::Redirected {
                new_url: copy_string(new_url),
            },
        }
    }

    /// Whether this is `NoChange`.
    pub fn is_no_change(&self) -> (r: bool)
        ensures
            r == (self@ == ChangeModel::NoChange),
    {
        match self {
            ChangeType::NoChange => true,
            _ => false,
        }
    }
}

/// Fetched content of a page whose archive is being checked.
#[derive(Clone, Debug)]
pub struct PageChangeContent {
    pub html: String,
    pub text: String,
    pub title: String,
    pub checksum: String,
    pub fetched_at: i64,
}

impl PageChangeContent {
    /// A copy of this content.
    pub fn duplicate(&self) -> (r: PageChangeContent)
        ensures
            r.html@ == self.html@,
            r.text@ == self.text@,
            r.title@ == self.title@,
            r.checksum@ == self.checksum@,
            r.fetched_at == self.fetched_at,
    {
        PageChangeContent {
            html: copy_string(&self.html),
            text: copy_string(&self.text),
            title: copy_string(&self.title),
            checksum: copy_string(&self.checksum),
            fetched_at: self.fetched_at,
        }
    }
}

/// The kind of change between an archive and fetched content, given the
/// similarity `sim` of their texts and a threshold of `threshold` percent:
/// none where the checksums agree or the similarity reaches the threshold;
/// minor from 7/10; moderate from 4/10; below that, a structural change where
/// the titles differ and their own similarity is under 1/2, else major.
pub open spec fn classification(
    threshold: u32,
    sim: Similarity,
    old_checksum: Option<Seq<char>>,
    new_checksum: Seq<char>,
    old_title: Seq<char>,
    new_title: Seq<char>,
) -> ChangeModel {
    if old_checksum == Some(new_checksum) {
        ChangeModel::NoChange
    } else if sim.at_least(threshold as int, 100) {
        ChangeModel::NoChange
    } else if sim.at_least(7, 10) {
        ChangeModel::Minor
    } else if sim.at_least(4, 10) {
        ChangeModel::Moderate
    } else if old_title != new_title && 2 * similarity_of(old_title, new_title).0 < similarity_of(
        old_title,
        new_title,
    ).1 {
        ChangeModel::StructuralChange
    } else {
        ChangeModel::Major
    }
}

/// `100 * num / den` rounded to the nearest integer, ties to even.
pub open spec fn rounded_percent(num: int, den: int) -> int {
    let q = (100 * num) / den;
    let r = (100 * num) % den;
    if 2 * r > den || (2 * r == den && q % 2 == 1) {
        q + 1
    } else {
        q
    }
}

/// The similarity in whole percent.
pub open spec fn percent_of(sim: Similarity) -> nat {
    rounded_percent(sim.shared as int, sim.total as int) as nat
}

/// The text that describes a change.
pub open spec fn change_summary(
    change: ChangeModel,
    sim: Similarity,
    old_title: Seq<char>,
    new_title: Seq<char>,
) -> Seq<char> {
    let p = decimal(percent_of(sim));
    match change {
        ChangeModel::NoChange => "No significant changes detected."@,
        ChangeModel::Minor => "Minor changes detected ("@ + p
            + "% similar). Small updates to content."@,
        ChangeModel::Moderate => "Moderate changes detected ("@ + p
            + "% similar). Some sections have been updated."@,
        ChangeModel::Major => "Major changes detected ("@ + p
            + "% similar). Significant content rewrite."@,
        ChangeModel::StructuralChange => "Page structure has changed significantly ("@ + p
            + "% similar)."@ + if old_title != new_title {
            " Title changed from '"@ + old_title + "' to '"@ + new_title + "'."@
        } else {
            seq![]
        },
        ChangeModel::PageUnavailable => "Page is no longer accessible."@,
        ChangeModel::Redirected(u) => "Page redirects to: "@ + u,
    }
}

/// The similarity in whole percent, ties to even.
pub fn similarity_percent(sim: Similarity) -> (r: u128)
    requires
        sim.total > 0,
        sim.shared <= max_similarity_count(),
        sim.total <= max_similarity_count(),
    ensures
        r == percent_of(sim),
{
    let num = sim.shared * 100;
    let q = num / sim.total;
    let r = num % sim.total;
    if r > sim.total - r || (r == sim.total - r && q % 2 == 1) {
        q + 1
    } else {
        q
    }
}

/// A bound on the counts of a similarity that keeps its arithmetic exact.
pub open spec fn max_similarity_count() -> int {
    0x4_0000_0000_0000_0000_0000
}

// ---------------------------------------------------------------------------
// Notifications and versions
// ---------------------------------------------------------------------------

/// What the user chose to do about a detected change.
#[derive(Clone, Copy, Debug, PartialEq, Eq, Structural)]
pub enum UpdateOption {
    UpdateArchive,
    KeepCurrent,
    CreateNewVersion,
    DeleteArchive,
}

/// The outcome of checking one archive.
#[derive(Clone, Debug)]
pub struct ChangeDetectionResult {
    pub archive_id: u128,
    pub url: String,
    pub change_type: ChangeType,
    pub similarity: Similarity,
    pub change_summary: String,
    pub new_content: Option<PageChangeContent>,
    pub checked_at: i64,
    pub check_duration_ms: u64,
}

/// A notice to the user that an archived page changed.
#[derive(Clone, Debug)]
pub struct ChangeNotification {
    pub id: u128,
    pub archive_id: u128,
    pub url: String,
    pub title: String,
    pub change_type: ChangeType,
    pub summary: String,
    pub created_at: i64,
    pub is_read: bool,
    pub user_action: Option<UpdateOption>,
}

/// The mathematical value of a [`ChangeNotification`].
pub ghost struct NoteModel {
    pub id: u128,
    pub archive_id: u128,
    pub url: Seq<char>,
    pub title: Seq<char>,
    pub change_type: ChangeModel,
    pub summary: Seq<char>,
    pub created_at: i64,
    pub is_read: bool,
    pub user_action: Option<UpdateOption>,
}

impl View for ChangeNotification {
    type V = NoteModel;

    open spec fn view(&self) -> NoteModel {
        NoteModel {
            id: self.id,
            archive_id: self.archive_id,
            url: self.url@,
            title: self.title@,
            change_type: self.change_type@,
            summary: self.summary@,
            created_at: self.created_at,
            is_read: self.is_read,
            user_action: self.user_action,
        }
    }
}

impl ChangeNotification {
    /// A copy of this notification.
    pub fn duplicate(&self) -> (r: ChangeNotification)
        ensures
            r@ == self@,
    {
        ChangeNotification {
            id: self.id,
            archive_id: self.archive_id,
            url: copy_string(&self.url),
            title: copy_string(&self.title),
            change_type: self.change_type.duplicate(),
            summary: copy_string(&self.summary),
            created_at: self.created_at,
            is_read: self.is_read,
            user_action: self.user_action,
        }
    }
}

/// One stored version of an archived page.
#[derive(Clone, Debug)]
pub struct ArchiveVersion {
    pub version: u32,
    pub archive_id: u128,
    pub created_at: i64,
    pub checksum: String,
    pub size_bytes: u64,
    pub change_from_previous: ChangeType,
}

/// The mathematical value of an [`ArchiveVersion`].
pub ghost struct VersionModel {
    pub version: u32,
    pub archive_id: u128,
    pub created_at: i64,
    pub checksum: Seq<char>,
    pub size_bytes: u64,
    pub change_from_previous: ChangeModel,
}

impl View for ArchiveVersion {
    type V = VersionModel;

    open spec fn view(&self) -> VersionModel {
        VersionModel {
            version: self.version,
            archive_id: self.archive_id,
            created_at: self.created_at,
            checksum: self.checksum@,
            size_bytes: self.size_bytes,
            change_from_previous: self.change_from_previous@,
        }
    }
}

impl ArchiveVersion {
    /// A copy of this version.
    pub fn duplicate(&self) -> (r: ArchiveVersion)
        ensures
            r@ == self@,
    {
        ArchiveVersion {
            version: self.version,
            archive_id: self.archive_id,
            created_at: self.created_at,
            checksum: copy_string(&self.checksum),
            size_bytes: self.size_bytes,
            change_from_previous: self.change_from_previous.duplicate(),
        }
    }
}

/// The versions of one page.
#[derive(Clone, Debug)]
pub struct PageVersions {
    pub page_id: u128,
    pub versions: Vec<ArchiveVersion>,
}

/// The mathematical value of [`PageVersions`].
pub ghost struct PageVersionsModel {
    pub page_id: u128,
    pub versions: Seq<VersionModel>,
}

impl View for PageVersions {
    type V = PageVersionsModel;

    open spec fn view(&self) -> PageVersionsModel {
        PageVersionsModel { page_id: self.page_id, versions: versions_view(self.versions@) }
    }
}

/// The views of versions.
pub open spec fn versions_view(v: Seq<ArchiveVersion>) -> Seq<VersionModel> {
    v.map_values(|x: ArchiveVersion| x@)
}

/// The views of notifications.
pub open spec fn notes_view(v: Seq<ChangeNotification>) -> Seq<NoteModel> {
    v.map_values(|x: ChangeNotification| x@)
}

/// The views of version lists.
pub open spec fn histories_view(v: Seq<PageVersions>) -> Seq<PageVersionsModel> {
    v.map_values(|x: PageVersions| x@)
}

/// A URL and when it was last checked.
#[derive(Clone, Debug)]
pub struct CheckTime {
    pub url: String,
    pub checked_at: i64,
}

/// The views of check times.
pub open spec fn checks_view(v: Seq<CheckTime>) -> Seq<(Seq<char>, i64)> {
    v.map_values(|x: CheckTime| (x.url@, x.checked_at))
}

/// Appends the decimal representation of `n`.
pub fn push_decimal_wide(v: &mut Vec<char>, n: u128)
    ensures
        final(v)@ == old(v)@ + decimal(n as nat),
    decreases n,
{
    if n < 10 {
        v.push(crate::matcher::digit_to_char(n as u64));
        assert(old(v)@.push(crate::matcher::digit_char(n as nat)) == old(v)@ + decimal(n as nat));
    } else {
        push_decimal_wide(v, n / 10);
        v.push(crate::matcher::digit_to_char((n % 10) as u64));
        assert(old(v)@ + decimal((n / 10) as nat) + seq![crate::matcher::digit_char((n % 10) as nat)]
            == old(v)@ + decimal(n as nat));
    }
}

// ---------------------------------------------------------------------------
// The detector
// ---------------------------------------------------------------------------

/// Settings of a [`ChangeDetector`].
#[derive(Clone, Copy, Debug)]
pub struct ChangeDetectorConfig {
    /// Hours that must pass before a URL is checked again.
    pub min_check_interval_hours: u32,
    /// The similarity, in percent, from which content counts as unchanged.
    pub change_threshold_percent: u32,
    /// The most versions kept per page.
    pub max_versions_per_page: usize,
    pub auto_check_enabled: bool,
    /// The most archives checked in one batch.
    pub batch_size: usize,
}

impl Default for ChangeDetectorConfig {
    fn default() -> (r: Self)
        ensures
            r.min_check_interval_hours == 24,
            r.change_threshold_percent == 85,
            r.max_versions_per_page == 5,
            r.auto_check_enabled,
            r.batch_size == 10,
    {
        ChangeDetectorConfig {
            min_check_interval_hours: 24,
            change_threshold_percent: 85,
            max_versions_per_page: 5,
            auto_check_enabled: true,
            batch_size: 10,
        }
    }
}

/// Counts describing a detector's state.
#[derive(Clone, Copy, Debug)]
pub struct ChangeDetectorStats {
    pub total_notifications: usize,
    pub unread_notifications: usize,
    pub urls_tracked: usize,
    pub total_versions: u128,
    pub pages_with_versions: usize,
}

/// A share of lines as an exact fraction `changed / total`, read as a
/// percentage `100 * changed / total` (0 where `total` is 0).
#[derive(Clone, Copy, Debug, PartialEq, Eq, Structural)]
pub struct LineShare {
    pub changed: u128,
    pub total: u128,
}

impl LineShare {
    /// Whether the percentage exceeds `percent`.
    pub fn exceeds_percent(&self, percent: u32) -> (r: bool)
        requires
            self.changed <= self.total,
            self.total <= 0xFFFF_FFFF_FFFF_FFFF_FFFF,
        ensures
            r == (100 * self.changed > percent * self.total),
    {
        let p = percent as u128;
        assert(p * self.total <= 0xFFFF_FFFF * 0xFFFF_FFFF_FFFF_FFFF_FFFF) by (nonlinear_arith)
            requires
                p <= 0xFFFF_FFFF,
                self.total <= 0xFFFF_FFFF_FFFF_FFFF_FFFF,
        ;
        let lhs: u128 = 100 * self.changed;
        let rhs: u128 = p * self.total;
        lhs > rhs
    }
}

/// The lines that one text has and the other lacks.
#[derive(Clone, Debug)]
pub struct VersionComparison {
    /// Lines of the new text, in order, that the old one lacks.
    pub added_lines: Vec<String>,
    /// Lines of the old text, in order, that the new one lacks.
    pub removed_lines: Vec<String>,
    /// Lines of the new text that the old one has.
    pub unchanged_lines: usize,
    /// The percentage of content that changed: the added and removed lines
    /// over the lines of both texts, so between 0 and 100.
    pub change_percentage: LineShare,
}

/// The mathematical state of a [`ChangeDetector`].
pub ghost struct DetectorModel {
    pub checks: Seq<(Seq<char>, i64)>,
    pub notes: Seq<NoteModel>,
    pub histories: Seq<PageVersionsModel>,
}

/// The change detector.
pub struct ChangeDetector {
    config: ChangeDetectorConfig,
    last_check_times: Vec<CheckTime>,
    notifications: Vec<ChangeNotification>,
    version_history: Vec<PageVersions>,
}

impl View for ChangeDetector {
    type V = DetectorModel;

    closed spec fn view(&self) -> DetectorModel {
        DetectorModel {
            checks: checks_view(self.last_check_times@),
            notes: notes_view(self.notifications@),
            histories: histories_view(self.version_history@),
        }
    }
}

/// The index of the first check of `url`.
pub open spec fn check_index(checks: Seq<(Seq<char>, i64)>, url: Seq<char>) -> Option<int>
    decreases checks.len(),
{
    if checks.len() == 0 {
        None
    } else {
        match check_index(checks.drop_last(), url) {
            Some(k) => Some(k),
            None => if checks.last().0 == url {
                Some(checks.len() - 1)
            } else {
                None
            },
        }
    }
}

/// `check_index` is a valid index of an entry for `url`, and where there is
/// none no entry is for `url`.
pub proof fn lemma_check_index(checks: Seq<(Seq<char>, i64)>, url: Seq<char>)
    ensures
        match check_index(checks, url) {
            Some(k) => 0 <= k < checks.len() && checks[k].0 == url,
            None => forall|j: int| 0 <= j < checks.len() ==> checks[j].0 != url,
        },
    decreases checks.len(),
{
    if checks.len() > 0 {
        lemma_check_index(checks.drop_last(), url);
        if check_index(checks.drop_last(), url) is None {
            assert forall|j: int| 0 <= j < checks.len() - 1 implies checks[j].0 != url by {
                assert(checks.drop_last()[j] == checks[j]);
            }
        }
    }
}

/// The checks once `url` is recorded as checked at `now`.
pub open spec fn checks_recorded(checks: Seq<(Seq<char>, i64)>, url: Seq<char>, now: i64) -> Seq<
    (Seq<char>, i64),
> {
    match check_index(checks, url) {
        Some(k) => checks.update(k, (url, now)),
        None => checks.push((url, now)),
    }
}

/// Whether `url` is due for a check at `now`: never checked, or last checked
/// at least `hours` hours (in milliseconds) before.
pub open spec fn due_for_check(checks: Seq<(Seq<char>, i64)>, url: Seq<char>, hours: u32, now: i64) -> bool {
    match check_index(checks, url) {
        None => true,
        Some(k) => now - checks[k].1 >= hours * 3_600_000,
    }
}

/// The index of the first notification with an id.
pub open spec fn note_index(notes: Seq<NoteModel>, id: u128) -> Option<int>
    decreases notes.len(),
{
    if notes.len() == 0 {
        None
    } else {
        match note_index(notes.drop_last(), id) {
            Some(k) => Some(k),
            None => if notes.last().id == id {
                Some(notes.len() - 1)
            } else {
                None
            },
        }
    }
}

/// `note_index` is a valid index of a notification with the id.
pub proof fn lemma_note_index(notes: Seq<NoteModel>, id: u128)
    ensures
        match note_index(notes, id) {
            Some(k) => 0 <= k < notes.len() && notes[k].id == id,
            None => forall|j: int| 0 <= j < notes.len() ==> notes[j].id != id,
        },
    decreases notes.len(),
{
    if notes.len() > 0 {
        lemma_note_index(notes.drop_last(), id);
        if note_index(notes.drop_last(), id) is None {
            assert forall|j: int| 0 <= j < notes.len() - 1 implies notes[j].id != id by {
                assert(notes.drop_last()[j] == notes[j]);
            }
        }
    }
}

/// Whether a notification is unread.
pub open spec fn is_unread(n: NoteModel) -> bool {
    !n.is_read
}

/// The notifications once the first with an id is marked read.
pub open spec fn marked_read(notes: Seq<NoteModel>, id: u128) -> Seq<NoteModel> {
    match note_index(notes, id) {
        Some(k) => notes.update(k, NoteModel { is_read: true, ..notes[k] }),
        None => notes,
    }
}

/// The notifications once the user's choice for the first with an id is
/// recorded, which also marks it read.
pub open spec fn action_applied(notes: Seq<NoteModel>, id: u128, action: UpdateOption) -> Seq<
    NoteModel,
> {
    match note_index(notes, id) {
        Some(k) => notes.update(k, NoteModel { is_read: true, user_action: Some(action), ..notes[k] }),
        None => notes,
    }
}

/// The index of the version list of a page.
pub open spec fn history_index(hs: Seq<PageVersionsModel>, page: u128) -> Option<int>
    decreases hs.len(),
{
    if hs.len() == 0 {
        None
    } else {
        match history_index(hs.drop_last(), page) {
            Some(k) => Some(k),
            None => if hs.last().page_id == page {
                Some(hs.len() - 1)
            } else {
                None
            },
        }
    }
}

/// `history_index` is a valid index of the page's list.
pub proof fn lemma_history_index(hs: Seq<PageVersionsModel>, page: u128)
    ensures
        match history_index(hs, page) {
            Some(k) => 0 <= k < hs.len() && hs[k].page_id == page,
            None => forall|j: int| 0 <= j < hs.len() ==> hs[j].page_id != page,
        },
    decreases hs.len(),
{
    if hs.len() > 0 {
        lemma_history_index(hs.drop_last(), page);
        if history_index(hs.drop_last(), page) is None {
            assert forall|j: int| 0 <= j < hs.len() - 1 implies hs[j].page_id != page by {
                assert(hs.drop_last()[j] == hs[j]);
            }
        }
    }
}

/// The versions of a page, oldest first.
pub open spec fn versions_of(hs: Seq<PageVersionsModel>, page: u128) -> Seq<VersionModel> {
    match history_index(hs, page) {
        Some(k) => hs[k].versions,
        None => seq![],
    }
}

/// A page's versions once `v` is added: it is appended, and where the list
/// then exceeds `max`, the oldest version leaves.
pub open spec fn with_version(vs: Seq<VersionModel>, v: VersionModel, max: nat) -> Seq<VersionModel> {
    let a = vs.push(v);
    if a.len() > max {
        a.drop_first()
    } else {
        a
    }
}

/// The number of the version that follows `vs`: 1 for a page's first
/// version, else one past the newest kept version (wrapping).
pub open spec fn next_version_number(vs: Seq<VersionModel>) -> u32 {
    if vs.len() == 0 {
        1
    } else {
        vstd::wrapping::u32_specs::wrapping_add(vs.last().version, 1)
    }
}

/// The version record that follows `vs`, numbered by `next_version_number`.
pub open spec fn next_version(
    vs: Seq<VersionModel>,
    archive_id: u128,
    checksum: Seq<char>,
    size_bytes: u64,
    change: ChangeModel,
    now: i64,
) -> VersionModel {
    VersionModel {
        version: next_version_number(vs),
        archive_id,
        created_at: now,
        checksum,
        size_bytes,
        change_from_previous: change,
    }
}

/// The version lists once a version is added for `page` (a new list is
/// started where the page has none).
pub open spec fn histories_added(
    hs: Seq<PageVersionsModel>,
    page: u128,
    archive_id: u128,
    checksum: Seq<char>,
    size_bytes: u64,
    change: ChangeModel,
    now: i64,
    max: nat,
) -> Seq<PageVersionsModel> {
    let vs = versions_of(hs, page);
    let nv = with_version(vs, next_version(vs, archive_id, checksum, size_bytes, change, now), max);
    match history_index(hs, page) {
        Some(k) => hs.update(k, PageVersionsModel { page_id: page, versions: nv }),
        None => hs.push(PageVersionsModel { page_id: page, versions: nv }),
    }
}

/// The number of versions over all pages.
pub open spec fn total_versions(hs: Seq<PageVersionsModel>) -> nat
    decreases hs.len(),
{
    if hs.len() == 0 {
        0
    } else {
        total_versions(hs.drop_last()) + hs.last().versions.len()
    }
}

/// The notification for a checked archive with a change.
pub open spec fn note_for(
    id: u128,
    archive_id: u128,
    url: Seq<char>,
    title: Seq<char>,
    change: ChangeModel,
    summary: Seq<char>,
    now: i64,
) -> NoteModel {
    NoteModel {
        id,
        archive_id,
        url,
        title,
        change_type: change,
        summary,
        created_at: now,
        is_read: false,
        user_action: None,
    }
}

/// The similarity of an archive's text to fetched content.
pub open spec fn archive_similarity(archive: ContentArchive, new_content: PageChangeContent) -> Similarity {
    let p = similarity_of(archive.content_text@, new_content.text@);
    Similarity { shared: p.0 as u128, total: p.1 as u128 }
}

/// The kind of change between an archive and fetched content.
pub open spec fn archive_change(
    threshold: u32,
    archive: ContentArchive,
    new_content: PageChangeContent,
) -> ChangeModel {
    classification(
        threshold,
        archive_similarity(archive, new_content),
        opt_view(archive.checksum),
        new_content.checksum@,
        archive.title@,
        new_content.title@,
    )
}

/// The description of the change between an archive and fetched content.
pub open spec fn archive_summary(
    threshold: u32,
    archive: ContentArchive,
    new_content: PageChangeContent,
) -> Seq<char> {
    change_summary(
        archive_change(threshold, archive, new_content),
        archive_similarity(archive, new_content),
        archive.title@,
        new_content.title@,
    )
}

/// The state once an archive was checked against fetched content at `now`:
/// the URL is recorded as checked and, where there is a change, a
/// notification with id `note_id` is added.
pub open spec fn after_check(
    threshold: u32,
    m: DetectorModel,
    archive: ContentArchive,
    new_content: PageChangeContent,
    now: i64,
    note_id: u128,
) -> DetectorModel {
    let change = archive_change(threshold, archive, new_content);
    DetectorModel {
        checks: checks_recorded(m.checks, archive.url@, now),
        notes: if change == ChangeModel::NoChange {
            m.notes
        } else {
            m.notes.push(
                note_for(
                    note_id,
                    archive.id,
                    archive.url@,
                    archive.title@,
                    change,
                    archive_summary(threshold, archive, new_content),
                    now,
                ),
            )
        },
        ..m
    }
}

impl ChangeDetector {
    /// The settings.
    pub closed spec fn settings(self) -> ChangeDetectorConfig {
        self.config
    }

    /// A detector with default settings and no state.
    pub fn new() -> (r: Self)
        ensures
            r.settings().change_threshold_percent == 85,
            r.settings().max_versions_per_page == 5,
            r.settings().min_check_interval_hours == 24,
            r.settings().batch_size == 10,
            r@ == (DetectorModel { checks: seq![], notes: seq![], histories: seq![] }),
    {
        Self::with_config(ChangeDetectorConfig::default())
    }

    /// A detector with the given settings and no state.
    pub fn with_config(config: ChangeDetectorConfig) -> (r: Self)
        ensures
            r.settings() == config,
            r@ == (DetectorModel { checks: seq![], notes: seq![], histories: seq![] }),
    {
        let r = ChangeDetector {
            config,
            last_check_times: Vec::new(),
            notifications: Vec::new(),
            version_history: Vec::new(),
        };
        assert(checks_view(r.last_check_times@) =~= seq![]);
        assert(notes_view(r.notifications@) =~= seq![]);
        assert(histories_view(r.version_history@) =~= seq![]);
        r
    }

    /// The settings.
    pub fn config(&self) -> (r: &ChangeDetectorConfig)
        ensures
            *r == self.settings(),
    {
        &self.config
    }

    fn find_check(&self, url: &str) -> (r: Option<usize>)
        ensures
            r matches Some(k) ==> check_index(self@.checks, url@) == Some(k as int),
            r is None ==> check_index(self@.checks, url@) is None,
    {
        let ghost v = checks_view(self.last_check_times@);
        let mut i: usize = 0;
        while i < self.last_check_times.len()
            invariant
                i <= self.last_check_times@.len(),
                v == checks_view(self.last_check_times@),
                v == self@.checks,
                check_index(v.take(i as int), url@) is None,
            decreases self.last_check_times@.len() - i,
        {
            assert(v.take(i as int + 1).drop_last() == v.take(i as int));
            if crate::text::str_eq(&self.last_check_times[i].url, url) {
                proof {
                    lemma_check_index_prefix(v, url@, i as int + 1);
                }
                return Some(i);
            }
            i += 1;
        }
        assert(v.take(v.len() as int) == v);
        None
    }

    /// Whether `url` is due for a check at time `now`.
    pub fn should_check_at(&self, url: &str, now: i64) -> (r: bool)
        ensures
            r == due_for_check(self@.checks, url@, self.settings().min_check_interval_hours, now),
    {
        match self.find_check(url) {
            None => true,
            Some(k) => {
                proof {
                    lemma_check_index(self@.checks, url@);
                }
                let last = self.last_check_times[k].checked_at;
                (now as i128) - (last as i128) >= (self.config.min_check_interval_hours as i128)
                    * 3_600_000
            },
        }
    }

    /// Whether `url` is due for a check now.
    pub fn should_check(&self, url: &str) -> (r: bool)
        ensures
            exists|now: i64|
                r == #[trigger] due_for_check(
                    self@.checks,
                    url@,
                    self.settings().min_check_interval_hours,
                    now,
                ),
    {
        let now = crate::platform::now_millis();
        self.should_check_at(url, now)
    }

    /// Records that `url` was checked at `now`.
    pub fn record_check_at(&mut self, url: &str, now: i64)
        ensures
            final(self)@ == (DetectorModel {
                checks: checks_recorded(old(self)@.checks, url@, now),
                ..old(self)@
            }),
            final(self).settings() == old(self).settings(),
    {
        let ghost v = checks_view(self.last_check_times@);
        match self.find_check(url) {
            Some(k) => {
                proof {
                    lemma_check_index(v, url@);
                }
                let u = string_from_chars(&chars_of(url));
                self.last_check_times.set(k, CheckTime { url: u, checked_at: now });
                assert(checks_view(self.last_check_times@) =~= v.update(k as int, (url@, now)));
            },
            None => {
                let u = string_from_chars(&chars_of(url));
                self.last_check_times.push(CheckTime { url: u, checked_at: now });
                assert(checks_view(self.last_check_times@) =~= v.push((url@, now)));
            },
        }
    }

    /// The kind of change, given the similarity of the texts.
    pub fn classify_change(
        &self,
        similarity: Similarity,
        archive: &ContentArchive,
        new_content: &PageChangeContent,
    ) -> (r: ChangeType)
        requires
            similarity.shared <= max_similarity_count(),
            similarity.total <= max_similarity_count(),
        ensures
            r@ == classification(
                self.settings().change_threshold_percent,
                similarity,
                opt_view(archive.checksum),
                new_content.checksum@,
                archive.title@,
                new_content.title@,
            ),
    {
        if let Some(old) = &archive.checksum {
            if crate::text::str_eq(old, &new_content.checksum) {
                return ChangeType::NoChange;
            }
        }
        let s = similarity.shared;
        let t = similarity.total;
        let th = self.config.change_threshold_percent as u128;
        assert(th * t <= 0xffff_ffff * 0x4_0000_0000_0000_0000_0000) by (nonlinear_arith)
            requires
                th <= 0xffff_ffff,
                t <= 0x4_0000_0000_0000_0000_0000,
        ;
        if s * 100 >= th * t {
            return ChangeType::NoChange;
        }
        if s * 10 >= 7 * t {
            return ChangeType::Minor;
        }
        if s * 10 >= 4 * t {
            return ChangeType::Moderate;
        }
        if !crate::text::str_eq(&archive.title, &new_content.title) {
            let ts = calculate_similarity(&archive.title, &new_content.title);
            if 2 * ts.shared < ts.total {
                return ChangeType::StructuralChange;
            }
        }
        ChangeType::Major
    }

    /// The text that describes a change.
    pub fn generate_change_summary(
        &self,
        change_type: &ChangeType,
        similarity: Similarity,
        archive: &ContentArchive,
        new_content: &PageChangeContent,
    ) -> (r: String)
        requires
            similarity.total > 0,
            similarity.shared <= max_similarity_count(),
            similarity.total <= max_similarity_count(),
        ensures
            r@ == change_summary(change_type@, similarity, archive.title@, new_content.title@),
    {
        let mut v: Vec<char> = Vec::new();
        match change_type {
            ChangeType::NoChange => {
                push_str_chars(&mut v, "No significant changes detected.");
            },
            ChangeType::Minor => {
                push_str_chars(&mut v, "Minor changes detected (");
                push_decimal_wide(&mut v, similarity_percent(similarity));
                push_str_chars(&mut v, "% similar). Small updates to content.");
            },
            ChangeType::Moderate => {
                push_str_chars(&mut v, "Moderate changes detected (");
                push_decimal_wide(&mut v, similarity_percent(similarity));
                push_str_chars(&mut v, "% similar). Some sections have been updated.");
            },
            ChangeType::Major => {
                push_str_chars(&mut v, "Major changes detected (");
                push_decimal_wide(&mut v, similarity_percent(similarity));
                push_str_chars(&mut v, "% similar). Significant content rewrite.");
            },
            ChangeType::StructuralChange => {
                push_str_chars(&mut v, "Page structure has changed significantly (");
                push_decimal_wide(&mut v, similarity_percent(similarity));
                push_str_chars(&mut v, "% similar).");
                if !crate::text::str_eq(&archive.title, &new_content.title) {
                    push_str_chars(&mut v, " Title changed from '");
                    push_str_chars(&mut v, &archive.title);
                    push_str_chars(&mut v, "' to '");
                    push_str_chars(&mut v, &new_content.title);
                    push_str_chars(&mut v, "'.");
                }
            },
            ChangeType::PageUnavailable => {
                push_str_chars(&mut v, "Page is no longer accessible.");
            },
            ChangeType::Redirected { new_url } => {
                push_str_chars(&mut v, "Page redirects to: ");
                push_str_chars(&mut v, new_url);
            },
        }
        assert(v@ =~= change_summary(change_type@, similarity, archive.title@, new_content.title@));
        string_from_chars(&v)
    }
}

/// `check_index` on a prefix that ends in a match.
pub proof fn lemma_check_index_prefix(v: Seq<(Seq<char>, i64)>, url: Seq<char>, n: int)
    requires
        0 < n <= v.len(),
        check_index(v.take(n - 1), url) is None,
        v[n - 1].0 == url,
    ensures
        check_index(v, url) == Some(n - 1),
    decreases v.len(),
{
    assert(v.take(n).drop_last() == v.take(n - 1));
    assert(check_index(v.take(n), url) == Some(n - 1));
    if v.len() > n {
        assert(v.drop_last().take(n) == v.take(n));
        assert(v.drop_last().take(n - 1) == v.take(n - 1));
        lemma_check_index_prefix(v.drop_last(), url, n);
    } else {
        assert(v.take(n) == v);
    }
}

impl ChangeDetector {
    /// Checks an archive against fetched content at time `now`: the result
    /// holds the similarity, the kind of change and its description, and the
    /// fetched content where there is a change; the URL is recorded as
    /// checked, and a change is also announced by a notification with id
    /// `note_id`. `duration_ms` is how long the check took.
    pub fn check_for_changes_at(
        &mut self,
        archive: &ContentArchive,
        new_content: &PageChangeContent,
        now: i64,
        note_id: u128,
        duration_ms: u64,
    ) -> (r: ChangeDetectionResult)
        ensures
            final(self).settings() == old(self).settings(),
            final(self)@ == after_check(
                old(self).settings().change_threshold_percent,
                old(self)@,
                *archive,
                *new_content,
                now,
                note_id,
            ),
            r.archive_id == archive.id,
            r.url@ == archive.url@,
            r.similarity == archive_similarity(*archive, *new_content),
            r.change_type@ == archive_change(
                old(self).settings().change_threshold_percent,
                *archive,
                *new_content,
            ),
            r.change_summary@ == archive_summary(
                old(self).settings().change_threshold_percent,
                *archive,
                *new_content,
            ),
            r.new_content is Some <==> r.change_type@ != ChangeModel::NoChange,
            r.new_content matches Some(c) ==> c.html@ == new_content.html@ && c.text@
                == new_content.text@ && c.title@ == new_content.title@ && c.checksum@
                == new_content.checksum@ && c.fetched_at == new_content.fetched_at,
            r.checked_at == now,
            r.check_duration_ms == duration_ms,
    {
        let similarity = calculate_similarity(&archive.content_text, &new_content.text);
        let change_type = self.classify_change(similarity, archive, new_content);
        let summary = self.generate_change_summary(&change_type, similarity, archive, new_content);
        self.record_check_at(&archive.url, now);
        let changed = !change_type.is_no_change();
        if changed {
            let note = ChangeNotification {
                id: note_id,
                archive_id: archive.id,
                url: copy_string(&archive.url),
                title: copy_string(&archive.title),
                change_type: change_type.duplicate(),
                summary: copy_string(&summary),
                created_at: now,
                is_read: false,
                user_action: None,
            };
            let ghost o = notes_view(self.notifications@);
            self.notifications.push(note);
            assert(notes_view(self.notifications@) =~= o.push(note@));
        }
        ChangeDetectionResult {
            archive_id: archive.id,
            url: copy_string(&archive.url),
            change_type,
            similarity,
            change_summary: summary,
            new_content: if changed {
                Some(new_content.duplicate())
            } else {
                None
            },
            checked_at: now,
            check_duration_ms: duration_ms,
        }
    }

    /// Checks an archive against fetched content now.
    pub fn check_for_changes(&mut self, archive: &ContentArchive, new_content: &PageChangeContent) -> (r:
        ChangeDetectionResult)
        ensures
            final(self).settings() == old(self).settings(),
            exists|now: i64, note_id: u128|
                final(self)@ == #[trigger] after_check(
                    old(self).settings().change_threshold_percent,
                    old(self)@,
                    *archive,
                    *new_content,
                    now,
                    note_id,
                ) && r.checked_at == now,
            r.archive_id == archive.id,
            r.similarity == archive_similarity(*archive, *new_content),
            r.change_type@ == archive_change(
                old(self).settings().change_threshold_percent,
                *archive,
                *new_content,
            ),
            r.change_summary@ == archive_summary(
                old(self).settings().change_threshold_percent,
                *archive,
                *new_content,
            ),
            r.new_content is Some <==> r.change_type@ != ChangeModel::NoChange,
    {
        let start = crate::platform::now_millis();
        let note_id = crate::platform::new_uuid();
        let end = crate::platform::now_millis();
        let duration: u64 = if end >= start && (end as i128) - (start as i128) <= u64::MAX as i128 {
            ((end as i128) - (start as i128)) as u64
        } else {
            0
        };
        self.check_for_changes_at(archive, new_content, end, note_id, duration)
    }

    /// Copies of all notifications.
    pub fn get_notifications(&self) -> (r: Vec<ChangeNotification>)
        ensures
            notes_view(r@) == self@.notes,
    {
        let mut r: Vec<ChangeNotification> = Vec::new();
        let mut i: usize = 0;
        while i < self.notifications.len()
            invariant
                i <= self.notifications@.len(),
                notes_view(r@) == notes_view(self.notifications@).take(i as int),
            decreases self.notifications@.len() - i,
        {
            let ghost o = notes_view(r@);
            let d = self.notifications[i].duplicate();
            r.push(d);
            assert(notes_view(r@) =~= o.push(d@));
            assert(notes_view(self.notifications@).take(i as int + 1) =~= notes_view(
                self.notifications@,
            ).take(i as int).push(self.notifications@[i as int]@));
            i += 1;
        }
        assert(notes_view(self.notifications@).take(i as int) == notes_view(self.notifications@));
        r
    }

    /// Copies of the unread notifications, in order.
    pub fn get_unread_notifications(&self) -> (r: Vec<ChangeNotification>)
        ensures
            notes_view(r@) == self@.notes.filter(|n: NoteModel| is_unread(n)),
    {
        let ghost nv = notes_view(self.notifications@);
        let mut r: Vec<ChangeNotification> = Vec::new();
        let mut i: usize = 0;
        proof {
            reveal(Seq::filter);
        }
        assert(nv.take(0) =~= Seq::<NoteModel>::empty());
        while i < self.notifications.len()
            invariant
                i <= self.notifications@.len(),
                nv == notes_view(self.notifications@),
                notes_view(r@) == nv.take(i as int).filter(|n: NoteModel| is_unread(n)),
            decreases self.notifications@.len() - i,
        {
            let x = &self.notifications[i];
            assert(nv.take(i as int + 1) == nv.take(i as int).push(x@));
            proof {
                nv.take(i as int).lemma_filter_push(x@, |n: NoteModel| is_unread(n));
            }
            if !x.is_read {
                let ghost o = notes_view(r@);
                r.push(x.duplicate());
                assert(notes_view(r@) =~= o.push(x@));
            }
            i += 1;
        }
        assert(nv.take(nv.len() as int) == nv);
        r
    }

    fn find_note(&self, id: u128) -> (r: Option<usize>)
        ensures
            r matches Some(k) ==> note_index(self@.notes, id) == Some(k as int),
            r is None ==> note_index(self@.notes, id) is None,
    {
        let ghost v = notes_view(self.notifications@);
        let mut i: usize = 0;
        while i < self.notifications.len()
            invariant
                i <= self.notifications@.len(),
                v == notes_view(self.notifications@),
                v == self@.notes,
                note_index(v.take(i as int), id) is None,
            decreases self.notifications@.len() - i,
        {
            assert(v.take(i as int + 1).drop_last() == v.take(i as int));
            if self.notifications[i].id == id {
                proof {
                    lemma_note_index_prefix(v, id, i as int + 1);
                }
                return Some(i);
            }
            i += 1;
        }
        assert(v.take(v.len() as int) == v);
        None
    }

    /// Marks the first notification with an id as read.
    pub fn mark_notification_read(&mut self, notification_id: u128)
        ensures
            final(self)@ == (DetectorModel {
                notes: marked_read(old(self)@.notes, notification_id),
                ..old(self)@
            }),
            final(self).settings() == old(self).settings(),
    {
        if let Some(k) = self.find_note(notification_id) {
            proof {
                lemma_note_index(self@.notes, notification_id);
            }
            let ghost o = notes_view(self.notifications@);
            let mut n = self.notifications[k].duplicate();
            n.is_read = true;
            let ghost nv = n@;
            self.notifications.set(k, n);
            assert(notes_view(self.notifications@) =~= o.update(k as int, nv));
        }
    }

    /// Records the user's choice for the first notification with an id,
    /// which also marks it read.
    pub fn apply_user_action(&mut self, notification_id: u128, action: UpdateOption)
        ensures
            final(self)@ == (DetectorModel {
                notes: action_applied(old(self)@.notes, notification_id, action),
                ..old(self)@
            }),
            final(self).settings() == old(self).settings(),
    {
        if let Some(k) = self.find_note(notification_id) {
            proof {
                lemma_note_index(self@.notes, notification_id);
            }
            let ghost o = notes_view(self.notifications@);
            let mut n = self.notifications[k].duplicate();
            n.is_read = true;
            n.user_action = Some(action);
            let ghost nv = n@;
            self.notifications.set(k, n);
            assert(notes_view(self.notifications@) =~= o.update(k as int, nv));
        }
    }

    /// Removes all notifications.
    pub fn clear_notifications(&mut self)
        ensures
            final(self)@ == (DetectorModel { notes: seq![], ..old(self)@ }),
            final(self).settings() == old(self).settings(),
    {
        self.notifications = Vec::new();
        assert(notes_view(self.notifications@) =~= seq![]);
    }

    /// Removes the notifications that were read.
    pub fn clear_read_notifications(&mut self)
        ensures
            final(self)@ == (DetectorModel {
                notes: old(self)@.notes.filter(|n: NoteModel| is_unread(n)),
                ..old(self)@
            }),
            final(self).settings() == old(self).settings(),
    {
        let kept = self.get_unread_notifications();
        self.notifications = kept;
    }
}

/// `note_index` on a prefix that ends in a match.
pub proof fn lemma_note_index_prefix(v: Seq<NoteModel>, id: u128, n: int)
    requires
        0 < n <= v.len(),
        note_index(v.take(n - 1), id) is None,
        v[n - 1].id == id,
    ensures
        note_index(v, id) == Some(n - 1),
    decreases v.len(),
{
    assert(v.take(n).drop_last() == v.take(n - 1));
    assert(note_index(v.take(n), id) == Some(n - 1));
    if v.len() > n {
        assert(v.drop_last().take(n) == v.take(n));
        assert(v.drop_last().take(n - 1) == v.take(n - 1));
        lemma_note_index_prefix(v.drop_last(), id, n);
    } else {
        assert(v.take(n) == v);
    }
}

/// `history_index` on a prefix that ends in a match.
pub proof fn lemma_history_index_prefix(v: Seq<PageVersionsModel>, page: u128, n: int)
    requires
        0 < n <= v.len(),
        history_index(v.take(n - 1), page) is None,
        v[n - 1].page_id == page,
    ensures
        history_index(v, page) == Some(n - 1),
    decreases v.len(),
{
    assert(v.take(n).drop_last() == v.take(n - 1));
    assert(history_index(v.take(n), page) == Some(n - 1));
    if v.len() > n {
        assert(v.drop_last().take(n) == v.take(n));
        assert(v.drop_last().take(n - 1) == v.take(n - 1));
        lemma_history_index_prefix(v.drop_last(), page, n);
    } else {
        assert(v.take(n) == v);
    }
}

/// The mathematical value of a [`ChangeDetectionResult`].
pub ghost struct ResultModel {
    pub archive_id: u128,
    pub url: Seq<char>,
    pub change: ChangeModel,
    pub similarity: Similarity,
    pub summary: Seq<char>,
    pub has_new_content: bool,
    pub checked_at: i64,
}

impl View for ChangeDetectionResult {
    type V = ResultModel;

    open spec fn view(&self) -> ResultModel {
        ResultModel {
            archive_id: self.archive_id,
            url: self.url@,
            change: self.change_type@,
            similarity: self.similarity,
            summary: self.change_summary@,
            has_new_content: self.new_content is Some,
            checked_at: self.checked_at,
        }
    }
}

/// The views of results.
pub open spec fn results_view(v: Seq<ChangeDetectionResult>) -> Seq<ResultModel> {
    v.map_values(|x: ChangeDetectionResult| x@)
}

/// The result for an archive whose page could not be fetched.
pub open spec fn unavailable_result(archive: ContentArchive, now: i64) -> ResultModel {
    ResultModel {
        archive_id: archive.id,
        url: archive.url@,
        change: ChangeModel::PageUnavailable,
        similarity: Similarity { shared: 0, total: 1 },
        summary: "Page is no longer accessible."@,
        has_new_content: false,
        checked_at: now,
    }
}

/// The result of checking an archive against fetched content.
pub open spec fn checked_result(
    threshold: u32,
    archive: ContentArchive,
    c: PageChangeContent,
    now: i64,
) -> ResultModel {
    let change = archive_change(threshold, archive, c);
    ResultModel {
        archive_id: archive.id,
        url: archive.url@,
        change,
        similarity: archive_similarity(archive, c),
        summary: archive_summary(threshold, archive, c),
        has_new_content: change != ChangeModel::NoChange,
        checked_at: now,
    }
}

/// Checking one archive that is due, given what was fetched for it: with
/// a page, the archive is checked against it; without one, the result says
/// the page is unavailable and a notification with id `id` is added.
pub open spec fn fetched_step(
    cfg: ChangeDetectorConfig,
    st: DetectorModel,
    a: ContentArchive,
    f: Option<PageChangeContent>,
    now: i64,
    id: u128,
) -> (DetectorModel, ResultModel) {
    match f {
        Some(c) => (
            after_check(cfg.change_threshold_percent, st, a, c, now, id),
            checked_result(cfg.change_threshold_percent, a, c, now),
        ),
        None => (
            DetectorModel {
                notes: st.notes.push(
                    note_for(
                        id,
                        a.id,
                        a.url@,
                        a.title@,
                        ChangeModel::PageUnavailable,
                        "Page is no longer accessible."@,
                        now,
                    ),
                ),
                ..st
            },
            unavailable_result(a, now),
        ),
    }
}

/// How many archives of a batch are looked at: at most `batch_size`.
pub open spec fn batch_limit(cfg: ChangeDetectorConfig, len: nat) -> nat {
    if len <= cfg.batch_size {
        len
    } else {
        cfg.batch_size as nat
    }
}

/// The state and results after the first `k` archives of a batch: an
/// archive not due for a check is skipped; one whose page was fetched
/// (`fetched[j]`) is checked; one whose page could not be fetched gives an
/// unavailable result and a notification; notifications take `ids[j]`.
pub open spec fn batch_state(
    cfg: ChangeDetectorConfig,
    m: DetectorModel,
    archives: Seq<ContentArchive>,
    fetched: Seq<Option<PageChangeContent>>,
    now: i64,
    ids: Seq<u128>,
    k: nat,
) -> (DetectorModel, Seq<ResultModel>)
    decreases k,
{
    if k == 0 {
        (m, seq![])
    } else {
        let (st, rs) = batch_state(cfg, m, archives, fetched, now, ids, (k - 1) as nat);
        let a = archives[k - 1];
        if !due_for_check(st.checks, a.url@, cfg.min_check_interval_hours, now) {
            (st, rs)
        } else {
            let (st2, r) = fetched_step(cfg, st, a, fetched[k - 1], now, ids[k - 1]);
            (st2, rs.push(r))
        }
    }
}

/// Archives that are not due leave a batch where it was: if none of
/// `archives[from..k]` is due in the state reached after `from`, the state
/// and results after `k` are those after `from`. So a batch is run by
/// checking, in order, only the archives that are due when reached.
pub proof fn law_batch_skips_archives_not_due(
    cfg: ChangeDetectorConfig,
    m: DetectorModel,
    archives: Seq<ContentArchive>,
    fetched: Seq<Option<PageChangeContent>>,
    now: i64,
    ids: Seq<u128>,
    from: nat,
    k: nat,
)
    requires
        from <= k <= archives.len(),
        forall|j: int|
            from <= j < k ==> !due_for_check(
                batch_state(cfg, m, archives, fetched, now, ids, from).0.checks,
                (#[trigger] archives[j]).url@,
                cfg.min_check_interval_hours,
                now,
            ),
    ensures
        batch_state(cfg, m, archives, fetched, now, ids, k) == batch_state(
            cfg,
            m,
            archives,
            fetched,
            now,
            ids,
            from,
        ),
    decreases k - from,
{
    if k > from {
        law_batch_skips_archives_not_due(cfg, m, archives, fetched, now, ids, from, (k - 1) as nat);
        assert(!due_for_check(
            batch_state(cfg, m, archives, fetched, now, ids, from).0.checks,
            archives[k - 1].url@,
            cfg.min_check_interval_hours,
            now,
        ));
    }
}

/// The lines of the new text that the old one lacks, and so on: see
/// [`VersionComparison`].
pub open spec fn added_lines(old_text: Seq<char>, new_text: Seq<char>) -> Seq<Seq<char>> {
    lines(new_text).filter(|l: Seq<char>| !lines(old_text).contains(l))
}

/// The lines of the old text that the new one lacks.
pub open spec fn removed_lines(old_text: Seq<char>, new_text: Seq<char>) -> Seq<Seq<char>> {
    lines(old_text).filter(|l: Seq<char>| !lines(new_text).contains(l))
}

/// The number of lines of the new text that the old one has.
pub open spec fn unchanged_count(old_text: Seq<char>, new_text: Seq<char>) -> nat {
    lines(new_text).filter(|l: Seq<char>| lines(old_text).contains(l)).len()
}

/// The lines of `v`, in order, whose presence in `other` is `present`.
fn lines_by_presence(v: &Vec<Vec<char>>, other: &Vec<Vec<char>>, present: bool) -> (r: (
    Vec<String>,
    usize,
))
    ensures
        present ==> r.1 == char_vecs(v@).filter(|l: Seq<char>| char_vecs(other@).contains(l)).len(),
        !present ==> crate::text::strings_view(r.0@) == char_vecs(v@).filter(
            |l: Seq<char>| !char_vecs(other@).contains(l),
        ),
{
    let ghost vv = char_vecs(v@);
    let ghost ov = char_vecs(other@);
    let ghost pin = |l: Seq<char>| ov.contains(l);
    let ghost pout = |l: Seq<char>| !ov.contains(l);
    let mut out: Vec<String> = Vec::new();
    let mut count: usize = 0;
    let mut i: usize = 0;
    proof {
        reveal(Seq::filter);
    }
    assert(vv.take(0) =~= Seq::<Seq<char>>::empty());
    assert(crate::text::strings_view(out@) =~= Seq::<Seq<char>>::empty());
    while i < v.len()
        invariant
            i <= v@.len(),
            vv == char_vecs(v@),
            ov == char_vecs(other@),
            pin == |l: Seq<char>| ov.contains(l),
            pout == |l: Seq<char>| !ov.contains(l),
            count == vv.take(i as int).filter(pin).len(),
            count <= i,
            crate::text::strings_view(out@) == vv.take(i as int).filter(pout),
        decreases v@.len() - i,
    {
        assert(vv.take(i as int + 1) == vv.take(i as int).push(v@[i as int]@));
        proof {
            vv.take(i as int).lemma_filter_push(v@[i as int]@, pin);
            vv.take(i as int).lemma_filter_push(v@[i as int]@, pout);
        }
        if contains_chars_vec(other, &v[i]) {
            count += 1;
        } else {
            let ghost o = crate::text::strings_view(out@);
            let s = string_from_chars(&v[i]);
            out.push(s);
            assert(crate::text::strings_view(out@) =~= o.push(v@[i as int]@));
        }
        i += 1;
    }
    assert(vv.take(vv.len() as int) == vv);
    (out, count)
}

impl ChangeDetector {
    /// Compares two texts line by line.
    pub fn compare_versions(&self, old_content: &str, new_content: &str) -> (r: VersionComparison)
        ensures
            crate::text::strings_view(r.added_lines@) == added_lines(old_content@, new_content@),
            crate::text::strings_view(r.removed_lines@) == removed_lines(old_content@, new_content@),
            r.unchanged_lines == unchanged_count(old_content@, new_content@),
            r.change_percentage.changed == added_lines(old_content@, new_content@).len() + removed_lines(
                old_content@,
                new_content@,
            ).len(),
            r.change_percentage.total == lines(old_content@).len() + lines(new_content@).len(),
            r.change_percentage.changed <= r.change_percentage.total,
            r.change_percentage.total <= 2 * usize::MAX,
    {
        let old_lines = split_lines(&chars_of(old_content));
        let new_lines = split_lines(&chars_of(new_content));
        let (added, _) = lines_by_presence(&new_lines, &old_lines, false);
        let (_, unchanged) = lines_by_presence(&new_lines, &old_lines, true);
        let (removed, _) = lines_by_presence(&old_lines, &new_lines, false);
        proof {
            let ol = lines(old_content@);
            let nl = lines(new_content@);
            nl.lemma_filter_len(|l: Seq<char>| !ol.contains(l));
            ol.lemma_filter_len(|l: Seq<char>| !nl.contains(l));
        }
        let changed: u128 = added.len() as u128 + removed.len() as u128;
        let total: u128 = old_lines.len() as u128 + new_lines.len() as u128;
        VersionComparison {
            added_lines: added,
            removed_lines: removed,
            unchanged_lines: unchanged,
            change_percentage: LineShare { changed, total },
        }
    }

    /// The FNV-1a checksum of a text, in 16 hexadecimal digits.
    pub fn calculate_checksum(&self, content: &str) -> (r: String)
        ensures
            r@ == fnv_checksum(content@),
    {
        checksum(content)
    }
}

impl ChangeDetector {
    fn find_history(&self, page_id: u128) -> (r: Option<usize>)
        ensures
            r matches Some(k) ==> history_index(self@.histories, page_id) == Some(k as int),
            r is None ==> history_index(self@.histories, page_id) is None,
    {
        let ghost v = histories_view(self.version_history@);
        let mut i: usize = 0;
        while i < self.version_history.len()
            invariant
                i <= self.version_history@.len(),
                v == histories_view(self.version_history@),
                v == self@.histories,
                history_index(v.take(i as int), page_id) is None,
            decreases self.version_history@.len() - i,
        {
            assert(v.take(i as int + 1).drop_last() == v.take(i as int));
            if self.version_history[i].page_id == page_id {
                proof {
                    lemma_history_index_prefix(v, page_id, i as int + 1);
                }
                return Some(i);
            }
            i += 1;
        }
        assert(v.take(v.len() as int) == v);
        None
    }

    /// Adds a version of a page at time `now`, numbered one past the page's
    /// current count; the oldest version leaves where the page then has more
    /// than the configured maximum.
    pub fn add_version_at(
        &mut self,
        page_id: u128,
        archive_id: u128,
        checksum: &str,
        size_bytes: u64,
        change_type: ChangeType,
        now: i64,
    )
        ensures
            final(self)@ == (DetectorModel {
                histories: histories_added(
                    old(self)@.histories,
                    page_id,
                    archive_id,
                    checksum@,
                    size_bytes,
                    change_type@,
                    now,
                    old(self).settings().max_versions_per_page as nat,
                ),
                ..old(self)@
            }),
            final(self).settings() == old(self).settings(),
    {
        let ghost hv = histories_view(self.version_history@);
        let ghost max = self.config.max_versions_per_page as nat;
        let found = self.find_history(page_id);
        proof {
            lemma_history_index(hv, page_id);
        }
        let mut versions: Vec<ArchiveVersion> = match found {
            Some(k) => {
                let mut c: Vec<ArchiveVersion> = Vec::new();
                let src = &self.version_history[k].versions;
                let mut i: usize = 0;
                while i < src.len()
                    invariant
                        i <= src@.len(),
                        versions_view(c@) == versions_view(src@).take(i as int),
                    decreases src@.len() - i,
                {
                    let ghost o = versions_view(c@);
                    let d = src[i].duplicate();
                    c.push(d);
                    assert(versions_view(c@) =~= o.push(d@));
                    assert(versions_view(src@).take(i as int + 1) =~= versions_view(src@).take(
                        i as int,
                    ).push(src@[i as int]@));
                    i += 1;
                }
                assert(versions_view(src@).take(src@.len() as int) == versions_view(src@));
                c
            },
            None => {
                let c: Vec<ArchiveVersion> = Vec::new();
                assert(versions_view(c@) =~= seq![]);
                c
            },
        };
        let ghost vs = versions_of(hv, page_id);
        assert(versions_view(versions@) == vs);
        let number: u32 = if versions.len() == 0 {
            1
        } else {
            versions[versions.len() - 1].version.wrapping_add(1)
        };
        let v = ArchiveVersion {
            version: number,
            archive_id,
            created_at: now,
            checksum: string_from_chars(&chars_of(checksum)),
            size_bytes,
            change_from_previous: change_type,
        };
        let ghost vv = v@;
        assert(vv == next_version(vs, archive_id, checksum@, size_bytes, change_type@, now));
        versions.push(v);
        assert(versions_view(versions@) =~= vs.push(vv));
        if versions.len() > self.config.max_versions_per_page {
            let ghost before = versions_view(versions@);
            versions.remove(0);
            assert(versions_view(versions@) =~= before.drop_first());
        }
        let entry = PageVersions { page_id, versions };
        let ghost ev = entry@;
        match found {
            Some(k) => {
                self.version_history.set(k, entry);
                assert(histories_view(self.version_history@) =~= hv.update(k as int, ev));
            },
            None => {
                self.version_history.push(entry);
                assert(histories_view(self.version_history@) =~= hv.push(ev));
            },
        }
    }

    /// Adds a version of a page now.
    pub fn add_version(
        &mut self,
        page_id: u128,
        archive_id: u128,
        checksum: &str,
        size_bytes: u64,
        change_type: ChangeType,
    )
        ensures
            exists|now: i64|
                final(self)@ == (DetectorModel {
                    histories: #[trigger] histories_added(
                        old(self)@.histories,
                        page_id,
                        archive_id,
                        checksum@,
                        size_bytes,
                        change_type@,
                        now,
                        old(self).settings().max_versions_per_page as nat,
                    ),
                    ..old(self)@
                }),
            final(self).settings() == old(self).settings(),
    {
        let now = crate::platform::now_millis();
        self.add_version_at(page_id, archive_id, checksum, size_bytes, change_type, now);
    }

    /// Copies of a page's versions, oldest first.
    pub fn get_version_history(&self, page_id: u128) -> (r: Vec<ArchiveVersion>)
        ensures
            versions_view(r@) == versions_of(self@.histories, page_id),
    {
        match self.find_history(page_id) {
            Some(k) => {
                proof {
                    lemma_history_index(self@.histories, page_id);
                }
                let src = &self.version_history[k].versions;
                let mut c: Vec<ArchiveVersion> = Vec::new();
                let mut i: usize = 0;
                while i < src.len()
                    invariant
                        i <= src@.len(),
                        versions_view(c@) == versions_view(src@).take(i as int),
                    decreases src@.len() - i,
                {
                    let ghost o = versions_view(c@);
                    let d = src[i].duplicate();
                    c.push(d);
                    assert(versions_view(c@) =~= o.push(d@));
                    assert(versions_view(src@).take(i as int + 1) =~= versions_view(src@).take(
                        i as int,
                    ).push(src@[i as int]@));
                    i += 1;
                }
                assert(versions_view(src@).take(src@.len() as int) == versions_view(src@));
                c
            },
            None => {
                let c: Vec<ArchiveVersion> = Vec::new();
                assert(versions_view(c@) =~= seq![]);
                c
            },
        }
    }

    /// A copy of a page's newest version.
    pub fn get_latest_version(&self, page_id: u128) -> (r: Option<ArchiveVersion>)
        ensures
            versions_of(self@.histories, page_id).len() == 0 ==> r is None,
            versions_of(self@.histories, page_id).len() > 0 ==> (r matches Some(v) && v@
                == versions_of(self@.histories, page_id).last()),
    {
        match self.find_history(page_id) {
            Some(k) => {
                proof {
                    lemma_history_index(self@.histories, page_id);
                }
                let src = &self.version_history[k].versions;
                if src.len() == 0 {
                    None
                } else {
                    Some(src[src.len() - 1].duplicate())
                }
            },
            None => None,
        }
    }

    /// The first archive of the batch at or after `from` that is due for a
    /// check at time `now`: the next page to fetch. Only the first
    /// `batch_size` archives belong to the batch.
    pub fn next_archive_to_check_at(&self, archives: &[ContentArchive], from: usize, now: i64) -> (r:
        Option<usize>)
        ensures
            match r {
                Some(k) => {
                    &&& from <= k < batch_limit(self.settings(), archives@.len())
                    &&& due_for_check(
                        self@.checks,
                        archives@[k as int].url@,
                        self.settings().min_check_interval_hours,
                        now,
                    )
                    &&& forall|j: int|
                        from <= j < k ==> !due_for_check(
                            self@.checks,
                            (#[trigger] archives@[j]).url@,
                            self.settings().min_check_interval_hours,
                            now,
                        )
                },
                None => forall|j: int|
                    from <= j < batch_limit(self.settings(), archives@.len()) ==> !due_for_check(
                        self@.checks,
                        (#[trigger] archives@[j]).url@,
                        self.settings().min_check_interval_hours,
                        now,
                    ),
            },
    {
        let n = if archives.len() <= self.config.batch_size {
            archives.len()
        } else {
            self.config.batch_size
        };
        let mut k = from;
        while k < n
            invariant
                n == batch_limit(self.settings(), archives@.len()),
                n <= archives@.len(),
                from <= k || n <= k,
                forall|j: int|
                    from <= j < k && j < n ==> !due_for_check(
                        self@.checks,
                        (#[trigger] archives@[j]).url@,
                        self.settings().min_check_interval_hours,
                        now,
                    ),
            decreases n - k,
        {
            if self.should_check_at(&archives[k].url, now) {
                return Some(k);
            }
            k += 1;
        }
        None
    }

    /// Checks one archive that is due at time `now`, given what was fetched
    /// for it: with a page, the archive is checked against it; without one,
    /// the result says the page is unavailable and a notification with id
    /// `id` is added.
    pub fn check_fetched_at(
        &mut self,
        archive: &ContentArchive,
        fetched: &Option<PageChangeContent>,
        now: i64,
        id: u128,
    ) -> (r: ChangeDetectionResult)
        ensures
            final(self).settings() == old(self).settings(),
            (final(self)@, r@) == fetched_step(old(self).settings(), old(self)@, *archive, *fetched, now, id),
    {
        match fetched {
            Some(c) => self.check_for_changes_at(archive, c, now, id, 0),
            None => {
                let note = ChangeNotification {
                    id,
                    archive_id: archive.id,
                    url: copy_string(&archive.url),
                    title: copy_string(&archive.title),
                    change_type: ChangeType::PageUnavailable,
                    summary: "Page is no longer accessible.".to_string(),
                    created_at: now,
                    is_read: false,
                    user_action: None,
                };
                let ghost on = notes_view(self.notifications@);
                let ghost nv = note@;
                self.notifications.push(note);
                assert(notes_view(self.notifications@) =~= on.push(nv));
                ChangeDetectionResult {
                    archive_id: archive.id,
                    url: copy_string(&archive.url),
                    change_type: ChangeType::PageUnavailable,
                    similarity: Similarity { shared: 0, total: 1 },
                    change_summary: "Page is no longer accessible.".to_string(),
                    new_content: None,
                    checked_at: now,
                    check_duration_ms: 0,
                }
            },
        }
    }

    /// Checks the first archives of a batch at time `now`; `fetched[j]` is the
    /// page fetched for `archives[j]`, or none where it could not be fetched,
    /// and notifications take `ids[j]`. See [`batch_state`].
    pub fn check_batch_at(
        &mut self,
        archives: &[ContentArchive],
        fetched: &[Option<PageChangeContent>],
        now: i64,
        ids: &[u128],
    ) -> (r: Vec<ChangeDetectionResult>)
        requires
            fetched@.len() >= archives@.len(),
            ids@.len() >= archives@.len(),
        ensures
            final(self).settings() == old(self).settings(),
            ({
                let n = if archives@.len() <= old(self).settings().batch_size {
                    archives@.len()
                } else {
                    old(self).settings().batch_size as nat
                };
                let (m, rs) = batch_state(
                    old(self).settings(),
                    old(self)@,
                    archives@,
                    fetched@,
                    now,
                    ids@,
                    n,
                );
                final(self)@ == m && results_view(r@) == rs
            }),
    {
        let n = if archives.len() <= self.config.batch_size {
            archives.len()
        } else {
            self.config.batch_size
        };
        let ghost cfg = self.config;
        let ghost m0 = self@;
        let mut results: Vec<ChangeDetectionResult> = Vec::new();
        let mut k: usize = 0;
        assert(results_view(results@) =~= seq![]);
        while k < n
            invariant
                k <= n,
                n <= archives@.len(),
                fetched@.len() >= archives@.len(),
                ids@.len() >= archives@.len(),
                self.settings() == cfg,
                ({
                    let (m, rs) = batch_state(cfg, m0, archives@, fetched@, now, ids@, k as nat);
                    self@ == m && results_view(results@) == rs
                }),
            decreases n - k,
        {
            let a = &archives[k];
            if self.should_check_at(&a.url, now) {
                let res = self.check_fetched_at(a, &fetched[k], now, ids[k]);
                let ghost o = results_view(results@);
                let ghost rv = res@;
                results.push(res);
                assert(results_view(results@) =~= o.push(rv));
            }
            k += 1;
        }
        results
    }

    /// Counts of notifications, tracked URLs and versions.
    pub fn get_stats(&self) -> (r: ChangeDetectorStats)
        ensures
            r.total_notifications == self@.notes.len(),
            r.unread_notifications == self@.notes.filter(|n: NoteModel| is_unread(n)).len(),
            r.urls_tracked == self@.checks.len(),
            r.total_versions == total_versions(self@.histories),
            r.pages_with_versions == self@.histories.len(),
    {
        let unread = self.get_unread_notifications();
        let ghost hv = histories_view(self.version_history@);
        let mut total: u128 = 0;
        let mut i: usize = 0;
        while i < self.version_history.len()
            invariant
                i <= self.version_history@.len(),
                hv == histories_view(self.version_history@),
                total == total_versions(hv.take(i as int)),
                total <= i * 0x1_0000_0000_0000_0000,
            decreases self.version_history@.len() - i,
        {
            assert(hv.take(i as int + 1).drop_last() == hv.take(i as int));
            let add = self.version_history[i].versions.len();
            assert(hv.take(i as int + 1).last().versions.len() == add);
            total = total + add as u128;
            i += 1;
        }
        assert(hv.take(hv.len() as int) == hv);
        ChangeDetectorStats {
            total_notifications: self.notifications.len(),
            unread_notifications: unread.len(),
            urls_tracked: self.last_check_times.len(),
            total_versions: total,
            pages_with_versions: self.version_history.len(),
        }
    }
}

impl Default for ChangeDetector {
    fn default() -> (r: Self)
        ensures
            r.settings().change_threshold_percent == 85,
            r@ == (DetectorModel { checks: seq![], notes: seq![], histories: seq![] }),
    {
        Self::new()
    }
}


/// Content whose checksum matches the archived one is unchanged.
pub proof fn law_same_checksum_is_no_change(
    threshold: u32,
    sim: Similarity,
    checksum: Seq<char>,
    old_title: Seq<char>,
    new_title: Seq<char>,
)
    ensures
        classification(threshold, sim, Some(checksum), checksum, old_title, new_title) == ChangeModel::NoChange,
{
}

/// Identical text is unchanged under any threshold up to 100 percent.
pub proof fn law_identical_text_is_no_change(
    threshold: u32,
    text: Seq<char>,
    old_checksum: Option<Seq<char>>,
    new_checksum: Seq<char>,
    old_title: Seq<char>,
    new_title: Seq<char>,
    sim: Similarity,
)
    requires
        threshold <= 100,
        (sim.shared as int, sim.total as int) == similarity_of(text, text),
    ensures
        classification(threshold, sim, old_checksum, new_checksum, old_title, new_title) == ChangeModel::NoChange,
{
}

/// A page's version list never grows past its limit, and the version just
/// added is its newest wherever the limit allows any.
pub proof fn law_version_history_bounded(vs: Seq<VersionModel>, v: VersionModel, max: nat)
    requires
        vs.len() <= max,
    ensures
        with_version(vs, v, max).len() <= max,
        max > 0 ==> with_version(vs, v, max).last() == v,
{
}

/// Whether version numbers strictly increase from oldest to newest.
pub open spec fn versions_increase(vs: Seq<VersionModel>) -> bool {
    forall|i: int, j: int| #![trigger vs[i], vs[j]] 0 <= i < j < vs.len() ==> vs[i].version < vs[j].version
}

/// A page's first version is numbered 1 and each later one one past the
/// newest before it, so numbers keep increasing (short of the largest
/// number) however many versions the limit drops.
pub proof fn law_version_numbers_increase(
    vs: Seq<VersionModel>,
    archive_id: u128,
    checksum: Seq<char>,
    size_bytes: u64,
    change: ChangeModel,
    now: i64,
    max: nat,
)
    requires
        versions_increase(vs),
        vs.len() > 0 ==> vs.last().version < u32::MAX,
    ensures
        next_version(vs, archive_id, checksum, size_bytes, change, now).version == if vs.len() == 0 {
            1
        } else {
            vs.last().version + 1
        },
        versions_increase(with_version(vs, next_version(vs, archive_id, checksum, size_bytes, change, now), max)),
{
    let v = next_version(vs, archive_id, checksum, size_bytes, change, now);
    if vs.len() > 0 {
        assert(vstd::wrapping::u32_specs::wrapping_add(vs.last().version, 1) == vs.last().version + 1);
    }
    let a = vs.push(v);
    assert forall|i: int, j: int| #![trigger a[i], a[j]] 0 <= i < j < a.len() implies a[i].version < a[j].version by {
        if j == vs.len() {
            if i < vs.len() - 1 {
                assert(vs[i].version < vs[vs.len() - 1].version);
            }
        } else {
            assert(vs[i].version < vs[j].version);
        }
    }
    if a.len() > max {
        let d = a.drop_first();
        assert forall|i: int, j: int| #![trigger d[i], d[j]] 0 <= i < j < d.len() implies d[i].version < d[j].version by {
            assert(d[i] == a[i + 1] && d[j] == a[j + 1]);
        }
    }
}

} // verus!
