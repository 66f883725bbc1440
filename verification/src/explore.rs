//! The explore page that gathers listings from every book source: which listing
//! of a source best fits a requested category, and how the gathered books rank.
use vstd::prelude::*;
use crate::available::books_view;
use crate::search::hit_detail;
use crate::model::{
    copy_opt, copy_strings, merge_key_of, opt_view, strings_contain, strings_view, BookSource,
    ExploreKind, SearchBook, SearchBookView,
};
use crate::text::{
    chars_of, contains_chars, has_substring, is_white_space, is_whitespace_char, lowercase_chars,
    lowercase_seq, same_chars, string_of, trim_chars, trim_ws,
};

verus! {

/// The categories of the gathered explore page.
#[derive(Debug, Clone, Copy, PartialEq, Eq, Structural)]
pub enum GlobalExploreCategory {
    Mixed,
    Rank,
    New,
    Finished,
    Fantasy,
    Urban,
    History,
    SciFi,
    Suspense,
}

/// The categories in the order they are looked up.
pub open spec fn category_table() -> Seq<GlobalExploreCategory> {
    seq![
        GlobalExploreCategory::Mixed,
        GlobalExploreCategory::Rank,
        GlobalExploreCategory::New,
        GlobalExploreCategory::Finished,
        GlobalExploreCategory::Fantasy,
        GlobalExploreCategory::Urban,
        GlobalExploreCategory::History,
        GlobalExploreCategory::SciFi,
        GlobalExploreCategory::Suspense,
    ]
}

/// The key a client names a category by.
pub open spec fn category_key(c: GlobalExploreCategory) -> Seq<char> {
    match c {
        GlobalExploreCategory::Mixed => "mixed"@,
        GlobalExploreCategory::Rank => "rank"@,
        GlobalExploreCategory::New => "new"@,
        GlobalExploreCategory::Finished => "finished"@,
        GlobalExploreCategory::Fantasy => "fantasy"@,
        GlobalExploreCategory::Urban => "urban"@,
        GlobalExploreCategory::History => "history"@,
        GlobalExploreCategory::SciFi => "sci-fi"@,
        GlobalExploreCategory::Suspense => "suspense"@,
    }
}

/// The title a category is shown with.
pub open spec fn category_title(c: GlobalExploreCategory) -> Seq<char> {
    match c {
        GlobalExploreCategory::Mixed => "综合"@,
        GlobalExploreCategory::Rank => "排行"@,
        GlobalExploreCategory::New => "新书"@,
        GlobalExploreCategory::Finished => "完本"@,
        GlobalExploreCategory::Fantasy => "玄幻"@,
        GlobalExploreCategory::Urban => "都市"@,
        GlobalExploreCategory::History => "历史"@,
        GlobalExploreCategory::SciFi => "科幻"@,
        GlobalExploreCategory::Suspense => "悬疑"@,
    }
}

/// The words that mark a listing title as belonging to a category.
pub open spec fn category_keywords(c: GlobalExploreCategory) -> Seq<Seq<char>> {
    match c {
        GlobalExploreCategory::Mixed => seq![],
        GlobalExploreCategory::Rank => hot_keywords(),
        GlobalExploreCategory::New => seq!["新书"@, "最新"@, "入库"@, "更新"@],
        GlobalExploreCategory::Finished => seq!["完本"@, "全本"@, "完结"@],
        GlobalExploreCategory::Fantasy => seq!["玄幻"@, "奇幻"@, "魔法"@, "修仙"@, "仙侠"@],
        GlobalExploreCategory::Urban => seq!["都市"@, "言情"@, "生活"@, "职场"@],
        GlobalExploreCategory::History => seq!["历史"@, "军事"@, "战争"@, "架空"@],
        GlobalExploreCategory::SciFi => seq!["科幻"@, "未来"@, "末世"@, "星际"@],
        GlobalExploreCategory::Suspense => seq!["悬疑"@, "灵异"@, "推理"@, "侦探"@, "惊悚"@],
    }
}

/// The words that mark a listing as popular.
pub open spec fn hot_keywords() -> Seq<Seq<char>> {
    seq!["排行"@, "榜"@, "热门"@, "点击"@, "推荐"@, "人气"@, "收藏"@, "月票"@]
}

/// The words that mark a listing as new rather than popular.
pub open spec fn cold_keywords() -> Seq<Seq<char>> {
    seq!["新书"@, "最新"@, "更新"@]
}

fn hot_keyword_list() -> (r: Vec<&'static str>)
    ensures
        r@.map_values(|s: &'static str| s@) == hot_keywords(),
{
    let r = vec!["排行", "榜", "热门", "点击", "推荐", "人气", "收藏", "月票"];
    assert(r@.map_values(|s: &'static str| s@) =~= hot_keywords());
    r
}

fn cold_keyword_list() -> (r: Vec<&'static str>)
    ensures
        r@.map_values(|s: &'static str| s@) == cold_keywords(),
{
    let r = vec!["新书", "最新", "更新"];
    assert(r@.map_values(|s: &'static str| s@) =~= cold_keywords());
    r
}

impl GlobalExploreCategory {
    /// The key a client names this category by.
    pub fn key(&self) -> (r: &'static str)
        ensures
            r@ == category_key(*self),
    {
        match self {
            GlobalExploreCategory::Mixed => "mixed",
            GlobalExploreCategory::Rank => "rank",
            GlobalExploreCategory::New => "new",
            GlobalExploreCategory::Finished => "finished",
            GlobalExploreCategory::Fantasy => "fantasy",
            GlobalExploreCategory::Urban => "urban",
            GlobalExploreCategory::History => "history",
            GlobalExploreCategory::SciFi => "sci-fi",
            GlobalExploreCategory::Suspense => "suspense",
        }
    }

    /// The title this category is shown with.
    pub fn title(&self) -> (r: &'static str)
        ensures
            r@ == category_title(*self),
    {
        match self {
            GlobalExploreCategory::Mixed => "综合",
            GlobalExploreCategory::Rank => "排行",
            GlobalExploreCategory::New => "新书",
            GlobalExploreCategory::Finished => "完本",
            GlobalExploreCategory::Fantasy => "玄幻",
            GlobalExploreCategory::Urban => "都市",
            GlobalExploreCategory::History => "历史",
            GlobalExploreCategory::SciFi => "科幻",
            GlobalExploreCategory::Suspense => "悬疑",
        }
    }

    /// The words that mark a listing title as belonging to this category.
    pub fn keywords(&self) -> (r: Vec<&'static str>)
        ensures
            r@.map_values(|s: &'static str| s@) == category_keywords(*self),
    {
        let r = match self {
            GlobalExploreCategory::Mixed => Vec::new(),
            GlobalExploreCategory::Rank => hot_keyword_list(),
            GlobalExploreCategory::New => vec!["新书", "最新", "入库", "更新"],
            GlobalExploreCategory::Finished => vec!["完本", "全本", "完结"],
            GlobalExploreCategory::Fantasy => vec!["玄幻", "奇幻", "魔法", "修仙", "仙侠"],
            GlobalExploreCategory::Urban => vec!["都市", "言情", "生活", "职场"],
            GlobalExploreCategory::History => vec!["历史", "军事", "战争", "架空"],
            GlobalExploreCategory::SciFi => vec!["科幻", "未来", "末世", "星际"],
            GlobalExploreCategory::Suspense => vec!["悬疑", "灵异", "推理", "侦探", "惊悚"],
        };
        assert(r@.map_values(|s: &'static str| s@) =~= category_keywords(*self));
        r
    }
}

/// Characters that the comparison of explore titles ignores besides white space.
pub open spec fn is_title_separator(c: char) -> bool {
    c == '·' || c == '-' || c == '_' || c == '|' || c == '/' || c == '\\'
}

/// An explore title as compared: without white space and separators, lowercased.
pub open spec fn compact_global(s: Seq<char>) -> Seq<char> {
    lowercase_seq(s.filter(|c: char| !is_white_space(c) && !is_title_separator(c)))
}

fn compact_global_chars(s: &Vec<char>) -> (r: Vec<char>)
    ensures
        r@ == compact_global(s@),
{
    let mut kept: Vec<char> = Vec::new();
    let mut i: usize = 0;
    while i < s.len()
        invariant
            i <= s.len(),
            kept@ == s@.take(i as int).filter(|c: char| !is_white_space(c) && !is_title_separator(c)),
        decreases s.len() - i,
    {
        reveal(Seq::filter);
        assert(s@.take(i as int + 1).drop_last() == s@.take(i as int));
        let c = s[i];
        if !is_whitespace_char(c) && !(c == '·' || c == '-' || c == '_' || c == '|' || c == '/'
            || c == '\\') {
            kept.push(c);
        }
        i += 1;
    }
    assert(s@.take(s@.len() as int) == s@);
    lowercase_chars(&kept)
}

/// Compacts an explore title for comparison (see [`compact_global`]).
pub fn compact_global_text(value: &str) -> (r: String)
    ensures
        r@ == compact_global(value@),
{
    string_of(&compact_global_chars(&chars_of(value)))
}

/// How many of `keywords`, compacted, occur in `text`.
pub open spec fn keyword_hit_count(text: Seq<char>, keywords: Seq<Seq<char>>) -> nat
    decreases keywords.len(),
{
    if keywords.len() == 0 {
        0
    } else {
        keyword_hit_count(text, keywords.drop_last()) + if has_substring(
            text,
            compact_global(keywords.last()),
        ) {
            1nat
        } else {
            0nat
        }
    }
}

proof fn lemma_keyword_hit_count_bound(text: Seq<char>, keywords: Seq<Seq<char>>)
    ensures
        keyword_hit_count(text, keywords) <= keywords.len(),
    decreases keywords.len(),
{
    if keywords.len() > 0 {
        lemma_keyword_hit_count_bound(text, keywords.drop_last());
    }
}

/// How many of `keywords`, compacted, occur in `text` (see [`keyword_hit_count`]).
pub fn keyword_hits(text: &str, keywords: &[&str]) -> (r: usize)
    ensures
        r == keyword_hit_count(text@, keywords@.map_values(|s: &str| s@)),
        r <= keywords@.len(),
{
    let t = chars_of(text);
    let ghost kws = keywords@.map_values(|s: &str| s@);
    let mut count: usize = 0;
    let mut i: usize = 0;
    while i < keywords.len()
        invariant
            i <= keywords@.len(),
            t@ == text@,
            kws == keywords@.map_values(|s: &str| s@),
            count == keyword_hit_count(t@, kws.take(i as int)),
            count <= i,
        decreases keywords.len() - i,
    {
        assert(kws.take(i as int + 1).drop_last() == kws.take(i as int));
        assert(kws.take(i as int + 1).last() == keywords@[i as int]@);
        let k = compact_global_chars(&chars_of(keywords[i]));
        if contains_chars(&t, &k) {
            count += 1;
        }
        i += 1;
    }
    assert(kws.take(keywords@.len() as int) == kws);
    count
}

/// The first category of `table` that `s` names, by key or by compacted title.
pub open spec fn find_category_in(table: Seq<GlobalExploreCategory>, s: Seq<char>) -> Option<
    GlobalExploreCategory,
>
    decreases table.len(),
{
    if table.len() == 0 {
        None
    } else if category_key(table[0]) == s || compact_global(category_title(table[0]))
        == compact_global(s) {
        Some(table[0])
    } else {
        find_category_in(table.drop_first(), s)
    }
}

/// The category a client names by key or title; the mixed category otherwise.
pub open spec fn category_named(s: Seq<char>) -> GlobalExploreCategory {
    match find_category_in(category_table(), s) {
        Some(c) => c,
        None => GlobalExploreCategory::Mixed,
    }
}

fn all_categories() -> (r: Vec<GlobalExploreCategory>)
    ensures
        r@ == category_table(),
{
    let r = vec![
        GlobalExploreCategory::Mixed,
        GlobalExploreCategory::Rank,
        GlobalExploreCategory::New,
        GlobalExploreCategory::Finished,
        GlobalExploreCategory::Fantasy,
        GlobalExploreCategory::Urban,
        GlobalExploreCategory::History,
        GlobalExploreCategory::SciFi,
        GlobalExploreCategory::Suspense,
    ];
    assert(r@ =~= category_table());
    r
}

/// The category a client names by key or title (see [`category_named`]).
pub fn find_global_explore_category(key_or_title: &str) -> (r: GlobalExploreCategory)
    ensures
        r == category_named(key_or_title@),
{
    let table = all_categories();
    let s = chars_of(key_or_title);
    let normalized = compact_global_chars(&s);
    let mut i: usize = 0;
    assert(category_table().skip(0) == category_table());
    while i < table.len()
        invariant
            i <= table@.len(),
            table@ == category_table(),
            s@ == key_or_title@,
            normalized@ == compact_global(s@),
            find_category_in(category_table(), s@) == find_category_in(
                category_table().skip(i as int),
                s@,
            ),
        decreases table.len() - i,
    {
        let c = table[i];
        assert(category_table().skip(i as int)[0] == c);
        assert(category_table().skip(i as int).drop_first() == category_table().skip(i + 1));
        let by_key = same_chars(&chars_of(c.key()), &s);
        let by_title = same_chars(&compact_global_chars(&chars_of(c.title())), &normalized);
        if by_key || by_title {
            return c;
        }
        i += 1;
    }
    assert(category_table().skip(i as int).len() == 0);
    GlobalExploreCategory::Mixed
}

/// The score of an explore listing titled `title` for a category: for the mixed
/// category 20 plus 8 per popularity word, or 1 without one; for the ranking
/// category 30 plus 8 per popularity word, and no score without one; for the
/// others, when the title names the category, 20 plus 8 per popularity word
/// minus 5 per newness word, and no score otherwise.
pub open spec fn explore_kind_score(c: GlobalExploreCategory, title: Seq<char>) -> Option<int> {
    let normalized = compact_global(title);
    let hot = keyword_hit_count(normalized, hot_keywords()) as int;
    if c == GlobalExploreCategory::Mixed {
        Some(
            if hot > 0 {
                20 + hot * 8
            } else {
                1
            },
        )
    } else if c == GlobalExploreCategory::Rank {
        if hot > 0 {
            Some(30 + hot * 8)
        } else {
            None
        }
    } else if !(has_substring(normalized, compact_global(category_title(c))) || keyword_hit_count(
        normalized,
        category_keywords(c),
    ) > 0) {
        None
    } else {
        Some(20 + hot * 8 - keyword_hit_count(normalized, cold_keywords()) as int * 5)
    }
}

proof fn lemma_keyword_hit_count_positive(text: Seq<char>, keywords: Seq<Seq<char>>, j: int)
    requires
        0 <= j < keywords.len(),
        has_substring(text, compact_global(keywords[j])),
    ensures
        keyword_hit_count(text, keywords) > 0,
    decreases keywords.len(),
{
    if j < keywords.len() - 1 {
        assert(keywords.drop_last()[j] == keywords[j]);
        lemma_keyword_hit_count_positive(text, keywords.drop_last(), j);
    }
}

/// How a listing fits a category other than the mixed and ranking ones: a
/// listing whose compacted title contains one of the category's words, or the
/// category's title, gets a score, 20 plus 8 per popularity word minus 5 per
/// newness word in it; a listing with neither gets none.
pub proof fn lemma_category_listing_score(c: GlobalExploreCategory, title: Seq<char>)
    requires
        c != GlobalExploreCategory::Mixed,
        c != GlobalExploreCategory::Rank,
    ensures
        ({
            let t = compact_global(title);
            let fits = has_substring(t, compact_global(category_title(c))) || exists|j: int|
                0 <= j < category_keywords(c).len() && has_substring(
                    t,
                    compact_global(#[trigger] category_keywords(c)[j]),
                );
            &&& fits ==> explore_kind_score(c, title) == Some(
                20 + 8 * keyword_hit_count(t, hot_keywords()) - 5 * keyword_hit_count(
                    t,
                    cold_keywords(),
                ),
            )
            &&& !fits ==> explore_kind_score(c, title) is None
        }),
{
    let t = compact_global(title);
    let kws = category_keywords(c);
    if exists|j: int| 0 <= j < kws.len() && has_substring(t, compact_global(#[trigger] kws[j])) {
        let j = choose|j: int| 0 <= j < kws.len() && has_substring(t, compact_global(#[trigger] kws[j]));
        lemma_keyword_hit_count_positive(t, kws, j);
    }
    if keyword_hit_count(t, kws) > 0 {
        let j = lemma_keyword_hit_witness(t, kws);
    }
}

proof fn lemma_keyword_hit_witness(text: Seq<char>, keywords: Seq<Seq<char>>) -> (j: int)
    requires
        keyword_hit_count(text, keywords) > 0,
    ensures
        0 <= j < keywords.len(),
        has_substring(text, compact_global(keywords[j])),
    decreases keywords.len(),
{
    if has_substring(text, compact_global(keywords.last())) {
        keywords.len() - 1
    } else {
        let j = lemma_keyword_hit_witness(text, keywords.drop_last());
        assert(keywords.drop_last()[j] == keywords[j]);
        j
    }
}

/// The mixed and ranking categories: for the mixed one every listing scores,
/// 20 plus 8 per popularity word in its compacted title, or 1 without one; for
/// the ranking one a listing scores 30 plus 8 per popularity word, and only
/// with one.
pub proof fn lemma_mixed_and_rank_listing_score(title: Seq<char>)
    ensures
        ({
            let hot = keyword_hit_count(compact_global(title), hot_keywords()) as int;
            &&& explore_kind_score(GlobalExploreCategory::Mixed, title) == Some(
                if hot > 0 {
                    20 + 8 * hot
                } else {
                    1
                },
            )
            &&& explore_kind_score(GlobalExploreCategory::Rank, title) == if hot > 0 {
                Some(30 + 8 * hot)
            } else {
                None::<int>
            }
            &&& hot > 0 <==> exists|j: int|
                0 <= j < hot_keywords().len() && has_substring(
                    compact_global(title),
                    compact_global(#[trigger] hot_keywords()[j]),
                )
        }),
{
    let t = compact_global(title);
    if exists|j: int| 0 <= j < hot_keywords().len() && has_substring(t, compact_global(#[trigger] hot_keywords()[j])) {
        let j = choose|j: int| 0 <= j < hot_keywords().len() && has_substring(t, compact_global(#[trigger] hot_keywords()[j]));
        lemma_keyword_hit_count_positive(t, hot_keywords(), j);
    }
    if keyword_hit_count(t, hot_keywords()) > 0 {
        let j = lemma_keyword_hit_witness(t, hot_keywords());
    }
}

/// The score of an explore listing for a category (see [`explore_kind_score`]).
pub fn score_global_explore_kind(category: GlobalExploreCategory, title: &str) -> (r: Option<i32>)
    ensures
        match r {
            Some(v) => explore_kind_score(category, title@) == Some(v as int),
            None => explore_kind_score(category, title@) is None,
        },
{
    let normalized = compact_global_text(title);
    let hot_list = hot_keyword_list();
    let hot = keyword_hits(normalized.as_str(), hot_list.as_slice()) as i32;
    if category == GlobalExploreCategory::Mixed {
        return Some(if hot > 0 { 20 + hot * 8 } else { 1 });
    }
    if category == GlobalExploreCategory::Rank {
        return if hot > 0 { Some(30 + hot * 8) } else { None };
    }
    let n = chars_of(normalized.as_str());
    let title_hit = contains_chars(&n, &compact_global_chars(&chars_of(category.title())));
    let kw = category.keywords();
    let keyword_hit = keyword_hits(normalized.as_str(), kw.as_slice()) > 0;
    if !(title_hit || keyword_hit) {
        return None;
    }
    let cold_list = cold_keyword_list();
    let cold = keyword_hits(normalized.as_str(), cold_list.as_slice()) as i32;
    Some(20 + hot * 8 - cold * 5)
}

/// Whether a source takes part in the gathered explore page: enabled (by
/// default), with exploring enabled (not by default) and a non-blank explore URL.
pub open spec fn supports_global_explore(
    enabled: Option<bool>,
    enabled_explore: Option<bool>,
    explore_url: Option<Seq<char>>,
) -> bool {
    &&& match enabled {
        Some(e) => e,
        None => true,
    }
    &&& match enabled_explore {
        Some(e) => e,
        None => false,
    }
    &&& match explore_url {
        Some(u) => trim_ws(u).len() != 0,
        None => false,
    }
}

/// Whether a source takes part in the gathered explore page
/// (see [`supports_global_explore`]).
pub fn source_supports_global_explore(source: &BookSource) -> (r: bool)
    ensures
        r == supports_global_explore(
            source.enabled,
            source.enabled_explore,
            crate::model::opt_view(source.explore_url),
        ),
{
    let enabled = match source.enabled {
        Some(e) => e,
        None => true,
    };
    let explore = match source.enabled_explore {
        Some(e) => e,
        None => false,
    };
    let has_url = match &source.explore_url {
        Some(u) => trim_chars(&chars_of(u.as_str())).len() != 0,
        None => false,
    };
    enabled && explore && has_url
}


/// The listing of a source chosen for a category.
#[derive(Debug, Clone)]
pub struct GlobalExploreKindSelection {
    pub title: String,
    pub url: String,
    pub score: i32,
}

/// The view of a [`GlobalExploreKindSelection`].
pub struct KindSelectionView {
    pub title: Seq<char>,
    pub url: Seq<char>,
    pub score: int,
}

impl View for GlobalExploreKindSelection {
    type V = KindSelectionView;

    open spec fn view(&self) -> KindSelectionView {
        KindSelectionView { title: self.title@, url: self.url@, score: self.score as int }
    }
}

/// The length of a text in UTF-8 bytes, as `str::len` reports it.
pub open spec fn byte_len(s: Seq<char>) -> usize {
    vstd::utf8::encode_utf8(s).len() as usize
}

/// The selection an explore listing offers for a category: its trimmed title,
/// its trimmed URL and its score, when the URL is not blank and the listing scores.
pub open spec fn kind_selection(
    c: GlobalExploreCategory,
    title: Seq<char>,
    url: Option<Seq<char>>,
) -> Option<KindSelectionView> {
    match url {
        Some(u) => if trim_ws(u).len() == 0 {
            None
        } else {
            match explore_kind_score(c, title) {
                Some(score) => Some(KindSelectionView { title: trim_ws(title), url: trim_ws(u), score }),
                None => None,
            }
        },
        None => None,
    }
}

/// Whether selection `x`, met after `best`, takes its place: a higher score, or
/// the same score and a title no longer in bytes (the last of equals wins, as
/// `Iterator::max_by` keeps it).
pub open spec fn selection_replaces(x: KindSelectionView, best: KindSelectionView) -> bool {
    x.score > best.score || (x.score == best.score && byte_len(x.title) <= byte_len(best.title))
}

/// The best selection among explore listings for a category (see
/// [`kind_selection`] and [`selection_replaces`]).
pub open spec fn best_kind_selection(c: GlobalExploreCategory, kinds: Seq<ExploreKind>) -> Option<
    KindSelectionView,
>
    decreases kinds.len(),
{
    if kinds.len() == 0 {
        None
    } else {
        let prev = best_kind_selection(c, kinds.drop_last());
        match kind_selection(c, kinds.last().title@, opt_view(kinds.last().url)) {
            None => prev,
            Some(x) => match prev {
                None => Some(x),
                Some(b) => if selection_replaces(x, b) {
                    Some(x)
                } else {
                    Some(b)
                },
            },
        }
    }
}

fn select_kind(category: GlobalExploreCategory, kind: &ExploreKind) -> (r: Option<
    GlobalExploreKindSelection,
>)
    ensures
        match r {
            Some(x) => kind_selection(category, kind.title@, opt_view(kind.url)) == Some(x@),
            None => kind_selection(category, kind.title@, opt_view(kind.url)) is None,
        },
{
    let url = match &kind.url {
        Some(u) => trim_chars(&chars_of(u.as_str())),
        None => return None,
    };
    if url.len() == 0 {
        return None;
    }
    match score_global_explore_kind(category, kind.title.as_str()) {
        Some(score) => Some(
            GlobalExploreKindSelection {
                title: string_of(&trim_chars(&chars_of(kind.title.as_str()))),
                url: string_of(&url),
                score,
            },
        ),
        None => None,
    }
}

/// The listing of a source that best fits a category (see [`best_kind_selection`]).
pub fn select_global_explore_kind(category: &str, kinds: &[ExploreKind]) -> (r: Option<
    GlobalExploreKindSelection,
>)
    ensures
        match r {
            Some(x) => best_kind_selection(category_named(category@), kinds@) == Some(x@),
            None => best_kind_selection(category_named(category@), kinds@) is None,
        },
{
    let c = find_global_explore_category(category);
    let mut best: Option<GlobalExploreKindSelection> = None;
    let mut i: usize = 0;
    while i < kinds.len()
        invariant
            i <= kinds@.len(),
            c == category_named(category@),
            match best {
                Some(x) => best_kind_selection(c, kinds@.take(i as int)) == Some(x@),
                None => best_kind_selection(c, kinds@.take(i as int)) is None,
            },
        decreases kinds.len() - i,
    {
        assert(kinds@.take(i as int + 1).drop_last() == kinds@.take(i as int));
        assert(kinds@.take(i as int + 1).last() == kinds@[i as int]);
        match select_kind(c, &kinds[i]) {
            None => {},
            Some(x) => {
                let replace = match &best {
                    None => true,
                    Some(b) => x.score > b.score || (x.score == b.score && x.title.as_str().len()
                        <= b.title.as_str().len()),
                };
                if replace {
                    best = Some(x);
                }
            },
        }
        i += 1;
    }
    assert(kinds@.take(kinds@.len() as int) == kinds@);
    best
}

/// A book seen in one source's explore listing.
#[derive(Debug, Clone)]
pub struct GlobalExploreBookHit {
    pub book: SearchBook,
    pub category_score: i32,
    pub position: usize,
}

/// The view of a [`GlobalExploreBookHit`].
pub struct ExploreHitView {
    pub book: SearchBookView,
    pub category_score: int,
    pub position: nat,
}

impl View for GlobalExploreBookHit {
    type V = ExploreHitView;

    open spec fn view(&self) -> ExploreHitView {
        ExploreHitView {
            book: self.book@,
            category_score: self.category_score as int,
            position: self.position as nat,
        }
    }
}

/// A book gathered from one or more explore listings, with its ranking data.
pub struct MergedExploreView {
    pub book: SearchBookView,
    pub score: int,
    pub source_count: nat,
    pub best_position: nat,
}

/// The entry a book starts with when first seen: its own origin as its source
/// list, its listing score plus up to 100 for an early position.
pub open spec fn start_entry(h: ExploreHitView) -> MergedExploreView {
    MergedExploreView {
        book: SearchBookView { book_source_urls: Some(seq![h.book.origin]), ..h.book },
        score: h.category_score + 100 - (if h.position < 100 {
            h.position as int
        } else {
            100
        }),
        source_count: 1,
        best_position: h.position,
    }
}

/// The entry after the same book is seen in another listing: one more source,
/// the listing score plus 20 added, the better position kept, the origin added
/// to the source list, missing details filled in.
pub open spec fn absorb_hit(e: MergedExploreView, h: ExploreHitView) -> MergedExploreView {
    let urls0 = match e.book.book_source_urls {
        Some(u) => u,
        None => seq![e.book.origin],
    };
    let urls = if urls0.contains(h.book.origin) {
        urls0
    } else {
        urls0.push(h.book.origin)
    };
    MergedExploreView {
        book: SearchBookView {
            book_source_urls: Some(urls),
            cover_url: if e.book.cover_url is None {
                h.book.cover_url
            } else {
                e.book.cover_url
            },
            intro: if e.book.intro is None {
                h.book.intro
            } else {
                e.book.intro
            },
            kind: if e.book.kind is None {
                h.book.kind
            } else {
                e.book.kind
            },
            last_chapter: if e.book.last_chapter is None {
                h.book.last_chapter
            } else {
                e.book.last_chapter
            },
            update_time: if e.book.update_time is None {
                h.book.update_time
            } else {
                e.book.update_time
            },
            word_count: if e.book.word_count is None {
                h.book.word_count
            } else {
                e.book.word_count
            },
            ..e.book
        },
        score: e.score + h.category_score + 20,
        source_count: e.source_count + 1,
        best_position: if h.position < e.best_position {
            h.position
        } else {
            e.best_position
        },
    }
}

/// The position of the entry whose book has merge key `k`, if any.
pub open spec fn find_entry(acc: Seq<MergedExploreView>, k: Seq<char>) -> Option<int> {
    if exists|i: int| 0 <= i < acc.len() && merge_key_of(#[trigger] acc[i].book) == k {
        Some(choose|i: int| 0 <= i < acc.len() && merge_key_of(#[trigger] acc[i].book) == k)
    } else {
        None
    }
}

/// What listing `j` of a source offers for a category (see [`kind_selection`]).
pub open spec fn selection_at(c: GlobalExploreCategory, kinds: Seq<ExploreKind>, j: int) -> Option<
    KindSelectionView,
> {
    kind_selection(c, kinds[j].title@, opt_view(kinds[j].url))
}

/// How a source's listing is chosen for a category: one is chosen exactly when
/// some listing (with a non-blank URL) scores for the category; the chosen one
/// is what one of the listings offers, and no listing scores higher.
pub proof fn lemma_best_kind_selection(c: GlobalExploreCategory, kinds: Seq<ExploreKind>)
    ensures
        (best_kind_selection(c, kinds) is Some) == (exists|j: int|
            0 <= j < kinds.len() && (#[trigger] selection_at(c, kinds, j)) is Some),
        best_kind_selection(c, kinds) matches Some(x) ==> exists|j: int|
            0 <= j < kinds.len() && #[trigger] selection_at(c, kinds, j) == Some(x),
        forall|j: int|
            0 <= j < kinds.len() && (#[trigger] selection_at(c, kinds, j)) is Some
                ==> selection_at(c, kinds, j)->0.score <= best_kind_selection(c, kinds)->0.score,
    decreases kinds.len(),
{
    if kinds.len() > 0 {
        let t = kinds.drop_last();
        let n = kinds.len() - 1;
        lemma_best_kind_selection(c, t);
        assert forall|j: int| 0 <= j < t.len() implies #[trigger] selection_at(c, t, j) == selection_at(c, kinds, j) by {
            assert(t[j] == kinds[j]);
        }
        assert(selection_at(c, kinds, n) == kind_selection(c, kinds.last().title@, opt_view(kinds.last().url)));
        let prev = best_kind_selection(c, t);
        if prev is Some {
            let j0 = choose|j: int| 0 <= j < t.len() && #[trigger] selection_at(c, t, j) == prev;
            assert(selection_at(c, kinds, j0) == prev);
        }
        if exists|j: int| 0 <= j < kinds.len() && (#[trigger] selection_at(c, kinds, j)) is Some {
            let j = choose|j: int| 0 <= j < kinds.len() && (#[trigger] selection_at(c, kinds, j)) is Some;
            if j < n {
                assert(selection_at(c, t, j) is Some);
            }
        }
        assert forall|j: int|
            0 <= j < kinds.len() && (#[trigger] selection_at(c, kinds, j)) is Some implies selection_at(
            c,
            kinds,
            j,
        )->0.score <= best_kind_selection(c, kinds)->0.score by {
            if j < n {
                assert(selection_at(c, t, j) is Some);
            }
        }
    }
}

/// The gathered books, one entry per merge key in the order the keys first
/// appear; hits with a blank name are left out.
pub open spec fn merge_explore_hits(hits: Seq<ExploreHitView>) -> Seq<MergedExploreView>
    decreases hits.len(),
{
    if hits.len() == 0 {
        Seq::empty()
    } else {
        let acc = merge_explore_hits(hits.drop_last());
        let h = hits.last();
        if trim_ws(h.book.name).len() == 0 {
            acc
        } else {
            match find_entry(acc, merge_key_of(h.book)) {
                Some(i) => acc.update(i, absorb_hit(acc[i], h)),
                None => acc.push(start_entry(h)),
            }
        }
    }
}

/// No two entries share a merge key.
pub open spec fn entry_keys_distinct(s: Seq<MergedExploreView>) -> bool {
    forall|i: int, j: int|
        0 <= i < s.len() && 0 <= j < s.len() && i != j ==> merge_key_of(#[trigger] s[i].book)
            != merge_key_of(#[trigger] s[j].book)
}

/// Gathering leaves one entry per key, each with a non-blank name and at least one source.
pub proof fn lemma_merge_explore_hits_shape(hits: Seq<ExploreHitView>)
    ensures
        entry_keys_distinct(merge_explore_hits(hits)),
        forall|i: int|
            0 <= i < merge_explore_hits(hits).len() ==> trim_ws(
                (#[trigger] merge_explore_hits(hits)[i]).book.name,
            ).len() != 0 && merge_explore_hits(hits)[i].source_count >= 1,
        merge_explore_hits(hits).len() <= hits.len(),
    decreases hits.len(),
{
    if hits.len() > 0 {
        lemma_merge_explore_hits_shape(hits.drop_last());
        let acc = merge_explore_hits(hits.drop_last());
        let h = hits.last();
        if trim_ws(h.book.name).len() != 0 {
            match find_entry(acc, merge_key_of(h.book)) {
                Some(i) => {
                    let r = acc.update(i, absorb_hit(acc[i], h));
                    assert forall|x: int, y: int|
                        0 <= x < r.len() && 0 <= y < r.len() && x != y implies merge_key_of(
                        #[trigger] r[x].book,
                    ) != merge_key_of(#[trigger] r[y].book) by {
                        assert(merge_key_of(r[x].book) == merge_key_of(acc[x].book));
                        assert(merge_key_of(r[y].book) == merge_key_of(acc[y].book));
                    }
                    assert forall|x: int| 0 <= x < r.len() implies trim_ws(
                        (#[trigger] r[x]).book.name,
                    ).len() != 0 && r[x].source_count >= 1 by {
                        assert(r[x].book.name == acc[x].book.name);
                    }
                },
                None => {
                    let r = acc.push(start_entry(h));
                    assert forall|x: int| 0 <= x < r.len() implies trim_ws(
                        (#[trigger] r[x]).book.name,
                    ).len() != 0 && r[x].source_count >= 1 by {
                        if x < acc.len() {
                            assert(r[x] == acc[x]);
                        }
                    }
                },
            }
        }
    }
}

/// Whether a hit counts toward the gathered book with merge key `k`: its name
/// is not blank and its book has that key.
pub open spec fn counts_for_key(h: ExploreHitView, k: Seq<char>) -> bool {
    trim_ws(h.book.name).len() != 0 && merge_key_of(h.book) == k
}

/// How many hits count toward the gathered book with merge key `k`.
pub open spec fn key_hit_count_of(hits: Seq<ExploreHitView>, k: Seq<char>) -> nat
    decreases hits.len(),
{
    if hits.len() == 0 {
        0
    } else {
        key_hit_count_of(hits.drop_last(), k) + if counts_for_key(hits.last(), k) {
            1nat
        } else {
            0nat
        }
    }
}

/// The ranking score that the hits of merge key `k` add up to: the first one
/// its listing score plus 100 less its position (at most 100), each later one
/// its listing score plus 20.
pub open spec fn key_score_of(hits: Seq<ExploreHitView>, k: Seq<char>) -> int
    decreases hits.len(),
{
    if hits.len() == 0 {
        0
    } else {
        let t = hits.drop_last();
        let h = hits.last();
        if !counts_for_key(h, k) {
            key_score_of(t, k)
        } else if key_hit_count_of(t, k) == 0 {
            h.category_score + 100 - (if h.position < 100 {
                h.position as int
            } else {
                100
            })
        } else {
            key_score_of(t, k) + h.category_score + 20
        }
    }
}

/// The best (smallest) listing position among the hits of merge key `k`.
pub open spec fn key_best_position(hits: Seq<ExploreHitView>, k: Seq<char>) -> nat
    decreases hits.len(),
{
    if hits.len() == 0 {
        0
    } else {
        let t = hits.drop_last();
        let h = hits.last();
        if !counts_for_key(h, k) {
            key_best_position(t, k)
        } else if key_hit_count_of(t, k) == 0 || h.position < key_best_position(t, k) {
            h.position
        } else {
            key_best_position(t, k)
        }
    }
}

proof fn lemma_explore_entry_for_key(hits: Seq<ExploreHitView>, k: Seq<char>) -> (m: int)
    requires
        key_hit_count_of(hits, k) > 0,
    ensures
        0 <= m < merge_explore_hits(hits).len(),
        merge_key_of(merge_explore_hits(hits)[m].book) == k,
    decreases hits.len(),
{
    let t = hits.drop_last();
    let h = hits.last();
    let acc = merge_explore_hits(t);
    if counts_for_key(h, k) {
        match find_entry(acc, merge_key_of(h.book)) {
            Some(i) => {
                i
            },
            None => {
                acc.len() as int
            },
        }
    } else {
        let m = lemma_explore_entry_for_key(t, k);
        if trim_ws(h.book.name).len() != 0 {
            match find_entry(acc, merge_key_of(h.book)) {
                Some(i) => {
                    assert(merge_key_of(absorb_hit(acc[i], h).book) == merge_key_of(acc[i].book));
                },
                None => {},
            }
        }
        m
    }
}

/// How the gathered explore page scores a book: every gathered entry was seen
/// in as many listings as hits count toward its merge key, its best position
/// is the smallest of their positions, and its score is
/// what those hits add up to (see [`key_score_of`]): the first hit's listing
/// score plus 100 less its position (at most 100), and each further hit's
/// listing score plus 20. Every hit with a non-blank name has its entry.
pub proof fn lemma_explore_entry_scores(hits: Seq<ExploreHitView>)
    ensures
        forall|m: int|
            0 <= m < merge_explore_hits(hits).len() ==> {
                let e = #[trigger] merge_explore_hits(hits)[m];
                &&& e.score == key_score_of(hits, merge_key_of(e.book))
                &&& e.source_count == key_hit_count_of(hits, merge_key_of(e.book))
                &&& e.best_position == key_best_position(hits, merge_key_of(e.book))
            },
        forall|j: int|
            0 <= j < hits.len() && trim_ws(hits[j].book.name).len() != 0 ==> key_hit_count_of(
                hits,
                merge_key_of(#[trigger] hits[j].book),
            ) > 0,
    decreases hits.len(),
{
    if hits.len() > 0 {
        let t = hits.drop_last();
        let h = hits.last();
        lemma_explore_entry_scores(t);
        lemma_merge_explore_hits_shape(t);
        let acc = merge_explore_hits(t);
        let r = merge_explore_hits(hits);
        let kh = merge_key_of(h.book);
        assert forall|j: int|
            0 <= j < hits.len() && trim_ws(hits[j].book.name).len() != 0 implies key_hit_count_of(
            hits,
            merge_key_of(#[trigger] hits[j].book),
        ) > 0 by {
            if j < t.len() {
                assert(hits[j] == t[j]);
            } else {
                assert(hits[j] == h);
            }
        }
        if trim_ws(h.book.name).len() == 0 {
            assert forall|m: int| 0 <= m < r.len() implies {
                let e = #[trigger] r[m];
                &&& e.score == key_score_of(hits, merge_key_of(e.book))
                &&& e.source_count == key_hit_count_of(hits, merge_key_of(e.book))
                &&& e.best_position == key_best_position(hits, merge_key_of(e.book))
            } by {
                assert(r[m] == acc[m]);
            }
        } else {
            match find_entry(acc, kh) {
                Some(i) => {
                    let c = absorb_hit(acc[i], h);
                    assert(r == acc.update(i, c));
                    assert(merge_key_of(acc[i].book) == kh);
                    assert(merge_key_of(c.book) == kh);
                    assert forall|m: int| 0 <= m < r.len() implies {
                        let e = #[trigger] r[m];
                        &&& e.score == key_score_of(hits, merge_key_of(e.book))
                        &&& e.source_count == key_hit_count_of(hits, merge_key_of(e.book))
                    } by {
                        if m == i {
                            assert(acc[i].source_count >= 1);
                        } else {
                            assert(r[m] == acc[m]);
                            assert(merge_key_of(acc[m].book) != merge_key_of(acc[i].book));
                        }
                    }
                },
                None => {
                    assert(r == acc.push(start_entry(h)));
                    if key_hit_count_of(t, kh) > 0 {
                        let m0 = lemma_explore_entry_for_key(t, kh);
                        assert(merge_key_of(acc[m0].book) == kh);
                    }
                    assert forall|m: int| 0 <= m < r.len() implies {
                        let e = #[trigger] r[m];
                        &&& e.score == key_score_of(hits, merge_key_of(e.book))
                        &&& e.source_count == key_hit_count_of(hits, merge_key_of(e.book))
                    } by {
                        if m < acc.len() {
                            assert(r[m] == acc[m]);
                            assert(merge_key_of(acc[m].book) != kh);
                        } else {
                            assert(r[m] == start_entry(h));
                            assert(merge_key_of(start_entry(h).book) == kh);
                        }
                    }
                },
            }
        }
    }
}

/// The different origins of the hits that count toward merge key `k`, in the
/// order they first appear.
pub open spec fn explore_key_origins(hits: Seq<ExploreHitView>, k: Seq<char>) -> Seq<Seq<char>>
    decreases hits.len(),
{
    if hits.len() == 0 {
        Seq::empty()
    } else {
        let prev = explore_key_origins(hits.drop_last(), k);
        let h = hits.last();
        if counts_for_key(h, k) && !prev.contains(h.book.origin) {
            prev.push(h.book.origin)
        } else {
            prev
        }
    }
}

/// Detail `d` (see [`hit_detail`]) of the first hit counting toward merge key
/// `k` that carries it, if any.
pub open spec fn first_key_detail(hits: Seq<ExploreHitView>, k: Seq<char>, d: int) -> Option<Seq<char>>
    decreases hits.len(),
{
    if hits.len() == 0 {
        None
    } else {
        let prev = first_key_detail(hits.drop_last(), k, d);
        let h = hits.last();
        if prev is Some {
            prev
        } else if counts_for_key(h, k) {
            hit_detail(h.book, d)
        } else {
            None
        }
    }
}

proof fn lemma_no_hits_of_key(hits: Seq<ExploreHitView>, k: Seq<char>, d: int)
    requires
        key_hit_count_of(hits, k) == 0,
    ensures
        explore_key_origins(hits, k) == Seq::<Seq<char>>::empty(),
        first_key_detail(hits, k, d) is None,
    decreases hits.len(),
{
    if hits.len() > 0 {
        lemma_no_hits_of_key(hits.drop_last(), k, d);
    }
}

/// Whether gathered entry `e` lists its sources and carries its details as the
/// hits of its merge key give them.
pub open spec fn entry_gathered(hits: Seq<ExploreHitView>, e: MergedExploreView) -> bool {
    &&& e.book.book_source_urls == Some(explore_key_origins(hits, merge_key_of(e.book)))
    &&& forall|d: int| 0 <= d < 6 ==> #[trigger] hit_detail(e.book, d) == first_key_detail(hits, merge_key_of(e.book), d)
}

/// How the gathered explore page fills in a book: every entry lists as its
/// sources the different origins of the hits of its merge key, in the order
/// they first appear, and carries each detail (cover, intro, kind, last
/// chapter, update time, word count) of the first of those hits that has it.
pub proof fn lemma_explore_entries_gathered(hits: Seq<ExploreHitView>)
    ensures
        forall|m: int|
            0 <= m < merge_explore_hits(hits).len() ==> entry_gathered(
                hits,
                #[trigger] merge_explore_hits(hits)[m],
            ),
    decreases hits.len(),
{
    if hits.len() > 0 {
        let t = hits.drop_last();
        let h = hits.last();
        lemma_explore_entries_gathered(t);
        lemma_explore_entry_scores(t);
        lemma_merge_explore_hits_shape(t);
        let acc = merge_explore_hits(t);
        let r = merge_explore_hits(hits);
        let kh = merge_key_of(h.book);
        if trim_ws(h.book.name).len() == 0 {
            assert forall|m: int| 0 <= m < r.len() implies entry_gathered(hits, #[trigger] r[m]) by {
                assert(r[m] == acc[m]);
                assert(entry_gathered(t, acc[m]));
            }
        } else {
            match find_entry(acc, kh) {
                Some(i) => {
                    let c = absorb_hit(acc[i], h);
                    assert(r == acc.update(i, c));
                    assert(merge_key_of(acc[i].book) == kh);
                    assert(merge_key_of(c.book) == kh);
                    assert forall|m: int| 0 <= m < r.len() implies entry_gathered(hits, #[trigger] r[m]) by {
                        if m == i {
                            assert(entry_gathered(t, acc[i]));
                            assert forall|d: int| 0 <= d < 6 implies #[trigger] hit_detail(c.book, d)
                                == first_key_detail(hits, kh, d) by {
                                assert(hit_detail(acc[i].book, d) == first_key_detail(t, kh, d));
                            }
                        } else {
                            assert(r[m] == acc[m]);
                            assert(merge_key_of(acc[m].book) != merge_key_of(acc[i].book));
                            assert(entry_gathered(t, acc[m]));
                            assert forall|d: int| 0 <= d < 6 implies #[trigger] hit_detail(acc[m].book, d)
                                == first_key_detail(hits, merge_key_of(acc[m].book), d) by {
                                assert(hit_detail(acc[m].book, d) == first_key_detail(t, merge_key_of(acc[m].book), d));
                            }
                        }
                    }
                },
                None => {
                    assert(r == acc.push(start_entry(h)));
                    if key_hit_count_of(t, kh) > 0 {
                        let m0 = lemma_explore_entry_for_key(t, kh);
                        assert(merge_key_of(acc[m0].book) == kh);
                    }
                    assert forall|m: int| 0 <= m < r.len() implies entry_gathered(hits, #[trigger] r[m]) by {
                        if m < acc.len() {
                            assert(r[m] == acc[m]);
                            assert(merge_key_of(acc[m].book) != kh);
                            assert(entry_gathered(t, acc[m]));
                            assert forall|d: int| 0 <= d < 6 implies #[trigger] hit_detail(acc[m].book, d)
                                == first_key_detail(hits, merge_key_of(acc[m].book), d) by {
                                assert(hit_detail(acc[m].book, d) == first_key_detail(t, merge_key_of(acc[m].book), d));
                            }
                        } else {
                            let e = start_entry(h);
                            assert(r[m] == e);
                            assert(merge_key_of(e.book) == kh);
                            assert forall|d: int| 0 <= d < 6 implies #[trigger] hit_detail(e.book, d)
                                == first_key_detail(hits, kh, d) by {
                                lemma_no_hits_of_key(t, kh, d);
                            }
                            lemma_no_hits_of_key(t, kh, 0);
                            assert(Seq::<Seq<char>>::empty().push(h.book.origin) =~= seq![h.book.origin]);
                        }
                    }
                },
            }
        }
    }
}

/// `a` is lexicographically before `b`, by code point (the order of `String`).
pub open spec fn chars_before(a: Seq<char>, b: Seq<char>) -> bool
    decreases a.len(),
{
    if a.len() == 0 {
        b.len() > 0
    } else if b.len() == 0 {
        false
    } else if (a[0] as u32) < (b[0] as u32) {
        true
    } else if a[0] == b[0] {
        chars_before(a.drop_first(), b.drop_first())
    } else {
        false
    }
}

fn chars_before_exec(a: &Vec<char>, b: &Vec<char>) -> (r: bool)
    ensures
        r == chars_before(a@, b@),
{
    let mut i: usize = 0;
    assert(a@.skip(0) == a@);
    assert(b@.skip(0) == b@);
    while i < a.len() && i < b.len() && a[i] == b[i]
        invariant
            i <= a.len(),
            i <= b.len(),
            chars_before(a@, b@) == chars_before(a@.skip(i as int), b@.skip(i as int)),
        decreases a.len() - i,
    {
        assert(a@.skip(i as int).drop_first() == a@.skip(i + 1));
        assert(b@.skip(i as int).drop_first() == b@.skip(i + 1));
        i += 1;
    }
    if i == a.len() {
        i < b.len()
    } else if i == b.len() {
        false
    } else {
        (a[i] as u32) < (b[i] as u32)
    }
}

/// Entry `a` ranks before entry `b`: seen in more sources; or as many and a
/// higher score; or also the same score and a better position; or also the
/// same position and a name that comes first.
pub open spec fn entry_before(a: MergedExploreView, b: MergedExploreView) -> bool {
    ||| a.source_count > b.source_count
    ||| a.source_count == b.source_count && a.score > b.score
    ||| a.source_count == b.source_count && a.score == b.score && a.best_position
        < b.best_position
    ||| a.source_count == b.source_count && a.score == b.score && a.best_position
        == b.best_position && chars_before(a.book.name, b.book.name)
}

/// Where an entry goes among sorted entries: before the first that it ranks before.
pub open spec fn insert_position(s: Seq<MergedExploreView>, x: MergedExploreView) -> nat
    decreases s.len(),
{
    if s.len() == 0 {
        0
    } else if entry_before(x, s[0]) {
        0
    } else {
        1 + insert_position(s.drop_first(), x)
    }
}

proof fn lemma_insert_position(s: Seq<MergedExploreView>, x: MergedExploreView)
    ensures
        insert_position(s, x) <= s.len(),
        forall|i: int| 0 <= i < insert_position(s, x) ==> !entry_before(x, #[trigger] s[i]),
        insert_position(s, x) < s.len() ==> entry_before(x, s[insert_position(s, x) as int]),
    decreases s.len(),
{
    if s.len() > 0 && !entry_before(x, s[0]) {
        let t = s.drop_first();
        lemma_insert_position(t, x);
        assert forall|i: int| 0 <= i < insert_position(s, x) implies !entry_before(
            x,
            #[trigger] s[i],
        ) by {
            if i > 0 {
                assert(s[i] == t[i - 1]);
            }
        }
        if insert_position(s, x) < s.len() {
            assert(s[insert_position(s, x) as int] == t[insert_position(t, x) as int]);
        }
    }
}

proof fn lemma_chars_before_irreflexive(a: Seq<char>)
    ensures
        !chars_before(a, a),
    decreases a.len(),
{
    if a.len() > 0 {
        lemma_chars_before_irreflexive(a.drop_first());
    }
}

proof fn lemma_chars_before_transitive(a: Seq<char>, b: Seq<char>, c: Seq<char>)
    requires
        chars_before(a, b),
        chars_before(b, c),
    ensures
        chars_before(a, c),
    decreases a.len(),
{
    if a.len() > 0 && a[0] == b[0] && b[0] == c[0] {
        lemma_chars_before_transitive(a.drop_first(), b.drop_first(), c.drop_first());
    }
}

proof fn lemma_entry_before_transitive(a: MergedExploreView, b: MergedExploreView, c: MergedExploreView)
    requires
        entry_before(a, b),
        entry_before(b, c),
    ensures
        entry_before(a, c),
{
    if a.source_count == c.source_count && a.score == c.score && a.best_position
        == c.best_position {
        lemma_chars_before_transitive(a.book.name, b.book.name, c.book.name);
    }
}

/// The entries sorted by rank, entries of equal rank in their original order.
pub open spec fn sort_entries(s: Seq<MergedExploreView>) -> Seq<MergedExploreView>
    decreases s.len(),
{
    if s.len() == 0 {
        s
    } else {
        let t = sort_entries(s.drop_last());
        t.insert(insert_position(t, s.last()) as int, s.last())
    }
}

/// No entry of `s` ranks before one that comes earlier in `s`.
pub open spec fn entries_ranked(s: Seq<MergedExploreView>) -> bool {
    forall|i: int, j: int| 0 <= i < j < s.len() ==> !entry_before(#[trigger] s[j], #[trigger] s[i])
}

/// Ranking the gathered books keeps each of them, and no book comes after one
/// that it ranks before.
pub proof fn lemma_sort_entries(s: Seq<MergedExploreView>)
    ensures
        sort_entries(s).len() == s.len(),
        sort_entries(s).to_multiset() == s.to_multiset(),
        entries_ranked(sort_entries(s)),
    decreases s.len(),
{
    broadcast use vstd::seq_lib::to_multiset_insert, vstd::seq_lib::to_multiset_build;

    if s.len() > 0 {
        let t = sort_entries(s.drop_last());
        let x = s.last();
        lemma_sort_entries(s.drop_last());
        lemma_insert_position(t, x);
        let p = insert_position(t, x) as int;
        let r = t.insert(p, x);
        assert(s.drop_last().push(x) == s);
        assert forall|i: int, j: int| 0 <= i < j < r.len() implies !entry_before(
            #[trigger] r[j],
            #[trigger] r[i],
        ) by {
            if j < p {
                assert(r[i] == t[i] && r[j] == t[j]);
            } else if j == p {
                assert(r[i] == t[i]);
            } else if i == p {
                assert(r[j] == t[j - 1]);
                if entry_before(t[j - 1], x) {
                    assert(p < t.len());
                    lemma_entry_before_transitive(t[j - 1], x, t[p]);
                    if p < j - 1 {
                        assert(!entry_before(t[j - 1], t[p]));
                    } else {
                        lemma_chars_before_irreflexive(t[p].book.name);
                    }
                }
            } else if i < p {
                assert(r[i] == t[i] && r[j] == t[j - 1]);
            } else {
                assert(r[i] == t[i - 1] && r[j] == t[j - 1]);
            }
        }
    }
}

/// The order of the gathered books: a book seen in more listings comes first;
/// among books seen in as many, a higher score first; then an earlier best
/// position first.
pub proof fn lemma_sorted_entries_order(s: Seq<MergedExploreView>)
    ensures
        forall|i: int, j: int|
            0 <= i < j < sort_entries(s).len() ==> {
                let a = #[trigger] sort_entries(s)[i];
                let b = #[trigger] sort_entries(s)[j];
                &&& a.source_count >= b.source_count
                &&& a.source_count == b.source_count ==> a.score >= b.score
                &&& a.source_count == b.source_count && a.score == b.score ==> a.best_position
                    <= b.best_position
            },
{
    lemma_sort_entries(s);
}

/// The books of the gathered explore page: hits merged per book, ranked, at most `limit`.
pub open spec fn ranked_explore_books(hits: Seq<ExploreHitView>, limit: nat) -> Seq<SearchBookView> {
    let sorted = sort_entries(merge_explore_hits(hits));
    let n = if sorted.len() <= limit {
        sorted.len()
    } else {
        limit
    };
    sorted.take(n as int).map_values(|e: MergedExploreView| e.book)
}

/// The gathered explore page holds at most `limit` books, the first of the
/// ranked entries, none with a blank name and no book twice; the ranked
/// entries keep every gathered entry, and none comes after one that it ranks
/// before.
pub proof fn lemma_ranked_explore_books(hits: Seq<ExploreHitView>, limit: nat)
    ensures
        ({
            let merged = merge_explore_hits(hits);
            let sorted = sort_entries(merged);
            let out = ranked_explore_books(hits, limit);
            &&& out.len() == if merged.len() <= limit {
                merged.len()
            } else {
                limit
            }
            &&& forall|i: int| 0 <= i < out.len() ==> #[trigger] out[i] == sorted[i].book
            &&& forall|i: int| 0 <= i < out.len() ==> trim_ws((#[trigger] out[i]).name).len() != 0
            &&& forall|i: int, j: int|
                0 <= i < out.len() && 0 <= j < out.len() && i != j ==> merge_key_of(#[trigger] out[i])
                    != merge_key_of(#[trigger] out[j])
            &&& sorted.to_multiset() == merged.to_multiset()
            &&& entries_ranked(sorted)
        }),
{
    broadcast use vstd::seq_lib::to_multiset_contains;

    let merged = merge_explore_hits(hits);
    let sorted = sort_entries(merged);
    let out = ranked_explore_books(hits, limit);
    lemma_merge_explore_hits_shape(hits);
    lemma_sort_entries(merged);
    assert forall|i: int| 0 <= i < out.len() implies trim_ws((#[trigger] out[i]).name).len() != 0 by {
        assert(out[i] == sorted[i].book);
        assert(sorted.contains(sorted[i]));
        assert(sorted.to_multiset().count(sorted[i]) > 0);
        assert(merged.contains(sorted[i]));
        let k = choose|k: int| 0 <= k < merged.len() && merged[k] == sorted[i];
        assert(trim_ws(merged[k].book.name).len() != 0);
    }
    assert(merged.no_duplicates()) by {
        assert forall|i: int, j: int| 0 <= i < merged.len() && 0 <= j < merged.len() && i != j implies merged[i]
            != merged[j] by {
            assert(merge_key_of(merged[i].book) != merge_key_of(merged[j].book));
        }
    }
    merged.lemma_multiset_has_no_duplicates();
    assert forall|x: MergedExploreView| sorted.to_multiset().contains(x) implies sorted.to_multiset().count(
        x,
    ) == 1 by {
        assert(merged.to_multiset().contains(x));
    }
    sorted.lemma_multiset_has_no_duplicates_conv();
    assert forall|i: int, j: int|
        0 <= i < out.len() && 0 <= j < out.len() && i != j implies merge_key_of(#[trigger] out[i])
        != merge_key_of(#[trigger] out[j]) by {
        assert(out[i] == sorted[i].book && out[j] == sorted[j].book);
        assert(sorted.contains(sorted[i]) && sorted.contains(sorted[j]));
        assert(sorted.to_multiset().count(sorted[i]) > 0);
        assert(sorted.to_multiset().count(sorted[j]) > 0);
        assert(merged.contains(sorted[i]) && merged.contains(sorted[j]));
        let x = choose|x: int| 0 <= x < merged.len() && merged[x] == sorted[i];
        let y = choose|y: int| 0 <= y < merged.len() && merged[y] == sorted[j];
        if merge_key_of(out[i]) == merge_key_of(out[j]) {
            assert(x == y);
            assert(sorted[i] != sorted[j]);
        }
    }
}

struct MergedEntry {
    book: SearchBook,
    score: i64,
    source_count: usize,
    best_position: usize,
}

impl View for MergedEntry {
    type V = MergedExploreView;

    closed spec fn view(&self) -> MergedExploreView {
        MergedExploreView {
            book: self.book@,
            score: self.score as int,
            source_count: self.source_count as nat,
            best_position: self.best_position as nat,
        }
    }
}

impl MergedEntry {
    fn copy(&self) -> (r: MergedEntry)
        ensures
            r@ == self@,
    {
        MergedEntry {
            book: self.book.copy(),
            score: self.score,
            source_count: self.source_count,
            best_position: self.best_position,
        }
    }
}

spec fn entries_view(v: Seq<MergedEntry>) -> Seq<MergedExploreView> {
    v.map_values(|e: MergedEntry| e@)
}

fn entry_before_exec(a: &MergedEntry, b: &MergedEntry) -> (r: bool)
    ensures
        r == entry_before(a@, b@),
{
    if a.source_count != b.source_count {
        return a.source_count > b.source_count;
    }
    if a.score != b.score {
        return a.score > b.score;
    }
    if a.best_position != b.best_position {
        return a.best_position < b.best_position;
    }
    chars_before_exec(&chars_of(a.book.name.as_str()), &chars_of(b.book.name.as_str()))
}

fn pick_missing(current: &Option<String>, other: &Option<String>) -> (r: Option<String>)
    ensures
        opt_view(r) == if current is None {
            opt_view(*other)
        } else {
            opt_view(*current)
        },
{
    if current.is_none() {
        copy_opt(other)
    } else {
        copy_opt(current)
    }
}

fn absorb_exec(e: &MergedEntry, h: &GlobalExploreBookHit) -> (r: MergedEntry)
    requires
        -0x4000_0000_0000_0000 < e.score < 0x4000_0000_0000_0000,
        e.source_count < usize::MAX,
    ensures
        r@ == absorb_hit(e@, h@),
{
    let mut urls: Vec<String> = match &e.book.book_source_urls {
        Some(u) => copy_strings(u),
        None => {
            let mut v: Vec<String> = Vec::new();
            v.push(e.book.origin.clone());
            assert(strings_view(v) =~= seq![e.book.origin@]);
            v
        },
    };
    if !strings_contain(&urls, &h.book.origin) {
        let ghost before = strings_view(urls);
        urls.push(h.book.origin.clone());
        assert(strings_view(urls) =~= before.push(h.book.origin@));
    }
    let book = SearchBook {
        name: e.book.name.clone(),
        author: e.book.author.clone(),
        book_url: e.book.book_url.clone(),
        origin: e.book.origin.clone(),
        cover_url: pick_missing(&e.book.cover_url, &h.book.cover_url),
        intro: pick_missing(&e.book.intro, &h.book.intro),
        kind: pick_missing(&e.book.kind, &h.book.kind),
        last_chapter: pick_missing(&e.book.last_chapter, &h.book.last_chapter),
        update_time: pick_missing(&e.book.update_time, &h.book.update_time),
        word_count: pick_missing(&e.book.word_count, &h.book.word_count),
        book_source_urls: Some(urls),
    };
    MergedEntry {
        book,
        score: e.score + h.category_score as i64 + 20,
        source_count: e.source_count + 1,
        best_position: if h.position < e.best_position {
            h.position
        } else {
            e.best_position
        },
    }
}


/// The views of a list of explore hits.
pub open spec fn hits_view(v: Seq<GlobalExploreBookHit>) -> Seq<ExploreHitView> {
    v.map_values(|h: GlobalExploreBookHit| h@)
}

fn start_exec(h: &GlobalExploreBookHit) -> (r: MergedEntry)
    ensures
        r@ == start_entry(h@),
{
    let mut book = h.book.copy();
    let mut urls: Vec<String> = Vec::new();
    urls.push(h.book.origin.clone());
    assert(strings_view(urls) =~= seq![h.book.origin@]);
    book.book_source_urls = Some(urls);
    let near: usize = if h.position < 100 {
        h.position
    } else {
        100
    };
    MergedEntry {
        book,
        score: h.category_score as i64 + 100 - near as i64,
        source_count: 1,
        best_position: h.position,
    }
}

fn position_of_key(keys: &Vec<String>, key: &String) -> (r: Option<usize>)
    ensures
        match r {
            Some(j) => j < keys@.len() && keys@[j as int]@ == key@,
            None => forall|m: int| 0 <= m < keys@.len() ==> keys@[m]@ != key@,
        },
{
    let mut j: usize = 0;
    while j < keys.len()
        invariant
            j <= keys.len(),
            forall|m: int| 0 <= m < j ==> keys@[m]@ != key@,
        decreases keys.len() - j,
    {
        if keys[j] == *key {
            return Some(j);
        }
        j += 1;
    }
    None
}

fn gather_entries(hits: &Vec<GlobalExploreBookHit>) -> (r: Vec<MergedEntry>)
    requires
        hits@.len() < 0x4000_0000,
    ensures
        entries_view(r@) == merge_explore_hits(hits_view(hits@)),
{
    let ghost all = hits_view(hits@);
    let mut merged: Vec<MergedEntry> = Vec::new();
    let mut keys: Vec<String> = Vec::new();
    let mut i: usize = 0;
    while i < hits.len()
        invariant
            i <= hits@.len() < 0x4000_0000,
            all == hits_view(hits@),
            entries_view(merged@) == merge_explore_hits(all.take(i as int)),
            keys@.len() == merged@.len(),
            forall|j: int| 0 <= j < keys@.len() ==> #[trigger] keys@[j]@ == merge_key_of(merged@[j]@.book),
            forall|j: int|
                0 <= j < merged@.len() ==> (#[trigger] merged@[j]).source_count <= i && -(
                merged@[j].source_count as int) * 0x1_0000_0000 <= merged@[j].score
                    <= merged@[j].source_count as int * 0x1_0000_0000,
        decreases hits.len() - i,
    {
        assert(all.take(i as int + 1).drop_last() == all.take(i as int));
        assert(all.take(i as int + 1).last() == hits@[i as int]@);
        let ghost acc = entries_view(merged@);
        let h = &hits[i];
        if trim_chars(&chars_of(h.book.name.as_str())).len() == 0 {
            i += 1;
            continue;
        }
        let key = h.book.merge_key();
        match position_of_key(&keys, &key) {
            Some(j) => {
                proof {
                    lemma_merge_explore_hits_shape(all.take(i as int));
                    assert(acc[j as int] == merged@[j as int]@);
                    let c = choose|m: int|
                        0 <= m < acc.len() && merge_key_of(#[trigger] acc[m].book) == merge_key_of(
                            h@.book,
                        );
                    assert(c == j);
                }
                let e = absorb_exec(&merged[j], h);
                merged.set(j, e);
                proof {
                    assert(entries_view(merged@) =~= acc.update(
                        j as int,
                        absorb_hit(acc[j as int], hits@[i as int]@),
                    ));
                }
            },
            None => {
                proof {
                    assert forall|m: int| 0 <= m < acc.len() implies merge_key_of(
                        #[trigger] acc[m].book,
                    ) != merge_key_of(h@.book) by {
                        assert(acc[m] == merged@[m]@);
                        assert(keys@[m]@ == merge_key_of(merged@[m]@.book));
                    }
                }
                merged.push(start_exec(h));
                keys.push(key);
                proof {
                    assert(entries_view(merged@) =~= acc.push(start_entry(hits@[i as int]@)));
                }
            },
        }
        i += 1;
    }
    assert(all.take(hits@.len() as int) == all);
    merged
}

proof fn lemma_insert_position_skip(s: Seq<MergedExploreView>, x: MergedExploreView, j: int)
    requires
        0 <= j < s.len(),
        !entry_before(x, s[j]),
    ensures
        insert_position(s.skip(j), x) == 1 + insert_position(s.skip(j + 1), x),
{
    assert(s.skip(j)[0] == s[j]);
    assert(s.skip(j).drop_first() == s.skip(j + 1));
}

fn sort_by_rank(merged: &Vec<MergedEntry>) -> (r: Vec<MergedEntry>)
    ensures
        entries_view(r@) == sort_entries(entries_view(merged@)),
{
    let ghost all = entries_view(merged@);
    let mut sorted: Vec<MergedEntry> = Vec::new();
    let mut k: usize = 0;
    while k < merged.len()
        invariant
            k <= merged@.len(),
            all == entries_view(merged@),
            entries_view(sorted@) == sort_entries(all.take(k as int)),
        decreases merged.len() - k,
    {
        assert(all.take(k as int + 1).drop_last() == all.take(k as int));
        assert(all.take(k as int + 1).last() == merged@[k as int]@);
        let x = merged[k].copy();
        let ghost sv = entries_view(sorted@);
        let mut j: usize = 0;
        assert(sv.skip(0) == sv);
        while j < sorted.len() && !entry_before_exec(&x, &sorted[j])
            invariant
                j <= sorted@.len(),
                sv == entries_view(sorted@),
                insert_position(sv, x@) == j + insert_position(sv.skip(j as int), x@),
            decreases sorted.len() - j,
        {
            proof {
                lemma_insert_position_skip(sv, x@, j as int);
            }
            j += 1;
        }
        proof {
            if j < sorted@.len() {
                assert(sv.skip(j as int)[0] == sv[j as int]);
            } else {
                assert(sv.skip(j as int).len() == 0);
            }
        }
        let ghost xv = x@;
        sorted.insert(j, x);
        proof {
            assert(entries_view(sorted@) =~= sv.insert(j as int, xv));
        }
        k += 1;
    }
    assert(all.take(merged@.len() as int) == all);
    sorted
}

/// The books of the gathered explore page (see [`ranked_explore_books`]).
pub fn merge_global_explore_books(hits: Vec<GlobalExploreBookHit>, limit: usize) -> (r: Vec<
    SearchBook,
>)
    requires
        hits@.len() < 0x4000_0000,
    ensures
        books_view(r@) == ranked_explore_books(hits_view(hits@), limit as nat),
{
    let merged = gather_entries(&hits);
    let sorted = sort_by_rank(&merged);
    let ghost sv = entries_view(sorted@);
    let n = if sorted.len() <= limit {
        sorted.len()
    } else {
        limit
    };
    let mut out: Vec<SearchBook> = Vec::new();
    let mut t: usize = 0;
    while t < n
        invariant
            t <= n <= sorted@.len(),
            sv == entries_view(sorted@),
            books_view(out@) == sv.take(t as int).map_values(|e: MergedExploreView| e.book),
        decreases n - t,
    {
        let ghost before = out@;
        out.push(sorted[t].book.copy());
        proof {
            assert(books_view(out@) =~= books_view(before).push(sv[t as int].book));
            assert(sv.take(t as int + 1).map_values(|e: MergedExploreView| e.book) =~= sv.take(
                t as int,
            ).map_values(|e: MergedExploreView| e.book).push(sv[t as int].book));
        }
        t += 1;
    }
    out
}

} // verus!
