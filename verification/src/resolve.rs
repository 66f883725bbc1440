//! Which book source a request about a book is served by: the one it names,
//! the reader's own source for uploaded TXT books, the source its URL names,
//! the source of the shelf book, or a source on the same host as the book.
use vstd::prelude::*;
use crate::local::{
    is_local_origin_of, is_local_txt_origin, is_local_txt_url, is_local_url_of, local_origin,
    local_origin_text, LocalFormat,
};
use crate::model::{opt_view, Book, BookSource};
use crate::text::{chars_of, ends_with, ends_with_chars};
use crate::urls::{
    extract_root_domain, normalize_source_url, normalized_source_url, root_domain_of,
};

verus! {

/// The name of the source that uploaded TXT books are read from.
pub const LOCAL_TXT_SOURCE_NAME: &'static str = "本地 TXT";

/// The host that `url::Url::parse` finds in a text: `None` where the text
/// does not parse as a URL or the URL has no host.
pub uninterp spec fn url_host(s: Seq<char>) -> Option<Seq<char>>;

/// `url::Url::parse`, then `Url::host_str` on what it parsed. The host it
/// gives is named [`url_host`]: it depends on the text alone. Nothing more
/// of the URL parser is stated.
#[verifier::external_body]
fn host_of_url(s: &str) -> (r: Option<String>)
    ensures
        opt_view(r) == url_host(s@),
{
    match url::Url::parse(s) {
        Ok(u) => u.host_str().map(|h| h.to_string()),
        Err(_) => None,
    }
}

/// Whether a request asks for the source of uploaded TXT books: its source URL
/// is their origin, or its book URL addresses one.
pub open spec fn wants_local_txt(book_source_url: Option<Seq<char>>, book_url: Option<Seq<char>>) -> bool {
    (book_source_url is Some && is_local_origin_of(LocalFormat::Txt, book_source_url->0))
        || (book_url is Some && is_local_url_of(LocalFormat::Txt, book_url->0))
}

/// Whether a request asks for the source of uploaded TXT books (see [`wants_local_txt`]).
pub fn wants_local_txt_source(book_source_url: &Option<String>, book_url: &Option<String>) -> (r:
    bool)
    ensures
        r == wants_local_txt(opt_view(*book_source_url), opt_view(*book_url)),
{
    let by_source = match book_source_url {
        Some(u) => is_local_txt_origin(u.as_str()),
        None => false,
    };
    by_source || match book_url {
        Some(u) => is_local_txt_url(u.as_str()),
        None => false,
    }
}

/// The source that uploaded TXT books are read from: named "本地 TXT", with
/// their origin as its URL.
pub fn local_txt_book_source() -> (r: BookSource)
    ensures
        r.book_source_name@ == LOCAL_TXT_SOURCE_NAME@,
        r.book_source_url@ == local_origin_text(LocalFormat::Txt),
        r.book_source_group is None,
        r.enabled is None,
        r.enabled_explore is None,
        r.explore_url is None,
        r.rule_search is None,
{
    BookSource {
        book_source_name: LOCAL_TXT_SOURCE_NAME.to_string(),
        book_source_url: local_origin(LocalFormat::Txt).to_string(),
        book_source_group: None,
        enabled: None,
        enabled_explore: None,
        explore_url: None,
        rule_search: None,
    }
}

/// The key a source URL is looked up by: its normal form, when not empty.
pub open spec fn lookup_key(url: Seq<char>) -> Option<Seq<char>> {
    if normalized_source_url(url).len() == 0 {
        None
    } else {
        Some(normalized_source_url(url))
    }
}

fn lookup_key_of(url: &str) -> (r: Option<String>)
    ensures
        opt_view(r) == lookup_key(url@),
{
    let n = normalize_source_url(url);
    if n.as_str().is_empty() {
        None
    } else {
        Some(n)
    }
}

/// The position of the first source whose URL has the normal form `key`.
pub open spec fn source_with_key(sources: Seq<BookSource>, key: Seq<char>) -> Option<int>
    decreases sources.len(),
{
    if sources.len() == 0 {
        None
    } else if normalized_source_url(sources.last().book_source_url@) == key && source_with_key(
        sources.drop_last(),
        key,
    ) is None {
        Some(sources.len() - 1)
    } else {
        source_with_key(sources.drop_last(), key)
    }
}

/// The position of the first source whose URL has the normal form `key`
/// (see [`source_with_key`]).
pub fn find_source_by_key(sources: &[BookSource], key: &str) -> (r: Option<usize>)
    ensures
        match r {
            Some(i) => i < sources@.len() && source_with_key(sources@, key@) == Some(i as int),
            None => source_with_key(sources@, key@) is None,
        },
{
    let k = chars_of(key);
    let mut i: usize = 0;
    while i < sources.len()
        invariant
            i <= sources@.len(),
            k@ == key@,
            source_with_key(sources@.take(i as int), key@) is None,
        decreases sources.len() - i,
    {
        assert(sources@.take(i as int + 1).drop_last() == sources@.take(i as int));
        assert(sources@.take(i as int + 1).last() == sources@[i as int]);
        let n = chars_of(normalize_source_url(sources[i].book_source_url.as_str()).as_str());
        if crate::text::same_chars(&n, &k) {
            proof {
                lemma_source_with_key_prefix(sources@, key@, i as int + 1);
            }
            return Some(i);
        }
        i += 1;
    }
    assert(sources@.take(sources@.len() as int) == sources@);
    None
}

proof fn lemma_source_with_key_prefix(sources: Seq<BookSource>, key: Seq<char>, n: int)
    requires
        0 <= n <= sources.len(),
        source_with_key(sources.take(n), key) is Some,
    ensures
        source_with_key(sources, key) == source_with_key(sources.take(n), key),
    decreases sources.len() - n,
{
    if n < sources.len() {
        assert(sources.take(n + 1).drop_last() == sources.take(n));
        lemma_source_with_key_prefix(sources, key, n + 1);
    } else {
        assert(sources.take(n) == sources);
    }
}

/// A book's host and a source's host name the same site: one ends with the
/// other, or they share a non-empty root domain.
pub open spec fn hosts_match(book_host: Seq<char>, source_host: Seq<char>) -> bool {
    ||| ends_with(book_host, source_host)
    ||| ends_with(source_host, book_host)
    ||| root_domain_of(book_host) == root_domain_of(source_host) && root_domain_of(book_host).len()
        > 0
}

/// The position of the first source whose host matches the book's host,
/// given the host of each source (`None` where its URL has none).
pub open spec fn source_on_host(book_host: Seq<char>, hosts: Seq<Option<Seq<char>>>) -> Option<int>
    decreases hosts.len(),
{
    if hosts.len() == 0 {
        None
    } else {
        match source_on_host(book_host, hosts.drop_last()) {
            Some(i) => Some(i),
            None => match hosts.last() {
                Some(h) => if hosts_match(book_host, h) {
                    Some(hosts.len() - 1)
                } else {
                    None
                },
                None => None,
            },
        }
    }
}

fn hosts_match_exec(book_host: &str, source_host: &str) -> (r: bool)
    ensures
        r == hosts_match(book_host@, source_host@),
{
    let b = chars_of(book_host);
    let s = chars_of(source_host);
    if ends_with_chars(&b, &s) || ends_with_chars(&s, &b) {
        return true;
    }
    let br = extract_root_domain(book_host);
    let sr = extract_root_domain(source_host);
    br == sr && !br.as_str().is_empty()
}

/// The views of a list of optional hosts.
pub open spec fn hosts_view(v: Seq<Option<String>>) -> Seq<Option<Seq<char>>> {
    v.map_values(|h: Option<String>| opt_view(h))
}

/// The position of the first source on the book's host (see [`source_on_host`]).
pub fn find_source_on_host(book_host: &str, hosts: &[Option<String>]) -> (r: Option<usize>)
    ensures
        match r {
            Some(i) => i < hosts@.len() && source_on_host(book_host@, hosts_view(hosts@)) == Some(
                i as int,
            ),
            None => source_on_host(book_host@, hosts_view(hosts@)) is None,
        },
{
    let ghost hv = hosts_view(hosts@);
    let mut i: usize = 0;
    while i < hosts.len()
        invariant
            i <= hosts@.len(),
            hv == hosts_view(hosts@),
            source_on_host(book_host@, hv.take(i as int)) is None,
        decreases hosts.len() - i,
    {
        assert(hv.take(i as int + 1).drop_last() == hv.take(i as int));
        assert(hv.take(i as int + 1).last() == opt_view(hosts@[i as int]));
        let hit = match &hosts[i] {
            Some(h) => hosts_match_exec(book_host, h.as_str()),
            None => false,
        };
        if hit {
            proof {
                lemma_source_on_host_prefix(book_host@, hv, i as int + 1);
            }
            return Some(i);
        }
        i += 1;
    }
    assert(hv.take(hosts@.len() as int) == hv);
    None
}

proof fn lemma_source_on_host_prefix(book_host: Seq<char>, hosts: Seq<Option<Seq<char>>>, n: int)
    requires
        0 <= n <= hosts.len(),
        source_on_host(book_host, hosts.take(n)) is Some,
    ensures
        source_on_host(book_host, hosts) == source_on_host(book_host, hosts.take(n)),
    decreases hosts.len() - n,
{
    if n < hosts.len() {
        assert(hosts.take(n + 1).drop_last() == hosts.take(n));
        lemma_source_on_host_prefix(book_host, hosts, n + 1);
    } else {
        assert(hosts.take(n) == hosts);
    }
}

/// The host of each source: that of its normalized URL.
pub open spec fn source_hosts(sources: Seq<BookSource>) -> Seq<Option<Seq<char>>> {
    sources.map_values(|s: BookSource| url_host(normalized_source_url(s.book_source_url@)))
}

/// The hosts of the sources (see [`source_hosts`]).
pub fn hosts_of_sources(sources: &[BookSource]) -> (r: Vec<Option<String>>)
    ensures
        hosts_view(r@) == source_hosts(sources@),
{
    let mut out: Vec<Option<String>> = Vec::new();
    let mut i: usize = 0;
    while i < sources.len()
        invariant
            i <= sources@.len(),
            hosts_view(out@) == source_hosts(sources@.take(i as int)),
        decreases sources.len() - i,
    {
        let h = host_of_url(normalize_source_url(sources[i].book_source_url.as_str()).as_str());
        let ghost before = hosts_view(out@);
        out.push(h);
        assert(hosts_view(out@) =~= before.push(opt_view(h)));
        assert(source_hosts(sources@.take(i as int + 1)) =~= source_hosts(sources@.take(i as int)).push(
            url_host(normalized_source_url(sources@[i as int].book_source_url@)),
        ));
        i += 1;
    }
    assert(sources@.take(sources@.len() as int) == sources@);
    out
}

/// The host a book URL is matched by, when it has a non-empty one.
pub open spec fn book_host_of(book_url: Option<Seq<char>>) -> Option<Seq<char>> {
    match book_url {
        Some(u) => match url_host(u) {
            Some(h) => if h.len() > 0 {
                Some(h)
            } else {
                None
            },
            None => None,
        },
        None => None,
    }
}

fn book_host(book_url: &Option<String>) -> (r: Option<String>)
    ensures
        opt_view(r) == book_host_of(opt_view(*book_url)),
{
    match book_url {
        Some(u) => match host_of_url(u.as_str()) {
            Some(h) => if h.as_str().is_empty() {
                None
            } else {
                Some(h)
            },
            None => None,
        },
        None => None,
    }
}

/// What the resolver is waiting for.
#[derive(Debug, Clone, Copy, PartialEq, Eq, Structural)]
pub enum ResolvePhase {
    /// The source stored under the requested source URL's key.
    LookupUrl,
    /// The list of sources, to search for the requested source URL's key.
    ListForUrl,
    /// The shelf book at the requested book URL.
    ShelfBook,
    /// The source stored under the shelf book's origin.
    LookupOrigin,
    /// The list of sources, to search for the shelf book's origin.
    ListForOrigin,
    /// The list of sources, to search for one on the book's host.
    Discover,
    /// Nothing: the resolver has answered.
    Done,
}

/// What the resolver asks for next, or its answer.
#[derive(Debug)]
pub enum ResolveStep {
    /// The answer: this source.
    Use(BookSource),
    /// Look up the source stored under this URL, and answer with `source_found`.
    Get(String),
    /// List the user's sources, and answer with `sources_listed`.
    List,
    /// Look up the shelf book at this URL, and answer with `shelf_book_found`
    /// (`None` also where the lookup failed).
    GetShelfBook(String),
    /// The answer: the requested source URL names no source ("bookSource not found").
    NotFound,
    /// The answer: nothing names a source and none is on the book's host
    /// ("bookSource or bookSourceUrl required, and auto-discovery failed").
    Unresolved,
}

/// The state of a resolver.
pub struct ResolverView {
    pub phase: ResolvePhase,
    /// The key or host being searched for.
    pub key: Seq<char>,
    pub book_url: Option<Seq<char>>,
}

/// Finds the source a request about a book is served by, one lookup at a time.
pub struct SourceResolver {
    phase: ResolvePhase,
    key: String,
    book_url: Option<String>,
}

impl View for SourceResolver {
    type V = ResolverView;

    closed spec fn view(&self) -> ResolverView {
        ResolverView { phase: self.phase, key: self.key@, book_url: opt_view(self.book_url) }
    }
}

/// Where the resolver goes once nothing names a source: a search of the
/// sources for the book's host, when the book URL has one; else no answer.
pub open spec fn discovery(book_url: Option<Seq<char>>) -> (ResolvePhase, Option<Seq<char>>) {
    match book_host_of(book_url) {
        Some(h) => (ResolvePhase::Discover, Some(h)),
        None => (ResolvePhase::Done, None),
    }
}

impl SourceResolver {
    fn discover(book_url: Option<String>) -> (r: (SourceResolver, ResolveStep))
        ensures
            r.0@.book_url == opt_view(book_url),
            r.0@.phase == discovery(opt_view(book_url)).0,
            match discovery(opt_view(book_url)).1 {
                Some(h) => r.0@.key == h && r.1 is List,
                None => r.1 is Unresolved,
            },
    {
        match book_host(&book_url) {
            Some(h) => (SourceResolver { phase: ResolvePhase::Discover, key: h, book_url }, ResolveStep::List),
            None => (
                SourceResolver { phase: ResolvePhase::Done, key: String::new(), book_url },
                ResolveStep::Unresolved,
            ),
        }
    }

    /// Starts resolving: a given source is the answer; a request for uploaded
    /// TXT books gets their source; a source URL with a non-empty normal form
    /// is looked up; else the shelf book at the book URL is looked up; else
    /// the discovery by host (see [`discovery`]).
    pub fn start(
        book_source: Option<BookSource>,
        book_source_url: Option<String>,
        book_url: Option<String>,
    ) -> (r: (SourceResolver, ResolveStep))
        ensures
            r.0@.book_url == opt_view(book_url),
            match book_source {
                Some(src) => r.0@.phase == ResolvePhase::Done && r.1 == ResolveStep::Use(src),
                None => if wants_local_txt(opt_view(book_source_url), opt_view(book_url)) {
                    &&& r.0@.phase == ResolvePhase::Done
                    &&& r.1 matches ResolveStep::Use(s)
                    &&& s.book_source_name@ == LOCAL_TXT_SOURCE_NAME@
                    &&& s.book_source_url@ == local_origin_text(LocalFormat::Txt)
                    &&& s.book_source_group is None
                    &&& s.enabled is None
                    &&& s.enabled_explore is None
                    &&& s.explore_url is None
                    &&& s.rule_search is None
                } else if book_source_url is Some && lookup_key(book_source_url->0@) is Some {
                    &&& r.0@.phase == ResolvePhase::LookupUrl
                    &&& r.0@.key == lookup_key(book_source_url->0@)->0
                    &&& r.1 matches ResolveStep::Get(k)
                    &&& k@ == r.0@.key
                } else if book_url is Some {
                    &&& r.0@.phase == ResolvePhase::ShelfBook
                    &&& r.1 matches ResolveStep::GetShelfBook(u)
                    &&& u@ == book_url->0@
                } else {
                    r.0@.phase == discovery(None).0 && r.1 is Unresolved
                },
            },
    {
        if let Some(src) = book_source {
            return (
                SourceResolver { phase: ResolvePhase::Done, key: String::new(), book_url },
                ResolveStep::Use(src),
            );
        }
        if wants_local_txt_source(&book_source_url, &book_url) {
            return (
                SourceResolver { phase: ResolvePhase::Done, key: String::new(), book_url },
                ResolveStep::Use(local_txt_book_source()),
            );
        }
        if let Some(u) = &book_source_url {
            if let Some(k) = lookup_key_of(u.as_str()) {
                let key = k.clone();
                return (
                    SourceResolver { phase: ResolvePhase::LookupUrl, key, book_url },
                    ResolveStep::Get(k),
                );
            }
        }
        match &book_url {
            Some(u) => {
                let target = u.clone();
                (
                    SourceResolver { phase: ResolvePhase::ShelfBook, key: String::new(), book_url },
                    ResolveStep::GetShelfBook(target),
                )
            },
            None => Self::discover(None),
        }
    }

    /// The answer to `Get`: a stored source is the answer; else the list of
    /// sources is searched for the same key.
    pub fn source_found(&mut self, found: Option<BookSource>) -> (r: ResolveStep)
        requires
            old(self)@.phase == ResolvePhase::LookupUrl || old(self)@.phase
                == ResolvePhase::LookupOrigin,
        ensures
            match found {
                Some(src) => final(self)@ == (ResolverView { phase: ResolvePhase::Done, ..old(self)@ })
                    && r == ResolveStep::Use(src),
                None => final(self)@ == (ResolverView {
                    phase: if old(self)@.phase == ResolvePhase::LookupUrl {
                        ResolvePhase::ListForUrl
                    } else {
                        ResolvePhase::ListForOrigin
                    },
                    ..old(self)@
                }) && r is List,
            },
    {
        match found {
            Some(src) => {
                self.phase = ResolvePhase::Done;
                ResolveStep::Use(src)
            },
            None => {
                self.phase = if self.phase == ResolvePhase::LookupUrl {
                    ResolvePhase::ListForUrl
                } else {
                    ResolvePhase::ListForOrigin
                };
                ResolveStep::List
            },
        }
    }

    /// The answer to `GetShelfBook`: a shelf book whose origin has a non-empty
    /// normal form leads to a lookup of that origin; else the discovery by host.
    pub fn shelf_book_found(&mut self, book: Option<Book>) -> (r: ResolveStep)
        requires
            old(self)@.phase == ResolvePhase::ShelfBook,
        ensures
            final(self)@.book_url == old(self)@.book_url,
            if book is Some && lookup_key(book->0.origin@) is Some {
                &&& final(self)@.phase == ResolvePhase::LookupOrigin
                &&& final(self)@.key == lookup_key(book->0.origin@)->0
                &&& r matches ResolveStep::Get(k)
                &&& k@ == final(self)@.key
            } else {
                &&& final(self)@.phase == discovery(old(self)@.book_url).0
                &&& match discovery(old(self)@.book_url).1 {
                    Some(h) => final(self)@.key == h && r is List,
                    None => r is Unresolved,
                }
            },
    {
        if let Some(b) = &book {
            if let Some(k) = lookup_key_of(b.origin.as_str()) {
                self.phase = ResolvePhase::LookupOrigin;
                self.key = k.clone();
                return ResolveStep::Get(k);
            }
        }
        let mut url: Option<String> = None;
        std::mem::swap(&mut url, &mut self.book_url);
        let (next, step) = Self::discover(url);
        *self = next;
        step
    }

    /// The answer to `List`: the first source with the key (or, when
    /// discovering, on the book's host) is the answer; when none is, a search
    /// for the requested source URL ends in `NotFound`, one for the shelf
    /// book's origin goes on with the discovery, and the discovery ends in
    /// `Unresolved`.
    pub fn sources_listed(&mut self, sources: Vec<BookSource>) -> (r: ResolveStep)
        requires
            old(self)@.phase == ResolvePhase::ListForUrl || old(self)@.phase
                == ResolvePhase::ListForOrigin || old(self)@.phase == ResolvePhase::Discover,
        ensures
            final(self)@.book_url == old(self)@.book_url,
            ({
                let s = old(self)@;
                let hit = if s.phase == ResolvePhase::Discover {
                    source_on_host(s.key, source_hosts(sources@))
                } else {
                    source_with_key(sources@, s.key)
                };
                match hit {
                    Some(i) => final(self)@.phase == ResolvePhase::Done && r == ResolveStep::Use(
                        sources@[i],
                    ),
                    None => if s.phase == ResolvePhase::ListForUrl {
                        final(self)@.phase == ResolvePhase::Done && r is NotFound
                    } else if s.phase == ResolvePhase::Discover {
                        final(self)@.phase == ResolvePhase::Done && r is Unresolved
                    } else {
                        final(self)@.phase == discovery(s.book_url).0 && match discovery(
                            s.book_url,
                        ).1 {
                            Some(h) => final(self)@.key == h && r is List,
                            None => r is Unresolved,
                        }
                    },
                }
            }),
    {
        let hit = if self.phase == ResolvePhase::Discover {
            let hosts = hosts_of_sources(sources.as_slice());
            assert(hosts_view(hosts@).len() == hosts@.len());
            find_source_on_host(self.key.as_str(), hosts.as_slice())
        } else {
            find_source_by_key(sources.as_slice(), self.key.as_str())
        };
        match hit {
            Some(i) => {
                let mut sources = sources;
                self.phase = ResolvePhase::Done;
                ResolveStep::Use(sources.remove(i))
            },
            None => if self.phase == ResolvePhase::ListForUrl {
                self.phase = ResolvePhase::Done;
                ResolveStep::NotFound
            } else if self.phase == ResolvePhase::Discover {
                self.phase = ResolvePhase::Done;
                ResolveStep::Unresolved
            } else {
                let mut url: Option<String> = None;
                std::mem::swap(&mut url, &mut self.book_url);
                let (next, step) = Self::discover(url);
                *self = next;
                step
            },
        }
    }
}

} // verus!
