use crate::link::{Url, UrlView};
use crate::text::{has_prefix, same_text};
use vstd::hash_set::StringHashSet;
use vstd::prelude::*;

verus! {

/// The scope of a crawl and what it has visited.
pub struct ScopeView {
    /// The domain of the seed: no other domain is visited.
    pub domain: Seq<char>,
    /// The path of the seed.
    pub start_path: Seq<char>,
    /// Whether the whole domain is in scope, and not only the paths that
    /// start with the seed's.
    pub domain_wide: bool,
    /// The URLs seen so far, each without its fragment.
    pub visited: Set<Seq<char>>,
}

impl ScopeView {
    /// Whether `url` is worth a visit: it lies in the crawl's domain, and,
    /// unless the whole domain is in scope, its path starts with the seed's
    /// (as text, wherever a segment ends).
    pub open spec fn in_scope(self, url: UrlView) -> bool {
        url.domain == Some(self.domain) && (self.domain_wide || self.start_path.is_prefix_of(
            url.path,
        ))
    }

    /// Whether `url` has not been seen, by its normalized form.
    pub open spec fn is_new(self, url: UrlView) -> bool {
        !self.visited.contains(url.normalized)
    }

    /// The scope once `url` has been seen.
    pub open spec fn mark(self, url: UrlView) -> ScopeView {
        ScopeView { visited: self.visited.insert(url.normalized), ..self }
    }

    /// The scope once all of `urls` have been seen.
    pub open spec fn mark_all(self, urls: Seq<UrlView>) -> ScopeView
        decreases urls.len(),
    {
        if urls.len() == 0 {
            self
        } else {
            self.mark_all(urls.drop_last()).mark(urls.last())
        }
    }

    /// What marking each of `urls` in turn answers.
    pub open spec fn mark_answers(self, urls: Seq<UrlView>) -> Seq<bool> {
        Seq::new(urls.len(), |i: int| self.mark_all(urls.take(i)).is_new(urls[i]))
    }
}

/// The scope policy of one crawl: which URLs are worth a visit, and which
/// have been seen already.
pub struct CrawlState {
    domain: String,
    start_url_path: String,
    domain_match: bool,
    visited_pages: StringHashSet,
}

impl View for CrawlState {
    type V = ScopeView;

    closed spec fn view(&self) -> ScopeView {
        ScopeView {
            domain: self.domain@,
            start_path: self.start_url_path@,
            domain_wide: self.domain_match,
            visited: self.visited_pages@,
        }
    }
}

impl CrawlState {
    /// The scope of a crawl that starts at `start_url`, which counts as seen.
    pub fn new(start_url: &Url, domain_match: bool) -> (state: CrawlState)
        requires
            start_url@.domain is Some,
        ensures
            state@ == (ScopeView {
                domain: start_url@.domain->0,
                start_path: start_url@.path,
                domain_wide: domain_match,
                visited: Set::empty().insert(start_url@.normalized),
            }),
    {
        let mut visited_pages = StringHashSet::new();
        visited_pages.insert(Self::normalize_url(start_url));
        let domain = match start_url.domain() {
            Some(d) => d.to_owned(),
            None => String::new(),
        };
        CrawlState {
            domain,
            start_url_path: start_url.path().to_owned(),
            domain_match,
            visited_pages,
        }
    }

    /// The URL without its fragment: the form under which it counts as seen.
    pub fn normalize_url(url: &Url) -> (normalized: String)
        ensures
            normalized@ == url@.normalized,
    {
        url.normalized().to_owned()
    }

    /// Whether `url` should be visited at all.
    pub fn should_visit_url(&self, url: &Url) -> (visit: bool)
        ensures
            visit == self@.in_scope(url@),
    {
        match url.domain() {
            None => false,
            Some(domain) => {
                if !same_text(domain, self.domain.as_str()) {
                    false
                } else if self.domain_match {
                    true
                } else {
                    has_prefix(url.path(), self.start_url_path.as_str())
                }
            },
        }
    }

    /// Whether the links of the page at `url` should be extracted: the scope
    /// for extraction is the scope for visiting.
    pub fn should_extract_links(&self, url: &Url) -> (extract: bool)
        ensures
            extract == self@.in_scope(url@),
    {
        self.should_visit_url(url)
    }

    /// Marks `url` as seen, and says whether this was its first time.
    pub fn mark_visited(&mut self, url: &Url) -> (fresh: bool)
        ensures
            fresh == old(self)@.is_new(url@),
            final(self)@ == old(self)@.mark(url@),
    {
        self.visited_pages.insert(Self::normalize_url(url))
    }

    /// Whether `url` counts as seen.
    pub fn is_visited(&self, url: &Url) -> (seen: bool)
        ensures
            seen == !self@.is_new(url@),
    {
        self.visited_pages.contains(url.normalized())
    }

    /// How many URLs count as seen.
    pub fn visited_count(&self) -> (count: usize)
        ensures
            count == self@.visited.len(),
    {
        self.visited_pages.len()
    }
}

/// Once URLs that are equal but for their fragments have been marked, no
/// later one of them is new.
pub proof fn lemma_marked_stays_seen(scope: ScopeView, urls: Seq<UrlView>, url: UrlView)
    requires
        exists|i: int| 0 <= i < urls.len() && urls[i].normalized == url.normalized,
    ensures
        !scope.mark_all(urls).is_new(url),
    decreases urls.len(),
{
    if urls.last().normalized != url.normalized {
        let i = choose|i: int| 0 <= i < urls.len() && urls[i].normalized == url.normalized;
        assert(urls.drop_last()[i] == urls[i]);
        lemma_marked_stays_seen(scope, urls.drop_last(), url);
    }
}

/// Marking URLs that are equal but for their fragments, one after the other,
/// in a scope that has not seen them: the first call answers true, and every
/// later one false.
pub proof fn lemma_only_first_mark_is_new(scope: ScopeView, urls: Seq<UrlView>)
    requires
        urls.len() > 0,
        forall|i: int| 0 <= i < urls.len() ==> (#[trigger] urls[i]).normalized == urls[0].normalized,
        scope.is_new(urls[0]),
    ensures
        scope.mark_answers(urls)[0],
        forall|i: int| 0 < i < urls.len() ==> !(#[trigger] scope.mark_answers(urls)[i]),
{
    assert(urls.take(0) =~= Seq::empty());
    assert forall|i: int| 0 < i < urls.len() implies !(#[trigger] scope.mark_answers(urls)[i]) by {
        let before = urls.take(i);
        assert(before[0] == urls[0]);
        lemma_marked_stays_seen(scope, before, urls[i]);
    }
}

/// Marking never forgets: what was seen stays seen, and the scope's domain,
/// path and mode stay as they are.
pub proof fn lemma_mark_grows(scope: ScopeView, url: UrlView)
    ensures
        scope.visited.subset_of(scope.mark(url).visited),
        scope.mark(url).domain == scope.domain,
        scope.mark(url).start_path == scope.start_path,
        scope.mark(url).domain_wide == scope.domain_wide,
{
}

} // verus!
