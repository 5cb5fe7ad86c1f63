use crate::text::texts;
use vstd::hash_map::StringHashMap;
use vstd::hash_set::StringHashSet;
use vstd::prelude::*;

verus! {

/// A URL that could not be fetched.
pub struct BadUrl {
    /// The URL that failed.
    pub url: String,
    /// The page on which it was found; `None` for the seed.
    pub found_on: Option<String>,
}

pub struct BadUrlView {
    pub url: Seq<char>,
    pub found_on: Option<Seq<char>>,
}

impl View for BadUrl {
    type V = BadUrlView;

    open spec fn view(&self) -> BadUrlView {
        BadUrlView { url: self.url@, found_on: crate::text::option_text(self.found_on) }
    }
}

/// The views of a sequence of bad URLs.
pub open spec fn bad_url_views(bad: Seq<BadUrl>) -> Seq<BadUrlView> {
    bad.map_values(|b: BadUrl| b@)
}

/// A page and the links found on it.
pub struct PageLinks {
    pub page: String,
    pub links: Vec<String>,
}

/// The links found on each page, by the page's URL. The pages are kept in
/// the order in which they came first.
pub struct PageLinkMap {
    entries: Vec<PageLinks>,
    index: StringHashMap<usize>,
}

impl View for PageLinkMap {
    type V = Map<Seq<char>, Seq<Seq<char>>>;

    closed spec fn view(&self) -> Map<Seq<char>, Seq<Seq<char>>> {
        Map::new(
            |page: Seq<char>| self.index@.contains_key(page),
            |page: Seq<char>| texts(self.entries@[self.index@[page] as int].links@),
        )
    }
}

/// Every URL of a page-link map: the pages and the links found on them.
pub open spec fn all_urls(map: Map<Seq<char>, Seq<Seq<char>>>) -> Set<Seq<char>> {
    Set::new(
        |url: Seq<char>|
            map.contains_key(url) || exists|page: Seq<char>|
                map.contains_key(page) && #[trigger] map[page].contains(url),
    )
}

/// Whether `url` is the entry's page or one of its links.
spec fn entry_holds(entry: PageLinks, url: Seq<char>) -> bool {
    entry.page@ == url || texts(entry.links@).contains(url)
}

/// The URLs of the first `n` entries: their pages and links.
spec fn urls_of(entries: Seq<PageLinks>, n: int) -> Set<Seq<char>> {
    Set::new(|url: Seq<char>| exists|i: int| 0 <= i < n && #[trigger] entry_holds(entries[i], url))
}

impl PageLinkMap {
    /// The entries and the index agree: each page has one entry, and the
    /// index says where it is.
    pub closed spec fn wf(&self) -> bool {
        &&& forall|page: Seq<char>| #[trigger]
            self.index@.contains_key(page) ==> self.index@[page] < self.entries@.len()
                && self.entries@[self.index@[page] as int].page@ == page
        &&& forall|i: int|
            0 <= i < self.entries@.len() ==> self.index@.contains_key(
                #[trigger] self.entries@[i].page@,
            ) && self.index@[self.entries@[i].page@] == i
    }

    /// The pages in the order in which they came first.
    pub closed spec fn pages(&self) -> Seq<Seq<char>> {
        self.entries@.map_values(|e: PageLinks| e.page@)
    }

    /// A map without pages.
    pub fn new() -> (map: PageLinkMap)
        ensures
            map.wf(),
            map@ == Map::<Seq<char>, Seq<Seq<char>>>::empty(),
            map.pages() == Seq::<Seq<char>>::empty(),
    {
        let map = PageLinkMap { entries: Vec::new(), index: StringHashMap::new() };
        assert(map@ =~= Map::<Seq<char>, Seq<Seq<char>>>::empty());
        assert(map.pages() =~= Seq::<Seq<char>>::empty());
        map
    }

    /// Records the links of `page`, in place of what was recorded for it
    /// before.
    pub fn insert(&mut self, page: String, links: Vec<String>)
        requires
            old(self).wf(),
        ensures
            final(self).wf(),
            final(self)@ == old(self)@.insert(page@, texts(links@)),
            final(self).pages() == if old(self)@.contains_key(page@) {
                old(self).pages()
            } else {
                old(self).pages().push(page@)
            },
    {
        let ghost before = *self;
        let found = match self.index.get(page.as_str()) {
            Some(at) => Some(*at),
            None => None,
        };
        match found {
            Some(at) => {
                self.entries.set(at, PageLinks { page, links });
                assert(self.pages() =~= before.pages());
            },
            None => {
                let at = self.entries.len();
                self.index.insert(page.clone(), at);
                self.entries.push(PageLinks { page, links });
                assert(self.pages() =~= before.pages().push(page@));
            },
        }
        assert(self@ =~= before@.insert(page@, texts(links@)));
    }

    /// How many pages have links recorded.
    pub fn len(&self) -> (count: usize)
        requires
            self.wf(),
        ensures
            count == self@.dom().len(),
            count == self.pages().len(),
    {
        broadcast use vstd::hash_map::group_hash_map_axioms;

        let count = self.index.len();
        assert(self@.dom() =~= self.index@.dom());
        proof {
            self.lemma_pages_count();
        }
        count
    }

    /// There are as many pages as entries.
    proof fn lemma_pages_count(&self)
        requires
            self.wf(),
        ensures
            self.index@.dom().finite(),
            self.index@.dom().len() == self.entries@.len(),
    {
        let pages = self.pages();
        assert(pages.no_duplicates()) by {
            assert forall|i: int, j: int|
                0 <= i < pages.len() && 0 <= j < pages.len() && i != j implies pages[i]
                != pages[j] by {
                assert(self.index@[self.entries@[i].page@] == i);
                assert(self.index@[self.entries@[j].page@] == j);
            }
        }
        assert(pages.to_set() =~= self.index@.dom()) by {
            assert forall|page: Seq<char>| self.index@.contains_key(page) implies pages.to_set().contains(
                page,
            ) by {
                assert(pages[self.index@[page] as int] == page);
            }
            assert forall|page: Seq<char>| pages.to_set().contains(page) implies self.index@.contains_key(
                page,
            ) by {
                let i = choose|i: int| 0 <= i < pages.len() && pages[i] == page;
                assert(self.index@.contains_key(self.entries@[i].page@));
            }
        }
        pages.unique_seq_to_set();
        vstd::seq_lib::seq_to_set_is_finite(pages);
    }

    /// The pages with their links, in the order in which the pages came
    /// first.
    pub fn entries(&self) -> (entries: &Vec<PageLinks>)
        requires
            self.wf(),
        ensures
            entries@.len() == self.pages().len(),
            forall|i: int|
                0 <= i < entries@.len() ==> (#[trigger] entries@[i]).page@ == self.pages()[i]
                    && self@.contains_key(entries@[i].page@) && self@[entries@[i].page@] == texts(
                    entries@[i].links@,
                ),
            forall|page: Seq<char>| #[trigger]
                self@.contains_key(page) ==> self.pages().contains(page),
    {
        assert forall|page: Seq<char>| #[trigger] self@.contains_key(page) implies self.pages().contains(
            page,
        ) by {
            assert(self.pages()[self.index@[page] as int] == page);
        }
        &self.entries
    }

    /// How many different URLs the map holds, pages and links together.
    pub fn count_urls(&self) -> (count: usize)
        requires
            self.wf(),
        ensures
            count == all_urls(self@).len(),
    {
        broadcast use vstd::hash_set::group_hash_set_axioms;

        let mut seen = StringHashSet::new();
        let mut i: usize = 0;
        assert(seen@ =~= urls_of(self.entries@, 0));
        while i < self.entries.len()
            invariant
                self.wf(),
                i <= self.entries.len(),
                seen@ == urls_of(self.entries@, i as int),
            decreases self.entries.len() - i,
        {
            let entry = &self.entries[i];
            seen.insert(entry.page.clone());
            let ghost with_page = seen@;
            let mut j: usize = 0;
            while j < entry.links.len()
                invariant
                    j <= entry.links.len(),
                    i < self.entries.len(),
                    *entry == self.entries@[i as int],
                    with_page == urls_of(self.entries@, i as int).insert(entry.page@),
                    seen@ == with_page.union(texts(entry.links@).take(j as int).to_set()),
                decreases entry.links.len() - j,
            {
                seen.insert(entry.links[j].clone());
                let ghost links = texts(entry.links@);
                assert(links.take(j + 1).to_set() =~= links.take(j as int).to_set().insert(
                    links[j as int],
                )) by {
                    assert(links.take(j + 1) == links.take(j as int).push(links[j as int]));
                    vstd::seq_lib::seq_to_set_distributes_over_add(links.take(j as int), seq![links[j as int]]);
                    assert(links.take(j as int).push(links[j as int]) =~= links.take(j as int) + seq![links[j as int]]);
                    assert(seq![links[j as int]].to_set() =~= Set::empty().insert(links[j as int])) by {
                        assert(seq![links[j as int]][0] == links[j as int]);
                    }
                }
                j += 1;
            }
            proof {
                let links = texts(entry.links@);
                assert(links.take(entry.links.len() as int) == links);
                assert(seen@ =~= urls_of(self.entries@, i + 1)) by {
                    assert forall|url: Seq<char>| seen@.contains(url) implies urls_of(
                        self.entries@,
                        i + 1,
                    ).contains(url) by {
                        if urls_of(self.entries@, i as int).contains(url) {
                            let k = choose|k: int|
                                0 <= k < i && #[trigger] entry_holds(self.entries@[k], url);
                            assert(0 <= k < i + 1);
                        } else {
                            assert(entry_holds(self.entries@[i as int], url));
                        }
                    }
                    assert forall|url: Seq<char>|
                        urls_of(self.entries@, i + 1).contains(url) implies seen@.contains(url) by {
                        let k = choose|k: int|
                            0 <= k < i + 1 && #[trigger] entry_holds(self.entries@[k], url);
                        if k < i {
                            assert(urls_of(self.entries@, i as int).contains(url));
                        }
                    }
                }
            }
            i += 1;
        }
        proof {
            self.lemma_urls_of_all();
        }
        seen.len()
    }

    /// The URLs of all entries are the URLs of the map.
    proof fn lemma_urls_of_all(&self)
        requires
            self.wf(),
        ensures
            urls_of(self.entries@, self.entries@.len() as int) == all_urls(self@),
    {
        let n = self.entries@.len() as int;
        assert forall|url: Seq<char>| urls_of(self.entries@, n).contains(url) implies all_urls(
            self@,
        ).contains(url) by {
            let k = choose|k: int| 0 <= k < n && #[trigger] entry_holds(self.entries@[k], url);
            let page = self.entries@[k].page@;
            assert(self.index@.contains_key(page) && self.index@[page] == k);
            assert(self@.contains_key(page));
            if page != url {
                assert(self@[page].contains(url));
            }
        }
        assert forall|url: Seq<char>| all_urls(self@).contains(url) implies urls_of(
            self.entries@,
            n,
        ).contains(url) by {
            if self@.contains_key(url) {
                let k = self.index@[url] as int;
                assert(entry_holds(self.entries@[k], url));
            } else {
                let page = choose|page: Seq<char>|
                    self@.contains_key(page) && #[trigger] self@[page].contains(url);
                let k = self.index@[page] as int;
                assert(self.entries@[k].page@ == page);
                assert(entry_holds(self.entries@[k], url));
            }
        }
        assert(urls_of(self.entries@, n) =~= all_urls(self@));
    }
}

/// The figures of a finished crawl.
#[derive(Clone, Copy, Debug, PartialEq, Eq, Structural)]
pub struct Summary {
    /// How many pages were fetched.
    pub pages_crawled: usize,
    /// How many different URLs were met, pages and links together.
    pub unique_urls: usize,
    /// How many URLs failed and were not skipped.
    pub broken_links: usize,
}

/// What a crawl hands back.
pub struct CrawlReport {
    /// The URLs that failed, in the order in which their failures came.
    pub bad_urls: Vec<BadUrl>,
    /// The links found on each page that was fetched.
    pub page_links: PageLinkMap,
    /// The bytes of all bodies that were read.
    pub total_bytes_downloaded: usize,
    /// Whether the crawl was cancelled before its frontier was empty.
    pub interrupted: bool,
}

impl CrawlReport {
    /// The figures of the crawl.
    pub fn summary(&self) -> (summary: Summary)
        requires
            self.page_links.wf(),
        ensures
            summary.pages_crawled == self.page_links@.dom().len(),
            summary.unique_urls == all_urls(self.page_links@).len(),
            summary.broken_links == self.bad_urls@.len(),
    {
        Summary {
            pages_crawled: self.page_links.len(),
            unique_urls: self.page_links.count_urls(),
            broken_links: self.bad_urls.len(),
        }
    }
}

} // verus!
