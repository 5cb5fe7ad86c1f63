use crate::classify::{absolute_href, is_absolute_url};
use crate::link::{url_join, url_views, Url, UrlView};
use crate::text::texts;
use vstd::prelude::*;

verus! {

/// What `scraper` finds in a document: `None` where `scraper::Selector::parse`
/// rejects `selector`; else, for each element of the document that
/// `scraper::Html::parse_document` makes of `html` and that the selector
/// matches, in the order in which `scraper::Html::select` yields them, the
/// value of the element's attribute `name`, `None` where it has none.
pub uninterp spec fn html_select(html: Seq<char>, selector: Seq<char>, name: Seq<char>) -> Option<
    Seq<Option<Seq<char>>>,
>;

/// The attribute values that a selection found, as text.
pub open spec fn found_view(found: Option<Vec<Option<String>>>) -> Option<Seq<Option<Seq<char>>>> {
    match found {
        Some(values) => Some(attribute_views(values@)),
        None => None,
    }
}

pub open spec fn attribute_views(values: Seq<Option<String>>) -> Seq<Option<Seq<char>>> {
    values.map_values(
        |v: Option<String>|
            match v {
                Some(s) => Some(s@),
                None => None,
            },
    )
}

/// The attribute of the first element found, where there is one and it has
/// the attribute.
pub open spec fn first_value(found: Option<Seq<Option<Seq<char>>>>) -> Option<Seq<char>> {
    match found {
        Some(values) => if values.len() > 0 {
            values[0]
        } else {
            None
        },
        None => None,
    }
}

/// The attribute values that are there, in order.
pub open spec fn present_values(values: Seq<Option<Seq<char>>>) -> Seq<Seq<char>>
    decreases values.len(),
{
    if values.len() == 0 {
        Seq::empty()
    } else {
        let front = present_values(values.drop_last());
        match values.last() {
            Some(v) => front.push(v),
            None => front,
        }
    }
}

/// All attribute values of a selection; none where the selector was rejected.
pub open spec fn all_values(found: Option<Seq<Option<Seq<char>>>>) -> Seq<Seq<char>> {
    match found {
        Some(values) => present_values(values),
        None => Seq::empty(),
    }
}

/// The URL against which a page's links are resolved: the page's own URL,
/// unless the page names a base that resolves against it.
pub open spec fn base_for(page: UrlView, base_href: Option<Seq<char>>) -> UrlView {
    match base_href {
        Some(href) => match url_join(page.text, href) {
            Some(base) => base,
            None => page,
        },
        None => page,
    }
}

/// The links that `hrefs` give against `base`, in order: absolute hrefs are
/// passed over, and so are those that do not resolve.
pub open spec fn links_from(base: Seq<char>, hrefs: Seq<Seq<char>>) -> Seq<UrlView>
    decreases hrefs.len(),
{
    if hrefs.len() == 0 {
        Seq::empty()
    } else {
        let front = links_from(base, hrefs.drop_last());
        let href = hrefs.last();
        if absolute_href(href) {
            front
        } else {
            match url_join(base, href) {
                Some(link) => front.push(link),
                None => front,
            }
        }
    }
}

/// The relative hrefs among `hrefs` that do not resolve against `base`.
pub open spec fn unresolved_from(base: Seq<char>, hrefs: Seq<Seq<char>>) -> Seq<Seq<char>>
    decreases hrefs.len(),
{
    if hrefs.len() == 0 {
        Seq::empty()
    } else {
        let front = unresolved_from(base, hrefs.drop_last());
        let href = hrefs.last();
        if !absolute_href(href) && url_join(base, href) is None {
            front.push(href)
        } else {
            front
        }
    }
}

/// The links of the page at `page` whose source is `html`.
pub open spec fn page_links(page: UrlView, html: Seq<char>) -> Seq<UrlView> {
    let base = base_for(page, first_value(html_select(html, "base[href]"@, "href"@)));
    links_from(base.text, all_values(html_select(html, "a"@, "href"@)))
}

/// The hrefs of the page that were relative and did not resolve.
pub open spec fn page_unresolved(page: UrlView, html: Seq<char>) -> Seq<Seq<char>> {
    let base = base_for(page, first_value(html_select(html, "base[href]"@, "href"@)));
    unresolved_from(base.text, all_values(html_select(html, "a"@, "href"@)))
}

/// What a page's source yields.
pub struct Extraction {
    /// The resolved links, in document order, duplicates included.
    pub links: Vec<Url>,
    /// The relative hrefs that did not resolve, in document order.
    pub unresolved: Vec<String>,
}

/// `scraper::Selector::parse` on `selector`, `scraper::Html::parse_document`
/// on `html`, `scraper::Html::select`, and `attr(name)` on each element that
/// comes out.
#[verifier::external_body]
fn select_attribute(html: &str, selector: &str, name: &str) -> (found: Option<Vec<Option<String>>>)
    ensures
        found_view(found) == html_select(html@, selector@, name@),
{
    let selector = scraper::Selector::parse(selector).ok()?;
    let document = scraper::Html::parse_document(html);
    Some(document.select(&selector).map(|e| e.value().attr(name).map(str::to_string)).collect())
}

/// The first value of a selection, copied.
pub fn first_attribute(found: &Option<Vec<Option<String>>>) -> (first: Option<String>)
    ensures
        crate::text::option_text(first) == first_value(found_view(*found)),
{
    match found {
        Some(values) => {
            if values.len() > 0 {
                match &values[0] {
                    Some(v) => Some(v.clone()),
                    None => None,
                }
            } else {
                None
            }
        },
        None => None,
    }
}

/// The values of a selection that are there, copied in order.
pub fn present_attributes(found: &Option<Vec<Option<String>>>) -> (present: Vec<String>)
    ensures
        texts(present@) == all_values(found_view(*found)),
{
    let mut present: Vec<String> = Vec::new();
    match found {
        Some(values) => {
            let ghost all = attribute_views(values@);
            let mut i: usize = 0;
            while i < values.len()
                invariant
                    i <= values.len(),
                    all == attribute_views(values@),
                    texts(present@) == present_values(all.take(i as int)),
                decreases values.len() - i,
            {
                assert(all.take(i + 1).drop_last() == all.take(i as int));
                match &values[i] {
                    Some(v) => {
                        present.push(v.clone());
                        assert(texts(present@) == present_values(all.take(i as int)).push(v@));
                    },
                    None => {},
                }
                i += 1;
            }
            assert(all.take(values.len() as int) == all);
        },
        None => {},
    }
    present
}

/// The `href` of the first `base` element that has one.
pub fn base_href(html: &str) -> (href: Option<String>)
    ensures
        crate::text::option_text(href) == first_value(html_select(html@, "base[href]"@, "href"@)),
{
    let found = select_attribute(html, "base[href]", "href");
    first_attribute(&found)
}

/// The `href` of each anchor that has one, in document order.
pub fn anchor_hrefs(html: &str) -> (hrefs: Vec<String>)
    ensures
        texts(hrefs@) == all_values(html_select(html@, "a"@, "href"@)),
{
    let found = select_attribute(html, "a", "href");
    present_attributes(&found)
}

/// The URL against which the links of the page at `page` are resolved.
pub fn effective_base(page: &Url, base_href: &Option<String>) -> (base: Url)
    ensures
        base@ == base_for(page@, crate::text::option_text(*base_href)),
{
    match base_href {
        Some(href) => match page.join(href.as_str()) {
            Some(base) => base,
            None => page.clone(),
        },
        None => page.clone(),
    }
}

/// Resolves the relative hrefs among `hrefs` against `base`.
pub fn resolve_links(base: &Url, hrefs: &Vec<String>) -> (found: Extraction)
    ensures
        url_views(found.links@) == links_from(base@.text, texts(hrefs@)),
        texts(found.unresolved@) == unresolved_from(base@.text, texts(hrefs@)),
{
    let mut links: Vec<Url> = Vec::new();
    let mut unresolved: Vec<String> = Vec::new();
    let ghost all = texts(hrefs@);
    let mut i: usize = 0;
    while i < hrefs.len()
        invariant
            i <= hrefs.len(),
            all == texts(hrefs@),
            url_views(links@) == links_from(base@.text, all.take(i as int)),
            texts(unresolved@) == unresolved_from(base@.text, all.take(i as int)),
        decreases hrefs.len() - i,
    {
        assert(all.take(i + 1).drop_last() == all.take(i as int));
        let href = &hrefs[i];
        if !is_absolute_url(href.as_str()) {
            match base.join(href.as_str()) {
                Some(link) => {
                    let ghost before = links@;
                    links.push(link);
                    assert(url_views(links@) == url_views(before).push(link@));
                },
                None => {
                    let ghost before = unresolved@;
                    unresolved.push(href.clone());
                    assert(texts(unresolved@) == texts(before).push(href@));
                },
            }
        }
        i += 1;
    }
    assert(all.take(hrefs.len() as int) == all);
    Extraction { links, unresolved }
}

/// The links of the page at `page` whose source is `html`: each anchor's
/// relative `href`, resolved against the page's base.
pub fn extract_links(page: &Url, html: &str) -> (found: Extraction)
    ensures
        url_views(found.links@) == page_links(page@, html@),
        texts(found.unresolved@) == page_unresolved(page@, html@),
{
    let base = effective_base(page, &base_href(html));
    let hrefs = anchor_hrefs(html);
    resolve_links(&base, &hrefs)
}

} // verus!
