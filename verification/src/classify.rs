use crate::link::Url;
use crate::text::{
    after_last, chars_of, contains_text, has_prefix, lemma_last_index_is, lower, occurs_in, spells,
    to_ascii_lower,
};
use vstd::prelude::*;

verus! {

/// An href that names its own scheme: it holds `://`, or starts with
/// `mailto:` or `tel:`.
pub open spec fn absolute_href(href: Seq<char>) -> bool {
    occurs_in("://"@, href) || "mailto:"@.is_prefix_of(href) || "tel:"@.is_prefix_of(href)
}

/// The file extensions, in small letters, that are taken for HTML pages.
pub open spec fn html_extension(ext: Seq<char>) -> bool {
    ext == "html"@ || ext == "htm"@ || ext == "php"@ || ext == "asp"@ || ext == "aspx"@ || ext
        == "jsp"@ || ext == "cfm"@ || ext == "cgi"@ || ext == "pl"@ || ext == "py"@ || ext
        == "rb"@
}

/// A path that looks like an HTML page: it is empty, or ends in `/`, or its
/// last segment has no `.`, or what follows the segment's last `.` is, in
/// small letters, an HTML extension.
pub open spec fn html_like_path(path: Seq<char>) -> bool {
    path.len() == 0 || path.last() == '/' || {
        let segment = after_last(path, '/');
        !segment.contains('.') || html_extension(lower(after_last(segment, '.')))
    }
}

/// Whether `href` is written as an absolute link.
pub fn is_absolute_url(href: &str) -> (absolute: bool)
    ensures
        absolute == absolute_href(href@),
{
    contains_text(href, "://") || has_prefix(href, "mailto:") || has_prefix(href, "tel:")
}

/// Whether a lowered extension is one of the HTML extensions.
fn is_html_extension(ext: &Vec<char>) -> (html: bool)
    ensures
        html == html_extension(ext@),
{
    spells(ext, "html") || spells(ext, "htm") || spells(ext, "php") || spells(ext, "asp")
        || spells(ext, "aspx") || spells(ext, "jsp") || spells(ext, "cfm") || spells(ext, "cgi")
        || spells(ext, "pl") || spells(ext, "py") || spells(ext, "rb")
}

/// Whether a path looks like an HTML page.
pub fn is_html_like_path(path: &str) -> (html: bool)
    ensures
        html == html_like_path(path@),
{
    let chars = chars_of(path);
    let n = chars.len();
    if n == 0 || chars[n - 1] == '/' {
        return true;
    }
    let mut start: usize = n;
    while start > 0 && chars[start - 1] != '/'
        invariant
            start <= n == chars.len(),
            forall|j: int| start <= j < n ==> chars@[j] != '/',
        decreases start,
    {
        start -= 1;
    }
    proof {
        lemma_last_index_is(chars@, '/', start - 1);
    }
    let ghost segment = after_last(chars@, '/');
    assert(segment == chars@.skip(start as int));
    let mut dot: usize = n;
    while dot > start && chars[dot - 1] != '.'
        invariant
            start <= dot <= n == chars.len(),
            forall|j: int| dot <= j < n ==> chars@[j] != '.',
        decreases dot,
    {
        dot -= 1;
    }
    if dot == start {
        assert(!segment.contains('.'));
        return true;
    }
    assert(segment[dot - 1 - start] == '.');
    proof {
        lemma_last_index_is(segment, '.', dot - 1 - start);
    }
    let ghost tail = after_last(segment, '.');
    assert(tail =~= chars@.skip(dot as int));
    let mut ext: Vec<char> = Vec::new();
    let mut k: usize = dot;
    while k < n
        invariant
            dot <= k <= n == chars.len(),
            ext@ == lower(chars@.subrange(dot as int, k as int)),
        decreases n - k,
    {
        ext.push(to_ascii_lower(chars[k]));
        k += 1;
        assert(ext@ =~= lower(chars@.subrange(dot as int, k as int)));
    }
    assert(chars@.subrange(dot as int, n as int) =~= tail);
    is_html_extension(&ext)
}

/// Whether the URL's path looks like an HTML page.
pub fn is_likely_html_content(url: &Url) -> (html: bool)
    ensures
        html == html_like_path(url@.path),
{
    is_html_like_path(url.path())
}

} // verus!
