use vstd::prelude::*;

verus! {

/// What the crawler reads of a URL, as plain text.
pub struct UrlView {
    /// The serialization, fragment included.
    pub text: Seq<char>,
    /// The serialization with the fragment taken off.
    pub normalized: Seq<char>,
    /// The host, where it is a domain name and no IP address.
    pub domain: Option<Seq<char>>,
    /// The path.
    pub path: Seq<char>,
}

/// An absolute URL, parsed. It keeps, as text, the parts that the crawler
/// reads; the `url` crate computes them.
#[derive(Debug)]
pub struct Url {
    text: String,
    normalized: String,
    domain: Option<String>,
    path: String,
}

/// The outcome of `url::Url::parse` on `input`: `None` where it reports an
/// error, else the parts of the URL it returns.
pub uninterp spec fn url_parse(input: Seq<char>) -> Option<UrlView>;

/// The outcome of `url::Url::join`, called on the URL that `url::Url::parse`
/// makes of `base`, with `href`: `None` where either reports an error.
pub uninterp spec fn url_join(base: Seq<char>, href: Seq<char>) -> Option<UrlView>;

pub open spec fn option_url_view(url: Option<Url>) -> Option<UrlView> {
    match url {
        Some(u) => Some(u@),
        None => None,
    }
}

/// The views of a sequence of URLs.
pub open spec fn url_views(urls: Seq<Url>) -> Seq<UrlView> {
    urls.map_values(|u: Url| u@)
}

impl View for Url {
    type V = UrlView;

    closed spec fn view(&self) -> UrlView {
        UrlView {
            text: self.text@,
            normalized: self.normalized@,
            domain: match self.domain {
                Some(d) => Some(d@),
                None => None,
            },
            path: self.path@,
        }
    }
}

/// `url::Url::parse`, its result taken apart by `as_str`, `domain`, `path`,
/// and by `set_fragment(None)` on a copy for the normalized form.
#[verifier::external_body]
fn parse_absolute(input: &str) -> (parsed: Option<Url>)
    ensures
        option_url_view(parsed) == url_parse(input@),
{
    let url = ::url::Url::parse(input).ok()?;
    let mut bare = url.clone();
    bare.set_fragment(None);
    Some(Url {
        text: url.as_str().to_string(),
        normalized: bare.as_str().to_string(),
        domain: url.domain().map(str::to_string),
        path: url.path().to_string(),
    })
}

/// `url::Url::join` on the URL parsed from `base`, its result taken apart
/// as in `parse_absolute`.
#[verifier::external_body]
fn join_onto(base: &str, href: &str) -> (joined: Option<Url>)
    ensures
        option_url_view(joined) == url_join(base@, href@),
{
    let url = ::url::Url::parse(base).ok()?.join(href).ok()?;
    let mut bare = url.clone();
    bare.set_fragment(None);
    Some(Url {
        text: url.as_str().to_string(),
        normalized: bare.as_str().to_string(),
        domain: url.domain().map(str::to_string),
        path: url.path().to_string(),
    })
}

impl Url {
    /// Parses an absolute URL.
    pub fn parse(input: &str) -> (parsed: Option<Url>)
        ensures
            option_url_view(parsed) == url_parse(input@),
    {
        parse_absolute(input)
    }

    /// Resolves `href`, which may be relative, against this URL.
    pub fn join(&self, href: &str) -> (joined: Option<Url>)
        ensures
            option_url_view(joined) == url_join(self@.text, href@),
    {
        join_onto(self.text.as_str(), href)
    }

    /// The serialization of this URL.
    pub fn as_str(&self) -> (text: &str)
        ensures
            text@ == self@.text,
    {
        self.text.as_str()
    }

    /// The serialization without its fragment.
    pub fn normalized(&self) -> (text: &str)
        ensures
            text@ == self@.normalized,
    {
        self.normalized.as_str()
    }

    /// The host, where it is a domain name.
    pub fn domain(&self) -> (domain: Option<&str>)
        ensures
            match domain {
                Some(d) => self@.domain == Some(d@),
                None => self@.domain is None,
            },
    {
        match &self.domain {
            Some(d) => Some(d.as_str()),
            None => None,
        }
    }

    /// The path.
    pub fn path(&self) -> (path: &str)
        ensures
            path@ == self@.path,
    {
        self.path.as_str()
    }
}

impl Clone for Url {
    fn clone(&self) -> (copy: Url)
        ensures
            copy@ == self@,
    {
        Url {
            text: self.text.clone(),
            normalized: self.normalized.clone(),
            domain: match &self.domain {
                Some(d) => Some(d.clone()),
                None => None,
            },
            path: self.path.clone(),
        }
    }
}

} // verus!
