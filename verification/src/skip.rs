use vstd::prelude::*;

verus! {

/// Whether `regex::Regex::new` accepts `pattern`.
pub uninterp spec fn regex_accepts(pattern: Seq<char>) -> bool;

/// Whether the regular expression that `regex::Regex::new` makes of
/// `pattern`, which it accepts, has a match somewhere in `text`: what
/// `regex::Regex::is_match` answers.
pub uninterp spec fn regex_finds(pattern: Seq<char>, text: Seq<char>) -> bool;

/// `regex::Regex::new` on `pattern`: `None` where it reports an error, else
/// what `regex::Regex::is_match` answers on `text`.
#[verifier::external_body]
fn find_match(pattern: &str, text: &str) -> (found: Option<bool>)
    ensures
        found == if regex_accepts(pattern@) {
            Some(regex_finds(pattern@, text@))
        } else {
            None::<bool>
        },
{
    match regex::Regex::new(pattern) {
        Ok(compiled) => Some(compiled.is_match(text)),
        Err(_) => None,
    }
}

/// A regular expression over URLs: failures of URLs that it matches are kept
/// out of the report.
///
/// The pattern is kept as text and compiled where a failure is tested, which
/// is rare next to what a failed request costs.
pub struct SkipPattern {
    pattern: String,
}

impl View for SkipPattern {
    type V = Seq<char>;

    closed spec fn view(&self) -> Seq<char> {
        self.pattern@
    }
}

impl SkipPattern {
    #[verifier::type_invariant]
    spec fn accepted(self) -> bool {
        regex_accepts(self.pattern@)
    }

    /// The skip pattern written as `pattern`; `None` where that is no
    /// regular expression.
    pub fn new(pattern: &str) -> (compiled: Option<SkipPattern>)
        ensures
            compiled is Some <==> regex_accepts(pattern@),
            compiled matches Some(p) ==> p@ == pattern@,
    {
        match find_match(pattern, "") {
            Some(_) => Some(SkipPattern { pattern: pattern.to_owned() }),
            None => None,
        }
    }

    /// The pattern as it was written.
    pub fn as_str(&self) -> (pattern: &str)
        ensures
            pattern@ == self@,
    {
        self.pattern.as_str()
    }

    /// Whether the pattern has a match somewhere in `url`.
    pub fn is_match(&self, url: &str) -> (found: bool)
        ensures
            found == regex_finds(self@, url@),
    {
        proof {
            use_type_invariant(self);
        }
        match find_match(self.pattern.as_str(), url) {
            Some(found) => found,
            None => false,
        }
    }
}

impl Clone for SkipPattern {
    fn clone(&self) -> (copy: SkipPattern)
        ensures
            copy@ == self@,
    {
        proof {
            use_type_invariant(self);
        }
        SkipPattern { pattern: self.pattern.clone() }
    }
}

/// Whether a failure of `url` is kept out of the report.
pub open spec fn skipped(skip: Option<Seq<char>>, url: Seq<char>) -> bool {
    match skip {
        Some(pattern) => regex_finds(pattern, url),
        None => false,
    }
}

/// The view of an optional skip pattern.
pub open spec fn option_pattern(skip: Option<SkipPattern>) -> Option<Seq<char>> {
    match skip {
        Some(pattern) => Some(pattern@),
        None => None,
    }
}

/// Whether the pattern, where there is one, matches `url`.
pub fn is_skipped(skip: &Option<SkipPattern>, url: &str) -> (skip_it: bool)
    ensures
        skip_it == skipped(option_pattern(*skip), url@),
{
    match skip {
        Some(pattern) => pattern.is_match(url),
        None => false,
    }
}

} // verus!
