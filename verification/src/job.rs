use crate::format::{decimal, decimal_text};
use crate::link::{Url, UrlView};
use vstd::prelude::*;
use vstd::string::*;

verus! {

/// One URL to fetch.
pub struct FetchJob {
    /// The URL to fetch.
    pub target: Url,
    /// Whether the page is to be parsed for links, if it is HTML.
    pub extract_links: bool,
    /// The page on which the URL was found; `None` for the seed.
    pub source_page: Option<Url>,
}

pub struct JobView {
    pub target: UrlView,
    pub extract_links: bool,
    pub source_page: Option<UrlView>,
}

impl View for FetchJob {
    type V = JobView;

    open spec fn view(&self) -> JobView {
        JobView {
            target: self.target@,
            extract_links: self.extract_links,
            source_page: match self.source_page {
                Some(page) => Some(page@),
                None => None,
            },
        }
    }
}

/// The views of a sequence of jobs.
pub open spec fn job_views(jobs: Seq<FetchJob>) -> Seq<JobView> {
    jobs.map_values(|j: FetchJob| j@)
}

impl Clone for FetchJob {
    fn clone(&self) -> (copy: FetchJob)
        ensures
            copy@ == self@,
    {
        FetchJob {
            target: self.target.clone(),
            extract_links: self.extract_links,
            source_page: match &self.source_page {
                Some(page) => Some(page.clone()),
                None => None,
            },
        }
    }
}

/// Why a fetch failed.
pub enum FetchError {
    /// The server answered with an error status. A status from 500 to 599
    /// comes here only after the retries are used up.
    Status(u16),
    /// The connection or the reading failed; the text says how.
    Transport(String),
}

pub enum FetchErrorView {
    Status(u16),
    Transport(Seq<char>),
}

impl View for FetchError {
    type V = FetchErrorView;

    open spec fn view(&self) -> FetchErrorView {
        match self {
            FetchError::Status(code) => FetchErrorView::Status(*code),
            FetchError::Transport(reason) => FetchErrorView::Transport(reason@),
        }
    }
}

/// What a failure reads like.
pub open spec fn error_text(error: FetchErrorView) -> Seq<char> {
    match error {
        FetchErrorView::Status(code) => "bad http response: "@ + decimal(code as nat),
        FetchErrorView::Transport(reason) => "request error: "@ + reason,
    }
}

impl FetchError {
    /// The failure in words.
    pub fn message(&self) -> (text: String)
        ensures
            text@ == error_text(self@),
    {
        let mut text = String::new();
        match self {
            FetchError::Status(code) => {
                text.append("bad http response: ");
                text.append(decimal_text(*code as u128).as_str());
            },
            FetchError::Transport(reason) => {
                text.append("request error: ");
                text.append(reason.as_str());
            },
        }
        assert(text@ =~= error_text(self@));
        text
    }
}

/// How a job ended.
pub enum FetchOutcome {
    /// The page was fetched; `links` are the links found on it, in document
    /// order, none where it was not parsed.
    Success { page: Url, links: Vec<Url> },
    /// The fetch failed.
    Failure { job: FetchJob, error: FetchError },
}

pub enum OutcomeView {
    Success { page: UrlView, links: Seq<UrlView> },
    Failure { job: JobView, error: FetchErrorView },
}

impl View for FetchOutcome {
    type V = OutcomeView;

    open spec fn view(&self) -> OutcomeView {
        match self {
            FetchOutcome::Success { page, links } => OutcomeView::Success {
                page: page@,
                links: crate::link::url_views(links@),
            },
            FetchOutcome::Failure { job, error } => OutcomeView::Failure {
                job: job@,
                error: error@,
            },
        }
    }
}

} // verus!
