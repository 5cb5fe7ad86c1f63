use crate::classify::{html_like_path, is_likely_html_content};
use crate::extract::{extract_links, page_links, page_unresolved};
use crate::job::{FetchError, FetchErrorView, FetchJob, JobView};
use crate::link::{url_parse, url_views, Url, UrlView};
use crate::text::{has_prefix, texts};
use vstd::arithmetic::power2::{lemma2_to64, pow2};
use vstd::prelude::*;
use vstd::utf8::encode_utf8;

verus! {

/// How often a request is sent again after a server error.
pub const MAX_RETRIES: u32 = 3;

/// The method of a request.
#[derive(Clone, Copy, Debug, PartialEq, Eq, Structural)]
pub enum Method {
    /// Ask for the headers only: a cheap probe.
    Head,
    /// Ask for the resource.
    Get,
}

/// A request for the caller to send.
pub struct Request {
    pub method: Method,
    pub url: String,
    /// Whether the body of the answer is wanted.
    pub read_body: bool,
}

pub struct RequestView {
    pub method: Method,
    pub url: Seq<char>,
    pub read_body: bool,
}

impl View for Request {
    type V = RequestView;

    open spec fn view(&self) -> RequestView {
        RequestView { method: self.method, url: self.url@, read_body: self.read_body }
    }
}

/// What came back for a request.
pub enum FetchEvent {
    /// The server answered with success. `final_url` is the URL after
    /// redirects, `content_type` the header of that name, `body` the body
    /// where it was read, else empty.
    Answered { final_url: String, content_type: Option<String>, body: String },
    /// The server answered with an error status.
    Status(u16),
    /// The connection or the reading failed.
    Broken(String),
}

pub enum EventView {
    Answered { final_url: Seq<char>, content_type: Option<Seq<char>>, body: Seq<char> },
    Status(u16),
    Broken(Seq<char>),
}

impl View for FetchEvent {
    type V = EventView;

    open spec fn view(&self) -> EventView {
        match self {
            FetchEvent::Answered { final_url, content_type, body } => EventView::Answered {
                final_url: final_url@,
                content_type: crate::text::option_text(*content_type),
                body: body@,
            },
            FetchEvent::Status(code) => EventView::Status(*code),
            FetchEvent::Broken(reason) => EventView::Broken(reason@),
        }
    }
}

/// The state of one job's fetch between two requests.
pub struct Fetch {
    target: Url,
    extract_links: bool,
    probe: bool,
    upgraded: bool,
    retries: u32,
}

pub struct FetchView {
    /// The URL of the job.
    pub target: UrlView,
    /// Whether the job asks for the page's links.
    pub extract_links: bool,
    /// Whether the fetch began with a `HEAD` probe.
    pub probe: bool,
    /// Whether the probe found HTML, so that a `GET` took its place.
    pub upgraded: bool,
    /// How many times a request was sent again after a server error.
    pub retries: nat,
}

impl View for Fetch {
    type V = FetchView;

    closed spec fn view(&self) -> FetchView {
        FetchView {
            target: self.target@,
            extract_links: self.extract_links,
            probe: self.probe,
            upgraded: self.upgraded,
            retries: self.retries as nat,
        }
    }
}

/// What to do next for a job.
pub enum FetchStep {
    /// Wait `delay_ms` milliseconds, send `request`, and hand what comes back
    /// to `fetch`.
    Send { fetch: Fetch, request: Request, delay_ms: u64 },
    /// The job is done. `links` are the page's links, `unresolved` the
    /// relative hrefs that did not resolve, `downloaded` the bytes of the body
    /// that was read.
    Done { links: Vec<Url>, unresolved: Vec<String>, downloaded: usize },
    /// The job failed.
    Failed { error: FetchError },
}

pub enum StepView {
    Send { fetch: FetchView, request: RequestView, delay_ms: nat },
    Done { links: Seq<UrlView>, unresolved: Seq<Seq<char>>, downloaded: nat },
    Failed { error: FetchErrorView },
}

impl View for FetchStep {
    type V = StepView;

    open spec fn view(&self) -> StepView {
        match self {
            FetchStep::Send { fetch, request, delay_ms } => StepView::Send {
                fetch: fetch@,
                request: request@,
                delay_ms: *delay_ms as nat,
            },
            FetchStep::Done { links, unresolved, downloaded } => StepView::Done {
                links: url_views(links@),
                unresolved: texts(unresolved@),
                downloaded: *downloaded as nat,
            },
            FetchStep::Failed { error } => StepView::Failed { error: error@ },
        }
    }
}

/// A content type that declares HTML: it starts with `text/html`.
pub open spec fn html_type(content_type: Option<Seq<char>>) -> bool {
    match content_type {
        Some(t) => "text/html"@.is_prefix_of(t),
        None => false,
    }
}

/// A status that marks a server error.
pub open spec fn server_error(code: u16) -> bool {
    500 <= code <= 599
}

/// The wait before the `attempt`-th retry, in milliseconds: 100, and twice
/// as long with each further retry.
pub open spec fn retry_delay(attempt: nat) -> nat {
    100 * pow2((attempt - 1) as nat)
}

/// A job done without links.
pub open spec fn done_without_links(downloaded: nat) -> StepView {
    StepView::Done { links: Seq::empty(), unresolved: Seq::empty(), downloaded }
}

impl FetchView {
    /// The fetch of `job` before its first request: it probes with `HEAD`
    /// where the job asks for no links and the URL does not look like HTML.
    pub open spec fn begin(job: JobView) -> FetchView {
        FetchView {
            target: job.target,
            extract_links: job.extract_links,
            probe: !job.extract_links && !html_like_path(job.target.path),
            upgraded: false,
            retries: 0,
        }
    }

    /// The method of the request that is under way.
    pub open spec fn method(self) -> Method {
        if self.probe && !self.upgraded {
            Method::Head
        } else {
            Method::Get
        }
    }

    /// Whether the answer is to be processed in full: its body read, counted
    /// and, if it is HTML, parsed.
    pub open spec fn in_full(self) -> bool {
        self.method() == Method::Get && (self.extract_links || self.upgraded)
    }

    /// The request that is under way.
    pub open spec fn request(self) -> RequestView {
        RequestView { method: self.method(), url: self.target.text, read_body: self.in_full() }
    }

    /// What a successful answer to the request under way leads to.
    pub open spec fn answered(
        self,
        final_url: Seq<char>,
        content_type: Option<Seq<char>>,
        body: Seq<char>,
    ) -> StepView {
        if self.method() == Method::Head {
            if html_type(content_type) {
                let next = FetchView { upgraded: true, ..self };
                StepView::Send { fetch: next, request: next.request(), delay_ms: 0 }
            } else {
                done_without_links(0)
            }
        } else if !self.in_full() {
            done_without_links(0)
        } else {
            let page = match url_parse(final_url) {
                Some(url) => url,
                None => self.target,
            };
            let downloaded = encode_utf8(body).len();
            if !html_type(content_type) && !html_like_path(page.path) {
                done_without_links(downloaded)
            } else {
                StepView::Done {
                    links: page_links(page, body),
                    unresolved: page_unresolved(page, body),
                    downloaded,
                }
            }
        }
    }

    /// What an error status leads to: the same request again after a wait,
    /// while the status is a server error and retries are left; else failure.
    pub open spec fn refused(self, code: u16) -> StepView {
        if server_error(code) && self.retries < MAX_RETRIES {
            let next = FetchView { retries: self.retries + 1, ..self };
            StepView::Send { fetch: next, request: self.request(), delay_ms: retry_delay(next.retries) }
        } else {
            StepView::Failed { error: FetchErrorView::Status(code) }
        }
    }

    /// What `event` leads to.
    pub open spec fn step(self, event: EventView) -> StepView {
        match event {
            EventView::Answered { final_url, content_type, body } => self.answered(
                final_url,
                content_type,
                body,
            ),
            EventView::Status(code) => self.refused(code),
            EventView::Broken(reason) => StepView::Failed {
                error: FetchErrorView::Transport(reason),
            },
        }
    }
}

/// Whether a `content-type` header declares HTML.
pub fn is_html_type(content_type: &Option<String>) -> (html: bool)
    ensures
        html == html_type(crate::text::option_text(*content_type)),
{
    match content_type {
        Some(t) => has_prefix(t.as_str(), "text/html"),
        None => false,
    }
}

/// The wait before the `attempt`-th retry, in milliseconds.
pub fn retry_delay_ms(attempt: u32) -> (delay: u64)
    requires
        1 <= attempt <= MAX_RETRIES,
    ensures
        delay == retry_delay(attempt as nat),
{
    proof {
        lemma2_to64();
    }
    if attempt == 1 {
        100
    } else if attempt == 2 {
        200
    } else {
        400
    }
}

impl Fetch {
    fn current_request(&self) -> (request: Request)
        ensures
            request@ == self@.request(),
    {
        let head = self.probe && !self.upgraded;
        Request {
            method: if head {
                Method::Head
            } else {
                Method::Get
            },
            url: self.target.as_str().to_owned(),
            read_body: !head && (self.extract_links || self.upgraded),
        }
    }

    /// The first step for `job`: its first request, to be sent at once.
    pub fn begin(job: &FetchJob) -> (step: FetchStep)
        ensures
            step@ == (StepView::Send {
                fetch: FetchView::begin(job@),
                request: FetchView::begin(job@).request(),
                delay_ms: 0,
            }),
    {
        let fetch = Fetch {
            target: job.target.clone(),
            extract_links: job.extract_links,
            probe: !job.extract_links && !is_likely_html_content(&job.target),
            upgraded: false,
            retries: 0,
        };
        let request = fetch.current_request();
        FetchStep::Send { fetch, request, delay_ms: 0 }
    }

    /// The next step once `event` has come back for the request under way.
    pub fn step(self, event: FetchEvent) -> (step: FetchStep)
        ensures
            step@ == self@.step(event@),
    {
        match event {
            FetchEvent::Answered { final_url, content_type, body } => self.on_answer(
                final_url.as_str(),
                &content_type,
                body.as_str(),
            ),
            FetchEvent::Status(code) => self.on_status(code),
            FetchEvent::Broken(reason) => FetchStep::Failed { error: FetchError::Transport(reason) },
        }
    }

    /// The next step after an error status.
    pub fn on_status(self, code: u16) -> (step: FetchStep)
        ensures
            step@ == self@.refused(code),
    {
        if 500 <= code && code <= 599 && self.retries < MAX_RETRIES {
            let request = self.current_request();
            let mut fetch = self;
            fetch.retries = fetch.retries + 1;
            let delay_ms = retry_delay_ms(fetch.retries);
            FetchStep::Send { fetch, request, delay_ms }
        } else {
            FetchStep::Failed { error: FetchError::Status(code) }
        }
    }

    /// The next step after a successful answer.
    pub fn on_answer(self, final_url: &str, content_type: &Option<String>, body: &str) -> (step:
        FetchStep)
        ensures
            step@ == self@.answered(final_url@, crate::text::option_text(*content_type), body@),
    {
        assert(url_views(Seq::<Url>::empty()) =~= Seq::<UrlView>::empty());
        assert(texts(Seq::<String>::empty()) =~= Seq::<Seq<char>>::empty());
        let html = is_html_type(content_type);
        if self.probe && !self.upgraded {
            if html {
                let mut fetch = self;
                fetch.upgraded = true;
                let request = fetch.current_request();
                FetchStep::Send { fetch, request, delay_ms: 0 }
            } else {
                FetchStep::Done { links: Vec::new(), unresolved: Vec::new(), downloaded: 0 }
            }
        } else if !(self.extract_links || self.upgraded) {
            FetchStep::Done { links: Vec::new(), unresolved: Vec::new(), downloaded: 0 }
        } else {
            let page = match Url::parse(final_url) {
                Some(url) => url,
                None => self.target,
            };
            let downloaded = body.as_bytes().len();
            if !html && !is_likely_html_content(&page) {
                FetchStep::Done { links: Vec::new(), unresolved: Vec::new(), downloaded }
            } else {
                let found = extract_links(&page, body);
                FetchStep::Done { links: found.links, unresolved: found.unresolved, downloaded }
            }
        }
    }
}

/// The retry schedule: from a fetch that has not retried yet, server errors
/// lead to the same request again after 100, 200 and 400 milliseconds, and
/// the fourth in a row to failure with its status.
pub proof fn lemma_retry_schedule(fetch: FetchView, code: u16)
    requires
        fetch.retries == 0,
        server_error(code),
    ensures
        ({
            let first = FetchView { retries: 1, ..fetch };
            let second = FetchView { retries: 2, ..fetch };
            let third = FetchView { retries: 3, ..fetch };
            &&& fetch.step(EventView::Status(code)) == (StepView::Send {
                fetch: first,
                request: fetch.request(),
                delay_ms: 100,
            })
            &&& first.step(EventView::Status(code)) == (StepView::Send {
                fetch: second,
                request: fetch.request(),
                delay_ms: 200,
            })
            &&& second.step(EventView::Status(code)) == (StepView::Send {
                fetch: third,
                request: fetch.request(),
                delay_ms: 400,
            })
            &&& third.step(EventView::Status(code)) == (StepView::Failed {
                error: FetchErrorView::Status(code),
            })
        }),
{
    lemma2_to64();
}

/// An error status that is no server error fails the job at once, whatever
/// was retried before, and so does a broken connection.
pub proof fn lemma_no_retry_without_server_error(fetch: FetchView, code: u16, reason: Seq<char>)
    requires
        !server_error(code),
    ensures
        fetch.step(EventView::Status(code)) == (StepView::Failed {
            error: FetchErrorView::Status(code),
        }),
        fetch.step(EventView::Broken(reason)) == (StepView::Failed {
            error: FetchErrorView::Transport(reason),
        }),
{
}

/// A `HEAD` probe that is answered with HTML is followed by one `GET` of the
/// same URL, and the answer to that `GET` is processed in full: the job ends
/// with the links of the page, as if it had asked for them.
pub proof fn lemma_head_upgrade(
    fetch: FetchView,
    probe_url: Seq<char>,
    content_type: Option<Seq<char>>,
    final_url: Seq<char>,
    body: Seq<char>,
)
    requires
        fetch.method() == Method::Head,
        html_type(content_type),
    ensures
        ({
            let upgraded = FetchView { upgraded: true, ..fetch };
            let page = match url_parse(final_url) {
                Some(url) => url,
                None => fetch.target,
            };
            &&& fetch.step(
                EventView::Answered { final_url: probe_url, content_type, body: Seq::empty() },
            ) == (StepView::Send {
                fetch: upgraded,
                request: RequestView {
                    method: Method::Get,
                    url: fetch.target.text,
                    read_body: true,
                },
                delay_ms: 0,
            })
            &&& upgraded.step(EventView::Answered { final_url, content_type, body }) == (
            StepView::Done {
                links: page_links(page, body),
                unresolved: page_unresolved(page, body),
                downloaded: encode_utf8(body).len(),
            })
        }),
{
}

} // verus!
