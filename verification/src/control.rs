use crate::classify::{html_like_path, is_likely_html_content};
use crate::job::{job_views, FetchJob, FetchOutcome, JobView, OutcomeView};
use crate::link::{url_views, Url, UrlView};
use crate::report::{bad_url_views, BadUrl, BadUrlView, CrawlReport, PageLinkMap};
use crate::scope::{CrawlState, ScopeView};
use crate::skip::{is_skipped, option_pattern, skipped, SkipPattern};
use crate::text::texts;
use vstd::prelude::*;

verus! {

/// Where a crawl stands.
#[derive(Clone, Copy, Debug, PartialEq, Eq, Structural)]
pub enum Phase {
    /// Jobs are out, and their outcomes give new jobs.
    Running,
    /// The crawl was cancelled: jobs are still out, but their outcomes give
    /// no new jobs.
    Draining,
    /// No job is out.
    Done,
}

/// The state of a crawl as its controller sees it.
pub struct ControlView {
    /// The scope, with what was visited.
    pub scope: ScopeView,
    /// The pattern of the failures that are not reported.
    pub skip: Option<Seq<char>>,
    /// How many jobs were handed out, the seed's among them.
    pub issued: nat,
    /// How many outcomes were taken in.
    pub consumed: nat,
    /// Whether the crawl was cancelled.
    pub cancelled: bool,
    /// The failures to report, in the order in which they came.
    pub bad_urls: Seq<BadUrlView>,
    /// The links found on each page that was fetched.
    pub page_links: Map<Seq<char>, Seq<Seq<char>>>,
}

/// The serializations of a sequence of URLs.
pub open spec fn link_texts(links: Seq<UrlView>) -> Seq<Seq<char>> {
    links.map_values(|u: UrlView| u.text)
}

/// The job for a link found on `page`: its links are wanted where it is in
/// scope for extraction and its path looks like HTML.
pub open spec fn job_for(scope: ScopeView, page: UrlView, link: UrlView) -> JobView {
    JobView {
        target: link,
        extract_links: scope.in_scope(link) && html_like_path(link.path),
        source_page: Some(page),
    }
}

/// The job for the seed: its links are wanted, and no page is its source.
pub open spec fn seed_job(seed: UrlView) -> JobView {
    JobView { target: seed, extract_links: true, source_page: None }
}

/// What the links found on `page` come to: each link in turn that is in
/// scope and new is marked as seen and gets a job; the others are dropped.
pub open spec fn discover(scope: ScopeView, page: UrlView, links: Seq<UrlView>) -> (
    ScopeView,
    Seq<JobView>,
)
    decreases links.len(),
{
    if links.len() == 0 {
        (scope, Seq::empty())
    } else {
        let (seen, jobs) = discover(scope, page, links.drop_last());
        let link = links.last();
        if seen.in_scope(link) && seen.is_new(link) {
            (seen.mark(link), jobs.push(job_for(seen, page, link)))
        } else {
            (seen, jobs)
        }
    }
}

/// The report entry for a job that failed.
pub open spec fn bad_url_for(job: JobView) -> BadUrlView {
    BadUrlView {
        url: job.target.text,
        found_on: match job.source_page {
            Some(page) => Some(page.text),
            None => None,
        },
    }
}

impl ControlView {
    /// The number of jobs handed out whose outcome is still awaited.
    pub open spec fn frontier(self) -> int {
        self.issued - self.consumed
    }

    /// No more outcomes were taken in than jobs were handed out; and every
    /// URL that counts as seen was handed out as a job, once.
    pub open spec fn wf(self) -> bool {
        &&& self.consumed <= self.issued
        &&& self.scope.visited.finite()
        &&& self.scope.visited.len() == self.issued
    }

    pub open spec fn phase(self) -> Phase {
        if self.frontier() <= 0 {
            Phase::Done
        } else if self.cancelled {
            Phase::Draining
        } else {
            Phase::Running
        }
    }

    /// A crawl at its start: the seed counts as seen, and its job is out.
    pub open spec fn start(seed: UrlView, domain_wide: bool, skip: Option<Seq<char>>) -> ControlView {
        ControlView {
            scope: ScopeView {
                domain: seed.domain->0,
                start_path: seed.path,
                domain_wide,
                visited: Set::empty().insert(seed.normalized),
            },
            skip,
            issued: 1,
            consumed: 0,
            cancelled: false,
            bad_urls: Seq::empty(),
            page_links: Map::empty(),
        }
    }

    /// The crawl once cancellation was seen.
    pub open spec fn cancel(self) -> ControlView {
        ControlView { cancelled: true, ..self }
    }

    /// The crawl after a page was fetched, and the jobs to hand out for it.
    pub open spec fn succeeded(self, page: UrlView, links: Seq<UrlView>) -> (
        ControlView,
        Seq<JobView>,
    ) {
        let page_links = self.page_links.insert(page.text, link_texts(links));
        if self.cancelled {
            (ControlView { consumed: self.consumed + 1, page_links, ..self }, Seq::empty())
        } else {
            let (scope, jobs) = discover(self.scope, page, links);
            (
                ControlView {
                    scope,
                    issued: self.issued + jobs.len(),
                    consumed: self.consumed + 1,
                    page_links,
                    ..self
                },
                jobs,
            )
        }
    }

    /// The crawl after a job failed: the failure is reported unless the skip
    /// pattern matches the job's URL.
    pub open spec fn failed(self, job: JobView) -> ControlView {
        ControlView {
            consumed: self.consumed + 1,
            bad_urls: if skipped(self.skip, job.target.text) {
                self.bad_urls
            } else {
                self.bad_urls.push(bad_url_for(job))
            },
            ..self
        }
    }

    /// The crawl after `outcome` was taken in, and the jobs to hand out for
    /// it. An outcome that comes while no job is out changes nothing.
    pub open spec fn handle(self, outcome: OutcomeView) -> (ControlView, Seq<JobView>) {
        if self.frontier() <= 0 {
            (self, Seq::empty())
        } else {
            match outcome {
                OutcomeView::Success { page, links } => self.succeeded(page, links),
                OutcomeView::Failure { job, error } => (self.failed(job), Seq::empty()),
            }
        }
    }

    /// The crawl after `outcomes` were taken in, one after the other.
    pub open spec fn handle_all(self, outcomes: Seq<OutcomeView>) -> ControlView
        decreases outcomes.len(),
    {
        if outcomes.len() == 0 {
            self
        } else {
            self.handle_all(outcomes.drop_last()).handle(outcomes.last()).0
        }
    }
}

/// The controller of a crawl. It owns the scope and the frontier: it takes
/// in the outcomes of jobs, turns the links they found into new jobs, and
/// gathers what goes into the report.
pub struct Controller {
    scope: CrawlState,
    skip: Option<SkipPattern>,
    issued: usize,
    consumed: usize,
    cancelled: bool,
    bad_urls: Vec<BadUrl>,
    page_links: PageLinkMap,
}

impl View for Controller {
    type V = ControlView;

    closed spec fn view(&self) -> ControlView {
        ControlView {
            scope: self.scope@,
            skip: option_pattern(self.skip),
            issued: self.issued as nat,
            consumed: self.consumed as nat,
            cancelled: self.cancelled,
            bad_urls: bad_url_views(self.bad_urls@),
            page_links: self.page_links@,
        }
    }
}

impl Controller {
    /// What holds of every controller between two calls.
    pub closed spec fn wf(&self) -> bool {
        &&& self@.wf()
        &&& self.page_links.wf()
    }

    /// The controller of a crawl that starts at `seed`, and the seed's job,
    /// which the caller hands out.
    pub fn start(seed: Url, domain_wide: bool, skip: Option<SkipPattern>) -> (started: (
        Controller,
        FetchJob,
    ))
        requires
            seed@.domain is Some,
        ensures
            started.0.wf(),
            started.0@ == ControlView::start(seed@, domain_wide, option_pattern(skip)),
            started.1@ == seed_job(seed@),
    {
        let scope = CrawlState::new(&seed, domain_wide);
        let controller = Controller {
            scope,
            skip,
            issued: 1,
            consumed: 0,
            cancelled: false,
            bad_urls: Vec::new(),
            page_links: PageLinkMap::new(),
        };
        assert(bad_url_views(controller.bad_urls@) =~= Seq::empty());
        let job = FetchJob { target: seed, extract_links: true, source_page: None };
        (controller, job)
    }

    /// The number of jobs handed out whose outcome is still awaited.
    pub fn frontier(&self) -> (frontier: usize)
        requires
            self.wf(),
        ensures
            frontier == self@.frontier(),
    {
        self.issued - self.consumed
    }

    /// Where the crawl stands.
    pub fn phase(&self) -> (phase: Phase)
        requires
            self.wf(),
        ensures
            phase == self@.phase(),
    {
        if self.issued - self.consumed == 0 {
            Phase::Done
        } else if self.cancelled {
            Phase::Draining
        } else {
            Phase::Running
        }
    }

    /// Whether no job is out.
    pub fn is_done(&self) -> (done: bool)
        requires
            self.wf(),
        ensures
            done == (self@.phase() == Phase::Done),
    {
        self.issued - self.consumed == 0
    }

    /// Whether a failure of `url` would be kept out of the report.
    pub fn skips(&self, url: &str) -> (skip_it: bool)
        ensures
            skip_it == skipped(self@.skip, url@),
    {
        is_skipped(&self.skip, url)
    }

    /// Takes note that the crawl was cancelled: from now on outcomes give no
    /// new jobs.
    pub fn cancel(&mut self)
        requires
            old(self).wf(),
        ensures
            final(self).wf(),
            final(self)@ == old(self)@.cancel(),
    {
        self.cancelled = true;
    }

    /// Takes in the outcome of a job, and returns the jobs to hand out for
    /// it.
    pub fn handle(&mut self, outcome: FetchOutcome) -> (jobs: Vec<FetchJob>)
        requires
            old(self).wf(),
        ensures
            final(self).wf(),
            (final(self)@, job_views(jobs@)) == old(self)@.handle(outcome@),
    {
        assert(job_views(Seq::<FetchJob>::empty()) =~= Seq::<JobView>::empty());
        if self.issued - self.consumed == 0 {
            return Vec::new();
        }
        match outcome {
            FetchOutcome::Success { page, links } => self.on_success(page, links),
            FetchOutcome::Failure { job, error } => {
                self.on_failure(job);
                Vec::new()
            },
        }
    }

    /// Takes in a failure.
    fn on_failure(&mut self, job: FetchJob)
        requires
            old(self).wf(),
            old(self)@.frontier() > 0,
        ensures
            final(self).wf(),
            final(self)@ == old(self)@.failed(job@),
    {
        self.consumed = self.consumed + 1;
        if !is_skipped(&self.skip, job.target.as_str()) {
            let ghost before = self.bad_urls@;
            let bad = BadUrl {
                url: job.target.as_str().to_owned(),
                found_on: match &job.source_page {
                    Some(page) => Some(page.as_str().to_owned()),
                    None => None,
                },
            };
            self.bad_urls.push(bad);
            assert(bad_url_views(self.bad_urls@) =~= bad_url_views(before).push(bad_url_for(job@)));
        }
    }

    /// Takes in a fetched page with its links.
    fn on_success(&mut self, page: Url, links: Vec<Url>) -> (jobs: Vec<FetchJob>)
        requires
            old(self).wf(),
            old(self)@.frontier() > 0,
        ensures
            final(self).wf(),
            (final(self)@, job_views(jobs@)) == old(self)@.succeeded(page@, url_views(links@)),
    {
        let ghost before = self@;
        self.consumed = self.consumed + 1;
        self.page_links.insert(page.as_str().to_owned(), serializations(&links));
        let mut jobs: Vec<FetchJob> = Vec::new();
        assert(job_views(jobs@) =~= Seq::<JobView>::empty());
        if self.cancelled {
            return jobs;
        }
        let ghost found = url_views(links@);
        let mut i: usize = 0;
        assert(found.take(0) =~= Seq::<UrlView>::empty());
        while i < links.len()
            invariant
                i <= links.len(),
                found == url_views(links@),
                (self.scope@, job_views(jobs@)) == discover(before.scope, page@, found.take(i as int)),
                self.scope@.visited.finite(),
                self.scope@.visited.len() == before.issued + jobs@.len(),
                self.skip == old(self).skip,
                self.issued == old(self).issued,
                self.consumed == old(self).consumed + 1,
                self.cancelled == old(self).cancelled,
                self.bad_urls == old(self).bad_urls,
                self.page_links@ == before.page_links.insert(page@.text, link_texts(found)),
                self.page_links.wf(),
            decreases links.len() - i,
        {
            assert(found.take(i + 1).drop_last() == found.take(i as int));
            let link = &links[i];
            if self.scope.should_visit_url(link) {
                let ghost seen = self.scope@;
                if self.scope.mark_visited(link) {
                    let ghost queued = jobs@;
                    let job = FetchJob {
                        target: link.clone(),
                        extract_links: self.scope.should_extract_links(link)
                            && is_likely_html_content(link),
                        source_page: Some(page.clone()),
                    };
                    jobs.push(job);
                    assert(job_views(jobs@) =~= job_views(queued).push(job_for(seen, page@, link@)));
                } else {
                    assert(self.scope@.visited =~= seen.visited);
                }
            }
            i += 1;
        }
        assert(found.take(links.len() as int) == found);
        self.issued = self.scope.visited_count();
        jobs
    }

    /// Ends the crawl and hands back its report. `total_bytes_downloaded` is
    /// the sum of what the fetches downloaded.
    pub fn finish(self, total_bytes_downloaded: usize) -> (report: CrawlReport)
        requires
            self.wf(),
        ensures
            report.page_links.wf(),
            report.page_links@ == self@.page_links,
            bad_url_views(report.bad_urls@) == self@.bad_urls,
            report.total_bytes_downloaded == total_bytes_downloaded,
            report.interrupted == self@.cancelled,
    {
        CrawlReport {
            bad_urls: self.bad_urls,
            page_links: self.page_links,
            total_bytes_downloaded,
            interrupted: self.cancelled,
        }
    }
}

/// What `discover` keeps and what it adds: the scope changes only in what
/// counts as seen, which grows by one URL for each job; each job is for a
/// link that is in scope and was not seen before, and no two jobs are for
/// URLs that are equal but for their fragments.
pub proof fn lemma_discover(scope: ScopeView, page: UrlView, links: Seq<UrlView>)
    requires
        scope.visited.finite(),
    ensures
        ({
            let (seen, jobs) = discover(scope, page, links);
            &&& seen.domain == scope.domain
            &&& seen.start_path == scope.start_path
            &&& seen.domain_wide == scope.domain_wide
            &&& scope.visited.subset_of(seen.visited)
            &&& seen.visited.finite()
            &&& seen.visited.len() == scope.visited.len() + jobs.len()
            &&& jobs.len() <= links.len()
            &&& forall|j: int|
                0 <= j < jobs.len() ==> {
                    &&& scope.in_scope((#[trigger] jobs[j]).target)
                    &&& scope.is_new(jobs[j].target)
                    &&& seen.visited.contains(jobs[j].target.normalized)
                    &&& jobs[j].source_page == Some(page)
                    &&& links.contains(jobs[j].target)
                }
            &&& forall|j: int, k: int|
                0 <= j < k < jobs.len() ==> (#[trigger] jobs[j]).target.normalized != (
                #[trigger] jobs[k]).target.normalized
            &&& forall|url: Seq<char>|
                seen.visited.contains(url) ==> scope.visited.contains(url) || exists|j: int|
                    0 <= j < jobs.len() && (#[trigger] jobs[j]).target.normalized == url
        }),
    decreases links.len(),
{
    if links.len() > 0 {
        let front = links.drop_last();
        lemma_discover(scope, page, front);
        let (seen, jobs) = discover(scope, page, front);
        let (seen2, jobs2) = discover(scope, page, links);
        let link = links.last();
        assert forall|j: int| 0 <= j < jobs.len() implies links.contains(
            (#[trigger] jobs[j]).target,
        ) by {
            let at = choose|at: int| 0 <= at < front.len() && front[at] == jobs[j].target;
            assert(links[at] == jobs[j].target);
        }
        if seen.in_scope(link) && seen.is_new(link) {
            assert(links[links.len() - 1] == link);
            assert forall|url: Seq<char>| seen2.visited.contains(url) implies scope.visited.contains(
                url,
            ) || exists|j: int|
                0 <= j < jobs2.len() && (#[trigger] jobs2[j]).target.normalized == url by {
                if url == link.normalized {
                    assert(jobs2[jobs2.len() - 1].target.normalized == url);
                } else if !scope.visited.contains(url) {
                    let j = choose|j: int|
                        0 <= j < jobs.len() && (#[trigger] jobs[j]).target.normalized == url;
                    assert(jobs2[j].target.normalized == url);
                }
            }
        }
    }
}

/// Links of which none is both in scope and new give no job and leave the
/// scope as it is.
pub proof fn lemma_discover_nothing_new(scope: ScopeView, page: UrlView, links: Seq<UrlView>)
    requires
        forall|i: int|
            0 <= i < links.len() ==> !(scope.in_scope(#[trigger] links[i]) && scope.is_new(
                links[i],
            )),
    ensures
        discover(scope, page, links) == (scope, Seq::<JobView>::empty()),
    decreases links.len(),
{
    if links.len() > 0 {
        let front = links.drop_last();
        assert forall|i: int| 0 <= i < front.len() implies !(scope.in_scope(#[trigger] front[i])
            && scope.is_new(front[i])) by {
            assert(front[i] == links[i]);
        }
        lemma_discover_nothing_new(scope, page, front);
        assert(links.last() == links[links.len() - 1]);
    }
}

/// One outcome, taken in while jobs are out: the frontier loses the job
/// that ended and gains the jobs handed out for it; what counts as seen only
/// grows, and no job is for a URL that was seen before. The counts stay
/// well-formed.
pub proof fn lemma_handle(state: ControlView, outcome: OutcomeView)
    requires
        state.wf(),
    ensures
        ({
            let (next, jobs) = state.handle(outcome);
            &&& next.wf()
            &&& next.frontier() == if state.frontier() > 0 {
                state.frontier() - 1 + jobs.len()
            } else {
                0
            }
            &&& state.scope.visited.subset_of(next.scope.visited)
            &&& state.cancelled ==> jobs.len() == 0
            &&& next.cancelled == state.cancelled
            &&& forall|j: int|
                0 <= j < jobs.len() ==> state.scope.in_scope((#[trigger] jobs[j]).target)
                    && !state.scope.visited.contains(jobs[j].target.normalized)
            &&& forall|page: Seq<char>| #[trigger]
                next.page_links.contains_key(page) ==> state.page_links.contains_key(page) || (
                outcome matches OutcomeView::Success { page: fetched, .. } && fetched.text == page)
        }),
{
    if state.frontier() > 0 {
        match outcome {
            OutcomeView::Success { page, links } => {
                lemma_discover(state.scope, page, links);
            },
            OutcomeView::Failure { job, error } => {},
        }
    }
}

/// Well-formedness holds after any sequence of outcomes, and what counts as
/// seen only grows.
pub proof fn lemma_handle_all(state: ControlView, outcomes: Seq<OutcomeView>)
    requires
        state.wf(),
    ensures
        state.handle_all(outcomes).wf(),
        state.scope.visited.subset_of(state.handle_all(outcomes).scope.visited),
    decreases outcomes.len(),
{
    if outcomes.len() > 0 {
        lemma_handle_all(state, outcomes.drop_last());
        lemma_handle(state.handle_all(outcomes.drop_last()), outcomes.last());
    }
}

/// An outcome that offers nothing new to `scope`: each link that it found
/// is out of scope or was seen.
pub open spec fn nothing_new(scope: ScopeView, outcome: OutcomeView) -> bool {
    match outcome {
        OutcomeView::Success { page, links } => forall|i: int|
            0 <= i < links.len() ==> !(scope.in_scope(#[trigger] links[i]) && scope.is_new(
                links[i],
            )),
        OutcomeView::Failure { job, error } => true,
    }
}

/// A crawl over a closed graph ends: where none of the outcomes of the jobs
/// that are out offers anything new, in whatever order they come, taking
/// them in leaves no job out, and hands out none.
pub proof fn lemma_closed_crawl_ends(state: ControlView, outcomes: Seq<OutcomeView>)
    requires
        state.wf(),
        outcomes.len() <= state.frontier(),
        forall|i: int| 0 <= i < outcomes.len() ==> nothing_new(state.scope, #[trigger] outcomes[i]),
    ensures
        state.handle_all(outcomes).frontier() == state.frontier() - outcomes.len(),
        state.handle_all(outcomes).issued == state.issued,
        state.handle_all(outcomes).scope == state.scope,
        outcomes.len() == state.frontier() ==> state.handle_all(outcomes).phase() == Phase::Done,
        forall|i: int|
            0 <= i < outcomes.len() ==> (#[trigger] state.handle_all(outcomes.take(i)).handle(
                outcomes[i],
            )).1.len() == 0,
    decreases outcomes.len(),
{
    if outcomes.len() > 0 {
        let front = outcomes.drop_last();
        assert forall|i: int| 0 <= i < front.len() implies nothing_new(
            state.scope,
            #[trigger] front[i],
        ) by {
            assert(front[i] == outcomes[i]);
        }
        lemma_closed_crawl_ends(state, front);
        let before = state.handle_all(front);
        let last = outcomes.last();
        assert(nothing_new(state.scope, outcomes[outcomes.len() - 1]));
        match last {
            OutcomeView::Success { page, links } => {
                lemma_discover_nothing_new(before.scope, page, links);
            },
            OutcomeView::Failure { job, error } => {},
        }
        assert forall|i: int| 0 <= i < outcomes.len() implies (#[trigger] state.handle_all(
            outcomes.take(i),
        ).handle(outcomes[i])).1.len() == 0 by {
            if i < front.len() {
                assert(front.take(i) == outcomes.take(i));
                assert(front[i] == outcomes[i]);
            } else {
                assert(outcomes.take(i) == front);
            }
        }
    }
}

/// The serializations of `links`, in order.
fn serializations(links: &Vec<Url>) -> (out: Vec<String>)
    ensures
        texts(out@) == link_texts(url_views(links@)),
{
    let mut out: Vec<String> = Vec::new();
    let mut i: usize = 0;
    while i < links.len()
        invariant
            i <= links.len(),
            texts(out@) == link_texts(url_views(links@).take(i as int)),
        decreases links.len() - i,
    {
        let ghost before = out@;
        let ghost found = url_views(links@);
        let text = links[i].as_str().to_owned();
        out.push(text);
        assert(texts(out@) =~= texts(before).push(text@));
        assert(found.take(i + 1) =~= found.take(i as int).push(found[i as int]));
        assert(link_texts(found.take(i as int).push(found[i as int])) =~= link_texts(
            found.take(i as int),
        ).push(found[i as int].text));
        i += 1;
    }
    assert(url_views(links@).take(links.len() as int) == url_views(links@));
    out
}

} // verus!
