use crate::job::{FetchError, FetchErrorView, FetchJob, FetchOutcome, JobView, OutcomeView};
use crate::link::{url_views, Url, UrlView};
use vstd::prelude::*;

verus! {

/// What happened to a worker since its last decision.
pub enum WorkerEvent {
    /// The worker is free: it has just started, or has pushed an outcome.
    Free,
    /// The wait for a job ended: with a job, or without one.
    Pulled(Option<FetchJob>),
    /// The fetch of `job` ended with its links, or failed.
    Fetched { job: FetchJob, result: Result<Vec<Url>, FetchError> },
}

pub enum WorkerEventView {
    Free,
    Pulled(Option<JobView>),
    Fetched { job: JobView, result: Result<Seq<UrlView>, FetchErrorView> },
}

impl View for WorkerEvent {
    type V = WorkerEventView;

    open spec fn view(&self) -> WorkerEventView {
        match self {
            WorkerEvent::Free => WorkerEventView::Free,
            WorkerEvent::Pulled(job) => WorkerEventView::Pulled(
                match job {
                    Some(j) => Some(j@),
                    None => None,
                },
            ),
            WorkerEvent::Fetched { job, result } => WorkerEventView::Fetched {
                job: job@,
                result: match result {
                    Ok(links) => Ok(url_views(links@)),
                    Err(error) => Err(error@),
                },
            },
        }
    }
}

/// What a worker does next.
pub enum WorkerAction {
    /// Wait a short while for a job.
    Pull,
    /// Fetch the job.
    Fetch(FetchJob),
    /// Push the outcome; then go on as a free worker, or leave where
    /// `then_exit` is set.
    Push { outcome: FetchOutcome, then_exit: bool },
    /// Leave the loop.
    Exit,
}

pub enum WorkerActionView {
    Pull,
    Fetch(JobView),
    Push { outcome: OutcomeView, then_exit: bool },
    Exit,
}

impl View for WorkerAction {
    type V = WorkerActionView;

    open spec fn view(&self) -> WorkerActionView {
        match self {
            WorkerAction::Pull => WorkerActionView::Pull,
            WorkerAction::Fetch(job) => WorkerActionView::Fetch(job@),
            WorkerAction::Push { outcome, then_exit } => WorkerActionView::Push {
                outcome: outcome@,
                then_exit: *then_exit,
            },
            WorkerAction::Exit => WorkerActionView::Exit,
        }
    }
}

/// The outcome of a job whose fetch ended with `result`: the page is the
/// job's URL, and a failure carries the job.
pub open spec fn outcome_of(job: JobView, result: Result<Seq<UrlView>, FetchErrorView>) -> OutcomeView {
    match result {
        Ok(links) => OutcomeView::Success { page: job.target, links },
        Err(error) => OutcomeView::Failure { job, error },
    }
}

/// What a worker does after `event`, given whether it sees the crawl
/// cancelled. A cancelled worker starts nothing: it leaves, also with a job
/// in hand that it has not begun. A fetch that has ended is always pushed.
pub open spec fn next_action(event: WorkerEventView, cancelled: bool) -> WorkerActionView {
    match event {
        WorkerEventView::Free => if cancelled {
            WorkerActionView::Exit
        } else {
            WorkerActionView::Pull
        },
        WorkerEventView::Pulled(None) => if cancelled {
            WorkerActionView::Exit
        } else {
            WorkerActionView::Pull
        },
        WorkerEventView::Pulled(Some(job)) => if cancelled {
            WorkerActionView::Exit
        } else {
            WorkerActionView::Fetch(job)
        },
        WorkerEventView::Fetched { job, result } => WorkerActionView::Push {
            outcome: outcome_of(job, result),
            then_exit: cancelled,
        },
    }
}

/// The outcome of a job whose fetch ended with `result`.
pub fn make_outcome(job: FetchJob, result: Result<Vec<Url>, FetchError>) -> (outcome: FetchOutcome)
    ensures
        outcome@ == outcome_of(
            job@,
            match result {
                Ok(links) => Ok(url_views(links@)),
                Err(error) => Err(error@),
            },
        ),
{
    match result {
        Ok(links) => FetchOutcome::Success { page: job.target, links },
        Err(error) => FetchOutcome::Failure { job, error },
    }
}

/// What a worker does after `event`, given whether it sees the crawl
/// cancelled.
pub fn worker_step(event: WorkerEvent, cancelled: bool) -> (action: WorkerAction)
    ensures
        action@ == next_action(event@, cancelled),
{
    match event {
        WorkerEvent::Free => if cancelled {
            WorkerAction::Exit
        } else {
            WorkerAction::Pull
        },
        WorkerEvent::Pulled(None) => if cancelled {
            WorkerAction::Exit
        } else {
            WorkerAction::Pull
        },
        WorkerEvent::Pulled(Some(job)) => if cancelled {
            WorkerAction::Exit
        } else {
            WorkerAction::Fetch(job)
        },
        WorkerEvent::Fetched { job, result } => WorkerAction::Push {
            outcome: make_outcome(job, result),
            then_exit: cancelled,
        },
    }
}

} // verus!
