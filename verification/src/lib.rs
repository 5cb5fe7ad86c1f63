pub mod classify;
pub mod control;
pub mod extract;
pub mod fetch;
pub mod format;
pub mod job;
pub mod link;
pub mod render;
pub mod report;
pub mod scope;
pub mod skip;
pub mod text;
pub mod worker;

pub use classify::{is_absolute_url, is_likely_html_content};
pub use control::{Controller, Phase};
pub use extract::{extract_links, Extraction};
pub use fetch::{Fetch, FetchEvent, FetchStep, Method, Request};
pub use format::format_bytes;
pub use job::{FetchError, FetchJob, FetchOutcome};
pub use link::Url;
pub use render::{broken_link_line, download_line, headline, lists_broken_links};
pub use report::{BadUrl, CrawlReport, PageLinkMap, PageLinks, Summary};
pub use scope::CrawlState;
pub use skip::SkipPattern;
pub use worker::{worker_step, WorkerAction, WorkerEvent};
