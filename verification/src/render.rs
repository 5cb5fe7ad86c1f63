use crate::format::{decimal, decimal_text, format_bytes, formatted_size};
use crate::report::{BadUrl, BadUrlView, Summary};
use vstd::prelude::*;
use vstd::string::*;

verus! {

/// Up to this many broken links are listed one by one.
pub const MAX_LISTED: usize = 20;

/// How the count of broken links is put in words.
pub open spec fn broken_clause(broken: nat) -> Seq<char> {
    if broken == 0 {
        ", found no broken links."@
    } else if broken == 1 {
        ", found 1 broken link."@
    } else {
        ", found "@ + decimal(broken) + " broken links."@
    }
}

/// The first line of the summary.
pub open spec fn headline_text(summary: Summary, interrupted: bool) -> Seq<char> {
    let opening = if interrupted {
        "\n\nCrawl interrupted! "@
    } else {
        Seq::<char>::empty()
    };
    opening + "Crawled "@ + decimal(summary.pages_crawled as nat) + " pages, checked "@ + decimal(
        summary.unique_urls as nat,
    ) + " unique URLs"@ + broken_clause(summary.broken_links as nat)
}

/// The line that lists one broken link.
pub open spec fn broken_link_text(bad: BadUrlView) -> Seq<char> {
    match bad.found_on {
        Some(source) => "  - "@ + bad.url + " (found on: "@ + source + ")"@,
        None => "  - "@ + bad.url + " (starting URL)"@,
    }
}

/// The line that says how much was downloaded.
pub open spec fn download_text(total: nat) -> Seq<char> {
    "Total data downloaded: "@ + decimal(total) + " bytes ("@ + formatted_size(total) + ")"@
}

/// Whether the broken links are listed one by one: there are some, and no
/// more than `MAX_LISTED`.
pub fn lists_broken_links(broken: usize) -> (listed: bool)
    ensures
        listed == (0 < broken <= MAX_LISTED),
{
    0 < broken && broken <= MAX_LISTED
}

/// The first line of the summary: the pages crawled, the URLs checked and
/// the broken links found.
pub fn headline(summary: &Summary, interrupted: bool) -> (line: String)
    ensures
        line@ == headline_text(*summary, interrupted),
{
    let mut line = String::new();
    if interrupted {
        line.append("\n\nCrawl interrupted! ");
    }
    line.append("Crawled ");
    line.append(decimal_text(summary.pages_crawled as u128).as_str());
    line.append(" pages, checked ");
    line.append(decimal_text(summary.unique_urls as u128).as_str());
    line.append(" unique URLs");
    if summary.broken_links == 0 {
        line.append(", found no broken links.");
    } else if summary.broken_links == 1 {
        line.append(", found 1 broken link.");
    } else {
        let ghost head = line@;
        line.append(", found ");
        line.append(decimal_text(summary.broken_links as u128).as_str());
        line.append(" broken links.");
        assert(line@ =~= head + broken_clause(summary.broken_links as nat));
    }
    assert(line@ =~= headline_text(*summary, interrupted));
    line
}

/// The line that lists one broken link, with the page it was found on.
pub fn broken_link_line(bad: &BadUrl) -> (line: String)
    ensures
        line@ == broken_link_text(bad@),
{
    let mut line = String::new();
    line.append("  - ");
    line.append(bad.url.as_str());
    match &bad.found_on {
        Some(source) => {
            line.append(" (found on: ");
            line.append(source.as_str());
            line.append(")");
        },
        None => {
            line.append(" (starting URL)");
        },
    }
    assert(line@ =~= broken_link_text(bad@));
    line
}

/// The line that says how much was downloaded, in bytes and as people read
/// it.
pub fn download_line(total: usize) -> (line: String)
    ensures
        line@ == download_text(total as nat),
{
    let mut line = String::new();
    line.append("Total data downloaded: ");
    line.append(decimal_text(total as u128).as_str());
    line.append(" bytes (");
    line.append(format_bytes(total).as_str());
    line.append(")");
    assert(line@ =~= download_text(total as nat));
    line
}

} // verus!
