//! Flattening a markup page to plain text and extracting its records: the
//! markup parsing itself is done by scraper behind two trusted wrappers; the
//! line splitting and the record extraction are verified.
use vstd::prelude::*;

use crate::extract::{extract_records, spec_extract};
use crate::text::{split_lines, split_trimmed_lines};
use crate::OutageRecord;

verus! {

/// The text content of the first `h3` heading of a markup document, empty
/// when the document has none.
pub uninterp spec fn heading_of(html: Seq<char>) -> Seq<char>;

/// The visible text of a markup document: the text nodes in document order,
/// joined by single spaces.
pub uninterp spec fn flat_text_of(html: Seq<char>) -> Seq<char>;

/// Relies on scraper::Html::parse_document, scraper::Selector::parse and
/// scraper::ElementRef::text: the concatenated text of the document's first
/// `h3` element, or the empty string when there is none. Parsing is a
/// function of the document text alone.
#[verifier::external_body]
fn first_heading(html: &str) -> (r: String)
    ensures
        r@ == heading_of(html@),
{
    let document = scraper::Html::parse_document(html);
    let selector = scraper::Selector::parse("h3").unwrap();
    match document.select(&selector).next() {
        Some(el) => el.text().collect::<String>(),
        None => String::new(),
    }
}

/// Relies on scraper::Html::parse_document and scraper::ElementRef::text: the
/// document's text nodes in document order, joined by single spaces. Parsing
/// is a function of the document text alone.
#[verifier::external_body]
fn page_text(html: &str) -> (r: String)
    ensures
        r@ == flat_text_of(html@),
{
    let document = scraper::Html::parse_document(html);
    document.root_element().text().collect::<Vec<_>>().join(" ")
}

/// Reduces a markup document to its heading label and its trimmed text lines.
/// Absence of the expected structure degrades to empty values, never an error.
pub fn flatten_page(html: &str) -> (r: (String, Vec<String>))
    ensures
        r.0@ == heading_of(html@),
        r.1.deep_view() == split_lines(flat_text_of(html@)),
{
    let heading = first_heading(html);
    let text = page_text(html);
    let lines = split_trimmed_lines(text.as_str());
    (heading, lines)
}

/// Extracts the outage records of one page of markup: flatten the page to a
/// heading and trimmed text lines, then run the extraction state machine with
/// the heading as the page date. Malformed input yields partial or empty
/// records, never an error.
pub fn parse_outages(html: &str) -> (res: Vec<OutageRecord>)
    ensures
        res.deep_view() == spec_extract(heading_of(html@), split_lines(flat_text_of(html@))),
{
    let (heading, lines) = flatten_page(html);
    extract_records(heading.as_str(), &lines)
}

} // verus!
