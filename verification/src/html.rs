//! The page side of the extractor: parsing fetched text as an HTML
//! document and querying the three fixed selections the extraction
//! algorithm reads. All calls into the HTML crate live here, behind
//! trusted wrappers; what each selection yields on a given page text is
//! named by an uninterpreted function of that text alone.
use vstd::prelude::*;

verus! {

#[verifier::external_type_specification]
#[verifier::external_body]
pub struct ExSelector(scraper::Selector);

/// The three fixed selection queries of the extractor, compiled once at
/// startup and passed by reference into every extraction call: the title
/// heading (`div#content h2`), the labeled detail cells (`td.contents`),
/// and the primary content container (`div#content`).
pub struct Selectors {
    title: scraper::Selector,
    details: scraper::Selector,
    content: scraper::Selector,
}

impl Selectors {
    /// Relies on scraper's `Selector::parse`: compiles the three fixed
    /// queries, which are valid CSS selectors, so parsing cannot fail.
    #[verifier::external_body]
    pub fn new() -> Selectors {
        Selectors {
            title: scraper::Selector::parse("div#content h2").unwrap(),
            details: scraper::Selector::parse("td.contents").unwrap(),
            content: scraper::Selector::parse("div#content").unwrap(),
        }
    }
}

/// The first text fragment of the first title heading of the page with
/// the given text, if any.
pub uninterp spec fn title_text_of(src: Seq<char>) -> Option<Seq<char>>;

/// The text fragments under the labeled detail cells of the page with
/// the given text, flattened in document order, untrimmed.
pub uninterp spec fn detail_texts_of(src: Seq<char>) -> Seq<Seq<char>>;

/// The texts of the direct child text nodes of the first primary content
/// container of the page with the given text, in order; empty when the
/// container is absent.
pub uninterp spec fn content_texts_of(src: Seq<char>) -> Seq<Seq<char>>;

/// Relies on scraper's `Html::parse_document`, `Html::select` and
/// `ElementRef::text`: the first text fragment of the first element of
/// the parsed document matching the title query, a function of the page
/// text alone.
#[verifier::external_body]
pub fn select_title_text(html: &str, sels: &Selectors) -> (r: Option<Vec<char>>)
    ensures
        r.deep_view() == title_text_of(html@),
{
    let doc = scraper::Html::parse_document(html);
    let first = doc.select(&sels.title).next().and_then(|e| e.text().next());
    first.map(|t| t.chars().collect())
}

/// Relies on scraper's `Html::parse_document`, `Html::select` and
/// `ElementRef::text`: the text fragments of all elements of the parsed
/// document matching the detail-cell query, flattened in document order,
/// a function of the page text alone.
#[verifier::external_body]
pub fn select_detail_texts(html: &str, sels: &Selectors) -> (r: Vec<Vec<char>>)
    ensures
        r.deep_view() == detail_texts_of(html@),
{
    let doc = scraper::Html::parse_document(html);
    doc.select(&sels.details).flat_map(|e| e.text()).map(
        |t| t.chars().collect(),
    ).collect()
}

/// Relies on scraper's `Html::parse_document`, `Html::select` and
/// ego-tree's `NodeRef::children`: the texts of the direct child text
/// nodes of the first element of the parsed document matching the content
/// query (empty when none matches), a function of the page text alone.
#[verifier::external_body]
pub fn select_content_texts(html: &str, sels: &Selectors) -> (r: Vec<Vec<char>>)
    ensures
        r.deep_view() == content_texts_of(html@),
{
    let doc = scraper::Html::parse_document(html);
    match doc.select(&sels.content).next() {
        None => Vec::new(),
        Some(e) => e.children().filter_map(
            |n| n.value().as_text().map(|t| t.chars().collect()),
        ).collect(),
    }
}

} // verus!
