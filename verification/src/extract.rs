//! Field extraction: recovering a structured joke record from the raw
//! text fragments of one fetched page, or reporting why it could not be
//! recovered.
use vstd::prelude::*;

use crate::html::{
    content_texts_of, detail_texts_of, select_content_texts, select_detail_texts,
    select_title_text, title_text_of, Selectors,
};
use crate::record::{JokeModel, WockaJoke};
use crate::text::{chars_eq, chars_vec, join_chars, join_with, string_of_chars, tokenize, tokens_of};

verus! {

/// Why a loaded page could not yield a record: the expected structure
/// was absent. Expected near the end of the id space.
#[derive(Debug, Clone, Copy, PartialEq, Eq)]
pub enum SoftReason {
    /// The title heading was missing or empty.
    MissingTitle,
    /// No detail token equals the category label.
    MissingCategoryLabel,
    /// The category label is the last token, so no value follows it.
    MissingCategoryValue,
    /// The joined content text is empty.
    EmptyBody,
}

/// An infrastructure-level failure unrelated to content absence.
#[derive(Debug, Clone, Copy, PartialEq, Eq)]
pub enum HardReason {
    /// The page could not be fetched or its body not read as text.
    Transport,
    /// A record could not be written to the output stream.
    Serialization,
}

/// The outcome of one extraction attempt.
#[derive(Debug, Clone, PartialEq)]
pub enum ExtractionOutcome {
    Success(WockaJoke),
    SoftFailure(SoftReason),
    HardFailure(HardReason),
}

/// The mathematical model of an [`ExtractionOutcome`].
pub enum OutcomeModel {
    Success(JokeModel),
    SoftFailure(SoftReason),
    HardFailure(HardReason),
}

impl View for ExtractionOutcome {
    type V = OutcomeModel;

    open spec fn view(&self) -> OutcomeModel {
        match self {
            ExtractionOutcome::Success(j) => OutcomeModel::Success(j@),
            ExtractionOutcome::SoftFailure(r) => OutcomeModel::SoftFailure(*r),
            ExtractionOutcome::HardFailure(r) => OutcomeModel::HardFailure(*r),
        }
    }
}

impl DeepView for ExtractionOutcome {
    type V = OutcomeModel;

    open spec fn deep_view(&self) -> OutcomeModel {
        self.view()
    }
}

/// The literal label whose following token names the record's category.
pub open spec fn category_label() -> Seq<char> {
    "Category"@
}

/// What extraction yields from the raw text fragments of one page:
/// the title is the first heading fragment as found; the category is the
/// token after the first token equal to the category label among the
/// trimmed, non-empty detail tokens; the body is the trimmed, non-empty
/// content fragments joined with newlines. The checks run in that order,
/// and the first absent piece decides the soft failure.
pub open spec fn extract_model(
    id: u64,
    title: Option<Seq<char>>,
    details: Seq<Seq<char>>,
    contents: Seq<Seq<char>>,
) -> OutcomeModel {
    match title {
        Option::None => OutcomeModel::SoftFailure(SoftReason::MissingTitle),
        Option::Some(t) => {
            let tokens = tokens_of(details);
            match tokens.index_of_first(category_label()) {
                Option::None => OutcomeModel::SoftFailure(SoftReason::MissingCategoryLabel),
                Option::Some(i) => if i + 1 >= tokens.len() {
                    OutcomeModel::SoftFailure(SoftReason::MissingCategoryValue)
                } else {
                    let body = join_with(tokens_of(contents), '\n');
                    if body.len() == 0 {
                        OutcomeModel::SoftFailure(SoftReason::EmptyBody)
                    } else {
                        OutcomeModel::Success(
                            JokeModel { title: t, body, id, category: tokens[i + 1] },
                        )
                    }
                },
            }
        },
    }
}

/// What `extract_joke` yields on a page with the given text.
pub open spec fn extract_page_model(id: u64, src: Seq<char>) -> OutcomeModel {
    extract_model(id, title_text_of(src), detail_texts_of(src), content_texts_of(src))
}

fn copy_chars(v: &Vec<char>) -> (r: Vec<char>)
    ensures
        r@ == v@,
{
    let mut r: Vec<char> = Vec::new();
    let mut i: usize = 0;
    while i < v.len()
        invariant
            i <= v.len(),
            r@ =~= v@.subrange(0, i as int),
        decreases v.len() - i,
    {
        r.push(v[i]);
        i += 1;
    }
    proof {
        assert(r@ =~= v@);
    }
    r
}

/// Finds the first token equal to `needle`, if any.
fn find_token(tokens: &Vec<Vec<char>>, needle: &Vec<char>) -> (r: Option<usize>)
    ensures
        match r {
            Option::Some(i) => tokens.deep_view().index_of_first(needle@) == Some(i as int),
            Option::None => tokens.deep_view().index_of_first(needle@) is None,
        },
{
    proof {
        tokens.deep_view().index_of_first_ensures(needle@);
    }
    let mut i: usize = 0;
    while i < tokens.len()
        invariant
            i <= tokens.len(),
            forall|j: int| 0 <= j < i ==> tokens.deep_view()[j] != needle@,
        decreases tokens.len() - i,
    {
        proof {
            assert(tokens.deep_view()[i as int] =~= tokens@[i as int]@);
        }
        if chars_eq(&tokens[i], needle) {
            proof {
                let spec_r = tokens.deep_view().index_of_first(needle@);
                assert(tokens.deep_view()[i as int] == needle@);
                assert(spec_r is Some);
                let k = spec_r->0;
                assert(!(k < i)) by {
                    if k < i {
                        assert(tokens.deep_view()[k] != needle@);
                    }
                }
                assert(!(k > i)) by {
                    if k > i {
                        assert(tokens.deep_view()[i as int] != needle@);
                    }
                }
            }
            return Some(i);
        }
        i += 1;
    }
    return None;
}

/// Extracts a record from the raw text fragments of one page: the first
/// title fragment, the flattened detail-cell fragments, and the direct
/// child texts of the content container. Returns exactly what
/// [`extract_model`] states: a success with a non-empty body, or the
/// first applicable soft failure.
pub fn extract_from_texts(
    id: u64,
    title: Option<Vec<char>>,
    details: &Vec<Vec<char>>,
    contents: &Vec<Vec<char>>,
) -> (r: ExtractionOutcome)
    requires
        id >= 1,
    ensures
        r@ == extract_model(id, title.deep_view(), details.deep_view(), contents.deep_view()),
{
    match title {
        Option::None => ExtractionOutcome::SoftFailure(SoftReason::MissingTitle),
        Option::Some(t) => {
            proof {
                assert(t.deep_view() =~= t@);
            }
            let tokens = tokenize(details);
            let label = chars_vec("Category");
            match find_token(&tokens, &label) {
                Option::None => ExtractionOutcome::SoftFailure(SoftReason::MissingCategoryLabel),
                Option::Some(i) => {
                    proof {
                        tokens.deep_view().index_of_first_ensures(label@);
                        assert(tokens.deep_view().len() == tokens@.len());
                        assert(i < tokens.len());
                    }
                    if i + 1 >= tokens.len() {
                        ExtractionOutcome::SoftFailure(SoftReason::MissingCategoryValue)
                    } else {
                        proof {
                            assert(tokens.deep_view()[i + 1] =~= tokens@[i + 1]@);
                        }
                        let category = copy_chars(&tokens[i + 1]);
                        let body_parts = tokenize(contents);
                        let body = join_chars(&body_parts, '\n');
                        if body.len() == 0 {
                            ExtractionOutcome::SoftFailure(SoftReason::EmptyBody)
                        } else {
                            ExtractionOutcome::Success(
                                WockaJoke {
                                    title: string_of_chars(t),
                                    body: string_of_chars(body),
                                    id,
                                    category: string_of_chars(category),
                                },
                            )
                        }
                    }
                },
            }
        },
    }
}

/// The address of the page with the given id: the fixed template with
/// the decimal id substituted in.
pub open spec fn page_url_model(id: u64) -> Seq<char> {
    "http://www.wocka.com/"@ + crate::text::dec_chars(id as int) + ".html"@
}

/// Builds the address of the page with the given positive id.
pub fn page_url(id: u64) -> (r: String)
    requires
        id >= 1,
    ensures
        r@ == page_url_model(id),
{
    let mut s = String::from_str("http://www.wocka.com/");
    let digits = crate::text::dec_chars_vec(id);
    s.append(string_of_chars(digits).as_str());
    s.append(".html");
    s
}

/// Every page whose fragments yield a title, a resolvable category (a
/// token equal to the label, with a token after it), and a non-empty
/// joined body extracts successfully, with exactly that title, body and
/// category — and the body of the success is never empty.
pub proof fn lemma_extract_success(
    id: u64,
    title: Option<Seq<char>>,
    details: Seq<Seq<char>>,
    contents: Seq<Seq<char>>,
)
    requires
        id >= 1,
        title is Some,
        tokens_of(details).index_of_first(category_label()) is Some,
        tokens_of(details).index_of_first(category_label())->0 + 1 < tokens_of(details).len(),
        join_with(tokens_of(contents), '\n').len() > 0,
    ensures
        extract_model(id, title, details, contents) matches OutcomeModel::Success(j) && {
            &&& j.title == title->0
            &&& j.body == join_with(tokens_of(contents), '\n')
            &&& j.category == tokens_of(details)[tokens_of(details).index_of_first(
                category_label(),
            )->0 + 1]
            &&& j.id == id
            &&& j.wf()
        },
{
}

/// A page missing the category label, or whose label has no token after
/// it, never extracts successfully: the outcome is always a soft
/// failure.
pub proof fn lemma_missing_category_soft(
    id: u64,
    title: Option<Seq<char>>,
    details: Seq<Seq<char>>,
    contents: Seq<Seq<char>>,
)
    requires
        tokens_of(details).index_of_first(category_label()) is None || tokens_of(
            details,
        ).index_of_first(category_label())->0 + 1 >= tokens_of(details).len(),
    ensures
        extract_model(id, title, details, contents) is SoftFailure,
        !(extract_model(id, title, details, contents) is Success),
{
}

/// Extracts a record from one fetched page text: parses the text as an
/// HTML document, reads the three fixed selections, and recovers the
/// record exactly as [`extract_page_model`] states. The page identifier
/// `id` is the positive identifier the text was fetched for.
pub fn extract_joke(id: u64, html: &str, sels: &Selectors) -> (r: ExtractionOutcome)
    requires
        id >= 1,
    ensures
        r@ == extract_page_model(id, html@),
{
    let title = select_title_text(html, sels);
    let details = select_detail_texts(html, sels);
    let contents = select_content_texts(html, sels);
    extract_from_texts(id, title, &details, &contents)
}

} // verus!
