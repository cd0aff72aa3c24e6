//! The record types of the pipeline: the joke as extracted from a page,
//! and the row shape handed to the output sink, with the synthesized
//! provenance footer.
use vstd::prelude::*;

use crate::text::{dec_chars, string_of_chars};

verus! {

/// A structured joke record as extracted from one page.
///
/// `id` is the positive page identifier the record came from.
#[derive(Debug, Clone, PartialEq)]
pub struct WockaJoke {
    pub title: String,
    pub body: String,
    pub id: u64,
    pub category: String,
}

/// The mathematical model of a [`WockaJoke`]: every text field as a
/// sequence of characters.
pub struct JokeModel {
    pub title: Seq<char>,
    pub body: Seq<char>,
    pub id: u64,
    pub category: Seq<char>,
}

impl View for WockaJoke {
    type V = JokeModel;

    open spec fn view(&self) -> JokeModel {
        JokeModel { title: self.title@, body: self.body@, id: self.id, category: self.category@ }
    }
}

impl DeepView for WockaJoke {
    type V = JokeModel;

    open spec fn deep_view(&self) -> JokeModel {
        self.view()
    }
}

impl JokeModel {
    /// Well-formedness: the identifier is positive and the body is
    /// non-empty; every record bound for the sink satisfies this.
    pub open spec fn wf(self) -> bool {
        self.id >= 1 && self.body.len() > 0
    }
}

/// A row of the output table: the three columns, in column order
/// `title, body, footer`.
#[derive(Debug, Clone, PartialEq)]
pub struct Joke {
    pub title: String,
    pub body: String,
    pub footer: String,
}

/// The mathematical model of a [`Joke`] row.
pub struct RowModel {
    pub title: Seq<char>,
    pub body: Seq<char>,
    pub footer: Seq<char>,
}

impl View for Joke {
    type V = RowModel;

    open spec fn view(&self) -> RowModel {
        RowModel { title: self.title@, body: self.body@, footer: self.footer@ }
    }
}

impl DeepView for Joke {
    type V = RowModel;

    open spec fn deep_view(&self) -> RowModel {
        self.view()
    }
}

/// The provenance footer for a record with the given original category
/// and page identifier.
pub open spec fn footer_model(category: Seq<char>, id: u64) -> Seq<char> {
    "Source: wocka.com, Category: "@ + category + ", ID: "@ + dec_chars(id as int)
}

/// The sink row that stands for an extracted joke: title and body are
/// carried over, the footer is synthesized from category and id.
pub open spec fn row_of(j: JokeModel) -> RowModel {
    RowModel { title: j.title, body: j.body, footer: footer_model(j.category, j.id) }
}

/// Builds the provenance footer string for `category` and `id`.
pub fn synthesize_footer(category: &str, id: u64) -> (r: String)
    ensures
        r@ == footer_model(category@, id),
{
    let mut s = String::from_str("Source: wocka.com, Category: ");
    s.append(category);
    s.append(", ID: ");
    let digits = crate::text::dec_chars_vec(id);
    let digit_str = string_of_chars(digits);
    s.append(digit_str.as_str());
    s
}

impl Joke {
    /// Turns an extracted joke into its sink row, synthesizing the footer.
    pub fn from_wocka(w: &WockaJoke) -> (r: Joke)
        ensures
            r@ == row_of(w@),
    {
        let footer = synthesize_footer(w.category.as_str(), w.id);
        Joke { title: w.title.clone(), body: w.body.clone(), footer }
    }
}

} // verus!
