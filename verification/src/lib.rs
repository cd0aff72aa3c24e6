//! A verified core for a batched page-scraping pipeline.
//!
//! The library covers the logic of the pipeline: extracting a structured
//! joke record from a fetched page, classifying outcomes, deciding when a
//! run over an unbounded id space is exhausted, and encoding records as
//! rows of an append-only table. Network fetches, timing and file output
//! live outside the library and hand it plain values.
#![verifier::loop_isolation(false)]

pub mod dispatch;
pub mod extract;
pub mod html;
pub mod record;
pub mod sink;
pub mod text;
