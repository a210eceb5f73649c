//! A client for a MediaWiki API that lists the members of a category page by
//! page, fetches their content in batches and extracts each page's text, plus
//! a reader for short genotype files.
//!
//! - `json`: JSON documents as plain values, with member and element lookup.
//! - `mediawiki`: query building, response envelopes, and the paged source
//!   that follows continuation tokens until the server reports the end.
//! - `scraper`: category titles, content extraction and storage outcomes.
//! - `genotype`: the SNP reader.
use vstd::prelude::*;

pub mod genotype;
pub mod json;
pub mod mediawiki;
pub mod scraper;

verus! {

} // verus!
