//! Typed columnar sheets, column type inference, and pivot-style group-by aggregation.
//!
//! `ingest` turns raw spreadsheet rows into typed sheets (`data`), inferring each
//! column's type; `engine` runs a query (`query`) on a sheet, previewing it or grouping
//! its rows and summarizing measure columns (`aggregate`); `numfmt` renders the
//! fixed-point numbers that the library computes with; `dates` reaches chrono for
//! calendar text; `project` holds what a saved project records.
use vstd::prelude::*;

pub mod aggregate;
pub mod data;
pub mod dates;
pub mod engine;
pub mod ingest;
pub mod numfmt;
pub mod project;
pub mod query;

verus! {

} // verus!
