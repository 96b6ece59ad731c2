//! Harvesting of anomaly classification records from wiki pages: text
//! normalisation, layout detection, record assembly, retry scheduling,
//! reconciliation against a known dataset, and numeric-aware ordering.

pub mod assemble;
pub mod backlinks;
pub mod catalog;
pub mod chars;
pub mod extract;
pub mod fetch;
pub mod ident;
pub mod page;
pub mod pattern;
pub mod reconcile;
pub mod record;
pub mod schedule;
pub mod sort_json;
pub mod text;
