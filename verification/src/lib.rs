//! Enriches a list of organization domains with email-contact data from a
//! domain-search service, producing a flattened tabular export: one output
//! row per discovered email address, carrying both the organization-level
//! and the email-level attributes.
//!
//! The library holds everything the pipeline decides and computes: the
//! input table grammar (`input`), the lookup URL (`query`), the response
//! JSON grammar (`json`) and schema (`schema`), the flattening transform
//! (`flatten`), the output table rendering (`output`), and the run's
//! decisions (`driver`). Reading files, sending the request and printing
//! stay with the caller, which hands plain values in and takes plain
//! values back.

pub mod driver;
pub mod flatten;
pub mod input;
pub mod json;
pub mod model;
pub mod numfmt;
pub mod output;
pub mod query;
pub mod schema;
pub mod text;
