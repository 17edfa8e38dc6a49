//! Polls heterogeneous content sources (syndication feeds, a JSON blogging
//! platform, scraped HTML pages, an OAI-PMH preprint repository) and produces
//! a normalized, chronologically ordered list of items newer than a
//! caller-supplied date threshold.
//!
//! Network retrieval is a collaborator's job: every fetcher here takes the raw
//! response body as a value and is a pure function of its inputs.

pub mod errors;
pub mod feed_types;
pub mod models;
pub mod orchestrator;
pub mod text;
pub mod utils;
