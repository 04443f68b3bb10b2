//! RSVP collection: validate a submission, record it under a uniqueness
//! rule on (name, email), and show the refreshed guest list.
//!
//! - `text`: whitespace, trimming and comparison of text.
//! - `validate`: from a raw submission to a validated one.
//! - `record`: the persisted record.
//! - `store`: the table of records, its insert and its listing.
//! - `service`: the rules that lead from a submission to the refreshed
//!   listing, as one step function and as `submit` on a store in memory.
//! - `laws`: what holds of the service for every table and submission.
//! - `render`: the list fragment and the page.
//! - `error`: the error that a request can end in.
//! - `http`: status, content type and body of each response.

pub mod error;
pub mod http;
pub mod laws;
pub mod record;
pub mod render;
pub mod service;
pub mod store;
pub mod text;
pub mod validate;
