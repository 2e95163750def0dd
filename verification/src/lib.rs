//! Daily stand-up reporting: task references, business-day durations and the
//! plain-text report that is built from a day's pull requests.

pub mod database;
pub mod date;
pub mod error;
pub mod github_api;
pub mod pipeline;
pub mod schedule;
pub mod summary;
pub mod taskref;
pub mod text;
