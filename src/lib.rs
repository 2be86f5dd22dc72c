//! Turns load-test results into a Markdown report.
//!
//! The verified part of the pipeline: the data model of groups and checks,
//! format detection, framing and aggregation of event logs, timestamp
//! splitting, and the selection and ordering rules of the report. Sample
//! statistics and number formatting work on floating point and are left to
//! the caller.
pub mod model;
pub mod text;
pub mod detect;
pub mod events;
pub mod order;
pub mod report;
pub mod summary;
pub mod markdown;
