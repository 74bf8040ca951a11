//! Automatic call-outcome instrumentation.
//!
//! The crate wraps arbitrary callables, times them, classifies each call as a
//! success or an error, and folds one sample per call into an in-memory
//! registry of counters and duration buckets, which can be rendered as a
//! plain-text snapshot for a scraper.

pub mod handlers;
pub mod instrument;
pub mod outcome;
pub mod registry;
pub mod render;
