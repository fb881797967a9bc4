//! Issue statistics: classification of issues by label, bucketing of their
//! lifecycle events into periods, running totals across periods, and the
//! decisions of a paginated fetch that keeps every page in a local cache.

pub mod category;
pub mod time;
pub mod models;
pub mod issue;
pub mod aggregate;
pub mod fetch;
