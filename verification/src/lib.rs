//! History ingestion for a commit-graph heat map: per-commit diff statistics,
//! the commit walk that selects what to analyse, and the bookkeeping around
//! the incremental cache of results.

pub mod aggregate;
pub mod ancestry;
pub mod blob;
pub mod cache;
pub mod calendar;
pub mod churn;
pub mod cli;
pub mod dates;
pub mod details;
pub mod diffstats;
pub mod digits;
pub mod error;
pub mod export;
pub mod fetch;
pub mod heat;
pub mod history;
pub mod idset;
pub mod json;
pub mod linediff;
pub mod model;
pub mod number;
pub mod order;
pub mod period;
pub mod sorting;
pub mod strmap;
pub mod text;
pub mod tui;
pub mod util;
pub mod walker;
