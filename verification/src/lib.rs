//! Flags repositories whose recent activity is dominated by a single
//! contributor: one whose churn (added plus deleted lines) is at least 75%
//! of the combined churn of the repository's top 25 contributors.
//!
//! The crate holds the computational core: aggregation of raw weekly
//! activity into ranked totals, the threshold rule, the classification of
//! API responses, and the state machine that merges the outcomes of the
//! per-repository pipelines. The network calls themselves live outside.

pub mod aggregator;
pub mod error;
pub mod fetcher;
pub mod filter;
pub mod orchestrator;
pub mod responses;

pub use aggregator::{aggregate, AggregatedRepo, Contribution};
pub use error::Error;
pub use fetcher::{check_body, check_status};
pub use filter::{filter, RepoWithMvp};
pub use orchestrator::{run_pipeline, MergeState, PipelineOutcome};
pub use responses::{ContributorResponse, RepoResponse, UserResponse, WeeklyCommitsResponse};
