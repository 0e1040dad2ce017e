//! Freshness reporting for staged analysis pipelines.
//!
//! A pipeline run writes the output of each analysis stage into its own
//! directory. This library inventories the files of a stage, orders them by
//! modification time (newest first) and renders a short freshness summary.
//! Independently, it interprets the output of an external version-control
//! query so that a caller can resolve the most recent source revision as of
//! an instant, together with the number of revisions that landed later.

pub mod decimal;
pub mod experiment_structure;
pub mod file_status;
pub mod git_commits;
pub mod timestamp;
