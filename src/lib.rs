//! Issue retrieval, filtering and estimate aggregation for a project-tracking
//! workspace: repository scoping, request construction, a filter over issues
//! with optional assignee and pipeline, and per-pipeline reports.

pub mod model;
pub mod filter;
pub mod scope;
pub mod request;
pub mod report;
