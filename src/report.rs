//! Per-pipeline reports: the matched issues with their aggregates and a title.
use vstd::prelude::*;
use crate::filter::{apply_filter, count_unestimated, matched_issues, sum_estimates, FilterOutcome};
use crate::model::{Filter, Issue};

verus! {

/// The title of a report built with `filter`.
pub open spec fn report_title(filter: Filter) -> Seq<char> {
    match filter.by_pipeline_name {
        Some(name) => name@,
        None => "Issues"@,
    }
}

/// The issues of one pipeline, with the sum of their estimates (in
/// thousandths of an hour) and the number of them without an estimate.
pub struct PipelineReport {
    pub title: String,
    pub issues: Vec<Issue>,
    pub total_estimate: u128,
    pub unestimated_count: usize,
}

/// Packs the outcome of filtering with `filter` into a report, titled with
/// the pipeline name of `filter` or, without one, with a generic label.
pub fn build_report(filter: &Filter, outcome: FilterOutcome) -> (r: PipelineReport)
    ensures
        r.title@ == report_title(*filter),
        r.issues@ == outcome.matched@,
        r.total_estimate == outcome.total_estimate,
        r.unestimated_count == outcome.unestimated_count,
{
    let title = match &filter.by_pipeline_name {
        Some(name) => name.clone(),
        None => String::from_str("Issues"),
    };
    PipelineReport {
        title,
        issues: outcome.matched,
        total_estimate: outcome.total_estimate,
        unestimated_count: outcome.unestimated_count,
    }
}

/// Filters a fetched issue list with `filter` and builds its report.
pub fn pipeline_report(issues: Vec<Issue>, filter: &Filter) -> (r: PipelineReport)
    ensures
        r.title@ == report_title(*filter),
        r.issues@ == matched_issues(issues@, *filter),
        r.total_estimate == sum_estimates(r.issues@),
        r.unestimated_count == count_unestimated(r.issues@),
{
    let outcome = apply_filter(issues, filter);
    build_report(filter, outcome)
}

} // verus!
