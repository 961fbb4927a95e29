//! Filtering issues and aggregating their estimates.
use vstd::prelude::*;
use crate::model::{Filter, Issue};

verus! {

/// Whether `issue` passes every predicate that `filter` holds. An issue
/// without an assignee (or pipeline) fails a predicate on that field.
pub open spec fn accepts(filter: Filter, issue: Issue) -> bool {
    &&& match filter.by_assignee {
        Some(login) => match issue.assignee {
            Some(a) => a.login@ == login@,
            None => false,
        },
        None => true,
    }
    &&& match filter.by_pipeline_name {
        Some(name) => match issue.pipeline {
            Some(p) => p.name@ == name@,
            None => false,
        },
        None => true,
    }
}

/// Decides `accepts(*filter, *issue)`.
pub fn issue_matches(issue: &Issue, filter: &Filter) -> (r: bool)
    ensures
        r == accepts(*filter, *issue),
{
    let assignee_ok = match &filter.by_assignee {
        Some(login) => match &issue.assignee {
            Some(a) => a.login == *login,
            None => false,
        },
        None => true,
    };
    let pipeline_ok = match &filter.by_pipeline_name {
        Some(name) => match &issue.pipeline {
            Some(p) => p.name == *name,
            None => false,
        },
        None => true,
    };
    assignee_ok && pipeline_ok
}

/// The issues of `issues` that `filter` accepts, in their original order.
pub open spec fn matched_issues(issues: Seq<Issue>, filter: Filter) -> Seq<Issue>
    decreases issues.len(),
{
    if issues.len() == 0 {
        Seq::empty()
    } else {
        let rest = matched_issues(issues.drop_last(), filter);
        if accepts(filter, issues.last()) {
            rest.push(issues.last())
        } else {
            rest
        }
    }
}

/// Sum of the estimates of the issues that have one.
pub open spec fn sum_estimates(issues: Seq<Issue>) -> nat
    decreases issues.len(),
{
    if issues.len() == 0 {
        0
    } else {
        sum_estimates(issues.drop_last()) + match issues.last().estimate {
            Some(e) => e as nat,
            None => 0,
        }
    }
}

/// Number of issues that have an estimate.
pub open spec fn count_estimated(issues: Seq<Issue>) -> nat
    decreases issues.len(),
{
    if issues.len() == 0 {
        0
    } else {
        count_estimated(issues.drop_last()) + if issues.last().estimate is Some {
            1nat
        } else {
            0nat
        }
    }
}

/// Number of issues that have no estimate.
pub open spec fn count_unestimated(issues: Seq<Issue>) -> nat
    decreases issues.len(),
{
    if issues.len() == 0 {
        0
    } else {
        count_unestimated(issues.drop_last()) + if issues.last().estimate is None {
            1nat
        } else {
            0nat
        }
    }
}

/// The issues that a filter kept, with the aggregates over them.
pub struct FilterOutcome {
    pub matched: Vec<Issue>,
    /// Sum of the estimates present among `matched`, in thousandths of an hour.
    pub total_estimate: u128,
    /// Number of issues in `matched` without an estimate.
    pub unestimated_count: usize,
}

/// `outcome` is what filtering `issues` with `filter` gives.
pub open spec fn is_outcome(issues: Seq<Issue>, filter: Filter, outcome: FilterOutcome) -> bool {
    &&& outcome.matched@ == matched_issues(issues, filter)
    &&& outcome.total_estimate == sum_estimates(outcome.matched@)
    &&& outcome.unestimated_count == count_unestimated(outcome.matched@)
}

proof fn lemma_sum_estimates_bound(issues: Seq<Issue>)
    ensures
        sum_estimates(issues) <= issues.len() * (u64::MAX as nat),
    decreases issues.len(),
{
    if issues.len() > 0 {
        lemma_sum_estimates_bound(issues.drop_last());
        let n = issues.len() as int;
        assert((n - 1) * (u64::MAX as int) + (u64::MAX as int) == n * (u64::MAX as int))
            by (nonlinear_arith);
    }
}

proof fn lemma_count_unestimated_bound(issues: Seq<Issue>)
    ensures
        count_unestimated(issues) <= issues.len(),
    decreases issues.len(),
{
    if issues.len() > 0 {
        lemma_count_unestimated_bound(issues.drop_last());
    }
}

proof fn lemma_matched_len_bound(issues: Seq<Issue>, filter: Filter)
    ensures
        matched_issues(issues, filter).len() <= issues.len(),
    decreases issues.len(),
{
    if issues.len() > 0 {
        lemma_matched_len_bound(issues.drop_last(), filter);
    }
}

/// Keeps the issues that `filter` accepts, in their order, and accumulates
/// the sum of their estimates and the number of them without one.
pub fn apply_filter(issues: Vec<Issue>, filter: &Filter) -> (r: FilterOutcome)
    ensures
        is_outcome(issues@, *filter, r),
{
    let ghost all = issues@;
    let n: usize = issues.len();
    let mut matched: Vec<Issue> = Vec::new();
    let mut total: u128 = 0;
    let mut unestimated: usize = 0;
    for issue in it: issues
        invariant
            it.seq() == all,
            all.len() == n,
            matched@ == matched_issues(all.take(it.index() as int), *filter),
            total == sum_estimates(matched@),
            unestimated == count_unestimated(matched@),
    {
        let ghost before = matched@;
        let ghost k = it.index() as int;
        assert(all.take(k + 1).drop_last() =~= all.take(k));
        assert(all.take(k + 1).last() == issue);
        if issue_matches(&issue, filter) {
            proof {
                lemma_matched_len_bound(all.take(k), *filter);
                lemma_sum_estimates_bound(before);
                lemma_count_unestimated_bound(before);
                let m = before.len() as int;
                assert(m < usize::MAX);
                let w = u64::MAX as int;
                assert(m * w + w <= (usize::MAX as int) * w) by (nonlinear_arith)
                    requires
                        m < usize::MAX,
                        w > 0,
                ;
                assert((usize::MAX as int) * w <= w * w) by (nonlinear_arith)
                    requires
                        usize::MAX <= w,
                        w > 0,
                ;
            }
            match issue.estimate {
                Some(e) => {
                    total = total + e as u128;
                },
                None => {
                    unestimated = unestimated + 1;
                },
            }
            matched.push(issue);
            assert(matched@.drop_last() =~= before);
        }
    }
    assert(all.take(all.len() as int) =~= all);
    FilterOutcome { matched, total_estimate: total, unestimated_count: unestimated }
}

/// Filtering is a function of its inputs: any two outcomes of the same
/// issues under the same filter agree on the matched list and on both
/// aggregates.
pub proof fn lemma_outcome_unique(
    issues: Seq<Issue>,
    filter: Filter,
    a: FilterOutcome,
    b: FilterOutcome,
)
    requires
        is_outcome(issues, filter, a),
        is_outcome(issues, filter, b),
    ensures
        a.matched@ == b.matched@,
        a.total_estimate == b.total_estimate,
        a.unestimated_count == b.unestimated_count,
{
}

/// Every issue either has an estimate or counts as unestimated: the matched
/// list is as long as the number of estimated issues plus the unestimated
/// count.
pub proof fn lemma_estimated_plus_unestimated(issues: Seq<Issue>)
    ensures
        issues.len() == count_estimated(issues) + count_unestimated(issues),
    decreases issues.len(),
{
    if issues.len() > 0 {
        lemma_estimated_plus_unestimated(issues.drop_last());
    }
}

/// A filter with neither predicate keeps every issue, in order.
pub proof fn lemma_empty_filter_keeps_all(issues: Seq<Issue>, filter: Filter)
    requires
        filter.by_assignee is None,
        filter.by_pipeline_name is None,
    ensures
        matched_issues(issues, filter) == issues,
    decreases issues.len(),
{
    if issues.len() > 0 {
        lemma_empty_filter_keeps_all(issues.drop_last(), filter);
        assert(issues.drop_last().push(issues.last()) =~= issues);
    }
}

/// Every issue that a filter keeps is accepted by it, and came from the input.
pub proof fn lemma_matched_accepted(issues: Seq<Issue>, filter: Filter)
    ensures
        forall|k: int|
            0 <= k < matched_issues(issues, filter).len() ==> {
                &&& accepts(filter, #[trigger] matched_issues(issues, filter)[k])
                &&& issues.contains(matched_issues(issues, filter)[k])
            },
    decreases issues.len(),
{
    if issues.len() > 0 {
        let rest = issues.drop_last();
        lemma_matched_accepted(rest, filter);
        assert forall|k: int| 0 <= k < matched_issues(issues, filter).len() implies {
            &&& accepts(filter, #[trigger] matched_issues(issues, filter)[k])
            &&& issues.contains(matched_issues(issues, filter)[k])
        } by {
            let m = matched_issues(rest, filter);
            if k < m.len() {
                let j = choose|j: int| 0 <= j < rest.len() && rest[j] == m[k];
                assert(issues[j] == m[k]);
            } else {
                assert(issues[issues.len() - 1] == issues.last());
            }
        }
    }
}

/// With an assignee predicate, no kept issue lacks an assignee or has one
/// whose login differs (case-sensitively) from the one asked for; so an
/// issue of that kind is never kept.
pub proof fn lemma_assignee_filter_excludes(issues: Seq<Issue>, filter: Filter, login: String)
    requires
        filter.by_assignee == Some(login),
    ensures
        forall|k: int|
            0 <= k < matched_issues(issues, filter).len() ==> {
                let i = #[trigger] matched_issues(issues, filter)[k];
                i.assignee is Some && i.assignee->0.login@ == login@
            },
        forall|i: Issue|
            (i.assignee is None || i.assignee->0.login@ != login@) ==> !(#[trigger] matched_issues(
                issues,
                filter,
            ).contains(i)),
{
    lemma_matched_accepted(issues, filter);
}

} // verus!
