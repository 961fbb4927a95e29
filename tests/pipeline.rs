use zenhub::filter::apply_filter;
use zenhub::model::{Assignee, Filter, Issue, Pipeline, Repository};
use zenhub::report::{build_report, pipeline_report};

fn issue(number: u64, estimate: Option<u64>, assignee: Option<&str>, pipeline: Option<&str>) -> Issue {
    Issue {
        assignee: assignee.map(|login| Assignee {
            id: 1,
            login: login.to_string(),
            html_url: None,
            avatar_url: None,
        }),
        assignees: Vec::new(),
        created_at: None,
        closed_at: None,
        updated_at: None,
        estimate,
        html_url: String::new(),
        is_epic: false,
        labels: Vec::new(),
        milestone: None,
        number: None,
        repo_name: "repo".to_string(),
        organization_name: None,
        parent_epics: Vec::new(),
        state: "open".to_string(),
        title: format!("issue {}", number),
        user: None,
        issue_number: number,
        pipeline: pipeline.map(|name| Pipeline {
            id: "p".to_string(),
            name: name.to_string(),
            description: None,
            issues: None,
        }),
    }
}

fn filter(by_assignee: Option<&str>, by_pipeline_name: Option<&str>) -> Filter {
    Filter {
        by_assignee: by_assignee.map(|s| s.to_string()),
        by_pipeline_name: by_pipeline_name.map(|s| s.to_string()),
    }
}

fn numbers(issues: &[Issue]) -> Vec<u64> {
    issues.iter().map(|i| i.issue_number).collect()
}

#[test]
fn alice_backlog_scenario() {
    let issues = vec![
        issue(1, Some(2500), Some("alice"), Some("Backlog")),
        issue(2, None, Some("alice"), Some("Backlog")),
        issue(3, Some(1000), Some("bob"), Some("Backlog")),
    ];
    let r = apply_filter(issues, &filter(Some("alice"), Some("Backlog")));
    assert_eq!(numbers(&r.matched), vec![1, 2]);
    assert_eq!(r.total_estimate, 2500);
    assert_eq!(r.unestimated_count, 1);
}

#[test]
fn pipeline_filter_excludes_issue_without_pipeline() {
    let issues = vec![issue(1, Some(3000), Some("alice"), None)];
    let r = apply_filter(issues, &filter(None, Some("Done")));
    assert!(r.matched.is_empty());
    assert_eq!(r.total_estimate, 0);
    assert_eq!(r.unestimated_count, 0);
}

#[test]
fn pipeline_filter_is_exact() {
    let issues = vec![
        issue(1, None, None, Some("Done")),
        issue(2, None, None, Some("done")),
        issue(3, None, None, Some("Done ")),
    ];
    let r = apply_filter(issues, &filter(None, Some("Done")));
    assert_eq!(numbers(&r.matched), vec![1]);
    assert_eq!(r.unestimated_count, 1);
}

#[test]
fn empty_filter_keeps_every_issue_in_order() {
    let issues = vec![
        issue(7, Some(1500), None, None),
        issue(3, None, Some("bob"), Some("Backlog")),
        issue(5, Some(0), Some("alice"), None),
    ];
    let r = apply_filter(issues, &Filter::empty());
    assert_eq!(numbers(&r.matched), vec![7, 3, 5]);
    assert_eq!(r.total_estimate, 1500);
    assert_eq!(r.unestimated_count, 1);
}

#[test]
fn assignee_filter_is_case_sensitive() {
    let issues = vec![
        issue(1, Some(1000), Some("Alice"), None),
        issue(2, Some(2000), None, None),
        issue(3, Some(4000), Some("alice"), None),
        issue(4, Some(8000), Some("alicex"), None),
    ];
    let r = apply_filter(issues, &filter(Some("alice"), None));
    assert_eq!(numbers(&r.matched), vec![3]);
    assert_eq!(r.total_estimate, 4000);
    assert_eq!(r.unestimated_count, 0);
}

#[test]
fn aggregates_split_matched_issues() {
    let issues = vec![
        issue(1, Some(0), None, Some("Backlog")),
        issue(2, None, None, Some("Backlog")),
        issue(3, Some(1250), None, Some("Backlog")),
        issue(4, None, None, Some("Backlog")),
        issue(5, Some(99), None, Some("Review")),
    ];
    let r = apply_filter(issues, &filter(None, Some("Backlog")));
    assert_eq!(r.total_estimate, 1250);
    assert_eq!(r.unestimated_count, 2);
    let estimated = r.matched.iter().filter(|i| i.estimate.is_some()).count();
    assert_eq!(r.matched.len(), estimated + r.unestimated_count);
}

#[test]
fn largest_estimates_do_not_overflow() {
    let issues = vec![issue(1, Some(u64::MAX), None, None), issue(2, Some(u64::MAX), None, None)];
    let r = apply_filter(issues, &Filter::empty());
    assert_eq!(r.total_estimate, 2 * (u64::MAX as u128));
}

#[test]
fn empty_issue_list_gives_zero_aggregates() {
    let r = apply_filter(Vec::new(), &filter(Some("alice"), Some("Backlog")));
    assert!(r.matched.is_empty());
    assert_eq!(r.total_estimate, 0);
    assert_eq!(r.unestimated_count, 0);
}

#[test]
fn filtering_is_repeatable() {
    let make = || {
        vec![
            issue(1, Some(500), Some("alice"), Some("Backlog")),
            issue(2, None, Some("bob"), Some("Backlog")),
            issue(3, None, Some("alice"), Some("Backlog")),
        ]
    };
    let f = filter(Some("alice"), None);
    let a = apply_filter(make(), &f);
    let b = apply_filter(make(), &f);
    assert_eq!(numbers(&a.matched), numbers(&b.matched));
    assert_eq!(a.total_estimate, b.total_estimate);
    assert_eq!(a.unestimated_count, b.unestimated_count);
}

#[test]
fn report_title_is_pipeline_name_even_without_matches() {
    let f = filter(Some("alice"), Some("In Progress"));
    let r = pipeline_report(vec![issue(1, None, Some("bob"), Some("In Progress"))], &f);
    assert_eq!(r.title, "In Progress");
    assert!(r.issues.is_empty());
    assert_eq!(r.total_estimate, 0);
    assert_eq!(r.unestimated_count, 0);
}

#[test]
fn report_title_defaults_to_generic_label() {
    let f = filter(Some("alice"), None);
    let outcome = apply_filter(vec![issue(1, Some(2000), Some("alice"), None)], &f);
    let r = build_report(&f, outcome);
    assert_eq!(r.title, "Issues");
    assert_eq!(numbers(&r.issues), vec![1]);
    assert_eq!(r.total_estimate, 2000);
}

#[test]
fn pipeline_report_aggregates_matches() {
    let f = filter(Some("alice"), Some("Backlog"));
    let issues = vec![
        issue(1, Some(2500), Some("alice"), Some("Backlog")),
        issue(2, None, Some("alice"), Some("Backlog")),
        issue(3, Some(1000), Some("alice"), Some("Done")),
    ];
    let r = pipeline_report(issues, &f);
    assert_eq!(r.title, "Backlog");
    assert_eq!(numbers(&r.issues), vec![1, 2]);
    assert_eq!(r.total_estimate, 2500);
    assert_eq!(r.unestimated_count, 1);
}

#[test]
fn repository_record_keeps_its_fields() {
    let r = Repository { id: 3, name: "api".to_string(), owner: "acme".to_string() };
    assert_eq!(r.id, 3);
    assert_eq!(r.name, "api");
}
