//! Records exchanged with the tracking service, and the issue filter.
use vstd::prelude::*;

verus! {

/// A source-control repository that belongs to a workspace.
#[derive(Clone, Debug)]
pub struct Repository {
    /// Repository id on the source-control host.
    pub id: u64,
    pub name: String,
    pub owner: String,
}

/// The user an issue is assigned to.
#[derive(Clone, Debug)]
pub struct Assignee {
    pub id: u64,
    pub login: String,
    pub html_url: Option<String>,
    pub avatar_url: Option<String>,
}

/// A label attached to an issue.
#[derive(Clone, Debug)]
pub struct Label {
    pub id: Option<u64>,
    pub name: String,
    pub color: Option<String>,
}

/// A milestone an issue belongs to.
#[derive(Clone, Debug)]
pub struct Milestone {
    pub id: u64,
    pub number: u64,
    pub title: String,
    pub state: String,
    pub due_on: Option<String>,
    pub updated_at: Option<String>,
}

/// A reference to an issue by repository and number.
#[derive(Clone, Debug)]
pub struct IssueRef {
    pub repo_id: u64,
    pub issue_number: u64,
}

/// A board column.
#[derive(Clone, Debug)]
pub struct Pipeline {
    pub id: String,
    pub name: String,
    pub description: Option<String>,
    pub issues: Option<Vec<IssueRef>>,
}

/// An issue of the workspace.
///
/// `estimate` is kept in thousandths of an hour; `None` means that the issue
/// is not estimated, which is not the same as an estimate of zero.
#[derive(Clone, Debug)]
pub struct Issue {
    pub assignee: Option<Assignee>,
    pub assignees: Vec<Assignee>,
    pub created_at: Option<String>,
    pub closed_at: Option<String>,
    pub updated_at: Option<String>,
    pub estimate: Option<u64>,
    pub html_url: String,
    pub is_epic: bool,
    pub labels: Vec<Label>,
    pub milestone: Option<Milestone>,
    pub number: Option<u32>,
    pub repo_name: String,
    pub organization_name: Option<String>,
    pub parent_epics: Vec<IssueRef>,
    pub state: String,
    pub title: String,
    pub user: Option<Assignee>,
    pub issue_number: u64,
    pub pipeline: Option<Pipeline>,
}

/// Which issues to keep: each field that is present must match exactly.
#[derive(Clone, Debug)]
pub struct Filter {
    /// Login of the assignee.
    pub by_assignee: Option<String>,
    /// Name of the pipeline.
    pub by_pipeline_name: Option<String>,
}

impl Filter {
    /// The filter that keeps every issue.
    pub fn empty() -> (f: Filter)
        ensures
            f.by_assignee is None,
            f.by_pipeline_name is None,
    {
        Filter { by_assignee: None, by_pipeline_name: None }
    }
}

} // verus!
