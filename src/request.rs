//! The addresses and headers of the requests made to the tracking service.
use vstd::prelude::*;
use crate::model::Repository;
use crate::scope::{first_occurrences, joined_decimals, repository_ids, scope_string};

verus! {

/// The fixed flags that accompany every issue query.
pub open spec fn issue_query_flags() -> Seq<char> {
    "&epics=1&estimates=1&connections=1&forceUpdate=0&pipelines=1&priorities=1&releases=1"@
}

/// Address of the current user's identity.
pub fn user_url(api_root: &str) -> (r: String)
    ensures
        r@ == api_root@ + "/v1/user"@,
{
    let mut url = String::from_str(api_root);
    url.append("/v1/user");
    url
}

/// Address of the GraphQL endpoint, which lists a workspace's repositories.
pub fn graphql_url(api_root: &str) -> (r: String)
    ensures
        r@ == api_root@ + "/v1/graphql"@,
{
    let mut url = String::from_str(api_root);
    url.append("/v1/graphql");
    url
}

/// Address of a workspace's board.
pub fn board_url(api_root: &str, workspace_id: &str) -> (r: String)
    ensures
        r@ == api_root@ + "/v5/workspaces/"@ + workspace_id@ + "/board"@,
{
    let mut url = String::from_str(api_root);
    url.append("/v5/workspaces/");
    url.append(workspace_id);
    url.append("/board");
    url
}

/// Address of the issues of a workspace, scoped to the distinct ids of
/// `repos` and with the fixed query flags.
pub fn issues_url(api_root: &str, workspace_id: &str, repos: &Vec<Repository>) -> (r: String)
    ensures
        r@ == api_root@ + "/v5/workspaces/"@ + workspace_id@ + "/issues?repo_ids="@
            + joined_decimals(first_occurrences(repository_ids(repos@))) + issue_query_flags(),
{
    let scope = scope_string(repos);
    let mut url = String::from_str(api_root);
    url.append("/v5/workspaces/");
    url.append(workspace_id);
    url.append("/issues?repo_ids=");
    url.append(scope.as_str());
    url.append("&epics=1&estimates=1&connections=1&forceUpdate=0&pipelines=1&priorities=1&releases=1");
    url
}

/// The headers of every request: the token, the agent and the content type,
/// as (name, value) pairs in that order.
pub fn zenhub_headers(api_token: &str, agent: &str) -> (r: Vec<(String, String)>)
    ensures
        r@.len() == 3,
        r@[0].0@ == "X-Authentication-Token"@,
        r@[0].1@ == api_token@,
        r@[1].0@ == "X-Zenhub-Agent"@,
        r@[1].1@ == agent@,
        r@[2].0@ == "Content-Type"@,
        r@[2].1@ == "application/json"@,
{
    let mut headers: Vec<(String, String)> = Vec::new();
    headers.push((String::from_str("X-Authentication-Token"), String::from_str(api_token)));
    headers.push((String::from_str("X-Zenhub-Agent"), String::from_str(agent)));
    headers.push((String::from_str("Content-Type"), String::from_str("application/json")));
    headers
}

} // verus!
