//! The shapes that the upstream service sends and the record that is served.

use vstd::prelude::*;
use crate::time::Timestamp;

verus! {

/// A user's identity as the upstream service gives it.
#[derive(Clone, Debug, PartialEq, Eq)]
pub struct GithubUser {
    pub login: String,
    pub name: Option<String>,
    pub avatar_url: String,
    pub public_repos: u32,
    pub followers: u32,
    pub following: u32,
    pub bio: Option<String>,
}

/// One repository of the user.
#[derive(Clone, Debug, PartialEq, Eq)]
pub struct Repo {
    pub html_url: String,
    pub name: String,
    pub language: Option<String>,
    pub stargazers_count: u32,
    pub description: Option<String>,
    pub forks_count: u32,
    pub watchers_count: u32,
    pub topics: Vec<String>,
    pub updated_at: Timestamp,
}

/// One entry of the user's activity feed.
#[derive(Clone, Debug, PartialEq, Eq)]
pub struct Event {
    pub event_type: String,
    pub payload: Option<EventPayload>,
    pub created_at: Timestamp,
    pub repo: Option<EventRepo>,
}

/// The repository that an event belongs to.
#[derive(Clone, Debug, PartialEq, Eq)]
pub struct EventRepo {
    pub id: Option<u64>,
    pub name: String,
    pub url: Option<String>,
}

/// What an event carries; for a push, its commits.
#[derive(Clone, Debug, PartialEq, Eq)]
pub struct EventPayload {
    pub commits: Option<Vec<Commit>>,
}

#[derive(Clone, Debug, PartialEq, Eq)]
pub struct Commit {
    pub sha: String,
}

/// The answer to an issue search.
#[derive(Clone, Debug, PartialEq, Eq)]
pub struct SearchResult {
    pub total_count: u32,
    pub items: Vec<Issue>,
}

#[derive(Clone, Debug, PartialEq, Eq)]
pub struct Issue {
    pub html_url: String,
    pub repository_url: String,
}

/// One hit of a user search.
#[derive(Clone, Debug, PartialEq, Eq)]
pub struct GithubUserSearchItem {
    pub login: String,
    pub id: u64,
    pub avatar_url: String,
    pub html_url: String,
}

/// The answer to a user search.
#[derive(Clone, Debug, PartialEq, Eq)]
pub struct GithubUserSearchResult {
    pub items: Vec<GithubUserSearchItem>,
}

/// One line of the recent-activity list.
#[derive(Clone, Debug, PartialEq, Eq)]
pub struct Activity {
    pub event_type: String,
    pub repo_name: String,
    pub created_at: Timestamp,
    pub description: String,
}

/// The commits of one calendar day (`YYYY-MM-DD`, UTC).
#[derive(Clone, Debug, PartialEq, Eq)]
pub struct DayCount {
    pub day: String,
    pub commits: u32,
}

/// The unified record that is served for one user.
#[derive(Clone, Debug, PartialEq, Eq)]
pub struct UserResponse {
    pub username: String,
    pub name: Option<String>,
    pub avatar: String,
    pub public_repos: u32,
    pub repo_links: Vec<Repo>,
    pub commits_last_year: u32,
    pub verified_commits_last_year: u32,
    pub merged_pull_requests: u32,
    pub contributed_projects: Vec<String>,
    pub followers: u32,
    pub following: u32,
    pub bio: Option<String>,
    pub recent_activities: Vec<Activity>,
    pub contribution_graph: Vec<DayCount>,
}

} // verus!
