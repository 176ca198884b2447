//! The staged fan-out that builds one user's record: the profile first, then
//! the repositories, the activity feed and the two searches. Each stage
//! holds what the earlier replies gave; a failed reply ends the build with
//! its failure, and nothing is left to issue a further call from.

use vstd::prelude::*;
use vstd::string::*;
use crate::analyzer::{analysis_of, analyze, commit_total, days_known, histogram_sum, Analysis};
use crate::fetcher::{
    interpret, outcome, Failure, FailureView, Reply, ResponseHead, UpstreamCall, UpstreamError,
};
use crate::gateway::{address, request_url};
use crate::models::{
    Event, GithubUser, GithubUserSearchItem, GithubUserSearchResult, Issue, Repo, SearchResult,
    UserResponse,
};
use crate::text::same_text;
use crate::time::Timestamp;

verus! {

/// The address of a project's page, from the address under which the
/// upstream service files the project: the service's prefix gives way to
/// the public one, and any other address stays as it is.
pub open spec fn public_url(url: Seq<char>) -> Seq<char> {
    let api = "https://api.github.com/repos/"@;
    if url.len() >= api.len() && url.subrange(0, api.len() as int) == api {
        "https://github.com/"@ + url.subrange(api.len() as int, url.len() as int)
    } else {
        url
    }
}

/// The public addresses of the projects that `items` name, each once, in
/// the order in which they first occur.
pub open spec fn distinct_projects(items: Seq<Issue>) -> Seq<Seq<char>>
    decreases items.len(),
{
    if items.len() == 0 {
        Seq::<Seq<char>>::empty()
    } else {
        let rest = distinct_projects(items.drop_last());
        let p = public_url(items.last().repository_url@);
        if rest.contains(p) {
            rest
        } else {
            rest.push(p)
        }
    }
}

/// The texts of `v`, in order.
pub open spec fn texts(v: Seq<String>) -> Seq<Seq<char>> {
    v.map_values(|s: String| s@)
}

/// The record that the five replies add up to.
pub open spec fn merged(
    user: GithubUser,
    repos: Vec<Repo>,
    analysis: Analysis,
    merged_pull_requests: u32,
    projects: Vec<String>,
) -> UserResponse {
    UserResponse {
        username: user.login,
        name: user.name,
        avatar: user.avatar_url,
        public_repos: user.public_repos,
        repo_links: repos,
        commits_last_year: analysis.commits_last_year,
        verified_commits_last_year: analysis.verified_commits_last_year,
        merged_pull_requests,
        contributed_projects: projects,
        followers: user.followers,
        following: user.following,
        bio: user.bio,
        recent_activities: analysis.activities,
        contribution_graph: analysis.histogram,
    }
}

/// Every project that an issue names is listed, nothing else is, and no
/// address is listed twice.
pub proof fn lemma_distinct_projects(items: Seq<Issue>)
    ensures
        distinct_projects(items).no_duplicates(),
        forall|p: Seq<char>|
            distinct_projects(items).contains(p) <==> exists|i: int|
                0 <= i < items.len() && public_url(#[trigger] items[i].repository_url@) == p,
    decreases items.len(),
{
    let out = distinct_projects(items);
    if items.len() > 0 {
        let front = items.drop_last();
        let rest = distinct_projects(front);
        let last = public_url(items.last().repository_url@);
        lemma_distinct_projects(front);
        assert forall|p: Seq<char>| out.contains(p) <==> exists|i: int|
            0 <= i < items.len() && public_url(#[trigger] items[i].repository_url@) == p by {
            if out.contains(p) {
                if rest.contains(p) {
                    let i = choose|i: int|
                        0 <= i < front.len() && public_url(#[trigger] front[i].repository_url@) == p;
                    assert(items[i] == front[i]);
                } else {
                    let k = choose|k: int| 0 <= k < out.len() && out[k] == p;
                    assert(p == last);
                    assert(items[items.len() - 1] == items.last());
                }
            }
            if exists|i: int|
                0 <= i < items.len() && public_url(#[trigger] items[i].repository_url@) == p {
                let i = choose|i: int|
                    0 <= i < items.len() && public_url(#[trigger] items[i].repository_url@) == p;
                if i < front.len() {
                    assert(front[i] == items[i]);
                    assert(rest.contains(p));
                    let k = choose|k: int| 0 <= k < rest.len() && rest[k] == p;
                    assert(out[k] == p);
                } else {
                    assert(p == last);
                    if !rest.contains(p) {
                        assert(out[out.len() - 1] == p);
                    }
                }
            }
        }
    }
}

/// Two issues that name one project leave its public address in the list
/// exactly once.
pub proof fn law_project_listed_once(items: Seq<Issue>, i: int, j: int)
    requires
        0 <= i < items.len(),
        0 <= j < items.len(),
        public_url(items[i].repository_url@) == public_url(items[j].repository_url@),
    ensures
        distinct_projects(items).contains(public_url(items[i].repository_url@)),
        distinct_projects(items).no_duplicates(),
        forall|a: int, b: int|
            0 <= a < distinct_projects(items).len() && 0 <= b < distinct_projects(items).len()
                && distinct_projects(items)[a] == public_url(items[i].repository_url@)
                && distinct_projects(items)[b] == public_url(items[j].repository_url@) ==> a == b,
{
    lemma_distinct_projects(items);
}

/// The address of a project's page, from the address under which the
/// upstream service files it.
pub fn to_public_url(url: &String) -> (r: String)
    ensures
        r@ == public_url(url@),
{
    let api = "https://api.github.com/repos/";
    let n = api.unicode_len();
    let len = url.as_str().unicode_len();
    if len >= n {
        let head = String::from_str(url.as_str().substring_char(0, n));
        if same_text(&head, api) {
            let mut out = String::from_str("https://github.com/");
            out.append(url.as_str().substring_char(n, len));
            return out;
        }
    }
    url.clone()
}

/// Whether `list` holds the text `p`.
pub fn holds_text(list: &Vec<String>, p: &String) -> (r: bool)
    ensures
        r == texts(list@).contains(p@),
{
    let mut k: usize = 0;
    while k < list.len()
        invariant
            k <= list.len(),
            forall|i: int| 0 <= i < k ==> texts(list@)[i] != p@,
        decreases list.len() - k,
    {
        if list[k] == *p {
            assert(texts(list@)[k as int] == p@);
            return true;
        }
        k += 1;
    }
    false
}

/// The public addresses of the projects that `items` name, each once, in
/// the order in which they first occur.
pub fn contributed_projects(items: &Vec<Issue>) -> (r: Vec<String>)
    ensures
        texts(r@) == distinct_projects(items@),
        texts(r@).no_duplicates(),
        forall|p: Seq<char>|
            texts(r@).contains(p) <==> exists|i: int|
                0 <= i < items@.len() && public_url(#[trigger] items@[i].repository_url@) == p,
{
    let mut out: Vec<String> = Vec::new();
    let mut i: usize = 0;
    assert(texts(out@) =~= distinct_projects(items@.take(0)));
    while i < items.len()
        invariant
            i <= items.len(),
            texts(out@) == distinct_projects(items@.take(i as int)),
        decreases items.len() - i,
    {
        let p = to_public_url(&items[i].repository_url);
        proof {
            assert(items@.take(i as int + 1).drop_last() =~= items@.take(i as int));
            assert(items@.take(i as int + 1).last() == items@[i as int]);
        }
        if !holds_text(&out, &p) {
            let ghost before = out@;
            out.push(p);
            assert(texts(out@) =~= texts(before).push(p@));
        }
        i += 1;
    }
    proof {
        assert(items@.take(i as int) =~= items@);
        lemma_distinct_projects(items@);
    }
    out
}

/// The build before any reply: the profile is asked for.
#[derive(Debug)]
pub struct ProfileStage {
    pub username: String,
}

/// The profile is in: the repositories are asked for.
#[derive(Debug)]
pub struct ReposStage {
    pub username: String,
    pub user: GithubUser,
}

/// The repositories are in: the activity feed is asked for.
#[derive(Debug)]
pub struct EventsStage {
    pub username: String,
    pub user: GithubUser,
    pub repos: Vec<Repo>,
}

/// The feed is in and analysed: the merged pull requests are asked for.
#[derive(Debug)]
pub struct PullRequestsStage {
    pub username: String,
    pub user: GithubUser,
    pub repos: Vec<Repo>,
    pub analysis: Analysis,
}

/// The pull requests are counted: the contributions are asked for.
#[derive(Debug)]
pub struct ContributionsStage {
    pub username: String,
    pub user: GithubUser,
    pub repos: Vec<Repo>,
    pub analysis: Analysis,
    pub merged_pull_requests: u32,
}

/// Starts the build of `username`'s record.
pub fn begin(username: String) -> (s: ProfileStage)
    ensures
        s.username == username,
{
    ProfileStage { username }
}

impl ProfileStage {
    /// The address to ask next.
    pub fn url(&self) -> (r: String)
        ensures
            r@ == address(UpstreamCall::Profile, self.username@),
    {
        request_url(UpstreamCall::Profile, self.username.as_str())
    }

    /// Takes the reply to the profile call. A failure, `NotFound` for an
    /// unknown user among them, ends the build: no stage comes back from
    /// which a further call could be issued.
    pub fn receive(self, reply: Reply<GithubUser>) -> (r: Result<ReposStage, Failure>)
        ensures
            match r {
                Ok(next) => outcome(UpstreamCall::Profile, reply) == Ok::<GithubUser, FailureView>(
                    next.user,
                ) && next.username == self.username,
                Err(f) => outcome(UpstreamCall::Profile, reply) == Err::<GithubUser, FailureView>(
                    f@,
                ),
            },
    {
        match interpret(UpstreamCall::Profile, reply) {
            Ok(user) => Ok(ReposStage { username: self.username, user }),
            Err(f) => Err(f),
        }
    }
}

impl ReposStage {
    /// The address to ask next.
    pub fn url(&self) -> (r: String)
        ensures
            r@ == address(UpstreamCall::Repos, self.username@),
    {
        request_url(UpstreamCall::Repos, self.username.as_str())
    }

    /// Takes the reply to the repository call.
    pub fn receive(self, reply: Reply<Vec<Repo>>) -> (r: Result<EventsStage, Failure>)
        ensures
            match r {
                Ok(next) => outcome(UpstreamCall::Repos, reply) == Ok::<Vec<Repo>, FailureView>(
                    next.repos,
                ) && next.username == self.username && next.user == self.user,
                Err(f) => outcome(UpstreamCall::Repos, reply) == Err::<Vec<Repo>, FailureView>(f@),
            },
    {
        match interpret(UpstreamCall::Repos, reply) {
            Ok(repos) => Ok(EventsStage { username: self.username, user: self.user, repos }),
            Err(f) => Err(f),
        }
    }
}

/// The feed can be analysed at `now`: the calendar can express the day of
/// every push that counts, and the year's commits fit the counter.
pub open spec fn feed_accepted(events: Seq<Event>, now: Timestamp) -> bool {
    days_known(events, now) && commit_total(events, now) <= u32::MAX
}

impl EventsStage {
    /// The address to ask next.
    pub fn url(&self) -> (r: String)
        ensures
            r@ == address(UpstreamCall::Events, self.username@),
    {
        request_url(UpstreamCall::Events, self.username.as_str())
    }

    /// Takes the reply to the feed call and analyses the feed as of `now`.
    /// A feed that cannot be analysed is a malformed body.
    pub fn receive(self, reply: Reply<Vec<Event>>, now: &Timestamp) -> (r: Result<
        PullRequestsStage,
        Failure,
    >)
        ensures
            match outcome(UpstreamCall::Events, reply) {
                Ok(events) => if feed_accepted(events@, *now) {
                    &&& r matches Ok(next)
                    &&& analysis_of(next.analysis, events@, *now)
                    &&& histogram_sum(next.analysis.histogram@) == next.analysis.commits_last_year
                    &&& next.username == self.username
                    &&& next.user == self.user
                    &&& next.repos == self.repos
                } else {
                    r matches Err(f) && f@ == FailureView::Upstream(
                        UpstreamCall::Events,
                        UpstreamError::MalformedBody,
                    )
                },
                Err(v) => r matches Err(f) && f@ == v,
            },
    {
        match interpret(UpstreamCall::Events, reply) {
            Ok(events) => match analyze(&events, now) {
                Some(analysis) => Ok(
                    PullRequestsStage {
                        username: self.username,
                        user: self.user,
                        repos: self.repos,
                        analysis,
                    },
                ),
                None => Err(Failure::Upstream(UpstreamCall::Events, UpstreamError::MalformedBody)),
            },
            Err(f) => Err(f),
        }
    }
}

impl PullRequestsStage {
    /// The address to ask next.
    pub fn url(&self) -> (r: String)
        ensures
            r@ == address(UpstreamCall::MergedPullRequests, self.username@),
    {
        request_url(UpstreamCall::MergedPullRequests, self.username.as_str())
    }

    /// Takes the reply to the search for merged pull requests and keeps its
    /// count.
    pub fn receive(self, reply: Reply<SearchResult>) -> (r: Result<ContributionsStage, Failure>)
        ensures
            match outcome(UpstreamCall::MergedPullRequests, reply) {
                Ok(found) => {
                    &&& r matches Ok(next)
                    &&& next.merged_pull_requests == found.total_count
                    &&& next.username == self.username
                    &&& next.user == self.user
                    &&& next.repos == self.repos
                    &&& next.analysis == self.analysis
                },
                Err(v) => r matches Err(f) && f@ == v,
            },
    {
        match interpret(UpstreamCall::MergedPullRequests, reply) {
            Ok(found) => Ok(
                ContributionsStage {
                    username: self.username,
                    user: self.user,
                    repos: self.repos,
                    analysis: self.analysis,
                    merged_pull_requests: found.total_count,
                },
            ),
            Err(f) => Err(f),
        }
    }
}

impl ContributionsStage {
    /// The address to ask next.
    pub fn url(&self) -> (r: String)
        ensures
            r@ == address(UpstreamCall::Contributions, self.username@),
    {
        request_url(UpstreamCall::Contributions, self.username.as_str())
    }

    /// Takes the reply to the contribution search and assembles the record.
    pub fn receive(self, reply: Reply<SearchResult>) -> (r: Result<UserResponse, Failure>)
        ensures
            match outcome(UpstreamCall::Contributions, reply) {
                Ok(found) => {
                    &&& r matches Ok(record)
                    &&& record == merged(
                        self.user,
                        self.repos,
                        self.analysis,
                        self.merged_pull_requests,
                        record.contributed_projects,
                    )
                    &&& texts(record.contributed_projects@) == distinct_projects(found.items@)
                },
                Err(v) => r matches Err(f) && f@ == v,
            },
    {
        match interpret(UpstreamCall::Contributions, reply) {
            Ok(found) => {
                let projects = contributed_projects(&found.items);
                Ok(
                    assemble(
                        self.user,
                        self.repos,
                        self.analysis,
                        self.merged_pull_requests,
                        projects,
                    ),
                )
            },
            Err(f) => Err(f),
        }
    }
}

/// Puts the parts of a record together.
pub fn assemble(
    user: GithubUser,
    repos: Vec<Repo>,
    analysis: Analysis,
    merged_pull_requests: u32,
    projects: Vec<String>,
) -> (r: UserResponse)
    ensures
        r == merged(user, repos, analysis, merged_pull_requests, projects),
{
    UserResponse {
        username: user.login,
        name: user.name,
        avatar: user.avatar_url,
        public_repos: user.public_repos,
        repo_links: repos,
        commits_last_year: analysis.commits_last_year,
        verified_commits_last_year: analysis.verified_commits_last_year,
        merged_pull_requests,
        contributed_projects: projects,
        followers: user.followers,
        following: user.following,
        bio: user.bio,
        recent_activities: analysis.activities,
        contribution_graph: analysis.histogram,
    }
}

/// The address of the user search for `query`.
pub fn search_url(query: &str) -> (r: String)
    ensures
        r@ == address(UpstreamCall::UserSearch, query@),
{
    request_url(UpstreamCall::UserSearch, query)
}

/// What the reply to a user search amounts to: its hits, or the failure.
pub fn search_outcome(reply: Reply<GithubUserSearchResult>) -> (r: Result<
    Vec<GithubUserSearchItem>,
    Failure,
>)
    ensures
        match outcome(UpstreamCall::UserSearch, reply) {
            Ok(found) => r == Ok::<Vec<GithubUserSearchItem>, Failure>(found.items),
            Err(v) => r matches Err(f) && f@ == v,
        },
{
    match interpret(UpstreamCall::UserSearch, reply) {
        Ok(found) => Ok(found.items),
        Err(f) => Err(f),
    }
}

/// A profile reply with status 404 ends the build with `NotFound`, and
/// leaves no stage from which the other four calls could be issued.
pub proof fn law_unknown_user(head: ResponseHead, body: Option<GithubUser>)
    requires
        head.status == 404,
    ensures
        outcome(UpstreamCall::Profile, Reply::Response { head, body }) == Err::<
            GithubUser,
            FailureView,
        >(FailureView::NotFound),
{
}

} // verus!
