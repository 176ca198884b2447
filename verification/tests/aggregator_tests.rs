use github_user::aggregator::{
    assemble, begin, contributed_projects, holds_text, search_outcome, search_url, to_public_url,
};
use github_user::analyzer::analyze;
use github_user::fetcher::{Failure, Reply, ResponseHead, UpstreamCall, UpstreamError};
use github_user::models::{
    Commit, DayCount, Event, EventPayload, EventRepo, GithubUser, GithubUserSearchItem,
    GithubUserSearchResult, Issue, Repo, SearchResult,
};
use github_user::time::Timestamp;

fn ok<T>(body: T) -> Reply<T> {
    Reply::Response { head: ResponseHead { status: 200, remaining: None, reset: None }, body: Some(body) }
}

fn status<T>(code: u16) -> Reply<T> {
    Reply::Response { head: ResponseHead { status: code, remaining: None, reset: None }, body: None }
}

fn user() -> GithubUser {
    GithubUser {
        login: "OctoCat".to_string(),
        name: Some("The Octocat".to_string()),
        avatar_url: "https://avatars.example/1".to_string(),
        public_repos: 8,
        followers: 20,
        following: 9,
        bio: None,
    }
}

fn repo(name: &str) -> Repo {
    Repo {
        html_url: format!("https://github.com/OctoCat/{}", name),
        name: name.to_string(),
        language: Some("Rust".to_string()),
        stargazers_count: 3,
        description: None,
        forks_count: 1,
        watchers_count: 3,
        topics: vec!["cli".to_string()],
        updated_at: Timestamp::new(1_700_000_000, 0),
    }
}

fn push(secs: i64, n: usize) -> Event {
    Event {
        event_type: "PushEvent".to_string(),
        payload: Some(EventPayload {
            commits: Some((0..n).map(|i| Commit { sha: i.to_string() }).collect()),
        }),
        created_at: Timestamp::new(secs, 0),
        repo: Some(EventRepo { id: None, name: "OctoCat/hello".to_string(), url: None }),
    }
}

fn issue(repository_url: &str) -> Issue {
    Issue { html_url: "https://github.com/x/y/issues/1".to_string(), repository_url: repository_url.to_string() }
}

#[test]
fn api_prefix_becomes_the_public_one() {
    assert_eq!(
        to_public_url(&"https://api.github.com/repos/rust-lang/rust".to_string()),
        "https://github.com/rust-lang/rust"
    );
    assert_eq!(to_public_url(&"https://api.github.com/repos/".to_string()), "https://github.com/");
    assert_eq!(
        to_public_url(&"https://example.org/repos/a/b".to_string()),
        "https://example.org/repos/a/b"
    );
    assert_eq!(to_public_url(&"https://api.github.com/repos".to_string()), "https://api.github.com/repos");
    assert_eq!(to_public_url(&"".to_string()), "");
    assert_eq!(
        to_public_url(&"x https://api.github.com/repos/a/b".to_string()),
        "x https://api.github.com/repos/a/b"
    );
    assert_eq!(
        to_public_url(&"https://api.github.com/repos/é/ü".to_string()),
        "https://github.com/é/ü"
    );
}

#[test]
fn a_project_named_twice_is_listed_once() {
    let items = vec![
        issue("https://api.github.com/repos/a/one"),
        issue("https://api.github.com/repos/b/two"),
        issue("https://api.github.com/repos/a/one"),
        issue("https://github.com/b/two"),
        issue("https://api.github.com/repos/c/three"),
    ];
    assert_eq!(
        contributed_projects(&items),
        vec![
            "https://github.com/a/one".to_string(),
            "https://github.com/b/two".to_string(),
            "https://github.com/c/three".to_string(),
        ]
    );
    assert!(contributed_projects(&Vec::new()).is_empty());
}

#[test]
fn holds_text_finds_what_is_there() {
    let list = vec!["a".to_string(), "b".to_string()];
    assert!(holds_text(&list, &"b".to_string()));
    assert!(!holds_text(&list, &"c".to_string()));
    assert!(!holds_text(&Vec::new(), &"a".to_string()));
}

#[test]
fn an_unknown_user_ends_the_build_at_once() {
    let stage = begin("nobody-here".to_string());
    assert_eq!(stage.url(), "https://api.github.com/users/nobody-here");
    let r = stage.receive(status(404));
    assert_eq!(r.err(), Some(Failure::NotFound));
}

#[test]
fn a_full_build_merges_the_five_replies() {
    let now = Timestamp::new(1_705_320_000, 0);
    let s1 = begin("octocat".to_string());
    let s2 = s1.receive(ok(user())).unwrap();
    assert_eq!(s2.url(), "https://api.github.com/users/octocat/repos");
    let s3 = s2.receive(ok(vec![repo("hello"), repo("world")])).unwrap();
    assert_eq!(s3.url(), "https://api.github.com/users/octocat/events");
    let s4 = s3.receive(ok(vec![push(1_705_276_800, 2), push(1_705_276_900, 1)]), &now).unwrap();
    assert_eq!(s4.url(), "https://api.github.com/search/issues?q=author:octocat+type:pr+is:merged");
    let s5 = s4.receive(ok(SearchResult { total_count: 17, items: Vec::new() })).unwrap();
    assert_eq!(s5.url(), "https://api.github.com/search/issues?q=involves:octocat");
    let found = SearchResult {
        total_count: 2,
        items: vec![
            issue("https://api.github.com/repos/a/one"),
            issue("https://api.github.com/repos/a/one"),
        ],
    };
    let record = s5.receive(ok(found)).unwrap();
    assert_eq!(record.username, "OctoCat");
    assert_eq!(record.name, Some("The Octocat".to_string()));
    assert_eq!(record.avatar, "https://avatars.example/1");
    assert_eq!(record.public_repos, 8);
    assert_eq!(record.followers, 20);
    assert_eq!(record.following, 9);
    assert_eq!(record.bio, None);
    assert_eq!(record.repo_links, vec![repo("hello"), repo("world")]);
    assert_eq!(record.commits_last_year, 3);
    assert_eq!(record.verified_commits_last_year, 3);
    assert_eq!(record.merged_pull_requests, 17);
    assert_eq!(record.contributed_projects, vec!["https://github.com/a/one".to_string()]);
    assert_eq!(record.contribution_graph, vec![DayCount { day: "2024-01-15".to_string(), commits: 3 }]);
    assert_eq!(record.recent_activities.len(), 2);
    assert_eq!(record.recent_activities[0].description, "Pushed 2 commit(s)");
    assert_eq!(record.recent_activities[0].repo_name, "OctoCat/hello");
}

#[test]
fn any_failed_call_ends_the_build_with_its_failure() {
    let now = Timestamp::new(1_705_320_000, 0);
    let s2 = begin("octocat".to_string()).receive(ok(user())).unwrap();
    assert_eq!(
        s2.receive(status(500)).err(),
        Some(Failure::Upstream(UpstreamCall::Repos, UpstreamError::BadStatus(500)))
    );
    let s3 = begin("octocat".to_string()).receive(ok(user())).unwrap().receive(ok(Vec::new())).unwrap();
    assert_eq!(
        s3.receive(Reply::Unreachable, &now).err(),
        Some(Failure::Upstream(UpstreamCall::Events, UpstreamError::Unreachable))
    );
    let s3 = begin("octocat".to_string()).receive(ok(user())).unwrap().receive(ok(Vec::new())).unwrap();
    assert_eq!(
        s3.receive(ok(vec![push(i64::MAX, 1)]), &now).err(),
        Some(Failure::Upstream(UpstreamCall::Events, UpstreamError::MalformedBody))
    );
    let s4 = begin("octocat".to_string())
        .receive(ok(user()))
        .unwrap()
        .receive(ok(Vec::new()))
        .unwrap()
        .receive(ok(Vec::new()), &now)
        .unwrap();
    assert_eq!(
        s4.receive(status(200)).err(),
        Some(Failure::Upstream(UpstreamCall::MergedPullRequests, UpstreamError::MalformedBody))
    );
    let s5 = begin("octocat".to_string())
        .receive(ok(user()))
        .unwrap()
        .receive(ok(Vec::new()))
        .unwrap()
        .receive(ok(Vec::new()), &now)
        .unwrap()
        .receive(ok(SearchResult { total_count: 0, items: Vec::new() }))
        .unwrap();
    let throttled = Reply::Response {
        head: ResponseHead {
            status: 403,
            remaining: Some("0".to_string()),
            reset: Some("1609459200".to_string()),
        },
        body: None,
    };
    assert_eq!(
        s5.receive(throttled).err(),
        Some(Failure::RateLimited("2021-01-01 00:00:00 UTC".to_string()))
    );
}

#[test]
fn assemble_keeps_every_part() {
    let now = Timestamp::new(1_705_320_000, 0);
    let analysis = analyze(&vec![push(1_705_276_800, 4)], &now).unwrap();
    let r = assemble(user(), vec![repo("hello")], analysis.clone(), 5, vec!["p".to_string()]);
    assert_eq!(r.username, "OctoCat");
    assert_eq!(r.repo_links, vec![repo("hello")]);
    assert_eq!(r.commits_last_year, 4);
    assert_eq!(r.verified_commits_last_year, 4);
    assert_eq!(r.merged_pull_requests, 5);
    assert_eq!(r.contributed_projects, vec!["p".to_string()]);
    assert_eq!(r.recent_activities, analysis.activities);
    assert_eq!(r.contribution_graph, analysis.histogram);
}

#[test]
fn user_search_gives_its_hits_or_the_failure() {
    assert_eq!(search_url("octo cat"), "https://api.github.com/search/users?q=octo%20cat");
    let hit = GithubUserSearchItem {
        login: "octocat".to_string(),
        id: 583231,
        avatar_url: "a".to_string(),
        html_url: "h".to_string(),
    };
    assert_eq!(search_outcome(ok(GithubUserSearchResult { items: vec![hit.clone()] })), Ok(vec![hit]));
    assert_eq!(
        search_outcome(Reply::Unreachable),
        Err(Failure::Upstream(UpstreamCall::UserSearch, UpstreamError::Unreachable))
    );
    assert_eq!(
        search_outcome(status(200)),
        Err(Failure::Upstream(UpstreamCall::UserSearch, UpstreamError::MalformedBody))
    );
}
