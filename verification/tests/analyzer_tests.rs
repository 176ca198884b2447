use github_user::analyzer::{analyze, describe, recent_activities, summarise, Analysis};
use github_user::models::{Commit, DayCount, Event, EventPayload, EventRepo};
use github_user::time::Timestamp;

const NOW: i64 = 1_705_320_000; // 2024-01-15 12:00:00 UTC
const YEAR: i64 = 31_536_000;

fn commits(n: usize) -> Option<EventPayload> {
    let mut list = Vec::new();
    for i in 0..n {
        list.push(Commit { sha: format!("sha{}", i) });
    }
    Some(EventPayload { commits: Some(list) })
}

fn event(kind: &str, secs: i64, payload: Option<EventPayload>, repo: Option<&str>) -> Event {
    Event {
        event_type: kind.to_string(),
        payload,
        created_at: Timestamp::new(secs, 0),
        repo: repo.map(|name| EventRepo { id: Some(7), name: name.to_string(), url: None }),
    }
}

fn now() -> Timestamp {
    Timestamp::new(NOW, 0)
}

fn sum(a: &Analysis) -> u64 {
    a.histogram.iter().map(|d| u64::from(d.commits)).sum()
}

#[test]
fn empty_feed_gives_empty_analysis() {
    let a = analyze(&Vec::new(), &now()).unwrap();
    assert_eq!(a.commits_last_year, 0);
    assert_eq!(a.verified_commits_last_year, 0);
    assert!(a.histogram.is_empty());
    assert!(a.activities.is_empty());
}

#[test]
fn pushes_are_counted_per_day() {
    let events = vec![
        event("PushEvent", 1_705_276_800, commits(3), Some("octo/a")),
        event("PushEvent", 1_705_276_800 + 3600, commits(2), Some("octo/a")),
        event("PushEvent", 1_704_067_200, commits(4), Some("octo/b")),
        event("IssuesEvent", 1_705_276_800, commits(9), Some("octo/a")),
    ];
    let a = analyze(&events, &now()).unwrap();
    assert_eq!(a.commits_last_year, 9);
    assert_eq!(a.verified_commits_last_year, 9);
    assert_eq!(
        a.histogram,
        vec![
            DayCount { day: "2024-01-15".to_string(), commits: 5 },
            DayCount { day: "2024-01-01".to_string(), commits: 4 },
        ]
    );
}

#[test]
fn histogram_adds_up_to_the_commit_count() {
    let mut events = Vec::new();
    for i in 0..40i64 {
        events.push(event("PushEvent", NOW - i * 40_000, commits((i % 4) as usize), None));
    }
    let a = analyze(&events, &now()).unwrap();
    assert_eq!(sum(&a), u64::from(a.commits_last_year));
    assert_eq!(a.commits_last_year, 60);
    for (i, d) in a.histogram.iter().enumerate() {
        assert!(d.commits > 0);
        for e in &a.histogram[i + 1..] {
            assert_ne!(d.day, e.day);
        }
    }
}

#[test]
fn the_window_excludes_its_start() {
    let at_start = vec![event("PushEvent", NOW - YEAR, commits(2), None)];
    let a = analyze(&at_start, &now()).unwrap();
    assert_eq!(a.commits_last_year, 0);
    assert!(a.histogram.is_empty());

    let just_inside = vec![event("PushEvent", NOW - YEAR + 1, commits(2), None)];
    let b = analyze(&just_inside, &now()).unwrap();
    assert_eq!(b.commits_last_year, 2);
    assert_eq!(b.histogram, vec![DayCount { day: "2023-01-15".to_string(), commits: 2 }]);
}

#[test]
fn the_window_compares_nanoseconds_at_its_start() {
    let now = Timestamp::new(NOW, 500);
    let mut e = event("PushEvent", NOW - YEAR, commits(1), None);
    e.created_at = Timestamp::new(NOW - YEAR, 500);
    assert_eq!(analyze(&vec![e.clone()], &now).unwrap().commits_last_year, 0);
    e.created_at = Timestamp::new(NOW - YEAR, 501);
    assert_eq!(analyze(&vec![e], &now).unwrap().commits_last_year, 1);
}

#[test]
fn a_push_without_commits_leaves_no_day() {
    let events = vec![
        event("PushEvent", NOW - 10, commits(0), None),
        event("PushEvent", NOW - 10, None, None),
        event("PushEvent", NOW - 10, Some(EventPayload { commits: None }), None),
    ];
    let a = analyze(&events, &now()).unwrap();
    assert_eq!(a.commits_last_year, 0);
    assert!(a.histogram.is_empty());
    assert_eq!(a.activities.len(), 3);
}

#[test]
fn a_day_beyond_the_calendar_gives_no_analysis() {
    let events = vec![event("PushEvent", i64::MAX, commits(1), None)];
    assert!(analyze(&events, &now()).is_none());
    let harmless = vec![event("WatchEvent", i64::MAX, commits(1), None)];
    assert!(analyze(&harmless, &now()).is_some());
}

#[test]
fn recent_activity_is_the_first_five_whatever_their_age() {
    let mut events = Vec::new();
    for i in 0..7i64 {
        events.push(event("WatchEvent", NOW - 3 * YEAR - i, None, Some("octo/old")));
    }
    let a = analyze(&events, &now()).unwrap();
    assert_eq!(a.activities.len(), 5);
    for (i, act) in a.activities.iter().enumerate() {
        assert_eq!(act.created_at, events[i].created_at);
        assert_eq!(act.repo_name, "octo/old");
        assert_eq!(act.event_type, "WatchEvent");
        assert_eq!(act.description, "Performed a WatchEvent event");
    }
    assert_eq!(recent_activities(&events), a.activities);
}

#[test]
fn descriptions_follow_the_kind() {
    assert_eq!(describe(&event("PushEvent", NOW, commits(3), None)), "Pushed 3 commit(s)");
    assert_eq!(describe(&event("PushEvent", NOW, commits(0), None)), "Pushed 0 commit(s)");
    assert_eq!(describe(&event("PushEvent", NOW, commits(12), None)), "Pushed 12 commit(s)");
    assert_eq!(describe(&event("PushEvent", NOW, None, None)), "Pushed to a repository");
    assert_eq!(
        describe(&event("PushEvent", NOW, Some(EventPayload { commits: None }), None)),
        "Pushed to a repository"
    );
    assert_eq!(describe(&event("IssuesEvent", NOW, None, None)), "Created or updated an issue");
    assert_eq!(
        describe(&event("PullRequestEvent", NOW, None, None)),
        "Opened or updated a pull request"
    );
    assert_eq!(describe(&event("ForkEvent", NOW, None, None)), "Performed a ForkEvent event");
    assert_eq!(describe(&event("", NOW, None, None)), "Performed a  event");
}

#[test]
fn a_summary_without_repository_has_an_empty_name() {
    let a = summarise(&event("IssuesEvent", 5, None, None));
    assert_eq!(a.repo_name, "");
    assert_eq!(a.event_type, "IssuesEvent");
    assert_eq!(a.created_at, Timestamp::new(5, 0));
    assert_eq!(a.description, "Created or updated an issue");
}

#[test]
fn analysis_is_the_same_when_repeated() {
    let events = vec![
        event("PushEvent", NOW - 5, commits(3), Some("octo/a")),
        event("PushEvent", NOW - 100_000, commits(1), Some("octo/b")),
        event("PullRequestEvent", NOW - 7, None, None),
    ];
    let a = analyze(&events, &now()).unwrap();
    let b = analyze(&events, &now()).unwrap();
    assert_eq!(a, b);
}

#[test]
fn timestamps_know_their_window_and_their_day() {
    assert!(Timestamp::new(2, 0).within_last_year(&Timestamp::new(1, 999)));
    assert!(Timestamp::new(1, 2).within_last_year(&Timestamp::new(31_536_001, 1)));
    assert!(!Timestamp::new(1, 1).within_last_year(&Timestamp::new(31_536_001, 1)));
    assert!(!Timestamp::new(0, 5).within_last_year(&Timestamp::new(31_536_001, 0)));
    assert!(Timestamp::new(i64::MIN, 0).within_last_year(&Timestamp::new(i64::MIN + 5, 0)));
    assert_eq!(Timestamp::new(0, 0).day_text(), Some("1970-01-01".to_string()));
    assert_eq!(Timestamp::new(-1, 0).day_text(), Some("1969-12-31".to_string()));
    assert_eq!(Timestamp::new(i64::MIN, 0).day_text(), None);
}
