//! What the activity feed says about the last 365 days: how many commits
//! were pushed, on which days, and what the most recent entries were.

use vstd::prelude::*;
use vstd::string::*;
use crate::models::{Activity, DayCount, Event};
use crate::text::{decimal_digits, decimal_text, join3, same_text};
use crate::time::{in_last_year, utc_day_text, Timestamp};

verus! {

/// How many entries of the feed are summarised as recent activity.
pub const RECENT_LIMIT: usize = 5;

/// What `analyze` derives from a feed.
#[derive(Clone, Debug, PartialEq, Eq)]
pub struct Analysis {
    pub commits_last_year: u32,
    pub verified_commits_last_year: u32,
    pub histogram: Vec<DayCount>,
    pub activities: Vec<Activity>,
}

pub open spec fn is_push(e: Event) -> bool {
    e.event_type@ == "PushEvent"@
}

/// The length of the event's commit list, if it has one.
pub open spec fn listed_commits(e: Event) -> Option<nat> {
    match e.payload {
        Some(p) => match p.commits {
            Some(c) => Some(c@.len()),
            None => None,
        },
        None => None,
    }
}

/// The commits that `e` adds to the year's count: those of a push inside the
/// window, none otherwise.
pub open spec fn counted(e: Event, now: Timestamp) -> nat {
    if is_push(e) && in_last_year(e.created_at, now) {
        match listed_commits(e) {
            Some(n) => n,
            None => 0,
        }
    } else {
        0
    }
}

/// The commits pushed in the 365 days before `now`.
pub open spec fn commit_total(events: Seq<Event>, now: Timestamp) -> nat
    decreases events.len(),
{
    if events.len() == 0 {
        0
    } else {
        commit_total(events.drop_last(), now) + counted(events.last(), now)
    }
}

/// The part of `e`'s counted commits that falls on `day`.
pub open spec fn counted_on(e: Event, now: Timestamp, day: Seq<char>) -> nat {
    if utc_day_text(e.created_at.secs as int) == Some(day) {
        counted(e, now)
    } else {
        0
    }
}

/// The commits pushed on `day` in the 365 days before `now`.
pub open spec fn day_total(events: Seq<Event>, now: Timestamp, day: Seq<char>) -> nat
    decreases events.len(),
{
    if events.len() == 0 {
        0
    } else {
        day_total(events.drop_last(), now, day) + counted_on(events.last(), now, day)
    }
}

/// Every event that counts falls on a day that the calendar can express.
pub open spec fn days_known(events: Seq<Event>, now: Timestamp) -> bool {
    forall|i: int|
        0 <= i < events.len() && counted(#[trigger] events[i], now) > 0 ==> utc_day_text(
            events[i].created_at.secs as int,
        ) is Some
}

/// What the histogram `h` holds for `day`: 0 where it has no entry.
pub open spec fn tally(h: Seq<DayCount>, day: Seq<char>) -> nat
    decreases h.len(),
{
    if h.len() == 0 {
        0
    } else {
        tally(h.drop_last(), day) + if h.last().day@ == day {
            h.last().commits as nat
        } else {
            0
        }
    }
}

/// The sum of all the histogram's counts.
pub open spec fn histogram_sum(h: Seq<DayCount>) -> nat
    decreases h.len(),
{
    if h.len() == 0 {
        0
    } else {
        histogram_sum(h.drop_last()) + h.last().commits as nat
    }
}

/// No day has two entries, and no entry is empty.
pub open spec fn well_formed(h: Seq<DayCount>) -> bool {
    &&& forall|i: int, j: int| 0 <= i < j < h.len() ==> (#[trigger] h[i]).day@ != (#[trigger] h[j]).day@
    &&& forall|i: int| 0 <= i < h.len() ==> (#[trigger] h[i]).commits > 0
}

/// The days of the histogram's entries, in order.
pub open spec fn days_of(h: Seq<DayCount>) -> Seq<Seq<char>> {
    h.map_values(|e: DayCount| e.day@)
}

/// The days on which commits were pushed inside the window, each once, in
/// the order in which the feed first comes to them.
pub open spec fn first_days(events: Seq<Event>, now: Timestamp) -> Seq<Seq<char>>
    decreases events.len(),
{
    if events.len() == 0 {
        Seq::<Seq<char>>::empty()
    } else {
        let rest = first_days(events.drop_last(), now);
        match utc_day_text(events.last().created_at.secs as int) {
            Some(day) => if counted(events.last(), now) > 0 && !rest.contains(day) {
                rest.push(day)
            } else {
                rest
            },
            None => rest,
        }
    }
}

/// The one-line description of an event.
pub open spec fn description_of(e: Event) -> Seq<char> {
    if is_push(e) {
        match listed_commits(e) {
            Some(n) => "Pushed "@ + decimal_digits(n) + " commit(s)"@,
            None => "Pushed to a repository"@,
        }
    } else if e.event_type@ == "IssuesEvent"@ {
        "Created or updated an issue"@
    } else if e.event_type@ == "PullRequestEvent"@ {
        "Opened or updated a pull request"@
    } else {
        "Performed a "@ + e.event_type@ + " event"@
    }
}

/// The name of the repository that the event names, empty where it names none.
pub open spec fn repo_name_of(e: Event) -> Seq<char> {
    match e.repo {
        Some(r) => r.name@,
        None => Seq::<char>::empty(),
    }
}

/// `a` is the summary of `e`.
pub open spec fn summarises(a: Activity, e: Event) -> bool {
    &&& a.event_type@ == e.event_type@
    &&& a.repo_name@ == repo_name_of(e)
    &&& a.created_at == e.created_at
    &&& a.description@ == description_of(e)
}

/// `acts` summarises the first `RECENT_LIMIT` events, in their order.
pub open spec fn recent_of(acts: Seq<Activity>, events: Seq<Event>) -> bool {
    &&& acts.len() == if events.len() < RECENT_LIMIT { events.len() } else { RECENT_LIMIT as nat }
    &&& forall|i: int| 0 <= i < acts.len() ==> summarises(#[trigger] acts[i], events[i])
}

/// `a` is the analysis of `events` at `now`.
pub open spec fn analysis_of(a: Analysis, events: Seq<Event>, now: Timestamp) -> bool {
    &&& a.commits_last_year == commit_total(events, now)
    &&& a.verified_commits_last_year == a.commits_last_year
    &&& well_formed(a.histogram@)
    &&& days_of(a.histogram@) == first_days(events, now)
    &&& forall|day: Seq<char>| #[trigger] tally(a.histogram@, day) == day_total(events, now, day)
    &&& recent_of(a.activities@, events)
}

pub proof fn lemma_commit_total_step(events: Seq<Event>, now: Timestamp, i: int)
    requires
        0 <= i < events.len(),
    ensures
        commit_total(events.take(i + 1), now) == commit_total(events.take(i), now) + counted(
            events[i],
            now,
        ),
        forall|day: Seq<char>| #[trigger]
            day_total(events.take(i + 1), now, day) == day_total(events.take(i), now, day)
                + counted_on(events[i], now, day),
{
    assert(events.take(i + 1).drop_last() =~= events.take(i));
    assert(events.take(i + 1).last() == events[i]);
}

/// What one more event adds to the days of the window.
pub proof fn lemma_first_days_step(events: Seq<Event>, now: Timestamp, i: int)
    requires
        0 <= i < events.len(),
    ensures
        first_days(events.take(i + 1), now) == match utc_day_text(
            events[i].created_at.secs as int,
        ) {
            Some(day) => if counted(events[i], now) > 0 && !first_days(
                events.take(i),
                now,
            ).contains(day) {
                first_days(events.take(i), now).push(day)
            } else {
                first_days(events.take(i), now)
            },
            None => first_days(events.take(i), now),
        },
{
    assert(events.take(i + 1).drop_last() =~= events.take(i));
    assert(events.take(i + 1).last() == events[i]);
}

/// The commits of a prefix of the feed are among those of the whole feed.
pub proof fn lemma_commit_total_prefix(events: Seq<Event>, now: Timestamp, i: int)
    requires
        0 <= i <= events.len(),
    ensures
        commit_total(events.take(i), now) <= commit_total(events, now),
    decreases events.len() - i,
{
    if i == events.len() {
        assert(events.take(i) =~= events);
    } else {
        lemma_commit_total_step(events, now, i);
        lemma_commit_total_prefix(events, now, i + 1);
    }
}

/// No entry holds more than the histogram's sum.
pub proof fn lemma_entry_bounded(h: Seq<DayCount>, k: int)
    requires
        0 <= k < h.len(),
    ensures
        h[k].commits <= histogram_sum(h),
    decreases h.len(),
{
    if k < h.len() - 1 {
        lemma_entry_bounded(h.drop_last(), k);
    }
}

/// Replacing one entry by another for the same day moves the histogram's
/// sum, and what it holds for that day, by the difference of the two counts.
pub proof fn lemma_replace_entry(h: Seq<DayCount>, k: int, e: DayCount)
    requires
        0 <= k < h.len(),
        e.day@ == h[k].day@,
    ensures
        histogram_sum(h.update(k, e)) == histogram_sum(h) - h[k].commits + e.commits,
        forall|day: Seq<char>| #[trigger]
            tally(h.update(k, e), day) == tally(h, day) + if day == e.day@ {
                e.commits - h[k].commits
            } else {
                0
            },
    decreases h.len(),
{
    let g = h.update(k, e);
    if k == h.len() - 1 {
        assert(g.drop_last() =~= h.drop_last());
        assert(g.last() == e);
        assert(h.last() == h[k]);
    } else {
        lemma_replace_entry(h.drop_last(), k, e);
        assert(g.drop_last() =~= h.drop_last().update(k, e));
        assert(g.last() == h.last());
        assert(h.drop_last()[k] == h[k]);
    }
    assert forall|day: Seq<char>| #[trigger]
        tally(g, day) == tally(h, day) + if day == e.day@ {
            e.commits - h[k].commits
        } else {
            0
        } by {
        if k < h.len() - 1 {
            assert(tally(g.drop_last(), day) == tally(h.drop_last().update(k, e), day));
        }
    }
}

/// A day that has no entry is held as 0.
pub proof fn lemma_absent_day(h: Seq<DayCount>, day: Seq<char>)
    requires
        forall|i: int| 0 <= i < h.len() ==> (#[trigger] h[i]).day@ != day,
    ensures
        tally(h, day) == 0,
    decreases h.len(),
{
    if h.len() > 0 {
        assert(h.last() == h[h.len() - 1]);
        assert forall|i: int| 0 <= i < h.drop_last().len() implies (#[trigger] h.drop_last()[i]).day@
            != day by {
            assert(h.drop_last()[i] == h[i]);
        }
        lemma_absent_day(h.drop_last(), day);
    }
}

/// In a well-formed histogram each day is held with the count of its entry.
pub proof fn lemma_entry_is_tally(h: Seq<DayCount>, k: int)
    requires
        well_formed(h),
        0 <= k < h.len(),
    ensures
        tally(h, h[k].day@) == h[k].commits,
    decreases h.len(),
{
    let rest = h.drop_last();
    assert forall|i: int, j: int| 0 <= i < j < rest.len() implies (#[trigger] rest[i]).day@ != (
    #[trigger] rest[j]).day@ by {
        assert(rest[i] == h[i] && rest[j] == h[j]);
    }
    assert forall|i: int| 0 <= i < rest.len() implies (#[trigger] rest[i]).commits > 0 by {
        assert(rest[i] == h[i]);
    }
    if k == h.len() - 1 {
        assert forall|i: int| 0 <= i < rest.len() implies (#[trigger] rest[i]).day@ != h[k].day@ by {
            assert(rest[i] == h[i]);
        }
        lemma_absent_day(rest, h[k].day@);
    } else {
        assert(rest[k] == h[k]);
        lemma_entry_is_tally(rest, k);
        assert(h.last() == h[h.len() - 1]);
    }
}

/// The histogram of an analysis has an entry for exactly the days on which
/// commits were pushed inside the window, and each entry holds the commits
/// of its day.
pub proof fn law_histogram_entries(a: Analysis, events: Seq<Event>, now: Timestamp)
    requires
        analysis_of(a, events, now),
    ensures
        forall|i: int|
            0 <= i < a.histogram@.len() ==> (#[trigger] a.histogram@[i]).commits == day_total(
                events,
                now,
                a.histogram@[i].day@,
            ),
        forall|day: Seq<char>|
            #[trigger] day_total(events, now, day) > 0 <==> exists|i: int|
                0 <= i < a.histogram@.len() && (#[trigger] a.histogram@[i]).day@ == day,
{
    let h = a.histogram@;
    assert forall|i: int| 0 <= i < h.len() implies (#[trigger] h[i]).commits == day_total(
        events,
        now,
        h[i].day@,
    ) by {
        lemma_entry_is_tally(h, i);
        assert(tally(h, h[i].day@) == day_total(events, now, h[i].day@));
    }
    assert forall|day: Seq<char>|
        #[trigger] day_total(events, now, day) > 0 <==> exists|i: int|
            0 <= i < h.len() && (#[trigger] h[i]).day@ == day by {
        assert(tally(h, day) == day_total(events, now, day));
        if exists|i: int| 0 <= i < h.len() && (#[trigger] h[i]).day@ == day {
            let i = choose|i: int| 0 <= i < h.len() && (#[trigger] h[i]).day@ == day;
            lemma_entry_is_tally(h, i);
        } else {
            lemma_absent_day(h, day);
        }
    }
}

/// The histogram `h` has an entry for `day`.
pub open spec fn has_day(h: Seq<DayCount>, day: Option<Seq<char>>) -> bool {
    exists|k: int| 0 <= k < h.len() && Some((#[trigger] h[k]).day@) == day
}

/// The counted commits of the events whose day has an entry in `h`.
pub open spec fn covered(h: Seq<DayCount>, events: Seq<Event>, now: Timestamp) -> nat
    decreases events.len(),
{
    if events.len() == 0 {
        0
    } else {
        covered(h, events.drop_last(), now) + if has_day(
            h,
            utc_day_text(events.last().created_at.secs as int),
        ) {
            counted(events.last(), now)
        } else {
            0
        }
    }
}

/// A day's total is at least what any one event adds to it.
pub proof fn lemma_day_total_bounds(events: Seq<Event>, now: Timestamp, day: Seq<char>, i: int)
    requires
        0 <= i < events.len(),
    ensures
        counted_on(events[i], now, day) <= day_total(events, now, day),
    decreases events.len(),
{
    if i < events.len() - 1 {
        lemma_day_total_bounds(events.drop_last(), now, day, i);
    }
}

/// One more entry, for a day that had none, covers that day's total more.
pub proof fn lemma_covered_step(h: Seq<DayCount>, events: Seq<Event>, now: Timestamp)
    requires
        h.len() > 0,
        forall|i: int, j: int| 0 <= i < j < h.len() ==> (#[trigger] h[i]).day@ != (#[trigger] h[j]).day@,
    ensures
        covered(h, events, now) == covered(h.drop_last(), events, now) + day_total(
            events,
            now,
            h.last().day@,
        ),
    decreases events.len(),
{
    if events.len() > 0 {
        lemma_covered_step(h, events.drop_last(), now);
        let front = h.drop_last();
        let d = utc_day_text(events.last().created_at.secs as int);
        if d == Some(h.last().day@) {
            assert(h[h.len() - 1].day@ == h.last().day@);
            assert(has_day(h, d));
            if has_day(front, d) {
                let k = choose|k: int| 0 <= k < front.len() && Some((#[trigger] front[k]).day@) == d;
                assert(front[k] == h[k]);
                assert(h[k].day@ != h[h.len() - 1].day@);
            }
        } else {
            if has_day(h, d) {
                let k = choose|k: int| 0 <= k < h.len() && Some((#[trigger] h[k]).day@) == d;
                assert(k < h.len() - 1);
                assert(front[k] == h[k]);
                assert(has_day(front, d));
            }
            if has_day(front, d) {
                let k = choose|k: int| 0 <= k < front.len() && Some((#[trigger] front[k]).day@) == d;
                assert(front[k] == h[k]);
                assert(has_day(h, d));
            }
        }
    }
}

/// A histogram whose entries hold their days' totals adds up to the commits
/// of the events that it covers.
pub proof fn lemma_sum_is_covered(h: Seq<DayCount>, events: Seq<Event>, now: Timestamp)
    requires
        forall|i: int, j: int| 0 <= i < j < h.len() ==> (#[trigger] h[i]).day@ != (#[trigger] h[j]).day@,
        forall|i: int|
            0 <= i < h.len() ==> (#[trigger] h[i]).commits == day_total(events, now, h[i].day@),
    ensures
        histogram_sum(h) == covered(h, events, now),
    decreases h.len(), events.len(),
{
    if h.len() == 0 {
        if events.len() > 0 {
            lemma_sum_is_covered(h, events.drop_last(), now);
        }
    } else {
        let front = h.drop_last();
        assert forall|i: int, j: int| 0 <= i < j < front.len() implies (#[trigger] front[i]).day@
            != (#[trigger] front[j]).day@ by {
            assert(front[i] == h[i] && front[j] == h[j]);
        }
        assert forall|i: int| 0 <= i < front.len() implies (#[trigger] front[i]).commits
            == day_total(events, now, front[i].day@) by {
            assert(front[i] == h[i]);
        }
        lemma_sum_is_covered(front, events, now);
        lemma_covered_step(h, events, now);
        assert(h.last() == h[h.len() - 1]);
    }
}

/// Where every event that counts is covered, the covered commits are all
/// the commits of the window.
pub proof fn lemma_covered_is_total(h: Seq<DayCount>, events: Seq<Event>, now: Timestamp)
    requires
        forall|i: int|
            0 <= i < events.len() && counted(#[trigger] events[i], now) > 0 ==> has_day(
                h,
                utc_day_text(events[i].created_at.secs as int),
            ),
    ensures
        covered(h, events, now) == commit_total(events, now),
    decreases events.len(),
{
    if events.len() > 0 {
        let front = events.drop_last();
        assert forall|i: int| 0 <= i < front.len() && counted(#[trigger] front[i], now) > 0 implies has_day(
            h,
            utc_day_text(front[i].created_at.secs as int),
        ) by {
            assert(front[i] == events[i]);
        }
        lemma_covered_is_total(h, front, now);
        assert(events.last() == events[events.len() - 1]);
    }
}

/// The counts of a histogram add up to the commits of the last year: any
/// histogram that holds each day's commits, for a feed whose counted days
/// the calendar can express, has the year's commit count as its sum.
pub proof fn law_histogram_sum(a: Analysis, events: Seq<Event>, now: Timestamp)
    requires
        analysis_of(a, events, now),
        days_known(events, now),
    ensures
        histogram_sum(a.histogram@) == a.commits_last_year,
{
    let h = a.histogram@;
    law_histogram_entries(a, events, now);
    lemma_sum_is_covered(h, events, now);
    assert forall|i: int| 0 <= i < events.len() && counted(#[trigger] events[i], now) > 0 implies has_day(
        h,
        utc_day_text(events[i].created_at.secs as int),
    ) by {
        let d = utc_day_text(events[i].created_at.secs as int);
        assert(d is Some);
        let day = d->0;
        lemma_day_total_bounds(events, now, day, i);
        assert(day_total(events, now, day) > 0);
        let k = choose|k: int| 0 <= k < h.len() && (#[trigger] h[k]).day@ == day;
        assert(Some(h[k].day@) == d);
    }
    lemma_covered_is_total(h, events, now);
}

/// Two analyses of one feed at one instant agree: in both counts, in the
/// histogram and in the recent-activity list, each entry by entry and in
/// order.
pub proof fn law_analysis_determined(a: Analysis, b: Analysis, events: Seq<Event>, now: Timestamp)
    requires
        analysis_of(a, events, now),
        analysis_of(b, events, now),
    ensures
        a.commits_last_year == b.commits_last_year,
        a.verified_commits_last_year == b.verified_commits_last_year,
        forall|day: Seq<char>| #[trigger] tally(a.histogram@, day) == tally(b.histogram@, day),
        a.histogram@.len() == b.histogram@.len(),
        forall|i: int|
            0 <= i < a.histogram@.len() ==> (#[trigger] a.histogram@[i]).day@
                == b.histogram@[i].day@ && a.histogram@[i].commits == b.histogram@[i].commits,
        a.activities@.len() == b.activities@.len(),
        forall|i: int|
            0 <= i < a.activities@.len() ==> {
                &&& (#[trigger] a.activities@[i]).event_type@ == b.activities@[i].event_type@
                &&& a.activities@[i].repo_name@ == b.activities@[i].repo_name@
                &&& a.activities@[i].created_at == b.activities@[i].created_at
                &&& a.activities@[i].description@ == b.activities@[i].description@
            },
{
    assert forall|day: Seq<char>| #[trigger]
        tally(a.histogram@, day) == tally(b.histogram@, day) by {
        assert(tally(a.histogram@, day) == day_total(events, now, day));
        assert(tally(b.histogram@, day) == day_total(events, now, day));
    }
    assert(days_of(a.histogram@).len() == days_of(b.histogram@).len());
    assert forall|i: int| 0 <= i < a.histogram@.len() implies (#[trigger] a.histogram@[i]).day@
        == b.histogram@[i].day@ && a.histogram@[i].commits == b.histogram@[i].commits by {
        assert(days_of(a.histogram@)[i] == days_of(b.histogram@)[i]);
        lemma_entry_is_tally(a.histogram@, i);
        lemma_entry_is_tally(b.histogram@, i);
    }
    assert forall|i: int| 0 <= i < a.activities@.len() implies {
        &&& (#[trigger] a.activities@[i]).event_type@ == b.activities@[i].event_type@
        &&& a.activities@[i].repo_name@ == b.activities@[i].repo_name@
        &&& a.activities@[i].created_at == b.activities@[i].created_at
        &&& a.activities@[i].description@ == b.activities@[i].description@
    } by {
        assert(summarises(a.activities@[i], events[i]));
        assert(summarises(b.activities@[i], events[i]));
    }
}

/// The commits that `e` adds to the year's count.
pub fn count_event(e: &Event, now: &Timestamp) -> (n: usize)
    ensures
        n == counted(*e, *now),
{
    if same_text(&e.event_type, "PushEvent") && e.created_at.within_last_year(now) {
        match &e.payload {
            Some(p) => match &p.commits {
                Some(c) => c.len(),
                None => 0,
            },
            None => 0,
        }
    } else {
        0
    }
}

/// Adds `n` commits to the entry of `day`, which is made if there is none.
fn add_commits(hist: &mut Vec<DayCount>, day: String, n: u32)
    requires
        well_formed(old(hist)@),
        n > 0,
        histogram_sum(old(hist)@) + n <= u32::MAX,
    ensures
        well_formed(final(hist)@),
        histogram_sum(final(hist)@) == histogram_sum(old(hist)@) + n,
        forall|d: Seq<char>| #[trigger]
            tally(final(hist)@, d) == tally(old(hist)@, d) + if d == day@ {
                n as nat
            } else {
                0
            },
        days_of(final(hist)@) == if days_of(old(hist)@).contains(day@) {
            days_of(old(hist)@)
        } else {
            days_of(old(hist)@).push(day@)
        },
{
    let mut k: usize = 0;
    while k < hist.len()
        invariant
            k <= hist.len(),
            *hist == *old(hist),
            well_formed(hist@),
            n > 0,
            histogram_sum(hist@) + n <= u32::MAX,
            forall|i: int| 0 <= i < k ==> (#[trigger] hist@[i]).day@ != day@,
        decreases hist.len() - k,
    {
        if hist[k].day == day {
            let ghost before = hist@;
            proof {
                lemma_entry_bounded(before, k as int);
            }
            let sum: u32 = hist[k].commits + n;
            let entry = DayCount { day, commits: sum };
            proof {
                lemma_replace_entry(before, k as int, entry);
            }
            hist.set(k, entry);
            proof {
                assert(hist@ =~= before.update(k as int, entry));
                assert(days_of(before)[k as int] == day@);
                assert(days_of(hist@) =~= days_of(before));
                assert forall|i: int, j: int| 0 <= i < j < hist@.len() implies (#[trigger] hist@[i]).day@
                    != (#[trigger] hist@[j]).day@ by {
                    assert(hist@[i].day@ == before[i].day@);
                    assert(hist@[j].day@ == before[j].day@);
                }
            }
            return ;
        }
        k += 1;
    }
    let ghost before = hist@;
    let entry = DayCount { day, commits: n };
    hist.push(entry);
    proof {
        assert(hist@.drop_last() =~= before);
        assert(hist@.last() == entry);
        assert(days_of(hist@) =~= days_of(before).push(day@));
        if days_of(before).contains(day@) {
            let j = choose|j: int| 0 <= j < days_of(before).len() && days_of(before)[j] == day@;
            assert(before[j].day@ == day@);
        }
    }
}

/// The one-line description of `e`.
pub fn describe(e: &Event) -> (r: String)
    ensures
        r@ == description_of(*e),
{
    if same_text(&e.event_type, "PushEvent") {
        match &e.payload {
            Some(p) => match &p.commits {
                Some(c) => {
                    let digits = decimal_text(c.len());
                    join3("Pushed ", digits.as_str(), " commit(s)")
                },
                None => String::from_str("Pushed to a repository"),
            },
            None => String::from_str("Pushed to a repository"),
        }
    } else if same_text(&e.event_type, "IssuesEvent") {
        String::from_str("Created or updated an issue")
    } else if same_text(&e.event_type, "PullRequestEvent") {
        String::from_str("Opened or updated a pull request")
    } else {
        join3("Performed a ", e.event_type.as_str(), " event")
    }
}

/// The summary of `e` for the recent-activity list.
pub fn summarise(e: &Event) -> (a: Activity)
    ensures
        summarises(a, *e),
{
    let repo_name = match &e.repo {
        Some(r) => r.name.clone(),
        None => String::new(),
    };
    Activity {
        event_type: e.event_type.clone(),
        repo_name,
        created_at: e.created_at,
        description: describe(e),
    }
}

/// The summaries of the first `RECENT_LIMIT` events, in the feed's order and
/// whatever their age.
pub fn recent_activities(events: &Vec<Event>) -> (acts: Vec<Activity>)
    ensures
        recent_of(acts@, events@),
{
    let mut acts: Vec<Activity> = Vec::new();
    let mut i: usize = 0;
    while i < events.len() && i < RECENT_LIMIT
        invariant
            i <= events.len(),
            i <= RECENT_LIMIT,
            acts@.len() == i,
            forall|j: int| 0 <= j < i ==> summarises(#[trigger] acts@[j], events@[j]),
        decreases events.len() - i,
    {
        acts.push(summarise(&events[i]));
        i += 1;
    }
    acts
}

/// Analyses the feed as of `now`.
///
/// There is a result exactly when every counted push falls on a day that the
/// calendar can express and the year's commits fit the counter. The
/// histogram then holds for each day the commits pushed on it, days without
/// commits have no entry, and its counts add up to `commits_last_year`.
pub fn analyze(events: &Vec<Event>, now: &Timestamp) -> (r: Option<Analysis>)
    ensures
        r is Some <==> days_known(events@, *now) && commit_total(events@, *now) <= u32::MAX,
        r matches Some(a) ==> analysis_of(a, events@, *now) && histogram_sum(a.histogram@)
            == a.commits_last_year,
{
    let mut total: u32 = 0;
    let mut hist: Vec<DayCount> = Vec::new();
    let mut i: usize = 0;
    assert(days_of(hist@) =~= first_days(events@.take(0), *now));
    while i < events.len()
        invariant
            i <= events.len(),
            total == commit_total(events@.take(i as int), *now),
            histogram_sum(hist@) == total,
            well_formed(hist@),
            days_of(hist@) == first_days(events@.take(i as int), *now),
            forall|day: Seq<char>| #[trigger]
                tally(hist@, day) == day_total(events@.take(i as int), *now, day),
            forall|j: int|
                0 <= j < i && counted(#[trigger] events@[j], *now) > 0 ==> utc_day_text(
                    events@[j].created_at.secs as int,
                ) is Some,
        decreases events.len() - i,
    {
        let n: usize = count_event(&events[i], now);
        proof {
            lemma_commit_total_step(events@, *now, i as int);
            lemma_commit_total_prefix(events@, *now, i as int + 1);
            lemma_first_days_step(events@, *now, i as int);
        }
        if n > 0 {
            if n > (u32::MAX - total) as usize {
                return None;
            }
            match events[i].created_at.day_text() {
                None => {
                    return None;
                },
                Some(day) => {
                    add_commits(&mut hist, day, n as u32);
                    total = total + n as u32;
                },
            }
        }
        i += 1;
    }
    proof {
        assert(events@.take(i as int) =~= events@);
    }
    let activities = recent_activities(events);
    Some(
        Analysis {
            commits_last_year: total,
            verified_commits_last_year: total,
            histogram: hist,
            activities,
        },
    )
}

} // verus!
