//! Classification of one upstream reply: which replies carry a body worth
//! reading, and which failure each of the others stands for.

use vstd::prelude::*;
use vstd::string::*;
use crate::text::{
    decimal_digits, decimal_text, join3, parse_i64, parse_u32, parsed_i64, parsed_u32,
};
use crate::time::{format_utc_moment, utc_moment_text};

verus! {

/// The header in which the upstream service says how many calls are left.
pub const REMAINING_HEADER: &'static str = "remaining-rate-limit";

/// The header in which the upstream service says when the quota is renewed.
pub const RESET_HEADER: &'static str = "rate-limit-reset";

/// The upstream calls that the service makes.
#[derive(Clone, Copy, Debug, PartialEq, Eq, Structural)]
pub enum UpstreamCall {
    Profile,
    Repos,
    Events,
    MergedPullRequests,
    Contributions,
    UserSearch,
}

/// Why an upstream call gave nothing usable.
#[derive(Clone, Copy, Debug, PartialEq, Eq, Structural)]
pub enum UpstreamError {
    Unreachable,
    Forbidden,
    BadStatus(u16),
    MalformedBody,
}

/// Why a request cannot be served.
#[derive(Clone, Debug, PartialEq, Eq)]
pub enum Failure {
    /// The upstream service knows no such resource.
    NotFound,
    /// The upstream service throttles; the text says until when.
    RateLimited(String),
    /// The named call failed.
    Upstream(UpstreamCall, UpstreamError),
    /// The service could not set up its own side of the call.
    Local,
}

/// A `Failure` with its text laid open.
pub enum FailureView {
    NotFound,
    RateLimited(Seq<char>),
    Upstream(UpstreamCall, UpstreamError),
    Local,
}

impl View for Failure {
    type V = FailureView;

    open spec fn view(&self) -> FailureView {
        match *self {
            Failure::NotFound => FailureView::NotFound,
            Failure::RateLimited(t) => FailureView::RateLimited(t@),
            Failure::Upstream(c, e) => FailureView::Upstream(c, e),
            Failure::Local => FailureView::Local,
        }
    }
}

/// The status line of a reply and the two throttling headers, each as the
/// text it came with, `None` where the reply has no such header.
#[derive(Clone, Debug, PartialEq, Eq)]
pub struct ResponseHead {
    pub status: u16,
    pub remaining: Option<String>,
    pub reset: Option<String>,
}

/// What came back from one upstream call: nothing, or a status line with the
/// body read as `T`, `None` where the body is not of that shape.
#[derive(Debug)]
pub enum Reply<T> {
    Unreachable,
    Response { head: ResponseHead, body: Option<T> },
}

/// The reply says that the caller's quota is used up: it has a header of
/// remaining calls, and that header writes zero.
pub open spec fn quota_exhausted(head: ResponseHead) -> bool {
    match head.remaining {
        Some(t) => parsed_u32(t@) == Some(0u32),
        None => false,
    }
}

/// The second at which the quota is renewed, 0 where the reply does not say.
pub open spec fn reset_epoch(head: ResponseHead) -> i64 {
    match head.reset {
        Some(t) => match parsed_i64(t@) {
            Some(v) => v,
            None => 0,
        },
        None => 0,
    }
}

/// The text that names second `epoch` to a throttled caller.
pub open spec fn reset_text(epoch: i64) -> Seq<char> {
    match utc_moment_text(epoch as int) {
        Some(t) => t,
        None => "unknown time"@,
    }
}

/// The failure that a status line stands for, `None` for a success.
pub open spec fn verdict(call: UpstreamCall, head: ResponseHead) -> Option<FailureView> {
    if head.status == 404 {
        Some(FailureView::NotFound)
    } else if head.status == 403 {
        if quota_exhausted(head) {
            Some(FailureView::RateLimited(reset_text(reset_epoch(head))))
        } else {
            Some(FailureView::Upstream(call, UpstreamError::Forbidden))
        }
    } else if 200 <= head.status < 300 {
        None
    } else {
        Some(FailureView::Upstream(call, UpstreamError::BadStatus(head.status)))
    }
}

/// What a reply amounts to: its body, or the failure that it stands for.
pub open spec fn outcome<T>(call: UpstreamCall, reply: Reply<T>) -> Result<T, FailureView> {
    match reply {
        Reply::Unreachable => Err(FailureView::Upstream(call, UpstreamError::Unreachable)),
        Reply::Response { head, body } => match verdict(call, head) {
            Some(f) => Err(f),
            None => match body {
                Some(v) => Ok(v),
                None => Err(FailureView::Upstream(call, UpstreamError::MalformedBody)),
            },
        },
    }
}

/// How a message names the data that `call` asks for.
pub open spec fn call_label(call: UpstreamCall) -> Seq<char> {
    match call {
        UpstreamCall::Profile => "user data"@,
        UpstreamCall::Repos => "repos"@,
        UpstreamCall::Events => "events"@,
        UpstreamCall::MergedPullRequests => "PRs"@,
        UpstreamCall::Contributions => "contributions"@,
        UpstreamCall::UserSearch => "user search results"@,
    }
}

/// How a message puts the reason of an upstream failure.
pub open spec fn reason_text(e: UpstreamError) -> Seq<char> {
    match e {
        UpstreamError::Unreachable => "network error"@,
        UpstreamError::Forbidden => "access forbidden"@,
        UpstreamError::BadStatus(code) => "upstream status "@ + decimal_digits(code as nat),
        UpstreamError::MalformedBody => "malformed body"@,
    }
}

/// The message with which a failure is reported to the caller who asked
/// for `id`.
pub open spec fn message_of(f: FailureView, id: Seq<char>) -> Seq<char> {
    match f {
        FailureView::NotFound => "User '"@ + id + "' not found"@,
        FailureView::RateLimited(t) => "GitHub API rate limit exceeded. Please try again after "@
            + t + "."@,
        FailureView::Upstream(c, e) => "Failed to fetch "@ + call_label(c) + ": "@ + reason_text(e),
        FailureView::Local => "Failed to build HTTP client"@,
    }
}

/// The failure that tells a throttled caller when to come back, from the
/// calendar text of the renewal, `None` where the calendar has none.
pub fn rate_limited(moment: Option<String>) -> (f: Failure)
    ensures
        f@ == FailureView::RateLimited(
            match moment {
                Some(t) => t@,
                None => "unknown time"@,
            },
        ),
{
    match moment {
        Some(t) => Failure::RateLimited(t),
        None => Failure::RateLimited(String::from_str("unknown time")),
    }
}

impl ResponseHead {
    /// Whether the reply says that the caller's quota is used up.
    pub fn quota_is_exhausted(&self) -> (r: bool)
        ensures
            r == quota_exhausted(*self),
    {
        match &self.remaining {
            Some(t) => match parse_u32(t.as_str()) {
                Some(v) => v == 0,
                None => false,
            },
            None => false,
        }
    }

    /// The second at which the quota is renewed, 0 where the reply does not
    /// say.
    pub fn reset_second(&self) -> (r: i64)
        ensures
            r == reset_epoch(*self),
    {
        match &self.reset {
            Some(t) => match parse_i64(t.as_str()) {
                Some(v) => v,
                None => 0,
            },
            None => 0,
        }
    }

    /// Classifies the status line of a reply to `call`.
    ///
    /// 404 is `NotFound`. 403 is `RateLimited` where the quota header writes
    /// zero, with the renewal as `YYYY-MM-DD HH:MM:SS UTC`, and `Forbidden`
    /// where that header is absent or writes anything else. Any other status
    /// outside 200..=299 is `BadStatus`.
    pub fn classify(&self, call: UpstreamCall) -> (r: Result<(), Failure>)
        ensures
            r is Ok <==> verdict(call, *self) is None,
            r matches Err(f) ==> verdict(call, *self) == Some(f@),
    {
        if self.status == 404 {
            Err(Failure::NotFound)
        } else if self.status == 403 {
            if self.quota_is_exhausted() {
                Err(rate_limited(format_utc_moment(self.reset_second())))
            } else {
                Err(Failure::Upstream(call, UpstreamError::Forbidden))
            }
        } else if 200 <= self.status && self.status < 300 {
            Ok(())
        } else {
            Err(Failure::Upstream(call, UpstreamError::BadStatus(self.status)))
        }
    }
}

/// Turns what came back from `call` into its body or a failure.
///
/// No reply is `Unreachable`; a status line that `classify` rejects is that
/// failure; a success whose body is not of the expected shape is
/// `MalformedBody`.
pub fn interpret<T>(call: UpstreamCall, reply: Reply<T>) -> (r: Result<T, Failure>)
    ensures
        match r {
            Ok(v) => outcome(call, reply) == Ok::<T, FailureView>(v),
            Err(f) => outcome(call, reply) == Err::<T, FailureView>(f@),
        },
{
    match reply {
        Reply::Unreachable => Err(Failure::Upstream(call, UpstreamError::Unreachable)),
        Reply::Response { head, body } => match head.classify(call) {
            Err(f) => Err(f),
            Ok(()) => match body {
                Some(v) => Ok(v),
                None => Err(Failure::Upstream(call, UpstreamError::MalformedBody)),
            },
        },
    }
}

impl UpstreamCall {
    /// How a message names the data that the call asks for.
    pub fn label(&self) -> (r: &'static str)
        ensures
            r@ == call_label(*self),
    {
        match self {
            UpstreamCall::Profile => "user data",
            UpstreamCall::Repos => "repos",
            UpstreamCall::Events => "events",
            UpstreamCall::MergedPullRequests => "PRs",
            UpstreamCall::Contributions => "contributions",
            UpstreamCall::UserSearch => "user search results",
        }
    }
}

impl UpstreamError {
    /// How a message puts the reason of the failure.
    pub fn reason(&self) -> (r: String)
        ensures
            r@ == reason_text(*self),
    {
        match self {
            UpstreamError::Unreachable => String::from_str("network error"),
            UpstreamError::Forbidden => String::from_str("access forbidden"),
            UpstreamError::BadStatus(code) => {
                let digits = decimal_text(*code as usize);
                let mut out = String::from_str("upstream status ");
                out.append(digits.as_str());
                out
            },
            UpstreamError::MalformedBody => String::from_str("malformed body"),
        }
    }
}

impl Failure {
    /// The message with which the failure is reported to the caller who
    /// asked for `id`: it names the call that failed and why, and for a
    /// throttled call the time after which to come back.
    pub fn message(&self, id: &str) -> (r: String)
        ensures
            r@ == message_of(self@, id@),
    {
        match self {
            Failure::NotFound => join3("User '", id, "' not found"),
            Failure::RateLimited(t) => join3(
                "GitHub API rate limit exceeded. Please try again after ",
                t.as_str(),
                ".",
            ),
            Failure::Upstream(c, e) => {
                let mut out = join3("Failed to fetch ", c.label(), ": ");
                let why = e.reason();
                out.append(why.as_str());
                out
            },
            Failure::Local => String::from_str("Failed to build HTTP client"),
        }
    }

    /// The status with which the failure is reported to the caller.
    pub fn status_code(&self) -> (code: u16)
        ensures
            code == match self@ {
                FailureView::NotFound => 404u16,
                FailureView::RateLimited(_) => 429u16,
                FailureView::Upstream(_, _) => 502u16,
                FailureView::Local => 500u16,
            },
    {
        match self {
            Failure::NotFound => 404,
            Failure::RateLimited(_) => 429,
            Failure::Upstream(_, _) => 502,
            Failure::Local => 500,
        }
    }
}

/// A reply with status 403 whose quota header writes zero is `RateLimited`
/// with the renewal's calendar text; one without that header, or with a
/// header that writes anything else, is `Forbidden`.
pub proof fn law_throttling(call: UpstreamCall, head: ResponseHead)
    requires
        head.status == 403,
    ensures
        quota_exhausted(head) ==> verdict(call, head) == Some(
            FailureView::RateLimited(reset_text(reset_epoch(head))),
        ),
        !quota_exhausted(head) ==> verdict(call, head) == Some(
            FailureView::Upstream(call, UpstreamError::Forbidden),
        ),
        head.remaining is None ==> !quota_exhausted(head),
        head.remaining matches Some(t) ==> (quota_exhausted(head) <==> parsed_u32(t@) == Some(
            0u32,
        )),
{
}

} // verus!
