//! The addresses of the upstream calls.

use vstd::prelude::*;
use vstd::string::*;
use vstd::utf8::encode_utf8;
use crate::fetcher::UpstreamCall;
use crate::text::{join3, push_char};

verus! {

/// The name under which the service introduces itself to the upstream
/// service, sent with every call.
pub const CLIENT_ID: &'static str = "github-user-proxy/0.1";

/// For how many seconds an upstream call may take before it counts as
/// unanswered.
pub const CALL_TIMEOUT_SECS: u64 = 10;

/// A byte that stands for itself in an address: a letter, a digit, or one of
/// `-`, `.`, `_`, `~`.
pub open spec fn unreserved(b: u8) -> bool {
    ||| 0x41 <= b <= 0x5A
    ||| 0x61 <= b <= 0x7A
    ||| 0x30 <= b <= 0x39
    ||| b == 0x2D
    ||| b == 0x2E
    ||| b == 0x5F
    ||| b == 0x7E
}

/// The upper-case hexadecimal digit of `n`.
pub open spec fn hex_digit(n: u8) -> char
    recommends
        n < 16,
{
    if n < 10 {
        (0x30 + n) as u8 as char
    } else {
        (0x37 + n) as u8 as char
    }
}

/// One byte as it stands in an address: itself where it is unreserved, else
/// a percent sign and its two hexadecimal digits.
pub open spec fn escaped_byte(b: u8) -> Seq<char> {
    if unreserved(b) {
        seq![b as char]
    } else {
        seq!['%', hex_digit(b / 16), hex_digit(b % 16)]
    }
}

/// A run of bytes as it stands in an address.
pub open spec fn percent_encoded(bytes: Seq<u8>) -> Seq<char>
    decreases bytes.len(),
{
    if bytes.len() == 0 {
        Seq::<char>::empty()
    } else {
        percent_encoded(bytes.drop_last()) + escaped_byte(bytes.last())
    }
}

/// What stands before the identifier in the address of `call`.
pub open spec fn address_head(call: UpstreamCall) -> Seq<char> {
    match call {
        UpstreamCall::Profile => "https://api.github.com/users/"@,
        UpstreamCall::Repos => "https://api.github.com/users/"@,
        UpstreamCall::Events => "https://api.github.com/users/"@,
        UpstreamCall::MergedPullRequests => "https://api.github.com/search/issues?q=author:"@,
        UpstreamCall::Contributions => "https://api.github.com/search/issues?q=involves:"@,
        UpstreamCall::UserSearch => "https://api.github.com/search/users?q="@,
    }
}

/// What stands behind the identifier in the address of `call`.
pub open spec fn address_tail(call: UpstreamCall) -> Seq<char> {
    match call {
        UpstreamCall::Profile => ""@,
        UpstreamCall::Repos => "/repos"@,
        UpstreamCall::Events => "/events"@,
        UpstreamCall::MergedPullRequests => "+type:pr+is:merged"@,
        UpstreamCall::Contributions => ""@,
        UpstreamCall::UserSearch => ""@,
    }
}

/// The address of `call` for the identifier or query `id`.
pub open spec fn address(call: UpstreamCall, id: Seq<char>) -> Seq<char> {
    address_head(call) + percent_encoded(encode_utf8(id)) + address_tail(call)
}

/// The upper-case hexadecimal digit of `n`.
pub fn hex_char(n: u8) -> (c: char)
    requires
        n < 16,
    ensures
        c == hex_digit(n),
{
    if n < 10 {
        (0x30 + n) as char
    } else {
        (0x37 + n) as char
    }
}

/// Whether `b` stands for itself in an address.
pub fn is_unreserved(b: u8) -> (r: bool)
    ensures
        r == unreserved(b),
{
    (0x41 <= b && b <= 0x5A) || (0x61 <= b && b <= 0x7A) || (0x30 <= b && b <= 0x39) || b == 0x2D
        || b == 0x2E || b == 0x5F || b == 0x7E
}

/// Writes `text` as it stands in an address: each byte of its UTF-8 form
/// that is not unreserved becomes a percent sign and two hexadecimal digits.
pub fn percent_encode(text: &str) -> (r: String)
    ensures
        r@ == percent_encoded(encode_utf8(text@)),
{
    let bytes = text.as_bytes_vec();
    let mut out = String::new();
    let mut i: usize = 0;
    while i < bytes.len()
        invariant
            i <= bytes.len(),
            bytes@ == encode_utf8(text@),
            out@ == percent_encoded(bytes@.take(i as int)),
        decreases bytes.len() - i,
    {
        let b: u8 = bytes[i];
        proof {
            assert(bytes@.take(i as int + 1).drop_last() =~= bytes@.take(i as int));
            assert(bytes@.take(i as int + 1).last() == b);
        }
        if is_unreserved(b) {
            push_char(&mut out, b as char);
            assert(out@ =~= percent_encoded(bytes@.take(i as int)) + escaped_byte(b));
        } else {
            push_char(&mut out, '%');
            push_char(&mut out, hex_char(b / 16));
            push_char(&mut out, hex_char(b % 16));
            assert(out@ =~= percent_encoded(bytes@.take(i as int)) + escaped_byte(b));
        }
        i += 1;
    }
    proof {
        assert(bytes@.take(i as int) =~= bytes@);
    }
    out
}

/// The address of `call` for the identifier or query `id`, which is
/// percent-encoded into it.
pub fn request_url(call: UpstreamCall, id: &str) -> (r: String)
    ensures
        r@ == address(call, id@),
{
    let escaped = percent_encode(id);
    match call {
        UpstreamCall::Profile => join3("https://api.github.com/users/", escaped.as_str(), ""),
        UpstreamCall::Repos => join3("https://api.github.com/users/", escaped.as_str(), "/repos"),
        UpstreamCall::Events => join3("https://api.github.com/users/", escaped.as_str(), "/events"),
        UpstreamCall::MergedPullRequests => join3(
            "https://api.github.com/search/issues?q=author:",
            escaped.as_str(),
            "+type:pr+is:merged",
        ),
        UpstreamCall::Contributions => join3(
            "https://api.github.com/search/issues?q=involves:",
            escaped.as_str(),
            "",
        ),
        UpstreamCall::UserSearch => join3(
            "https://api.github.com/search/users?q=",
            escaped.as_str(),
            "",
        ),
    }
}

} // verus!
