use github_user::fetcher::UpstreamCall;
use github_user::gateway::{hex_char, is_unreserved, percent_encode, request_url};

#[test]
fn addresses_of_the_calls() {
    assert_eq!(request_url(UpstreamCall::Profile, "octocat"), "https://api.github.com/users/octocat");
    assert_eq!(
        request_url(UpstreamCall::Repos, "octocat"),
        "https://api.github.com/users/octocat/repos"
    );
    assert_eq!(
        request_url(UpstreamCall::Events, "octocat"),
        "https://api.github.com/users/octocat/events"
    );
    assert_eq!(
        request_url(UpstreamCall::MergedPullRequests, "octocat"),
        "https://api.github.com/search/issues?q=author:octocat+type:pr+is:merged"
    );
    assert_eq!(
        request_url(UpstreamCall::Contributions, "octocat"),
        "https://api.github.com/search/issues?q=involves:octocat"
    );
    assert_eq!(
        request_url(UpstreamCall::UserSearch, "octo cat"),
        "https://api.github.com/search/users?q=octo%20cat"
    );
}

#[test]
fn identifiers_are_percent_encoded() {
    assert_eq!(percent_encode(""), "");
    assert_eq!(percent_encode("AZaz09-._~"), "AZaz09-._~");
    assert_eq!(percent_encode("a/b?c&d=e+f"), "a%2Fb%3Fc%26d%3De%2Bf");
    assert_eq!(percent_encode("é"), "%C3%A9");
    assert_eq!(percent_encode("\u{0}\u{7f}"), "%00%7F");
    assert_eq!(percent_encode("日本"), "%E6%97%A5%E6%9C%AC");
    assert_eq!(
        request_url(UpstreamCall::Profile, "../x"),
        "https://api.github.com/users/..%2Fx"
    );
}

#[test]
fn hexadecimal_digits_and_unreserved_bytes() {
    let digits: String = (0u8..16).map(hex_char).collect();
    assert_eq!(digits, "0123456789ABCDEF");
    for b in 0u8..=255 {
        let c = b as char;
        let expected = c.is_ascii_alphanumeric() || "-._~".contains(c);
        assert_eq!(is_unreserved(b), expected && b < 128);
    }
}
