use mail_core::auth::{
    authenticate_plain, credentials_from, decode_basic_credentials, mechanism, parse_authorization,
    AccessToken, AuthStep, Config, DirectoryAnswer, Mechanism, RemoteAddress, JMAP,
};
use mail_core::net::IpAddr;
use std::sync::Arc;

const SECOND: u128 = 1_000_000_000;

fn token(id: u32, name: &str) -> AccessToken {
    AccessToken { primary_id: id, member_of: vec![id + 100], name: name.to_string() }
}

fn jmap(rate_use_forwarded: bool) -> JMAP {
    JMAP::new(Config { session_cache_ttl: 3600 * SECOND, rate_use_forwarded })
}

#[test]
fn authorization_header_is_split_at_the_first_space() {
    assert_eq!(
        parse_authorization("Basic dXNlcjpwYXNz"),
        Some(("Basic".to_string(), "dXNlcjpwYXNz".to_string()))
    );
    assert_eq!(
        parse_authorization("Bearer   abc def \t"),
        Some(("Bearer".to_string(), "abc def".to_string()))
    );
    assert_eq!(parse_authorization(" x"), Some((String::new(), "x".to_string())));
    assert_eq!(parse_authorization("Basic "), Some(("Basic".to_string(), String::new())));
    assert_eq!(parse_authorization("Basic"), None);
    assert_eq!(parse_authorization(""), None);
}

#[test]
fn mechanisms_are_told_whatever_their_case() {
    assert_eq!(mechanism("basic"), Mechanism::Basic);
    assert_eq!(mechanism("BASIC"), Mechanism::Basic);
    assert_eq!(mechanism("BaSiC"), Mechanism::Basic);
    assert_eq!(mechanism("Bearer"), Mechanism::Bearer);
    assert_eq!(mechanism("bEARER"), Mechanism::Bearer);
    assert_eq!(mechanism("Digest"), Mechanism::Other);
    assert_eq!(mechanism("basic "), Mechanism::Other);
    assert_eq!(mechanism(""), Mechanism::Other);
}

#[test]
fn basic_credentials_are_decoded() {
    assert_eq!(
        decode_basic_credentials("dXNlcjpwYXNz"),
        Some(("user".to_string(), "pass".to_string()))
    );
    // " Jane@Example.ORG :s3cret:x": the login is trimmed and lowered, the
    // secret is everything behind the first colon.
    assert_eq!(
        decode_basic_credentials("IEphbmVARXhhbXBsZS5PUkcgOnMzY3JldDp4"),
        Some(("jane@example.org".to_string(), "s3cret:x".to_string()))
    );
    // "nocolon"
    assert_eq!(decode_basic_credentials("bm9jb2xvbg=="), None);
    // 0xff 0xfe ':' is no UTF-8.
    assert_eq!(decode_basic_credentials("//46"), None);
    assert_eq!(decode_basic_credentials(""), None);
}

#[test]
fn credentials_from_decoded_bytes() {
    assert_eq!(
        credentials_from(Some(b" A : b ".to_vec())),
        Some(("a".to_string(), " b ".to_string()))
    );
    assert_eq!(credentials_from(Some(b":".to_vec())), Some((String::new(), String::new())));
    assert_eq!(credentials_from(Some(vec![0xff, b':', b'x'])), None);
    assert_eq!(credentials_from(Some(b"abc".to_vec())), None);
    assert_eq!(credentials_from(None), None);
}

#[test]
fn sessions_are_found_until_they_expire() {
    let mut jmap = jmap(false);
    let id = "session-1".to_string();
    assert_eq!(jmap.session_at(&id, 0), None);
    jmap.cache_session_at(id.clone(), &token(7, "jane"), 10);
    assert_eq!(jmap.session_at(&id, 10), Some(7));
    assert_eq!(jmap.session_at(&id, 10 + 3600 * SECOND), Some(7));
    assert_eq!(jmap.session_at(&id, 11 + 3600 * SECOND), None);
    assert_eq!(jmap.session_at(&"session-2".to_string(), 10), None);
}

#[test]
fn caching_a_session_again_replaces_it() {
    let mut jmap = jmap(false);
    let id = "s".to_string();
    jmap.cache_session_at(id.clone(), &token(7, "jane"), 0);
    jmap.cache_session_at("t".to_string(), &token(9, "joe"), 0);
    jmap.cache_session_at(id.clone(), &token(8, "john"), 5);
    assert_eq!(jmap.session_at(&id, 5 + 3600 * SECOND), Some(8));
    assert_eq!(jmap.session_at(&"t".to_string(), 1), Some(9));
    assert_eq!(jmap.session_at(&"t".to_string(), 1 + 3600 * SECOND), None);
}

#[test]
fn access_tokens_are_found_until_they_expire() {
    let mut jmap = jmap(false);
    assert!(jmap.get_cached_access_token_at(7, 0).is_none());
    jmap.cache_access_token_at(Arc::new(token(7, "jane")), 10);
    assert_eq!(*jmap.get_cached_access_token_at(7, 10 + 3600 * SECOND).unwrap(), token(7, "jane"));
    assert!(jmap.get_cached_access_token_at(7, 11 + 3600 * SECOND).is_none());
    assert!(jmap.get_cached_access_token_at(8, 10).is_none());
    jmap.cache_access_token_at(Arc::new(token(7, "jane doe")), 20);
    assert_eq!(jmap.get_cached_access_token_at(7, 20).unwrap().name, "jane doe");
}

#[test]
fn caches_on_the_real_clock() {
    let mut jmap = jmap(false);
    jmap.cache_session("s".to_string(), &token(7, "jane"));
    jmap.cache_access_token(Arc::new(token(7, "jane")));
    let now = jmap.now();
    assert_eq!(jmap.session_at(&"s".to_string(), now), Some(7));
    assert_eq!(*jmap.get_cached_access_token(7).unwrap(), token(7, "jane"));
    assert!(jmap.get_cached_access_token(8).is_none());
    assert!(matches!(
        jmap.authenticate_headers(Some("Bearer s")),
        AuthStep::Session { account_id: 7 }
    ));
}

#[test]
fn a_session_cache_without_lifetime_forgets_at_once() {
    let mut jmap = JMAP::new(Config { session_cache_ttl: 0, rate_use_forwarded: false });
    jmap.cache_session_at("s".to_string(), &token(7, "jane"), 5);
    assert_eq!(jmap.session_at(&"s".to_string(), 5), Some(7));
    assert_eq!(jmap.session_at(&"s".to_string(), 6), None);
}

#[test]
fn fetched_tokens_are_cached() {
    let mut jmap = jmap(false);
    assert!(jmap.refresh_access_token(None).is_none());
    assert!(jmap.get_cached_access_token(7).is_none());
    let shared = jmap.refresh_access_token(Some(token(7, "jane"))).unwrap();
    assert_eq!(*shared, token(7, "jane"));
    assert_eq!(*jmap.get_cached_access_token(7).unwrap(), token(7, "jane"));
}

#[test]
fn completing_authentication_caches_session_and_token() {
    let mut jmap = jmap(false);
    let shared = jmap.complete_authentication("tok".to_string(), token(7, "jane"));
    assert_eq!(*shared, token(7, "jane"));
    let now = jmap.now();
    assert_eq!(jmap.session_at(&"tok".to_string(), now), Some(7));
    assert_eq!(*jmap.get_cached_access_token_at(7, now).unwrap(), token(7, "jane"));
}

#[test]
fn remote_address_of_a_request() {
    let peer = IpAddr::V4([10, 0, 0, 1]);
    assert_eq!(jmap(false).build_remote_addr(Some(" 192.0.2.1 "), peer), RemoteAddress::IpAddress(peer));
    assert_eq!(jmap(false).build_remote_addr(None, peer), RemoteAddress::IpAddress(peer));
    assert_eq!(
        jmap(true).build_remote_addr(Some(" for=192.0.2.1 "), peer),
        RemoteAddress::IpAddressFwd("for=192.0.2.1".to_string())
    );
    assert_eq!(
        jmap(true).build_remote_addr(None, peer),
        RemoteAddress::IpAddress(IpAddr::V4([127, 0, 0, 1]))
    );
    assert_eq!(IpAddr::loopback(), IpAddr::V4([127, 0, 0, 1]));
}

#[test]
fn requests_without_a_usable_header_are_anonymous() {
    let jmap = jmap(false);
    assert!(matches!(jmap.authenticate_headers_at(None, 0), AuthStep::Anonymous));
    assert!(matches!(jmap.authenticate_headers_at(Some("Basic"), 0), AuthStep::Anonymous));
    assert!(matches!(jmap.authenticate_headers_at(Some(""), 0), AuthStep::Anonymous));
}

#[test]
fn a_live_session_needs_no_credentials() {
    let mut jmap = jmap(false);
    jmap.cache_session_at("dXNlcjpwYXNz".to_string(), &token(7, "jane"), 0);
    assert!(matches!(
        jmap.authenticate_headers_at(Some("Basic dXNlcjpwYXNz"), 1),
        AuthStep::Session { account_id: 7 }
    ));
    assert!(matches!(
        jmap.authenticate_headers_at(Some("Whatever  dXNlcjpwYXNz  "), 1),
        AuthStep::Session { account_id: 7 }
    ));
    match jmap.authenticate_headers_at(Some("Basic dXNlcjpwYXNz"), 1 + 3600 * SECOND) {
        AuthStep::Basic { token, credentials } => {
            assert_eq!(token, "dXNlcjpwYXNz");
            assert_eq!(credentials, Some(("user".to_string(), "pass".to_string())));
        }
        other => panic!("{:?}", other),
    }
}

#[test]
fn mechanisms_lead_to_their_steps() {
    let jmap = jmap(false);
    match jmap.authenticate_headers_at(Some("basic bm9jb2xvbg=="), 0) {
        AuthStep::Basic { token, credentials } => {
            assert_eq!(token, "bm9jb2xvbg==");
            assert_eq!(credentials, None);
        }
        other => panic!("{:?}", other),
    }
    match jmap.authenticate_headers_at(Some("BEARER abc.def"), 0) {
        AuthStep::Bearer { token } => assert_eq!(token, "abc.def"),
        other => panic!("{:?}", other),
    }
    assert!(matches!(jmap.authenticate_headers_at(Some("Digest abc"), 0), AuthStep::Unsupported));
}

#[test]
fn only_unknown_credentials_count_as_failures() {
    assert_eq!(
        authenticate_plain(DirectoryAnswer::Found(token(7, "jane"))),
        (Some(token(7, "jane")), false)
    );
    assert_eq!(authenticate_plain(DirectoryAnswer::NotFound), (None, true));
    assert_eq!(authenticate_plain(DirectoryAnswer::Failed), (None, false));
}
