use fc_dll::dispatch::{launch_status, open_action, OpenAction};
use fc_dll::encode::{is_component_byte, percent_encode_component};
use fc_dll::fallback::{fallback_address, get_fallback, rewrite_as_https, FallbackError};
use fc_dll::scheme::is_scheme_invalid;

const SUFFIX: &str = "/.well-known/protocol-handler?target=";

#[test]
fn no_colon_is_not_an_url() {
    for t in ["", "example", "web+example", "web+example//host/path"] {
        assert_eq!(get_fallback(t), Err(FallbackError::NotAnUrl), "{t}");
    }
}

#[test]
fn other_scheme_is_not_an_url() {
    for t in ["https://example.com/", "mailto:a@b", "web:foo", "xweb+a://b", "WEB+a://b", ":web+a://b"] {
        assert_eq!(get_fallback(t), Err(FallbackError::NotAnUrl), "{t}");
    }
}

#[test]
fn invalid_scheme_names_are_rejected() {
    for t in ["web+A:x", "web+:x", "web+ab3:x", "web+ab_cd:x", "web+exAmple://host/", "web+\u{e9}://host/"] {
        assert_eq!(get_fallback(t), Err(FallbackError::NotAnUrl), "{t}");
    }
}

#[test]
fn valid_scheme_name_passes_validation() {
    assert!(!is_scheme_invalid("example"));
    assert!(!is_scheme_invalid("a"));
    assert!(is_scheme_invalid(""));
    assert!(is_scheme_invalid("A"));
    assert!(is_scheme_invalid("ab3"));
    assert!(is_scheme_invalid("ab_cd"));
    assert_eq!(get_fallback("web+example:x"), Err(FallbackError::NoHandler));
}

#[test]
fn missing_authority_has_no_handler() {
    assert_eq!(get_fallback("web+example:foo"), Err(FallbackError::NoHandler));
    assert_eq!(get_fallback("web+example:/foo"), Err(FallbackError::NoHandler));
    assert_eq!(get_fallback("web+example:"), Err(FallbackError::NoHandler));
}

#[test]
fn empty_authority_has_no_handler() {
    assert_eq!(get_fallback("web+example:///bar"), Err(FallbackError::NoHandler));
}

#[test]
fn backslash_authority_has_no_handler() {
    assert_eq!(get_fallback("web+example:///\\x"), Err(FallbackError::NoHandler));
    assert_eq!(get_fallback("web+example://\\x"), Err(FallbackError::NoHandler));
}

#[test]
fn empty_host_is_refused_by_the_parser() {
    assert_eq!(rewrite_as_https("web+example://").unwrap(), "https://");
    assert_eq!(get_fallback("web+example://"), Err(FallbackError::NoHandler));
}

#[test]
fn backslash_after_host_is_a_path_separator() {
    let t = "web+example://bar\\baz";
    assert_eq!(rewrite_as_https(t).unwrap(), "https://bar\\baz");
    let f = get_fallback(t).unwrap();
    assert_eq!(f, "https://bar/.well-known/protocol-handler?target=web%2Bexample%3A%2F%2Fbar%5Cbaz");
    let u = url::Url::parse(&f).unwrap();
    assert_eq!(u.host_str(), Some("bar"));
}

#[test]
fn round_trip_keeps_host_and_port_only() {
    let t = "web+example://host:1234/path?q=1#frag";
    let f = get_fallback(t).unwrap();
    assert_eq!(
        f,
        "https://host:1234/.well-known/protocol-handler?target=web%2Bexample%3A%2F%2Fhost%3A1234%2Fpath%3Fq%3D1%23frag"
    );
    let u = url::Url::parse(&f).unwrap();
    assert_eq!(u.scheme(), "https");
    assert_eq!(u.host_str(), Some("host"));
    assert_eq!(u.port(), Some(1234));
    assert_eq!(u.path(), "/.well-known/protocol-handler");
    assert_eq!(u.fragment(), None);
    assert_eq!(u.username(), "");
    assert_eq!(u.password(), None);
    let expected_query = format!("target={}", percent_encode_component(t));
    assert_eq!(u.query(), Some(expected_query.as_str()));
}

#[test]
fn credentials_and_default_port_are_dropped() {
    let t = "web+example://user:pw@host:443/x";
    let f = get_fallback(t).unwrap();
    assert_eq!(f, format!("https://host{}{}", SUFFIX, "web%2Bexample%3A%2F%2Fuser%3Apw%40host%3A443%2Fx"));
}

#[test]
fn host_is_normalized_by_the_parser() {
    let f = get_fallback("web+example://HOST.Example/").unwrap();
    assert_eq!(f, format!("https://host.example{}{}", SUFFIX, "web%2Bexample%3A%2F%2FHOST.Example%2F"));
}

#[test]
fn rewrite_replaces_only_the_scheme() {
    assert_eq!(rewrite_as_https("web+abc://h/p?q#f").unwrap(), "https://h/p?q#f");
    assert_eq!(rewrite_as_https("web+abc:foo"), Err(FallbackError::NoHandler));
    assert_eq!(rewrite_as_https("web+ab1://h"), Err(FallbackError::NotAnUrl));
}

#[test]
fn fallback_address_appends_path_and_query() {
    assert_eq!(
        fallback_address("https://h:8", "a b"),
        "https://h:8/.well-known/protocol-handler?target=a%20b"
    );
    assert_eq!(fallback_address("o", ""), "o/.well-known/protocol-handler?target=");
}

#[test]
fn component_set_bytes_are_escaped() {
    let set = " \"#<>?`{}/:;=@[\\]^|$%&+,";
    assert_eq!(
        percent_encode_component(set),
        "%20%22%23%3C%3E%3F%60%7B%7D%2F%3A%3B%3D%40%5B%5C%5D%5E%7C%24%25%26%2B%2C"
    );
    assert_eq!(percent_encode_component("\u{0}\t\n\u{1f}\u{7f}"), "%00%09%0A%1F%7F");
    for b in 0u8..0x80 {
        let in_set = b < 0x20 || b == 0x7f || set.as_bytes().contains(&b);
        assert_eq!(is_component_byte(b), in_set, "{b}");
    }
    for b in 0x80u8..=0xff {
        assert!(!is_component_byte(b), "{b}");
    }
}

#[test]
fn non_ascii_bytes_are_escaped() {
    assert_eq!(percent_encode_component("\u{e9}"), "%C3%A9");
    assert_eq!(percent_encode_component("a\u{1f600}"), "a%F0%9F%98%80");
}

#[test]
fn safe_bytes_pass_through() {
    let safe = "AZaz09-._~'!*()";
    assert_eq!(percent_encode_component(safe), safe);
    assert_eq!(percent_encode_component(&percent_encode_component(safe)), safe);
    assert_eq!(percent_encode_component(""), "");
}

#[test]
fn encoding_is_not_involutive() {
    let once = percent_encode_component("a b");
    assert_eq!(once, "a%20b");
    assert_eq!(percent_encode_component(&once), "a%2520b");
}

#[test]
fn error_messages() {
    assert_eq!(FallbackError::NoHandler.message(), "url does not contain a fallback handler");
    assert_eq!(FallbackError::NotAnUrl.message(), "url is not an appropriate web+ url");
}

/// Runs the entry point's decisions against a fake launcher that answers
/// with `accepts`, and reports the status and whether it was asked.
fn dispatch_with(target: Option<&str>, accepts: bool) -> (i32, bool) {
    match open_action(target) {
        OpenAction::Finish(s) => (s, false),
        OpenAction::Launch { target: t, fallback } => {
            assert_eq!(Some(t.as_str()), target);
            assert_eq!(Ok(fallback), get_fallback(&t));
            (launch_status(accepts), true)
        }
    }
}

#[test]
fn dispatch_reports_failure_without_launching() {
    assert_eq!(dispatch_with(None, true), (0, false));
    assert_eq!(dispatch_with(Some("example"), true), (0, false));
    assert_eq!(dispatch_with(Some("web+example:foo"), true), (0, false));
    assert_eq!(dispatch_with(Some("web+example:///bar"), true), (0, false));
}

#[test]
fn dispatch_reports_the_launch_answer() {
    assert_eq!(dispatch_with(Some("web+example://host/x"), true), (1, true));
    assert_eq!(dispatch_with(Some("web+example://host/x"), false), (0, true));
}

#[test]
fn open_action_carries_both_addresses() {
    match open_action(Some("web+example://host:1234/p")) {
        OpenAction::Launch { target, fallback } => {
            assert_eq!(target, "web+example://host:1234/p");
            assert_eq!(
                fallback,
                "https://host:1234/.well-known/protocol-handler?target=web%2Bexample%3A%2F%2Fhost%3A1234%2Fp"
            );
        }
        OpenAction::Finish(s) => panic!("unexpected finish {s}"),
    }
    assert!(matches!(open_action(None), OpenAction::Finish(0)));
}
