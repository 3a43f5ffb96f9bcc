use scrimora_link::app_state::AppState;
use scrimora_link::deep_link::{handle_deep_link, handle_url, query_value, DeepLinkError};

fn pairs(list: &[(&str, &str)]) -> Vec<(String, String)> {
    list.iter().map(|(k, v)| (k.to_string(), v.to_string())).collect()
}

#[test]
fn arms_a_session_from_a_deep_link() {
    let mut state = AppState::new();
    let query = pairs(&[("x", "1"), ("nonce", "n1"), ("origin", "https://scrimora.app"), ("nonce", "n2")]);
    assert_eq!(query_value(&query, "nonce").as_deref(), Some("n1"));
    handle_url(&mut state, &query).unwrap();
    state
        .verify_session("n1", "https://scrimora.app", Some("https://scrimora.app"))
        .unwrap();
}

#[test]
fn reports_what_the_deep_link_lacks() {
    let mut state = AppState::new();
    let err = handle_url(&mut state, &pairs(&[("origin", "https://scrimora.app")])).unwrap_err();
    assert!(matches!(err, DeepLinkError::MissingNonce));
    assert_eq!(err.message(), "The deep link did not include a nonce.");
    let err = handle_url(&mut state, &pairs(&[("nonce", "n")])).unwrap_err();
    assert!(matches!(err, DeepLinkError::MissingOrigin));
    assert_eq!(err.message(), "The deep link did not include an origin.");
    let err = handle_url(&mut state, &pairs(&[("nonce", "n"), ("origin", "https://x.example")])).unwrap_err();
    assert_eq!(err.message(), "Origin [https://x.example] is not allowed.");
}

#[test]
fn arms_a_session_from_a_deep_link_url() {
    let mut state = AppState::new();
    handle_deep_link(
        &mut state,
        "scrimora-link://pair?nonce=a%20b+c&origin=https%3A%2F%2Fscrimora.app",
    )
    .unwrap();
    state
        .verify_session("a b c", "https://scrimora.app", Some("https://scrimora.app"))
        .unwrap();
}

#[test]
fn refuses_what_is_not_a_deep_link_url() {
    let mut state = AppState::new();
    let err = handle_deep_link(&mut state, "not a url").unwrap_err();
    assert!(matches!(err, DeepLinkError::InvalidUrl));
    assert_eq!(err.message(), "The deep link is not a valid URL.");
    let err = handle_deep_link(&mut state, "scrimora-link://pair?origin=https://scrimora.app").unwrap_err();
    assert!(matches!(err, DeepLinkError::MissingNonce));
}
