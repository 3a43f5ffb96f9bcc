use scrimora_link::app_state::{AppState, LcuConnectionStatus, SessionError, SESSION_TTL_NS};
use scrimora_link::app_state::allowed_origin_list;

#[test]
fn verifies_the_active_paired_session() {
    let mut state = AppState::new();
    state
        .arm_session("nonce-1".to_string(), "https://scrimora.app".to_string())
        .expect("session to arm");

    state
        .verify_session(
            "nonce-1",
            "https://scrimora.app",
            Some("https://scrimora.app"),
        )
        .expect("session to verify");
}

#[test]
fn consumes_a_session_after_a_successful_verification() {
    let mut state = AppState::new();
    state
        .arm_session("nonce-1".to_string(), "https://scrimora.app".to_string())
        .expect("session to arm");

    state
        .verify_session(
            "nonce-1",
            "https://scrimora.app",
            Some("https://scrimora.app"),
        )
        .expect("session to verify");

    let second_attempt = state.verify_session(
        "nonce-1",
        "https://scrimora.app",
        Some("https://scrimora.app"),
    );

    assert!(second_attempt.is_err());
}

#[test]
fn second_attempt_reports_no_active_session() {
    let mut state = AppState::new();
    state.arm_session_at("n".to_string(), "http://localhost:3000".to_string(), 10).unwrap();
    state.verify_session_at("n", "http://localhost:3000", Some("http://localhost:3000"), 20).unwrap();
    let err = state
        .verify_session_at("n", "http://localhost:3000", Some("http://localhost:3000"), 30)
        .unwrap_err();
    assert!(matches!(err, SessionError::NoActiveSession));
    assert_eq!(err.message(), "No active import session is registered.");
}

#[test]
fn refuses_to_arm_a_disallowed_origin() {
    let mut state = AppState::new();
    let err = state
        .arm_session("nonce-1".to_string(), "https://evil.example".to_string())
        .unwrap_err();
    assert_eq!(err.message(), "Origin [https://evil.example] is not allowed.");
    // Nothing was armed.
    let err = state
        .verify_session("nonce-1", "https://evil.example", Some("https://evil.example"))
        .unwrap_err();
    assert!(matches!(err, SessionError::NoActiveSession));
}

#[test]
fn expires_after_the_time_to_live() {
    let mut state = AppState::new();
    state.arm_session_at("n".to_string(), "https://scrimora.app".to_string(), 1000).unwrap();
    let late = 1000 + SESSION_TTL_NS + 1;
    let err = state
        .verify_session_at("n", "https://scrimora.app", Some("https://scrimora.app"), late)
        .unwrap_err();
    assert!(matches!(err, SessionError::Expired));
    assert_eq!(err.message(), "The import session expired. Re-open Scrimora Link.");
    // At the expiry itself the session still verifies, and a refusal left it armed.
    state
        .verify_session_at("n", "https://scrimora.app", Some("https://scrimora.app"), 1000 + SESSION_TTL_NS)
        .unwrap();
}

#[test]
fn reports_each_mismatch_in_order() {
    let mut state = AppState::new();
    state.arm_session_at("n".to_string(), "https://scrimora.app".to_string(), 0).unwrap();

    let err = state.verify_session_at("m", "https://scrimora.app", Some("https://scrimora.app"), 1).unwrap_err();
    assert!(matches!(err, SessionError::NonceMismatch));
    assert_eq!(err.message(), "The import nonce does not match the active session.");

    let err = state.verify_session_at("n", "https://dev.scrimora.app", Some("https://scrimora.app"), 1).unwrap_err();
    assert!(matches!(err, SessionError::ClaimedOriginMismatch));
    assert_eq!(err.message(), "The claimed origin does not match the deep-link origin.");

    let err = state.verify_session_at("n", "https://scrimora.app", None, 1).unwrap_err();
    assert!(matches!(err, SessionError::HeaderOriginMismatch));
    assert_eq!(err.message(), "The websocket Origin header did not match the paired site.");

    let err = state.verify_session_at("n", "https://scrimora.app", Some("https://dev.scrimora.app"), 1).unwrap_err();
    assert!(matches!(err, SessionError::HeaderOriginMismatch));

    // The failures left the session armed.
    state.verify_session_at("n", "https://scrimora.app", Some("https://scrimora.app"), 1).unwrap();
}

#[test]
fn rearming_replaces_the_session() {
    let mut state = AppState::new();
    state.arm_session_at("first".to_string(), "https://scrimora.app".to_string(), 0).unwrap();
    state.arm_session_at("second".to_string(), "https://scrimora.app".to_string(), 0).unwrap();
    let err = state.verify_session_at("first", "https://scrimora.app", Some("https://scrimora.app"), 1).unwrap_err();
    assert!(matches!(err, SessionError::NonceMismatch));
    state.verify_session_at("second", "https://scrimora.app", Some("https://scrimora.app"), 1).unwrap();
}

#[test]
fn records_the_bridge_port() {
    let mut state = AppState::new();
    assert_eq!(state.bridge_port(), None);
    state.set_bridge_port(36131);
    assert_eq!(state.bridge_port(), Some(36131));
}

#[test]
fn allows_extra_origins_trimmed_sorted_and_deduplicated() {
    let list = allowed_origin_list(Some(" https://b.example , ,https://scrimora.app,https://a.example"));
    assert_eq!(
        list,
        vec![
            "http://127.0.0.1:3000".to_string(),
            "http://127.0.0.1:5173".to_string(),
            "http://localhost:3000".to_string(),
            "http://localhost:5173".to_string(),
            "https://127.0.0.1".to_string(),
            "https://a.example".to_string(),
            "https://b.example".to_string(),
            "https://dev.scrimora.app".to_string(),
            "https://localhost".to_string(),
            "https://scrimora.app".to_string(),
        ]
    );
    let mut state = AppState::with_extra_allowed_origins(Some("https://a.example"));
    assert!(state.is_allowed_origin("https://a.example"));
    assert!(!state.is_allowed_origin("https://a.example/"));
    state.arm_session("x".to_string(), "https://a.example".to_string()).unwrap();
}

#[test]
fn allows_only_http_and_https_extra_origins() {
    let list = allowed_origin_list(Some("x,ftp://files.example, https://ok.example ,http:/bad,http://also.example"));
    assert_eq!(list.len(), 10);
    assert!(list.contains(&"https://ok.example".to_string()));
    assert!(list.contains(&"http://also.example".to_string()));
    assert!(list.iter().all(|o| o.starts_with("http://") || o.starts_with("https://")));
    let mut state = AppState::with_extra_allowed_origins(Some("x"));
    assert!(!state.is_allowed_origin("x"));
    assert!(state.arm_session("n".to_string(), "x".to_string()).is_err());
}

#[test]
fn base_allowlist_without_extras() {
    let list = allowed_origin_list(None);
    assert_eq!(list.len(), 8);
    let mut sorted = list.clone();
    sorted.sort();
    assert_eq!(list, sorted);
}

#[test]
fn connection_status_values_are_distinct() {
    assert_ne!(LcuConnectionStatus::Connected, LcuConnectionStatus::Connecting);
}
