use scrimora_link::config::{
    bundled_updater_endpoint, bundled_updater_public_key, configured_value, event_endpoint,
    telemetry_config, telemetry_disabled, telemetry_settings, updater_endpoint_text,
};

#[test]
fn ignores_empty_configured_values() {
    assert_eq!(configured_value(None, Some("   ")), None);
}

#[test]
fn trims_compile_time_values() {
    assert_eq!(
        configured_value(None, Some("  value  ")),
        Some("value".to_string())
    );
}

#[test]
fn prefers_the_runtime_value() {
    assert_eq!(configured_value(Some(" run ".to_string()), Some("built")), Some("run".to_string()));
    // A blank run-time value does not fall back on the compiled-in one.
    assert_eq!(configured_value(Some("  ".to_string()), Some("built")), None);
    assert_eq!(configured_value(None, None), None);
}

#[test]
fn recognizes_the_telemetry_switch() {
    for v in ["1", "true", "TRUE", "yes", "YES", " yes "] {
        assert!(telemetry_disabled(&Some(v.to_string())), "{v}");
    }
    for v in ["0", "True", "no", ""] {
        assert!(!telemetry_disabled(&Some(v.to_string())), "{v}");
    }
    assert!(!telemetry_disabled(&None));
}

#[test]
fn builds_the_telemetry_configuration() {
    assert_eq!(telemetry_config(Some("1".to_string()), Some("site".to_string()), None), None);
    assert_eq!(telemetry_config(None, None, None), None);
    assert_eq!(
        telemetry_config(None, Some("site".to_string()), None),
        Some(("site".to_string(), "https://analytics.scrimora.app".to_string()))
    );
    assert_eq!(
        telemetry_config(Some("no".to_string()), Some("site".to_string()), Some(" https://a.example ".to_string())),
        Some(("site".to_string(), "https://a.example".to_string()))
    );
    let settings = telemetry_settings(None, Some("site".to_string()), None).unwrap();
    assert_eq!(settings.website_id, "site");
    assert_eq!(settings.endpoint, "https://analytics.scrimora.app/");
    assert_eq!(event_endpoint(&settings).unwrap(), "https://analytics.scrimora.app/api/send");
    let nested = telemetry_settings(None, Some("site".to_string()), Some("https://a.example/base/x".to_string())).unwrap();
    assert_eq!(event_endpoint(&nested).unwrap(), "https://a.example/api/send");
    assert!(telemetry_settings(None, Some("site".to_string()), Some("not a url".to_string())).is_none());
}

#[test]
fn reads_the_updater_settings() {
    assert_eq!(bundled_updater_public_key(Some("key")), Some("key"));
    assert_eq!(bundled_updater_public_key(Some("  ")), None);
    assert_eq!(bundled_updater_public_key(None), None);
    assert_eq!(
        updater_endpoint_text(Some(" https://u.example/latest.json"), Some("org/repo")),
        Some(" https://u.example/latest.json".to_string())
    );
    assert_eq!(
        updater_endpoint_text(Some(" "), Some("org/repo")),
        Some("https://github.com/org/repo/releases/latest/download/latest.json".to_string())
    );
    assert_eq!(updater_endpoint_text(None, Some("")), None);
    let url = bundled_updater_endpoint(None, Some("org/repo")).unwrap();
    assert_eq!(url, "https://github.com/org/repo/releases/latest/download/latest.json");
    assert_eq!(
        bundled_updater_endpoint(Some("HTTPS://U.example/a/../latest.json"), None).unwrap(),
        "https://u.example/latest.json"
    );
    assert!(bundled_updater_endpoint(Some("::"), None).is_none());
    assert!(bundled_updater_endpoint(None, None).is_none());
}
