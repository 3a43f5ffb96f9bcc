use scrimora_link::telemetry::telemetry_event;

#[test]
fn builds_an_event_with_only_version_os_and_arch() {
    let event = telemetry_event("site-1", "app_started", "1.2.3", "linux", "x86_64");
    assert_eq!(event.event_type, "event");
    assert_eq!(event.hostname, "scrimora-link");
    assert_eq!(event.title, "Scrimora Link");
    assert_eq!(event.url, "/desktop");
    assert_eq!(event.website, "site-1");
    assert_eq!(event.name, "app_started");
    assert_eq!(
        event.data,
        vec![
            ("version".to_string(), "1.2.3".to_string()),
            ("os".to_string(), "linux".to_string()),
            ("arch".to_string(), "x86_64".to_string()),
        ]
    );
}
