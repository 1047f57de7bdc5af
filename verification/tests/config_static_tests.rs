use webpipe::config::AppConfig;
use webpipe::path::strip_prefix_segments;

#[test]
fn port_defaults_to_3000_when_unset() {
    let c = AppConfig::from_parts(None, "postgres://localhost/app".to_string(), None);
    assert_eq!(c.app_port, 3000);

    let c = AppConfig::from_parts(
        Some(8080),
        "postgres://localhost/app".to_string(),
        Some("key".to_string()),
    );
    assert_eq!(c.app_port, 8080);
    assert_eq!(c.api_key.as_deref(), Some("key"));
}

#[test]
fn static_mount_delegates_matched_prefix() {
    let mount = vec!["static".to_string()];

    let rest = strip_prefix_segments(&mount, "/static/images/favicon.ico")
        .expect("path under the mount");
    let texts: Vec<&str> = rest.iter().map(|s| s.as_str()).collect();
    assert_eq!(texts, vec!["images", "favicon.ico"]);

    // The mount itself, with nothing after it.
    let rest = strip_prefix_segments(&mount, "/static").expect("the mount itself");
    assert!(rest.is_empty());

    // Anything not under the mount is a not-found signal for the router.
    assert!(strip_prefix_segments(&mount, "/assets/favicon.ico").is_none());
    assert!(strip_prefix_segments(&mount, "/staticx").is_none());
}
