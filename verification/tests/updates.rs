use edged_core::updates::{due, newer_version, DAY};

#[test]
fn daily_checks_survive_restarts_and_handle_clock_changes() {
    assert!(due(None, 100));
    assert!(!due(Some(100), 200));
    assert!(due(Some(100), DAY));
    assert!(due(Some(200), 100));
}

#[test]
fn versions_are_compared_numerically_and_never_downgraded() {
    assert!(newer_version("0.9.0", "0.10.0"));
    assert!(!newer_version("0.10.0", "0.9.0"));
    assert!(!newer_version("0.10.0", "0.10.0"));
    assert!(!newer_version("0.10.0", "0.11.0-beta.1"));
    assert!(!newer_version("0.10.0", "invalid"));
    assert!(!newer_version("0.10.0+one", "0.10.0+two"));
}
