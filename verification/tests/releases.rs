use edged_core::updates::{stable_release, ReleaseError, Updates};

#[test]
fn a_stable_release_is_written_as_semver_writes_it() {
    assert_eq!(stable_release("0.2.0"), Ok("0.2.0".to_owned()));
    assert_eq!(stable_release("1.2.3+build.7"), Ok("1.2.3+build.7".to_owned()));
}

#[test]
fn a_prerelease_or_malformed_version_is_refused() {
    assert_eq!(stable_release("0.3.0-beta"), Err(ReleaseError::Prerelease));
    assert_eq!(stable_release("unavailable"), Err(ReleaseError::Malformed));
    assert_eq!(stable_release("1.2"), Err(ReleaseError::Malformed));
}

#[test]
fn a_check_is_attempted_once_a_day_and_never_twice_at_once() {
    let mut updates = Updates::start("0.1.0", &None, None, &None);
    assert!(updates.automatic);
    assert!(updates.check_due(1_000));
    let write = updates.start_check(1_000);
    assert!(write.is_some());
    assert!(updates.checking);
    assert!(updates.start_check(1_001).is_none());
    assert_eq!(updates.last_attempt, Some(1_000));
}

#[test]
fn the_stored_switch_and_last_attempt_are_read_back() {
    let updates = Updates::start(
        "0.1.0",
        &Some("off".to_owned()),
        Some("0.0.9".to_owned()),
        &Some("86400".to_owned()),
    );
    assert!(!updates.automatic);
    assert_eq!(updates.latest, None);
    assert_eq!(updates.last_attempt, Some(86_400));
    assert!(!updates.check_due(86_500));
}

#[test]
fn only_a_newer_stable_release_is_offered() {
    let mut updates = Updates::start("0.1.0", &None, None, &None);
    let _ = updates.start_check(10);
    let _ = updates.finish_check("0.1.0", Some("0.2.0".to_owned()), false);
    assert!(updates.checked);
    assert_eq!(updates.latest.as_deref(), Some("0.2.0"));

    let mut older = Updates::start("0.3.0", &None, None, &None);
    let _ = older.start_check(10);
    let _ = older.finish_check("0.3.0", Some("0.2.0".to_owned()), false);
    assert_eq!(older.latest, None);
}
