use edged_core::dock::badge_count;

#[test]
fn a_badge_is_a_count_or_a_dot() {
    assert_eq!(badge_count("7").as_deref(), Some("7"));
    assert_eq!(badge_count("120").as_deref(), Some("99+"));
    assert_eq!(badge_count("new"), None);
}
