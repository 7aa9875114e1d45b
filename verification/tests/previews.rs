use edged_core::previews::{
    allowed, command_changed, consider, picture_step, rest_on, Consider, Kept, PictureStep, FOLLOW,
    KEEP, LINGER, REST,
};
use edged_core::settings::PreviewTrigger;

#[test]
fn a_first_preview_waits_longer_than_the_next() {
    assert_eq!(consider(None, Some(4)), Consider::Rest(4, REST));
    assert_eq!(consider(Some(3), Some(4)), Consider::Rest(4, FOLLOW));
    assert!(FOLLOW < REST);
    assert_eq!(consider(Some(4), Some(4)), Consider::Stay);
    assert_eq!(consider(Some(4), None), Consider::Linger);
    assert_eq!(consider(None, None), Consider::Nothing);
    assert_eq!(LINGER, 160);
}

#[test]
fn the_command_setting_waits_for_the_key() {
    assert!(allowed(PreviewTrigger::Hover, false));
    assert!(!allowed(PreviewTrigger::CommandKey, false));
    assert_eq!(rest_on(PreviewTrigger::CommandKey, false, Some(4)), None);
    assert_eq!(rest_on(PreviewTrigger::CommandKey, true, Some(4)), Some(4));
    assert_eq!(command_changed(PreviewTrigger::Hover, true, Some(4)), None);
    assert_eq!(command_changed(PreviewTrigger::CommandKey, true, Some(4)), Some(Some(4)));
    assert_eq!(command_changed(PreviewTrigger::CommandKey, false, Some(4)), Some(None));
}

#[test]
fn a_picture_is_taken_only_when_it_can_be_and_is_stale() {
    assert_eq!(picture_step(false, false, None, true, None, 0), PictureStep::Nothing);
    assert_eq!(picture_step(true, true, None, true, None, 0), PictureStep::Nothing);
    assert_eq!(picture_step(true, false, Some(1_000), true, None, 2_500), PictureStep::Nothing);
    assert_eq!(picture_step(true, false, Some(1_000), true, None, 3_000), PictureStep::Capture);
    assert_eq!(picture_step(true, false, None, false, None, 0), PictureStep::List);
    assert_eq!(picture_step(true, false, None, false, Some(1_000), 6_000), PictureStep::Nothing);
    assert_eq!(picture_step(true, false, None, false, Some(1_000), 6_001), PictureStep::List);
}

#[test]
fn the_oldest_picture_goes_once_there_are_too_many() {
    let mut kept = Kept::new();
    for id in 0..KEEP as u32 {
        assert_eq!(kept.keep(id, 100 + id as u64), None);
    }
    assert_eq!(kept.keep(3, 500), None);
    assert_eq!(kept.taken(3), Some(500));
    assert_eq!(kept.keep(99, 600), Some(0));
    assert_eq!(kept.taken(0), None);
    assert_eq!(kept.taken(99), Some(600));
    assert_eq!(kept.keep(100, 700), Some(1));
}
