use std::collections::HashSet;

use edged_core::previews::{
    image_step, preview_caption, Consider, ImageStep, PictureStep, PreviewState, FOLLOW, REST,
};
use edged_core::settings::PreviewTrigger;

#[test]
fn resting_on_rows_shows_then_follows() {
    let mut state = PreviewState::new(false);
    assert_eq!(state.rest_on(PreviewTrigger::Hover, Some(4)), Consider::Rest(4, REST));
    state.show(4);
    assert_eq!(state.rest_on(PreviewTrigger::Hover, Some(5)), Consider::Rest(5, FOLLOW));
    assert_eq!(state.rest_on(PreviewTrigger::Hover, Some(4)), Consider::Stay);
    assert_eq!(state.rest_on(PreviewTrigger::Hover, None), Consider::Linger);
    assert!(state.take_away());
    assert!(!state.take_away());
}

#[test]
fn the_command_key_brings_the_preview_and_takes_it_away() {
    let mut state = PreviewState::new(false);
    assert_eq!(state.rest_on(PreviewTrigger::CommandKey, Some(4)), Consider::Nothing);
    assert_eq!(
        state.command_changed(PreviewTrigger::CommandKey, true),
        Some(Consider::Rest(4, REST))
    );
    state.show(4);
    assert_eq!(
        state.command_changed(PreviewTrigger::CommandKey, false),
        Some(Consider::Linger)
    );
    assert_eq!(state.command_changed(PreviewTrigger::Hover, true), None);
}

#[test]
fn a_picture_is_listed_then_taken_then_kept() {
    let mut state = PreviewState::new(false);
    state.show(4);
    assert_eq!(state.picture_needed(false, 4, 0), PictureStep::Nothing);
    assert_eq!(state.picture_needed(true, 4, 0), PictureStep::List);
    assert!(state.start_listing());
    assert!(!state.start_listing());
    let targets: HashSet<u32> = [4, 5].into_iter().collect();
    assert_eq!(state.targets_listed(targets, 100), Some(4));
    assert_eq!(state.picture_needed(true, 4, 200), PictureStep::Capture);
    assert_eq!(state.picture_needed(true, 6, 200), PictureStep::Nothing);
    assert!(state.start_capture(4));
    assert!(!state.start_capture(6));
    assert_eq!(state.picture_needed(true, 4, 200), PictureStep::Nothing);
    assert_eq!(state.captured(4, true, 300), None);
    assert_eq!(state.kept.taken(4), Some(300));
    assert_eq!(state.picture_needed(true, 4, 1_000), PictureStep::Nothing);
    assert_eq!(state.picture_needed(true, 4, 2_300), PictureStep::Capture);
    assert_eq!(state.captured(5, false, 400), None);
    assert_eq!(state.kept.taken(5), None);
}

#[test]
fn a_window_without_a_title_is_captioned_untitled() {
    assert_eq!(preview_caption(&String::new()), "Untitled");
    assert_eq!(preview_caption(&"Draft".to_owned()), "Draft");
}

#[test]
fn a_picture_of_another_window_fades_in_and_the_same_one_stays() {
    assert_eq!(image_step(None, 4, 100), ImageStep::Import { fade_in: true });
    assert_eq!(image_step(Some((4, 100)), 4, 100), ImageStep::Keep);
    assert_eq!(image_step(Some((4, 100)), 4, 300), ImageStep::Import { fade_in: false });
    assert_eq!(image_step(Some((4, 100)), 5, 100), ImageStep::Import { fade_in: true });
}
