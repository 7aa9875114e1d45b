use edged_core::motion::{slide, Motion, FADE};
use edged_core::panels::{gone_panels, pointer_looked, to_open};

#[test]
fn panels_follow_the_displays() {
    assert_eq!(gone_panels(&vec![1, 2, 3], &vec![3, 1]), vec![1]);
    assert!(gone_panels(&vec![1], &vec![1]).is_empty());
    assert_eq!(to_open(&vec![1, 2, 3, 4], &vec![1], &vec![3]), vec![2, 4]);
}

#[test]
fn the_panel_slides_in_after_two_looks_miss_the_pointer() {
    assert_eq!(pointer_looked(0, false), (1, false));
    assert_eq!(pointer_looked(1, false), (2, true));
    assert_eq!(pointer_looked(1, true), (0, false));
}

#[test]
fn reduced_motion_slides_nothing_and_fades_the_rest() {
    let full = Motion::for_setting(false);
    assert_eq!(full.slide_out, 100);
    assert_eq!(full.highlight, 220);
    assert!(!full.reduced);
    let reduced = Motion::for_setting(true);
    assert_eq!(slide(reduced.slide_in), None);
    assert_eq!(reduced.ring, FADE);
    assert_eq!(reduced.hover_on, 80);
    assert_eq!(reduced.pressed, 50);
    assert_eq!(reduced.hover_off, FADE);
    for (short, long) in [
        (reduced.hover_on, full.hover_on),
        (reduced.hover_off, full.hover_off),
        (reduced.pressed, full.pressed),
        (reduced.ring, full.ring),
        (reduced.highlight, full.highlight),
        (reduced.dim, full.dim),
    ] {
        assert!(short <= long);
    }
    assert!(reduced.reduced);
    assert_eq!(slide(full.slide_in), Some(100));
    assert_eq!(Motion::full(), full);
    assert_eq!(Motion::reduced(), reduced);
}
