//! How long each change on screen takes, in milliseconds: movement stops and fades
//! shorten when the user asked for reduced motion.

use vstd::prelude::*;

verus! {

/// How long each change takes.
#[derive(Clone, Copy, Debug, PartialEq, Eq, Structural)]
pub struct Motion {
    /// The panel sliding out to its full width.
    pub slide_out: u64,
    /// The panel sliding back to the strip.
    pub slide_in: u64,
    pub hover_on: u64,
    /// Slower than on: calmer under a pointer sweeping down the list.
    pub hover_off: u64,
    pub pressed: u64,
    /// The ring moving to another window.
    pub ring: u64,
    /// The current Space's band and mark moving to another section.
    pub highlight: u64,
    /// A row fading as its window is minimized, or back.
    pub dim: u64,
    /// Whether things cross-fade in place of moving, along a straight curve.
    pub reduced: bool,
}

/// The longest a cross-fade takes under reduced motion.
pub const FADE: u64 = 120;

impl Motion {
    /// Every change moves, eased.
    pub open spec fn full_spec() -> Motion {
        Motion {
            slide_out: 100,
            slide_in: 100,
            hover_on: 80,
            hover_off: 140,
            pressed: 50,
            ring: 180,
            highlight: 220,
            dim: 180,
            reduced: false,
        }
    }

    /// Nothing moves; what changes cross-fades, in at most `FADE` and never longer than
    /// with full motion.
    pub open spec fn reduced_spec() -> Motion {
        let full = Motion::full_spec();
        Motion {
            slide_out: 0,
            slide_in: 0,
            hover_on: at_most_fade(full.hover_on),
            hover_off: at_most_fade(full.hover_off),
            pressed: at_most_fade(full.pressed),
            ring: at_most_fade(full.ring),
            highlight: at_most_fade(full.highlight),
            dim: at_most_fade(full.dim),
            reduced: true,
        }
    }

    /// The motion for the system's "reduce motion" setting.
    pub fn for_setting(reduces_motion: bool) -> (r: Motion)
        ensures
            r == (if reduces_motion {
                Motion::reduced_spec()
            } else {
                Motion::full_spec()
            }),
    {
        if reduces_motion {
            Motion::reduced()
        } else {
            Motion::full()
        }
    }

    /// Every change moves, eased.
    pub fn full() -> (r: Motion)
        ensures
            r == Motion::full_spec(),
    {
        Motion {
            slide_out: 100,
            slide_in: 100,
            hover_on: 80,
            hover_off: 140,
            pressed: 50,
            ring: 180,
            highlight: 220,
            dim: 180,
            reduced: false,
        }
    }

    /// Nothing moves; what changes cross-fades; see `reduced_spec`.
    pub fn reduced() -> (r: Motion)
        ensures
            r == Motion::reduced_spec(),
    {
        let full = Motion::full();
        Motion {
            slide_out: 0,
            slide_in: 0,
            hover_on: fade_of(full.hover_on),
            hover_off: fade_of(full.hover_off),
            pressed: fade_of(full.pressed),
            ring: fade_of(full.ring),
            highlight: fade_of(full.highlight),
            dim: fade_of(full.dim),
            reduced: true,
        }
    }
}

/// A change's length as a cross-fade: `FADE`, or the change's full length where that is
/// shorter.
pub open spec fn at_most_fade(full: u64) -> u64 {
    if full < FADE {
        full
    } else {
        FADE
    }
}

fn fade_of(full: u64) -> (r: u64)
    ensures
        r == at_most_fade(full),
{
    if full < FADE {
        full
    } else {
        FADE
    }
}

/// Under reduced motion nothing slides, and no change takes longer than with full motion.
pub proof fn lemma_reduced_motion_never_longer()
    ensures
        Motion::reduced_spec().slide_out == 0,
        Motion::reduced_spec().slide_in == 0,
        Motion::reduced_spec().hover_on <= Motion::full_spec().hover_on,
        Motion::reduced_spec().hover_off <= Motion::full_spec().hover_off,
        Motion::reduced_spec().pressed <= Motion::full_spec().pressed,
        Motion::reduced_spec().ring <= Motion::full_spec().ring,
        Motion::reduced_spec().highlight <= Motion::full_spec().highlight,
        Motion::reduced_spec().dim <= Motion::full_spec().dim,
{
}

/// A slide the host animates, or none when there is no motion to show.
pub fn slide(duration: u64) -> (r: Option<u64>)
    ensures
        r == (if duration == 0 {
            None
        } else {
            Some(duration)
        }),
{
    if duration == 0 {
        None
    } else {
        Some(duration)
    }
}

} // verus!
