//! What macOS lets Edged do, and when a grant is announced.

use vstd::prelude::*;

verus! {

#[derive(Clone, Copy, Debug, PartialEq, Eq, Structural)]
pub enum Permission {
    /// Listing the windows of other applications; without it every application looks
    /// like it has none.
    Accessibility,
    /// Taking pictures of windows, for previews.
    ScreenRecording,
}

/// A permission the user just granted.
#[derive(Clone, Copy, Debug, PartialEq, Eq, Structural)]
pub struct Granted(pub Permission);

/// Which permissions are granted now.
#[derive(Clone, Copy, Debug, PartialEq, Eq, Structural)]
pub struct Permissions {
    pub accessibility: bool,
    pub screen_recording: bool,
}

/// What a fresh reading of the permissions changed.
pub struct Refreshed {
    /// Each permission that changed, granted or taken away, accessibility first:
    /// observers are told once for each.
    pub changes: Vec<Permission>,
    /// The grants to announce, accessibility first.
    pub granted: Vec<Granted>,
}

impl Permissions {
    /// Whether a permission is granted.
    pub open spec fn holds(self, permission: Permission) -> bool {
        match permission {
            Permission::Accessibility => self.accessibility,
            Permission::ScreenRecording => self.screen_recording,
        }
    }

    /// The permissions as macOS reports them at launch.
    pub fn start(accessibility: bool, screen_recording: bool) -> (r: Permissions)
        ensures
            r.accessibility == accessibility,
            r.screen_recording == screen_recording,
    {
        Permissions { accessibility, screen_recording }
    }

    pub fn has(&self, permission: Permission) -> (r: bool)
        ensures
            r == self.holds(permission),
    {
        match permission {
            Permission::Accessibility => self.accessibility,
            Permission::ScreenRecording => self.screen_recording,
        }
    }

    /// Takes a fresh reading of both permissions: what changed, and which grants to
    /// announce, a grant being a permission missing before and granted now.
    pub fn refresh(&mut self, accessibility: bool, screen_recording: bool) -> (r: Refreshed)
        ensures
            final(self).accessibility == accessibility,
            final(self).screen_recording == screen_recording,
            r.changes@ == changes_of(*old(self), accessibility, screen_recording),
            r.granted@ == grants_of(*old(self), accessibility, screen_recording),
    {
        let mut changes: Vec<Permission> = Vec::new();
        let mut granted: Vec<Granted> = Vec::new();
        if accessibility != self.accessibility {
            self.accessibility = accessibility;
            changes.push(Permission::Accessibility);
            if accessibility {
                granted.push(Granted(Permission::Accessibility));
            }
        }
        let ghost first = granted@;
        let ghost first_changes = changes@;
        if screen_recording != self.screen_recording {
            self.screen_recording = screen_recording;
            changes.push(Permission::ScreenRecording);
            if screen_recording {
                granted.push(Granted(Permission::ScreenRecording));
            }
        }
        proof {
            if !old(self).screen_recording && screen_recording {
                assert(granted@ =~= first + seq![Granted(Permission::ScreenRecording)]);
            } else {
                assert(granted@ =~= first + Seq::<Granted>::empty());
            }
            if old(self).screen_recording != screen_recording {
                assert(changes@ =~= first_changes + seq![Permission::ScreenRecording]);
            } else {
                assert(changes@ =~= first_changes + Seq::<Permission>::empty());
            }
        }
        Refreshed { changes, granted }
    }

    /// Whether to ask again in a moment: while accessibility access, which the panel
    /// cannot work without, is missing.
    pub fn polls(&self) -> (r: bool)
        ensures
            r == !self.accessibility,
    {
        !self.accessibility
    }
}

/// The permissions a fresh reading changes, granted or taken away, accessibility first.
pub open spec fn changes_of(before: Permissions, accessibility: bool, screen_recording: bool) -> Seq<
    Permission,
> {
    (if before.accessibility != accessibility {
        seq![Permission::Accessibility]
    } else {
        Seq::empty()
    }) + (if before.screen_recording != screen_recording {
        seq![Permission::ScreenRecording]
    } else {
        Seq::empty()
    })
}

/// The grants a fresh reading announces: each permission missing before and granted now,
/// accessibility first.
pub open spec fn grants_of(before: Permissions, accessibility: bool, screen_recording: bool) -> Seq<
    Granted,
> {
    (if !before.accessibility && accessibility {
        seq![Granted(Permission::Accessibility)]
    } else {
        Seq::empty()
    }) + (if !before.screen_recording && screen_recording {
        seq![Granted(Permission::ScreenRecording)]
    } else {
        Seq::empty()
    })
}

/// A grant is announced once: reading the same permissions again changes nothing and
/// announces nothing.
pub proof fn lemma_grant_announced_once(accessibility: bool, screen_recording: bool)
    ensures
        grants_of(Permissions { accessibility, screen_recording }, accessibility, screen_recording)
            =~= Seq::<Granted>::empty(),
        changes_of(Permissions { accessibility, screen_recording }, accessibility, screen_recording)
            =~= Seq::<Permission>::empty(),
{
}

} // verus!
