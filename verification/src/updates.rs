//! Daily release checks: when one is due, what a release answer means, and the state
//! the settings window and the panel menu show. Fetching the answer is the app's.

use vstd::prelude::*;
use vstd::string::*;

use crate::release::{
    numbers_order, parse_version, precedence, semver_parse, version_display, version_text,
};
use crate::settings::DefaultWrite;
use crate::text::{decimal, decimal_text, parse_decimal, parsed_u64, same_text, Order};

verus! {

/// The seconds in a day.
pub const DAY: u64 = 86400;
/// The key the automatic setting is stored under.
pub const AUTOMATIC_KEY: &'static str = "automatic_updates";
/// The key the time of the last attempt is stored under.
pub const LAST_CHECK_KEY: &'static str = "update_check_attempt";
/// The key the latest version seen is stored under.
pub const LATEST_KEY: &'static str = "latest_version";

/// Whether a check is due at `current`: when none was attempted, when the clock went
/// back past the last attempt, or when the last attempt was on an earlier UTC day.
pub open spec fn is_due(last: Option<u64>, current: u64) -> bool {
    match last {
        None => true,
        Some(last) => current < last || current / DAY > last / DAY,
    }
}

/// Whether a check is due, by the time of the last attempt and the time now, both in
/// seconds since the epoch.
pub fn due(last: Option<u64>, current: u64) -> (r: bool)
    ensures
        r == is_due(last, current),
{
    match last {
        None => true,
        Some(last) => current < last || current / DAY > last / DAY,
    }
}

/// Whether `available` is a release newer than `current`: both read as versions, the
/// available one with no pre-release part, and ahead by its numbers, or level with a
/// pre-release of them.
pub open spec fn is_newer(current: Seq<char>, available: Seq<char>) -> bool {
    match (semver_parse(current), semver_parse(available)) {
        (Some(current), Some(available)) => available.3.len() == 0 && (numbers_order(
            (available.0, available.1, available.2),
            (current.0, current.1, current.2),
        ) == Order::Greater || (numbers_order(
            (available.0, available.1, available.2),
            (current.0, current.1, current.2),
        ) == Order::Equal && current.3.len() > 0)),
        _ => false,
    }
}

/// Whether `available` is a release to offer over `current`: never a pre-release, never
/// the same version or an older one, whatever their build metadata says.
pub fn newer_version(current: &str, available: &str) -> (r: bool)
    ensures
        r == is_newer(current@, available@),
{
    match (parse_version(current), parse_version(available)) {
        (Ok(current), Ok(available)) => {
            available.is_stable() && precedence(&available, &current) == Order::Greater
        },
        _ => false,
    }
}

/// Why a release answer was turned down.
#[derive(Clone, Copy, Debug, PartialEq, Eq, Structural)]
pub enum ReleaseError {
    /// The version is no SemVer version.
    Malformed,
    /// The version is a pre-release.
    Prerelease,
}

/// What a release answer's version means: the release as semver writes it, or why it
/// is not one to offer.
pub open spec fn release_of(version: Seq<char>) -> Result<Seq<char>, ReleaseError> {
    match semver_parse(version) {
        None => Err(ReleaseError::Malformed),
        Some(parts) => if parts.3.len() > 0 {
            Err(ReleaseError::Prerelease)
        } else {
            Ok(version_display(parts))
        },
    }
}

/// The version a release answer names, read as a stable release.
pub fn stable_release(version: &str) -> (r: Result<String, ReleaseError>)
    ensures
        match r {
            Ok(text) => release_of(version@) == Ok::<Seq<char>, ReleaseError>(text@),
            Err(error) => release_of(version@) == Err::<Seq<char>, ReleaseError>(error),
        },
{
    match parse_version(version) {
        Err(_) => Err(ReleaseError::Malformed),
        Ok(parsed) => {
            if !parsed.is_stable() {
                Err(ReleaseError::Prerelease)
            } else {
                Ok(version_text(&parsed))
            }
        },
    }
}

/// The release an answer names: its version read as a stable release, written as
/// semver writes it; `None` when there was no answer or its version is no release.
pub open spec fn answered_release(answer: Option<String>) -> Option<Seq<char>> {
    match answer {
        Some(version) => match release_of(version@) {
            Ok(text) => Some(text),
            Err(_) => None,
        },
        None => None,
    }
}

/// What the update check shows: whether checks run on their own, whether one runs now,
/// and what the last one found.
pub struct Updates {
    pub automatic: bool,
    pub checking: bool,
    /// Whether this launch has received a valid release response.
    pub checked: bool,
    pub latest: Option<String>,
    pub error: Option<String>,
    /// When a check was last attempted, in seconds since the epoch.
    pub last_attempt: Option<u64>,
}

/// The message an explicit check that failed shows.
pub open spec fn failure_text() -> Seq<char> {
    "Could not check for updates. Try again later."@
}

impl Updates {
    /// Whether the latest version held is one to offer over `current`.
    pub open spec fn offers_only_newer(self, current: Seq<char>) -> bool {
        self.latest matches Some(latest) ==> is_newer(current, latest@)
    }

    /// The state at launch, from what the defaults hold: automatic unless stored `off`,
    /// the latest version stored if it is newer than this one, and the last attempt if
    /// it reads as a number.
    pub fn start(
        current: &str,
        automatic: &Option<String>,
        latest: Option<String>,
        last_check: &Option<String>,
    ) -> (r: Updates)
        ensures
            r.automatic == (match automatic {
                Some(text) => text@ != "off"@,
                None => true,
            }),
            !r.checking,
            !r.checked,
            r.error is None,
            r.latest == (match latest {
                Some(text) => if is_newer(current@, text@) {
                    Some(text)
                } else {
                    None
                },
                None => None,
            }),
            r.last_attempt == (match last_check {
                Some(text) => parsed_u64(text@),
                None => None,
            }),
            r.offers_only_newer(current@),
    {
        let automatic = match automatic {
            Some(text) => !same_text(text.as_str(), "off"),
            None => true,
        };
        let latest = match latest {
            Some(text) => if newer_version(current, text.as_str()) {
                Some(text)
            } else {
                None
            },
            None => None,
        };
        let last_attempt = match last_check {
            Some(text) => parse_decimal(text.as_str()),
            None => None,
        };
        Updates { automatic, checking: false, checked: false, latest, error: None, last_attempt }
    }

    /// Whether the hourly timer starts a check at `now`: automatic checks on, and none
    /// attempted yet this day.
    pub fn check_due(&self, now: u64) -> (r: bool)
        ensures
            r == (self.automatic && is_due(self.last_attempt, now)),
    {
        self.automatic && due(self.last_attempt, now)
    }

    /// Starts a check at `now`, unless one runs already: checks never overlap. Records
    /// the attempt, which is written to the defaults so the limit holds across restarts.
    pub fn start_check(&mut self, now: u64) -> (r: Option<DefaultWrite>)
        ensures
            old(self).checking ==> r is None && *final(self) == *old(self),
            !old(self).checking ==> (r matches Some(w) && w.key@ == LAST_CHECK_KEY@ && w.value@
                == decimal_text(now as nat)),
            !old(self).checking ==> *final(self) == (Updates {
                last_attempt: Some(now),
                checking: true,
                checked: false,
                error: None,
                ..*old(self)
            }),
    {
        if self.checking {
            return None;
        }
        self.last_attempt = Some(now);
        self.checking = true;
        self.checked = false;
        self.error = None;
        Some(DefaultWrite { key: String::from_str(LAST_CHECK_KEY), value: decimal(now) })
    }

    /// Takes a check's outcome: the version the release answer named, or `None` when the
    /// answer could not be fetched or read. A stable release is written to the defaults
    /// and held as the latest when it is newer than `current`; anything else is a failure,
    /// shown only when the check was asked for.
    pub fn finish_check(&mut self, current: &str, answer: Option<String>, report_error: bool) -> (r:
        Option<DefaultWrite>)
        ensures
            !final(self).checking,
            final(self).automatic == old(self).automatic,
            final(self).last_attempt == old(self).last_attempt,
            match answered_release(answer) {
                Some(release) => {
                    &&& final(self).checked
                    &&& final(self).error == old(self).error
                    &&& (r matches Some(w) && w.key@ == LATEST_KEY@ && w.value@ == release)
                    &&& (final(self).latest matches Some(latest) ==> latest@ == release)
                    &&& (final(self).latest is Some <==> is_newer(current@, release))
                },
                None => {
                    &&& r is None
                    &&& final(self).checked == old(self).checked
                    &&& final(self).latest == old(self).latest
                    &&& report_error ==> (final(self).error matches Some(message) && message@
                        == failure_text())
                    &&& !report_error ==> final(self).error == old(self).error
                },
            },
            old(self).offers_only_newer(current@) ==> final(self).offers_only_newer(current@),
    {
        self.checking = false;
        let release = match answer {
            Some(version) => match stable_release(version.as_str()) {
                Ok(text) => Some(text),
                Err(_) => None,
            },
            None => None,
        };
        match release {
            Some(version) => {
                self.checked = true;
                let write = DefaultWrite {
                    key: String::from_str(LATEST_KEY),
                    value: version.clone(),
                };
                self.latest = if newer_version(current, version.as_str()) {
                    Some(version)
                } else {
                    None
                };
                Some(write)
            },
            None => {
                if report_error {
                    proof {
                        reveal_strlit("Could not check for updates. Try again later.");
                    }
                    self.error = Some(
                        String::from_str("Could not check for updates. Try again later."),
                    );
                }
                None
            },
        }
    }

    /// Switches automatic checks on or off at `now`; the setting is written, and a check
    /// starts when checks were switched on and one is due.
    pub fn set_automatic(&mut self, enabled: bool, now: u64) -> (r: (DefaultWrite, bool))
        ensures
            final(self).automatic == enabled,
            *final(self) == (Updates { automatic: enabled, ..*old(self) }),
            r.0.key@ == AUTOMATIC_KEY@,
            r.0.value@ == (if enabled {
                "on"@
            } else {
                "off"@
            }),
            r.1 == (enabled && is_due(old(self).last_attempt, now)),
    {
        self.automatic = enabled;
        let value = if enabled {
            "on"
        } else {
            "off"
        };
        let write = DefaultWrite { key: String::from_str(AUTOMATIC_KEY), value: String::from_str(value) };
        (write, enabled && due(self.last_attempt, now))
    }

    /// The download page could not be opened.
    pub fn download_failed(&mut self)
        ensures
            final(self).error matches Some(message) && message@
                == "Could not open the download page."@,
            final(self).latest == old(self).latest,
            final(self).checking == old(self).checking,
            final(self).automatic == old(self).automatic,
            final(self).checked == old(self).checked,
            final(self).last_attempt == old(self).last_attempt,
    {
        self.error = Some(String::from_str("Could not open the download page."));
    }
}

/// A release is never offered over itself, and of two versions at most one is newer than
/// the other: an update never goes back.
pub proof fn lemma_never_downgraded(a: Seq<char>, b: Seq<char>)
    ensures
        !is_newer(a, a),
        is_newer(a, b) ==> !is_newer(b, a),
{
}

/// An attempt recorded at `now` and read back after a restart gives the same time, so a
/// check is not due again before the next day unless the clock goes back.
pub proof fn lemma_attempt_survives_restart(now: u64, later: u64)
    ensures
        parsed_u64(decimal_text(now as nat)) == Some(now),
        now <= later && later / DAY == now / DAY ==> !is_due(Some(now), later),
        later / DAY > now / DAY ==> is_due(Some(now), later),
        later < now ==> is_due(Some(now), later),
{
    crate::text::lemma_decimal_survives_parsing(now);
}

} // verus!
