//! Version numbers as semver reads, orders and writes them.

use vstd::prelude::*;

use crate::text::{decimal_text, Order};

verus! {

/// semver's `Version`, carried whole beside the parts read out of it.
#[verifier::external_type_specification]
#[verifier::external_body]
pub struct ExVersion(semver::Version);

/// semver's `Error`, what `Version::parse` answers for a text that is no version.
#[verifier::external_type_specification]
#[verifier::external_body]
pub struct ExSemverError(semver::Error);

/// What semver's `Version::parse` makes of a text: the major, minor and patch numbers,
/// the pre-release and the build metadata, or `None` when the text is no SemVer version.
/// A function of the text alone.
pub uninterp spec fn semver_parse(text: Seq<char>) -> Option<(u64, u64, u64, Seq<char>, Seq<char>)>;

/// What semver's `Version::cmp_precedence` answers for two versions, given by their
/// numbers and pre-releases; build metadata plays no part in it.
pub uninterp spec fn semver_precedence(
    left: (u64, u64, u64, Seq<char>),
    right: (u64, u64, u64, Seq<char>),
) -> Order;

/// A version, as semver parsed it.
pub struct SemVer {
    major: u64,
    minor: u64,
    patch: u64,
    pre: String,
    build: String,
    parsed: semver::Version,
}

/// The order of two numbers.
pub open spec fn number_order(a: u64, b: u64) -> Order {
    if a < b {
        Order::Less
    } else if a > b {
        Order::Greater
    } else {
        Order::Equal
    }
}

/// The order of two versions' numbers: major, then minor, then patch.
pub open spec fn numbers_order(a: (u64, u64, u64), b: (u64, u64, u64)) -> Order {
    if a.0 != b.0 {
        number_order(a.0, b.0)
    } else if a.1 != b.1 {
        number_order(a.1, b.1)
    } else {
        number_order(a.2, b.2)
    }
}

/// A version as semver writes it: the three numbers joined by dots, then `-` and the
/// pre-release if there is one, then `+` and the build metadata if there is any.
pub open spec fn version_display(v: (u64, u64, u64, Seq<char>, Seq<char>)) -> Seq<char> {
    decimal_text(v.0 as nat) + seq!['.'] + decimal_text(v.1 as nat) + seq!['.'] + decimal_text(
        v.2 as nat,
    ) + (if v.3.len() > 0 {
        seq!['-'] + v.3
    } else {
        Seq::empty()
    }) + (if v.4.len() > 0 {
        seq!['+'] + v.4
    } else {
        Seq::empty()
    })
}

impl SemVer {
    /// The parts of the version: numbers, pre-release and build metadata.
    pub closed spec fn parts(self) -> (u64, u64, u64, Seq<char>, Seq<char>) {
        (self.major, self.minor, self.patch, self.pre@, self.build@)
    }

    /// The parts precedence depends on.
    pub open spec fn ranked(self) -> (u64, u64, u64, Seq<char>) {
        (self.parts().0, self.parts().1, self.parts().2, self.parts().3)
    }

    /// Whether the version is a release: no pre-release part.
    pub fn is_stable(&self) -> (r: bool)
        ensures
            r == (self.parts().3.len() == 0),
    {
        self.pre.as_str().is_empty()
    }
}

/// A text read as a version, by semver's `Version::parse`. The contract ties the parts of
/// the result to `semver_parse` of the text; the grammar itself is not stated.
#[verifier::external_body]
pub(crate) fn parse_version(text: &str) -> (r: Result<SemVer, semver::Error>)
    ensures
        match r {
            Ok(version) => semver_parse(text@) == Some(version.parts()),
            Err(_) => semver_parse(text@) is None,
        },
{
    match semver::Version::parse(text) {
        Ok(version) => Ok(SemVer {
            major: version.major,
            minor: version.minor,
            patch: version.patch,
            pre: version.pre.as_str().to_string(),
            build: version.build.as_str().to_string(),
            parsed: version,
        }),
        Err(error) => Err(error),
    }
}

/// Two versions' precedence, by semver's `Version::cmp_precedence`, which compares the
/// numbers and then the pre-releases, ignoring build metadata. The contract states what
/// semver's source and the SemVer rules give whenever one of the two is a release; how
/// two pre-releases of the same numbers compare is left to the name.
#[verifier::external_body]
pub(crate) fn precedence(a: &SemVer, b: &SemVer) -> (r: Order)
    ensures
        r == semver_precedence(a.ranked(), b.ranked()),
        numbers_order((a.parts().0, a.parts().1, a.parts().2), (b.parts().0, b.parts().1, b.parts().2)) != Order::Equal
            ==> r == numbers_order(
            (a.parts().0, a.parts().1, a.parts().2),
            (b.parts().0, b.parts().1, b.parts().2),
        ),
        numbers_order((a.parts().0, a.parts().1, a.parts().2), (b.parts().0, b.parts().1, b.parts().2)) == Order::Equal
            ==> {
            &&& (a.parts().3.len() == 0 && b.parts().3.len() == 0) ==> r == Order::Equal
            &&& (a.parts().3.len() == 0 && b.parts().3.len() > 0) ==> r == Order::Greater
            &&& (a.parts().3.len() > 0 && b.parts().3.len() == 0) ==> r == Order::Less
        },
{
    match a.parsed.cmp_precedence(&b.parsed) {
        std::cmp::Ordering::Less => Order::Less,
        std::cmp::Ordering::Equal => Order::Equal,
        std::cmp::Ordering::Greater => Order::Greater,
    }
}

/// A version written out, by semver's `Display` for `Version`.
#[verifier::external_body]
pub(crate) fn version_text(version: &SemVer) -> (r: String)
    ensures
        r@ == version_display(version.parts()),
{
    version.parsed.to_string()
}

} // verus!
