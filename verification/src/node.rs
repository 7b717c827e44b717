//! Node runtimes: their versions, and which of them can be used.
use vstd::prelude::*;

use crate::text;

verus! {

/// The version of a Node runtime.
#[derive(Clone, Copy, Debug, PartialEq, Eq, Structural)]
pub struct Version {
    pub major: u64,
    pub minor: u64,
    pub patch: u64,
}

impl Version {
    /// Whether this version is `other` or a later one.
    pub open spec fn reaches(self, other: Version) -> bool {
        ||| self.major > other.major
        ||| self.major == other.major && self.minor > other.minor
        ||| self.major == other.major && self.minor == other.minor && self.patch >= other.patch
    }

    /// Whether this version is `other` or a later one.
    pub fn at_least(&self, other: &Version) -> (answer: bool)
        ensures
            answer == self.reaches(*other),
    {
        if self.major != other.major {
            self.major > other.major
        } else if self.minor != other.minor {
            self.minor > other.minor
        } else {
            self.patch >= other.patch
        }
    }

    /// The version as three numbers with dots between them.
    pub open spec fn shown(self) -> Seq<char> {
        text::decimal(self.major as nat) + "."@ + text::decimal(self.minor as nat) + "."@
            + text::decimal(self.patch as nat)
    }

    /// The version as three numbers with dots between them.
    pub fn text(&self) -> (text: String)
        ensures
            text@ == self.shown(),
    {
        text::join5(
            &text::number_text(self.major),
            ".",
            &text::number_text(self.minor),
            ".",
            &text::number_text(self.patch),
        )
    }
}

/// The oldest Node the Harness runs on.
pub open spec fn minimum() -> Version {
    Version { major: 22, minor: 19, patch: 0 }
}

/// The oldest Node the Harness runs on.
pub fn minimum_supported() -> (version: Version)
    ensures
        version == minimum(),
{
    Version { major: 22, minor: 19, patch: 0 }
}

/// One Node runtime found on the machine.
#[derive(Debug)]
pub struct NodeInstallation {
    /// The Node executable.
    pub path: String,
    pub version: Version,
    /// The entry script of its own npm, where it has one that works.
    pub npm_cli: Option<String>,
}

/// Versions are in one line: of two that differ exactly one reaches the other, each
/// reaches itself, and a later major version reaches every earlier one whatever
/// follows.
pub proof fn versions_are_in_one_line(left: Version, right: Version, third: Version)
    ensures
        left.reaches(left),
        left.reaches(right) && right.reaches(left) ==> left == right,
        left.reaches(right) || right.reaches(left),
        left.reaches(right) && right.reaches(third) ==> left.reaches(third),
        left.major > right.major ==> left.reaches(right),
        left.major == right.major && left.minor > right.minor ==> left.reaches(right),
        left.major == right.major && left.minor == right.minor && left.patch > right.patch
            ==> left.reaches(right),
{
}

/// The oldest usable Node is 22.19.0, and it is shown so.
pub proof fn the_oldest_usable_node_is_named()
    ensures
        minimum().major == 22 && minimum().minor == 19 && minimum().patch == 0,
        minimum().shown() == "22.19.0"@,
{
    reveal_strlit(".");
    reveal_strlit("22.19.0");
    reveal_with_fuel(text::decimal, 3);
    assert(text::decimal(22) =~= seq!['2', '2']);
    assert(text::decimal(19) =~= seq!['1', '9']);
    assert(text::decimal(0) =~= seq!['0']);
    assert(minimum().shown() =~= "22.19.0"@);
}

/// A version is shown as its three numbers with dots between them.
pub proof fn a_version_is_shown_by_its_numbers(version: Version)
    ensures
        version.shown() == text::decimal(version.major as nat) + "."@ + text::decimal(
            version.minor as nat,
        ) + "."@ + text::decimal(version.patch as nat),
{
}

} // verus!
