//! Release numbers and the ranges that admit them, as `semver` reads them.
use vstd::prelude::*;

use crate::text;

verus! {

/// A release number taken apart.
#[derive(Debug)]
pub struct Release {
    pub major: u64,
    pub minor: u64,
    pub patch: u64,
    /// What stands behind the hyphen; empty for a full release.
    pub pre: String,
    /// What stands behind the plus sign; empty for most releases.
    pub build: String,
}

/// A release number by what it says.
pub struct Number {
    pub major: u64,
    pub minor: u64,
    pub patch: u64,
    pub pre: Seq<char>,
    pub build: Seq<char>,
}

impl View for Release {
    type V = Number;

    open spec fn view(&self) -> Number {
        Number {
            major: self.major,
            minor: self.minor,
            patch: self.patch,
            pre: self.pre@,
            build: self.build@,
        }
    }
}

/// What `semver` reads in a text: a release number, or nothing.
pub uninterp spec fn release(text: Seq<char>) -> Option<Number>;

/// Whether the release that one text gives ranks above the one that another gives.
pub uninterp spec fn outranks(left: Seq<char>, right: Seq<char>) -> bool;

/// Whether `semver` reads a text as a range of versions.
pub uninterp spec fn range(text: Seq<char>) -> bool;

/// Whether the range that one text gives admits the release that another gives.
pub uninterp spec fn admitted(range: Seq<char>, version: Seq<char>) -> bool;

/// Whether a character may stand in a pre-release or build part.
pub open spec fn part_character(character: char) -> bool {
    ||| 'a' <= character && character <= 'z'
    ||| 'A' <= character && character <= 'Z'
    ||| '0' <= character && character <= '9'
    ||| character == '-'
    ||| character == '.'
}

/// Whether every character of a text may stand in a pre-release or build part.
pub open spec fn part(text: Seq<char>) -> bool {
    forall|i: int| 0 <= i < text.len() ==> part_character(#[trigger] text[i])
}

impl Number {
    /// The text that a release number is printed as.
    pub open spec fn shown(self) -> Seq<char> {
        text::decimal(self.major as nat) + "."@ + text::decimal(self.minor as nat) + "."@
            + text::decimal(self.patch as nat) + (if self.pre.len() == 0 {
            Seq::empty()
        } else {
            "-"@ + self.pre
        }) + (if self.build.len() == 0 {
            Seq::empty()
        } else {
            "+"@ + self.build
        })
    }
}

/// Whether a text is a number of more than one digit that begins with a zero.
pub open spec fn zero_led(text: Seq<char>) -> bool {
    &&& text.len() > 1
    &&& text[0] == '0'
    &&& forall|i: int| 0 <= i < text.len() ==> text::is_digit(#[trigger] text[i])
}

/// Whether a text is well formed as the build part of a release number: pieces
/// between dots, none of them empty.
pub open spec fn build_part(text: Seq<char>) -> bool {
    &&& part(text)
    &&& forall|i: int|
        0 <= i < text::pieces(text, '.').len() ==> (#[trigger] text::pieces(text, '.')[i]).len()
            > 0
}

/// Whether a text is well formed as the pre-release part of a release number:
/// moreover no piece is a number that begins with a needless zero.
pub open spec fn pre_part(text: Seq<char>) -> bool {
    &&& build_part(text)
    &&& forall|i: int|
        0 <= i < text::pieces(text, '.').len() ==> !zero_led(#[trigger] text::pieces(text, '.')[i])
}

/// Whether a release number is well formed; either part may be missing.
pub open spec fn well_formed(number: Number) -> bool {
    (number.pre.len() == 0 || pre_part(number.pre)) && (number.build.len() == 0 || build_part(
        number.build,
    ))
}

/// Whether what was found in a text is the well-formed number that is printed as
/// that text, where there is one.
pub open spec fn reads_back(text: Seq<char>, found: Option<Release>) -> bool {
    forall|number: Number|
        (#[trigger] well_formed(number)) && number.shown() == text ==> (found matches Some(read)
            && read@ == number)
}

/// Reads a release number with `semver::Version::parse`. What it accepts is
/// the text that the number is printed as, and its two parts hold ASCII
/// letters, digits, hyphens and dots alone. What a well-formed number is printed
/// as is read as that number.
#[verifier::external_body]
fn parsed(text: &str) -> (found: Option<Release>)
    ensures
        match (found, release(text@)) {
            (Some(number), Some(wanted)) => number@ == wanted,
            (None, None) => true,
            _ => false,
        },
        found matches Some(number) ==> text@ == number@.shown() && part(number@.pre) && part(
            number@.build,
        ),
        reads_back(text@, found),
{
    let version = semver::Version::parse(text).ok()?;
    Some(
        Release {
            major: version.major,
            minor: version.minor,
            patch: version.patch,
            pre: version.pre.to_string(),
            build: version.build.to_string(),
        },
    )
}

/// Compares two release numbers with the `>` of `semver::Version`. That order
/// is total, and two texts that it reads rank alike only where they are equal.
#[verifier::external_body]
fn ranked_above(left: &str, right: &str) -> (answer: bool)
    requires
        release(left@) is Some,
        release(right@) is Some,
    ensures
        answer == outranks(left@, right@),
        answer ==> left@ != right@ && !outranks(right@, left@),
        !answer && left@ != right@ ==> outranks(right@, left@),
        answer ==> forall|third: Seq<char>|
            release(third) is Some && #[trigger] outranks(right@, third) ==> outranks(left@, third),
{
    match (semver::Version::parse(left), semver::Version::parse(right)) {
        (Ok(left), Ok(right)) => left > right,
        _ => false,
    }
}

/// Reads a range of versions with `semver::VersionReq::parse` and says whether
/// it could.
#[verifier::external_body]
fn range_reads(text: &str) -> (answer: bool)
    ensures
        answer == range(text@),
{
    semver::VersionReq::parse(text).is_ok()
}

/// Asks `semver::VersionReq::matches` whether a range admits a release.
#[verifier::external_body]
fn range_matches(text: &str, version: &str) -> (answer: bool)
    requires
        range(text@),
        release(version@) is Some,
    ensures
        answer == admitted(text@, version@),
{
    match (semver::VersionReq::parse(text), semver::Version::parse(version)) {
        (Ok(text), Ok(version)) => text.matches(&version),
        _ => false,
    }
}

impl Release {
    /// Reads a release number.
    pub fn parse(text: &str) -> (found: Option<Release>)
        ensures
            match (found, release(text@)) {
                (Some(number), Some(wanted)) => number@ == wanted,
                (None, None) => true,
                _ => false,
            },
            found matches Some(number) ==> text@ == number@.shown() && part(number@.pre) && part(
                number@.build,
            ),
            reads_back(text@, found),
    {
        parsed(text)
    }

    /// The text that the release number is printed as.
    pub fn text(&self) -> (text: String)
        ensures
            text@ == self@.shown(),
    {
        let numbers = text::join5(
            &text::number_text(self.major),
            ".",
            &text::number_text(self.minor),
            ".",
            &text::number_text(self.patch),
        );
        let pre = if text::characters(&self.pre).len() == 0 {
            String::new()
        } else {
            text::join2("-", &self.pre)
        };
        let build = if text::characters(&self.build).len() == 0 {
            String::new()
        } else {
            text::join2("+", &self.build)
        };
        text::join3(&numbers, &pre, &build)
    }

    /// Whether the release carries build metadata.
    pub fn built(&self) -> (answer: bool)
        ensures
            answer == (self@.build.len() > 0),
    {
        text::characters(&self.build).len() > 0
    }
}

/// Whether one release ranks above another.
pub fn newer(left: &str, right: &str) -> (answer: Option<bool>)
    ensures
        answer == (if release(left@) is Some && release(right@) is Some {
            Some(outranks(left@, right@))
        } else {
            None
        }),
        answer == Some(true) ==> left@ != right@ && !outranks(right@, left@) && forall|
            third: Seq<char>,
        |
            release(third) is Some && #[trigger] outranks(right@, third) ==> outranks(left@, third),
        answer == Some(false) && left@ != right@ ==> outranks(right@, left@),
{
    if parsed(left).is_some() && parsed(right).is_some() {
        Some(ranked_above(left, right))
    } else {
        None
    }
}

/// Whether a range admits a release; nothing where either cannot be read.
pub fn admits(range_text: &str, version: &str) -> (answer: Option<bool>)
    ensures
        answer == (if range(range_text@) && release(version@) is Some {
            Some(admitted(range_text@, version@))
        } else {
            None
        }),
{
    if range_reads(range_text) && parsed(version).is_some() {
        Some(range_matches(range_text, version))
    } else {
        None
    }
}

/// Whether a character may stand in a pre-release or build part is a matter of that
/// character alone: letters, digits, hyphens and dots may, and white space, slashes,
/// quotes and the signs that set parts of an address apart may not.
pub proof fn a_part_of_a_version_is_plain(left: Seq<char>, right: Seq<char>, character: char)
    ensures
        part(left + right) <==> part(left) && part(right),
        part(Seq::empty()),
        part(seq![character]) <==> {
            ||| 'a' <= character <= 'z'
            ||| 'A' <= character <= 'Z'
            ||| '0' <= character <= '9'
            ||| character == '-'
            ||| character == '.'
        },
{
    let whole = left + right;
    if part(whole) {
        assert forall|i: int| 0 <= i < left.len() implies part_character(#[trigger] left[i]) by {
            assert(whole[i] == left[i]);
        }
        assert forall|i: int| 0 <= i < right.len() implies part_character(#[trigger] right[i]) by {
            assert(whole[left.len() + i] == right[i]);
        }
    }
    let single = seq![character];
    assert(single[0] == character);
}

/// A number in a pre-release part is not padded: a run of digits that begins with a
/// zero and goes on is, and nothing else is.
pub proof fn only_a_padded_number_is_zero_led(digits: Seq<char>, text: Seq<char>)
    requires
        digits.len() > 0,
        forall|i: int| 0 <= i < digits.len() ==> '0' <= #[trigger] digits[i] <= '9',
    ensures
        zero_led(seq!['0'] + digits),
        zero_led(text) ==> text.len() >= 2 && text[0] == '0',
        !zero_led(digits.take(1)),
        text.len() > 0 && text[0] != '0' ==> !zero_led(text),
{
    let padded = seq!['0'] + digits;
    assert forall|i: int| 0 <= i < padded.len() implies text::is_digit(#[trigger] padded[i]) by {
        if i > 0 {
            assert(padded[i] == digits[i - 1]);
        }
    }
}

/// A release number is shown by its three numbers with dots between them, its
/// pre-release part behind a hyphen and its build part behind a plus sign, where it
/// has them.
pub proof fn a_release_is_shown_by_its_parts(number: Number)
    ensures
        ({
            let core = text::decimal(number.major as nat) + "."@ + text::decimal(
                number.minor as nat,
            ) + "."@ + text::decimal(number.patch as nat);
            let none = Seq::<char>::empty();
            &&& number.pre.len() == 0 && number.build.len() == 0 ==> number.shown() == core
            &&& number.pre.len() > 0 && number.build.len() == 0 ==> number.shown() == core + "-"@
                + number.pre
            &&& number.pre.len() == 0 && number.build.len() > 0 ==> number.shown() == core + "+"@
                + number.build
            &&& number.pre.len() > 0 && number.build.len() > 0 ==> number.shown() == core + "-"@
                + number.pre + "+"@ + number.build
        }),
{
    let core = text::decimal(number.major as nat) + "."@ + text::decimal(number.minor as nat) + "."@
        + text::decimal(number.patch as nat);
    let none = Seq::<char>::empty();
    assert(core + none + none =~= core);
    assert(core + ("-"@ + number.pre) + none =~= core + "-"@ + number.pre);
    assert(core + none + ("+"@ + number.build) =~= core + "+"@ + number.build);
    assert(core + ("-"@ + number.pre) + ("+"@ + number.build) =~= core + "-"@ + number.pre + "+"@
        + number.build);
}

/// The parts of a release number are checked where it has them: no identifier between
/// dots is empty, and in a pre-release part none is a padded number.
pub proof fn a_well_formed_release_has_well_formed_parts(number: Number, text: Seq<char>, at: int)
    ensures
        well_formed(number) <==> (number.pre.len() > 0 ==> pre_part(number.pre)) && (
        number.build.len() > 0 ==> build_part(number.build)),
        pre_part(text) ==> build_part(text),
        build_part(text) ==> part(text),
        build_part(text) && 0 <= at < text::pieces(text, '.').len() ==> text::pieces(text, '.')[at]
            != Seq::<char>::empty(),
        pre_part(text) && 0 <= at < text::pieces(text, '.').len() ==> !zero_led(
            text::pieces(text, '.')[at],
        ),
{
}

/// A release is seen as its numbers and its parts.
pub proof fn a_release_is_seen_as_its_numbers(release: Release)
    ensures
        release@.major == release.major,
        release@.minor == release.minor,
        release@.patch == release.patch,
        release@.pre == release.pre@,
        release@.build == release.build@,
{
}

} // verus!
