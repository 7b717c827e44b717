//! Install the harness for the user instead of telling them to.
//!
//! The harness is an npm package, and asking someone to open a terminal and run
//! an install command is the point where a desktop app stops being one. So the
//! shell keeps its own copy under its data directory and installs it with the
//! same Node it already found: no global install, nothing on the user's PATH,
//! and no assumption that `npm` is reachable as a command.
use vstd::prelude::*;
use vstd::utf8::encode_utf8;

use crate::address;
use crate::command;
use crate::command::{CommandLine, Invocation};
use crate::error::{Error, Fault};
use crate::json;
use crate::json::{Document, Json};
use crate::logging;
use crate::paths::{Location, Place};
use crate::text;
use crate::text::Class;
use crate::version;
use crate::version::Release;

verus! {

/// The package the harness ships as.
pub const PACKAGE: &'static str = "@deepseek-ai/dsh";

/// One coherent upstream release, never an npm moving tag.
///
/// Pinning the root keeps a newly installed machine from silently selecting an
/// unrelated release graph.
pub const VERSION: &'static str = "0.1.2-rc.1";

/// The package and the release, as npm is asked for them.
pub const SPEC: &'static str = "@deepseek-ai/dsh@0.1.2-rc.1";

/// The one package manager release plugins are installed with.
pub const PNPM_VERSION: &'static str = "11.7.0";

/// The package manager and its release, as npm is asked for them.
pub const PNPM_SPEC: &'static str = "pnpm@11.7.0";

/// The generation of the runtime contract this build tested.
pub const RUNTIME_SCHEMA: u8 = 4;

/// The package that ties the Harness to Studio.
pub const INTEGRATION_PACKAGE: &'static str = "@moresyl/dsh-studio-integration";

/// The registry the runtime lock was qualified against.
pub const OFFICIAL_REGISTRY: &'static str = "https://registry.npmjs.org/";

/// Whether a text is an immutable npm version: short, exact, without build
/// metadata, and written the one way such a version is printed.
pub open spec fn exact_version(version: Seq<char>) -> bool {
    &&& encode_utf8(version).len() <= 80
    &&& version::release(version) matches Some(number) && number.build.len() == 0
        && number.shown() == version
}

/// Whether a text can only be read as a version: it begins with a digit and
/// holds nothing but ASCII letters, digits, hyphens and dots.
pub open spec fn harmless(version: Seq<char>) -> bool {
    &&& version.len() > 0
    &&& text::is_digit(version[0])
    &&& version::part(version)
}

/// A release number without build metadata is harmless as it is printed.
proof fn lemma_harmless(number: version::Number)
    requires
        number.build.len() == 0,
        version::part(number.pre),
    ensures
        harmless(number.shown()),
{
    reveal_strlit(".");
    reveal_strlit("-");
    text::lemma_decimal(number.major as nat);
    text::lemma_decimal(number.minor as nat);
    text::lemma_decimal(number.patch as nat);
    let major = text::decimal(number.major as nat);
    let minor = text::decimal(number.minor as nat);
    let patch = text::decimal(number.patch as nat);
    let pre = if number.pre.len() == 0 {
        Seq::empty()
    } else {
        "-"@ + number.pre
    };
    let shown = number.shown();
    assert(shown =~= major + "."@ + minor + "."@ + patch + pre);
    assert(shown[0] == major[0]);
    assert forall|i: int| 0 <= i < shown.len() implies version::part_character(
        #[trigger] shown[i],
    ) by {
        let second = major.len() + 1;
        let third = second + minor.len() + 1;
        let fourth = third + patch.len();
        if i < major.len() {
            assert(shown[i] == major[i]);
        } else if i < second {
        } else if i < second + minor.len() {
            assert(shown[i] == minor[i - second]);
        } else if i < third {
        } else if i < fourth {
            assert(shown[i] == patch[i - third]);
        } else {
            assert(shown[i] == pre[i - fourth]);
            if i > fourth {
                assert(pre[i - fourth] == number.pre[i - fourth - 1]);
            }
        }
    }
}

/// Accept immutable npm versions only; tags, ranges and paths are never commands.
pub fn validate_version(version: &str) -> (checked: Result<(), Error>)
    ensures
        checked is Ok ==> harmless(version@),
        match checked {
            Ok(_) => exact_version(version@),
            Err(error) => !exact_version(version@) && error@ == Fault::Install(
                "select an exact Harness version such as 0.1.1-rc.2"@,
            ),
        },
{
    let accepted = text::byte_length(version) <= 80 && match Release::parse(version) {
        Some(number) => {
            proof {
                if number@.build.len() == 0 {
                    lemma_harmless(number@);
                }
            }
            !number.built() && text::same(&number.text(), version)
        },
        None => false,
    };
    if accepted {
        Ok(())
    } else {
        Err(Error::Install("select an exact Harness version such as 0.1.1-rc.2".to_owned()))
    }
}

/// What a JSON text says, if there is one and it can be read.
pub open spec fn read_document(text: Option<Seq<char>>) -> Option<Document> {
    match text {
        Some(body) => match json::read(body) {
            Ok(found) => Some(found),
            Err(_) => None,
        },
        None => None,
    }
}

/// Reads a JSON text, if there is one and it can be read.
pub fn read_json(text: &Option<String>) -> (found: Option<Json>)
    ensures
        match (found, read_document(text::seen(*text))) {
            (Some(json), Some(wanted)) => json@ == wanted && json::ordered(json@),
            (None, None) => true,
            _ => false,
        },
{
    match text {
        Some(body) => match Json::parse(body) {
            Ok(json) => Some(json),
            Err(_) => None,
        },
        None => None,
    }
}

/// The release a runtime marker names: the one it records where that is an
/// exact version, the built-in one otherwise.
pub open spec fn marked(marker: Option<Document>) -> Seq<char> {
    match marker {
        Some(found) => match found.text_at("version"@) {
            Some(version) => if exact_version(version) {
                version
            } else {
                VERSION@
            },
            None => VERSION@,
        },
        None => VERSION@,
    }
}

/// The built-in release, as the release number it is.
pub open spec fn built_in() -> version::Number {
    version::Number { major: 0, minor: 1, patch: 2, pre: "rc.1"@, build: Seq::empty() }
}

/// The built-in release is a well-formed release number, and its text is what that
/// number is printed as.
proof fn lemma_built_in()
    ensures
        version::well_formed(built_in()),
        built_in().shown() == VERSION@,
        encode_utf8(VERSION@).len() <= 80,
{
    reveal_strlit("0.1.2-rc.1");
    reveal_strlit("rc.1");
    reveal_strlit(".");
    reveal_strlit("-");
    reveal_with_fuel(text::decimal, 2);
    let pre = built_in().pre;
    reveal_with_fuel(text::until, 4);
    reveal_with_fuel(text::pieces, 3);
    let front = text::until(pre, Class::Is('.'));
    assert(front =~= seq!['r', 'c']);
    assert(pre.skip(3) =~= seq!['1']);
    let back = text::until(seq!['1'], Class::Is('.'));
    assert(back =~= seq!['1']);
    let pieces = text::pieces(pre, '.');
    assert(pieces =~= seq![seq!['r', 'c'], seq!['1']]);
    assert(!text::is_digit(pieces[0][0]));
    assert(version::pre_part(pre));
    assert(text::decimal(0) =~= seq!['0']);
    assert(text::decimal(1) =~= seq!['1']);
    assert(text::decimal(2) =~= seq!['2']);
    assert(built_in().shown() =~= VERSION@);
    address::lemma_encoded_length(VERSION@);
}

/// The built-in release, which is an exact version.
fn built_in_version() -> (version: String)
    ensures
        version@ == VERSION@,
        exact_version(version@),
{
    let _ = Release::parse(VERSION);
    proof {
        lemma_built_in();
        assert(version::release(VERSION@) == Some(built_in()));
    }
    VERSION.to_owned()
}

/// The release a runtime marker names. It is an exact version, whatever the marker
/// holds.
pub fn marked_version(marker: &Option<Json>) -> (version: String)
    ensures
        exact_version(version@),
        version@ == marked(
            match *marker {
                Some(found) => Some(found@),
                None => None,
            },
        ),
{
    match marker {
        Some(found) => match found.text_at("version") {
            Some(version) => match validate_version(&version) {
                Ok(_) => version,
                Err(_) => built_in_version(),
            },
            None => built_in_version(),
        },
        None => built_in_version(),
    }
}

/// The release the runtime in a directory should be, from the text of its
/// `dsh-studio-runtime.json`.
pub open spec fn expected(marker: Option<Seq<char>>) -> Seq<char> {
    marked(read_document(marker))
}

/// The release the runtime in a directory should be. It is an exact version,
/// whatever the marker holds.
pub fn expected_version(marker: &Option<String>) -> (version: String)
    ensures
        exact_version(version@),
        version@ == expected(text::seen(*marker)),
{
    marked_version(&read_json(marker))
}

/// The release the live runtime should be, from the text of its marker. It is an
/// exact version, whatever the marker holds.
pub fn selected_version(marker: &Option<String>) -> (version: String)
    ensures
        exact_version(version@),
        version@ == expected(text::seen(*marker)),
{
    expected_version(marker)
}

/// The version a package manifest records, without surrounding white space;
/// nothing where it is empty.
pub open spec fn recorded(manifest: Option<Document>) -> Option<Seq<char>> {
    match manifest {
        Some(found) => match found.text_at("version"@) {
            Some(version) => if text::trimmed(version, Class::White).len() == 0 {
                None
            } else {
                Some(text::trimmed(version, Class::White))
            },
            None => None,
        },
        None => None,
    }
}

/// The version a package manifest records.
pub fn recorded_version(manifest: &Option<Json>) -> (version: Option<String>)
    ensures
        text::seen(version) == recorded(
            match *manifest {
                Some(found) => Some(found@),
                None => None,
            },
        ),
{
    match manifest {
        Some(found) => match found.text_at("version") {
            Some(version) => {
                let trimmed = text::trim(&version, Class::White);
                if text::characters(&trimmed).len() == 0 {
                    None
                } else {
                    Some(trimmed)
                }
            },
            None => None,
        },
        None => None,
    }
}

/// Version recorded by a complete managed runtime, from the text of its
/// package manifest.
pub fn runtime_version(manifest: &Option<String>) -> (version: Option<String>)
    ensures
        text::seen(version) == recorded(read_document(text::seen(*manifest))),
{
    recorded_version(&read_json(manifest))
}

/// Version of the package manager, from the text of its package manifest.
pub fn pnpm_version(manifest: &Option<String>) -> (version: Option<String>)
    ensures
        text::seen(version) == (match read_document(text::seen(*manifest)) {
            Some(found) => found.text_at("version"@),
            None => None,
        }),
{
    match read_json(manifest) {
        Some(found) => found.text_at("version"),
        None => None,
    }
}

/// The contract generation a marker records, where it is a number below 256.
pub open spec fn schema(marker: Option<Document>) -> Option<u8> {
    match marker {
        Some(found) => match found.get("schema"@) {
            Some(number) => match number.whole() {
                Some(whole) => if whole <= 255 {
                    Some(whole as u8)
                } else {
                    None
                },
                None => None,
            },
            None => None,
        },
        None => None,
    }
}

/// The contract generation a marker records.
pub fn runtime_schema(marker: &Option<String>) -> (generation: Option<u8>)
    ensures
        generation == schema(read_document(text::seen(*marker))),
{
    match read_json(marker) {
        Some(found) => match found.get("schema") {
            Some(number) => match number.whole() {
                Some(whole) => if whole <= 255 {
                    Some(whole as u8)
                } else {
                    None
                },
                None => None,
            },
            None => None,
        },
        None => None,
    }
}

/// Whether a directory picker client carries both desktop hooks.
pub open spec fn hooked(client: Option<Seq<char>>) -> bool {
    match client {
        Some(body) => text::holds_text(body, "__DSH_DESKTOP_PICK_DIRECTORY__"@)
            && text::holds_text(body, "__DSH_DESKTOP_VALIDATE_DIRECTORY__"@),
        None => false,
    }
}

/// Whether a directory picker client carries both desktop hooks.
pub fn qualified_picker(client: &Option<String>) -> (answer: bool)
    ensures
        answer == hooked(text::seen(*client)),
{
    match client {
        Some(body) => text::contains(body, "__DSH_DESKTOP_PICK_DIRECTORY__") && text::contains(
            body,
            "__DSH_DESKTOP_VALIDATE_DIRECTORY__",
        ),
        None => false,
    }
}

/// What the files of a runtime directory hold, each nothing where it cannot be
/// read.
#[derive(Debug)]
pub struct RuntimeFiles {
    /// `dsh-studio-runtime.json`.
    pub marker: Option<String>,
    /// `package.json` of the Harness package.
    pub manifest: Option<String>,
    /// Whether the Harness entry point is a file.
    pub entry: bool,
    /// Whether the Studio launcher is a file.
    pub launcher: bool,
    /// `package.json` of the package manager.
    pub pnpm_manifest: Option<String>,
    /// Whether the package manager's entry point is a file.
    pub pnpm_entry: bool,
    /// Whether the Studio integration's client is a file.
    pub integration: bool,
    /// The directory picker client.
    pub picker: Option<String>,
}

/// What is known of a runtime directory.
#[derive(Debug)]
pub struct RuntimeReport {
    pub expected: String,
    pub version: Option<String>,
    pub entry: bool,
    pub launcher: bool,
    pub pnpm: Option<String>,
    pub pnpm_entry: bool,
    pub schema: Option<u8>,
    pub integration: bool,
    pub picker: bool,
}

/// What is known of a runtime directory, by what it says.
pub struct Finding {
    pub expected: Seq<char>,
    pub version: Option<Seq<char>>,
    pub entry: bool,
    pub launcher: bool,
    pub pnpm: Option<Seq<char>>,
    pub pnpm_entry: bool,
    pub schema: Option<u8>,
    pub integration: bool,
    pub picker: bool,
}

impl View for RuntimeReport {
    type V = Finding;

    open spec fn view(&self) -> Finding {
        Finding {
            expected: self.expected@,
            version: text::seen(self.version),
            entry: self.entry,
            launcher: self.launcher,
            pnpm: text::seen(self.pnpm),
            pnpm_entry: self.pnpm_entry,
            schema: self.schema,
            integration: self.integration,
            picker: self.picker,
        }
    }
}

impl RuntimeFiles {
    /// What the files of a runtime directory come to.
    pub open spec fn finding(self) -> Finding {
        Finding {
            expected: expected(text::seen(self.marker)),
            version: recorded(read_document(text::seen(self.manifest))),
            entry: self.entry,
            launcher: self.launcher,
            pnpm: match read_document(text::seen(self.pnpm_manifest)) {
                Some(found) => found.text_at("version"@),
                None => None,
            },
            pnpm_entry: self.pnpm_entry,
            schema: schema(read_document(text::seen(self.marker))),
            integration: self.integration,
            picker: hooked(text::seen(self.picker)),
        }
    }

    /// What the files of a runtime directory come to.
    pub fn report(&self) -> (found: RuntimeReport)
        ensures
            found@ == self.finding(),
    {
        RuntimeReport {
            expected: expected_version(&self.marker),
            version: runtime_version(&self.manifest),
            entry: self.entry,
            launcher: self.launcher,
            pnpm: pnpm_version(&self.pnpm_manifest),
            pnpm_entry: self.pnpm_entry,
            schema: runtime_schema(&self.marker),
            integration: self.integration,
            picker: qualified_picker(&self.picker),
        }
    }
}

/// A name on its own where a condition of the contract fails, nothing otherwise.
pub open spec fn failed(condition: bool, name: Seq<char>) -> Seq<Seq<char>> {
    if condition {
        Seq::empty()
    } else {
        seq![name]
    }
}

impl Finding {
    /// The conditions of the runtime contract that a runtime fails, in order.
    pub open spec fn failures(self) -> Seq<Seq<char>> {
        failed(self.version == Some(self.expected), "Harness version"@) + failed(
            self.entry,
            "Harness entry point"@,
        ) + failed(self.expected == VERSION@ || self.launcher, "Studio CLI launcher"@) + failed(
            self.pnpm == Some(PNPM_VERSION@),
            "pnpm version"@,
        ) + failed(self.pnpm_entry, "pnpm entry point"@) + failed(
            self.schema == Some(RUNTIME_SCHEMA),
            "runtime marker"@,
        ) + failed(self.integration, "Studio integration"@) + failed(
            self.picker,
            "qualified directory picker"@,
        )
    }

    /// Whether a runtime meets every condition of the contract.
    pub open spec fn compatible(self) -> bool {
        self.failures().len() == 0
    }

    /// Whether a runtime records a version and has its entry point.
    pub open spec fn complete(self) -> bool {
        self.version is Some && self.entry
    }
}

/// Appends a name where a condition of the contract fails.
fn note(list: &mut Vec<String>, condition: bool, name: &str)
    ensures
        text::texts(final(list)@) == text::texts(old(list)@) + failed(condition, name@),
{
    let ghost before = text::texts(list@);
    if !condition {
        list.push(name.to_owned());
        assert(text::texts(list@) =~= before.push(name@));
    }
    assert(text::texts(list@) =~= before + failed(condition, name@));
}

/// Whether an optional text is the wanted one.
pub fn is_text(found: &Option<String>, wanted: &str) -> (answer: bool)
    ensures
        answer == (text::seen(*found) == Some(wanted@)),
{
    match found {
        Some(held) => text::same(held, wanted),
        None => false,
    }
}

impl RuntimeReport {
    /// The conditions of the runtime contract that a runtime fails, in order.
    pub fn failures(&self) -> (list: Vec<String>)
        ensures
            text::texts(list@) == self@.failures(),
    {
        let mut list: Vec<String> = Vec::new();
        note(&mut list, is_text(&self.version, &self.expected), "Harness version");
        note(&mut list, self.entry, "Harness entry point");
        note(
            &mut list,
            text::same(&self.expected, VERSION) || self.launcher,
            "Studio CLI launcher",
        );
        note(&mut list, is_text(&self.pnpm, PNPM_VERSION), "pnpm version");
        note(&mut list, self.pnpm_entry, "pnpm entry point");
        note(
            &mut list,
            match self.schema {
                Some(generation) => generation == RUNTIME_SCHEMA,
                None => false,
            },
            "runtime marker",
        );
        note(&mut list, self.integration, "Studio integration");
        note(&mut list, self.picker, "qualified directory picker");
        assert(text::texts(list@) =~= self@.failures());
        list
    }
}

/// The conditions of the runtime contract that a runtime directory fails.
pub fn runtime_contract_failures(files: &RuntimeFiles) -> (list: Vec<String>)
    ensures
        text::texts(list@) == files.finding().failures(),
{
    files.report().failures()
}

/// Whether the installed runtime is exactly the family this application tested.
pub fn runtime_compatible(files: &RuntimeFiles) -> (answer: bool)
    ensures
        answer == files.finding().compatible(),
{
    let list = runtime_contract_failures(files);
    assert(text::texts(list@).len() == list@.len());
    list.len() == 0
}

/// Whether a runtime records a version and has its entry point.
pub fn runtime_complete(files: &RuntimeFiles) -> (answer: bool)
    ensures
        answer == files.finding().complete(),
{
    runtime_version(&files.manifest).is_some() && files.entry
}

/// A runtime that meets the contract is complete.
pub proof fn a_compatible_runtime_is_complete(found: Finding)
    requires
        found.compatible(),
    ensures
        found.complete(),
        found.version == Some(found.expected),
{
    let list = found.failures();
    if found.version != Some(found.expected) {
        assert(list[0] == "Harness version"@);
    }
    if !found.entry {
        assert(list.contains("Harness entry point"@)) by {
            let at = failed(found.version == Some(found.expected), "Harness version"@).len() as int;
            assert(list[at] == "Harness entry point"@);
        }
    }
}

/// What a text or its absence is called in a message.
pub open spec fn or_missing(found: Option<Seq<char>>) -> Seq<char> {
    match found {
        Some(held) => held,
        None => "missing"@,
    }
}

/// What a text or its absence is called in a message.
fn text_or_missing(found: &Option<String>) -> (text: String)
    ensures
        text@ == or_missing(text::seen(*found)),
{
    match found {
        Some(held) => held.clone(),
        None => "missing".to_owned(),
    }
}

impl Finding {
    /// What is wrong with a runtime that does not meet the contract.
    pub open spec fn complaint(self) -> Seq<char> {
        "npm finished but the verified runtime is not Studio contract "@ + text::decimal(
            RUNTIME_SCHEMA as nat,
        ) + " with "@ + PACKAGE@ + "@"@ + self.expected + ", "@ + INTEGRATION_PACKAGE@
            + ", and pnpm "@ + PNPM_VERSION@ + " (found "@ + or_missing(self.version)
            + " with pnpm "@ + or_missing(self.pnpm) + "; failed: "@ + text::joined(
            self.failures(),
            ", "@,
        ) + ")"@
    }
}

/// Refuses a runtime that does not meet the contract, naming what it fails.
pub fn require_report(found: &RuntimeReport) -> (checked: Result<(), Error>)
    ensures
        match checked {
            Ok(_) => found@.compatible(),
            Err(error) => !found@.compatible() && error@ == Fault::Install(found@.complaint()),
        },
{
    let failures = found.failures();
    assert(text::texts(failures@).len() == failures@.len());
    if failures.len() == 0 {
        return Ok(());
    }
    let mut message = text::join5(
        "npm finished but the verified runtime is not Studio contract ",
        &text::number_text(RUNTIME_SCHEMA as u64),
        " with ",
        PACKAGE,
        "@",
    );
    message = text::join5(&message, &found.expected, ", ", INTEGRATION_PACKAGE, ", and pnpm ");
    message = text::join4(&message, PNPM_VERSION, " (found ", &text_or_missing(&found.version));
    message = text::join4(
        &message,
        " with pnpm ",
        &text_or_missing(&found.pnpm),
        "; failed: ",
    );
    message = text::join3(&message, &text::join(&failures, ", "), ")");
    assert(message@ =~= found@.complaint());
    Err(Error::Install(message))
}

/// Refuses a runtime directory that does not meet the contract.
pub fn require_expected_runtime(files: &RuntimeFiles) -> (checked: Result<(), Error>)
    ensures
        match checked {
            Ok(_) => files.finding().compatible(),
            Err(error) => !files.finding().compatible() && error@ == Fault::Install(
                files.finding().complaint(),
            ),
        },
{
    require_report(&files.report())
}

/// The package specifier of one exact release.
pub fn spec_for(version: &str) -> (spec: String)
    ensures
        spec@ == PACKAGE@ + "@"@ + version@,
{
    text::join3(PACKAGE, "@", version)
}

/// The built-in specifier names the package and the built-in release.
pub proof fn the_built_in_spec_is_exact()
    ensures
        SPEC@ == PACKAGE@ + "@"@ + VERSION@,
        PNPM_SPEC@ == "pnpm@"@ + PNPM_VERSION@,
{
    reveal_strlit("@deepseek-ai/dsh@0.1.2-rc.1");
    reveal_strlit("@deepseek-ai/dsh");
    reveal_strlit("@");
    reveal_strlit("0.1.2-rc.1");
    reveal_strlit("pnpm@11.7.0");
    reveal_strlit("pnpm@");
    reveal_strlit("11.7.0");
    assert(SPEC@ =~= PACKAGE@ + "@"@ + VERSION@);
    assert(PNPM_SPEC@ =~= "pnpm@"@ + PNPM_VERSION@);
}

/// The release a managed install is asked for: the version of an official
/// specifier, where it is exact.
pub open spec fn managed(spec: Seq<char>) -> Result<Seq<char>, Fault> {
    match text::without_prefix(spec, PACKAGE@ + "@"@) {
        Some(version) => if exact_version(version) {
            Ok(version)
        } else {
            Err(Fault::Install("select an exact Harness version such as 0.1.1-rc.2"@))
        },
        None => Err(
            Fault::Install("managed runtime must use the official Harness package"@),
        ),
    }
}

/// The release a managed install is asked for.
pub fn managed_version(spec: &str) -> (version: Result<String, Error>)
    ensures
        match (version, managed(spec@)) {
            (Ok(found), Ok(wanted)) => found@ == wanted,
            (Err(error), Err(wanted)) => error@ == wanted,
            _ => false,
        },
{
    match text::strip_prefix(spec, &text::join2(PACKAGE, "@")) {
        Some(version) => match validate_version(&version) {
            Ok(_) => Ok(version),
            Err(error) => Err(error),
        },
        None => Err(
            Error::Install("managed runtime must use the official Harness package".to_owned()),
        ),
    }
}

/// Everything needed to run one install.
#[derive(Debug)]
pub struct InstallPlan {
    /// Node runtime that will execute npm.
    pub node: String,
    /// npm's own entry script, run directly rather than through a shim.
    pub npm_cli: String,
    /// Directory that will hold `node_modules`.
    pub target: String,
    /// Package specifier, including any version.
    pub spec: String,
}

/// The arguments with which npm installs one package into the target.
pub open spec fn install_arguments(plan: InstallPlan) -> Seq<Seq<char>> {
    seq![
        plan.npm_cli@,
        "install"@,
        plan.spec@,
        "--prefix"@,
        plan.target@,
        "--no-audit"@,
        "--no-fund"@,
        "--foreground-scripts"@,
        "--loglevel=http"@,
    ]
}

/// The further arguments for a release other than the locked one.
pub open spec fn selected_arguments() -> Seq<Seq<char>> {
    seq![
        "--legacy-peer-deps"@,
        "--install-links"@,
        "--save-exact"@,
        "--registry=https://registry.npmjs.org/"@,
        "--fetch-retries=2"@,
        "--fetch-timeout=60000"@,
    ]
}

/// The arguments with which npm restores the locked graph into the target.
pub open spec fn locked_arguments(plan: InstallPlan) -> Seq<Seq<char>> {
    seq![
        plan.npm_cli@,
        "ci"@,
        "--prefix"@,
        plan.target@,
        "--legacy-peer-deps"@,
        "--no-audit"@,
        "--no-fund"@,
        "--foreground-scripts"@,
        "--loglevel=http"@,
        "--install-links"@,
        "--registry="@ + OFFICIAL_REGISTRY@,
        "--fetch-retries=2"@,
        "--fetch-timeout=60000"@,
    ]
}

impl InstallPlan {
    /// What npm is run with, but for its arguments; `path` is the value of
    /// `PATH` with the chosen Node's directory in front, because package
    /// lifecycle scripts expect to find `node` there.
    pub open spec fn npm(self, path: Seq<char>, arguments: Seq<Seq<char>>) -> Invocation {
        Invocation {
            program: self.node@,
            arguments,
            directory: Some(self.target@),
            environment: seq![
                ("PATH"@, path),
                ("npm_config_update_notifier"@, "false"@),
            ],
        }
    }

    /// Runs npm with arguments.
    fn command(&self, path: &str, arguments: Vec<String>) -> (line: CommandLine)
        ensures
            line@ == self.npm(path@, text::texts(arguments@)),
    {
        let mut environment: Vec<(String, String)> = Vec::new();
        command::set(&mut environment, "PATH", path);
        command::set(&mut environment, "npm_config_update_notifier", "false");
        let line = CommandLine {
            program: self.node.clone(),
            arguments,
            directory: Some(self.target.clone()),
            environment,
        };
        assert(line@.environment =~= self.npm(path@, text::texts(arguments@)).environment);
        line
    }

    /// The arguments with which npm installs one package into the target.
    fn arguments(&self) -> (list: Vec<String>)
        ensures
            text::texts(list@) == install_arguments(*self),
    {
        let mut list: Vec<String> = Vec::new();
        command::argue(&mut list, &self.npm_cli);
        command::argue(&mut list, "install");
        command::argue(&mut list, &self.spec);
        command::argue(&mut list, "--prefix");
        command::argue(&mut list, &self.target);
        // Nothing here is a project the user maintains, so npm's advice about
        // vulnerabilities and funding is noise in the log.
        command::argue(&mut list, "--no-audit");
        command::argue(&mut list, "--no-fund");
        // Lifecycle scripts include the native terminal dependencies. Keep their
        // stage and failure visible instead of leaving the UI silent.
        command::argue(&mut list, "--foreground-scripts");
        // Without a TTY npm draws no progress bar; this is what keeps the console
        // moving during a download measured in hundreds of MB.
        command::argue(&mut list, "--loglevel=http");
        assert(text::texts(list@) =~= install_arguments(*self));
        list
    }

    /// The command that installs one package into the target.
    pub fn to_command(&self, path: &str) -> (line: CommandLine)
        ensures
            line@ == self.npm(path@, install_arguments(*self)),
    {
        self.command(path, self.arguments())
    }

    /// The command that installs a release other than the locked one.
    pub fn to_selected_command(&self, path: &str) -> (line: CommandLine)
        ensures
            line@ == self.npm(path@, install_arguments(*self) + selected_arguments()),
    {
        let mut list = self.arguments();
        command::argue(&mut list, "--legacy-peer-deps");
        command::argue(&mut list, "--install-links");
        command::argue(&mut list, "--save-exact");
        command::argue(&mut list, "--registry=https://registry.npmjs.org/");
        command::argue(&mut list, "--fetch-retries=2");
        command::argue(&mut list, "--fetch-timeout=60000");
        assert(text::texts(list@) =~= install_arguments(*self) + selected_arguments());
        self.command(path, list)
    }

    /// The command that restores the locked graph into the target.
    pub fn to_locked_command(&self, path: &str) -> (line: CommandLine)
        ensures
            line@ == self.npm(path@, locked_arguments(*self)),
    {
        let mut list: Vec<String> = Vec::new();
        command::argue(&mut list, &self.npm_cli);
        command::argue(&mut list, "ci");
        command::argue(&mut list, "--prefix");
        command::argue(&mut list, &self.target);
        // The qualified lock records one exact working graph; asking npm to solve
        // its peers again defeats the lock and fails.
        command::argue(&mut list, "--legacy-peer-deps");
        command::argue(&mut list, "--no-audit");
        command::argue(&mut list, "--no-fund");
        command::argue(&mut list, "--foreground-scripts");
        command::argue(&mut list, "--loglevel=http");
        // Install the local file dependency as an ordinary directory rather than
        // as a link that breaks once its source is cleaned up.
        command::argue(&mut list, "--install-links");
        // The lock was qualified against the public registry. npm otherwise
        // rewrites even locked tarball hosts to a user-configured mirror.
        command::argue(&mut list, &text::join2("--registry=", OFFICIAL_REGISTRY));
        command::argue(&mut list, "--fetch-retries=2");
        command::argue(&mut list, "--fetch-timeout=60000");
        assert(text::texts(list@) =~= locked_arguments(*self));
        self.command(path, list)
    }

    /// The command that boots an installed candidate in a disposable profile.
    pub fn to_probe_command(
        &self,
        path: &str,
        runner: &str,
        version: &str,
        studio_version: &str,
    ) -> (line: CommandLine)
        ensures
            line@ == (Invocation {
                program: self.node@,
                arguments: seq![runner@, self.target@, version@, studio_version@],
                directory: Some(self.target@),
                environment: seq![("PATH"@, path@)],
            }),
    {
        let mut arguments: Vec<String> = Vec::new();
        command::argue(&mut arguments, runner);
        command::argue(&mut arguments, &self.target);
        command::argue(&mut arguments, version);
        command::argue(&mut arguments, studio_version);
        let mut environment: Vec<(String, String)> = Vec::new();
        command::set(&mut environment, "PATH", path);
        let line = CommandLine {
            program: self.node.clone(),
            arguments,
            directory: Some(self.target.clone()),
            environment,
        };
        assert(line@.arguments =~= seq![runner@, self.target@, version@, studio_version@]);
        assert(line@.environment =~= seq![("PATH"@, path@)]);
        line
    }
}

/// Work out how to install `spec` with the given runtime and its npm.
pub fn plan(node: String, npm_cli: Option<String>, target: String, spec: String) -> (planned: Result<
    InstallPlan,
    Error,
>)
    ensures
        match (planned, npm_cli) {
            (Ok(found), Some(cli)) => found == (InstallPlan { node, npm_cli: cli, target, spec }),
            (Err(error), None) => error@ == Fault::NpmMissing,
            _ => false,
        },
{
    match npm_cli {
        Some(cli) => Ok(InstallPlan { node, npm_cli: cli, target, spec }),
        None => Err(Error::NpmMissing),
    }
}

/// Where npm's entry script may lie, from the directory of a Node executable:
/// the layouts used by the official archive, version managers and Homebrew.
///
/// Homebrew exposes `node` through `<prefix>/bin`, but the canonical path is
/// `<prefix>/Cellar/node/<version>/bin/node`. npm is then either formula-owned
/// under `libexec`, or shared under the Homebrew prefix.
pub open spec fn npm_places(directory: Place) -> Seq<Place> {
    seq![
        directory.below("node_modules/npm/bin/npm-cli.js"@),
        directory.below("../lib/node_modules/npm/bin/npm-cli.js"@),
        directory.below("../libexec/lib/node_modules/npm/bin/npm-cli.js"@),
        directory.below("../../../../lib/node_modules/npm/bin/npm-cli.js"@),
    ]
}

/// Places by what they say.
pub open spec fn placed(list: Seq<Location>) -> Seq<Place> {
    Seq::new(list.len(), |i: int| list[i]@)
}

/// Where npm's entry script may lie; nowhere where the executable has no
/// directory.
pub fn npm_cli_candidates(directory: &Option<Location>) -> (list: Vec<Location>)
    ensures
        placed(list@) == (match *directory {
            Some(found) => npm_places(found@),
            None => Seq::empty(),
        }),
{
    let mut list: Vec<Location> = Vec::new();
    if let Some(found) = directory {
        list.push(found.below("node_modules/npm/bin/npm-cli.js"));
        list.push(found.below("../lib/node_modules/npm/bin/npm-cli.js"));
        list.push(found.below("../libexec/lib/node_modules/npm/bin/npm-cli.js"));
        list.push(found.below("../../../../lib/node_modules/npm/bin/npm-cli.js"));
        assert(placed(list@) =~= npm_places(found@));
    } else {
        assert(placed(list@) =~= Seq::empty());
    }
    list
}

/// One candidate for npm's entry script and what was seen of it.
#[derive(Debug)]
pub struct Probe {
    pub location: String,
    pub is_file: bool,
    /// Whether running it with the chosen Node printed a version.
    pub works: bool,
}

/// Locate npm's entry script: the first candidate that is a file and proved to
/// belong to a working npm.
pub fn npm_cli(probes: &Vec<Probe>) -> (found: Option<String>)
    ensures
        match found {
            Some(location) => exists|i: int|
                0 <= i < probes@.len() && (#[trigger] probes@[i]).is_file && probes@[i].works
                    && location@ == probes@[i].location@ && forall|j: int|
                    0 <= j < i ==> !((#[trigger] probes@[j]).is_file && probes@[j].works),
            None => forall|j: int|
                0 <= j < probes@.len() ==> !((#[trigger] probes@[j]).is_file && probes@[j].works),
        },
{
    let mut index: usize = 0;
    while index < probes.len()
        invariant
            index <= probes@.len(),
            forall|j: int|
                0 <= j < index ==> !((#[trigger] probes@[j]).is_file && probes@[j].works),
        decreases probes.len() - index,
    {
        if probes[index].is_file && probes[index].works {
            return Some(probes[index].location.clone());
        }
        index += 1;
    }
    None
}

/// Whether what a candidate printed proves a working npm: it exited well and
/// did not print ASCII white space alone.
pub fn npm_cli_works(success: bool, output: &Vec<u8>) -> (answer: bool)
    ensures
        answer == (success && exists|i: int|
            0 <= i < output@.len() && !ascii_space(#[trigger] output@[i])),
{
    if !success {
        return false;
    }
    let mut index: usize = 0;
    while index < output.len()
        invariant
            success,
            index <= output@.len(),
            forall|i: int| 0 <= i < index ==> ascii_space(#[trigger] output@[i]),
        decreases output.len() - index,
    {
        let byte: u8 = output[index];
        if !(byte == 0x20 || byte == 0x09 || byte == 0x0a || byte == 0x0c || byte == 0x0d) {
            assert(!ascii_space(output@[index as int]));
            return true;
        }
        index += 1;
    }
    false
}

/// Whether a byte is ASCII white space: space, tab, line feed, form feed or
/// carriage return.
pub open spec fn ascii_space(byte: u8) -> bool {
    byte == 0x20 || byte == 0x09 || byte == 0x0a || byte == 0x0c || byte == 0x0d
}

/// What a runtime root and the paths below it are called.
pub open spec fn package_file(root: Place, name: Seq<char>) -> Place {
    root.below("node_modules"@).below("@deepseek-ai"@).below("dsh"@).below(name)
}

/// The manifest of the Harness package below a runtime root.
pub fn manifest_place(root: &Location) -> (place: Location)
    ensures
        place@ == package_file(root@, "package.json"@),
{
    root.below("node_modules").below("@deepseek-ai").below("dsh").below("package.json")
}

/// The entry point of the Harness package below a runtime root.
pub fn entry(root: &Location) -> (place: Location)
    ensures
        place@ == package_file(root@, "lib"@).below("bin.js"@),
{
    root.below("node_modules").below("@deepseek-ai").below("dsh").below("lib").below("bin.js")
}

/// The package manager's entry point below a runtime root.
pub fn pnpm_entry(root: &Location) -> (place: Location)
    ensures
        place@ == root@.below("node_modules/pnpm/bin/pnpm.cjs"@),
{
    root.below("node_modules/pnpm/bin/pnpm.cjs")
}

/// The package manager's manifest below a runtime root.
pub fn pnpm_manifest_place(root: &Location) -> (place: Location)
    ensures
        place@ == root@.below("node_modules/pnpm/package.json"@),
{
    root.below("node_modules/pnpm/package.json")
}

/// The Studio integration's client below a runtime root.
pub fn integration_entry(root: &Location) -> (place: Location)
    ensures
        place@ == root@.below("node_modules/@moresyl/dsh-studio-integration/lib/client.js"@),
{
    root.below("node_modules/@moresyl/dsh-studio-integration/lib/client.js")
}

/// The directory picker client below a runtime root.
pub fn picker_place(root: &Location) -> (place: Location)
    ensures
        place@ == root@.below(
            "node_modules/@deepseek-ai/dsh-client-ui-directory-picker-browse/lib/client.js"@,
        ),
{
    root.below("node_modules/@deepseek-ai/dsh-client-ui-directory-picker-browse/lib/client.js")
}

/// The runtime marker below a runtime root.
pub fn marker_place(root: &Location) -> (place: Location)
    ensures
        place@ == root@.below("dsh-studio-runtime.json"@),
{
    root.below("dsh-studio-runtime.json")
}

/// What a verified runtime of a release records.
pub open spec fn marker_document(version: Seq<char>) -> Document {
    Document::Object(
        seq![
            ("schema"@, Document::Whole(RUNTIME_SCHEMA as u64)),
            ("version"@, Document::Text(version)),
        ],
    )
}

/// The marker of a verified runtime. A runtime whose files carry it is expected
/// to be exactly that release of exactly this contract.
pub fn marker_text(version: &str) -> (text: String)
    ensures
        text@ == json::printed(marker_document(version@)),
        json::reads_as(text@, marker_document(version@)),
        schema(read_document(Some(text@))) == Some(RUNTIME_SCHEMA),
        exact_version(version@) ==> expected(Some(text@)) == version@,
{
    let mut members: Vec<(String, Json)> = Vec::new();
    members.push(("schema".to_owned(), Json::Whole(RUNTIME_SCHEMA as u64)));
    members.push(("version".to_owned(), Json::Text(version.to_owned())));
    let json = Json::Object(members);
    let ghost whole = marker_document(version@);
    proof {
        reveal_strlit("schema");
        reveal_strlit("version");
        reveal_with_fuel(json::document, 2);
        reveal_with_fuel(json::integral, 2);
        assert(json@->Object_0 =~= whole->Object_0);
        assert(text::earlier("schema"@, "version"@));
        assert("schema"@ != "version"@);
        let list = whole->Object_0;
        assert(list.drop_first() =~= seq![list[1]]);
        assert(json::member(list.drop_first(), "version"@) == Some(list[1].1));
        assert(json::ordered(list[0].1) && json::ordered(list[1].1));
        assert(json::signed(list[0].1) && json::signed(list[1].1));
        json::lemma_integral_settled(whole, 100);
    }
    json.print()
}

/// The marker of a runtime that was qualified but not yet verified.
pub fn unverified_marker_text() -> (text: String)
    ensures
        text@ == "{\"schema\":"@ + text::decimal(RUNTIME_SCHEMA as nat) + "}\n"@,
{
    text::join3("{\"schema\":", &text::number_text(RUNTIME_SCHEMA as u64), "}\n")
}

/// What a failed startup check says: what the candidate reported, without
/// credentials, where it reported anything.
pub fn boot_complaint(failure: Error, reported: Option<String>) -> (shown: Error)
    ensures
        shown@ == (match reported {
            Some(text) => Fault::Install(logging::redacted(text@, false)),
            None => failure@,
        }),
{
    match reported {
        Some(text) => Error::Install(logging::redact_secrets(&text)),
        None => failure,
    }
}

/// What a failed startup check says, from the bytes the candidate reported.
pub fn boot_failure(failure: Error, reported: &Option<Vec<u8>>) -> (shown: Error)
    ensures
        shown@ == (match *reported {
            Some(bytes) => Fault::Install(logging::redacted(text::lossy(bytes@), false)),
            None => failure@,
        }),
{
    match reported {
        Some(bytes) => boot_complaint(failure, Some(text::decode_lossy(bytes))),
        None => failure,
    }
}

/// One line an install command wrote, as it is reported.
pub fn output_line(raw: &Vec<u8>) -> (line: String)
    ensures
        line@ == text::trimmed_end(text::lossy(raw@), Class::White),
{
    text::trim_end(&text::decode_lossy(raw), Class::White)
}

/// What is announced before a candidate is booted.
pub fn boot_notice(version: &str) -> (line: String)
    ensures
        line@ == "verifying Harness "@ + version@ + " in an isolated profile"@,
{
    text::join3("verifying Harness ", version, " in an isolated profile")
}

/// What the system could not do while a runtime was installed.
#[derive(Clone, Copy, Debug, PartialEq, Eq, Structural)]
pub enum Trouble {
    /// Create the directory of a selected release, or list what was installed.
    Directory,
    /// Write the locked dependency graph.
    Lock,
    /// Write the Studio integration.
    Integration,
    /// Write the manifest of a selected release.
    Manifest,
    /// List the installed family members.
    Peers,
    /// Read the manifest of one of them.
    PeerManifest,
    /// Write the manifest with their peers.
    PeerUpdate,
    /// Read the directory picker.
    PickerRead,
    /// Write the directory picker.
    PickerWrite,
    /// Mark the runtime.
    Contract,
    /// Write the launcher.
    Launcher,
    /// Write the startup check.
    StartupCheck,
    /// Record the verified release.
    Marker,
    /// Create the directory of the install state.
    StateDirectory,
    /// Encode the install state.
    StateEncoding,
    /// Write the install state.
    StateCommit,
    /// Create the directory of an offline install.
    OfflineDirectory,
    /// Unpack the offline runtime.
    OfflineArchive,
}

/// What is said before the system's own words.
pub open spec fn complaint_about(what: Trouble) -> Seq<char> {
    match what {
        Trouble::Directory => ""@,
        Trouble::Lock => "could not stage the runtime lock: "@,
        Trouble::Integration => "could not stage the Studio integration: "@,
        Trouble::Manifest => "could not stage selected runtime: "@,
        Trouble::Peers => "cannot inspect Harness peers: "@,
        Trouble::PeerManifest => "cannot inspect Harness peer manifest: "@,
        Trouble::PeerUpdate => "cannot stage Harness peers: "@,
        Trouble::PickerRead => "the qualified directory picker could not be read safely: "@,
        Trouble::PickerWrite => "the qualified directory picker could not be written: "@,
        Trouble::Contract => "could not mark the runtime contract: "@,
        Trouble::Launcher => "could not stage Harness launcher: "@,
        Trouble::StartupCheck => "could not stage startup check: "@,
        Trouble::Marker => "could not record verified runtime: "@,
        Trouble::StateDirectory => "could not create the install state directory: "@,
        Trouble::StateEncoding => "could not encode install state: "@,
        Trouble::StateCommit => "could not commit install state: "@,
        Trouble::OfflineDirectory => "could not create the offline install directory: "@,
        Trouble::OfflineArchive => "the offline Harness archive could not be unpacked: "@,
    }
}

/// What is said when the system could not do something.
pub fn trouble(what: Trouble, cause: &str) -> (error: Error)
    ensures
        error@ == Fault::Install(complaint_about(what) + cause@),
{
    let complaint = match what {
        Trouble::Directory => "",
        Trouble::Lock => "could not stage the runtime lock: ",
        Trouble::Integration => "could not stage the Studio integration: ",
        Trouble::Manifest => "could not stage selected runtime: ",
        Trouble::Peers => "cannot inspect Harness peers: ",
        Trouble::PeerManifest => "cannot inspect Harness peer manifest: ",
        Trouble::PeerUpdate => "cannot stage Harness peers: ",
        Trouble::PickerRead => "the qualified directory picker could not be read safely: ",
        Trouble::PickerWrite => "the qualified directory picker could not be written: ",
        Trouble::Contract => "could not mark the runtime contract: ",
        Trouble::Launcher => "could not stage Harness launcher: ",
        Trouble::StartupCheck => "could not stage startup check: ",
        Trouble::Marker => "could not record verified runtime: ",
        Trouble::StateDirectory => "could not create the install state directory: ",
        Trouble::StateEncoding => "could not encode install state: ",
        Trouble::StateCommit => "could not commit install state: ",
        Trouble::OfflineDirectory => "could not create the offline install directory: ",
        Trouble::OfflineArchive => "the offline Harness archive could not be unpacked: ",
    };
    Error::Install(text::join2(complaint, cause))
}

/// What is said of a directory that could not be created.
pub fn creation_failure(shown: &str, cause: &str) -> (error: Error)
    ensures
        error@ == Fault::Install("could not create "@ + shown@ + ": "@ + cause@),
{
    Error::Install(text::join4("could not create ", shown, ": ", cause))
}

/// An exact version is short, reads as a release number without build metadata and
/// is written the one way that number is printed; every such text is exact.
pub proof fn an_exact_version_reads_one_way(version: Seq<char>)
    ensures
        exact_version(version) <==> encode_utf8(version).len() <= 80 && version::release(version)
            is Some && version::release(version)->0.build.len() == 0 && version::release(
            version,
        )->0.shown() == version,
{
}

/// A runtime is expected to be the release its marker records wherever that is an
/// exact version, and the built-in one wherever it is not or nothing is recorded.
pub proof fn a_marked_release_is_expected(
    marker: Option<Seq<char>>,
    document: Document,
    version: Seq<char>,
)
    ensures
        expected(None) == "0.1.2-rc.1"@,
        marker matches Some(body) ==> json::read(body) is Err ==> expected(marker)
            == "0.1.2-rc.1"@,
        marker matches Some(body) ==> json::read(body) == Ok::<Document, Seq<char>>(document) ==> {
            &&& document.get("version"@) == Some(Document::Text(version)) && exact_version(version)
                ==> expected(marker) == version
            &&& document.get("version"@) == Some(Document::Text(version)) && !exact_version(version)
                ==> expected(marker) == "0.1.2-rc.1"@
            &&& document.text_at("version"@) is None ==> expected(marker) == "0.1.2-rc.1"@
        },
{
}

/// A package records the version its manifest gives, without white space at its
/// ends; a blank one is none.
pub proof fn a_recorded_version_is_taken_without_white_space(
    manifest: Document,
    version: Seq<char>,
)
    ensures
        manifest.get("version"@) == Some(Document::Text(version)) ==> (recorded(Some(manifest))
            is Some <==> exists|i: int|
            0 <= i < version.len() && !text::is_white(#[trigger] version[i])),
        manifest.get("version"@) == Some(Document::Text(version)) && recorded(Some(manifest))
            is Some ==> recorded(Some(manifest)) == Some(text::trimmed(version, Class::White)),
        manifest.text_at("version"@) is None ==> recorded(Some(manifest)) is None,
        recorded(None) is None,
{
    text::nothing_is_left_of_a_blank_text(version);
}

/// A marker's generation is the number it records, where that is one from nought to
/// 255.
pub proof fn a_generation_is_a_small_number(marker: Document, number: u64)
    ensures
        marker.get("schema"@) == Some(Document::Whole(number)) ==> (if number < 256 {
            schema(Some(marker)) is Some && schema(Some(marker))->0 as int == number
        } else {
            schema(Some(marker)) is None
        }),
        !(marker.get("schema"@) matches Some(Document::Whole(_))) ==> schema(Some(marker)) is None,
        schema(None) is None,
{
}

/// A picker is qualified exactly where both desktop hooks stand in it, in either
/// order and wherever.
pub proof fn a_qualified_picker_has_both_hooks(
    before: Seq<char>,
    between: Seq<char>,
    after: Seq<char>,
    body: Seq<char>,
)
    ensures
        hooked(
            Some(
                before + "__DSH_DESKTOP_PICK_DIRECTORY__"@ + between
                    + "__DSH_DESKTOP_VALIDATE_DIRECTORY__"@ + after,
            ),
        ),
        hooked(
            Some(
                before + "__DSH_DESKTOP_VALIDATE_DIRECTORY__"@ + between
                    + "__DSH_DESKTOP_PICK_DIRECTORY__"@ + after,
            ),
        ),
        hooked(Some(body)) ==> text::holds_text(body, "__DSH_DESKTOP_PICK_DIRECTORY__"@)
            && text::holds_text(body, "__DSH_DESKTOP_VALIDATE_DIRECTORY__"@),
        !hooked(None),
{
    let pick = "__DSH_DESKTOP_PICK_DIRECTORY__"@;
    let validate = "__DSH_DESKTOP_VALIDATE_DIRECTORY__"@;
    text::lemma_holds_between(before, pick, between + validate + after);
    assert(before + pick + (between + validate + after) =~= before + pick + between + validate
        + after);
    text::lemma_holds_between(before + pick + between, validate, after);
    text::lemma_holds_between(before, validate, between + pick + after);
    assert(before + validate + (between + pick + after) =~= before + validate + between + pick
        + after);
    text::lemma_holds_between(before + validate + between, pick, after);
}

/// What is found in a runtime directory is what its files say, each of its own.
pub proof fn a_finding_is_what_the_files_say(files: RuntimeFiles)
    ensures
        ({
            let found = files.finding();
            &&& found.expected == expected(text::seen(files.marker))
            &&& found.version == recorded(read_document(text::seen(files.manifest)))
            &&& found.schema == schema(read_document(text::seen(files.marker)))
            &&& found.picker == hooked(text::seen(files.picker))
            &&& found.entry == files.entry && found.launcher == files.launcher
                && found.pnpm_entry == files.pnpm_entry && found.integration == files.integration
            &&& read_document(text::seen(files.pnpm_manifest)) matches Some(document) ==> found.pnpm
                == document.text_at("version"@)
            &&& read_document(text::seen(files.pnpm_manifest)) is None ==> found.pnpm is None
        }),
{
}

/// A runtime meets the contract exactly where it is the release that is expected of
/// it, has its entry point, has a launcher unless it is the built-in release, has
/// the one verified package manager with its entry point, carries the marker of
/// this generation, the Studio integration and a qualified picker.
pub proof fn the_contract_has_eight_conditions(found: Finding)
    ensures
        found.compatible() <==> {
            &&& found.version == Some(found.expected)
            &&& found.entry
            &&& found.launcher || found.expected == "0.1.2-rc.1"@
            &&& found.pnpm == Some("11.7.0"@)
            &&& found.pnpm_entry
            &&& found.schema == Some(4u8)
            &&& found.integration
            &&& found.picker
        },
        found.complete() <==> found.version is Some && found.entry,
{
}

/// Every condition that fails is named, and none that holds.
pub proof fn a_failed_condition_is_named(found: Finding)
    ensures
        ({
            let list = found.failures();
            &&& list.contains("Harness version"@) <==> found.version != Some(found.expected)
            &&& list.contains("Harness entry point"@) <==> !found.entry
            &&& list.contains("Studio CLI launcher"@) <==> !(found.launcher || found.expected
                == "0.1.2-rc.1"@)
            &&& list.contains("pnpm version"@) <==> found.pnpm != Some("11.7.0"@)
            &&& list.contains("pnpm entry point"@) <==> !found.pnpm_entry
            &&& list.contains("runtime marker"@) <==> found.schema != Some(4u8)
            &&& list.contains("Studio integration"@) <==> !found.integration
            &&& list.contains("qualified directory picker"@) <==> !found.picker
        }),
{
    reveal_strlit("Harness version");
    reveal_strlit("Harness entry point");
    reveal_strlit("Studio CLI launcher");
    reveal_strlit("pnpm version");
    reveal_strlit("pnpm entry point");
    reveal_strlit("runtime marker");
    reveal_strlit("Studio integration");
    reveal_strlit("qualified directory picker");
    let names = seq![
        "Harness version"@,
        "Harness entry point"@,
        "Studio CLI launcher"@,
        "pnpm version"@,
        "pnpm entry point"@,
        "runtime marker"@,
        "Studio integration"@,
        "qualified directory picker"@,
    ];
    let holds = seq![
        found.version == Some(found.expected),
        found.entry,
        found.expected == VERSION@ || found.launcher,
        found.pnpm == Some(PNPM_VERSION@),
        found.pnpm_entry,
        found.schema == Some(RUNTIME_SCHEMA),
        found.integration,
        found.picker,
    ];
    assert("Harness version"@.len() == 15 && "Harness entry point"@.len() == 19
        && "Studio CLI launcher"@.len() == 19 && "pnpm version"@.len() == 12
        && "pnpm entry point"@.len() == 16 && "runtime marker"@.len() == 14
        && "Studio integration"@.len() == 18 && "qualified directory picker"@.len() == 26);
    assert("Harness entry point"@[0] == 'H' && "Studio CLI launcher"@[0] == 'S');
    reveal_with_fuel(failed_names, 9);
    let all = failed_names(names, holds, 8);
    assert(all =~= found.failures());
    lemma_failed_names(names, holds, 8, 0);
    lemma_failed_names(names, holds, 8, 1);
    lemma_failed_names(names, holds, 8, 2);
    lemma_failed_names(names, holds, 8, 3);
    lemma_failed_names(names, holds, 8, 4);
    lemma_failed_names(names, holds, 8, 5);
    lemma_failed_names(names, holds, 8, 6);
    lemma_failed_names(names, holds, 8, 7);
}

/// The names of the first conditions that fail.
pub open spec fn failed_names(names: Seq<Seq<char>>, holds: Seq<bool>, count: nat) -> Seq<
    Seq<char>,
>
    decreases count,
{
    if count == 0 {
        Seq::empty()
    } else {
        failed_names(names, holds, (count - 1) as nat) + failed(holds[count - 1], names[count - 1])
    }
}

/// A name is among those of the failed conditions exactly where its own fails.
proof fn lemma_failed_names(names: Seq<Seq<char>>, holds: Seq<bool>, count: nat, at: int)
    requires
        count <= names.len(),
        0 <= at < names.len(),
        forall|i: int, j: int| 0 <= i < j < names.len() ==> names[i] != names[j],
    ensures
        failed_names(names, holds, count).contains(names[at]) <==> at < count && !holds[at],
    decreases count,
{
    if count > 0 {
        lemma_failed_names(names, holds, (count - 1) as nat, at);
        let before = failed_names(names, holds, (count - 1) as nat);
        let last = failed(holds[count - 1], names[count - 1]);
        let all = before + last;
        if before.contains(names[at]) {
            let k = choose|k: int| 0 <= k < before.len() && before[k] == names[at];
            assert(all[k] == names[at]);
        }
        if all.contains(names[at]) {
            let k = choose|k: int| 0 <= k < all.len() && all[k] == names[at];
            if k < before.len() {
                assert(before[k] == names[at]);
            } else {
                assert(last[k - before.len()] == names[at]);
            }
        }
        if at == count - 1 && !holds[at] {
            assert(all[before.len() as int] == names[at]);
        }
    }
}

/// A managed install is asked for by the official package and an exact version, and
/// gives that version back; every such specifier is accepted, and nothing else.
pub proof fn a_managed_install_names_the_official_package(version: Seq<char>, spec: Seq<char>)
    ensures
        exact_version(version) ==> managed("@deepseek-ai/dsh@"@ + version) == Ok::<
            Seq<char>,
            Fault,
        >(version),
        !exact_version(version) ==> managed("@deepseek-ai/dsh@"@ + version) is Err,
        managed(spec) matches Ok(found) ==> spec == "@deepseek-ai/dsh@"@ + found && exact_version(
            found,
        ),
{
    reveal_strlit("@deepseek-ai/dsh@");
    reveal_strlit("@deepseek-ai/dsh");
    reveal_strlit("@");
    assert(PACKAGE@ + "@"@ =~= "@deepseek-ai/dsh@"@);
    text::a_prefix_taken_away_can_be_put_back(spec, PACKAGE@ + "@"@, version);
}

/// npm is run by the chosen Node in the target, with the search path that has that
/// Node in front, and tells nobody of updates.
pub proof fn npm_runs_in_the_target(
    plan: InstallPlan,
    path: Seq<char>,
    arguments: Seq<Seq<char>>,
)
    ensures
        ({
            let run = plan.npm(path, arguments);
            &&& run.program == plan.node@
            &&& run.arguments == arguments
            &&& run.directory == Some(plan.target@)
            &&& command::value_seen(run.environment, "PATH"@) == Some(path)
            &&& command::value_seen(run.environment, "npm_config_update_notifier"@) == Some(
                "false"@,
            )
        }),
{
    reveal_strlit("PATH");
    reveal_strlit("npm_config_update_notifier");
    reveal_with_fuel(command::value_seen, 3);
    assert("PATH"@.len() == 4 && "npm_config_update_notifier"@.len() == 26);
    let seen = plan.npm(path, arguments).environment;
    assert(seen.last() == ("npm_config_update_notifier"@, "false"@));
    assert(seen.drop_last().last() == ("PATH"@, path));
}

/// A package is installed under its own specifier into the target; a selected
/// release moreover exactly, with ordinary directories for its local parts, and
/// from the official registry alone.
pub proof fn a_package_is_installed_into_the_target(plan: InstallPlan)
    ensures
        ({
            let list = install_arguments(plan);
            &&& list.take(5) == seq![
                plan.npm_cli@,
                "install"@,
                plan.spec@,
                "--prefix"@,
                plan.target@,
            ]
            &&& list.contains("--foreground-scripts"@) && list.contains("--loglevel=http"@)
        }),
        selected_arguments().contains("--save-exact"@),
        selected_arguments().contains("--install-links"@),
        selected_arguments().contains("--legacy-peer-deps"@),
        selected_arguments().contains("--registry=https://registry.npmjs.org/"@),
        selected_arguments().contains("--fetch-timeout=60000"@),
{
    let list = install_arguments(plan);
    assert(list.take(5) =~= seq![
        plan.npm_cli@,
        "install"@,
        plan.spec@,
        "--prefix"@,
        plan.target@,
    ]);
    assert(list[7] == "--foreground-scripts"@);
    assert(list[8] == "--loglevel=http"@);
    assert(selected_arguments()[0] == "--legacy-peer-deps"@);
    assert(selected_arguments()[1] == "--install-links"@);
    assert(selected_arguments()[2] == "--save-exact"@);
    assert(selected_arguments()[3] == "--registry=https://registry.npmjs.org/"@);
    assert(selected_arguments()[5] == "--fetch-timeout=60000"@);
}

/// The locked graph is restored into the target as it is, from the registry the
/// lock was qualified against and no other, and no specifier can change it.
pub proof fn the_locked_graph_is_restored_as_it_is(plan: InstallPlan, other: InstallPlan)
    ensures
        ({
            let list = locked_arguments(plan);
            &&& list.take(4) == seq![plan.npm_cli@, "ci"@, "--prefix"@, plan.target@]
            &&& list.contains("--registry=https://registry.npmjs.org/"@)
            &&& list.contains("--install-links"@)
            &&& list.contains("--legacy-peer-deps"@)
            &&& list.contains("--foreground-scripts"@)
        }),
        plan.npm_cli@ == other.npm_cli@ && plan.target@ == other.target@ ==> locked_arguments(plan)
            == locked_arguments(other),
{
    reveal_strlit("--registry=");
    reveal_strlit("https://registry.npmjs.org/");
    reveal_strlit("--registry=https://registry.npmjs.org/");
    let list = locked_arguments(plan);
    assert(list.take(4) =~= seq![plan.npm_cli@, "ci"@, "--prefix"@, plan.target@]);
    assert("--registry="@ + OFFICIAL_REGISTRY@ =~= "--registry=https://registry.npmjs.org/"@);
    assert(list[10] == "--registry=https://registry.npmjs.org/"@);
    assert(list[9] == "--install-links"@);
    assert(list[4] == "--legacy-peer-deps"@);
    assert(list[7] == "--foreground-scripts"@);
    if plan.npm_cli@ == other.npm_cli@ && plan.target@ == other.target@ {
        assert(locked_arguments(plan) =~= locked_arguments(other));
    }
}

/// What is written as the marker of a release records that release and this
/// generation, and nothing else.
pub proof fn a_marker_records_the_release_and_the_generation(version: Seq<char>)
    ensures
        ({
            let marker = marker_document(version);
            &&& marker.get("version"@) == Some(Document::Text(version))
            &&& marker.get("schema"@) == Some(Document::Whole(4))
            &&& schema(Some(marker)) == Some(4u8)
            &&& exact_version(version) ==> marked(Some(marker)) == version
            &&& marker->Object_0.len() == 2
        }),
{
    reveal_strlit("schema");
    reveal_strlit("version");
    reveal_with_fuel(json::member, 3);
    let list = marker_document(version)->Object_0;
    assert("schema"@.len() == 6 && "version"@.len() == 7);
    assert(list.drop_first()[0] == list[1]);
}

/// A version that is let through is never empty, begins with a digit, and holds
/// nothing that means something to a shell, a path or an address.
pub proof fn a_version_let_through_is_harmless(version: Seq<char>, at: int)
    requires
        harmless(version),
    ensures
        version.len() > 0,
        '0' <= version[0] <= '9',
        0 <= at < version.len() ==> ({
            let character = version[at];
            ||| 'a' <= character <= 'z'
            ||| 'A' <= character <= 'Z'
            ||| '0' <= character <= '9'
            ||| character == '-'
            ||| character == '.'
        }),
{
}

/// A text of digits, letters, hyphens and dots that begins with a digit is harmless.
pub proof fn plain_characters_are_harmless(version: Seq<char>)
    requires
        version.len() > 0,
        '0' <= version[0] <= '9',
        forall|i: int|
            0 <= i < version.len() ==> ({
                let character = #[trigger] version[i];
                ||| 'a' <= character <= 'z'
                ||| 'A' <= character <= 'Z'
                ||| '0' <= character <= '9'
                ||| character == '-'
                ||| character == '.'
            }),
    ensures
        harmless(version),
{
}

/// npm is looked for in four places, each of them its command-line entry, the one
/// beside the Node executable first.
pub proof fn npm_is_looked_for_in_four_places(directory: Place, separator: Seq<char>)
    ensures
        ({
            let places = npm_places(directory);
            let start = directory.shown(separator) + separator;
            &&& places.len() == 4
            &&& places[0].shown(separator) == start + "node_modules/npm/bin/npm-cli.js"@
            &&& places[1].shown(separator) == start + "../lib/node_modules/npm/bin/npm-cli.js"@
            &&& places[2].shown(separator) == start
                + "../libexec/lib/node_modules/npm/bin/npm-cli.js"@
            &&& places[3].shown(separator) == start
                + "../../../../lib/node_modules/npm/bin/npm-cli.js"@
        }),
{
    crate::paths::a_place_is_shown_step_by_step(
        directory,
        "node_modules/npm/bin/npm-cli.js"@,
        separator,
    );
    crate::paths::a_place_is_shown_step_by_step(
        directory,
        "../lib/node_modules/npm/bin/npm-cli.js"@,
        separator,
    );
    crate::paths::a_place_is_shown_step_by_step(
        directory,
        "../libexec/lib/node_modules/npm/bin/npm-cli.js"@,
        separator,
    );
    crate::paths::a_place_is_shown_step_by_step(
        directory,
        "../../../../lib/node_modules/npm/bin/npm-cli.js"@,
        separator,
    );
}

/// The white space of ASCII is the space, the tab, the line feed, the form feed and
/// the carriage return; no visible byte is, and neither is the vertical tab.
pub proof fn ascii_white_space_is_five_bytes(byte: u8)
    ensures
        ascii_space(byte) ==> text::is_white(byte as char),
        byte > 0x20 ==> !ascii_space(byte),
        byte < 0x20 ==> (ascii_space(byte) <==> 0x09 <= byte <= 0x0d && byte != 0x0b),
        ascii_space(0x20),
{
}

/// A file of the Harness package lies below the runtime root under the package's
/// own name.
pub proof fn package_files_lie_below_the_package(root: Place, name: Seq<char>, separator: Seq<char>)
    ensures
        package_file(root, name).shown(separator) == root.shown(separator) + separator
            + "node_modules"@ + separator + "@deepseek-ai"@ + separator + "dsh"@ + separator + name,
{
    let modules = root.below("node_modules"@);
    let scope = modules.below("@deepseek-ai"@);
    let package = scope.below("dsh"@);
    crate::paths::a_place_is_shown_step_by_step(root, "node_modules"@, separator);
    crate::paths::a_place_is_shown_step_by_step(modules, "@deepseek-ai"@, separator);
    crate::paths::a_place_is_shown_step_by_step(scope, "dsh"@, separator);
    crate::paths::a_place_is_shown_step_by_step(package, name, separator);
}

/// Every trouble with the files of an install is told by what was being done; only a
/// directory's own trouble is told without.
pub proof fn every_trouble_is_told_by_its_occasion(what: Trouble)
    ensures
        complaint_about(Trouble::Directory).len() == 0,
        complaint_about(Trouble::Lock) == "could not stage the runtime lock: "@,
        complaint_about(Trouble::Integration) == "could not stage the Studio integration: "@,
        complaint_about(Trouble::Manifest) == "could not stage selected runtime: "@,
        complaint_about(Trouble::Peers) == "cannot inspect Harness peers: "@,
        complaint_about(Trouble::PeerManifest) == "cannot inspect Harness peer manifest: "@,
        complaint_about(Trouble::PeerUpdate) == "cannot stage Harness peers: "@,
        complaint_about(Trouble::PickerRead)
            == "the qualified directory picker could not be read safely: "@,
        complaint_about(Trouble::PickerWrite)
            == "the qualified directory picker could not be written: "@,
        complaint_about(Trouble::Contract) == "could not mark the runtime contract: "@,
        complaint_about(Trouble::Launcher) == "could not stage Harness launcher: "@,
        complaint_about(Trouble::StartupCheck) == "could not stage startup check: "@,
        complaint_about(Trouble::Marker) == "could not record verified runtime: "@,
        complaint_about(Trouble::StateDirectory)
            == "could not create the install state directory: "@,
        complaint_about(Trouble::StateEncoding) == "could not encode install state: "@,
        complaint_about(Trouble::StateCommit) == "could not commit install state: "@,
        complaint_about(Trouble::OfflineDirectory)
            == "could not create the offline install directory: "@,
        complaint_about(Trouble::OfflineArchive)
            == "the offline Harness archive could not be unpacked: "@,
{
    reveal_strlit("");
}

/// A runtime that is refused is told by what was expected of it, what was found of it
/// and every condition that it fails; what was not found is called missing.
pub proof fn a_refused_runtime_is_told_by_what_was_found(found: Finding)
    ensures
        found.complaint()
            == "npm finished but the verified runtime is not Studio contract "@ + text::decimal(4)
            + " with "@ + "@deepseek-ai/dsh"@ + "@"@ + found.expected + ", "@
            + "@moresyl/dsh-studio-integration"@ + ", and pnpm "@ + "11.7.0"@ + " (found "@ + (
        match found.version {
            Some(version) => version,
            None => "missing"@,
        }) + " with pnpm "@ + (match found.pnpm {
            Some(version) => version,
            None => "missing"@,
        }) + "; failed: "@ + text::joined(found.failures(), ", "@) + ")"@,
{
}

/// A specifier of another package, or one that names no exact version, is refused
/// with what is asked for instead.
pub proof fn a_refused_specifier_is_told_what_is_needed(spec: Seq<char>, version: Seq<char>)
    ensures
        !text::begins(spec, "@deepseek-ai/dsh"@ + "@"@) ==> managed(spec) == Err::<Seq<char>, Fault>(
            Fault::Install("managed runtime must use the official Harness package"@),
        ),
        spec == "@deepseek-ai/dsh"@ + "@"@ + version && !exact_version(version) ==> managed(spec)
            == Err::<Seq<char>, Fault>(
            Fault::Install("select an exact Harness version such as 0.1.1-rc.2"@),
        ),
{
    text::a_prefix_taken_away_can_be_put_back(spec, "@deepseek-ai/dsh"@ + "@"@, version);
}

/// npm is kept to what was asked of it: no audit, no funding notes, and never more
/// than two tries and a minute for each download, from the official registry alone.
pub proof fn npm_is_kept_to_what_was_asked(plan: InstallPlan)
    ensures
        install_arguments(plan).len() == 9,
        install_arguments(plan)[5] == "--no-audit"@,
        install_arguments(plan)[6] == "--no-fund"@,
        selected_arguments().len() == 6,
        selected_arguments()[3] == "--registry=https://registry.npmjs.org/"@,
        selected_arguments()[4] == "--fetch-retries=2"@,
        selected_arguments()[5] == "--fetch-timeout=60000"@,
        locked_arguments(plan).len() == 13,
        locked_arguments(plan)[4] == "--legacy-peer-deps"@,
        locked_arguments(plan)[5] == "--no-audit"@,
        locked_arguments(plan)[6] == "--no-fund"@,
        locked_arguments(plan)[7] == "--foreground-scripts"@,
        locked_arguments(plan)[8] == "--loglevel=http"@,
        locked_arguments(plan)[9] == "--install-links"@,
        locked_arguments(plan)[10] == "--registry="@ + "https://registry.npmjs.org/"@,
        locked_arguments(plan)[11] == "--fetch-retries=2"@,
        locked_arguments(plan)[12] == "--fetch-timeout=60000"@,
{
}

/// The built-in release is the number that its text reads as.
pub proof fn the_built_in_release_is_a_candidate()
    ensures
        built_in().major == 0 && built_in().minor == 1 && built_in().patch == 2,
        built_in().pre == "rc.1"@,
        built_in().build.len() == 0,
{
}

/// A report is seen as what was found, part by part.
pub proof fn a_report_is_seen_as_what_was_found(report: RuntimeReport)
    ensures
        report@.expected == report.expected@,
        report@.version == text::seen(report.version),
        report@.entry == report.entry,
        report@.launcher == report.launcher,
        report@.pnpm == text::seen(report.pnpm),
        report@.pnpm_entry == report.pnpm_entry,
        report@.schema == report.schema,
        report@.integration == report.integration,
        report@.picker == report.picker,
{
}

/// Places are seen one for one and in order.
pub proof fn places_are_seen_as_they_are(list: Seq<Location>, at: int)
    ensures
        placed(list).len() == list.len(),
        0 <= at < list.len() ==> placed(list)[at] == list[at]@,
{
}

} // verus!
