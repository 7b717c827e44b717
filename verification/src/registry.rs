//! What the ecosystem has published, read through the user's own registry.
//!
//! A large share of the people this shell is for reach npm through a mirror, and
//! a marketplace that hard-coded the public registry would show them packages
//! they then could not install. So the address comes from npm's own resolved
//! configuration.
use vstd::prelude::*;
use vstd::utf8::encode_utf8;

use crate::address;
use crate::command;
use crate::command::{CommandLine, Invocation};
use crate::error::{Error, Fault};
use crate::json;
use crate::json::{Document, Json};
use crate::package;
use crate::text;
use crate::text::Class;
use crate::version;
use crate::version::Release;

verus! {

/// Where npm points when it has nothing to say.
pub const DEFAULT_REGISTRY: &'static str = "https://registry.npmjs.org";

/// What an empty search box asks for. Not a curated list: a list this project
/// maintained would be one more thing to keep honest, and would quietly decide
/// whose plugin is worth seeing.
pub const DISCOVERY: &'static str = "dsh bundle";

/// Enough to browse, few enough that the panel stays a panel.
pub const INDEX_RESULTS: &'static str = "250";

/// One search result.
#[derive(Debug)]
pub struct Listing {
    pub name: String,
    pub version: String,
    pub description: String,
    pub publisher: String,
    /// ISO timestamp of the last publish, formatted by the panel.
    pub updated: String,
    pub weekly_downloads: u64,
    /// Somewhere to read more, if the package said where.
    pub link: Option<String>,
    /// Source repository asserted by the catalog, separate from a homepage.
    pub repository: Option<String>,
    pub source_id: String,
    pub source_label: String,
    pub installable: bool,
    pub categories: Vec<String>,
    pub has_icon: bool,
}

/// What the published manifest says about one package.
#[derive(Debug)]
pub struct Detail {
    pub name: String,
    pub version: String,
    pub description: String,
    pub license: String,
    pub homepage: Option<String>,
    pub repository: Option<String>,
    /// Whether the manifest declares a profile patch. This is the difference
    /// between a plugin and a package that merely mentions the harness, and it
    /// is worth checking before installing rather than after.
    pub bundle: bool,
    pub dependencies: Vec<String>,
    /// Exact immutable spec the confirmation button will install.
    pub install_spec: String,
    /// Registry provenance shown before installation.
    pub source: String,
    pub compatibility: Compatibility,
    /// Registry integrity for the exact tarball, retained in market receipts.
    pub integrity: Option<String>,
    /// The profile patch itself, retained as provenance without executing it.
    pub bundle_patch: Option<Json>,
    /// Package-manager lifecycle hooks that would run local code during install.
    pub lifecycle_scripts: Vec<String>,
    /// Presence is a hard market block, even when the registry supplied no text.
    pub deprecated: Option<String>,
    /// Set by the catalog command after comparing npm metadata with its source.
    pub repository_verified: bool,
    /// True only for a complete SHA-512 Subresource Integrity value.
    pub integrity_verified: bool,
    /// Evidence-derived verdict. It deliberately avoids a numeric score: the
    /// concrete checks below are more actionable than an invented confidence.
    pub trust: TrustReport,
    /// Published package footprint, shown before disk or process access.
    pub resources: ResourceFootprint,
}

#[derive(Clone, Copy, Debug, PartialEq, Eq, Structural)]
pub enum TrustLevel {
    Verified,
    Review,
    Blocked,
}

#[derive(Debug)]
pub struct TrustSignal {
    pub code: String,
    pub state: String,
    pub detail: String,
}

#[derive(Debug)]
pub struct TrustReport {
    pub level: TrustLevel,
    pub signals: Vec<TrustSignal>,
}

#[derive(Clone, Copy, Debug, PartialEq, Eq, Structural)]
pub struct ResourceFootprint {
    pub direct_dependencies: usize,
    pub unpacked_bytes: Option<u64>,
    pub published_files: Option<u64>,
    pub native_build_declared: bool,
}

#[derive(Debug)]
pub enum Compatibility {
    Compatible { requirement: String },
    Unknown,
    Incompatible { requirement: String, reason: String },
}

/// A compatibility by what it says.
pub enum Fit {
    Compatible(Seq<char>),
    Unknown,
    Incompatible(Seq<char>, Seq<char>),
}

impl View for Compatibility {
    type V = Fit;

    open spec fn view(&self) -> Fit {
        match *self {
            Compatibility::Compatible { requirement } => Fit::Compatible(requirement@),
            Compatibility::Unknown => Fit::Unknown,
            Compatibility::Incompatible { requirement, reason } => Fit::Incompatible(
                requirement@,
                reason@,
            ),
        }
    }
}

/// Whether a field of a manifest depends on the legacy Cordis runtime.
pub open spec fn legacy_field(manifest: Document, field: Seq<char>) -> bool {
    manifest.within(field, "cordis"@) is Some
}

/// Whether a manifest depends on the legacy Cordis runtime.
pub open spec fn legacy(manifest: Document) -> bool {
    legacy_field(manifest, "dependencies"@) || legacy_field(manifest, "peerDependencies"@)
        || legacy_field(manifest, "optionalDependencies"@)
}

/// The Harness range that a field of a manifest declares, if it declares one.
pub open spec fn declared(manifest: Document, field: Seq<char>) -> Option<Seq<char>> {
    match manifest.text_within(field, "@deepseek-ai/dsh"@) {
        Some(range) => if text::trimmed(range, Class::White).len() == 0 {
            None
        } else {
            Some(text::trimmed(range, Class::White))
        },
        None => None,
    }
}

/// The Harness range that a manifest declares: as a peer, else as a dependency,
/// else as an optional one.
pub open spec fn required(manifest: Document) -> Option<Seq<char>> {
    match declared(manifest, "peerDependencies"@) {
        Some(range) => Some(range),
        None => match declared(manifest, "dependencies"@) {
            Some(range) => Some(range),
            None => declared(manifest, "optionalDependencies"@),
        },
    }
}

/// What a declared range comes to, from what it says of the current release;
/// nothing where it cannot be read.
pub open spec fn judged(requirement: Seq<char>, admits: Option<bool>) -> Fit {
    match admits {
        None => Fit::Incompatible(
            requirement,
            "the package declares an unreadable peer dependency range"@,
        ),
        Some(true) => Fit::Compatible(requirement),
        Some(false) => Fit::Incompatible(requirement, "it requires "@ + requirement),
    }
}

/// Whether a package fits the current release of the Harness.
pub open spec fn fit(manifest: Document, current: Seq<char>) -> Fit {
    if legacy(manifest) {
        Fit::Incompatible("legacy cordis"@, "it depends on the legacy Cordis runtime"@)
    } else {
        match required(manifest) {
            None => Fit::Unknown,
            Some(requirement) => judged(
                requirement,
                if version::range(requirement) {
                    Some(version::admitted(requirement, current))
                } else {
                    None
                },
            ),
        }
    }
}

/// The Harness range that a field of a manifest declares, if it declares one.
fn declared_range(manifest: &Json, field: &str) -> (range: Option<String>)
    ensures
        text::seen(range) == declared(manifest@, field@),
{
    match manifest.text_within(field, "@deepseek-ai/dsh") {
        Some(range) => {
            let trimmed = text::trim(&range, Class::White);
            if text::characters(&trimmed).len() == 0 {
                None
            } else {
                Some(trimmed)
            }
        },
        None => None,
    }
}

/// The Harness range that a manifest declares.
pub fn requirement(manifest: &Json) -> (range: Option<String>)
    ensures
        text::seen(range) == required(manifest@),
{
    match declared_range(manifest, "peerDependencies") {
        Some(range) => Some(range),
        None => match declared_range(manifest, "dependencies") {
            Some(range) => Some(range),
            None => declared_range(manifest, "optionalDependencies"),
        },
    }
}

/// What a declared range comes to, from what it says of the current release.
pub fn judge(requirement: String, admits: Option<bool>) -> (verdict: Compatibility)
    ensures
        verdict@ == judged(requirement@, admits),
{
    match admits {
        None => Compatibility::Incompatible {
            requirement,
            reason: "the package declares an unreadable peer dependency range".to_owned(),
        },
        Some(true) => Compatibility::Compatible { requirement },
        Some(false) => {
            let reason = text::join2("it requires ", &requirement);
            Compatibility::Incompatible { requirement, reason }
        },
    }
}

/// Whether a package fits the current release of the Harness.
pub fn compatibility(manifest: &Json, current: &str) -> (verdict: Compatibility)
    requires
        version::release(current@) is Some,
    ensures
        verdict@ == fit(manifest@, current@),
{
    if manifest.within("dependencies", "cordis").is_some() || manifest.within(
        "peerDependencies",
        "cordis",
    ).is_some() || manifest.within("optionalDependencies", "cordis").is_some() {
        return Compatibility::Incompatible {
            requirement: "legacy cordis".to_owned(),
            reason: "it depends on the legacy Cordis runtime".to_owned(),
        };
    }
    match requirement(manifest) {
        None => Compatibility::Unknown,
        Some(range) => {
            let admits = version::admits(&range, current);
            judge(range, admits)
        },
    }
}

/// Whether a character may stand for six bits of a base64 value.
pub open spec fn base64_character(character: char) -> bool {
    ||| 'a' <= character && character <= 'z'
    ||| 'A' <= character && character <= 'Z'
    ||| '0' <= character && character <= '9'
    ||| character == '+'
    ||| character == '/'
}

/// How many base64 characters a SHA-512 digest takes before its padding.
pub const DIGEST_CHARACTERS: usize = 86;

/// Whether a text is a complete SHA-512 Subresource Integrity value: the digest
/// itself, and the two characters of padding that its length asks for.
pub open spec fn sha512(value: Seq<char>) -> bool {
    match text::without_prefix(value, "sha512-"@) {
        Some(encoded) => {
            &&& encoded.len() == DIGEST_CHARACTERS + 2
            &&& forall|i: int|
                0 <= i < DIGEST_CHARACTERS ==> base64_character(#[trigger] encoded[i])
            &&& encoded[DIGEST_CHARACTERS as int] == '='
            &&& encoded[DIGEST_CHARACTERS + 1] == '='
        },
        None => false,
    }
}

/// Whether a text is a complete SHA-512 Subresource Integrity value.
pub fn valid_sha512_integrity(value: &str) -> (answer: bool)
    ensures
        answer == sha512(value@),
{
    let encoded = match text::strip_prefix(value, "sha512-") {
        Some(encoded) => encoded,
        None => {
            return false;
        },
    };
    let list = text::characters(&encoded);
    if list.len() != DIGEST_CHARACTERS + 2 || list[DIGEST_CHARACTERS] != '=' || list[
        DIGEST_CHARACTERS + 1] != '=' {
        return false;
    }
    let mut index: usize = 0;
    while index < DIGEST_CHARACTERS
        invariant
            list@ == encoded@,
            list@.len() == DIGEST_CHARACTERS + 2,
            text::without_prefix(value@, "sha512-"@) == Some(encoded@),
            index <= DIGEST_CHARACTERS,
            forall|i: int| 0 <= i < index ==> base64_character(#[trigger] encoded@[i]),
        decreases DIGEST_CHARACTERS - index,
    {
        let character = list[index];
        if !(('a' <= character && character <= 'z') || ('A' <= character && character <= 'Z') || (
        '0' <= character && character <= '9') || character == '+' || character == '/') {
            assert(!base64_character(encoded@[index as int]));
            return false;
        }
        index += 1;
    }
    true
}

/// The text, or nothing at all.
pub open spec fn or_empty(text: Option<Seq<char>>) -> Seq<char> {
    match text {
        Some(held) => held,
        None => Seq::empty(),
    }
}

/// The text, or nothing at all.
pub(crate) fn or_default(text: Option<String>) -> (held: String)
    ensures
        held@ == or_empty(text::seen(text)),
{
    match text {
        Some(held) => held,
        None => String::new(),
    }
}

/// The registry integrity a manifest records: its own, else its SHA-1 digest
/// under a name that marks it as weak.
pub open spec fn integrity_of(manifest: Document) -> Option<Seq<char>> {
    match manifest.text_within("dist"@, "integrity"@) {
        Some(value) => Some(value),
        None => match manifest.text_within("dist"@, "shasum"@) {
            Some(value) => Some("sha1hex-"@ + value),
            None => None,
        },
    }
}

/// A hook on its own where a manifest declares it, nothing otherwise.
pub open spec fn hook(manifest: Document, name: Seq<char>) -> Seq<Seq<char>> {
    if manifest.within("scripts"@, name) is Some {
        seq![name]
    } else {
        Seq::empty()
    }
}

/// The hooks of a manifest that would run local code during install.
pub open spec fn hooks(manifest: Document) -> Seq<Seq<char>> {
    hook(manifest, "preinstall"@) + hook(manifest, "install"@) + hook(manifest, "postinstall"@)
        + hook(manifest, "prepare"@)
}

/// What a publisher says of a deprecated package: at most 500 characters, and a
/// sentence of ours where there are none.
pub open spec fn deprecation(manifest: Document) -> Option<Seq<char>> {
    match manifest.get("deprecated"@) {
        Some(value) => Some(
            text::clipped(
                match value.text() {
                    Some(said) => if text::trimmed(said, Class::White).len() == 0 {
                        "deprecated by its publisher"@
                    } else {
                        text::trimmed(said, Class::White)
                    },
                    None => "deprecated by its publisher"@,
                },
                500,
            ),
        ),
        None => None,
    }
}

/// The profile patch a manifest declares.
pub open spec fn patch_of(manifest: Document) -> Option<Document> {
    match manifest.within("dsh"@, "bundle"@) {
        Some(bundle) => bundle.get("patch"@),
        None => None,
    }
}

/// The names of a manifest's dependencies, in order.
pub open spec fn dependency_names(manifest: Document) -> Seq<Seq<char>> {
    match manifest.get("dependencies"@) {
        Some(Document::Object(members)) => json::names(members),
        _ => Seq::empty(),
    }
}

/// The footprint a manifest declares.
pub open spec fn footprint(manifest: Document) -> ResourceFootprint {
    ResourceFootprint {
        direct_dependencies: dependency_names(manifest).len() as usize,
        unpacked_bytes: manifest.whole_within("dist"@, "unpackedSize"@),
        published_files: manifest.whole_within("dist"@, "fileCount"@),
        native_build_declared: manifest.get("gypfile"@) == Some(Document::Bool(true))
            || manifest.get("binary"@) is Some,
    }
}

/// A signal by what it says: its code, its state and its detail.
pub open spec fn signalled(list: Seq<TrustSignal>) -> Seq<(Seq<char>, Seq<char>, Seq<char>)> {
    Seq::new(list.len(), |i: int| (list[i].code@, list[i].state@, list[i].detail@))
}

/// The state of a piece of evidence that either holds or blocks.
pub open spec fn held_or_blocked(holds: bool) -> Seq<char> {
    if holds {
        "verified"@
    } else {
        "blocked"@
    }
}

/// The evidence for or against installing a package.
pub open spec fn evidence(detail: Detail) -> Seq<(Seq<char>, Seq<char>, Seq<char>)> {
    seq![
        (
            "harness-compatibility"@,
            match detail.compatibility {
                Compatibility::Compatible { requirement: _ } => "verified"@,
                Compatibility::Unknown => "review"@,
                Compatibility::Incompatible { requirement: _, reason: _ } => "blocked"@,
            },
            match detail.compatibility@ {
                Fit::Compatible(requirement) => "declares "@ + requirement,
                Fit::Unknown => "no Harness version range declared"@,
                Fit::Incompatible(_, reason) => reason,
            },
        ),
        (
            "registry-integrity"@,
            held_or_blocked(detail.integrity_verified),
            if detail.integrity_verified {
                "complete SHA-512 package integrity"@
            } else {
                "missing or weak registry integrity"@
            },
        ),
        (
            "source-identity"@,
            held_or_blocked(detail.repository_verified),
            if detail.repository_verified {
                "catalog and registry identity agree"@
            } else {
                "catalog and registry identity were not matched"@
            },
        ),
        (
            "lifecycle-scripts"@,
            held_or_blocked(detail.lifecycle_scripts@.len() == 0),
            if detail.lifecycle_scripts@.len() == 0 {
                "no install lifecycle scripts declared"@
            } else {
                "declares "@ + text::joined(text::texts(detail.lifecycle_scripts@), ", "@)
            },
        ),
        (
            "publisher-status"@,
            held_or_blocked(detail.deprecated is None),
            match detail.deprecated {
                Some(said) => said@,
                None => "not deprecated by the publisher"@,
            },
        ),
    ] + (if detail.bundle {
        Seq::empty()
    } else {
        seq![("profile-patch"@, "review"@, "package declares no DSH profile patch"@)]
    })
}

/// Whether some piece of evidence is in a state.
pub open spec fn some_state(
    list: Seq<(Seq<char>, Seq<char>, Seq<char>)>,
    state: Seq<char>,
) -> bool {
    exists|i: int| 0 <= i < list.len() && (#[trigger] list[i]).1 == state
}

/// The verdict that evidence comes to: blocked by any piece of it, to be reviewed
/// for any, verified otherwise.
pub open spec fn level_of(list: Seq<(Seq<char>, Seq<char>, Seq<char>)>) -> TrustLevel {
    if some_state(list, "blocked"@) {
        TrustLevel::Blocked
    } else if some_state(list, "review"@) {
        TrustLevel::Review
    } else {
        TrustLevel::Verified
    }
}

/// Adds a piece of evidence.
fn signal(list: &mut Vec<TrustSignal>, code: &str, state: &str, detail: String)
    ensures
        signalled(final(list)@) == signalled(old(list)@).push((code@, state@, detail@)),
{
    let ghost before = signalled(list@);
    list.push(TrustSignal { code: code.to_owned(), state: state.to_owned(), detail });
    assert(signalled(list@) =~= before.push((code@, state@, detail@)));
}

/// Whether some piece of evidence is in a state.
fn any_state(list: &Vec<TrustSignal>, state: &str) -> (answer: bool)
    ensures
        answer == some_state(signalled(list@), state@),
{
    let mut index: usize = 0;
    while index < list.len()
        invariant
            index <= list@.len(),
            forall|i: int| 0 <= i < index ==> (#[trigger] signalled(list@)[i]).1 != state@,
        decreases list.len() - index,
    {
        if text::same(&list[index].state, state) {
            assert(signalled(list@)[index as int].1 == state@);
            return true;
        }
        index += 1;
    }
    false
}

/// The state of a piece of evidence that either holds or blocks.
fn state_of(holds: bool) -> (state: &'static str)
    ensures
        state@ == held_or_blocked(holds),
{
    if holds {
        "verified"
    } else {
        "blocked"
    }
}

/// Whether a report is what the evidence about a package comes to.
pub open spec fn reported(report: TrustReport, detail: Detail) -> bool {
    signalled(report.signals@) == evidence(detail) && report.level == level_of(evidence(detail))
}

/// The verdict on a package and the evidence for it.
fn trust_in(detail: &Detail) -> (report: TrustReport)
    ensures
        reported(report, *detail),
{
    let mut signals: Vec<TrustSignal> = Vec::new();
    match &detail.compatibility {
        Compatibility::Compatible { requirement } => signal(
            &mut signals,
            "harness-compatibility",
            "verified",
            text::join2("declares ", requirement),
        ),
        Compatibility::Unknown => signal(
            &mut signals,
            "harness-compatibility",
            "review",
            "no Harness version range declared".to_owned(),
        ),
        Compatibility::Incompatible { requirement: _, reason } => signal(
            &mut signals,
            "harness-compatibility",
            "blocked",
            reason.clone(),
        ),
    }
    signal(
        &mut signals,
        "registry-integrity",
        state_of(detail.integrity_verified),
        if detail.integrity_verified {
            "complete SHA-512 package integrity".to_owned()
        } else {
            "missing or weak registry integrity".to_owned()
        },
    );
    signal(
        &mut signals,
        "source-identity",
        state_of(detail.repository_verified),
        if detail.repository_verified {
            "catalog and registry identity agree".to_owned()
        } else {
            "catalog and registry identity were not matched".to_owned()
        },
    );
    signal(
        &mut signals,
        "lifecycle-scripts",
        state_of(detail.lifecycle_scripts.len() == 0),
        if detail.lifecycle_scripts.len() == 0 {
            "no install lifecycle scripts declared".to_owned()
        } else {
            text::join2("declares ", &text::join(&detail.lifecycle_scripts, ", "))
        },
    );
    signal(
        &mut signals,
        "publisher-status",
        state_of(detail.deprecated.is_none()),
        match &detail.deprecated {
            Some(said) => said.clone(),
            None => "not deprecated by the publisher".to_owned(),
        },
    );
    if !detail.bundle {
        signal(
            &mut signals,
            "profile-patch",
            "review",
            "package declares no DSH profile patch".to_owned(),
        );
    }
    assert(signalled(signals@) =~= evidence(*detail));
    let level = if any_state(&signals, "blocked") {
        TrustLevel::Blocked
    } else if any_state(&signals, "review") {
        TrustLevel::Review
    } else {
        TrustLevel::Verified
    };
    TrustReport { level, signals }
}

/// Recompute after the catalog command has verified repository provenance.
pub fn refresh_trust(detail: &mut Detail)
    ensures
        *final(detail) == (Detail { trust: final(detail).trust, ..*old(detail) }),
        reported(final(detail).trust, *old(detail)),
{
    let report = trust_in(detail);
    detail.trust = report;
}

/// A package is blocked exactly where some hard evidence is against it, and
/// verified exactly where all of it is in place.
pub proof fn the_verdict_follows_the_evidence(detail: Detail)
    ensures
        level_of(evidence(detail)) is Blocked <==> (detail.compatibility is Incompatible
            || !detail.integrity_verified || !detail.repository_verified
            || detail.lifecycle_scripts@.len() > 0 || detail.deprecated is Some),
        level_of(evidence(detail)) is Verified <==> (detail.compatibility is Compatible
            && detail.integrity_verified && detail.repository_verified
            && detail.lifecycle_scripts@.len() == 0 && detail.deprecated is None && detail.bundle),
{
    reveal_strlit("verified");
    reveal_strlit("review");
    reveal_strlit("blocked");
    assert("verified"@.len() == 8 && "review"@.len() == 6 && "blocked"@.len() == 7);
    let list = evidence(detail);
    assert(list[0].1 == "blocked"@ <==> detail.compatibility is Incompatible);
    assert(list[0].1 == "review"@ <==> detail.compatibility is Unknown);
    assert(list[1].1 == held_or_blocked(detail.integrity_verified));
    assert(list[2].1 == held_or_blocked(detail.repository_verified));
    assert(list[3].1 == held_or_blocked(detail.lifecycle_scripts@.len() == 0));
    assert(list[4].1 == held_or_blocked(detail.deprecated is None));
    if !detail.bundle {
        assert(list[5].1 == "review"@);
    }
}

/// Whether a detail is what a published manifest says about a package.
pub open spec fn described(
    detail: Detail,
    name: Seq<char>,
    source: Seq<char>,
    manifest: Document,
    current: Seq<char>,
) -> bool {
    let version = or_empty(manifest.text_at("version"@));
    &&& detail.name@ == (match manifest.text_at("name"@) {
        Some(own) => own,
        None => name,
    })
    &&& detail.version@ == version
    &&& detail.install_spec@ == name + "@"@ + version
    &&& detail.description@ == or_empty(manifest.text_at("description"@))
    &&& detail.license@ == or_empty(manifest.text_at("license"@))
    &&& text::seen(detail.homepage) == manifest.text_at("homepage"@)
    &&& text::seen(detail.repository) == manifest.text_within("repository"@, "url"@)
    &&& detail.bundle == (patch_of(manifest) is Some)
    &&& text::texts(detail.dependencies@) == dependency_names(manifest)
    &&& detail.source@ == source
    &&& detail.compatibility@ == fit(manifest, current)
    &&& text::seen(detail.integrity) == integrity_of(manifest)
    &&& (match detail.bundle_patch {
        Some(patch) => Some(patch@),
        None => None,
    }) == patch_of(manifest)
    &&& text::texts(detail.lifecycle_scripts@) == hooks(manifest)
    &&& text::seen(detail.deprecated) == deprecation(manifest)
    &&& !detail.repository_verified
    &&& detail.integrity_verified == (integrity_of(manifest) matches Some(value) && sha512(value))
    &&& detail.resources == footprint(manifest)
    &&& reported(detail.trust, detail)
}

/// The registry integrity a manifest records.
fn integrity_in(manifest: &Json) -> (integrity: Option<String>)
    ensures
        text::seen(integrity) == integrity_of(manifest@),
{
    match manifest.text_within("dist", "integrity") {
        Some(value) => Some(value),
        None => match manifest.text_within("dist", "shasum") {
            Some(value) => Some(text::join2("sha1hex-", &value)),
            None => None,
        },
    }
}

/// Adds a hook where a manifest declares it.
fn add_hook(list: &mut Vec<String>, manifest: &Json, name: &str)
    ensures
        text::texts(final(list)@) == text::texts(old(list)@) + hook(manifest@, name@),
{
    let ghost before = text::texts(list@);
    if manifest.within("scripts", name).is_some() {
        list.push(name.to_owned());
        assert(text::texts(list@) =~= before.push(name@));
    }
    assert(text::texts(list@) =~= before + hook(manifest@, name@));
}

/// The hooks of a manifest that would run local code during install.
fn hooks_in(manifest: &Json) -> (list: Vec<String>)
    ensures
        text::texts(list@) == hooks(manifest@),
{
    let mut list: Vec<String> = Vec::new();
    add_hook(&mut list, manifest, "preinstall");
    add_hook(&mut list, manifest, "install");
    add_hook(&mut list, manifest, "postinstall");
    add_hook(&mut list, manifest, "prepare");
    assert(text::texts(list@) =~= hooks(manifest@));
    list
}

/// What a publisher says of a deprecated package.
fn deprecation_in(manifest: &Json) -> (said: Option<String>)
    ensures
        text::seen(said) == deprecation(manifest@),
{
    match manifest.get("deprecated") {
        Some(value) => {
            let trimmed = match value.text() {
                Some(said) => text::trim(&said, Class::White),
                None => String::new(),
            };
            let said = if text::characters(&trimmed).len() == 0 {
                "deprecated by its publisher".to_owned()
            } else {
                trimmed
            };
            Some(text::clip(&said, 500))
        },
        None => None,
    }
}

/// The names of a manifest's dependencies, in order.
fn dependencies_in(manifest: &Json) -> (list: Vec<String>)
    ensures
        text::texts(list@) == dependency_names(manifest@),
{
    let list = match manifest.get("dependencies") {
        Some(found) => match found.names() {
            Some(list) => list,
            None => Vec::new(),
        },
        None => Vec::new(),
    };
    proof {
        match manifest@.get("dependencies"@) {
            Some(Document::Object(members)) => {},
            _ => {
                assert(text::texts(list@) =~= Seq::empty());
            },
        }
    }
    list
}

/// What the published manifest says about one package, under the Harness
/// release that is selected.
pub fn detail_from_manifest(name: &str, source: &str, manifest: &Json, current: &str) -> (detail:
    Detail)
    requires
        version::release(current@) is Some,
    ensures
        described(detail, name@, source@, manifest@, current@),
{
    let version = or_default(manifest.text_at("version"));
    let integrity = integrity_in(manifest);
    let integrity_verified = match &integrity {
        Some(value) => valid_sha512_integrity(value),
        None => false,
    };
    let dependencies = dependencies_in(manifest);
    assert(text::texts(dependencies@).len() == dependencies@.len());
    let resources = ResourceFootprint {
        direct_dependencies: dependencies.len(),
        unpacked_bytes: manifest.whole_within("dist", "unpackedSize"),
        published_files: manifest.whole_within("dist", "fileCount"),
        native_build_declared: match manifest.get("gypfile") {
            Some(Json::Bool(truth)) => *truth,
            _ => false,
        } || manifest.get("binary").is_some(),
    };
    let patch = match manifest.within("dsh", "bundle") {
        Some(bundle) => match bundle.get("patch") {
            Some(patch) => Some(patch.duplicate()),
            None => None,
        },
        None => None,
    };
    let mut detail = Detail {
        name: match manifest.text_at("name") {
            Some(own) => own,
            None => name.to_owned(),
        },
        install_spec: text::join3(name, "@", &version),
        version,
        description: or_default(manifest.text_at("description")),
        license: or_default(manifest.text_at("license")),
        homepage: manifest.text_at("homepage"),
        repository: manifest.text_within("repository", "url"),
        bundle: patch.is_some(),
        dependencies,
        source: source.to_owned(),
        compatibility: compatibility(manifest, current),
        integrity,
        bundle_patch: patch,
        lifecycle_scripts: hooks_in(manifest),
        deprecated: deprecation_in(manifest),
        repository_verified: false,
        integrity_verified,
        trust: TrustReport { level: TrustLevel::Blocked, signals: Vec::new() },
        resources,
    };
    let ghost before = detail;
    refresh_trust(&mut detail);
    assert(evidence(detail) == evidence(before));
    detail
}

/// What the published manifest says about one package; nothing where the
/// selected Harness release cannot be read.
pub fn describe(name: &str, source: &str, manifest: &Json, current: &str) -> (detail: Option<
    Detail,
>)
    ensures
        detail is Some <==> version::release(current@) is Some,
        detail matches Some(found) ==> described(found, name@, source@, manifest@, current@),
{
    match Release::parse(current) {
        Some(_) => Some(detail_from_manifest(name, source, manifest, current)),
        None => None,
    }
}

/// What hinders installing a package, if anything does.
pub open spec fn obstacle(detail: Detail, number: Option<version::Number>, selected: Seq<char>) -> Option<
    Seq<char>,
> {
    match number {
        None => Some("the registry did not return an exact semantic version"@),
        Some(found) => if found.build.len() > 0 {
            Some("market installs require an exact package version without build metadata"@)
        } else if let Fit::Incompatible(_, reason) = detail.compatibility@ {
            Some(
                detail.name@ + " is not compatible with Harness "@ + selected + ": "@ + reason,
            )
        } else if detail.deprecated is Some {
            Some("deprecated packages cannot be installed from the market"@)
        } else if detail.lifecycle_scripts@.len() > 0 {
            Some(
                "plugin packages with install lifecycle scripts are blocked: "@ + text::joined(
                    text::texts(detail.lifecycle_scripts@),
                    ", "@,
                ),
            )
        } else if !detail.integrity_verified {
            Some("the exact package has no verifiable SHA-512 registry integrity"@)
        } else {
            None
        },
    }
}

/// What hinders installing a package whose version was read as `number`.
pub fn find_obstacle(detail: &Detail, number: &Option<Release>, selected: &str) -> (reason: Option<
    String,
>)
    ensures
        text::seen(reason) == obstacle(
            *detail,
            match *number {
                Some(found) => Some(found@),
                None => None,
            },
            selected@,
        ),
{
    match number {
        None => {
            return Some("the registry did not return an exact semantic version".to_owned());
        },
        Some(found) => {
            if found.built() {
                return Some(
                    "market installs require an exact package version without build metadata".to_owned(),
                );
            }
        },
    }
    if let Compatibility::Incompatible { requirement: _, reason } = &detail.compatibility {
        return Some(
            text::join5(
                &detail.name,
                " is not compatible with Harness ",
                selected,
                ": ",
                reason,
            ),
        );
    }
    if detail.deprecated.is_some() {
        return Some("deprecated packages cannot be installed from the market".to_owned());
    }
    if detail.lifecycle_scripts.len() > 0 {
        return Some(
            text::join2(
                "plugin packages with install lifecycle scripts are blocked: ",
                &text::join(&detail.lifecycle_scripts, ", "),
            ),
        );
    }
    if !detail.integrity_verified {
        return Some("the exact package has no verifiable SHA-512 registry integrity".to_owned());
    }
    None
}

/// Applies every hard block to a package that is about to be installed.
pub fn validate_preflight(detail: &Detail, selected: &str) -> (checked: Result<(), Error>)
    ensures
        match checked {
            Ok(_) => obstacle(*detail, version::release(detail.version@), selected@) is None,
            Err(error) => obstacle(*detail, version::release(detail.version@), selected@)
                matches Some(reason) && error@ == Fault::Plugin(reason),
        },
{
    match find_obstacle(detail, &Release::parse(&detail.version), selected) {
        Some(reason) => Err(Error::Plugin(reason)),
        None => Ok(()),
    }
}

/// A package that passes every hard block, and whose source was matched, is
/// never shown as blocked.
pub proof fn an_installable_package_is_not_blocked(
    detail: Detail,
    number: Option<version::Number>,
    selected: Seq<char>,
)
    requires
        obstacle(detail, number, selected) is None,
        detail.repository_verified,
    ensures
        level_of(evidence(detail)) !is Blocked,
{
    the_verdict_follows_the_evidence(detail);
}

/// The exact version that a market install asks for.
pub open spec fn exact_request(requested: Option<Seq<char>>) -> bool {
    requested matches Some(wanted) && version::release(wanted) matches Some(number)
        && number.build.len() == 0
}

/// The exact version that a market install asks for.
pub fn exact_requested_version(spec: &str) -> (requested: Result<String, Error>)
    ensures
        match requested {
            Ok(found) => package::split(spec@).1 == Some(found@) && exact_request(
                package::split(spec@).1,
            ),
            Err(error) => !exact_request(package::split(spec@).1) && error@ == Fault::Plugin(
                "market installs require an exact package version"@,
            ),
        },
{
    let (_, requested) = package::split_spec(spec);
    if let Some(wanted) = requested {
        if let Some(number) = Release::parse(&wanted) {
            if !number.built() {
                return Ok(wanted);
            }
        }
    }
    Err(Error::Plugin("market installs require an exact package version".to_owned()))
}

/// Where the registry answers for a specifier, and the package it names.
pub open spec fn resolved_at(base: Seq<char>, spec: Seq<char>) -> Seq<char> {
    base + "/"@ + package::split(spec).0 + "/"@ + (match package::split(spec).1 {
        Some(requested) => requested,
        None => "latest"@,
    })
}

/// Where the registry answers for a specifier.
pub fn resolve_endpoint(base: &str, spec: &str) -> (endpoint: Result<String, Error>)
    ensures
        match endpoint {
            Ok(found) => package::package_spec(spec@) && found@ == resolved_at(base@, spec@),
            Err(error) => !package::package_spec(spec@) && error@ == Fault::Plugin(
                spec@ + " is not a package specifier"@,
            ),
        },
{
    if !package::is_package_spec(spec) {
        return Err(Error::Plugin(text::join2(spec, " is not a package specifier")));
    }
    let (name, requested) = package::split_spec(spec);
    Ok(
        match requested {
            Some(wanted) => text::join5(base, "/", &name, "/", &wanted),
            None => text::join5(base, "/", &name, "/", "latest"),
        },
    )
}

/// What is said where the registry could not be asked.
pub fn resolve_failure(spec: &str, base: &str, failure: &Error) -> (error: Error)
    ensures
        error@ == Fault::Plugin(
            "preflight could not resolve "@ + spec@ + " from "@ + base@ + ": "@
                + failure@.message(),
        ),
{
    Error::Plugin(
        text::join2(
            &text::join5("preflight could not resolve ", spec, " from ", base, ": "),
            &failure.message(),
        ),
    )
}

/// Resolve an exact candidate for a review from what the registry answered.
/// [`preflight`] applies every hard block on top.
pub fn resolve(spec: &str, base: &str, manifest: &Json, current: &str) -> (resolved: Result<
    Detail,
    Error,
>)
    requires
        version::release(current@) is Some,
    ensures
        match resolved {
            Ok(detail) => detail.version@.len() > 0 && described(
                detail,
                package::split(spec@).0,
                base@,
                manifest@,
                current@,
            ),
            Err(error) => or_empty(manifest@.text_at("version"@)).len() == 0 && error@
                == Fault::Plugin(
                "preflight resolved "@ + spec@ + " but the registry returned no version"@,
            ),
        },
{
    let (name, _) = package::split_spec(spec);
    let detail = detail_from_manifest(&name, base, manifest, current);
    if text::characters(&detail.version).len() == 0 {
        return Err(
            Error::Plugin(
                text::join3(
                    "preflight resolved ",
                    spec,
                    " but the registry returned no version",
                ),
            ),
        );
    }
    Ok(detail)
}

/// Resolve and validate the exact package spec immediately before mutation, from
/// what the registry answered. Nothing where the selected Harness release cannot
/// be read.
pub fn preflight(spec: &str, base: &str, manifest: &Json, current: &str) -> (checked: Option<
    Result<Detail, Error>,
>)
    ensures
        checked is Some <==> version::release(current@) is Some,
        checked matches Some(Ok(detail)) ==> {
            &&& exact_request(package::split(spec@).1)
            &&& package::split(spec@).1 == Some(detail.version@)
            &&& described(detail, package::split(spec@).0, base@, manifest@, current@)
            &&& obstacle(detail, version::release(detail.version@), current@) is None
        },
        checked matches Some(Err(error)) ==> {
            ||| !exact_request(package::split(spec@).1) && error@ == Fault::Plugin(
                "market installs require an exact package version"@,
            )
            ||| exact_request(package::split(spec@).1) && or_empty(
                manifest@.text_at("version"@),
            ).len() == 0 && error@ == Fault::Plugin(
                "preflight resolved "@ + spec@ + " but the registry returned no version"@,
            )
            ||| exact_request(package::split(spec@).1) && or_empty(
                manifest@.text_at("version"@),
            ).len() > 0 && package::split(spec@).1 != Some(or_empty(manifest@.text_at("version"@)))
                && error@ == Fault::Plugin(
                "the registry did not resolve the requested exact package version"@,
            )
            ||| exact_request(package::split(spec@).1) && package::split(spec@).1 == Some(
                or_empty(manifest@.text_at("version"@)),
            ) && exists|detail: Detail|
                {
                    &&& #[trigger] described(
                        detail,
                        package::split(spec@).0,
                        base@,
                        manifest@,
                        current@,
                    )
                    &&& obstacle(detail, version::release(detail.version@), current@)
                        matches Some(reason)
                    &&& error@ == Fault::Plugin(reason)
                }
        },
{
    if Release::parse(current).is_none() {
        return None;
    }
    let requested = match exact_requested_version(spec) {
        Ok(requested) => requested,
        Err(error) => {
            return Some(Err(error));
        },
    };
    let detail = match resolve(spec, base, manifest, current) {
        Ok(detail) => detail,
        Err(error) => {
            return Some(Err(error));
        },
    };
    if !text::same(&detail.version, &requested) {
        return Some(
            Err(
                Error::Plugin(
                    "the registry did not resolve the requested exact package version".to_owned(),
                ),
            ),
        );
    }
    match validate_preflight(&detail, current) {
        Ok(_) => Some(Ok(detail)),
        Err(error) => Some(Err(error)),
    }
}

/// Where the registry describes the latest release of a package.
pub fn detail_endpoint(base: &str, name: &str) -> (endpoint: Result<String, Error>)
    ensures
        match endpoint {
            Ok(found) => package::package_name(name@) && found@ == base@ + "/"@ + name@
                + "/latest"@,
            Err(error) => !package::package_name(name@) && error@ == Fault::Plugin(
                name@ + " is not a package name"@,
            ),
        },
{
    if package::is_package_name(name) {
        Ok(text::join4(base, "/", name, "/latest"))
    } else {
        Err(Error::Plugin(text::join2(name, " is not a package name")))
    }
}

/// Whether a keyword is shown as a category.
pub open spec fn presentable(keyword: Seq<char>) -> bool {
    keyword.len() > 0 && encode_utf8(keyword).len() <= 48
}

/// The keywords of a package as it gives them: a list, of which only texts
/// count, or one text with commas in it.
pub open spec fn given_keywords(package: Document) -> Seq<Seq<char>> {
    match package.get("keywords"@) {
        Some(Document::List(entries)) => spoken(entries),
        Some(Document::Text(line)) => text::pieces(line, ','),
        _ => Seq::empty(),
    }
}

/// The texts among the entries of a list, in order.
pub open spec fn spoken(entries: Seq<Document>) -> Seq<Seq<char>>
    decreases entries.len(),
{
    if entries.len() == 0 {
        Seq::empty()
    } else {
        match entries.last().text() {
            Some(said) => spoken(entries.drop_last()).push(said),
            None => spoken(entries.drop_last()),
        }
    }
}

/// The first twenty presentable keywords among the first `count`, without
/// surrounding white space.
pub open spec fn chosen(keywords: Seq<Seq<char>>, count: nat) -> Seq<Seq<char>>
    decreases count,
{
    if count == 0 || count > keywords.len() {
        Seq::empty()
    } else {
        let before = chosen(keywords, (count - 1) as nat);
        let trimmed = text::trimmed(keywords[count - 1], Class::White);
        if presentable(trimmed) && before.len() < 20 {
            before.push(trimmed)
        } else {
            before
        }
    }
}

/// A sorted list with one more keyword in its place, unless one that differs
/// only in the size of its letters is there already.
pub open spec fn filed(list: Seq<Seq<char>>, keyword: Seq<char>) -> Seq<Seq<char>>
    decreases list.len(),
{
    if list.len() == 0 {
        seq![keyword]
    } else if text::lowered(list[0]) == text::lowered(keyword) {
        list
    } else if text::earlier(text::lowered(keyword), text::lowered(list[0])) {
        seq![keyword] + list
    } else {
        seq![list[0]] + filed(list.drop_first(), keyword)
    }
}

/// The first `count` keywords, sorted and each once.
pub open spec fn catalogued(keywords: Seq<Seq<char>>, count: nat) -> Seq<Seq<char>>
    decreases count,
{
    if count == 0 || count > keywords.len() {
        Seq::empty()
    } else {
        filed(catalogued(keywords, (count - 1) as nat), keywords[count - 1])
    }
}

/// The categories of a package: its first twenty presentable keywords, sorted
/// without regard to the size of letters, each once and as it was given first.
pub open spec fn categories(package: Document) -> Seq<Seq<char>> {
    let given = given_keywords(package);
    let picked = chosen(given, given.len());
    catalogued(picked, picked.len())
}

/// Whether a list ascends without regard to the size of letters.
pub open spec fn alphabetical(list: Seq<Seq<char>>) -> bool {
    forall|i: int, j: int|
        0 <= i < j < list.len() ==> text::earlier(text::lowered(list[i]), text::lowered(list[j]))
}

/// Filing a keyword keeps a list alphabetical and adds nothing but the keyword.
pub proof fn lemma_filed(list: Seq<Seq<char>>, keyword: Seq<char>)
    requires
        alphabetical(list),
    ensures
        alphabetical(filed(list, keyword)),
        filed(list, keyword).len() <= list.len() + 1,
        forall|i: int|
            0 <= i < filed(list, keyword).len() ==> #[trigger] filed(list, keyword)[i] == keyword
                || list.contains(filed(list, keyword)[i]),
    decreases list.len(),
{
    let after = filed(list, keyword);
    if list.len() == 0 {
    } else if text::lowered(list[0]) == text::lowered(keyword) {
        assert forall|i: int| 0 <= i < after.len() implies list.contains(#[trigger] after[i]) by {
            assert(after[i] == list[i]);
        }
    } else if text::earlier(text::lowered(keyword), text::lowered(list[0])) {
        assert forall|i: int, j: int| 0 <= i < j < after.len() implies text::earlier(
            text::lowered(after[i]),
            text::lowered(after[j]),
        ) by {
            assert(after[j] == list[j - 1]);
            if i > 0 {
                assert(after[i] == list[i - 1]);
                assert(text::earlier(text::lowered(list[i - 1]), text::lowered(list[j - 1])));
            } else if j > 1 {
                assert(text::earlier(text::lowered(list[0]), text::lowered(list[j - 1])));
                text::lemma_earlier_transitive(
                    text::lowered(keyword),
                    text::lowered(list[0]),
                    text::lowered(list[j - 1]),
                );
            }
        }
        assert forall|i: int| 0 <= i < after.len() implies #[trigger] after[i] == keyword
            || list.contains(after[i]) by {
            if i > 0 {
                assert(after[i] == list[i - 1]);
            }
        }
    } else {
        let rest = list.drop_first();
        assert forall|i: int, j: int| 0 <= i < j < rest.len() implies text::earlier(
            text::lowered(rest[i]),
            text::lowered(rest[j]),
        ) by {
            assert(text::earlier(text::lowered(list[i + 1]), text::lowered(list[j + 1])));
        }
        lemma_filed(rest, keyword);
        text::lemma_earlier_total(text::lowered(keyword), text::lowered(list[0]));
        let deeper = filed(rest, keyword);
        assert forall|i: int, j: int| 0 <= i < j < after.len() implies text::earlier(
            text::lowered(after[i]),
            text::lowered(after[j]),
        ) by {
            assert(after[j] == deeper[j - 1]);
            if i > 0 {
                assert(after[i] == deeper[i - 1]);
                assert(text::earlier(text::lowered(deeper[i - 1]), text::lowered(deeper[j - 1])));
            } else if deeper[j - 1] != keyword {
                let k = choose|k: int| 0 <= k < rest.len() && rest[k] == deeper[j - 1];
                assert(list[k + 1] == deeper[j - 1]);
                assert(text::earlier(text::lowered(list[0]), text::lowered(list[k + 1])));
            }
        }
        assert forall|i: int| 0 <= i < after.len() implies #[trigger] after[i] == keyword
            || list.contains(after[i]) by {
            if i == 0 {
                assert(after[0] == list[0]);
            } else {
                assert(after[i] == deeper[i - 1]);
                if deeper[i - 1] != keyword {
                    let k = choose|k: int| 0 <= k < rest.len() && rest[k] == deeper[i - 1];
                    assert(list[k + 1] == after[i]);
                }
            }
        }
    }
}

/// Catalogued keywords are alphabetical, no more than were given, and among them.
proof fn lemma_catalogued(keywords: Seq<Seq<char>>, count: nat)
    requires
        count <= keywords.len(),
    ensures
        alphabetical(catalogued(keywords, count)),
        catalogued(keywords, count).len() <= count,
        forall|i: int|
            0 <= i < catalogued(keywords, count).len() ==> keywords.contains(
                #[trigger] catalogued(keywords, count)[i],
            ),
    decreases count,
{
    if count > 0 {
        lemma_catalogued(keywords, (count - 1) as nat);
        let before = catalogued(keywords, (count - 1) as nat);
        lemma_filed(before, keywords[count - 1]);
        let after = catalogued(keywords, count);
        assert forall|i: int| 0 <= i < after.len() implies keywords.contains(#[trigger] after[i]) by {
            if after[i] == keywords[count - 1] {
            } else {
                let k = choose|k: int| 0 <= k < before.len() && before[k] == after[i];
                assert(keywords.contains(before[k]));
            }
        }
    }
}

/// No more than twenty keywords are chosen, and each is presentable.
proof fn lemma_chosen(keywords: Seq<Seq<char>>, count: nat)
    ensures
        chosen(keywords, count).len() <= 20,
        forall|i: int|
            0 <= i < chosen(keywords, count).len() ==> presentable(
                #[trigger] chosen(keywords, count)[i],
            ),
    decreases count,
{
    if count > 0 && count <= keywords.len() {
        lemma_chosen(keywords, (count - 1) as nat);
    }
}

/// The categories of a package are at most twenty, alphabetical, without two
/// that differ only in the size of their letters, and each fits its label.
pub proof fn categories_are_few_and_alphabetical(package: Document)
    ensures
        categories(package).len() <= 20,
        alphabetical(categories(package)),
        forall|i: int|
            0 <= i < categories(package).len() ==> presentable(#[trigger] categories(package)[i]),
        forall|i: int, j: int|
            0 <= i < j < categories(package).len() ==> text::lowered(categories(package)[i])
                != text::lowered(categories(package)[j]),
{
    let given = given_keywords(package);
    let picked = chosen(given, given.len());
    let list = categories(package);
    lemma_chosen(given, given.len());
    lemma_catalogued(picked, picked.len());
    assert forall|i: int| 0 <= i < list.len() implies presentable(#[trigger] list[i]) by {
        assert(picked.contains(list[i]));
    }
    assert forall|i: int, j: int| 0 <= i < j < list.len() implies text::lowered(list[i])
        != text::lowered(list[j]) by {
        assert(text::earlier(text::lowered(list[i]), text::lowered(list[j])));
        text::lemma_earlier_irreflexive(text::lowered(list[i]));
    }
}

/// The texts among the entries of a list.
pub(crate) fn spoken_in(entries: &Vec<Json>) -> (list: Vec<String>)
    ensures
        text::texts(list@) == spoken(json::document(Json::List(*entries))->List_0),
{
    let ghost all = json::document(Json::List(*entries))->List_0;
    let mut list: Vec<String> = Vec::new();
    let mut index: usize = 0;
    assert(all.take(0) =~= Seq::empty());
    assert(text::texts(list@) =~= Seq::empty());
    while index < entries.len()
        invariant
            index <= entries@.len(),
            all == json::document(Json::List(*entries))->List_0,
            all.len() == entries@.len(),
            text::texts(list@) == spoken(all.take(index as int)),
        decreases entries.len() - index,
    {
        let ghost done = text::texts(list@);
        assert(all.take(index + 1).drop_last() =~= all.take(index as int));
        assert(all.take(index + 1).last() == json::document(entries@[index as int]));
        if let Some(said) = entries[index].text() {
            list.push(said);
            assert(text::texts(list@) =~= done.push(said@));
        }
        index += 1;
    }
    assert(all.take(index as int) =~= all);
    list
}

/// The keywords of a package as it gives them.
fn keywords_in(package: &Json) -> (list: Vec<String>)
    ensures
        text::texts(list@) == given_keywords(package@),
{
    match package.get("keywords") {
        Some(Json::List(entries)) => spoken_in(entries),
        Some(Json::Text(line)) => text::split(line, ','),
        _ => {
            let list: Vec<String> = Vec::new();
            assert(text::texts(list@) =~= Seq::empty());
            list
        },
    }
}

/// The first twenty presentable keywords.
fn choose_keywords(given: &Vec<String>) -> (list: Vec<String>)
    ensures
        text::texts(list@) == chosen(text::texts(given@), given@.len()),
{
    let mut list: Vec<String> = Vec::new();
    let mut index: usize = 0;
    assert(text::texts(list@) =~= Seq::empty());
    while index < given.len()
        invariant
            index <= given@.len(),
            text::texts(list@) == chosen(text::texts(given@), index as nat),
        decreases given.len() - index,
    {
        let ghost done = text::texts(list@);
        assert(done.len() == list@.len());
        let trimmed = text::trim(&given[index], Class::White);
        if text::characters(&trimmed).len() > 0 && text::byte_length(&trimmed) <= 48 && list.len()
            < 20 {
            list.push(trimmed);
            assert(text::texts(list@) =~= done.push(trimmed@));
        }
        index += 1;
    }
    list
}

/// Puts a keyword in its place in a sorted list.
fn file_keyword(list: &mut Vec<String>, keyword: String)
    ensures
        text::texts(final(list)@) == filed(text::texts(old(list)@), keyword@),
{
    let ghost all = text::texts(list@);
    let lowered = text::lower(&keyword);
    let mut at: usize = 0;
    assert(all.skip(0) =~= all);
    assert(all.take(0) + filed(all, keyword@) =~= filed(all, keyword@));
    while at < list.len()
        invariant
            at <= list@.len(),
            all == text::texts(list@),
            all == text::texts(old(list)@),
            lowered@ == text::lowered(keyword@),
            filed(all, keyword@) == all.take(at as int) + filed(all.skip(at as int), keyword@),
        decreases list.len() - at,
    {
        let ghost rest = all.skip(at as int);
        let present = text::lower(&list[at]);
        assert(rest[0] == all[at as int]);
        if text::same(&present, &lowered) {
            assert(all.take(at as int) + rest =~= all);
            return;
        }
        if text::comes_before(&lowered, &present) {
            list.insert(at, keyword);
            assert(text::texts(list@) =~= all.take(at as int) + (seq![keyword@] + rest));
            return;
        }
        assert(rest.drop_first() =~= all.skip(at + 1));
        assert(all.take(at as int) + (seq![all[at as int]] + filed(all.skip(at + 1), keyword@))
            =~= all.take(at + 1) + filed(all.skip(at + 1), keyword@));
        at += 1;
    }
    assert(all.skip(at as int) =~= Seq::empty());
    assert(all.take(at as int) =~= all);
    list.push(keyword);
    assert(text::texts(list@) =~= all + seq![keyword@]);
}

/// The categories of a package.
pub fn keywords(package: &Json) -> (list: Vec<String>)
    ensures
        text::texts(list@) == categories(package@),
{
    let given = keywords_in(package);
    let picked = choose_keywords(&given);
    assert(text::texts(given@).len() == given@.len());
    let mut list: Vec<String> = Vec::new();
    let mut index: usize = 0;
    assert(text::texts(list@) =~= Seq::empty());
    while index < picked.len()
        invariant
            index <= picked@.len(),
            text::texts(list@) == catalogued(text::texts(picked@), index as nat),
        decreases picked.len() - index,
    {
        file_keyword(&mut list, picked[index].clone());
        index += 1;
    }
    assert(text::texts(picked@).len() == picked@.len());
    list
}

/// Somewhere to read more about a package, if it says where.
pub open spec fn link_of(links: Option<Document>) -> Option<Seq<char>> {
    match links {
        Some(found) => match found.text_at("homepage"@) {
            Some(link) => Some(link),
            None => match found.text_at("repository"@) {
                Some(link) => Some(link),
                None => found.text_at("npm"@),
            },
        },
        None => None,
    }
}

/// Whether a listing is what a search result says.
pub open spec fn listed(listing: Listing, entry: Document) -> bool {
    let package = entry.get("package"@)->0;
    let links = package.get("links"@);
    &&& entry.get("package"@) is Some
    &&& package.text_at("name"@) == Some(listing.name@)
    &&& listing.version@ == or_empty(package.text_at("version"@))
    &&& listing.description@ == or_empty(package.text_at("description"@))
    &&& listing.publisher@ == or_empty(package.text_within("publisher"@, "username"@))
    &&& listing.updated@ == or_empty(package.text_at("date"@))
    &&& listing.weekly_downloads == (match entry.whole_within("downloads"@, "weekly"@) {
        Some(number) => number,
        None => 0,
    })
    &&& text::seen(listing.link) == link_of(links)
    &&& text::seen(listing.repository) == (match links {
        Some(found) => found.text_at("repository"@),
        None => None,
    })
    &&& listing.source_id@ == "npm"@
    &&& listing.source_label@ == "npm registry"@
    &&& listing.installable
    &&& text::texts(listing.categories@) == categories(package)
    &&& !listing.has_icon
}

/// Whether a search result can be shown: it names a package.
pub open spec fn showable(entry: Document) -> bool {
    entry.get("package"@) matches Some(package) && package.text_at("name"@) is Some
}

/// Reads one search result; nothing where it names no package.
pub fn listing(entry: &Json) -> (found: Option<Listing>)
    ensures
        found is Some <==> showable(entry@),
        found matches Some(result) ==> listed(result, entry@),
{
    let package = entry.get("package")?;
    let links = package.get("links");
    let name = package.text_at("name")?;
    let link = match links {
        Some(found) => match found.text_at("homepage") {
            Some(link) => Some(link),
            None => match found.text_at("repository") {
                Some(link) => Some(link),
                None => found.text_at("npm"),
            },
        },
        None => None,
    };
    let repository = match links {
        Some(found) => found.text_at("repository"),
        None => None,
    };
    Some(
        Listing {
            name,
            version: or_default(package.text_at("version")),
            description: or_default(package.text_at("description")),
            publisher: or_default(package.text_within("publisher", "username")),
            updated: or_default(package.text_at("date")),
            weekly_downloads: match entry.whole_within("downloads", "weekly") {
                Some(number) => number,
                None => 0,
            },
            link,
            repository,
            source_id: "npm".to_owned(),
            source_label: "npm registry".to_owned(),
            installable: true,
            categories: keywords(package),
            has_icon: false,
        },
    )
}

/// The search results that can be shown, in order.
pub open spec fn results(body: Document) -> Seq<Document> {
    match body.get("objects"@) {
        Some(Document::List(entries)) => entries.filter(|entry: Document| showable(entry)),
        _ => Seq::empty(),
    }
}

/// Whether listings are what search results say, one for one.
pub open spec fn all_listed(list: Seq<Listing>, entries: Seq<Document>) -> bool {
    &&& list.len() == entries.len()
    &&& forall|i: int| 0 <= i < list.len() ==> listed(#[trigger] list[i], entries[i])
}

/// Reads what the registry answered to a search.
pub fn search_results(body: &Json) -> (list: Vec<Listing>)
    ensures
        all_listed(list@, results(body@)),
{
    let mut list: Vec<Listing> = Vec::new();
    match body.get("objects") {
        Some(Json::List(entries)) => {
            let ghost all = json::document(Json::List(*entries))->List_0;
            let ghost wanted = |entry: Document| showable(entry);
            let mut index: usize = 0;
            assert(all.take(0).filter(wanted) =~= Seq::empty()) by {
                reveal(Seq::filter);
            }
            while index < entries.len()
                invariant
                    index <= entries@.len(),
                    all == json::document(Json::List(*entries))->List_0,
                    all.len() == entries@.len(),
                    wanted == (|entry: Document| showable(entry)),
                    all_listed(list@, all.take(index as int).filter(wanted)),
                decreases entries.len() - index,
            {
                let ghost done = all.take(index as int).filter(wanted);
                assert(all.take(index + 1).drop_last() =~= all.take(index as int));
                assert(all.take(index + 1).last() == json::document(entries@[index as int]));
                proof {
                    reveal(Seq::filter);
                }
                if let Some(found) = listing(&entries[index]) {
                    list.push(found);
                    assert(all.take(index + 1).filter(wanted) == done.push(all[index as int]));
                }
                index += 1;
            }
            assert(all.take(index as int) =~= all);
        },
        _ => {},
    }
    list
}

/// What a search asks for.
pub open spec fn asked(query: Seq<char>) -> Seq<char> {
    if text::trimmed(query, Class::White).len() == 0 {
        DISCOVERY@
    } else {
        text::trimmed(query, Class::White)
    }
}

/// What a search asks for: what was typed, or what a plugin looks like when
/// asked nothing.
pub fn search_text(query: &str) -> (wanted: String)
    ensures
        wanted@ == asked(query@),
{
    let trimmed = text::trim(query, Class::White);
    if text::characters(&trimmed).len() == 0 {
        DISCOVERY.to_owned()
    } else {
        trimmed
    }
}

/// Where the registry answers a search.
pub fn search_endpoint(base: &str, wanted: &str) -> (endpoint: Result<String, Error>)
    requires
        address::short(base@ + "/-/v1/search"@),
        address::short(wanted@),
    ensures
        ({
            let place = base@ + "/-/v1/search"@;
            match endpoint {
                Ok(found) => address::queried(
                    place,
                    seq![("text"@, wanted@), ("size"@, INDEX_RESULTS@)],
                ) == Some(found@),
                Err(error) => address::address(place) is None && error@ == Fault::Network(
                    base@ + " is not a usable registry address"@,
                ),
            }
        }),
{
    let mut added: Vec<(String, String)> = Vec::new();
    added.push(("text".to_owned(), wanted.to_owned()));
    added.push(("size".to_owned(), INDEX_RESULTS.to_owned()));
    assert(address::paired(added@) =~= seq![("text"@, wanted@), ("size"@, INDEX_RESULTS@)]);
    proof {
        reveal_strlit("text");
        reveal_strlit("size");
        reveal_strlit("250");
        address::lemma_short("text"@);
        address::lemma_short("size"@);
        address::lemma_short(INDEX_RESULTS@);
    }
    match address::pairs_added(&text::join2(base, "/-/v1/search"), &added) {
        Some(found) => Ok(found),
        None => Err(Error::Network(text::join2(base, " is not a usable registry address"))),
    }
}

/// The registry that npm resolves to, from what it printed when asked, without a
/// trailing slash.
pub open spec fn resolved_base(answer: Option<Seq<char>>) -> Seq<char> {
    match answer {
        Some(printed) => if text::begins(text::trimmed(printed, Class::White), "http"@) {
            text::trimmed_end(text::trimmed(printed, Class::White), Class::Is('/'))
        } else {
            DEFAULT_REGISTRY@
        },
        None => DEFAULT_REGISTRY@,
    }
}

/// The registry that npm resolves to; `answer` is what it printed, where it ran
/// and exited well. npm prints `undefined` when a key is unset, and its usage
/// text when it dislikes the arguments. Either way, the public registry is the
/// right thing to fall back to.
pub fn configured_base(answer: &Option<String>) -> (base: String)
    ensures
        base@ == resolved_base(text::seen(*answer)),
{
    match answer {
        Some(printed) => {
            let trimmed = text::trim(printed, Class::White);
            if text::starts_with(&trimmed, "http") {
                text::trim_end(&trimmed, Class::Is('/'))
            } else {
                DEFAULT_REGISTRY.to_owned()
            }
        },
        None => DEFAULT_REGISTRY.to_owned(),
    }
}

/// The registry that npm resolves to, from the bytes it printed.
pub fn answered_base(answer: &Option<Vec<u8>>) -> (base: String)
    ensures
        base@ == resolved_base(
            match *answer {
                Some(bytes) => Some(text::lossy(bytes@)),
                None => None,
            },
        ),
{
    match answer {
        Some(bytes) => configured_base(&Some(text::decode_lossy(bytes))),
        None => configured_base(&None),
    }
}

/// The command that asks npm for its registry.
pub fn registry_question(node: &str, npm_cli: &str) -> (line: CommandLine)
    ensures
        line@ == (Invocation {
            program: node@,
            arguments: seq![npm_cli@, "config"@, "get"@, "registry"@],
            directory: None,
            environment: Seq::empty(),
        }),
{
    let mut arguments: Vec<String> = Vec::new();
    command::argue(&mut arguments, npm_cli);
    command::argue(&mut arguments, "config");
    command::argue(&mut arguments, "get");
    command::argue(&mut arguments, "registry");
    assert(text::texts(arguments@) =~= seq![npm_cli@, "config"@, "get"@, "registry"@]);
    let line = CommandLine {
        program: node.to_owned(),
        arguments,
        directory: None,
        environment: Vec::new(),
    };
    assert(line@.environment =~= Seq::empty());
    line
}

/// The address a repository is given by, without the marker of a git transport.
pub open spec fn plain_repository(value: Seq<char>) -> Seq<char> {
    match text::without_prefix(value, "git+"@) {
        Some(rest) => rest,
        None => value,
    }
}

/// Whether an address can identify a repository: HTTPS on its own port, naming
/// no user and no part of a page.
pub open spec fn identifying(parts: address::Parts) -> bool {
    &&& parts.scheme == "https"@
    &&& parts.username.len() == 0
    &&& parts.password is None
    &&& parts.fragment is None
    &&& parts.port matches Some(port) ==> port == 443
}

/// The path by which a repository is identified.
pub open spec fn repository_path(path: Seq<char>) -> Seq<char> {
    let trimmed = text::trimmed_end_text(text::trimmed_end(path, Class::Is('/')), ".git"@);
    if trimmed.len() == 0 {
        "/"@
    } else {
        trimmed
    }
}

/// The identity an address comes to once its path was settled and its query
/// taken away: without a slash at its end and in small letters.
pub open spec fn identity_text(settled: Seq<char>) -> Seq<char> {
    text::lowered(text::trimmed_end(settled, Class::Is('/')))
}

/// Canonical HTTPS repository identity used for catalog backlink checks.
pub open spec fn identity(value: Seq<char>) -> Option<Seq<char>> {
    let plain = plain_repository(value);
    match address::address(plain) {
        Some(parts) => if identifying(parts) {
            Some(
                identity_text(
                    address::unqueried(
                        address::repathed(plain, repository_path(parts.path))->0,
                    )->0,
                ),
            )
        } else {
            None
        },
        None => None,
    }
}

/// Whether an address can identify a repository.
pub fn is_identifying(parts: &address::Address) -> (answer: bool)
    ensures
        answer == identifying(parts@),
{
    text::same(&parts.scheme, "https") && text::characters(&parts.username).len() == 0
        && parts.password.is_none() && parts.fragment.is_none() && match parts.port {
        Some(port) => port == 443,
        None => true,
    }
}

/// The path by which a repository is identified.
pub fn settled_path(path: &str) -> (settled: String)
    ensures
        settled@ == repository_path(path@),
{
    let trimmed = text::trim_end_text(&text::trim_end(path, Class::Is('/')), ".git");
    if text::characters(&trimmed).len() == 0 {
        "/".to_owned()
    } else {
        trimmed
    }
}

/// The identity a settled address comes to.
pub fn settled_identity(settled: &str) -> (shown: String)
    ensures
        shown@ == identity_text(settled@),
{
    text::lower(&text::trim_end(settled, Class::Is('/')))
}

/// Canonical HTTPS repository identity used for catalog backlink checks.
pub fn repository_identity(value: &str) -> (found: Option<String>)
    requires
        address::short(value@),
    ensures
        text::seen(found) == identity(value@),
{
    let plain = match text::strip_prefix(value, "git+") {
        Some(rest) => rest,
        None => value.to_owned(),
    };
    proof {
        address::lemma_short_suffix(value@, "git+"@.len() as int);
    }
    let parts = address::taken_apart(&plain)?;
    if !is_identifying(&parts) {
        return None;
    }
    let path = settled_path(&parts.path);
    proof {
        let front = text::trimmed_end(parts.path@, Class::Is('/'));
        text::lemma_trimmed_end_begins(parts.path@, Class::Is('/'));
        text::lemma_trimmed_end_text_begins(front, ".git"@);
        text::lemma_begins_transitive(
            parts.path@,
            front,
            text::trimmed_end_text(front, ".git"@),
        );
    }
    let repathed = address::path_set(&plain, &path)?;
    let settled = address::query_cleared(&repathed)?;
    Some(settled_identity(&settled))
}

/// A detail carries a deprecation exactly where the manifest has the member for
/// one, whatever that holds: the first 500 characters of the text without white
/// space at its ends where it says anything, and something to read wherever it
/// does not.
pub proof fn a_deprecation_is_never_overlooked(manifest: Document)
    ensures
        deprecation(manifest) is Some <==> manifest.get("deprecated"@) is Some,
        manifest.get("deprecated"@) matches Some(Document::Text(said)) ==> (stated(Some(said))
            ==> deprecation(manifest) == Some(
            text::clipped(text::trimmed(said, Class::White), 500),
        )),
        deprecation(manifest) matches Some(shown) ==> 0 < shown.len() <= 500,
        deprecation(manifest) is Some && manifest.text_at("deprecated"@) is None ==> deprecation(
            manifest,
        ) == Some("deprecated by its publisher"@),
{
    reveal_strlit("deprecated by its publisher");
    if let Some(Document::Text(said)) = manifest.get("deprecated"@) {
        text::nothing_is_left_of_a_blank_text(said);
    }
}

/// A deprecated package never passes: whatever else its manifest says, and
/// whichever release is selected, something hinders its installation.
pub proof fn a_deprecated_package_is_never_installable(
    detail: Detail,
    name: Seq<char>,
    source: Seq<char>,
    manifest: Document,
    current: Seq<char>,
    number: Option<version::Number>,
    selected: Seq<char>,
)
    requires
        described(detail, name, source, manifest, current),
        manifest.get("deprecated"@) is Some,
    ensures
        obstacle(detail, number, selected) is Some,
        level_of(evidence(detail)) is Blocked,
{
    a_deprecation_is_never_overlooked(manifest);
    the_verdict_follows_the_evidence(detail);
}

/// A package whose manifest declares any hook that runs during an install never
/// passes, and one that declares none is never refused for it.
pub proof fn a_package_that_runs_code_is_never_installable(
    detail: Detail,
    name: Seq<char>,
    source: Seq<char>,
    manifest: Document,
    current: Seq<char>,
    number: Option<version::Number>,
    selected: Seq<char>,
)
    requires
        described(detail, name, source, manifest, current),
    ensures
        detail.lifecycle_scripts@.len() > 0 <==> manifest.within("scripts"@, "preinstall"@) is Some
            || manifest.within("scripts"@, "install"@) is Some || manifest.within(
            "scripts"@,
            "postinstall"@,
        ) is Some || manifest.within("scripts"@, "prepare"@) is Some,
        detail.lifecycle_scripts@.len() > 0 ==> obstacle(detail, number, selected) is Some,
{
    assert(text::texts(detail.lifecycle_scripts@).len() == detail.lifecycle_scripts@.len());
}

/// The hooks that are shown are those that are declared, under their own names.
pub proof fn declared_hooks_are_shown(manifest: Document, name: Seq<char>)
    ensures
        hooks(manifest).contains(name) <==> manifest.within("scripts"@, name) is Some && (name
            == "preinstall"@ || name == "install"@ || name == "postinstall"@ || name
            == "prepare"@),
{
    let first = hook(manifest, "preinstall"@);
    let second = hook(manifest, "install"@);
    let third = hook(manifest, "postinstall"@);
    let fourth = hook(manifest, "prepare"@);
    let all = hooks(manifest);
    if all.contains(name) {
        let k = choose|k: int| 0 <= k < all.len() && all[k] == name;
        assert(all[k] == name);
        if k < first.len() {
            assert(first[k] == name);
        } else if k < first.len() + second.len() {
            assert(second[k - first.len()] == name);
        } else if k < first.len() + second.len() + third.len() {
            assert(third[k - first.len() - second.len()] == name);
        } else {
            assert(fourth[k - first.len() - second.len() - third.len()] == name);
        }
    }
    if manifest.within("scripts"@, name) is Some {
        if name == "preinstall"@ {
            assert(all[0] == name);
        } else if name == "install"@ {
            assert(all[first.len() as int] == name);
        } else if name == "postinstall"@ {
            assert(all[(first.len() + second.len()) as int] == name);
        } else if name == "prepare"@ {
            assert(all[(first.len() + second.len() + third.len()) as int] == name);
        }
    }
}

/// The registry's own integrity is taken where the manifest has one as a text;
/// where it has a SHA-1 digest alone, that is marked as one and never passes for a
/// complete integrity.
pub proof fn a_weak_digest_never_passes(manifest: Document)
    ensures
        manifest.text_within("dist"@, "integrity"@) matches Some(value) ==> integrity_of(manifest)
            == Some(value),
        manifest.text_within("dist"@, "integrity"@) is None ==> match manifest.text_within(
            "dist"@,
            "shasum"@,
        ) {
            Some(digest) => integrity_of(manifest) == Some("sha1hex-"@ + digest) && !sha512(
                "sha1hex-"@ + digest,
            ),
            None => integrity_of(manifest) is None,
        },
{
    if let Some(digest) = manifest.text_within("dist"@, "shasum"@) {
        reveal_strlit("sha1hex-");
        reveal_strlit("sha512-");
        let marked = "sha1hex-"@ + digest;
        if text::begins(marked, "sha512-"@) {
            assert(marked.take(7)[3] == "sha512-"@[3]);
            assert(marked[3] == '1');
        }
    }
}

/// A complete SHA-512 integrity is its name, 86 base64 characters and two
/// characters of padding: no other length passes, no other algorithm, no padding
/// inside the digest, and no character outside the alphabet.
pub proof fn only_a_whole_sha512_passes(digest: Seq<char>, value: Seq<char>, at: int)
    ensures
        digest.len() == 86 && (forall|i: int|
            0 <= i < 86 ==> 'a' <= (#[trigger] digest[i]) <= 'z' || 'A' <= digest[i] <= 'Z' || '0'
                <= digest[i] <= '9' || digest[i] == '+' || digest[i] == '/') ==> sha512(
            "sha512-"@ + digest + "=="@,
        ),
        sha512(value) ==> value.len() == 95,
        sha512(value) ==> value.take(7) == "sha512-"@ && value.skip(93) == "=="@,
        sha512(value) && 7 <= at < 93 ==> value[at] != '=' && value[at] != '-' && value[at] != ' '
            && value[at] != '_',
{
    reveal_strlit("sha512-");
    reveal_strlit("==");
    let whole = "sha512-"@ + digest + "=="@;
    let encoded = digest + "=="@;
    assert(whole =~= "sha512-"@ + encoded);
    text::a_prefix_taken_away_can_be_put_back(whole, "sha512-"@, encoded);
    if digest.len() == 86 && (forall|i: int|
        0 <= i < 86 ==> 'a' <= (#[trigger] digest[i]) <= 'z' || 'A' <= digest[i] <= 'Z' || '0'
            <= digest[i] <= '9' || digest[i] == '+' || digest[i] == '/') {
        assert forall|i: int| 0 <= i < DIGEST_CHARACTERS implies base64_character(
            #[trigger] encoded[i],
        ) by {
            assert(encoded[i] == digest[i]);
        }
    }
    if sha512(value) {
        let rest = text::without_prefix(value, "sha512-"@)->0;
        assert(value.skip(93) =~= "=="@) by {
            assert(value[93] == rest[86] && value[94] == rest[87]);
        }
        if 7 <= at < 93 {
            assert(value[at] == rest[at - 7]);
            assert(base64_character(rest[at - 7]));
        }
    }
}

/// The Harness range of a package is what it declares as a peer; only where it
/// declares none there, what it depends on; only then what it depends on
/// optionally; and what stands there counts without white space at its ends, a
/// blank range not at all.
pub proof fn a_declared_range_is_found(manifest: Document)
    ensures
        ({
            let name = "@deepseek-ai/dsh"@;
            let peer = manifest.text_within("peerDependencies"@, name);
            let direct = manifest.text_within("dependencies"@, name);
            let optional = manifest.text_within("optionalDependencies"@, name);
            &&& stated(peer) ==> required(manifest) == Some(text::trimmed(peer->0, Class::White))
            &&& !stated(peer) && stated(direct) ==> required(manifest) == Some(
                text::trimmed(direct->0, Class::White),
            )
            &&& !stated(peer) && !stated(direct) && stated(optional) ==> required(manifest)
                == Some(text::trimmed(optional->0, Class::White))
            &&& !stated(peer) && !stated(direct) && !stated(optional) ==> required(manifest) is None
        }),
{
    let name = "@deepseek-ai/dsh"@;
    if let Some(range) = manifest.text_within("peerDependencies"@, name) {
        text::nothing_is_left_of_a_blank_text(range);
    }
    if let Some(range) = manifest.text_within("dependencies"@, name) {
        text::nothing_is_left_of_a_blank_text(range);
    }
    if let Some(range) = manifest.text_within("optionalDependencies"@, name) {
        text::nothing_is_left_of_a_blank_text(range);
    }
}

/// Whether there is a text with more than white space in it.
pub open spec fn stated(text: Option<Seq<char>>) -> bool {
    text matches Some(said) && exists|i: int|
        0 <= i < said.len() && !text::is_white(#[trigger] said[i])
}

/// A package is compatible exactly where it declares a range that can be read and
/// that admits the release, and depends on nothing of the legacy runtime; it is
/// incompatible where it does, or where its range cannot be read or does not admit
/// the release; and nothing is known of it where it declares no range.
pub proof fn compatibility_follows_the_declared_range(manifest: Document, current: Seq<char>)
    ensures
        ({
            let legacy = manifest.within("dependencies"@, "cordis"@) is Some || manifest.within(
                "peerDependencies"@,
                "cordis"@,
            ) is Some || manifest.within("optionalDependencies"@, "cordis"@) is Some;
            let found = fit(manifest, current);
            &&& legacy ==> found is Incompatible
            &&& !legacy && required(manifest) is None ==> found is Unknown
            &&& !legacy ==> (required(manifest) matches Some(range) ==> {
                &&& version::range(range) && version::admitted(range, current) ==> found
                    == Fit::Compatible(range)
                &&& !(version::range(range) && version::admitted(range, current)) ==> found
                    is Incompatible && found->Incompatible_0 == range
                &&& version::range(range) && !version::admitted(range, current) ==> found
                    == Fit::Incompatible(range, "it requires "@ + range)
            })
        }),
{
}

/// A package is a plugin exactly where its manifest declares a profile patch, which
/// is then kept as it is.
pub proof fn a_plugin_declares_a_profile_patch(
    detail: Detail,
    name: Seq<char>,
    source: Seq<char>,
    manifest: Document,
    current: Seq<char>,
)
    requires
        described(detail, name, source, manifest, current),
    ensures
        detail.bundle <==> manifest.within("dsh"@, "bundle"@) is Some && manifest.within(
            "dsh"@,
            "bundle"@,
        )->0.get("patch"@) is Some,
        detail.bundle_patch matches Some(patch) ==> manifest.within("dsh"@, "bundle"@)->0.get(
            "patch"@,
        ) == Some(patch@),
        detail.bundle_patch is Some <==> detail.bundle,
{
}

/// A detail shows the published version under the name that was asked for, so that
/// what is confirmed is what is installed; texts that are missing are empty, and
/// nothing vouches for the source until it is compared.
pub proof fn a_detail_is_about_what_was_asked_for(
    detail: Detail,
    name: Seq<char>,
    source: Seq<char>,
    manifest: Document,
    current: Seq<char>,
    version: Seq<char>,
)
    requires
        described(detail, name, source, manifest, current),
        manifest.text_at("version"@) == Some(version),
    ensures
        detail.version@ == version,
        detail.install_spec@ == name + "@"@ + version,
        detail.source@ == source,
        manifest.text_at("name"@) is None ==> detail.name@ == name,
        manifest.text_at("name"@) matches Some(own) ==> detail.name@ == own,
        manifest.text_at("description"@) matches Some(said) ==> detail.description@ == said,
        manifest.text_at("license"@) matches Some(said) ==> detail.license@ == said,
        manifest.text_at("homepage"@) == text::seen(detail.homepage),
        manifest.text_within("repository"@, "url"@) == text::seen(detail.repository),
        !detail.repository_verified,
        detail.integrity_verified ==> (detail.integrity matches Some(value) && sha512(value@)),
{
}

/// The dependencies of a package are shown by name, each of them, and counted.
pub proof fn dependencies_are_shown_by_name(
    detail: Detail,
    name: Seq<char>,
    source: Seq<char>,
    manifest: Document,
    current: Seq<char>,
)
    requires
        described(detail, name, source, manifest, current),
    ensures
        manifest.get("dependencies"@) matches Some(Document::Object(members)) ==> {
            &&& detail.dependencies@.len() == members.len()
            &&& forall|i: int|
                0 <= i < members.len() ==> detail.dependencies@[i]@ == (#[trigger] members[i]).0
            &&& detail.resources.direct_dependencies == members.len()
        },
        !(manifest.get("dependencies"@) matches Some(Document::Object(_)))
            ==> detail.dependencies@.len() == 0 && detail.resources.direct_dependencies == 0,
        manifest.within("dist"@, "unpackedSize"@) matches Some(Document::Whole(size))
            ==> detail.resources.unpacked_bytes == Some(size),
        manifest.within("dist"@, "fileCount"@) matches Some(Document::Whole(count))
            ==> detail.resources.published_files == Some(count),
        detail.resources.native_build_declared <==> manifest.get("gypfile"@) == Some(
            Document::Bool(true),
        ) || manifest.get("binary"@) is Some,
{
    let shown = text::texts(detail.dependencies@);
    assert(shown.len() == detail.dependencies@.len());
    assert(detail.dependencies.len() == shown.len());
    if let Some(Document::Object(members)) = manifest.get("dependencies"@) {
        assert forall|i: int| 0 <= i < members.len() implies detail.dependencies@[i]@ == (
        #[trigger] members[i]).0 by {
            assert(shown[i] == members[i].0);
        }
    }
}

/// A package may be installed exactly where its version is exact and without build
/// metadata, it is not known to be incompatible, not deprecated, runs no code and
/// its integrity is complete.
pub proof fn every_hard_block_is_applied(
    detail: Detail,
    number: Option<version::Number>,
    selected: Seq<char>,
)
    ensures
        obstacle(detail, number, selected) is None <==> {
            &&& number matches Some(found) && found.build.len() == 0
            &&& detail.compatibility !is Incompatible
            &&& detail.deprecated is None
            &&& detail.lifecycle_scripts@.len() == 0
            &&& detail.integrity_verified
        },
{
}

/// What a search asks for is what was typed without white space at its ends,
/// wherever anything was typed: one stretch of the query, which holds every
/// character of it that is not white space; and the discovery query only where
/// nothing was.
pub proof fn a_search_asks_for_what_was_typed(query: Seq<char>) -> (ends: (int, int))
    ensures
        0 <= ends.0 <= ends.1 <= query.len(),
        forall|i: int|
            0 <= i < ends.0 || ends.1 <= i < query.len() ==> text::is_white(#[trigger] query[i]),
        (exists|i: int| 0 <= i < query.len() && !text::is_white(#[trigger] query[i])) ==> {
            &&& ends.0 < ends.1
            &&& asked(query) == query.subrange(ends.0, ends.1)
            &&& !text::is_white(query[ends.0])
            &&& !text::is_white(query[ends.1 - 1])
        },
        !(exists|i: int| 0 <= i < query.len() && !text::is_white(#[trigger] query[i]))
            ==> asked(query) == "dsh bundle"@,
{
    let ends = text::trimming_takes_the_ends_alone(query, Class::White);
    text::nothing_is_left_of_a_blank_text(query);
    assert forall|i: int| 0 <= i < ends.0 || ends.1 <= i < query.len() implies text::is_white(
        #[trigger] query[i],
    ) by {
        assert(Class::White.covers(query[i]));
    }
    ends
}

/// The registry is where npm points, without slashes at its end, wherever npm
/// printed an address; whatever else it printed, and where it printed nothing, the
/// public one.
pub proof fn the_users_own_registry_is_asked(printed: Seq<char>) -> (ends: (int, int, int))
    ensures
        0 <= ends.0 <= ends.1 <= ends.2 <= printed.len(),
        text::trimmed(printed, Class::White) == printed.subrange(ends.0, ends.2),
        text::begins(printed.subrange(ends.0, ends.2), "http"@) ==> {
            &&& resolved_base(Some(printed)) == printed.subrange(ends.0, ends.1)
            &&& ends.0 < ends.1 ==> printed[ends.1 - 1] != '/'
            &&& forall|i: int| ends.1 <= i < ends.2 ==> #[trigger] printed[i] == '/'
        },
        !text::begins(printed.subrange(ends.0, ends.2), "http"@) ==> resolved_base(Some(printed))
            == "https://registry.npmjs.org"@,
        resolved_base(None) == "https://registry.npmjs.org"@,
{
    let outer = text::trimming_takes_the_ends_alone(printed, Class::White);
    let inner = printed.subrange(outer.0, outer.1);
    let to = text::trimming_the_end_takes_a_run_of_the_class(inner, Class::Is('/'));
    assert(inner.take(to) =~= printed.subrange(outer.0, outer.0 + to));
    assert forall|i: int| outer.0 + to <= i < outer.1 implies #[trigger] printed[i] == '/' by {
        assert(inner[i - outer.0] == printed[i]);
        assert(Class::Is('/').covers(inner[i - outer.0]));
    }
    if to > 0 {
        assert(inner[to - 1] == printed[outer.0 + to - 1]);
    }
    (outer.0, outer.0 + to, outer.1)
}

/// A search result is shown under the name, version and texts it gives, with what
/// it gives for a link: its homepage, else its repository, else its page at npm.
pub proof fn a_result_is_shown_as_it_is(listing: Listing, entry: Document, package: Document)
    requires
        listed(listing, entry),
        entry.get("package"@) == Some(package),
    ensures
        package.text_at("name"@) == Some(listing.name@),
        package.text_at("version"@) matches Some(found) ==> listing.version@ == found,
        package.text_at("description"@) matches Some(found) ==> listing.description@ == found,
        package.text_within("publisher"@, "username"@) matches Some(found) ==> listing.publisher@
            == found,
        package.text_at("date"@) matches Some(found) ==> listing.updated@ == found,
        entry.within("downloads"@, "weekly"@) matches Some(Document::Whole(count))
            ==> listing.weekly_downloads == count,
        package.text_within("links"@, "homepage"@) matches Some(link) ==> text::seen(listing.link)
            == Some(link),
        package.text_within("links"@, "homepage"@) is None ==> match package.text_within(
            "links"@,
            "repository"@,
        ) {
            Some(link) => text::seen(listing.link) == Some(link),
            None => text::seen(listing.link) == package.text_within("links"@, "npm"@),
        },
        text::seen(listing.repository) == package.text_within("links"@, "repository"@),
        listing.installable && !listing.has_icon,
        listing.source_id@ == "npm"@,
{
}

/// Every result that names a package is shown, and no other.
pub proof fn every_named_result_is_shown(body: Document, entry: Document)
    ensures
        results(body).contains(entry) <==> (body.get("objects"@) matches Some(
            Document::List(entries),
        ) && entries.contains(entry)) && (entry.get("package"@) matches Some(package)
            && package.text_at("name"@) is Some),
{
    if let Some(Document::List(entries)) = body.get("objects"@) {
        text::lemma_picked(entries, |entry: Document| showable(entry), entry);
    }
}

/// A keyword that fits its label is among the categories, in its own spelling or in
/// one that differs only in the size of its letters, wherever no more than twenty
/// were given; and every category is a keyword that was given.
pub proof fn categories_are_the_given_keywords(package: Document, at: int)
    ensures
        0 <= at < given_keywords(package).len() && given_keywords(package).len() <= 20
            && presentable(text::trimmed(given_keywords(package)[at], Class::White)) ==> exists|
            i: int,
        |
            0 <= i < categories(package).len() && text::lowered(#[trigger] categories(package)[i])
                == text::lowered(text::trimmed(given_keywords(package)[at], Class::White)),
        0 <= at < categories(package).len() ==> exists|i: int|
            0 <= i < given_keywords(package).len() && categories(package)[at] == text::trimmed(
                #[trigger] given_keywords(package)[i],
                Class::White,
            ),
{
    let given = given_keywords(package);
    let picked = chosen(given, given.len());
    let list = categories(package);
    lemma_chosen_given(given, given.len());
    lemma_catalogued(picked, picked.len());
    if 0 <= at < list.len() {
        assert(picked.contains(list[at]));
        let k = choose|k: int| 0 <= k < picked.len() && picked[k] == list[at];
        assert(picked[k] == list[at]);
    }
    if 0 <= at < given.len() && given.len() <= 20 && presentable(
        text::trimmed(given[at], Class::White),
    ) {
        let shown = text::trimmed(given[at], Class::White);
        assert(picked.contains(shown));
        let k = choose|k: int| 0 <= k < picked.len() && picked[k] == shown;
        lemma_catalogued_all(picked, picked.len(), k);
    }
}

/// Chosen keywords were given, and every presentable one is chosen while there is
/// room.
proof fn lemma_chosen_given(keywords: Seq<Seq<char>>, count: nat)
    requires
        count <= keywords.len(),
    ensures
        chosen(keywords, count).len() <= count,
        forall|k: int|
            0 <= k < chosen(keywords, count).len() ==> exists|i: int|
                0 <= i < count && (#[trigger] chosen(keywords, count)[k]) == text::trimmed(
                    #[trigger] keywords[i],
                    Class::White,
                ),
        count <= 20 ==> forall|i: int|
            0 <= i < count && presentable(text::trimmed(#[trigger] keywords[i], Class::White))
                ==> chosen(keywords, count).contains(text::trimmed(keywords[i], Class::White)),
    decreases count,
{
    if count > 0 {
        lemma_chosen_given(keywords, (count - 1) as nat);
        let before = chosen(keywords, (count - 1) as nat);
        let after = chosen(keywords, count);
        let last = text::trimmed(keywords[count - 1], Class::White);
        assert forall|k: int| 0 <= k < after.len() implies exists|i: int|
            0 <= i < count && (#[trigger] after[k]) == text::trimmed(
                #[trigger] keywords[i],
                Class::White,
            ) by {
            if k < before.len() {
                assert(after[k] == before[k]);
                let i = choose|i: int|
                    0 <= i < count - 1 && before[k] == text::trimmed(
                        #[trigger] keywords[i],
                        Class::White,
                    );
                assert(after[k] == text::trimmed(keywords[i], Class::White));
            } else {
                assert(after[k] == text::trimmed(keywords[count - 1], Class::White));
            }
        }
        if count <= 20 {
            assert forall|i: int|
                0 <= i < count && presentable(
                    text::trimmed(#[trigger] keywords[i], Class::White),
                ) implies after.contains(text::trimmed(keywords[i], Class::White)) by {
                if i < count - 1 {
                    let shown = text::trimmed(keywords[i], Class::White);
                    assert(before.contains(shown));
                    let k = choose|k: int| 0 <= k < before.len() && before[k] == shown;
                    assert(after[k] == shown);
                } else {
                    assert(after[before.len() as int] == last);
                }
            }
        }
    }
}

/// Filing a keyword leaves it, or one that differs only in the size of its letters,
/// and everything that was there, in the list.
proof fn lemma_filed_there(list: Seq<Seq<char>>, keyword: Seq<char>, other: Seq<char>)
    ensures
        exists|i: int|
            0 <= i < filed(list, keyword).len() && text::lowered(
                #[trigger] filed(list, keyword)[i],
            ) == text::lowered(keyword),
        list.contains(other) ==> filed(list, keyword).contains(other),
    decreases list.len(),
{
    let after = filed(list, keyword);
    if list.len() == 0 {
        assert(after[0] == keyword);
    } else if text::lowered(list[0]) == text::lowered(keyword) {
        assert(after[0] == list[0]);
    } else if text::earlier(text::lowered(keyword), text::lowered(list[0])) {
        assert(after[0] == keyword);
        if list.contains(other) {
            let k = choose|k: int| 0 <= k < list.len() && list[k] == other;
            assert(after[k + 1] == other);
        }
    } else {
        let rest = list.drop_first();
        let deeper = filed(rest, keyword);
        lemma_filed_there(rest, keyword, other);
        let i = choose|i: int|
            0 <= i < deeper.len() && text::lowered(#[trigger] deeper[i]) == text::lowered(keyword);
        assert(after[i + 1] == deeper[i]);
        if list.contains(other) {
            let k = choose|k: int| 0 <= k < list.len() && list[k] == other;
            if k == 0 {
                assert(after[0] == other);
            } else {
                assert(rest[k - 1] == other);
                let m = choose|m: int| 0 <= m < deeper.len() && deeper[m] == other;
                assert(after[m + 1] == other);
            }
        }
    }
}

/// Every keyword is catalogued, as it is or in a spelling that differs only in the
/// size of its letters.
proof fn lemma_catalogued_all(keywords: Seq<Seq<char>>, count: nat, at: int)
    requires
        0 <= at < count <= keywords.len(),
    ensures
        exists|i: int|
            0 <= i < catalogued(keywords, count).len() && text::lowered(
                #[trigger] catalogued(keywords, count)[i],
            ) == text::lowered(keywords[at]),
    decreases count,
{
    let before = catalogued(keywords, (count - 1) as nat);
    let after = catalogued(keywords, count);
    if at == count - 1 {
        lemma_filed_there(before, keywords[at], keywords[at]);
    } else {
        lemma_catalogued_all(keywords, (count - 1) as nat, at);
        let i = choose|i: int|
            0 <= i < before.len() && text::lowered(#[trigger] before[i]) == text::lowered(
                keywords[at],
            );
        lemma_filed_there(before, keywords[count - 1], before[i]);
        assert(before.contains(before[i]));
        let k = choose|k: int| 0 <= k < after.len() && after[k] == before[i];
        assert(text::lowered(after[k]) == text::lowered(keywords[at]));
    }
}

/// Keywords are the texts of a list, each of them and nothing else, or what stands
/// between the commas of one text.
pub proof fn keywords_are_taken_as_given(package: Document, said: Seq<char>)
    ensures
        package.get("keywords"@) matches Some(Document::List(entries)) ==> (given_keywords(
            package,
        ).contains(said) <==> entries.contains(Document::Text(said))),
        package.get("keywords"@) matches Some(Document::Text(line)) ==> text::joined(
            given_keywords(package),
            seq![','],
        ) == line,
        presentable(said) <==> 0 < said.len() && encode_utf8(said).len() <= 48,
{
    if let Some(Document::List(entries)) = package.get("keywords"@) {
        lemma_spoken(entries, said);
    }
    if let Some(Document::Text(line)) = package.get("keywords"@) {
        text::splitting_loses_nothing(line, ',');
    }
}

/// The texts of a list are those that stand in it.
pub proof fn lemma_spoken(entries: Seq<Document>, said: Seq<char>)
    ensures
        spoken(entries).contains(said) <==> entries.contains(Document::Text(said)),
    decreases entries.len(),
{
    if entries.len() > 0 {
        let rest = entries.drop_last();
        lemma_spoken(rest, said);
        let before = spoken(rest);
        let after = spoken(entries);
        assert(entries[entries.len() - 1] == entries.last());
        if entries.contains(Document::Text(said)) {
            let k = choose|k: int| 0 <= k < entries.len() && entries[k] == Document::Text(said);
            if k < rest.len() {
                assert(rest[k] == Document::Text(said));
                let m = choose|m: int| 0 <= m < before.len() && before[m] == said;
                assert(after[m] == said);
            } else {
                assert(after[before.len() as int] == said);
            }
        }
        if after.contains(said) {
            let k = choose|k: int| 0 <= k < after.len() && after[k] == said;
            if k < before.len() {
                assert(before[k] == said);
                let m = choose|m: int| 0 <= m < rest.len() && rest[m] == Document::Text(said);
                assert(entries[m] == Document::Text(said));
            }
        }
    }
}

/// A package is asked for below the registry under its name and the version that
/// was asked for, and the latest one where none was.
pub proof fn a_package_is_asked_for_by_name_and_version(
    base: Seq<char>,
    name: Seq<char>,
    wanted: Seq<char>,
)
    requires
        !name.contains('@') || name.len() > 0 && name[0] == '@' && !name.skip(1).contains('@'),
    ensures
        resolved_at(base, name + "@"@ + wanted) == base + "/"@ + name + "/"@ + wanted || name.len()
            == 0,
        resolved_at(base, name) == base + "/"@ + name + "/latest"@,
{
    reveal_strlit("/");
    reveal_strlit("latest");
    reveal_strlit("/latest");
    package::a_specifier_is_split_behind_its_name(name, wanted);
    assert(base + "/"@ + name + "/"@ + "latest"@ =~= base + "/"@ + name + "/latest"@);
}

/// A repository is identified by an HTTPS address on the usual port that names no
/// user, no password and no part of a page, and by no other.
pub proof fn only_a_plain_https_address_identifies(parts: address::Parts)
    ensures
        identifying(parts) <==> {
            &&& parts.scheme == "https"@
            &&& parts.username.len() == 0
            &&& parts.password is None
            &&& parts.fragment is None
            &&& parts.port is None || parts.port == Some(443u16)
        },
{
}

/// The marker of a git transport makes no difference to what a repository is
/// identified by.
pub proof fn a_git_transport_makes_no_difference(value: Seq<char>)
    requires
        !text::begins(value, "git+"@),
    ensures
        plain_repository("git+"@ + value) == value,
        plain_repository(value) == value,
        identity("git+"@ + value) == identity(value),
{
    text::a_prefix_taken_away_can_be_put_back(value, "git+"@, value);
}

/// Slashes and the usual suffix at the end of a path, and the size of letters, make
/// no difference to what a repository is identified by.
pub proof fn an_ending_makes_no_difference(path: Seq<char>, settled: Seq<char>)
    ensures
        repository_path(path + "/"@) == repository_path(path),
        path.len() > 0 && path.last() != '/' && !text::finishes(path, ".git"@) ==> repository_path(
            path + ".git"@,
        ) == path && repository_path(path) == path,
        identity_text(settled + "/"@) == identity_text(settled),
        settled.len() > 0 && settled.last() != '/' ==> identity_text(settled) == text::lowered(
            settled,
        ),
{
    reveal_strlit("/");
    reveal_strlit(".git");
    assert((path + "/"@).drop_last() =~= path);
    assert((settled + "/"@).drop_last() =~= settled);
    text::copies_of_a_suffix_are_all_taken_away(path, ".git"@);
    if path.len() > 0 {
        assert((path + ".git"@).last() == 't');
    }
}

/// Every piece of evidence is named, and explains itself by what was found: the
/// declared range or why it does not fit, the scripts by name, and the publisher's
/// own words. A package without a profile patch has one piece more.
pub proof fn evidence_is_named_and_explained(detail: Detail)
    ensures
        ({
            let list = evidence(detail);
            &&& list.len() == (if detail.bundle {
                5int
            } else {
                6int
            })
            &&& list[0].0 == "harness-compatibility"@ && list[1].0 == "registry-integrity"@
                && list[2].0 == "source-identity"@ && list[3].0 == "lifecycle-scripts"@
                && list[4].0 == "publisher-status"@
            &&& !detail.bundle ==> list[5].0 == "profile-patch"@ && list[5].1 == "review"@
            &&& detail.compatibility matches Compatibility::Compatible { requirement } ==> list[0].2
                == "declares "@ + requirement@
            &&& detail.compatibility matches Compatibility::Incompatible { requirement: _, reason }
                ==> list[0].2 == reason@
            &&& detail.lifecycle_scripts@.len() > 0 ==> list[3].2 == "declares "@ + text::joined(
                text::texts(detail.lifecycle_scripts@),
                ", "@,
            )
            &&& detail.deprecated matches Some(said) ==> list[4].2 == said@
            &&& detail.integrity_verified <==> list[1].1 == "verified"@
            &&& detail.repository_verified <==> list[2].1 == "verified"@
            &&& detail.deprecated is None <==> list[4].1 == "verified"@
            &&& detail.compatibility is Compatible <==> list[0].1 == "verified"@
        }),
{
    reveal_strlit("verified");
    reveal_strlit("review");
    reveal_strlit("blocked");
    assert("verified"@.len() == 8 && "review"@.len() == 6 && "blocked"@.len() == 7);
}

/// A request is exact exactly where it names a version that reads as a release
/// number without build metadata.
pub proof fn only_an_exact_version_is_an_exact_request(wanted: Seq<char>)
    ensures
        exact_request(Some(wanted)) <==> version::release(wanted) is Some && version::release(
            wanted,
        )->0.build == Seq::<char>::empty(),
        !exact_request(None),
{
    if version::release(wanted) is Some && version::release(wanted)->0.build.len() == 0 {
        assert(version::release(wanted)->0.build =~= Seq::<char>::empty());
    }
}

/// Search results are shown one for one and in order.
pub proof fn results_are_shown_one_for_one(list: Seq<Listing>, entries: Seq<Document>, at: int)
    requires
        all_listed(list, entries),
    ensures
        list.len() == entries.len(),
        0 <= at < entries.len() ==> listed(list[at], entries[at]),
{
}

/// An address without a path identifies a repository by a slash.
pub proof fn an_empty_path_is_a_slash(path: Seq<char>)
    requires
        forall|i: int| 0 <= i < path.len() ==> #[trigger] path[i] == '/',
    ensures
        repository_path(path) == "/"@,
{
    let to = text::trimming_the_end_takes_a_run_of_the_class(path, Class::Is('/'));
    let left = text::trimmed_end(path, Class::Is('/'));
    if left.len() > 0 {
        assert(path[left.len() - 1] == '/');
    }
    assert(left.len() == 0);
    reveal_strlit(".git");
    assert(text::trimmed_end_text(left, ".git"@) == left);
}

/// A report shows all the evidence and the level that the evidence comes to.
pub proof fn a_report_shows_all_the_evidence(report: TrustReport, detail: Detail)
    requires
        reported(report, detail),
    ensures
        signalled(report.signals@) == evidence(detail),
        report.level == level_of(evidence(detail)),
{
}

/// A repository is identified exactly where its address can be read and identifies
/// one, and then by its address without what makes no difference.
pub proof fn only_an_identifying_address_has_an_identity(value: Seq<char>, parts: address::Parts)
    ensures
        address::address(plain_repository(value)) is None ==> identity(value) is None,
        address::address(plain_repository(value)) == Some(parts) ==> (identity(value) is Some
            <==> identifying(parts)),
        address::address(plain_repository(value)) == Some(parts) && identifying(parts) ==> identity(
            value,
        ) == Some(
            identity_text(
                address::unqueried(
                    address::repathed(plain_repository(value), repository_path(parts.path))->0,
                )->0,
            ),
        ),
{
}

/// A result that lacks a description, a publisher, a date or a count is shown
/// without, and every result is shown as one of the registry's.
pub proof fn what_a_result_lacks_is_left_empty(listing: Listing, entry: Document, package: Document)
    requires
        listed(listing, entry),
        entry.get("package"@) == Some(package),
    ensures
        package.text_at("version"@) is None ==> listing.version@.len() == 0,
        package.text_at("description"@) is None ==> listing.description@.len() == 0,
        package.text_within("publisher"@, "username"@) is None ==> listing.publisher@.len() == 0,
        package.text_at("date"@) is None ==> listing.updated@.len() == 0,
        entry.whole_within("downloads"@, "weekly"@) is None ==> listing.weekly_downloads == 0,
        listing.source_label@ == "npm registry"@,
        text::texts(listing.categories@) == categories(package),
{
}

/// A package of the legacy runtime is refused as one, and a range that cannot be read
/// or that leaves this Harness out is refused with what it says.
pub proof fn a_misfit_is_told_by_its_reason(
    manifest: Document,
    requirement: Seq<char>,
    current: Seq<char>,
)
    ensures
        legacy(manifest) ==> fit(manifest, current) == Fit::Incompatible(
            "legacy cordis"@,
            "it depends on the legacy Cordis runtime"@,
        ),
        judged(requirement, None) == Fit::Incompatible(
            requirement,
            "the package declares an unreadable peer dependency range"@,
        ),
        judged(requirement, Some(false)) == Fit::Incompatible(
            requirement,
            "it requires "@ + requirement,
        ),
        judged(requirement, Some(true)) == Fit::Compatible(requirement),
{
}

/// What blocks a package is said, the first of the blocks where there are several:
/// no exact version, build metadata, incompatibility, deprecation, scripts that run on
/// install, and a digest that verifies nothing.
pub proof fn the_first_block_is_said(
    detail: Detail,
    number: version::Number,
    selected: Seq<char>,
    reason: Seq<char>,
    requirement: Seq<char>,
)
    ensures
        obstacle(detail, None, selected) == Some(
            "the registry did not return an exact semantic version"@,
        ),
        number.build.len() > 0 ==> obstacle(detail, Some(number), selected) == Some(
            "market installs require an exact package version without build metadata"@,
        ),
        number.build.len() == 0 ==> ({
            let said = obstacle(detail, Some(number), selected);
            let fits = detail.compatibility !is Incompatible;
            &&& detail.compatibility@ == Fit::Incompatible(requirement, reason) ==> said == Some(
                detail.name@ + " is not compatible with Harness "@ + selected + ": "@ + reason,
            )
            &&& fits && detail.deprecated is Some ==> said == Some(
                "deprecated packages cannot be installed from the market"@,
            )
            &&& fits && detail.deprecated is None && detail.lifecycle_scripts@.len() > 0 ==> said
                == Some(
                "plugin packages with install lifecycle scripts are blocked: "@ + text::joined(
                    text::texts(detail.lifecycle_scripts@),
                    ", "@,
                ),
            )
            &&& fits && detail.deprecated is None && detail.lifecycle_scripts@.len() == 0
                && !detail.integrity_verified ==> said == Some(
                "the exact package has no verifiable SHA-512 registry integrity"@,
            )
        }),
{
}

/// Evidence that speaks against a package is blocked and evidence for it verified, and
/// either is explained; a package that nothing speaks against and nothing is left to
/// review of is verified as a whole.
pub proof fn evidence_comes_to_a_level(detail: Detail)
    ensures
        ({
            let list = evidence(detail);
            let sound = detail.compatibility !is Incompatible && detail.integrity_verified
                && detail.repository_verified && detail.lifecycle_scripts@.len() == 0
                && detail.deprecated is None;
            &&& list[0].1 == (match detail.compatibility {
                Compatibility::Compatible { .. } => "verified"@,
                Compatibility::Unknown => "review"@,
                Compatibility::Incompatible { .. } => "blocked"@,
            })
            &&& detail.compatibility is Unknown ==> list[0].2
                == "no Harness version range declared"@
            &&& (list[1].1, list[1].2) == (if detail.integrity_verified {
                ("verified"@, "complete SHA-512 package integrity"@)
            } else {
                ("blocked"@, "missing or weak registry integrity"@)
            })
            &&& (list[2].1, list[2].2) == (if detail.repository_verified {
                ("verified"@, "catalog and registry identity agree"@)
            } else {
                ("blocked"@, "catalog and registry identity were not matched"@)
            })
            &&& detail.lifecycle_scripts@.len() == 0 ==> list[3].1 == "verified"@ && list[3].2
                == "no install lifecycle scripts declared"@
            &&& detail.lifecycle_scripts@.len() > 0 ==> list[3].1 == "blocked"@
            &&& detail.deprecated is None ==> list[4].1 == "verified"@ && list[4].2
                == "not deprecated by the publisher"@
            &&& detail.deprecated is Some ==> list[4].1 == "blocked"@
            &&& !detail.bundle ==> list[5].2 == "package declares no DSH profile patch"@
            &&& level_of(list) == TrustLevel::Blocked <==> !sound
            &&& level_of(list) == TrustLevel::Verified <==> sound && detail.compatibility is Compatible
                && detail.bundle
        }),
{
    reveal_strlit("verified");
    reveal_strlit("review");
    reveal_strlit("blocked");
    assert("verified"@.len() == 8 && "review"@.len() == 6 && "blocked"@.len() == 7);
    let list = evidence(detail);
    if detail.compatibility is Incompatible {
        assert(list[0].1 == "blocked"@);
    }
    if !detail.integrity_verified {
        assert(list[1].1 == "blocked"@);
    }
    if !detail.repository_verified {
        assert(list[2].1 == "blocked"@);
    }
    if detail.lifecycle_scripts@.len() > 0 {
        assert(list[3].1 == "blocked"@);
    }
    if detail.deprecated is Some {
        assert(list[4].1 == "blocked"@);
    }
    if detail.compatibility is Unknown {
        assert(list[0].1 == "review"@);
    }
    if !detail.bundle {
        assert(list[5].1 == "review"@);
    }
}

/// A package without a version is asked for at its latest one.
pub proof fn the_latest_version_is_asked_for(base: Seq<char>, spec: Seq<char>)
    requires
        package::split(spec).1 is None,
    ensures
        resolved_at(base, spec) == base + "/"@ + package::split(spec).0 + "/"@ + "latest"@,
{
}

/// A search asks for a page of two hundred and fifty results.
pub proof fn a_search_asks_for_a_full_page()
    ensures
        INDEX_RESULTS@ == text::decimal(250),
{
    reveal_strlit("250");
    reveal_with_fuel(text::decimal, 4);
    assert(INDEX_RESULTS@ =~= text::decimal(250));
}

/// A package that fits is seen as one, with its range, and one that does not with its
/// range and the reason.
pub proof fn compatibility_is_seen_as_what_it_is(found: Compatibility)
    ensures
        found is Compatible <==> found@ is Compatible,
        found is Unknown <==> found@ is Unknown,
        found is Incompatible <==> found@ is Incompatible,
        found matches Compatibility::Compatible { requirement } ==> found@ == Fit::Compatible(
            requirement@,
        ),
        found matches Compatibility::Incompatible { requirement, reason } ==> found@
            == Fit::Incompatible(requirement@, reason@),
{
}

} // verus!
