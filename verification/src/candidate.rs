//! Assembling a release in the staging directory, up to the point where it may
//! be promoted.
//!
//! The built-in release is restored from its lock. Any other is installed with
//! the whole official Harness family pinned to the selected exact version, and
//! the services that official packages declare as peers are added until no new
//! one appears.
use vstd::prelude::*;

use crate::error::{Error, Fault};
use crate::install;
use crate::json;
use crate::json::{Document, Json};
use crate::text;

verus! {

/// What the names of the official Harness family begin with.
pub const FAMILY: &'static str = "@deepseek-ai/dsh-";

/// How often newly found peers are installed before the graph is given up.
pub const PEER_ROUNDS: u8 = 4;

/// The file a candidate is launched through. Newer releases use a property that
/// some supported Nodes lack; importing their entry works on all of them.
pub const LAUNCHER: &'static str =
    "const cli = await import('./node_modules/@deepseek-ai/dsh/lib/bin.js');\nif (typeof cli.runCli === 'function') await cli.runCli();\n";

/// The script that boots a candidate in a disposable profile.
pub const BOOT_CHECK: &'static str =
    "import { verifyProfileBoot } from './studio-runtime-probe.mjs';\nimport { join } from 'node:path';\nimport { writeFileSync } from 'node:fs';\nconst [root, version, studioVersion] = process.argv.slice(2);\ntry {\nawait verifyProfileBoot({runtimeRoot: root, entry: join(root, 'studio-cli.mjs'), dshHome: join(root, 'studio-probe-home'), harnessVersion: version, studioVersion});\nconsole.log('Studio runtime startup verified');\n} catch (error) {\nwriteFileSync(join(root, 'studio-runtime-error.txt'), String(error.message).slice(0, 8192));\nconsole.error(error);\nprocess.exitCode = 1;\n}\n";

/// How long a startup check may be silent, in milliseconds.
pub const BOOT_IDLE_TIMEOUT: u64 = 180_000;

/// How long a startup check may run, in milliseconds.
pub const BOOT_TOTAL_TIMEOUT: u64 = 240_000;

/// How much of what a failed startup check reports is read, in bytes.
pub const BOOT_REPORT_BYTES: usize = 8192;

/// Whether a package belongs to the official Harness family.
pub open spec fn in_family(name: Seq<char>) -> bool {
    name == install::PACKAGE@ || text::begins(name, FAMILY@)
}

/// Whether a package belongs to the official Harness family.
pub fn is_family(name: &str) -> (answer: bool)
    ensures
        answer == in_family(name@),
{
    text::same(name, install::PACKAGE) || text::starts_with(name, FAMILY)
}

/// Dependencies with the whole family pinned to one version.
pub open spec fn pinned(
    members: Seq<(Seq<char>, Document)>,
    version: Seq<char>,
) -> Seq<(Seq<char>, Document)> {
    Seq::new(
        members.len(),
        |i: int|
            if in_family(members[i].0) {
                (members[i].0, Document::Text(version))
            } else {
                members[i]
            },
    )
}

/// The bundled manifest with the whole family pinned to one version.
pub open spec fn aligned(manifest: Document, version: Seq<char>) -> Option<Document> {
    match manifest {
        Document::Object(members) => match json::member(members, "dependencies"@) {
            Some(Document::Object(dependencies)) => Some(
                Document::Object(
                    json::inserted(
                        members,
                        "dependencies"@,
                        Document::Object(pinned(dependencies, version)),
                    ),
                ),
            ),
            _ => None,
        },
        _ => None,
    }
}

/// Pins the family among dependencies.
fn pin(dependencies: &Json, version: &str) -> (changed: Option<Json>)
    ensures
        json::shown(
            match changed {
                Some(found) => Some(&found),
                None => None,
            },
        ) == (match dependencies@ {
            Document::Object(members) => Some(Document::Object(pinned(members, version@))),
            _ => None,
        }),
{
    match dependencies {
        Json::Object(entries) => {
            let ghost members = dependencies@->Object_0;
            let mut list: Vec<(String, Json)> = Vec::new();
            let mut index: usize = 0;
            while index < entries.len()
                invariant
                    index <= entries@.len(),
                    *dependencies == Json::Object(*entries),
                    members == dependencies@->Object_0,
                    members.len() == entries@.len(),
                    json::membered(list@) == pinned(members, version@).take(index as int),
                decreases entries.len() - index,
            {
                let ghost done = json::membered(list@);
                let name = entries[index].0.clone();
                let value = if is_family(&name) {
                    Json::Text(version.to_owned())
                } else {
                    entries[index].1.duplicate()
                };
                list.push((name, value));
                assert(json::membered(list@) =~= done.push(pinned(members, version@)[index as int]));
                assert(json::membered(list@) =~= pinned(members, version@).take(index + 1));
                index += 1;
            }
            let changed = Json::Object(list);
            assert(changed@->Object_0 =~= json::membered(list@));
            assert(json::membered(list@) =~= pinned(members, version@));
            Some(changed)
        },
        _ => None,
    }
}

/// Aligns the official Harness family in the bundled manifest to the selected
/// exact version, preserving every other root.
pub fn align(manifest: &Json, version: &str) -> (changed: Result<Json, Error>)
    ensures
        match (changed, aligned(manifest@, version@)) {
            (Ok(result), Some(wanted)) => result@ == wanted,
            (Err(error), None) => error@ == Fault::Install("bundled runtime has no dependencies"@),
            _ => false,
        },
{
    let dependencies = match manifest.get("dependencies") {
        Some(found) => pin(found, version),
        None => None,
    };
    match dependencies {
        Some(list) => {
            let mut result = manifest.duplicate();
            result.insert("dependencies", list);
            Ok(result)
        },
        None => Err(Error::Install("bundled runtime has no dependencies".to_owned())),
    }
}

/// Aligning keeps a manifest one that can be printed.
proof fn lemma_aligned_printable(manifest: Document, version: Seq<char>)
    requires
        json::printable(manifest),
        aligned(manifest, version) is Some,
    ensures
        json::printable(aligned(manifest, version)->0),
{
    let members = manifest->Object_0;
    json::lemma_member_printable(manifest, "dependencies"@);
    let dependencies = manifest.get("dependencies"@)->0->Object_0;
    let after = pinned(dependencies, version);
    assert forall|i: int, j: int| 0 <= i < j < after.len() implies text::earlier(
        after[i].0,
        after[j].0,
    ) by {
        assert(text::earlier(dependencies[i].0, dependencies[j].0));
    }
    assert forall|i: int| 0 <= i < after.len() implies json::ordered((#[trigger] after[i]).1)
        && json::signed(after[i].1) by {
        assert(json::ordered(dependencies[i].1) && json::signed(dependencies[i].1));
    }
    json::lemma_inserted_printable(members, "dependencies"@, Document::Object(after));
}

/// Adding peers keeps dependencies printable.
proof fn lemma_extended_printable(
    members: Seq<(Seq<char>, Document)>,
    list: Seq<Seq<char>>,
    count: nat,
    version: Seq<char>,
)
    requires
        json::printable(Document::Object(members)),
    ensures
        json::printable(Document::Object(extended(members, list, count, version))),
    decreases count,
{
    if count > 0 && count <= list.len() {
        lemma_extended_printable(members, list, (count - 1) as nat, version);
        let before = extended(members, list, (count - 1) as nat, version);
        json::lemma_inserted_printable(before, list[count - 1], Document::Text(version));
    }
}

/// Reads the bundled manifest and aligns it to the selected version.
pub fn selected_manifest(bundled: &str, version: &str) -> (changed: Result<Json, Error>)
    ensures
        match (changed, json::read(bundled@)) {
            (Ok(result), Ok(manifest)) => aligned(manifest, version@) == Some(result@)
                && json::printable(result@),
            (Err(error), Ok(manifest)) => aligned(manifest, version@) is None && error@
                == Fault::Install("bundled runtime has no dependencies"@),
            (Err(error), Err(cause)) => error@ == Fault::Install(
                "invalid bundled runtime manifest: "@ + cause,
            ),
            _ => false,
        },
{
    match Json::parse(bundled) {
        Ok(manifest) => {
            proof {
                if aligned(manifest@, version@) is Some {
                    lemma_aligned_printable(manifest@, version@);
                }
            }
            align(&manifest, version)
        },
        Err(cause) => Err(
            Error::Install(text::join2("invalid bundled runtime manifest: ", &cause)),
        ),
    }
}

/// Every family member among aligned dependencies is the selected version.
pub proof fn aligned_family_members_are_the_selected_version(
    manifest: Document,
    version: Seq<char>,
    name: Seq<char>,
)
    requires
        aligned(manifest, version) is Some,
        in_family(name),
    ensures
        aligned(manifest, version)->0.within("dependencies"@, name) is Some ==> aligned(
            manifest,
            version,
        )->0.within("dependencies"@, name) == Some(Document::Text(version)),
{
    let members = manifest->Object_0;
    let dependencies = json::member(members, "dependencies"@)->0->Object_0;
    json::lemma_inserted(
        members,
        "dependencies"@,
        Document::Object(pinned(dependencies, version)),
        name,
    );
    json::lemma_member(pinned(dependencies, version), name);
}

/// Whether an installed package directory belongs to the family.
pub fn is_peer_directory(name: &str) -> (answer: bool)
    ensures
        answer == text::begins(name@, "dsh-"@),
{
    text::starts_with(name, "dsh-")
}

/// The names among these that belong below the family's scope.
pub open spec fn scoped(list: Seq<Seq<char>>) -> Seq<Seq<char>> {
    list.filter(|name: Seq<char>| text::begins(name, FAMILY@))
}

/// The family members that one installed package needs pinned: itself and the
/// services it declares as peers.
pub open spec fn peers(metadata: Document) -> Seq<Seq<char>> {
    scoped(
        match metadata.text_at("name"@) {
            Some(name) => seq![name],
            None => Seq::empty(),
        },
    ) + scoped(
        match metadata.get("peerDependencies"@) {
            Some(Document::Object(members)) => json::names(members),
            _ => Seq::empty(),
        },
    )
}

/// Keeps the names that belong below the family's scope.
fn keep_scoped(list: &Vec<String>) -> (kept: Vec<String>)
    ensures
        text::texts(kept@) == scoped(text::texts(list@)),
{
    let ghost wanted = |name: Seq<char>| text::begins(name, FAMILY@);
    let mut kept: Vec<String> = Vec::new();
    let mut index: usize = 0;
    assert(text::texts(list@).take(0) =~= Seq::empty());
    assert(Seq::<Seq<char>>::empty().filter(wanted) =~= Seq::empty()) by {
        reveal(Seq::filter);
    }
    assert(text::texts(kept@) =~= Seq::empty());
    while index < list.len()
        invariant
            index <= list@.len(),
            wanted == (|name: Seq<char>| text::begins(name, FAMILY@)),
            text::texts(kept@) == text::texts(list@).take(index as int).filter(wanted),
        decreases list.len() - index,
    {
        let ghost all = text::texts(list@);
        let ghost done = text::texts(kept@);
        assert(all.take(index + 1) =~= all.take(index as int).push(all[index as int]));
        proof {
            reveal(Seq::filter);
            assert(all.take(index + 1).drop_last() =~= all.take(index as int));
        }
        if text::starts_with(&list[index], FAMILY) {
            kept.push(list[index].clone());
            assert(text::texts(kept@) =~= done.push(all[index as int]));
        }
        index += 1;
    }
    assert(text::texts(list@).take(index as int) =~= text::texts(list@));
    kept
}

/// The family members that one installed package needs pinned.
pub fn peers_of(metadata: &Json) -> (list: Vec<String>)
    ensures
        text::texts(list@) == peers(metadata@),
{
    let mut own: Vec<String> = Vec::new();
    if let Some(name) = metadata.text_at("name") {
        own.push(name);
        assert(text::texts(own@) =~= seq![name@]);
    } else {
        assert(text::texts(own@) =~= Seq::empty());
    }
    let declared = match metadata.get("peerDependencies") {
        Some(found) => match found.names() {
            Some(list) => list,
            None => Vec::new(),
        },
        None => Vec::new(),
    };
    proof {
        match metadata@.get("peerDependencies"@) {
            Some(Document::Object(members)) => {},
            _ => {
                assert(text::texts(declared@) =~= Seq::empty());
            },
        }
    }
    let mut list = keep_scoped(&own);
    let mut more = keep_scoped(&declared);
    let ghost front = text::texts(list@);
    let ghost back = text::texts(more@);
    list.append(&mut more);
    assert(text::texts(list@) =~= front + back);
    list
}

/// Reads the manifest of one installed package for the family members it needs.
pub fn read_peers(manifest: &Vec<u8>) -> (list: Result<Vec<String>, Error>)
    ensures
        match (list, json::read_bytes(manifest@)) {
            (Ok(found), Ok(metadata)) => text::texts(found@) == peers(metadata),
            (Err(error), Err(cause)) => error@ == Fault::Install(
                "invalid Harness peer manifest: "@ + cause,
            ),
            _ => false,
        },
{
    match Json::parse_bytes(manifest) {
        Ok(metadata) => Ok(peers_of(&metadata)),
        Err(cause) => Err(
            Error::Install(text::join2("invalid Harness peer manifest: ", &cause)),
        ),
    }
}

/// Dependencies with the first `count` peers added at one version, where they
/// are not among them already.
pub open spec fn extended(
    members: Seq<(Seq<char>, Document)>,
    list: Seq<Seq<char>>,
    count: nat,
    version: Seq<char>,
) -> Seq<(Seq<char>, Document)>
    decreases count,
{
    if count == 0 || count > list.len() {
        members
    } else {
        let before = extended(members, list, (count - 1) as nat, version);
        if json::member(before, list[count - 1]) is None {
            json::inserted(before, list[count - 1], Document::Text(version))
        } else {
            before
        }
    }
}

/// Whether some peer is not among the dependencies.
pub open spec fn lacking(members: Seq<(Seq<char>, Document)>, list: Seq<Seq<char>>) -> bool {
    exists|i: int| 0 <= i < list.len() && json::member(members, #[trigger] list[i]) is None
}

/// Adding peers loses no dependency, and every peer that was added is among them.
pub proof fn lemma_extended(
    members: Seq<(Seq<char>, Document)>,
    list: Seq<Seq<char>>,
    count: nat,
    version: Seq<char>,
    name: Seq<char>,
)
    requires
        count <= list.len(),
    ensures
        json::member(members, name) is Some ==> json::member(
            extended(members, list, count, version),
            name,
        ) == json::member(members, name),
        json::member(members, name) is None && (exists|i: int|
            0 <= i < count && #[trigger] list[i] == name) ==> json::member(
            extended(members, list, count, version),
            name,
        ) == Some(Document::Text(version)),
        json::member(members, name) is None && !(exists|i: int|
            0 <= i < count && #[trigger] list[i] == name) ==> json::member(
            extended(members, list, count, version),
            name,
        ) is None,
    decreases count,
{
    if count > 0 {
        let before = extended(members, list, (count - 1) as nat, version);
        lemma_extended(members, list, (count - 1) as nat, version, name);
        json::lemma_inserted(before, list[count - 1], Document::Text(version), name);
        if json::member(members, name) is None && exists|i: int|
            0 <= i < count && #[trigger] list[i] == name {
            let i = choose|i: int| 0 <= i < count && #[trigger] list[i] == name;
            if i < count - 1 {
                assert(exists|k: int| 0 <= k < count - 1 && #[trigger] list[k] == name);
            }
        }
        if exists|i: int| 0 <= i < count - 1 && #[trigger] list[i] == name {
            let i = choose|i: int| 0 <= i < count - 1 && #[trigger] list[i] == name;
            assert(list[i] == name && i < count);
        }
    }
}

/// Adds peers to a manifest's dependencies at the selected version, and says
/// whether any was new.
pub fn add_peers(manifest: &Json, list: &Vec<String>, version: &str) -> (changed: (Json, bool))
    requires
        manifest@.get("dependencies"@) matches Some(Document::Object(_)),
    ensures
        ({
            let members = manifest@->Object_0;
            let dependencies = manifest@.get("dependencies"@)->0->Object_0;
            let names = text::texts(list@);
            &&& changed.0@ == Document::Object(
                json::inserted(
                    members,
                    "dependencies"@,
                    Document::Object(extended(dependencies, names, names.len(), version@)),
                ),
            )
            &&& changed.1 == lacking(dependencies, names)
        }),
        json::printable(manifest@) ==> json::printable(changed.0@),
{
    let ghost dependencies = manifest@.get("dependencies"@)->0->Object_0;
    let ghost names = text::texts(list@);
    let mut current = match manifest.get("dependencies") {
        Some(found) => found.duplicate(),
        None => Json::Null,
    };
    let mut new = false;
    let mut index: usize = 0;
    while index < list.len()
        invariant
            index <= list@.len(),
            names == text::texts(list@),
            current@ == Document::Object(
                extended(dependencies, names, index as nat, version@),
            ),
            new == exists|i: int|
                0 <= i < index && json::member(dependencies, #[trigger] names[i]) is None,
        decreases list.len() - index,
    {
        let ghost before = extended(dependencies, names, index as nat, version@);
        proof {
            lemma_extended(dependencies, names, index as nat, version@, names[index as int]);
        }
        if current.get(&list[index]).is_none() {
            current.insert(&list[index], Json::Text(version.to_owned()));
            new = true;
            assert(json::member(dependencies, names[index as int]) is None);
        } else {
            assert(json::member(before, names[index as int]) is Some);
            proof {
                if json::member(dependencies, names[index as int]) is None {
                    let i = choose|i: int|
                        0 <= i < index && #[trigger] names[i] == names[index as int];
                    assert(json::member(dependencies, names[i]) is None);
                }
            }
        }
        index += 1;
    }
    let mut result = manifest.duplicate();
    result.insert("dependencies", current);
    proof {
        if json::printable(manifest@) {
            json::lemma_member_printable(manifest@, "dependencies"@);
            lemma_extended_printable(dependencies, names, names.len(), version@);
            json::lemma_inserted_printable(
                manifest@->Object_0,
                "dependencies"@,
                Document::Object(extended(dependencies, names, names.len(), version@)),
            );
        }
    }
    (result, new)
}

/// Once no peer is new, every peer of every inspected package is a dependency.
pub proof fn a_settled_graph_has_every_peer(
    dependencies: Seq<(Seq<char>, Document)>,
    list: Seq<Seq<char>>,
    at: int,
)
    requires
        !lacking(dependencies, list),
        0 <= at < list.len(),
    ensures
        json::member(dependencies, list[at]) is Some,
{
}

/// One step of assembling a release.
#[derive(Clone, Copy, Debug, PartialEq, Eq, Structural)]
pub enum CandidateStep {
    /// Restore the locked graph and qualify it.
    RunLocked,
    /// Create the directory and stage the Studio integration.
    StageIntegration,
    /// Write the aligned manifest.
    WriteManifest,
    /// Install the aligned manifest.
    InstallSelected,
    /// Look for peers that are not dependencies yet.
    InspectPeers { round: u8 },
    /// Write the manifest with the new peers and install it.
    InstallPeers { round: u8 },
    /// Hold the installed version against the selected one.
    CheckVersion,
    /// Qualify the directory picker.
    Qualify,
    /// Write the launcher that works on every supported Node.
    WriteLauncher,
    /// Boot the candidate in a disposable profile.
    VerifyBoot,
    /// Record the verified version.
    WriteMarker,
    /// Hold the candidate against the runtime contract.
    Require,
    /// The candidate may be promoted.
    Done,
    /// New peers kept appearing.
    GaveUp,
}

/// The first step for a release.
pub open spec fn first_step(version: Seq<char>) -> CandidateStep {
    if version == install::VERSION@ {
        CandidateStep::RunLocked
    } else {
        CandidateStep::StageIntegration
    }
}

/// The step after one that went well; `new_peers` says what inspecting found.
pub open spec fn next_step(step: CandidateStep, new_peers: bool) -> CandidateStep {
    match step {
        CandidateStep::RunLocked => CandidateStep::WriteLauncher,
        CandidateStep::StageIntegration => CandidateStep::WriteManifest,
        CandidateStep::WriteManifest => CandidateStep::InstallSelected,
        CandidateStep::InstallSelected => CandidateStep::InspectPeers { round: 0 },
        CandidateStep::InspectPeers { round } => if new_peers {
            CandidateStep::InstallPeers { round }
        } else {
            CandidateStep::CheckVersion
        },
        CandidateStep::InstallPeers { round } => if round + 1 < PEER_ROUNDS {
            CandidateStep::InspectPeers { round: (round + 1) as u8 }
        } else {
            CandidateStep::GaveUp
        },
        CandidateStep::CheckVersion => CandidateStep::Qualify,
        CandidateStep::Qualify => CandidateStep::WriteLauncher,
        CandidateStep::WriteLauncher => CandidateStep::VerifyBoot,
        CandidateStep::VerifyBoot => CandidateStep::WriteMarker,
        CandidateStep::WriteMarker => CandidateStep::Require,
        CandidateStep::Require => CandidateStep::Done,
        CandidateStep::Done => CandidateStep::Done,
        CandidateStep::GaveUp => CandidateStep::GaveUp,
    }
}

/// The first step for a release.
pub fn begin(version: &str) -> (step: CandidateStep)
    ensures
        step == first_step(version@),
{
    if text::same(version, install::VERSION) {
        CandidateStep::RunLocked
    } else {
        CandidateStep::StageIntegration
    }
}

/// The step after one that went well.
pub fn next(step: CandidateStep, new_peers: bool) -> (following: CandidateStep)
    ensures
        following == next_step(step, new_peers),
{
    match step {
        CandidateStep::RunLocked => CandidateStep::WriteLauncher,
        CandidateStep::StageIntegration => CandidateStep::WriteManifest,
        CandidateStep::WriteManifest => CandidateStep::InstallSelected,
        CandidateStep::InstallSelected => CandidateStep::InspectPeers { round: 0 },
        CandidateStep::InspectPeers { round } => if new_peers {
            CandidateStep::InstallPeers { round }
        } else {
            CandidateStep::CheckVersion
        },
        CandidateStep::InstallPeers { round } => if round < PEER_ROUNDS - 1 {
            CandidateStep::InspectPeers { round: round + 1 }
        } else {
            CandidateStep::GaveUp
        },
        CandidateStep::CheckVersion => CandidateStep::Qualify,
        CandidateStep::Qualify => CandidateStep::WriteLauncher,
        CandidateStep::WriteLauncher => CandidateStep::VerifyBoot,
        CandidateStep::VerifyBoot => CandidateStep::WriteMarker,
        CandidateStep::WriteMarker => CandidateStep::Require,
        CandidateStep::Require => CandidateStep::Done,
        CandidateStep::Done => CandidateStep::Done,
        CandidateStep::GaveUp => CandidateStep::GaveUp,
    }
}

/// How many steps are left at most.
pub open spec fn steps_left(step: CandidateStep) -> int {
    match step {
        CandidateStep::StageIntegration => 40,
        CandidateStep::WriteManifest => 39,
        CandidateStep::InstallSelected => 38,
        CandidateStep::InspectPeers { round } => if round < PEER_ROUNDS {
            37 - 2 * round
        } else {
            9
        },
        CandidateStep::InstallPeers { round } => if round < PEER_ROUNDS {
            36 - 2 * round
        } else {
            8
        },
        CandidateStep::RunLocked => 7,
        CandidateStep::CheckVersion => 7,
        CandidateStep::Qualify => 6,
        CandidateStep::WriteLauncher => 5,
        CandidateStep::VerifyBoot => 4,
        CandidateStep::WriteMarker => 3,
        CandidateStep::Require => 2,
        CandidateStep::Done => 0,
        CandidateStep::GaveUp => 0,
    }
}

/// Assembling a release ends, whatever is found on the way.
pub proof fn assembling_ends(step: CandidateStep, new_peers: bool)
    requires
        step !is Done,
        step !is GaveUp,
    ensures
        0 <= steps_left(next_step(step, new_peers)) < steps_left(step),
{
}

/// A release is recorded as verified only after it booted, and may be promoted
/// only after it was held against the contract with that record in place.
pub proof fn only_a_booted_release_is_recorded(step: CandidateStep, new_peers: bool)
    requires
        step !is Done,
    ensures
        next_step(step, new_peers) is WriteMarker ==> step is VerifyBoot,
        next_step(step, new_peers) is Require ==> step is WriteMarker,
        next_step(step, new_peers) is Done ==> step is Require,
{
}

/// What is said where new peers kept appearing.
pub fn gave_up() -> (error: Error)
    ensures
        error@ == Fault::Install(
            "Harness peer dependency graph did not converge; previous runtime retained"@,
        ),
{
    Error::Install(
        "Harness peer dependency graph did not converge; previous runtime retained".to_owned(),
    )
}

/// Holds the installed version against the selected one.
pub fn check_version(installed: &Option<String>, version: &str) -> (checked: Result<(), Error>)
    ensures
        match checked {
            Ok(_) => text::seen(*installed) == Some(version@),
            Err(error) => text::seen(*installed) != Some(version@) && error@ == Fault::Install(
                "npm did not install the selected exact Harness version"@,
            ),
        },
{
    if install::is_text(installed, version) {
        Ok(())
    } else {
        Err(Error::Install("npm did not install the selected exact Harness version".to_owned()))
    }
}

/// What the command of a step is called where it is reported, if the step runs
/// one.
pub fn command_label(step: CandidateStep) -> (label: Option<&'static str>)
    ensures
        match (label, step) {
            (Some(name), CandidateStep::RunLocked) => name@ == "npm ci"@,
            (Some(name), CandidateStep::InstallSelected) => name@
                == "npm install selected Harness"@,
            (Some(name), CandidateStep::InstallPeers { .. }) => name@
                == "npm install Harness peers"@,
            (Some(name), CandidateStep::VerifyBoot) => name@
                == "Harness startup verification (see the preceding compatibility details; previous runtime retained)"@,
            (Some(_), _) => false,
            (None, _) => !(step is RunLocked || step is InstallSelected || step is InstallPeers
                || step is VerifyBoot),
        },
{
    match step {
        CandidateStep::RunLocked => Some("npm ci"),
        CandidateStep::InstallSelected => Some("npm install selected Harness"),
        CandidateStep::InstallPeers { round: _ } => Some("npm install Harness peers"),
        CandidateStep::VerifyBoot => Some(
            "Harness startup verification (see the preceding compatibility details; previous runtime retained)",
        ),
        _ => None,
    }
}

/// Whether steps follow one another as they should when each goes well; `found`
/// says of every step whether it found new peers.
pub open spec fn run(steps: Seq<CandidateStep>, found: Seq<bool>) -> bool {
    &&& steps.len() > 0
    &&& found.len() == steps.len()
    &&& forall|i: int|
        0 <= i < steps.len() - 1 ==> #[trigger] steps[i + 1] == next_step(steps[i], found[i])
    &&& forall|i: int| 0 <= i < steps.len() - 1 ==> (#[trigger] steps[i]) !is Done
}

/// The one step that leads to the next in a run.
proof fn lemma_run_step(steps: Seq<CandidateStep>, found: Seq<bool>, at: int)
    requires
        run(steps, found),
        0 < at < steps.len(),
    ensures
        steps[at] == next_step(steps[at - 1], found[at - 1]),
        steps[at - 1] !is Done,
{
    assert(steps[(at - 1) + 1] == next_step(steps[at - 1], found[at - 1]));
}

/// While peers are looked for, nothing but looking for them and installing them
/// happens, until none is new.
proof fn lemma_peers_only(steps: Seq<CandidateStep>, found: Seq<bool>, at: int)
    requires
        run(steps, found),
        steps.len() >= 11,
        3 <= at <= steps.len() - 8,
        steps[3] is InspectPeers,
        steps[steps.len() - 7] is CheckVersion,
        steps[steps.len() - 1] is Done,
    ensures
        steps[at] is InspectPeers || steps[at] is InstallPeers,
    decreases at,
{
    if at > 3 {
        lemma_peers_only(steps, found, at - 1);
        lemma_run_step(steps, found, at);
        if steps[at] is CheckVersion {
            lemma_early_check(steps, found, at);
        } else if steps[at] is GaveUp {
            lemma_given_up(steps, found, at, steps.len() - 1);
        }
    }
}

/// A run that gave up stays given up.
proof fn lemma_given_up(steps: Seq<CandidateStep>, found: Seq<bool>, at: int, later: int)
    requires
        run(steps, found),
        0 <= at <= later < steps.len(),
        steps[at] is GaveUp,
    ensures
        steps[later] is GaveUp,
    decreases later,
{
    if at < later {
        lemma_given_up(steps, found, at, later - 1);
        lemma_run_step(steps, found, later);
    }
}

/// Once the version was checked, six steps are left at most.
proof fn lemma_early_check(steps: Seq<CandidateStep>, found: Seq<bool>, at: int)
    requires
        run(steps, found),
        0 < at < steps.len(),
        steps[at] is CheckVersion,
    ensures
        steps.len() <= at + 7,
{
    if at + 7 < steps.len() {
        lemma_run_step(steps, found, at + 1);
        lemma_run_step(steps, found, at + 2);
        lemma_run_step(steps, found, at + 3);
        lemma_run_step(steps, found, at + 4);
        lemma_run_step(steps, found, at + 5);
        lemma_run_step(steps, found, at + 6);
        assert(steps[at + 6] is Done);
    }
}

/// A selected release is assembled in one order, whatever peers are found on the
/// way: the integration is staged, the manifest written and installed; peers are
/// looked for and installed until none is new; then the version is checked, and
/// only then the picker is qualified, the launcher written, the release booted,
/// recorded, and held against the contract.
pub proof fn a_selected_release_is_assembled_in_order(
    version: Seq<char>,
    steps: Seq<CandidateStep>,
    found: Seq<bool>,
)
    requires
        version != install::VERSION@,
        run(steps, found),
        steps[0] == first_step(version),
        steps.last() is Done,
    ensures
        ({
            let end = steps.len() as int;
            &&& end >= 11
            &&& steps[0] is StageIntegration
            &&& steps[1] is WriteManifest
            &&& steps[2] is InstallSelected
            &&& steps[3] is InspectPeers
            &&& forall|i: int|
                3 <= i <= end - 8 ==> (#[trigger] steps[i]) is InspectPeers || steps[i] is InstallPeers
            &&& forall|i: int|
                0 < i < end && (#[trigger] steps[i]) is InstallPeers ==> steps[i - 1] is InspectPeers
                    && found[i - 1]
            &&& steps[end - 8] is InspectPeers && !found[end - 8]
            &&& steps[end - 7] is CheckVersion
            &&& steps[end - 6] is Qualify
            &&& steps[end - 5] is WriteLauncher
            &&& steps[end - 4] is VerifyBoot
            &&& steps[end - 3] is WriteMarker
            &&& steps[end - 2] is Require
            &&& steps[end - 1] is Done
        }),
{
    let end = steps.len() as int;
    assert(steps[end - 1] is Done);
    lemma_run_step(steps, found, end - 1);
    lemma_run_step(steps, found, end - 2);
    lemma_run_step(steps, found, end - 3);
    lemma_run_step(steps, found, end - 4);
    lemma_run_step(steps, found, end - 5);
    assert(steps[end - 6] is Qualify || steps[end - 6] is RunLocked);
    if steps[end - 6] is RunLocked {
        lemma_run_step(steps, found, end - 6);
    }
    lemma_run_step(steps, found, end - 6);
    lemma_run_step(steps, found, end - 7);
    assert(steps[end - 8] is InspectPeers);
    if end - 8 <= 2 {
        lemma_run_step(steps, found, 1);
        if end - 8 == 2 {
            lemma_run_step(steps, found, 2);
        }
    }
    lemma_run_step(steps, found, 1);
    lemma_run_step(steps, found, 2);
    lemma_run_step(steps, found, 3);
    assert forall|i: int| 3 <= i <= end - 8 implies (#[trigger] steps[i]) is InspectPeers
        || steps[i] is InstallPeers by {
        lemma_peers_only(steps, found, i);
    }
    assert forall|i: int| 0 < i < end && (#[trigger] steps[i]) is InstallPeers implies steps[i - 1]
        is InspectPeers && found[i - 1] by {
        lemma_run_step(steps, found, i);
    }
}

/// The built-in release is restored from its lock, which qualifies it, and is then
/// launched, booted, recorded and held against the contract like any other.
pub proof fn the_built_in_release_is_restored_from_its_lock(
    steps: Seq<CandidateStep>,
    found: Seq<bool>,
)
    requires
        run(steps, found),
        steps[0] == first_step(install::VERSION@),
        steps.last() is Done,
    ensures
        steps == seq![
            CandidateStep::RunLocked,
            CandidateStep::WriteLauncher,
            CandidateStep::VerifyBoot,
            CandidateStep::WriteMarker,
            CandidateStep::Require,
            CandidateStep::Done,
        ],
{
    let end = steps.len() as int;
    assert(steps[end - 1] is Done);
    lemma_run_step(steps, found, 1);
    if end > 2 {
        lemma_run_step(steps, found, 2);
    }
    if end > 3 {
        lemma_run_step(steps, found, 3);
    }
    if end > 4 {
        lemma_run_step(steps, found, 4);
    }
    if end > 5 {
        lemma_run_step(steps, found, 5);
    }
    assert(steps =~= seq![
        CandidateStep::RunLocked,
        CandidateStep::WriteLauncher,
        CandidateStep::VerifyBoot,
        CandidateStep::WriteMarker,
        CandidateStep::Require,
        CandidateStep::Done,
    ]);
}

/// Peers are installed four times at most: where a fourth round still found new
/// ones, the graph is given up, and before that the next round looks again.
pub proof fn peers_are_installed_four_times_at_most(round: u8)
    ensures
        round < 3 ==> next_step(CandidateStep::InstallPeers { round }, true) == (
        CandidateStep::InspectPeers { round: (round + 1) as u8 }),
        round >= 3 ==> next_step(CandidateStep::InstallPeers { round }, true) is GaveUp,
        next_step(CandidateStep::InstallSelected, true) == (CandidateStep::InspectPeers {
            round: 0,
        }),
        next_step(CandidateStep::InspectPeers { round }, true) == (CandidateStep::InstallPeers {
            round,
        }),
{
}

/// The family is the Harness package itself and everything named behind it with a
/// hyphen in its scope; nothing else is pinned.
pub proof fn the_family_goes_by_its_names(rest: Seq<char>, name: Seq<char>)
    ensures
        in_family("@deepseek-ai/dsh"@),
        in_family("@deepseek-ai/dsh-"@ + rest),
        in_family(name) ==> text::begins(name, "@deepseek-ai/dsh"@) && (name.len() == 16
            || name[16] == '-'),
{
    reveal_strlit("@deepseek-ai/dsh");
    reveal_strlit("@deepseek-ai/dsh-");
    text::a_prefix_taken_away_can_be_put_back(name, FAMILY@, rest);
    if in_family(name) {
        if text::begins(name, FAMILY@) {
            assert(name.take(17)[16] == name[16]);
            assert(name.take(16) =~= name.take(17).take(16));
            assert("@deepseek-ai/dsh-"@.take(16) =~= "@deepseek-ai/dsh"@);
        } else {
            assert(name.take(16) =~= name);
        }
    }
}

/// Aligning a manifest changes the versions of the family and nothing else: every
/// other dependency, and every other member of the manifest, is as it was, and no
/// dependency is added or lost.
pub proof fn aligning_changes_the_family_alone(
    manifest: Document,
    version: Seq<char>,
    name: Seq<char>,
)
    requires
        aligned(manifest, version) is Some,
    ensures
        ({
            let after = aligned(manifest, version)->0;
            let before = manifest.within("dependencies"@, name);
            &&& name != "dependencies"@ ==> after.get(name) == manifest.get(name)
            &&& before is Some && in_family(name) ==> after.within("dependencies"@, name) == Some(
                Document::Text(version),
            )
            &&& !(before is Some && in_family(name)) ==> after.within("dependencies"@, name)
                == before
        }),
{
    let members = manifest->Object_0;
    let dependencies = json::member(members, "dependencies"@)->0->Object_0;
    let after = pinned(dependencies, version);
    json::lemma_inserted(members, "dependencies"@, Document::Object(after), name);
    json::lemma_inserted(members, "dependencies"@, Document::Object(after), "dependencies"@);
    lemma_pinned_member(dependencies, version, name);
}

/// A pinned dependency is found under its name.
proof fn lemma_pinned_member(
    members: Seq<(Seq<char>, Document)>,
    version: Seq<char>,
    name: Seq<char>,
)
    ensures
        json::member(pinned(members, version), name) == (if json::member(members, name) is Some
            && in_family(name) {
            Some(Document::Text(version))
        } else {
            json::member(members, name)
        }),
    decreases members.len(),
{
    if members.len() > 0 && members[0].0 != name {
        lemma_pinned_member(members.drop_first(), version, name);
        assert(pinned(members, version).drop_first() =~= pinned(members.drop_first(), version));
    }
}

/// What an installed package needs pinned is itself and the peers it declares, as
/// far as they belong below the family's scope, and nothing else.
pub proof fn a_package_needs_itself_and_its_peers(metadata: Document, name: Seq<char>)
    ensures
        peers(metadata).contains(name) <==> text::begins(name, "@deepseek-ai/dsh-"@) && (
        metadata.text_at("name"@) == Some(name) || (metadata.get("peerDependencies"@)
            matches Some(Document::Object(members)) && json::names(members).contains(name))),
{
    let own = match metadata.text_at("name"@) {
        Some(found) => seq![found],
        None => Seq::empty(),
    };
    let declared = match metadata.get("peerDependencies"@) {
        Some(Document::Object(members)) => json::names(members),
        _ => Seq::empty(),
    };
    let wanted = |name: Seq<char>| text::begins(name, FAMILY@);
    text::lemma_picked(own, wanted, name);
    text::lemma_picked(declared, wanted, name);
    let first = scoped(own);
    let second = scoped(declared);
    let all = peers(metadata);
    if all.contains(name) {
        let k = choose|k: int| 0 <= k < all.len() && all[k] == name;
        if k < first.len() {
            assert(own.filter(wanted)[k] == name);
            let m = choose|m: int| 0 <= m < own.len() && own[m] == name;
            assert(own[m] == name);
        } else {
            assert(declared.filter(wanted)[k - first.len()] == name);
        }
    }
    if text::begins(name, FAMILY@) && metadata.text_at("name"@) == Some(name) {
        assert(own[0] == name);
        assert(wanted(own[0]));
        assert(first.contains(name));
        let k = choose|k: int| 0 <= k < first.len() && first[k] == name;
        assert(all[k] == name);
    }
    if text::begins(name, FAMILY@) && declared.contains(name) {
        let m = choose|m: int| 0 <= m < declared.len() && declared[m] == name;
        assert(wanted(declared[m]));
        assert(second.contains(name));
        let k = choose|k: int| 0 <= k < second.len() && second[k] == name;
        assert(all[first.len() + k] == name);
    }
}

/// Peers that are added keep what was there, come in at the selected version, and
/// none is new exactly where all were there already.
pub proof fn added_peers_come_in_at_the_selected_version(
    members: Seq<(Seq<char>, Document)>,
    list: Seq<Seq<char>>,
    version: Seq<char>,
    name: Seq<char>,
)
    ensures
        json::member(extended(members, list, list.len(), version), name) == (match json::member(
            members,
            name,
        ) {
            Some(kept) => Some(kept),
            None => if list.contains(name) {
                Some(Document::Text(version))
            } else {
                None
            },
        }),
        list.contains(name) && json::member(members, name) is None ==> lacking(members, list),
{
    lemma_extended(members, list, list.len(), version, name);
    if list.contains(name) {
        let k = choose|k: int| 0 <= k < list.len() && list[k] == name;
        assert(list[k] == name);
    }
}

/// A startup check may be silent for three minutes and run for four, and of what it
/// reports as much is read as the check itself writes.
pub proof fn a_startup_check_has_its_limits()
    ensures
        BOOT_IDLE_TIMEOUT == 3 * 60 * 1000,
        BOOT_TOTAL_TIMEOUT == 4 * 60 * 1000,
        BOOT_REPORT_BYTES == 8 * 1024,
{
}

/// A peer is new exactly where some name of the list is no dependency yet, wherever in
/// the list it stands.
pub proof fn one_missing_name_is_enough(
    members: Seq<(Seq<char>, Document)>,
    list: Seq<Seq<char>>,
    name: Seq<char>,
)
    ensures
        lacking(members, list.push(name)) <==> lacking(members, list) || json::member(
            members,
            name,
        ) is None,
        !lacking(members, Seq::empty()),
{
    let longer = list.push(name);
    assert(longer[list.len() as int] == name);
    if lacking(members, list) {
        let i = choose|i: int|
            0 <= i < list.len() && json::member(members, #[trigger] list[i]) is None;
        assert(longer[i] == list[i]);
    }
    if lacking(members, longer) {
        let i = choose|i: int|
            0 <= i < longer.len() && json::member(members, #[trigger] longer[i]) is None;
        if i < list.len() {
            assert(list[i] == longer[i]);
        }
    }
}

/// A release that is assembled stays assembled, and one that was given up stays given
/// up, whatever is found afterwards.
pub proof fn an_ended_assembly_stays_as_it_ended(new_peers: bool)
    ensures
        next_step(CandidateStep::Done, new_peers) is Done,
        next_step(CandidateStep::GaveUp, new_peers) is GaveUp,
{
}

} // verus!
