//! Everything about running the DeepSeek Harness as a supervised local service:
//! whether this machine can, and what a launch or an install then looks like.
use vstd::prelude::*;

use crate::channel;
use crate::channel::Channel;
use crate::error::{Error, Fault};
use crate::files;
use crate::install;
use crate::install::{InstallPlan, RuntimeFiles};
use crate::node;
use crate::node::{NodeInstallation, Version};
use crate::paths;
use crate::paths::{Location, Place};
use crate::supervisor::LaunchPlan;
use crate::text;

verus! {

/// Loopback only. Binding anywhere else would expose an agent that can run shell
/// commands to the local network, so it is not a setting.
pub const BIND_HOST: &'static str = "127.0.0.1";

/// Whether a workspace may be used, and why not where it may not.
#[derive(Debug)]
pub struct Admission {
    pub blocked: bool,
    pub reason: Option<String>,
}

/// Whether this machine can currently run the harness, and what is missing.
#[derive(Debug)]
pub struct Environment {
    /// Best usable runtime, or nothing when none qualifies.
    pub node: Option<NodeInstallation>,
    /// Every runtime found, so the UI can explain why one was rejected.
    pub all_node_runtimes: Vec<NodeInstallation>,
    pub minimum_node: Version,
    pub harness_installed: bool,
    pub harness_compatible: bool,
    pub harness_version: Option<String>,
    pub expected_harness_version: String,
    pub harness_problem: Option<String>,
    pub harness_entry: String,
    pub workspace: String,
    pub workspace_admission: Admission,
}

/// What a look at the machine brings back.
#[derive(Debug)]
pub struct Inspection {
    /// What came of recovering an interrupted install.
    pub recovered: Result<(), Error>,
    /// Every Node runtime found, the newest first.
    pub runtimes: Vec<NodeInstallation>,
    /// The runtime that is used.
    pub node: Option<NodeInstallation>,
    /// The Harness entry point.
    pub entry: String,
    /// Whether the Harness entry point is a file.
    pub entry_is_file: bool,
    /// The files of the managed runtime.
    pub files: RuntimeFiles,
    pub channel: Channel,
    pub workspace: String,
    pub admission: Admission,
}

/// Whether this machine can run the harness, from a look at it.
pub fn environment(seen: Inspection) -> (environment: Environment)
    ensures
        ({
            let version = install::recorded(install::read_document(text::seen(seen.files.manifest)));
            &&& environment.node == seen.node
            &&& environment.all_node_runtimes == seen.runtimes
            &&& environment.minimum_node == node::minimum()
            &&& environment.harness_installed == (seen.entry_is_file && version is Some)
            &&& environment.harness_compatible == seen.files.finding().compatible()
            &&& text::seen(environment.harness_version) == version
            &&& environment.expected_harness_version@ == (match seen.channel.pinned {
                Some(pinned) => pinned@,
                None => install::VERSION@,
            })
            &&& text::seen(environment.harness_problem) == (match seen.recovered {
                Ok(_) => None,
                Err(failure) => Some(failure@.message()),
            })
            &&& environment.harness_entry == seen.entry
            &&& environment.workspace == seen.workspace
            &&& environment.workspace_admission == seen.admission
        }),
{
    let harness_problem = match &seen.recovered {
        Ok(_) => None,
        Err(failure) => Some(failure.message()),
    };
    let harness_version = install::runtime_version(&seen.files.manifest);
    let harness_installed = seen.entry_is_file && harness_version.is_some();
    let harness_compatible = install::runtime_compatible(&seen.files);
    let expected_harness_version = channel::selected(&seen.channel);
    Environment {
        node: seen.node,
        all_node_runtimes: seen.runtimes,
        minimum_node: node::minimum_supported(),
        harness_installed,
        harness_compatible,
        harness_version,
        expected_harness_version,
        harness_problem,
        harness_entry: seen.entry,
        workspace: seen.workspace,
        workspace_admission: seen.admission,
    }
}

/// A text, or what stands for it where there is none.
pub open spec fn known(text: Option<Seq<char>>, otherwise: Seq<char>) -> Seq<char> {
    match text {
        Some(found) => found,
        None => otherwise,
    }
}

/// What keeps a machine from launching the harness, if anything.
pub open spec fn obstacle(environment: Environment) -> Option<Fault> {
    if environment.node is None {
        Some(Fault::NoNodeRuntime(node::minimum()))
    } else if !environment.harness_installed {
        Some(Fault::HarnessNotInstalled)
    } else if !environment.harness_compatible {
        Some(
            Fault::Install(
                "the installed Harness runtime is "@ + known(
                    text::seen(environment.harness_version),
                    "unknown"@,
                ) + ", but DSH Studio requires "@ + environment.expected_harness_version@
                    + "; reinstall it from the Environment panel"@,
            ),
        )
    } else if environment.workspace_admission.blocked {
        Some(
            Fault::Workspace(
                known(
                    text::seen(environment.workspace_admission.reason),
                    "the workspace is not safe to use"@,
                ),
            ),
        )
    } else {
        None
    }
}

/// Whether the machine can launch the harness; nothing is prepared on one that
/// cannot.
pub fn check_machine(environment: &Environment) -> (admitted: Result<(), Error>)
    ensures
        match admitted {
            Ok(_) => obstacle(*environment) is None,
            Err(error) => obstacle(*environment) == Some(error@),
        },
{
    if environment.node.is_none() {
        return Err(Error::NoNodeRuntime { minimum: node::minimum_supported() });
    }
    if !environment.harness_installed {
        return Err(Error::HarnessNotInstalled);
    }
    if !environment.harness_compatible {
        let version = match &environment.harness_version {
            Some(version) => version.clone(),
            None => "unknown".to_owned(),
        };
        return Err(
            Error::Install(
                text::join5(
                    "the installed Harness runtime is ",
                    &version,
                    ", but DSH Studio requires ",
                    &environment.expected_harness_version,
                    "; reinstall it from the Environment panel",
                ),
            ),
        );
    }
    if environment.workspace_admission.blocked {
        return Err(
            Error::Workspace(
                match &environment.workspace_admission.reason {
                    Some(reason) => reason.clone(),
                    None => "the workspace is not safe to use".to_owned(),
                },
            ),
        );
    }
    Ok(())
}

/// What preparing a launch brought, on a machine that can launch.
#[derive(Debug)]
pub struct Preparation {
    /// The resolver that was put in place, or why it could not be.
    pub resolver: Result<String, Error>,
    /// Whether the profile serves Studio, or why it could not be prepared.
    pub serves_studio: Result<bool, Error>,
    /// What an interrupted plugin change left behind, if it blocks a start.
    pub problem: Option<String>,
    /// The patch layer for profiles that serve Studio.
    pub patch: String,
    /// Listen port, or `0` to let the OS choose a free one.
    pub port: u16,
}

/// The patch layer of the managed runtime.
pub fn patch_place(data: &Location) -> (place: Location)
    ensures
        place@ == data@.below("harness"@).below(
            "node_modules/@moresyl/dsh-studio-integration"@,
        ).below("cordis.patch.yml"@),
{
    files::integration_place(&paths::harness_dir(data)).below("cordis.patch.yml")
}

/// What a profile is launched as, or why it is not.
pub open spec fn planned(
    environment: Environment,
    profile: Seq<char>,
    check_plugin_recovery: bool,
    prepared: Preparation,
    plan: Result<LaunchPlan, Error>,
) -> bool {
    match obstacle(environment) {
        Some(fault) => plan matches Err(error) && error@ == fault,
        None => match (prepared.resolver, prepared.serves_studio) {
            (Err(failure), _) => plan matches Err(error) && error@ == failure@,
            (Ok(_), Err(failure)) => plan matches Err(error) && error@ == failure@,
            (Ok(resolver), Ok(serves_studio)) => if check_plugin_recovery && prepared.problem
                is Some {
                plan matches Err(error) && error@ == Fault::Plugin(prepared.problem->0@)
            } else {
                &&& plan matches Ok(launch)
                &&& launch.node@ == environment.node->0.path@
                &&& launch.entry@ == environment.harness_entry@
                &&& launch.resolver@ == resolver@
                &&& launch.profile@ == profile
                &&& text::texts(launch.patches@) == (if serves_studio {
                    seq![prepared.patch@]
                } else {
                    Seq::empty()
                })
                &&& launch.workspace@ == environment.workspace@
                &&& launch.host@ == BIND_HOST@
                &&& launch.port == prepared.port
                &&& launch.environment@.len() == 0
            },
        },
    }
}

/// Turns an environment into a runnable launch of a profile, or says what is
/// missing.
pub fn launch_plan_for_profile(
    environment: Environment,
    profile: String,
    check_plugin_recovery: bool,
    prepared: Preparation,
) -> (plan: Result<LaunchPlan, Error>)
    ensures
        planned(environment, profile@, check_plugin_recovery, prepared, plan),
{
    if let Err(failure) = check_machine(&environment) {
        return Err(failure);
    }
    let node = match environment.node {
        Some(node) => node,
        None => {
            return Err(Error::NoNodeRuntime { minimum: node::minimum_supported() });
        },
    };
    let resolver = match prepared.resolver {
        Ok(resolver) => resolver,
        Err(failure) => {
            return Err(failure);
        },
    };
    let serves_studio = match prepared.serves_studio {
        Ok(answer) => answer,
        Err(failure) => {
            return Err(failure);
        },
    };
    if check_plugin_recovery {
        if let Some(problem) = prepared.problem {
            return Err(Error::Plugin(problem));
        }
    }
    let mut patches: Vec<String> = Vec::new();
    if serves_studio {
        patches.push(prepared.patch);
    }
    assert(text::texts(patches@) =~= (if serves_studio {
        seq![prepared.patch@]
    } else {
        Seq::empty()
    }));
    Ok(
        LaunchPlan {
            node: node.path,
            entry: environment.harness_entry,
            resolver,
            profile,
            patches,
            workspace: environment.workspace,
            host: BIND_HOST.to_owned(),
            port: prepared.port,
            environment: Vec::new(),
        },
    )
}

/// Turns an environment into a runnable launch of the selected profile, or says
/// what is missing.
pub fn launch_plan(environment: Environment, profile: String, prepared: Preparation) -> (plan:
    Result<LaunchPlan, Error>)
    ensures
        planned(environment, profile@, true, prepared, plan),
{
    launch_plan_for_profile(environment, profile, true, prepared)
}

/// Builds an isolated recovery launch without changing the selected profile;
/// `profile` is the recovery profile, or why it could not be prepared.
pub fn safe_mode_launch_plan(
    environment: Environment,
    profile: Result<String, Error>,
    prepared: Preparation,
) -> (plan: Result<LaunchPlan, Error>)
    ensures
        match profile {
            Ok(recovery) => planned(environment, recovery@, false, prepared, plan),
            Err(failure) => plan matches Err(error) && error@ == failure@,
        },
{
    match profile {
        Ok(recovery) => launch_plan_for_profile(environment, recovery, false, prepared),
        Err(failure) => Err(failure),
    }
}

/// A harness is only ever launched on a machine that qualifies, and only on the
/// loopback interface.
pub proof fn only_a_qualified_machine_launches(
    environment: Environment,
    profile: Seq<char>,
    check_plugin_recovery: bool,
    prepared: Preparation,
    plan: Result<LaunchPlan, Error>,
)
    requires
        planned(environment, profile, check_plugin_recovery, prepared, plan),
        plan is Ok,
    ensures
        environment.node is Some,
        environment.harness_installed && environment.harness_compatible,
        !environment.workspace_admission.blocked,
        plan->Ok_0.host@ == BIND_HOST@,
{
}

/// Whether a runtime is new enough.
pub open spec fn supported(runtime: NodeInstallation) -> bool {
    runtime.version.reaches(node::minimum())
}

/// Whether a runtime is new enough and complete: its own npm works.
pub open spec fn capable(runtime: NodeInstallation) -> bool {
    supported(runtime) && runtime.npm_cli is Some
}

/// The index of the first capable runtime, at a given path where one is given.
pub open spec fn first_capable(
    runtimes: Seq<NodeInstallation>,
    path: Option<Seq<char>>,
    from: nat,
) -> Option<nat>
    decreases runtimes.len() - from,
{
    if from >= runtimes.len() {
        None
    } else if capable(runtimes[from as int]) && (path is None || runtimes[from as int].path@
        == path->0) {
        Some(from)
    } else {
        first_capable(runtimes, path, from + 1)
    }
}

/// The index of the runtime that drives npm, or why there is none: the selected
/// one when it can, else the newest complete installation.
pub open spec fn npm_choice(environment: Environment) -> Result<nat, Fault> {
    let runtimes = environment.all_node_runtimes@;
    let preferred = match environment.node {
        Some(node) => first_capable(runtimes, Some(node.path@), 0),
        None => None,
    };
    if forall|i: int| 0 <= i < runtimes.len() ==> !supported(#[trigger] runtimes[i]) {
        Err(Fault::NoNodeRuntime(node::minimum()))
    } else {
        match (preferred, first_capable(runtimes, None, 0)) {
            (Some(index), _) => Ok(index),
            (None, Some(index)) => Ok(index),
            (None, None) => Err(Fault::NpmMissing),
        }
    }
}

/// What a search for a capable runtime finds.
pub proof fn lemma_first_capable(
    runtimes: Seq<NodeInstallation>,
    path: Option<Seq<char>>,
    from: nat,
)
    ensures
        match first_capable(runtimes, path, from) {
            Some(index) => from <= index < runtimes.len() && capable(runtimes[index as int]) && (
            path is None || runtimes[index as int].path@ == path->0) && forall|j: int|
                from <= j < index ==> !(capable(#[trigger] runtimes[j]) && (path is None
                    || runtimes[j].path@ == path->0)),
            None => forall|j: int|
                from <= j < runtimes.len() ==> !(capable(#[trigger] runtimes[j]) && (path is None
                    || runtimes[j].path@ == path->0)),
        },
    decreases runtimes.len() - from,
{
    if from < runtimes.len() {
        lemma_first_capable(runtimes, path, from + 1);
    }
}

/// A newer runtime without npm never hides an older complete one: wherever a
/// complete runtime is found, a complete one is chosen.
pub proof fn a_complete_runtime_is_never_hidden(environment: Environment, index: int)
    requires
        0 <= index < environment.all_node_runtimes@.len(),
        capable(environment.all_node_runtimes@[index]),
    ensures
        npm_choice(environment) matches Ok(chosen) && chosen
            < environment.all_node_runtimes@.len() && capable(
            environment.all_node_runtimes@[chosen as int],
        ),
{
    let runtimes = environment.all_node_runtimes@;
    lemma_first_capable(runtimes, None, 0);
    if let Some(node) = environment.node {
        lemma_first_capable(runtimes, Some(node.path@), 0);
    }
    assert(supported(runtimes[index]));
}

/// The first capable runtime, at a given path where one is given.
fn find_capable(runtimes: &Vec<NodeInstallation>, path: Option<&str>) -> (found: Option<usize>)
    ensures
        match (
            found,
            first_capable(
                runtimes@,
                match path {
                    Some(wanted) => Some(wanted@),
                    None => None,
                },
                0,
            ),
        ) {
            (Some(index), Some(wanted)) => index == wanted && index < runtimes@.len() && capable(
                runtimes@[index as int],
            ),
            (None, None) => true,
            _ => false,
        },
{
    let ghost wanted = match path {
        Some(text) => Some(text@),
        None => None,
    };
    let mut index: usize = 0;
    while index < runtimes.len()
        invariant
            index <= runtimes@.len(),
            wanted == (match path {
                Some(text) => Some(text@),
                None => None,
            }),
            first_capable(runtimes@, wanted, 0) == first_capable(
                runtimes@,
                wanted,
                index as nat,
            ),
        decreases runtimes.len() - index,
    {
        let runtime = &runtimes[index];
        if runtime.version.at_least(&node::minimum_supported()) && runtime.npm_cli.is_some() {
            let there = match path {
                Some(text) => text::same(&runtime.path, text),
                None => true,
            };
            if there {
                return Some(index);
            }
        }
        index += 1;
    }
    None
}

/// The runtime that drives npm.
fn choose_runtime(environment: &Environment) -> (chosen: Result<usize, Error>)
    ensures
        match (chosen, npm_choice(*environment)) {
            (Ok(index), Ok(wanted)) => index == wanted && index
                < environment.all_node_runtimes@.len() && capable(
                environment.all_node_runtimes@[index as int],
            ),
            (Err(error), Err(fault)) => error@ == fault,
            _ => false,
        },
{
    let runtimes = &environment.all_node_runtimes;
    let mut any = false;
    let mut index: usize = 0;
    while index < runtimes.len()
        invariant
            index <= runtimes@.len(),
            any == exists|i: int| 0 <= i < index && supported(#[trigger] runtimes@[i]),
        decreases runtimes.len() - index,
    {
        if runtimes[index].version.at_least(&node::minimum_supported()) {
            any = true;
            assert(supported(runtimes@[index as int]));
        }
        index += 1;
    }
    if !any {
        return Err(Error::NoNodeRuntime { minimum: node::minimum_supported() });
    }
    if let Some(node) = &environment.node {
        if let Some(preferred) = find_capable(runtimes, Some(&node.path)) {
            return Ok(preferred);
        }
    }
    match find_capable(runtimes, None) {
        Some(first) => Ok(first),
        None => Err(Error::NpmMissing),
    }
}

/// The Node runtime that can drive npm: the selected one when it can, else the
/// newest complete installation. Launching only needs Node, but anything that
/// runs npm needs that exact runtime's npm.
pub fn npm_capable_node(environment: &Environment) -> (path: Result<String, Error>)
    ensures
        match (path, npm_choice(*environment)) {
            (Ok(found), Ok(index)) => found@
                == environment.all_node_runtimes@[index as int].path@,
            (Err(error), Err(fault)) => error@ == fault,
            _ => false,
        },
{
    match choose_runtime(environment) {
        Ok(index) => Ok(environment.all_node_runtimes[index].path.clone()),
        Err(failure) => Err(failure),
    }
}

/// The runtime a package manager is installed with: the newest complete one, or
/// else the one that is used.
pub open spec fn manager_choice(environment: Environment) -> Option<Seq<char>> {
    match (first_capable(environment.all_node_runtimes@, None, 0), environment.node) {
        (_, None) => None,
        (Some(index), Some(_)) => Some(environment.all_node_runtimes@[index as int].path@),
        (None, Some(node)) => Some(node.path@),
    }
}

/// The runtime a package manager is installed with, and the entry script of its
/// npm, where a runtime is used at all.
pub fn manager_node(environment: &Environment) -> (found: Option<(String, Option<String>)>)
    ensures
        match (found, manager_choice(*environment)) {
            (Some((path, npm_cli)), Some(wanted)) => {
                &&& path@ == wanted
                &&& text::seen(npm_cli) == (match first_capable(
                    environment.all_node_runtimes@,
                    None,
                    0,
                ) {
                    Some(index) => text::seen(
                        environment.all_node_runtimes@[index as int].npm_cli,
                    ),
                    None => text::seen(environment.node->0.npm_cli),
                })
            },
            (None, None) => true,
            _ => false,
        },
{
    let used = match &environment.node {
        Some(node) => node,
        None => {
            return None;
        },
    };
    let runtime = match find_capable(&environment.all_node_runtimes, None) {
        Some(index) => &environment.all_node_runtimes[index],
        None => used,
    };
    let npm_cli = match &runtime.npm_cli {
        Some(script) => Some(script.clone()),
        None => None,
    };
    Some((runtime.path.clone(), npm_cli))
}

/// Works out how to install, or reinstall, the selected Harness release.
pub fn install_plan(environment: &Environment, target: String) -> (plan: Result<
    InstallPlan,
    Error,
>)
    ensures
        match (plan, npm_choice(*environment)) {
            (Ok(found), Ok(index)) => {
                let runtime = environment.all_node_runtimes@[index as int];
                &&& found.node@ == runtime.path@
                &&& found.npm_cli@ == runtime.npm_cli->0@
                &&& found.target == target
                &&& found.spec@ == install::PACKAGE@ + "@"@
                    + environment.expected_harness_version@
            },
            (Err(error), Err(fault)) => error@ == fault,
            _ => false,
        },
{
    match choose_runtime(environment) {
        Ok(index) => {
            let runtime = &environment.all_node_runtimes[index];
            let npm_cli = match &runtime.npm_cli {
                Some(script) => Some(script.clone()),
                None => None,
            };
            install::plan(
                runtime.path.clone(),
                npm_cli,
                target,
                install::spec_for(&environment.expected_harness_version),
            )
        },
        Err(failure) => Err(failure),
    }
}

/// A harness is launched exactly on a machine with a usable Node, a Harness that is
/// installed and compatible, and a workspace that is not blocked; what is missing
/// first is what is said.
pub proof fn a_launch_needs_a_whole_machine(environment: Environment)
    ensures
        obstacle(environment) is None <==> environment.node is Some
            && environment.harness_installed && environment.harness_compatible
            && !environment.workspace_admission.blocked,
        environment.node is None ==> (obstacle(environment) matches Some(fault) && fault
            == Fault::NoNodeRuntime(Version { major: 22, minor: 19, patch: 0 })),
        environment.node is Some && !environment.harness_installed ==> obstacle(environment)
            == Some(Fault::HarnessNotInstalled),
        environment.node is Some && environment.harness_installed
            && environment.harness_compatible && environment.workspace_admission.blocked ==> (
        environment.workspace_admission.reason matches Some(reason) ==> obstacle(environment)
            == Some(Fault::Workspace(reason@))),
{
}

/// A profile is launched as it was asked for: the chosen Node runs the entry of the
/// machine with the resolver that was put in place, in the workspace, on the
/// loopback interface and the port that was prepared, with the patch layer exactly
/// where the profile serves Studio, and with nothing from a login shell.
pub proof fn a_launch_is_what_was_prepared(
    environment: Environment,
    profile: Seq<char>,
    check_plugin_recovery: bool,
    prepared: Preparation,
    plan: Result<LaunchPlan, Error>,
)
    requires
        planned(environment, profile, check_plugin_recovery, prepared, plan),
    ensures
        plan is Ok <==> {
            &&& obstacle(environment) is None
            &&& prepared.resolver is Ok
            &&& prepared.serves_studio is Ok
            &&& !(check_plugin_recovery && prepared.problem is Some)
        },
        plan matches Ok(launch) ==> {
            &&& environment.node matches Some(node) && launch.node@ == node.path@
            &&& launch.entry@ == environment.harness_entry@
            &&& prepared.resolver matches Ok(resolver) && launch.resolver@ == resolver@
            &&& launch.profile@ == profile
            &&& launch.workspace@ == environment.workspace@
            &&& launch.host@ == "127.0.0.1"@
            &&& launch.port == prepared.port
            &&& launch.environment@.len() == 0
            &&& prepared.serves_studio == Ok::<bool, Error>(true) ==> launch.patches@.len() == 1
                && launch.patches@[0]@ == prepared.patch@
            &&& prepared.serves_studio == Ok::<bool, Error>(false) ==> launch.patches@.len() == 0
        },
        obstacle(environment) matches Some(fault) ==> (plan matches Err(error) && error@ == fault),
        obstacle(environment) is None && prepared.resolver is Ok && prepared.serves_studio is Ok
            && check_plugin_recovery ==> (prepared.problem matches Some(problem) ==> (
        plan matches Err(error) && error@ == Fault::Plugin(problem@))),
{
    if let Ok(launch) = plan {
        let shown = text::texts(launch.patches@);
        assert(shown.len() == launch.patches@.len());
        if launch.patches@.len() > 0 {
            assert(shown[0] == launch.patches@[0]@);
        }
    }
}

/// A runtime is new enough from 22.19.0 on, and complete where its own npm works.
pub proof fn a_runtime_is_new_enough_from_there_on(runtime: NodeInstallation)
    ensures
        supported(runtime) <==> runtime.version.major > 22 || runtime.version.major == 22
            && runtime.version.minor >= 19,
        capable(runtime) <==> supported(runtime) && runtime.npm_cli is Some,
{
}

/// npm is driven by the selected runtime where that is complete; else by the first
/// complete one of those found; and where none is, what is missing is said: a
/// runtime that is new enough, or an npm that works.
pub proof fn npm_is_driven_by_the_selected_runtime_where_it_can(
    environment: Environment,
    at: int,
)
    ensures
        ({
            let all = environment.all_node_runtimes@;
            let choice = npm_choice(environment);
            &&& environment.node matches Some(node) ==> (0 <= at < all.len() && capable(all[at])
                && all[at].path@ == node.path@ ==> choice is Ok && choice->Ok_0 < all.len()
                && all[choice->Ok_0 as int].path@ == node.path@)
            &&& choice matches Ok(index) ==> index < all.len() && capable(all[index as int])
            &&& (choice matches Ok(index) && (environment.node is None || all[index as int].path@
                != environment.node->0.path@)) ==> forall|i: int|
                0 <= i < choice->Ok_0 ==> !capable(#[trigger] all[i])
            &&& choice == Err::<nat, Fault>(Fault::NpmMissing) ==> forall|i: int|
                0 <= i < all.len() ==> !capable(#[trigger] all[i])
            &&& 0 <= at < all.len() && supported(all[at]) ==> !(choice matches Err(
                Fault::NoNodeRuntime(_),
            ))
            &&& (forall|i: int| 0 <= i < all.len() ==> !supported(#[trigger] all[i]))
                ==> choice matches Err(Fault::NoNodeRuntime(_))
        }),
{
    let all = environment.all_node_runtimes@;
    lemma_first_capable(all, None, 0);
    if let Some(node) = environment.node {
        lemma_first_capable(all, Some(node.path@), 0);
    }
    if 0 <= at < all.len() && supported(all[at]) {
        assert(supported(all[at]));
    }
}

/// A package manager is installed with the first complete runtime found, with the
/// one that is used where none is, and not at all where none is used.
pub proof fn a_package_manager_is_installed_with_a_complete_runtime(
    environment: Environment,
    at: int,
)
    ensures
        ({
            let all = environment.all_node_runtimes@;
            let choice = manager_choice(environment);
            &&& choice is Some <==> environment.node is Some
            &&& environment.node is Some && 0 <= at < all.len() && capable(all[at]) && (forall|
                i: int,
            |
                0 <= i < at ==> !capable(#[trigger] all[i])) ==> choice == Some(all[at].path@)
            &&& (environment.node matches Some(node) && (forall|i: int|
                0 <= i < all.len() ==> !capable(#[trigger] all[i]))) ==> choice == Some(
                environment.node->0.path@,
            )
        }),
{
    let all = environment.all_node_runtimes@;
    lemma_first_capable(all, None, 0);
    if let Some(index) = first_capable(all, None, 0) {
        if 0 <= at < all.len() && capable(all[at]) && (forall|i: int|
            0 <= i < at ==> !capable(#[trigger] all[i])) {
            assert(index <= at);
            assert(capable(all[index as int]));
        }
    }
}

/// A text that is known is shown as it is, and what stands for it only where it is
/// not.
pub proof fn what_is_known_is_shown(text: Seq<char>, otherwise: Seq<char>)
    ensures
        known(Some(text), otherwise) == text,
        known(None, otherwise) == otherwise,
{
}

/// What stands in the way of a launch is said with what was found and what was
/// expected; what is not known of it is called unknown.
pub proof fn what_stands_in_the_way_is_said(environment: Environment)
    requires
        environment.node is Some,
        environment.harness_installed,
    ensures
        !environment.harness_compatible ==> obstacle(environment) == Some(
            Fault::Install(
                "the installed Harness runtime is "@ + (match environment.harness_version {
                    Some(version) => version@,
                    None => "unknown"@,
                }) + ", but DSH Studio requires "@ + environment.expected_harness_version@
                    + "; reinstall it from the Environment panel"@,
            ),
        ),
        environment.harness_compatible && environment.workspace_admission.blocked ==> obstacle(
            environment,
        ) == Some(
            Fault::Workspace(
                match environment.workspace_admission.reason {
                    Some(reason) => reason@,
                    None => "the workspace is not safe to use"@,
                },
            ),
        ),
{
}

} // verus!
