//! The package manager plugins are installed with, and the profile changes it
//! makes.
//!
//! `dsh plugin` forwards to pnpm and gives up if pnpm is not on PATH; a person
//! who installed a desktop app has not agreed to go and install a package manager
//! first. So the shell keeps one under its own data directory and puts it on the
//! PATH of that one child process.
use vstd::prelude::*;

use crate::command;
use crate::command::{CommandLine, Exit, Invocation};
use crate::confirmation;
use crate::error::{Error, Fault};
use crate::harness;
use crate::harness::Environment;
use crate::install;
use crate::install::InstallPlan;
use crate::json;
use crate::json::{Document, Json};
use crate::node;
use crate::package;
use crate::paths;
use crate::paths::{Location, Place};
use crate::plugins;
use crate::plugins::Change;
use crate::text;
use crate::text::Class;

verus! {

/// How long a package-manager command may be silent, in milliseconds.
pub const COMMAND_IDLE_TIMEOUT: u64 = 120_000;

/// How long a package-manager command may run, in milliseconds.
pub const COMMAND_TOTAL_TIMEOUT: u64 = 1_200_000;

/// How long the rest of a package-manager command's output is waited for, in
/// milliseconds.
pub const PIPE_DRAIN_TIMEOUT: u64 = 2_000;

/// The store a line of pnpm's older marker names, if it names one.
pub open spec fn store_in_line(line: Seq<char>) -> Option<Seq<char>> {
    let shown = text::trimmed(line, Class::White);
    if text::begins(shown, "storeDir:"@) {
        let value = text::trimmed(
            text::trimmed(shown.skip("storeDir:"@.len() as int), Class::White),
            Class::Either('\'', '"'),
        );
        if value.len() == 0 {
            None
        } else {
            Some(value)
        }
    } else {
        None
    }
}

/// The store the first line that names one names.
pub open spec fn store_in_lines(lines: Seq<Seq<char>>) -> Option<Seq<char>>
    decreases lines.len(),
{
    if lines.len() == 0 {
        None
    } else {
        match store_in_line(lines[0]) {
            Some(store) => Some(store),
            None => store_in_lines(lines.drop_first()),
        }
    }
}

/// The store pnpm recorded in a profile, if it did. Newer releases write their
/// marker as JSON, older ones as YAML.
pub open spec fn store_in(marker: Option<Seq<char>>) -> Option<Seq<char>> {
    match marker {
        Some(raw) => {
            let exact = match install::read_document(Some(raw)) {
                Some(document) => document.text_at("storeDir"@),
                None => None,
            };
            match exact {
                Some(store) => Some(store),
                None => store_in_lines(text::text_lines(raw)),
            }
        },
        None => None,
    }
}

/// The store a line of pnpm's older marker names, if it names one.
fn line_store(line: &str) -> (store: Option<String>)
    ensures
        text::seen(store) == store_in_line(line@),
{
    let shown = text::trim(line, Class::White);
    match text::strip_prefix(&shown, "storeDir:") {
        Some(rest) => {
            let value = text::trim(&text::trim(&rest, Class::White), Class::Either('\'', '"'));
            if text::same(&value, "") {
                proof {
                    reveal_strlit("");
                }
                None
            } else {
                proof {
                    reveal_strlit("");
                    assert(value@.len() == 0 ==> value@ =~= ""@);
                }
                Some(value)
            }
        },
        None => None,
    }
}

/// The store pnpm recorded in a profile, if it did.
pub fn recorded_store(marker: &Option<String>) -> (store: Option<String>)
    ensures
        text::seen(store) == store_in(text::seen(*marker)),
{
    let raw = match marker {
        Some(raw) => raw,
        None => {
            return None;
        },
    };
    if let Some(document) = install::read_json(marker) {
        if let Some(store) = document.text_at("storeDir") {
            return Some(store);
        }
    }
    let lines = text::lines(raw);
    let ghost all = text::texts(lines@);
    assert(all.len() == lines@.len());
    let mut index: usize = 0;
    assert(all.skip(0) =~= all);
    while index < lines.len()
        invariant
            index <= lines@.len(),
            all == text::texts(lines@),
            all.len() == lines@.len(),
            store_in(text::seen(*marker)) == store_in_lines(all),
            store_in_lines(all) == store_in_lines(all.skip(index as int)),
        decreases lines.len() - index,
    {
        let store = line_store(&lines[index]);
        assert(all.skip(index as int)[0] == lines@[index as int]@);
        assert(all.skip(index as int).drop_first() =~= all.skip(index + 1));
        if store.is_some() {
            return store;
        }
        index += 1;
    }
    None
}

/// The store of a profile: the one pnpm recorded where that is an absolute path,
/// else one stable store the application owns.
///
/// An existing profile stays attached to the store it is already linked to. A
/// missing or unreadable marker is a new profile.
pub fn profile_store_dir(marker: &Option<String>, absolute: bool, data: &Location) -> (place:
    Location)
    ensures
        place@ == (match store_in(text::seen(*marker)) {
            Some(store) if absolute => Place { base: store, parts: Seq::empty() },
            _ => data@.below("tools"@).below("pnpm-store"@),
        }),
{
    match recorded_store(marker) {
        Some(store) => if absolute {
            Location::root(&store)
        } else {
            paths::plugin_store_dir(data)
        },
        None => paths::plugin_store_dir(data),
    }
}

/// What was seen of a package manager below one npm project root.
#[derive(Debug)]
pub struct ManagerLook {
    pub root: Location,
    /// The package manager's `package.json`, where it can be read.
    pub manifest: Option<String>,
    /// Whether one of its launchers is a file.
    pub launcher: bool,
}

/// Where the launchers of an npm project lie.
pub open spec fn launchers(root: Place) -> Place {
    root.below("node_modules"@).below(".bin"@)
}

/// Where the launchers of a qualified package manager lie, if there is one.
pub open spec fn manager_at(look: ManagerLook) -> Option<Place> {
    let version = match install::read_document(text::seen(look.manifest)) {
        Some(document) => document.text_at("version"@),
        None => None,
    };
    if version == Some(install::PNPM_VERSION@) && look.launcher {
        Some(launchers(look.root@))
    } else {
        None
    }
}

/// A place, where there is one.
pub open spec fn place_of(location: Option<Location>) -> Option<Place> {
    match location {
        Some(found) => Some(found@),
        None => None,
    }
}

/// The names a launcher may have. Windows resolves a bare name through its list
/// of extensions; everywhere else the name is the whole story.
pub fn launcher_names(stem: &str, windows: bool) -> (names: Vec<String>)
    ensures
        text::texts(names@) == (if windows {
            seq![stem@ + ".cmd"@, stem@ + ".exe"@, stem@ + ".bat"@, stem@]
        } else {
            seq![stem@]
        }),
{
    let mut names: Vec<String> = Vec::new();
    if windows {
        names.push(text::join2(stem, ".cmd"));
        names.push(text::join2(stem, ".exe"));
        names.push(text::join2(stem, ".bat"));
    }
    names.push(stem.to_owned());
    assert(text::texts(names@) =~= (if windows {
        seq![stem@ + ".cmd"@, stem@ + ".exe"@, stem@ + ".bat"@, stem@]
    } else {
        seq![stem@]
    }));
    names
}

/// Where the launchers of an npm project lie.
pub fn launcher_dir(root: &Location) -> (place: Location)
    ensures
        place@ == launchers(root@),
{
    root.below("node_modules").below(".bin")
}

/// A qualified package manager below one npm project root: exactly the verified
/// release, with a launcher of its own.
pub fn manager_in(look: &ManagerLook) -> (place: Option<Location>)
    ensures
        place_of(place) == manager_at(*look),
{
    let version = install::pnpm_version(&look.manifest);
    if install::is_text(&version, install::PNPM_VERSION) && look.launcher {
        Some(launcher_dir(&look.root))
    } else {
        None
    }
}

/// Where the launchers of the package manager lie that is used, if there is one:
/// the separate tools come first, so that a repair of the Harness cannot interrupt
/// a profile operation; else the one that came with the Harness.
pub open spec fn managed_at(tools: ManagerLook, harness: ManagerLook) -> Option<Place> {
    match manager_at(tools) {
        Some(place) => Some(place),
        None => manager_at(harness),
    }
}

/// The package manager that is used, if there is one.
pub fn managed_manager(tools: &ManagerLook, harness: &ManagerLook) -> (place: Option<Location>)
    ensures
        place_of(place) == managed_at(*tools, *harness),
{
    match manager_in(tools) {
        Some(place) => Some(place),
        None => manager_in(harness),
    }
}

/// Whether the harness will find a package manager when it looks for one.
pub fn package_manager_available(tools: &ManagerLook, harness: &ManagerLook) -> (answer: bool)
    ensures
        answer == (managed_at(*tools, *harness) is Some),
{
    managed_manager(tools, harness).is_some()
}

/// Where the command of a package manager lies, from its launchers: inside the
/// verified package itself.
pub fn manager_cli_place(directory: &Location) -> (place: Option<Location>)
    ensures
        match place {
            Some(found) => directory@.parts.len() > 0 && found@ == (Place {
                base: directory@.base,
                parts: directory@.parts.drop_last(),
            }).below("pnpm/bin/pnpm.cjs"@),
            None => directory@.parts.len() == 0,
        },
{
    match directory.parent() {
        Some(parent) => Some(parent.below("pnpm/bin/pnpm.cjs")),
        None => None,
    }
}

/// The command of a package manager, given whether there is a file in its place.
pub fn manager_cli(directory: &Location, is_file: bool) -> (place: Option<Location>)
    ensures
        match place {
            Some(found) => is_file && directory@.parts.len() > 0 && found@ == (Place {
                base: directory@.base,
                parts: directory@.parts.drop_last(),
            }).below("pnpm/bin/pnpm.cjs"@),
            None => !is_file || directory@.parts.len() == 0,
        },
{
    if is_file {
        manager_cli_place(directory)
    } else {
        None
    }
}

/// What is logged before a package manager is installed.
pub fn manager_notice() -> (line: String)
    ensures
        line@ == "installing the verified plugin package manager pnpm "@
            + install::PNPM_VERSION@,
{
    text::join2("installing the verified plugin package manager pnpm ", install::PNPM_VERSION)
}

/// How to install the verified package manager with the given runtime.
pub fn manager_plan(node: String, npm_cli: Option<String>, tools: String) -> (planned: Result<
    InstallPlan,
    Error,
>)
    ensures
        match (planned, npm_cli) {
            (Ok(plan), Some(cli)) => plan.node == node && plan.npm_cli == cli && plan.target
                == tools && plan.spec@ == install::PNPM_SPEC@,
            (Err(error), None) => error@ == Fault::NpmMissing,
            _ => false,
        },
{
    install::plan(node, npm_cli, tools, install::PNPM_SPEC.to_owned())
}

/// The package manager after it was installed.
pub fn installed_manager(found: Option<Location>) -> (place: Result<Location, Error>)
    ensures
        match (place, found) {
            (Ok(used), Some(there)) => used == there,
            (Err(error), None) => error@ == Fault::Plugin(
                "the package manager installed but left no executable behind"@,
            ),
            _ => false,
        },
{
    match found {
        Some(place) => Ok(place),
        None => Err(
            Error::Plugin(
                "the package manager installed but left no executable behind".to_owned(),
            ),
        ),
    }
}

/// Refuses anything that is not one package.
pub fn check_spec(spec: &str) -> (checked: Result<(), Error>)
    ensures
        match checked {
            Ok(_) => package::package_spec(spec@),
            Err(error) => !package::package_spec(spec@) && error@ == Fault::Plugin(
                spec@ + " is not a package name this panel will pass on"@,
            ),
        },
{
    if package::is_package_spec(spec) {
        Ok(())
    } else {
        Err(Error::Plugin(text::join2(spec, " is not a package name this panel will pass on")))
    }
}

/// What keeps a machine from running plugin commands, if anything.
pub open spec fn run_obstacle(environment: Environment) -> Option<Fault> {
    if environment.node is None {
        Some(Fault::NoNodeRuntime(node::minimum()))
    } else if !environment.harness_installed {
        Some(Fault::HarnessNotInstalled)
    } else if !environment.harness_compatible {
        Some(
            Fault::Plugin(
                "plugins require the verified Harness runtime "@
                    + environment.expected_harness_version@
                    + "; repair it from the Environment panel first"@,
            ),
        )
    } else {
        None
    }
}

/// Whether a machine can run plugin commands.
pub fn check_run(environment: &Environment) -> (checked: Result<(), Error>)
    ensures
        match checked {
            Ok(_) => run_obstacle(*environment) is None,
            Err(error) => run_obstacle(*environment) == Some(error@),
        },
{
    if environment.node.is_none() {
        return Err(Error::NoNodeRuntime { minimum: node::minimum_supported() });
    }
    if !environment.harness_installed {
        return Err(Error::HarnessNotInstalled);
    }
    if !environment.harness_compatible {
        return Err(
            Error::Plugin(
                text::join3(
                    "plugins require the verified Harness runtime ",
                    &environment.expected_harness_version,
                    "; repair it from the Environment panel first",
                ),
            ),
        );
    }
    Ok(())
}

/// Where a plugin command finds what it needs.
#[derive(Debug)]
pub struct Surroundings {
    /// `PATH` for the child.
    pub path: String,
    /// The registry whose metadata and integrity the review checked.
    pub registry: String,
    /// The store packages are linked from.
    pub store: String,
    /// The directory the child runs in.
    pub directory: String,
}

/// One `dsh plugin` invocation against a profile.
pub open spec fn plugin_invocation(
    node: Seq<char>,
    entry: Seq<char>,
    profile: Seq<char>,
    arguments: Seq<Seq<char>>,
    around: Surroundings,
) -> Invocation {
    Invocation {
        program: node,
        arguments: seq![entry, "plugin"@, "--profile"@, profile] + arguments,
        directory: Some(around.directory@),
        environment: seq![
            ("PATH"@, around.path@),
            ("npm_config_registry"@, around.registry@),
            ("npm_config_store_dir"@, around.store@),
        ],
    }
}

/// One `dsh plugin` invocation against a profile.
pub fn run_command(
    node: &str,
    entry: &str,
    profile: &str,
    args: &Vec<String>,
    around: &Surroundings,
) -> (line: CommandLine)
    ensures
        line@ == plugin_invocation(node@, entry@, profile@, text::texts(args@), *around),
{
    let mut arguments: Vec<String> = Vec::new();
    command::argue(&mut arguments, entry);
    command::argue(&mut arguments, "plugin");
    command::argue(&mut arguments, "--profile");
    command::argue(&mut arguments, profile);
    let ghost front = text::texts(arguments@);
    assert(front =~= seq![entry@, "plugin"@, "--profile"@, profile@]);
    let ghost rest = text::texts(args@);
    assert(rest.len() == args@.len());
    let mut index: usize = 0;
    assert(front + rest.take(0) =~= front);
    while index < args.len()
        invariant
            index <= args@.len(),
            rest == text::texts(args@),
            rest.len() == args@.len(),
            text::texts(arguments@) == front + rest.take(index as int),
        decreases args.len() - index,
    {
        command::argue(&mut arguments, &args[index]);
        assert(front + rest.take(index + 1) =~= (front + rest.take(index as int)).push(
            rest[index as int],
        ));
        index += 1;
    }
    assert(rest.take(index as int) =~= rest);
    let mut environment: Vec<(String, String)> = Vec::new();
    command::set(&mut environment, "PATH", &around.path);
    command::set(&mut environment, "npm_config_registry", &around.registry);
    command::set(&mut environment, "npm_config_store_dir", &around.store);
    assert(command::variables(environment@) =~= seq![
        ("PATH"@, around.path@),
        ("npm_config_registry"@, around.registry@),
        ("npm_config_store_dir"@, around.store@),
    ]);
    CommandLine {
        program: node.to_owned(),
        arguments,
        directory: Some(around.directory.clone()),
        environment,
    }
}

/// The arguments of a change to a profile.
pub fn change_arguments(change: Change, spec: &str) -> (args: Vec<String>)
    ensures
        text::texts(args@) == seq![change.word(), spec@],
        change is Add ==> text::texts(args@) == seq!["add"@, spec@],
        change is Remove ==> text::texts(args@) == seq!["remove"@, spec@],
{
    let mut args: Vec<String> = Vec::new();
    command::argue(&mut args, change.verb());
    command::argue(&mut args, spec);
    assert(text::texts(args@) =~= seq![change.word(), spec@]);
    args
}

/// What comes of a plugin command that ended that way. Every line went to the
/// console, but an exit code on its own gives the person who pressed the button
/// nothing to act on, so the failure carries its own reason.
pub fn conclude_run(exit: &Exit, stdout: &Vec<String>, stderr: &Vec<String>) -> (checked: Result<
    (),
    Error,
>)
    ensures
        match checked {
            Ok(_) => exit.success,
            Err(error) => !exit.success && error@ == Fault::Plugin(
                match plugins::reason(text::texts(stdout@), text::texts(stderr@)) {
                    Some(reason) => "the plugin command failed ("@ + exit.shown@ + "): "@ + reason,
                    None => "the plugin command exited with "@ + exit.shown@
                        + " without saying why"@,
                },
            ),
        },
{
    if exit.success {
        return Ok(());
    }
    Err(
        Error::Plugin(
            match plugins::package_manager_reason(stdout, stderr) {
                Some(reason) => text::join4(
                    "the plugin command failed (",
                    &exit.shown,
                    "): ",
                    &reason,
                ),
                None => text::join3(
                    "the plugin command exited with ",
                    &exit.shown,
                    " without saying why",
                ),
            },
        ),
    )
}

/// What keeps the dependencies of a package from being checked, if anything.
pub open spec fn preflight_obstacle(spec: Seq<char>, environment: Environment) -> Option<Fault> {
    if package::split(spec).1 is None {
        Some(Fault::Plugin("dependency preflight requires an exact package version"@))
    } else if environment.node is None {
        Some(Fault::NoNodeRuntime(node::minimum()))
    } else if !environment.harness_installed || !environment.harness_compatible {
        Some(Fault::Plugin("dependency preflight requires a verified Harness runtime"@))
    } else {
        None
    }
}

/// Whether the dependencies of a package can be checked: its name and its exact
/// version, or why they cannot.
pub fn check_preflight(spec: &str, environment: &Environment) -> (checked: Result<
    (String, String),
    Error,
>)
    ensures
        match checked {
            Ok((name, version)) => preflight_obstacle(spec@, *environment) is None && name@
                == package::split(spec@).0 && Some(version@) == package::split(spec@).1,
            Err(error) => preflight_obstacle(spec@, *environment) == Some(error@),
        },
{
    let (name, range) = package::split_spec(spec);
    let version = match range {
        Some(version) => version,
        None => {
            return Err(
                Error::Plugin(
                    "dependency preflight requires an exact package version".to_owned(),
                ),
            );
        },
    };
    if environment.node.is_none() {
        return Err(Error::NoNodeRuntime { minimum: node::minimum_supported() });
    }
    if !environment.harness_installed || !environment.harness_compatible {
        return Err(
            Error::Plugin("dependency preflight requires a verified Harness runtime".to_owned()),
        );
    }
    Ok((name, version))
}

/// The command of the package manager that checks dependencies, or why there is
/// none.
pub fn preflight_cli(cli: Option<Location>) -> (place: Result<Location, Error>)
    ensures
        match (place, cli) {
            (Ok(used), Some(there)) => used == there,
            (Err(error), None) => error@ == Fault::Plugin(
                "the verified pnpm package has no command entry point"@,
            ),
            _ => false,
        },
{
    match cli {
        Some(place) => Ok(place),
        None => Err(
            Error::Plugin("the verified pnpm package has no command entry point".to_owned()),
        ),
    }
}

/// The arguments with which the package manager resolves a project without
/// running lifecycle scripts.
pub open spec fn preflight_arguments(pnpm: Seq<char>, project: Seq<char>) -> Seq<Seq<char>> {
    seq![
        pnpm,
        "--dir"@,
        project,
        "install"@,
        "--lockfile-only"@,
        "--ignore-scripts"@,
        "--reporter=append-only"@,
        "--config.auto-install-peers=false"@,
    ]
}

/// Resolves the complete dependency graph of a disposable project.
///
/// Registry metadata alone proves only that the selected package exists. A
/// lockfile-only install catches a dependency that was unpublished, made private
/// or is absent from a mirror, without writing to the user's profile.
pub fn preflight_command(node: &str, pnpm: &str, project: &str, registry: &str, store: &str) -> (
    line: CommandLine)
    ensures
        line@ == (Invocation {
            program: node@,
            arguments: preflight_arguments(pnpm@, project@),
            directory: None,
            environment: seq![
                ("CI"@, "true"@),
                ("npm_config_registry"@, registry@),
                ("npm_config_store_dir"@, store@),
            ],
        }),
{
    let mut arguments: Vec<String> = Vec::new();
    command::argue(&mut arguments, pnpm);
    command::argue(&mut arguments, "--dir");
    command::argue(&mut arguments, project);
    command::argue(&mut arguments, "install");
    command::argue(&mut arguments, "--lockfile-only");
    command::argue(&mut arguments, "--ignore-scripts");
    command::argue(&mut arguments, "--reporter=append-only");
    command::argue(&mut arguments, "--config.auto-install-peers=false");
    assert(text::texts(arguments@) =~= preflight_arguments(pnpm@, project@));
    let mut environment: Vec<(String, String)> = Vec::new();
    command::set(&mut environment, "CI", "true");
    command::set(&mut environment, "npm_config_registry", registry);
    command::set(&mut environment, "npm_config_store_dir", store);
    assert(command::variables(environment@) =~= seq![
        ("CI"@, "true"@),
        ("npm_config_registry"@, registry@),
        ("npm_config_store_dir"@, store@),
    ]);
    CommandLine { program: node.to_owned(), arguments, directory: None, environment }
}

/// What is logged before dependencies are checked.
pub fn preflight_notice(spec: &str) -> (line: String)
    ensures
        line@ == "checking every dependency required by "@ + spec@,
{
    text::join2("checking every dependency required by ", spec)
}

/// What comes of checking the dependencies of a package.
pub fn conclude_preflight(
    spec: &str,
    exit: &Exit,
    stdout: &Vec<String>,
    stderr: &Vec<String>,
) -> (checked: Result<(), Error>)
    ensures
        match checked {
            Ok(_) => exit.success,
            Err(error) => !exit.success && error@ == Fault::Plugin(
                spec@ + " cannot be installed because its dependency graph did not resolve: "@ + (
                match plugins::reason(text::texts(stdout@), text::texts(stderr@)) {
                    Some(reason) => reason,
                    None => "pnpm exited with "@ + exit.shown@ + " without saying why"@,
                }) + ". The profile was not changed"@,
            ),
        },
{
    if exit.success {
        return Ok(());
    }
    let reason = match plugins::package_manager_reason(stdout, stderr) {
        Some(reason) => reason,
        None => text::join3("pnpm exited with ", &exit.shown, " without saying why"),
    };
    Err(
        Error::Plugin(
            text::join4(
                spec,
                " cannot be installed because its dependency graph did not resolve: ",
                &reason,
                ". The profile was not changed",
            ),
        ),
    )
}

/// How many random bytes name a disposable project.
pub const NONCE_BYTES: usize = 8;

/// The name of a disposable project, from the process and what chance brought.
pub fn project_name_from(process: u32, random: &Vec<u8>) -> (name: String)
    ensures
        name@ == text::decimal(process as nat) + "-"@ + text::hexadecimal(random@),
{
    text::join3(
        &text::number_text(process as u64),
        "-",
        &text::hexadecimal_text(random),
    )
}

/// A fresh name for a disposable project of this process.
pub fn project_name(process: u32) -> (named: Result<String, Error>)
    ensures
        match named {
            Ok(name) => exists|random: Seq<u8>|
                random.len() == NONCE_BYTES && name@ == text::decimal(process as nat) + "-"@
                    + #[trigger] text::hexadecimal(random),
            Err(error) => error@ == Fault::Plugin(
                "isolated dependency project could not be named safely"@,
            ),
        },
{
    match confirmation::random_bytes(NONCE_BYTES) {
        Some(random) => Ok(project_name_from(process, &random)),
        None => Err(
            Error::Plugin("isolated dependency project could not be named safely".to_owned()),
        ),
    }
}

/// The manifest of a disposable project that depends on one package.
pub open spec fn project_document(name: Seq<char>, version: Seq<char>) -> Document {
    Document::Object(
        seq![
            ("dependencies"@, Document::Object(seq![(name, Document::Text(version))])),
            ("name"@, Document::Text("dsh-studio-plugin-preflight"@)),
            (
                "pnpm"@,
                Document::Object(seq![("onlyBuiltDependencies"@, Document::List(Seq::empty()))]),
            ),
            ("private"@, Document::Bool(true)),
            ("version"@, Document::Text("0.0.0"@)),
        ],
    )
}

/// An object with one member.
fn single(name: &str, value: Json) -> (object: Json)
    ensures
        object@ == Document::Object(seq![(name@, value@)]),
{
    let mut members: Vec<(String, Json)> = Vec::new();
    members.push((name.to_owned(), value));
    let object = Json::Object(members);
    proof {
        reveal_with_fuel(json::document, 2);
        assert(object@->Object_0 =~= seq![(name@, value@)]);
    }
    object
}

/// The manifest of a disposable project can be printed, and reads again as it is.
proof fn lemma_project(name: Seq<char>, version: Seq<char>)
    ensures
        json::ordered(project_document(name, version)),
        json::signed(project_document(name, version)),
        json::integral(project_document(name, version), 100),
{
    reveal_strlit("dependencies");
    reveal_strlit("name");
    reveal_strlit("pnpm");
    reveal_strlit("private");
    reveal_strlit("version");
    reveal_with_fuel(text::earlier, 3);
    reveal_with_fuel(json::ordered, 4);
    reveal_with_fuel(json::signed, 4);
    reveal_with_fuel(json::integral, 4);
    let pnpm = "pnpm"@;
    let private = "private"@;
    assert(pnpm.drop_first()[0] == 'n' && private.drop_first()[0] == 'r');
    assert(text::earlier(pnpm, private));
    let members = project_document(name, version)->Object_0;
    let one = members[0].1->Object_0;
    assert(json::ordered(one[0].1));
    assert(json::signed(one[0].1));
    assert(json::integral(one[0].1, 98));
    let two = members[2].1->Object_0;
    assert(json::ordered(two[0].1));
    assert(json::signed(two[0].1));
    assert(json::integral(two[0].1, 98));
    assert(json::ascending(members));
    assert(json::ascending(one));
    assert(json::ascending(two));
    assert(json::ordered(members[0].1) && json::ordered(members[2].1));
    assert(json::signed(members[0].1) && json::signed(members[2].1));
    assert(json::integral(members[0].1, 99) && json::integral(members[2].1, 99));
}

/// The manifest of a disposable project that depends on one package. What is
/// written is read again as it was.
pub fn project_manifest(name: &str, version: &str) -> (text: String)
    ensures
        text@ == json::printed_pretty(project_document(name@, version@)),
        json::reads_as(text@, project_document(name@, version@)),
        project_document(name@, version@).text_within("dependencies"@, name@) == Some(version@),
{
    let mut members: Vec<(String, Json)> = Vec::new();
    members.push(("dependencies".to_owned(), single(name, Json::Text(version.to_owned()))));
    members.push(("name".to_owned(), Json::Text("dsh-studio-plugin-preflight".to_owned())));
    members.push(("pnpm".to_owned(), single("onlyBuiltDependencies", Json::List(Vec::new()))));
    members.push(("private".to_owned(), Json::Bool(true)));
    members.push(("version".to_owned(), Json::Text("0.0.0".to_owned())));
    let json = Json::Object(members);
    let ghost whole = project_document(name@, version@);
    proof {
        reveal_with_fuel(json::document, 2);
        assert(json@->Object_0[2].1->Object_0[0].1->List_0 =~= Seq::<Document>::empty());
        assert(json@->Object_0[2].1->Object_0 =~= whole->Object_0[2].1->Object_0);
        assert(json@->Object_0 =~= whole->Object_0);
        lemma_project(name@, version@);
        json::lemma_integral_settled(whole, 100);
        assert(whole->Object_0[0].0 == "dependencies"@);
    }
    json.print_pretty()
}

/// What is said when a disposable project cannot be set up.
#[derive(Clone, Copy, Debug, PartialEq, Eq, Structural)]
pub enum ProjectStep {
    /// The directory of all such projects could not be created.
    Root,
    /// The project's own directory could not be created.
    Create,
    /// The manifest could not be written.
    Write,
}

/// What is said when a disposable project cannot be set up.
pub fn project_failure(step: ProjectStep, cause: &str) -> (error: Error)
    ensures
        error@ == Fault::Plugin(
            (match step {
                ProjectStep::Root => "dependency preflight directory could not be created: "@,
                ProjectStep::Create => "isolated dependency project could not be created: "@,
                ProjectStep::Write => "dependency preflight manifest could not be written: "@,
            }) + cause@,
        ),
{
    let what = match step {
        ProjectStep::Root => "dependency preflight directory could not be created: ",
        ProjectStep::Create => "isolated dependency project could not be created: ",
        ProjectStep::Write => "dependency preflight manifest could not be written: ",
    };
    Error::Plugin(text::join2(what, cause))
}

/// Whether an archive is still the one that was reviewed.
pub fn check_reviewed(integrity: &str, expected: &str) -> (checked: Result<(), Error>)
    ensures
        match checked {
            Ok(_) => integrity@ == expected@,
            Err(error) => integrity@ != expected@ && error@ == Fault::Plugin(
                "the plugin archive changed after it was reviewed; review it again"@,
            ),
        },
{
    if text::same(integrity, expected) {
        Ok(())
    } else {
        Err(
            Error::Plugin(
                "the plugin archive changed after it was reviewed; review it again".to_owned(),
            ),
        )
    }
}

/// What kind of change is made to a profile.
#[derive(Clone, Copy, Debug, PartialEq, Eq, Structural)]
pub enum Mutation {
    /// A package is added or removed, and what follows from it is recorded.
    Change,
    /// An archive is installed; `fresh` says whether the copy of it was made for
    /// this import.
    Import { fresh: bool },
}

/// The next thing to do in a change to a profile.
#[derive(Debug)]
pub enum ChangeStep {
    /// Save the profile, so that it can be put back.
    Begin,
    /// Run the command that changes it.
    Run,
    /// Switch off again what the user had switched off: the harness has just
    /// rebuilt the layer list from what is installed.
    Apply,
    /// Record what follows from the change.
    Finalize,
    /// Keep the change.
    Commit,
    /// Put the profile back, and take the copy of the archive away where
    /// `discard` says so.
    Rollback { failure: Error, discard: bool },
    /// Report this.
    Done(Result<(), Error>),
}

/// Whether one step of a change follows another, given how it came out.
pub open spec fn change_follows(
    step: ChangeStep,
    outcome: Result<(), Error>,
    kind: Mutation,
    next: ChangeStep,
) -> bool {
    match (step, outcome) {
        (ChangeStep::Begin, Ok(_)) => next is Run,
        (ChangeStep::Begin, Err(failure)) => next == ChangeStep::Done(Err(failure)),
        (ChangeStep::Run, Ok(_)) => next is Apply,
        (ChangeStep::Run, Err(failure)) => next == (ChangeStep::Rollback {
            failure,
            discard: kind == (Mutation::Import { fresh: true }),
        }),
        (ChangeStep::Apply, Ok(_)) => if kind is Change {
            next is Finalize
        } else {
            next is Commit
        },
        (ChangeStep::Apply, Err(failure)) => next == (ChangeStep::Rollback {
            failure,
            discard: false,
        }),
        (ChangeStep::Finalize, Ok(_)) => next is Commit,
        (ChangeStep::Finalize, Err(failure)) => next == (ChangeStep::Rollback {
            failure,
            discard: false,
        }),
        (ChangeStep::Commit, kept) => next == ChangeStep::Done(kept),
        (ChangeStep::Rollback { failure, .. }, Ok(_)) => next == ChangeStep::Done(Err(failure)),
        (
            ChangeStep::Rollback { failure, .. },
            Err(rollback),
        ) => next matches ChangeStep::Done(Err(error)) && error@ == Fault::Plugin(
            failure@.message() + "; automatic profile rollback also failed: "@
                + rollback@.message(),
        ),
        (ChangeStep::Done(_), _) => next == step,
    }
}

/// What comes after a step of a change to a profile, given how it came out.
pub fn next_change(step: ChangeStep, outcome: Result<(), Error>, kind: Mutation) -> (next:
    ChangeStep)
    ensures
        change_follows(step, outcome, kind, next),
{
    match (step, outcome) {
        (ChangeStep::Begin, Ok(_)) => ChangeStep::Run,
        (ChangeStep::Begin, Err(failure)) => ChangeStep::Done(Err(failure)),
        (ChangeStep::Run, Ok(_)) => ChangeStep::Apply,
        (ChangeStep::Run, Err(failure)) => {
            // Only ever a copy this import made. The same archive may be what an
            // existing profile was installed from.
            let discard = match kind {
                Mutation::Import { fresh } => fresh,
                Mutation::Change => false,
            };
            ChangeStep::Rollback { failure, discard }
        },
        (ChangeStep::Apply, Ok(_)) => match kind {
            Mutation::Change => ChangeStep::Finalize,
            Mutation::Import { fresh: _ } => ChangeStep::Commit,
        },
        (ChangeStep::Apply, Err(failure)) => ChangeStep::Rollback { failure, discard: false },
        (ChangeStep::Finalize, Ok(_)) => ChangeStep::Commit,
        (ChangeStep::Finalize, Err(failure)) => ChangeStep::Rollback { failure, discard: false },
        (ChangeStep::Commit, kept) => ChangeStep::Done(kept),
        (ChangeStep::Rollback { failure, discard: _ }, Ok(_)) => ChangeStep::Done(Err(failure)),
        (ChangeStep::Rollback { failure, discard: _ }, Err(rollback)) => ChangeStep::Done(
            Err(
                Error::Plugin(
                    text::join3(
                        &failure.message(),
                        "; automatic profile rollback also failed: ",
                        &rollback.message(),
                    ),
                ),
            ),
        ),
        (ChangeStep::Done(reported), _) => ChangeStep::Done(reported),
    }
}

/// How many steps of a change may still come.
pub open spec fn change_steps_left(step: ChangeStep) -> int {
    match step {
        ChangeStep::Begin => 6,
        ChangeStep::Run => 5,
        ChangeStep::Apply => 4,
        ChangeStep::Finalize => 3,
        ChangeStep::Commit => 2,
        ChangeStep::Rollback { .. } => 1,
        ChangeStep::Done(_) => 0,
    }
}

/// A change to a profile ends.
pub proof fn a_change_ends(
    step: ChangeStep,
    outcome: Result<(), Error>,
    kind: Mutation,
    next: ChangeStep,
)
    requires
        change_follows(step, outcome, kind, next),
        !(step is Done),
    ensures
        0 <= change_steps_left(next) < change_steps_left(step),
{
}

/// Once a change has begun, whatever fails before it is kept puts the profile
/// back, and the failure is what is reported.
pub proof fn a_failed_change_is_rolled_back(
    step: ChangeStep,
    failure: Error,
    kind: Mutation,
    next: ChangeStep,
    after: ChangeStep,
)
    requires
        step is Run || step is Apply || step is Finalize,
        change_follows(step, Err(failure), kind, next),
        change_follows(next, Ok(()), kind, after),
    ensures
        next matches ChangeStep::Rollback { failure: same, .. } && same == failure,
        after == ChangeStep::Done(Err(failure)),
{
}

/// A change is reported as made only where it was kept, and it is kept only where
/// every step before went well.
pub proof fn only_a_kept_change_is_reported(
    step: ChangeStep,
    outcome: Result<(), Error>,
    kind: Mutation,
    next: ChangeStep,
)
    requires
        change_follows(step, outcome, kind, next),
        !(step is Done),
    ensures
        next == ChangeStep::Done(Ok(())) ==> step is Commit && outcome == Ok::<(), Error>(()),
        next is Commit ==> outcome is Ok && (step is Finalize || step is Apply
            && kind is Import),
{
    if let Ok(unit) = outcome {
        assert(unit == ());
    }
}

/// What a change asks of the package manager: to add a package where one is added,
/// to remove it where one is removed, and nothing but that one package.
pub proof fn a_change_asks_for_what_it_does(
    node: Seq<char>,
    entry: Seq<char>,
    profile: Seq<char>,
    spec: Seq<char>,
    around: Surroundings,
    change: Change,
)
    ensures
        ({
            let run = plugin_invocation(node, entry, profile, seq![change.word(), spec], around);
            &&& run.program == node
            &&& run.arguments == seq![
                entry,
                "plugin"@,
                "--profile"@,
                profile,
                if change is Add {
                    seq!['a', 'd', 'd']
                } else {
                    seq!['r', 'e', 'm', 'o', 'v', 'e']
                },
                spec,
            ]
            &&& run.directory == Some(around.directory@)
        }),
{
    plugins::a_change_goes_by_its_word(change);
    let run = plugin_invocation(node, entry, profile, seq![change.word(), spec], around);
    assert(run.arguments =~= seq![
        entry,
        "plugin"@,
        "--profile"@,
        profile,
        if change is Add {
            seq!['a', 'd', 'd']
        } else {
            seq!['r', 'e', 'm', 'o', 'v', 'e']
        },
        spec,
    ]);
}

/// A plugin command sees the registry that was reviewed, the store of the profile
/// and the search path of the machine, each under the name it is read by.
pub proof fn a_plugin_command_sees_its_surroundings(
    node: Seq<char>,
    entry: Seq<char>,
    profile: Seq<char>,
    arguments: Seq<Seq<char>>,
    around: Surroundings,
)
    ensures
        ({
            let seen = plugin_invocation(node, entry, profile, arguments, around).environment;
            &&& command::value_seen(seen, "PATH"@) == Some(around.path@)
            &&& command::value_seen(seen, "npm_config_registry"@) == Some(around.registry@)
            &&& command::value_seen(seen, "npm_config_store_dir"@) == Some(around.store@)
            &&& seen.len() == 3
        }),
{
    reveal_strlit("PATH");
    reveal_strlit("npm_config_registry");
    reveal_strlit("npm_config_store_dir");
    reveal_with_fuel(command::value_seen, 4);
    assert("PATH"@.len() == 4 && "npm_config_registry"@.len() == 19
        && "npm_config_store_dir"@.len() == 20);
    let seen = plugin_invocation(node, entry, profile, arguments, around).environment;
    assert(seen.last() == ("npm_config_store_dir"@, around.store@));
    assert(seen.drop_last().last() == ("npm_config_registry"@, around.registry@));
    assert(seen.drop_last().drop_last().last() == ("PATH"@, around.path@));
}

/// Dependencies are resolved in the project alone: nothing is installed but a lock,
/// no script is run and no peer is added.
pub proof fn resolving_runs_nothing(pnpm: Seq<char>, project: Seq<char>)
    ensures
        ({
            let list = preflight_arguments(pnpm, project);
            &&& list[0] == pnpm
            &&& list[1] == "--dir"@ && list[2] == project
            &&& list[3] == "install"@
            &&& list.contains("--lockfile-only"@)
            &&& list.contains("--ignore-scripts"@)
            &&& list.contains("--config.auto-install-peers=false"@)
            &&& list.len() == 8
        }),
{
    let list = preflight_arguments(pnpm, project);
    assert(list[4] == "--lockfile-only"@);
    assert(list[5] == "--ignore-scripts"@);
    assert(list[7] == "--config.auto-install-peers=false"@);
}

/// A disposable project depends on exactly one package at exactly the version that
/// was asked for, is private and lets no dependency build anything.
pub proof fn a_disposable_project_depends_on_one_package(
    name: Seq<char>,
    version: Seq<char>,
    other: Seq<char>,
)
    ensures
        ({
            let project = project_document(name, version);
            &&& project.within("dependencies"@, name) == Some(Document::Text(version))
            &&& other != name ==> project.within("dependencies"@, other) is None
            &&& project.get("private"@) == Some(Document::Bool(true))
            &&& project.within("pnpm"@, "onlyBuiltDependencies"@) == Some(
                Document::List(Seq::empty()),
            )
            &&& project.get("scripts"@) is None
        }),
{
    reveal_strlit("dependencies");
    reveal_strlit("name");
    reveal_strlit("pnpm");
    reveal_strlit("private");
    reveal_strlit("version");
    reveal_strlit("scripts");
    reveal_with_fuel(json::member, 6);
    let members = project_document(name, version)->Object_0;
    assert("dependencies"@.len() == 12 && "name"@.len() == 4 && "pnpm"@.len() == 4
        && "private"@.len() == 7 && "version"@.len() == 7 && "scripts"@.len() == 7);
    assert("name"@[0] == 'n' && "pnpm"@[0] == 'p' && "private"@[0] == 'p' && "version"@[0] == 'v'
        && "scripts"@[0] == 's');
    let rest = members.drop_first();
    assert(rest[0] == members[1]);
    let rest = rest.drop_first();
    assert(rest[0] == members[2]);
    let rest = rest.drop_first();
    assert(rest[0] == members[3]);
    let rest = rest.drop_first();
    assert(rest[0] == members[4]);
    assert(rest.drop_first().len() == 0);
    let one = members[0].1->Object_0;
    assert(one.drop_first().len() == 0);
}

/// Plugin commands run exactly on a machine with a usable Node and a Harness that
/// is installed and compatible; what is missing first is what is said.
pub proof fn plugins_need_a_whole_machine(environment: Environment)
    ensures
        run_obstacle(environment) is None <==> environment.node is Some
            && environment.harness_installed && environment.harness_compatible,
        environment.node is None ==> run_obstacle(environment) is Some && run_obstacle(
            environment,
        )->0 is NoNodeRuntime,
        environment.node is Some && !environment.harness_installed ==> run_obstacle(environment)
            == Some(Fault::HarnessNotInstalled),
{
}

/// The dependencies of a package are checked exactly where a version was asked for
/// and the machine has a usable Node and a verified Harness.
pub proof fn checking_needs_a_version_and_a_machine(spec: Seq<char>, environment: Environment)
    ensures
        preflight_obstacle(spec, environment) is None <==> package::split(spec).1 is Some
            && environment.node is Some && environment.harness_installed
            && environment.harness_compatible,
{
}

/// A package manager is used exactly where its manifest records the one verified
/// release and it has a launcher, and then its launchers lie below its own project;
/// the separate one is preferred to the one that came with the Harness.
pub proof fn only_the_verified_package_manager_is_used(tools: ManagerLook, harness: ManagerLook)
    ensures
        manager_at(tools) is Some <==> tools.launcher && (install::read_document(
            text::seen(tools.manifest),
        ) matches Some(document) && document.text_at("version"@) == Some("11.7.0"@)),
        manager_at(tools) matches Some(place) ==> place.base == tools.root@.base && place.parts
            == tools.root@.parts.push("node_modules"@).push(".bin"@),
        manager_at(tools) is Some ==> managed_at(tools, harness) == manager_at(tools),
        manager_at(tools) is None ==> managed_at(tools, harness) == manager_at(harness),
{
}

/// The store a line of pnpm's older marker names is found behind its key, without
/// white space and quotation marks; a line with another key names none.
pub proof fn a_store_is_found_behind_its_key(line: Seq<char>, store: Seq<char>)
    requires
        store.len() > 0,
        !text::is_white(store[0]) && !text::is_white(store.last()),
        store[0] != '\'' && store[0] != '"' && store.last() != '\'' && store.last() != '"',
    ensures
        store_in_line("storeDir: "@ + store) == Some(store),
        store_in_line("storeDir: \""@ + store + "\""@) == Some(store),
        !text::begins(text::trimmed(line, Class::White), "storeDir:"@) ==> store_in_line(line)
            is None,
{
    reveal_strlit("storeDir: ");
    reveal_strlit("storeDir: \"");
    reveal_strlit("storeDir:");
    reveal_strlit("\"");
    let quotes = Class::Either('\'', '"');
    let plain = "storeDir: "@ + store;
    lemma_untrimmed(plain, Class::White);
    assert(plain =~= "storeDir:"@ + (seq![' '] + store));
    text::a_prefix_taken_away_can_be_put_back(plain, "storeDir:"@, seq![' '] + store);
    assert(plain.skip(9) =~= seq![' '] + store);
    lemma_spaced(store);
    lemma_untrimmed(store, quotes);
    let quoted = seq!['"'] + store + seq!['"'];
    let whole = "storeDir: \""@ + store + "\""@;
    assert(whole =~= "storeDir:"@ + (seq![' '] + quoted));
    lemma_untrimmed(whole, Class::White);
    text::a_prefix_taken_away_can_be_put_back(whole, "storeDir:"@, seq![' '] + quoted);
    assert(whole.skip(9) =~= seq![' '] + quoted);
    lemma_spaced(quoted);
    assert(quoted.drop_last() =~= seq!['"'] + store);
    let front = seq!['"'] + store;
    assert(front.last() == store.last());
    assert(text::trimmed_end(quoted, quotes) == text::trimmed_end(front, quotes));
    assert(text::trimmed_end(front, quotes) == front);
    assert(front.drop_first() =~= store);
    assert(text::trimmed_start(front, quotes) == text::trimmed_start(store, quotes));
}

/// A text that neither begins nor ends with a character of a class is left as it is.
proof fn lemma_untrimmed(text: Seq<char>, class: Class)
    requires
        text.len() > 0,
        !class.covers(text[0]),
        !class.covers(text.last()),
    ensures
        text::trimmed(text, class) == text,
{
}

/// A space before a text is taken away.
proof fn lemma_spaced(text: Seq<char>)
    requires
        text.len() > 0,
        !text::is_white(text[0]),
        !text::is_white(text.last()),
    ensures
        text::trimmed(seq![' '] + text, Class::White) == text,
{
    let spaced = seq![' '] + text;
    assert(spaced.last() == text.last());
    assert(text::trimmed_end(spaced, Class::White) == spaced);
    assert(spaced.drop_first() =~= text);
    assert(text::trimmed_start(spaced, Class::White) == text::trimmed_start(text, Class::White));
}

/// The store is the one pnpm recorded as JSON where it did; else the one of the
/// first line that names one; and none where no line does.
pub proof fn the_first_named_store_is_taken(
    quiet: Seq<Seq<char>>,
    line: Seq<char>,
    rest: Seq<Seq<char>>,
    raw: Seq<char>,
)
    requires
        forall|i: int| 0 <= i < quiet.len() ==> store_in_line(#[trigger] quiet[i]) is None,
    ensures
        store_in_line(line) is Some ==> store_in_lines(quiet + seq![line] + rest)
            == store_in_line(line),
        store_in_lines(quiet) is None,
        json::read(raw) matches Ok(document) ==> (document.text_at("storeDir"@) matches Some(
            store,
        ) ==> store_in(Some(raw)) == Some(store)),
        json::read(raw) is Err ==> store_in(Some(raw)) == store_in_lines(text::text_lines(raw)),
        store_in(None) is None,
    decreases quiet.len(),
{
    let whole = quiet + seq![line] + rest;
    if quiet.len() > 0 {
        let fewer = quiet.drop_first();
        assert forall|i: int| 0 <= i < fewer.len() implies store_in_line(
            #[trigger] fewer[i],
        ) is None by {
            assert(fewer[i] == quiet[i + 1]);
        }
        the_first_named_store_is_taken(fewer, line, rest, raw);
        assert(whole[0] == quiet[0]);
        assert(whole.drop_first() =~= fewer + seq![line] + rest);
        assert(store_in_line(quiet[0]) is None);
    } else {
        assert(whole[0] == line);
    }
}

/// A change that goes well is saved, run, applied, recorded where there is anything
/// to record, and kept, in this order; an archive has nothing to record.
pub proof fn a_change_goes_through_in_order(
    kind: Mutation,
    run: ChangeStep,
    apply: ChangeStep,
    after: ChangeStep,
    commit: ChangeStep,
    done: ChangeStep,
)
    requires
        change_follows(ChangeStep::Begin, Ok(()), kind, run),
        change_follows(run, Ok(()), kind, apply),
        change_follows(apply, Ok(()), kind, after),
        kind is Change ==> change_follows(after, Ok(()), kind, commit),
        kind is Import ==> commit == after,
        change_follows(commit, Ok(()), kind, done),
    ensures
        run is Run,
        apply is Apply,
        kind is Change ==> after is Finalize,
        commit is Commit,
        done matches ChangeStep::Done(outcome) && outcome is Ok,
{
}

/// A profile that could not be saved is not changed, and the failure is reported;
/// the copy of an archive is taken away only where it was made for an import whose
/// command failed.
pub proof fn nothing_is_changed_that_was_not_saved(
    step: ChangeStep,
    failure: Error,
    kind: Mutation,
    next: ChangeStep,
)
    requires
        change_follows(step, Err(failure), kind, next),
    ensures
        step is Begin ==> next == ChangeStep::Done(Err(failure)),
        next matches ChangeStep::Rollback { failure: _, discard } ==> (discard <==> step is Run
            && kind == (Mutation::Import { fresh: true })),
        step is Commit ==> next == ChangeStep::Done(Err(failure)),
{
}

/// What plugins and their check need is said where it is missing: the runtime that
/// was expected, an exact version, or a runtime that was verified.
pub proof fn what_plugins_need_is_said(spec: Seq<char>, environment: Environment)
    requires
        environment.node is Some,
    ensures
        environment.harness_installed && !environment.harness_compatible ==> run_obstacle(
            environment,
        ) == Some(
            Fault::Plugin(
                "plugins require the verified Harness runtime "@
                    + environment.expected_harness_version@
                    + "; repair it from the Environment panel first"@,
            ),
        ),
        package::split(spec).1 is None ==> preflight_obstacle(spec, environment) == Some(
            Fault::Plugin("dependency preflight requires an exact package version"@),
        ),
        package::split(spec).1 is Some && !(environment.harness_installed
            && environment.harness_compatible) ==> preflight_obstacle(spec, environment) == Some(
            Fault::Plugin("dependency preflight requires a verified Harness runtime"@),
        ),
{
}

/// A resolution is asked to report line by line, and a disposable project is named as
/// one and has no version of its own.
pub proof fn a_disposable_project_is_named_as_one(
    pnpm: Seq<char>,
    project: Seq<char>,
    name: Seq<char>,
    version: Seq<char>,
)
    ensures
        preflight_arguments(pnpm, project).len() == 8,
        preflight_arguments(pnpm, project)[6] == "--reporter=append-only"@,
        project_document(name, version) matches Document::Object(members) && members.len() == 5
            && members[1] == ("name"@, Document::Text("dsh-studio-plugin-preflight"@))
            && members[3] == ("private"@, Document::Bool(true)) && members[4] == (
            "version"@,
            Document::Text("0.0.0"@),
        ),
{
}

/// Where a change fails and its rollback does too, both are reported, the change
/// first; where the rollback goes well, the change's own failure is.
pub proof fn a_failed_rollback_is_reported_too(
    failure: Error,
    rollback: Error,
    discard: bool,
    kind: Mutation,
    both: ChangeStep,
    one: ChangeStep,
)
    requires
        change_follows((ChangeStep::Rollback { failure, discard }), Err(rollback), kind, both),
        change_follows((ChangeStep::Rollback { failure, discard }), Ok(()), kind, one),
    ensures
        both matches ChangeStep::Done(Err(error)) && error@ == Fault::Plugin(
            failure@.message() + "; automatic profile rollback also failed: "@
                + rollback@.message(),
        ),
        one == ChangeStep::Done(Err(failure)),
{
}

/// The limits of a package command are two minutes of silence and twenty minutes in
/// all, and what is said where one is exceeded names it in seconds.
pub proof fn the_limits_of_a_package_command_are_those_it_is_told(label: Seq<char>)
    ensures
        command::package_fault(
            label,
            COMMAND_IDLE_TIMEOUT,
            COMMAND_TOTAL_TIMEOUT,
            command::Ending::Silent,
        ) == Some(
            "the "@ + label + " produced no output for "@ + text::decimal(120)
                + " seconds and was stopped; check the registry connection and retry"@,
        ),
        command::package_fault(
            label,
            COMMAND_IDLE_TIMEOUT,
            COMMAND_TOTAL_TIMEOUT,
            command::Ending::Overdue,
        ) == Some(
            "the "@ + label + " exceeded the "@ + text::decimal(1200)
                + " second safety limit and was stopped"@,
        ),
{
}

/// A place that was found is the place that is seen, and none where none was.
pub proof fn a_found_place_is_the_place_seen(location: Location)
    ensures
        place_of(Some(location)) == Some(location@),
        place_of(None) is None,
{
}

} // verus!
