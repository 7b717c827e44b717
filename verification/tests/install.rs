use dsh_studio::command;
use dsh_studio::command::CommandLine;
use dsh_studio::error::Error;
use dsh_studio::files;
use dsh_studio::files::{IntegrationLooks, Kind, Look};
use dsh_studio::install;
use dsh_studio::install::{InstallPlan, Probe, RuntimeFiles, Trouble};
use dsh_studio::install::{OFFICIAL_REGISTRY, PACKAGE, PNPM_SPEC, PNPM_VERSION, SPEC, VERSION};
use dsh_studio::paths::Location;
use dsh_studio::picker;
use dsh_studio::transaction;
use dsh_studio::transaction::{Activity, Failure, InstallJournal, JournalFile, ManagedRuntime};
use dsh_studio::transaction::{Promotion, Source, Spot, Step, TransactionStep};

fn runtime(version: &str, entry: bool) -> RuntimeFiles {
    RuntimeFiles {
        marker: Some(format!(r#"{{"schema":4,"version":"{version}"}}"#)),
        manifest: Some(format!(r#"{{"name":"{PACKAGE}","version":"{version}"}}"#)),
        entry,
        launcher: version != VERSION,
        pnpm_manifest: Some(format!(r#"{{"name":"pnpm","version":"{PNPM_VERSION}"}}"#)),
        pnpm_entry: true,
        integration: true,
        picker: Some(
            "__DSH_DESKTOP_PICK_DIRECTORY__ __DSH_DESKTOP_VALIDATE_DIRECTORY__".to_string(),
        ),
    }
}

fn empty_runtime() -> RuntimeFiles {
    RuntimeFiles {
        marker: None,
        manifest: None,
        entry: false,
        launcher: false,
        pnpm_manifest: None,
        pnpm_entry: false,
        integration: false,
        picker: None,
    }
}

fn plan() -> InstallPlan {
    InstallPlan {
        node: "node".to_string(),
        npm_cli: "npm-cli.js".to_string(),
        target: "runtime".to_string(),
        spec: SPEC.to_string(),
    }
}

fn variable(line: &CommandLine, name: &str) -> Option<String> {
    line.environment
        .iter()
        .rev()
        .find(|entry| entry.0 == name)
        .map(|entry| entry.1.clone())
}

#[test]
fn runtime_contract_is_an_exact_package_spec() {
    assert_eq!(SPEC, format!("{PACKAGE}@{VERSION}"));
    assert!(!SPEC.ends_with("@latest"));
    assert!(!VERSION.starts_with(['^', '~']));
    assert_eq!(PNPM_SPEC, format!("pnpm@{PNPM_VERSION}"));
}

#[test]
fn version_input_rejects_tags_ranges_paths_and_command_arguments() {
    for version in [
        "latest",
        "^0.1.1",
        "../runtime",
        "--help",
        "1.0.0+build",
        "v1.0.0",
        "1.0.0\n",
    ] {
        assert!(install::validate_version(version).is_err(), "{version}");
    }
    assert!(install::validate_version("0.1.5-rc.2").is_ok());
}

#[test]
fn an_overlong_version_is_refused() {
    let long = format!("1.0.0-{}", "a".repeat(80));
    let refused = install::validate_version(&long).unwrap_err();
    assert_eq!(
        refused.message(),
        "select an exact Harness version such as 0.1.1-rc.2"
    );
    let fitting = format!("1.0.0-{}", "a".repeat(74));
    assert_eq!(fitting.len(), 80);
    assert!(install::validate_version(&fitting).is_ok());
}

#[test]
fn verified_version_marker_supports_old_installs_and_rejects_manual_replacement() {
    assert!(install::runtime_compatible(&runtime(VERSION, true)));
    let selected = runtime("0.1.5-rc.2", true);
    assert!(install::runtime_compatible(&selected));
    let mut stale = runtime("0.1.5-rc.2", true);
    stale.marker = Some(r#"{"schema":3,"version":"0.1.5-rc.2"}"#.to_string());
    assert!(!install::runtime_compatible(&stale));
    let mut latest = runtime("0.1.5-rc.2", true);
    latest.marker = Some(r#"{"schema":4,"version":"latest"}"#.to_string());
    assert!(!install::runtime_compatible(&latest));
}

#[test]
fn a_selected_release_needs_its_launcher() {
    let mut selected = runtime("0.1.5-rc.2", true);
    selected.launcher = false;
    assert!(!install::runtime_compatible(&selected));
    let mut built_in = runtime(VERSION, true);
    built_in.launcher = false;
    assert!(install::runtime_compatible(&built_in));
}

#[test]
fn the_selected_release_is_always_an_exact_version() {
    let selected = |marker: Option<&str>| {
        let version = install::selected_version(&marker.map(str::to_string));
        assert!(install::validate_version(&version).is_ok());
        version
    };
    assert_eq!(VERSION, "0.1.2-rc.1");
    assert_eq!(selected(None), "0.1.2-rc.1");
    assert_eq!(selected(Some("not json")), "0.1.2-rc.1");
    assert_eq!(selected(Some("{}")), "0.1.2-rc.1");
    assert_eq!(selected(Some(r#"{"version":"latest"}"#)), "0.1.2-rc.1");
    assert_eq!(selected(Some(r#"{"version":"1.0.0+build"}"#)), "0.1.2-rc.1");
    assert_eq!(selected(Some(r#"{"version":"01.0.0"}"#)), "0.1.2-rc.1");
    assert_eq!(selected(Some(r#"{"version":"0.1.1-rc.2"}"#)), "0.1.1-rc.2");
}

#[test]
fn compatibility_requires_the_exact_version_and_entry() {
    let whole = runtime(VERSION, true);
    assert_eq!(
        install::runtime_version(&whole.manifest).as_deref(),
        Some(VERSION)
    );
    assert!(install::runtime_compatible(&whole));

    let mut unmarked = runtime(VERSION, true);
    unmarked.marker = None;
    assert!(!install::runtime_compatible(&unmarked));

    let mut tampered = runtime("0.0.1-rc.1", true);
    tampered.manifest = Some(format!(r#"{{"name":"{PACKAGE}","version":"9.9.9"}}"#));
    assert!(!install::runtime_compatible(&tampered));

    assert!(!install::runtime_compatible(&runtime(VERSION, false)));
}

#[test]
fn contract_failure_names_the_missing_studio_integration() {
    let mut files = runtime(VERSION, true);
    files.integration = false;
    let failure = install::require_expected_runtime(&files).expect_err("contract should fail");
    assert!(failure.message().contains("failed: Studio integration"));
    assert!(install::require_expected_runtime(&runtime(VERSION, true)).is_ok());
}

#[test]
fn every_part_of_the_contract_is_named_when_it_is_missing() {
    assert!(install::runtime_contract_failures(&runtime(VERSION, true)).is_empty());
    let failures = install::runtime_contract_failures(&empty_runtime());
    assert!(failures.len() >= 5);
    assert!(failures.iter().any(|name| name == "Studio integration"));
    assert!(!install::runtime_complete(&empty_runtime()));
}

#[test]
fn npm_candidates_cover_official_and_version_manager_layouts() {
    let bin = Location::root("/Users/person/.nvm/versions/node/v24.19.0/bin");
    let candidates = install::npm_cli_candidates(&Some(bin));
    assert!(candidates.iter().any(|place| place.text("/")
        == "/Users/person/.nvm/versions/node/v24.19.0/bin/../lib/node_modules/npm/bin/npm-cli.js"));
    assert!(install::npm_cli_candidates(&None).is_empty());
}

#[test]
fn npm_candidates_cover_both_homebrew_prefixes_after_canonicalization() {
    for prefix in ["/opt/homebrew", "/usr/local"] {
        let bin = format!("{prefix}/Cellar/node/26.7.0/bin");
        let candidates = install::npm_cli_candidates(&Some(Location::root(&bin)));
        let shown: Vec<String> = candidates.iter().map(|place| place.text("/")).collect();
        assert!(shown.contains(&format!("{bin}/../libexec/lib/node_modules/npm/bin/npm-cli.js")));
        assert!(shown.contains(&format!(
            "{bin}/../../../../lib/node_modules/npm/bin/npm-cli.js"
        )));
    }
}

#[test]
fn the_first_working_npm_is_taken() {
    let probes = vec![
        Probe {
            location: "missing".to_string(),
            is_file: false,
            works: false,
        },
        Probe {
            location: "broken".to_string(),
            is_file: true,
            works: false,
        },
        Probe {
            location: "good".to_string(),
            is_file: true,
            works: true,
        },
        Probe {
            location: "later".to_string(),
            is_file: true,
            works: true,
        },
    ];
    assert_eq!(install::npm_cli(&probes).as_deref(), Some("good"));
    assert_eq!(install::npm_cli(&Vec::new()), None);
}

#[test]
fn npm_has_to_print_something() {
    assert!(install::npm_cli_works(true, &b"11.2.0\n".to_vec()));
    assert!(!install::npm_cli_works(true, &b" \r\n\t".to_vec()));
    assert!(!install::npm_cli_works(true, &Vec::new()));
    assert!(!install::npm_cli_works(false, &b"11.2.0\n".to_vec()));
}

#[test]
fn managed_install_uses_the_official_registry_and_exposes_lifecycle_progress() {
    let locked = plan().to_locked_command("/bin");
    let arguments = &locked.arguments;
    assert!(arguments.contains(&"--foreground-scripts".to_string()));
    assert!(arguments.contains(&"--install-links".to_string()));
    assert!(arguments.contains(&format!("--registry={OFFICIAL_REGISTRY}")));
    assert!(arguments.contains(&"--fetch-timeout=60000".to_string()));

    let plugin = plan().to_command("/bin");
    assert!(plugin
        .arguments
        .contains(&"--foreground-scripts".to_string()));
    assert!(!plugin
        .arguments
        .iter()
        .any(|value| value.starts_with("--registry=")));
    assert_eq!(plugin.program, "node");
    assert_eq!(plugin.arguments[0], "npm-cli.js");
    assert_eq!(variable(&plugin, "PATH").as_deref(), Some("/bin"));
}

#[test]
fn a_runtime_without_npm_cannot_be_planned_for() {
    let refused = install::plan("node".into(), None, "target".into(), SPEC.into());
    assert!(matches!(refused, Err(Error::NpmMissing)));
    let made = install::plan(
        "node".into(),
        Some("npm".into()),
        "target".into(),
        SPEC.into(),
    )
    .expect("plan");
    assert_eq!(made.spec, SPEC);
}

#[test]
fn only_managed_specs_name_a_managed_release() {
    assert_eq!(
        install::managed_version("@deepseek-ai/dsh@0.1.5-rc.2").expect("managed"),
        "0.1.5-rc.2"
    );
    assert!(install::managed_version("@deepseek-ai/dsh@latest").is_err());
    assert!(install::managed_version("left-pad@1.0.0").is_err());
}

#[test]
fn a_written_marker_is_read_again() {
    let marker = Some(install::marker_text("0.1.5-rc.2"));
    assert_eq!(install::runtime_schema(&marker), Some(4));
    assert_eq!(install::expected_version(&marker), "0.1.5-rc.2");
    let unverified = Some(install::unverified_marker_text());
    assert_eq!(install::runtime_schema(&unverified), Some(4));
    assert_eq!(install::expected_version(&unverified), VERSION);
    assert_eq!(install::expected_version(&None), VERSION);
}

#[test]
fn what_a_candidate_reports_is_shown_without_credentials() {
    let shown = install::boot_failure(
        Error::Install("exit 1".into()),
        &Some(b"boot failed token=abc".to_vec()),
    );
    assert_eq!(shown.message(), "boot failed token=[REDACTED]");
    let kept = install::boot_failure(Error::Install("exit 1".into()), &None);
    assert_eq!(kept.message(), "exit 1");
}

#[test]
fn bytes_that_are_not_text_do_not_end_a_line() {
    assert_eq!(
        install::output_line(&b"npm \xcf\xb5 done  \r\n".to_vec()),
        "npm \u{3f5} done"
    );
    assert_eq!(
        install::output_line(&b"npm \xff done\n".to_vec()),
        "npm \u{fffd} done"
    );
}

#[test]
fn launch_support_materializes_and_repairs_the_runtime_resolver() {
    let mut looks = safe_looks();
    looks.resolver_look = Look::Missing("not found".into());
    looks.resolver_current = false;
    assert!(files::ensure_runtime_resolver(&looks).expect("materialize resolver"));
    looks.resolver_look = Look::Found(Kind::File);
    assert!(files::ensure_runtime_resolver(&looks).expect("repair resolver"));
    looks.resolver_current = true;
    assert!(!files::ensure_runtime_resolver(&looks).expect("nothing to do"));
}

fn safe_looks() -> IntegrationLooks {
    IntegrationLooks {
        directory: "integration".into(),
        directory_look: Look::Found(Kind::Directory),
        library: "integration/lib".into(),
        library_look: Look::Found(Kind::Directory),
        entry_look: Look::Found(Kind::File),
        resolver: "integration/lib/runtime-resolver.cjs".into(),
        resolver_look: Look::Found(Kind::File),
        resolver_current: true,
    }
}

#[test]
fn launch_support_refuses_an_unsafe_runtime_resolver() {
    let mut looks = safe_looks();
    looks.resolver_look = Look::Found(Kind::Directory);
    let failure = files::ensure_runtime_resolver(&looks).expect_err("directory must be refused");
    assert!(failure.message().contains("unsafe file"));
    let mut linked = safe_looks();
    linked.library_look = Look::Found(Kind::Link);
    assert!(files::ensure_runtime_resolver(&linked).is_err());
}

#[test]
fn recursive_cleanup_refuses_an_unexpected_file() {
    assert!(files::remove_dir_if_exists("cleanup", &Look::Found(Kind::File)).is_err());
    assert!(files::remove_dir_if_exists("cleanup", &Look::Found(Kind::Link)).is_err());
    assert!(files::remove_dir_if_exists("cleanup", &Look::Found(Kind::Directory)).expect("remove"));
    assert!(
        !files::remove_dir_if_exists("cleanup", &Look::Missing("gone".into())).expect("missing")
    );
    let unreadable = files::remove_dir_if_exists("cleanup", &Look::Unreadable("denied".into()))
        .expect_err("unreadable");
    assert_eq!(unreadable.message(), "could not inspect cleanup: denied");
}

#[test]
fn qualification_replacement_is_idempotent_even_when_it_keeps_the_seam() {
    let once = picker::replace_once(
        "before seam after".into(),
        "seam",
        "addition seam",
        "fixture",
    )
    .expect("first qualification");
    let twice = picker::replace_once(once.clone(), "seam", "addition seam", "fixture")
        .expect("second qualification");
    assert_eq!(twice, once);
    assert_eq!(once, "before addition seam after");
}

#[test]
fn a_seam_has_to_stand_there_exactly_once() {
    assert!(picker::replace_once("nothing".into(), "seam", "sewn", "fixture").is_err());
    assert!(picker::replace_once("seam seam".into(), "seam", "sewn", "fixture").is_err());
}

#[test]
fn a_client_with_every_seam_is_qualified_once() {
    let mut body = String::new();
    for seam in picker::seams() {
        body.push_str(&seam.from);
        body.push('\n');
    }
    assert!(picker::qualify(body.clone()).is_err(), "the injection is missing");
    body.push_str(&format!(
        "{}uiWorkspace{}",
        picker::INJECTION_HEAD,
        picker::INJECTION_FROM_TAIL
    ));
    let once = picker::qualify(body.clone()).expect("qualify");
    assert!(once.contains("__DSH_DESKTOP_PICK_DIRECTORY__"));
    assert!(install::qualified_picker(&Some(once.clone())));
    assert!(!install::qualified_picker(&Some(body)));
    let twice = picker::qualify(once.clone()).expect("qualify again");
    assert_eq!(twice, once);
}

#[test]
fn one_install_or_recovery_at_a_time() {
    let mut managed = ManagedRuntime::new();
    assert!(managed.begin_install().is_ok());
    assert!(managed.begin_install().is_err());
    assert!(!managed.begin_recovery());
    managed.finish();
    assert!(managed.begin_recovery());
    assert_eq!(managed.activity, Activity::Recovering);
    assert!(managed.begin_install().is_err());
    managed.finish();
    assert_eq!(managed.activity, Activity::Idle);
}

#[test]
fn a_repair_prefers_what_is_whole() {
    assert_eq!(
        transaction::repair(true, true, true),
        vec![
            Step::Remove(Spot::Staging),
            Step::Remove(Spot::Backup),
            Step::ClearJournal
        ]
    );
    let from_backup = transaction::repair(false, true, true);
    assert!(from_backup.contains(&Step::Rename(Spot::Backup, Spot::Live)));
    let from_staging = transaction::repair(false, false, true);
    assert!(from_staging.contains(&Step::Rename(Spot::Staging, Spot::Live)));
}

#[test]
fn a_journal_of_another_package_stops_recovery() {
    let mut managed = ManagedRuntime::new();
    let foreign = JournalFile::Read(InstallJournal {
        schema: 1,
        package: "left-pad".into(),
        version: VERSION.into(),
    });
    assert!(transaction::recover_managed_install(
        &mut managed,
        &foreign,
        &empty_runtime(),
        &empty_runtime(),
        &empty_runtime()
    )
    .is_err());
    let mine = JournalFile::Read(transaction::new_journal());
    let steps = transaction::recover_managed_install(
        &mut ManagedRuntime::new(),
        &mine,
        &empty_runtime(),
        &runtime(VERSION, true),
        &empty_runtime(),
    )
    .expect("recover")
    .expect("steps");
    assert!(steps.contains(&Step::Rename(Spot::Staging, Spot::Live)));
    assert!(transaction::recover_managed_install(
        &mut ManagedRuntime::new(),
        &JournalFile::Absent,
        &empty_runtime(),
        &empty_runtime(),
        &empty_runtime()
    )
    .expect("nothing to do")
    .is_none());
}

#[test]
fn failed_activation_restores_the_previous_runtime() {
    // A runtime is live; the staged one fails its contract once it is in place.
    let (mut promotion, first) = Promotion::begin(true);
    assert_eq!(first, Step::Rename(Spot::Live, Spot::Backup));
    let mut step = promotion.next(Ok(()), false, true);
    assert_eq!(step, Step::Rename(Spot::Staging, Spot::Live));
    step = promotion.next(Ok(()), true, true);
    assert_eq!(step, Step::Verify);
    step = promotion.next(
        Err(Failure::Refused(Error::Install("contract".into()))),
        true,
        true,
    );
    assert_eq!(step, Step::Remove(Spot::Live));
    step = promotion.next(Ok(()), false, true);
    assert_eq!(step, Step::Rename(Spot::Backup, Spot::Live));
    let mut rounds = 0;
    while step != Step::Stop {
        step = promotion.next(Ok(()), true, false);
        rounds += 1;
        assert!(rounds < 8);
    }
    assert!(promotion.conclude().is_err());
}

#[test]
fn a_release_that_verifies_becomes_live() {
    let (mut promotion, first) = Promotion::begin(false);
    assert_eq!(first, Step::Rename(Spot::Staging, Spot::Live));
    let mut step = promotion.next(Ok(()), true, false);
    assert_eq!(step, Step::Verify);
    let mut rounds = 0;
    while step != Step::Stop {
        step = promotion.next(Ok(()), true, false);
        rounds += 1;
        assert!(rounds < 8);
    }
    assert!(promotion.conclude().is_ok());
}

#[test]
fn a_silent_install_is_stopped_instead_of_waiting_forever() {
    let mut watch = command::Watch::begin(500, 5_000, 1_000);
    assert_eq!(
        watch.see(command::Sight::Nothing, 1_200),
        command::Verdict::Wait { until: 1_500 }
    );
    assert_eq!(
        watch.see(command::Sight::Nothing, 1_500),
        command::Verdict::Silent
    );
    let failure = command::conclude_install("npm ci", &command::Ending::Silent)
        .expect_err("silent fixture should time out");
    assert!(failure.message().contains("produced no output"));
}

#[test]
fn a_release_is_promoted_only_after_every_step_before_went_well() {
    let mut step = TransactionStep::Recover;
    let mut seen = Vec::new();
    while !matches!(step, TransactionStep::Done(_)) {
        seen.push(format!("{step:?}"));
        step = transaction::next_transaction(step, Ok(()), Source::Registry);
    }
    assert_eq!(seen, ["Recover", "Prepare", "Assemble", "Require", "Promote"]);
    assert!(matches!(step, TransactionStep::Done(Ok(()))));

    let unpacked =
        transaction::next_transaction(TransactionStep::Assemble, Ok(()), Source::Package);
    assert!(matches!(unpacked, TransactionStep::Promote));
}

#[test]
fn a_release_that_cannot_be_assembled_is_cleared_away_and_reported() {
    let failure = Error::Install("npm ci exited with 1".to_string());
    let step =
        transaction::next_transaction(TransactionStep::Assemble, Err(failure), Source::Registry);
    assert!(matches!(step, TransactionStep::Abandon { .. }));
    let other = Error::Install("could not remove staging".to_string());
    match transaction::next_transaction(step, Err(other), Source::Registry) {
        TransactionStep::Done(Err(error)) => assert_eq!(error.message(), "npm ci exited with 1"),
        step => panic!("{step:?}"),
    }

    let refused = Error::AlreadyInstalling;
    let step =
        transaction::next_transaction(TransactionStep::Prepare, Err(refused), Source::Package);
    assert!(matches!(
        step,
        TransactionStep::Done(Err(Error::AlreadyInstalling))
    ));
}

#[test]
fn nothing_is_repaired_without_a_journal() {
    let empty = empty_runtime();
    let planned = transaction::plan_repair(&JournalFile::Absent, &empty, &empty, &empty);
    assert!(matches!(planned, Ok(None)));
    let journal = JournalFile::Read(transaction::new_journal());
    let whole = runtime(VERSION, true);
    let planned = transaction::plan_repair(&journal, &empty, &empty, &whole)
        .expect("a journal of this build")
        .expect("a journal");
    assert!(planned.contains(&Step::Rename(Spot::Backup, Spot::Live)));
}

#[test]
fn what_the_system_could_not_do_is_named() {
    assert_eq!(
        install::trouble(Trouble::Lock, "disk full").message(),
        "could not stage the runtime lock: disk full"
    );
    assert_eq!(
        install::trouble(Trouble::Directory, "disk full").message(),
        "disk full"
    );
    assert_eq!(
        install::creation_failure("/data/harness", "denied").message(),
        "could not create /data/harness: denied"
    );
}
