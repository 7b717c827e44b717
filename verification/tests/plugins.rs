use dsh_studio::command::Exit;
use dsh_studio::confirmation::{InstallIntent, PluginIntents, PluginJobs, INTENT_TTL};
use dsh_studio::error::Error;
use dsh_studio::history::History;
use dsh_studio::install;
use dsh_studio::json::Json;
use dsh_studio::manager;
use dsh_studio::manager::{ChangeStep, ManagerLook, Mutation, Surroundings};
use dsh_studio::package::{is_package_spec, split_spec};
use dsh_studio::paths;
use dsh_studio::paths::Location;
use dsh_studio::plugins;
use dsh_studio::plugins::{list, package_manager_reason, Change, InstalledPlugin};

fn manifest(raw: &str) -> Json {
    Json::parse(raw).expect("test manifest")
}

fn listed(manifest: &Json) -> Vec<InstalledPlugin> {
    list(manifest, &Vec::new())
}

#[test]
fn a_cancelled_package_job_releases_the_profile_slot() {
    let mut jobs = PluginJobs::default();
    let first = jobs.claim().expect("first claim");
    assert!(jobs.claim().is_err(), "a concurrent claim must be refused");

    jobs.release(first);

    assert!(
        jobs.claim().is_ok(),
        "dropping the task guard releases it"
    );
}

#[test]
fn separates_installed_plugins_from_the_ones_that_came_with_the_profile() {
    let plugins = listed(&manifest(
        r#"{
                "dependencies": { "@vendor/dsh-notes": "^1.2.0" },
                "dsh": { "profile": { "bundles": [
                    "@deepseek-ai/dsh-base",
                    "@vendor/dsh-notes"
                ] } }
            }"#,
    ));

    assert_eq!(plugins.len(), 2);
    assert_eq!(plugins[0].name, "@vendor/dsh-notes");
    assert!(plugins[0].active && !plugins[0].builtin);
    assert_eq!(plugins[0].spec, "^1.2.0");
    assert!(plugins[1].builtin, "in-box bundles are not removable");
}

#[test]
fn shows_an_installed_dependency_that_is_not_a_layer() {
    let plugins = listed(&manifest(
        r#"{ "dependencies": { "left-pad": "^1.3.0" }, "dsh": { "profile": { "bundles": [] } } }"#,
    ));

    assert_eq!(plugins.len(), 1);
    assert!(!plugins[0].active);
    assert!(
        !plugins[0].disabled,
        "never in the stack is not switched off"
    );
    assert!(!plugins[0].builtin);
}

#[test]
fn tells_a_switched_off_plugin_apart_from_a_plain_library() {
    let manifest = manifest(
        r#"{
                "dependencies": { "@vendor/dsh-notes": "^1.2.0", "left-pad": "^1.3.0" },
                "dsh": { "profile": { "bundles": [] } }
            }"#,
    );
    let off = vec!["@vendor/dsh-notes".to_string()];

    let plugins = list(&manifest, &off);

    let notes = plugins
        .iter()
        .find(|p| p.name == "@vendor/dsh-notes")
        .expect("listed");
    let library = plugins
        .iter()
        .find(|p| p.name == "left-pad")
        .expect("listed");
    assert!(notes.disabled && !notes.active);
    assert!(!library.disabled && !library.active);
}

#[test]
fn reads_an_empty_profile_without_complaining() {
    assert!(listed(&manifest(r#"{ "name": "dsh-profile-web" }"#)).is_empty());
}

#[test]
fn each_group_is_listed_in_order_and_once() {
    let plugins = listed(&manifest(
        r#"{
            "dependencies": { "zeta": "1", "alpha": 2 },
            "dsh": { "profile": { "bundles": ["zz", "aa", "zz", "alpha", 7] } }
        }"#,
    ));
    let names: Vec<&str> = plugins.iter().map(|p| p.name.as_str()).collect();
    assert_eq!(names, ["alpha", "zeta", "aa", "zz"]);
    assert_eq!(plugins[0].spec, "");
    assert!(plugins[0].active && !plugins[1].active);
}

#[test]
fn accepts_the_specs_a_marketplace_produces() {
    assert!(is_package_spec("left-pad"));
    assert!(is_package_spec("@vendor/dsh-notes"));
    assert!(is_package_spec("@vendor/dsh-notes@1.2.3"));
    assert!(is_package_spec("@vendor/dsh-notes@^1.2.0"));
    assert!(is_package_spec("dsh.bundle_thing-2"));
}

#[test]
fn rejects_anything_that_is_not_one() {
    assert!(!is_package_spec(""), "empty");
    assert!(!is_package_spec("--force"), "a flag is not a package");
    assert!(!is_package_spec("-D"), "a short flag is not a package");
    assert!(!is_package_spec("../plugin"), "a relative path");
    assert!(!is_package_spec("file:../plugin"), "a path spec");
    assert!(!is_package_spec("git+https://host/x.git"), "a git spec");
    assert!(!is_package_spec("two words"), "whitespace");
    assert!(!is_package_spec("@scope"), "a scope without a name");
    assert!(!is_package_spec("UPPER"), "npm names are lowercase");
    assert!(!is_package_spec(".hidden"), "cannot start with a dot");
}

#[test]
fn a_byte_that_is_not_utf8_does_not_end_the_output() {
    let raw: &[u8] = b"first\n\xcf\xb5\xcd\xb3\xd5\xd2\xb2\xbb\xb5\xbd\n second \nthird\nfourth\n";
    let mut tail: History<String> = History::new(plugins::TAIL_LINES);
    let mut seen: Vec<String> = Vec::new();
    for line in raw.split(|byte| *byte == b'\n') {
        if let Some(shown) = plugins::take_output(&mut tail, &line.to_vec()) {
            seen.push(shown);
        }
    }

    assert_eq!(
        seen.len(),
        5,
        "the undecodable line must not take the rest of the stream with it"
    );
    assert_eq!(
        tail.entries.len(),
        5,
        "a bounded tail keeps every short failure"
    );
    assert_eq!(tail.entries.back().map(String::as_str), Some("fourth"));
    assert_eq!(seen[2], " second");
}

#[test]
fn only_the_last_lines_are_kept() {
    let mut tail: History<String> = History::new(plugins::TAIL_LINES);
    for number in 0..40 {
        plugins::take_line(&mut tail, &format!("line {number}"));
    }
    plugins::take_line(&mut tail, "   ");
    assert_eq!(tail.entries.len(), plugins::TAIL_LINES);
    assert_eq!(tail.entries.front().map(String::as_str), Some("line 24"));
    assert_eq!(tail.entries.back().map(String::as_str), Some("line 39"));
}

#[test]
fn package_manager_errors_beat_the_harness_wrapper() {
    let stdout = vec![
        "ERR_PNPM_FETCH_404 GET https://registry.example/missing: Not Found - 404".into(),
        "This error happened while installing the dependencies of plugin-a".into(),
        "missing-package is not in the registry".into(),
        "No authorization header was set for the request.".into(),
    ];
    let stderr = vec!["dsh: pnpm failed in profile directory C:/profile".into()];

    let reason = package_manager_reason(&stdout, &stderr).expect("a useful reason");

    assert!(reason.contains("ERR_PNPM_FETCH_404"));
    assert!(reason.contains("missing-package"));
    assert!(!reason.starts_with("dsh: pnpm failed"));
}

#[test]
fn package_manager_errors_are_redacted_before_the_ui_sees_them() {
    let reason = package_manager_reason(
        &vec!["ERR_PNPM_FETCH_401 Authorization: Bearer top-secret".into()],
        &vec![],
    )
    .expect("a useful reason");

    assert!(!reason.contains("top-secret"));
    assert!(reason.contains("[REDACTED]"));
}

#[test]
fn without_a_named_error_the_last_lines_speak() {
    let stderr: Vec<String> = (1..=8).map(|number| format!("e{number}")).collect();
    assert_eq!(
        package_manager_reason(&vec!["out".into()], &stderr).as_deref(),
        Some("e3 · e4 · e5 · e6 · e7 · e8")
    );
    assert_eq!(
        package_manager_reason(&vec!["out".into()], &vec![" ".into()]).as_deref(),
        Some("out")
    );
    assert_eq!(package_manager_reason(&vec![], &vec![]), None);
}

#[test]
fn splits_a_scoped_spec_at_the_right_at_sign() {
    fn split(spec: &str) -> (String, Option<String>) {
        split_spec(spec)
    }
    assert_eq!(
        split("@vendor/name@1.0.0"),
        ("@vendor/name".to_string(), Some("1.0.0".to_string()))
    );
    assert_eq!(split("@vendor/name"), ("@vendor/name".to_string(), None));
    assert_eq!(
        split("name@1.0.0"),
        ("name".to_string(), Some("1.0.0".to_string()))
    );
    assert_eq!(split("name"), ("name".to_string(), None));
}

#[test]
fn package_manager_contract_is_exact() {
    assert_eq!(
        install::PNPM_SPEC,
        format!("pnpm@{}", install::PNPM_VERSION)
    );
    assert!(!install::PNPM_SPEC.ends_with("@latest"));
}

fn look(root: &str, version: &str, launcher: bool) -> ManagerLook {
    ManagerLook {
        root: Location::root(root),
        manifest: Some(format!(r#"{{"version":"{version}"}}"#)),
        launcher,
    }
}

#[test]
fn any_studio_owned_runtime_can_supply_the_verified_package_manager() {
    let found = manager::manager_in(&look("root", install::PNPM_VERSION, true)).expect("manager");
    assert_eq!(found.text("/"), "root/node_modules/.bin");
    let tools = look("tools", "0.0.0", true);
    let harness = look("harness", install::PNPM_VERSION, true);
    assert_eq!(
        manager::managed_manager(&tools, &harness)
            .expect("manager")
            .text("/"),
        "harness/node_modules/.bin"
    );
    let both = look("tools", install::PNPM_VERSION, true);
    assert_eq!(
        manager::managed_manager(&both, &harness)
            .expect("manager")
            .text("/"),
        "tools/node_modules/.bin"
    );
    assert!(manager::package_manager_available(&tools, &harness));
    assert!(!manager::package_manager_available(&tools, &tools));
}

#[test]
fn a_wrong_or_incomplete_package_manager_is_not_advertised() {
    assert!(
        manager::manager_in(&look("root", "0.0.0", true)).is_none(),
        "wrong version"
    );
    assert!(
        manager::manager_in(&look("root", install::PNPM_VERSION, false)).is_none(),
        "missing launcher"
    );
    assert!(manager::manager_in(&ManagerLook {
        root: Location::root("root"),
        manifest: None,
        launcher: true
    })
    .is_none());
}

#[test]
fn manager_cli_must_be_inside_the_verified_pnpm_package() {
    let bin = Location::root("root").below("node_modules").below(".bin");
    assert_eq!(
        manager::manager_cli(&bin, true).expect("cli").text("/"),
        "root/node_modules/pnpm/bin/pnpm.cjs"
    );
    assert!(manager::manager_cli(&bin, false).is_none());
    assert!(manager::manager_cli(&Location::root("root"), true).is_none());
}

#[test]
fn an_existing_profile_keeps_the_store_pnpm_recorded() {
    let data = Location::root("data");
    let marker = Some(r#"{ "storeDir": "/tmp/the-existing-pnpm-store" }"#.to_string());
    assert_eq!(
        manager::profile_store_dir(&marker, true, &data).text("/"),
        "/tmp/the-existing-pnpm-store"
    );
    let yaml = Some("hoistPattern:\n  - '*'\nstoreDir: '/tmp/older store'\n".to_string());
    assert_eq!(
        manager::profile_store_dir(&yaml, true, &data).text("/"),
        "/tmp/older store"
    );
    assert_eq!(
        manager::recorded_store(&Some("storeDir: ''\nstoreDir: \"x\"".to_string())).as_deref(),
        Some("x")
    );
    assert_eq!(
        manager::profile_store_dir(&yaml, false, &data).text("/"),
        paths::plugin_store_dir(&data).text("/")
    );
}

#[test]
fn a_new_profile_uses_the_stable_studio_store() {
    let data = Location::root("data");
    assert_eq!(
        manager::profile_store_dir(&None, false, &data).text("/"),
        paths::plugin_store_dir(&data).text("/")
    );
}

#[test]
fn install_previews_are_profile_bound_and_consumed_once() {
    let mut intents = PluginIntents::default();
    let token = intents
        .issue(
            "web".into(),
            "safe-plugin@1.2.3".into(),
            "npm".into(),
            "safe-plugin".into(),
            "Safe Plugin".into(),
            0,
        )
        .expect("preview");
    assert!(intents.consume(&token, "other", 1).is_err());
    assert!(
        intents.consume(&token, "web", 1).is_err(),
        "mismatch consumes the token"
    );

    let token = intents
        .issue(
            "web".into(),
            "safe-plugin@1.2.3".into(),
            "npm".into(),
            "safe-plugin".into(),
            "Safe Plugin".into(),
            2,
        )
        .expect("second preview");
    let inspected = intents
        .inspect(&token, "web", 3)
        .expect("inspect without consume");
    assert_eq!(inspected.spec, "safe-plugin@1.2.3");
    let intent = intents.consume(&token, "web", 4).expect("consume once");
    assert_eq!(intent.spec, "safe-plugin@1.2.3");
    assert!(intents.consume(&token, "web", 5).is_err());
}

#[test]
fn confirmations_end_and_are_bounded() {
    let mut intents = PluginIntents::default();
    let mut tokens: Vec<String> = Vec::new();
    for _ in 0..70 {
        tokens.push(
            intents
                .issue(
                    "web".into(),
                    "p@1.0.0".into(),
                    "npm".into(),
                    "p".into(),
                    "P".into(),
                    10,
                )
                .expect("preview"),
        );
    }
    assert_eq!(tokens[0].len(), 64);
    assert!(tokens[0] != tokens[1]);
    assert!(tokens.iter().all(|token| token.len() == 64
        && token
            .chars()
            .all(|c| c.is_ascii_digit() || ('a'..='f').contains(&c))));
    assert!(intents.inspect(&tokens[0], "web", 11).is_err());
    assert!(intents.inspect(&tokens[69], "web", 11).is_ok());
    assert!(intents
        .inspect(&tokens[69], "web", 10 + INTENT_TTL)
        .is_err());
}

fn confirm(intents: &mut PluginIntents, profile: &str, now: u64) -> String {
    intents
        .issue(
            profile.into(),
            "p@1.0.0".into(),
            "npm".into(),
            "p".into(),
            "P".into(),
            now,
        )
        .expect("preview")
}

#[test]
fn a_confirmation_outlasts_fewer_issues_than_are_kept() {
    let mut intents = PluginIntents::default();
    let token = confirm(&mut intents, "web", 5);
    let mut later: Vec<String> = Vec::new();
    for now in 0..63 {
        later.push(confirm(&mut intents, "desk", 6 + now));
        assert!(intents.inspect(&token, "web", 6 + now).is_ok());
    }
    assert!(intents.consume(&later[40], "web", 70).is_err());
    let spent = intents.consume(&token, "web", 5 + INTENT_TTL - 1).expect("spent");
    assert_eq!(spent.profile, "web");
    assert_eq!(spent.spec, "p@1.0.0");
    assert_eq!(spent.source_id, "npm");
    assert_eq!(spent.item_id, "p");
    assert_eq!(spent.display_name, "P");
    assert!(intents.consume(&token, "web", 5 + INTENT_TTL - 1).is_err());
    assert!(intents.consume(&later[40], "desk", 5 + INTENT_TTL - 1).is_err());
    assert!(intents.consume(&later[41], "desk", 5 + INTENT_TTL - 1).is_ok());
}

#[test]
fn as_many_issues_as_are_kept_push_a_confirmation_out() {
    let mut intents = PluginIntents::default();
    let token = confirm(&mut intents, "web", 0);
    for _ in 0..64 {
        confirm(&mut intents, "web", 1);
    }
    assert!(intents.consume(&token, "web", 2).is_err());
}

#[test]
fn a_token_is_the_lower_case_text_of_its_bytes() {
    let mut intents = PluginIntents::default();
    let intent = InstallIntent {
        profile: "web".into(),
        spec: "p@1.0.0".into(),
        source_id: "npm".into(),
        item_id: "p".into(),
        display_name: "P".into(),
        expires_at: 9,
    };
    assert_eq!(intents.record(&vec![0, 171, 255], intent, 1), "00abff");
    assert!(intents.inspect("00ABFF", "web", 8).is_err());
    assert!(intents.consume("00abff", "web", 8).is_ok());
}

#[test]
fn a_confirmation_ends_after_two_minutes() {
    assert_eq!(INTENT_TTL, 120_000);
    let mut intents = PluginIntents::default();
    let token = confirm(&mut intents, "web", 7);
    assert!(intents.inspect(&token, "web", 120_006).is_ok());
    assert!(intents.inspect(&token, "desk", 120_006).is_err());
    assert!(intents.consume(&token, "web", 120_007).is_err());
}

#[test]
fn isolated_preflight_uses_the_requested_package_name_and_cleans_up() {
    let text = manager::project_manifest("@vendor/plugin", "1.2.3");
    let manifest = Json::parse(&text).expect("json");
    assert_eq!(
        manifest.text_within("dependencies", "@vendor/plugin").as_deref(),
        Some("1.2.3")
    );
    assert_eq!(
        manifest.text_at("name").as_deref(),
        Some("dsh-studio-plugin-preflight")
    );
    assert!(text.contains("\n  \"private\": true"));
    let name = manager::project_name(41).expect("name");
    assert!(name.starts_with("41-"));
    assert_eq!(name.len(), 3 + 16);
    assert_eq!(
        manager::project_name_from(7, &vec![0, 171, 255]),
        "7-00abff"
    );
}

#[test]
fn a_plugin_command_runs_against_one_profile() {
    let around = Surroundings {
        path: "/node/bin".into(),
        registry: "https://mirror.example".into(),
        store: "/store".into(),
        directory: "/data".into(),
    };
    let args = manager::change_arguments(Change::Remove, "left-pad");
    let line = manager::run_command("node", "dsh/bin.js", "web", &args, &around);
    assert_eq!(
        line.arguments,
        ["dsh/bin.js", "plugin", "--profile", "web", "remove", "left-pad"]
    );
    assert_eq!(line.directory.as_deref(), Some("/data"));
    assert_eq!(
        line.environment[1],
        (
            "npm_config_registry".to_string(),
            "https://mirror.example".to_string()
        )
    );
}

#[test]
fn a_failing_plugin_command_says_why() {
    let exit = Exit {
        success: false,
        shown: "exit status: 1".into(),
    };
    let told = manager::conclude_run(&exit, &vec!["npm ERR! code E404".into()], &vec![])
        .expect_err("failed");
    assert_eq!(
        told.message(),
        "the plugin command failed (exit status: 1): npm ERR! code E404"
    );
    let untold = manager::conclude_run(&exit, &vec![], &vec![]).expect_err("failed");
    assert_eq!(
        untold.message(),
        "the plugin command exited with exit status: 1 without saying why"
    );
    let unresolved =
        manager::conclude_preflight("a@1.0.0", &exit, &vec![], &vec![]).expect_err("failed");
    assert_eq!(
        unresolved.message(),
        "a@1.0.0 cannot be installed because its dependency graph did not resolve: pnpm exited with exit status: 1 without saying why. The profile was not changed"
    );
    let fine = Exit {
        success: true,
        shown: "exit status: 0".into(),
    };
    assert!(manager::conclude_run(&fine, &vec![], &vec![]).is_ok());
    assert!(manager::conclude_preflight("a", &fine, &vec![], &vec![]).is_ok());
}

fn failing(text: &str) -> Result<(), Error> {
    Err(Error::Plugin(text.into()))
}

#[test]
fn a_failed_change_puts_the_profile_back() {
    let mut step = manager::next_change(ChangeStep::Begin, Ok(()), Mutation::Change);
    assert!(matches!(step, ChangeStep::Run));
    step = manager::next_change(step, Ok(()), Mutation::Change);
    assert!(matches!(step, ChangeStep::Apply));
    step = manager::next_change(step, Ok(()), Mutation::Change);
    assert!(matches!(step, ChangeStep::Finalize));
    step = manager::next_change(step, failing("receipt"), Mutation::Change);
    assert!(matches!(step, ChangeStep::Rollback { discard: false, .. }));
    match manager::next_change(step, failing("disk"), Mutation::Change) {
        ChangeStep::Done(Err(error)) => assert_eq!(
            error.message(),
            "receipt; automatic profile rollback also failed: disk"
        ),
        _ => panic!("a failed rollback is reported"),
    }
}

#[test]
fn a_change_that_went_well_is_kept() {
    let mut step = ChangeStep::Begin;
    for _ in 0..5 {
        step = manager::next_change(step, Ok(()), Mutation::Change);
    }
    assert!(matches!(step, ChangeStep::Done(Ok(()))));
}

#[test]
fn a_failed_import_discards_only_its_own_copy() {
    let fresh = manager::next_change(
        ChangeStep::Run,
        failing("pnpm"),
        Mutation::Import { fresh: true },
    );
    assert!(matches!(fresh, ChangeStep::Rollback { discard: true, .. }));
    let shared = manager::next_change(
        ChangeStep::Run,
        failing("pnpm"),
        Mutation::Import { fresh: false },
    );
    assert!(matches!(shared, ChangeStep::Rollback { discard: false, .. }));
    let applied = manager::next_change(
        ChangeStep::Apply,
        Ok(()),
        Mutation::Import { fresh: true },
    );
    assert!(matches!(applied, ChangeStep::Commit));
    assert!(manager::check_reviewed("sha512-a", "sha512-a").is_ok());
    assert!(manager::check_reviewed("sha512-a", "sha512-b").is_err());
}

#[test]
fn bundles_of_the_profile_cannot_be_switched_off() {
    let found = Some(manifest(
        r#"{ "dependencies": { "notes": "1" }, "dsh": { "profile": { "bundles": ["base", "notes"] } } }"#,
    ));
    let hosted = plugins::state(
        "web".into(),
        Location::root("profiles").below("web"),
        &found,
        &Vec::new(),
        &vec![("notes".to_string(), "receipt-1".to_string())],
        true,
    );
    assert!(hosted.initialized);
    assert_eq!(hosted.plugins[0].market_receipt.as_deref(), Some("receipt-1"));
    let switch = plugins::switch("notes", false, &hosted).expect("switchable");
    assert_eq!(switch.profile, "web");
    assert!(!switch.enabled);
    let refused = plugins::switch("base", false, &hosted).expect_err("built in");
    assert_eq!(
        refused.message(),
        "base came with the profile and cannot be switched off"
    );
    assert!(plugins::switch("--force", true, &hosted).is_err());
    assert!(manager::check_spec("--force").is_err());
    assert!(manager::check_spec("notes@1.0.0").is_ok());
}

#[test]
fn launchers_carry_an_extension_on_windows() {
    assert_eq!(manager::launcher_names("pnpm", false), ["pnpm"]);
    assert_eq!(
        manager::launcher_names("pnpm", true),
        ["pnpm.cmd", "pnpm.exe", "pnpm.bat", "pnpm"]
    );
}
