use dsh_studio::channel::Channel;
use dsh_studio::commands;
use dsh_studio::commands::{
    AppState, InstallEvent, InstallStep, Launched, StartEvent, StartStep,
};
use dsh_studio::confirmation::PluginJobs;
use dsh_studio::error::Error;
use dsh_studio::harness;
use dsh_studio::harness::{Admission, Environment, Inspection, Preparation};
use dsh_studio::install;
use dsh_studio::install::RuntimeFiles;
use dsh_studio::node::{NodeInstallation, Version};
use dsh_studio::readiness::Ready;
use dsh_studio::relay;
use dsh_studio::relay::RemoteStep;
use dsh_studio::supervisor::{
    actionable_module_failure, conclude_launch, fixed_port_available,
    transient_profile_module_resolution_failure, with_startup_stderr, Answer, Event, Health,
    LaunchOutcome, LaunchPlan, Launcher, Pulse, Pump, Status, Stream, Supervisor, LOG_HISTORY,
};

fn seen(environment: &Vec<(String, String)>, name: &str) -> Option<String> {
    environment
        .iter()
        .rev()
        .find(|entry| entry.0 == name)
        .map(|entry| entry.1.clone())
}

fn launcher() -> Launcher {
    Launcher {
        studio_version: "0.9.4".into(),
        runtime_version: install::VERSION.into(),
        home: "/home/person/.dsh".into(),
        profile_dir: "/home/person/.dsh/profiles/web".into(),
    }
}

fn launch_plan() -> LaunchPlan {
    LaunchPlan {
        node: "node".into(),
        entry: "dsh/bin.js".into(),
        resolver: "studio/runtime-resolver.cjs".into(),
        profile: "web".into(),
        patches: vec!["studio.patch.yml".into()],
        workspace: "workspace".into(),
        host: "127.0.0.1".into(),
        port: 0,
        environment: vec![
            ("DSH_STUDIO_PROFILE".into(), "forged".into()),
            ("ORDINARY_LOGIN_EXPORT".into(), "kept".into()),
        ],
    }
}

#[test]
fn runtime_patches_are_launcher_flags_before_web_application_arguments() {
    let command = launch_plan().to_command(&launcher());

    assert_eq!(
        command.arguments,
        [
            "--require",
            "studio/runtime-resolver.cjs",
            "dsh/bin.js",
            "--profile",
            "web",
            "--patch",
            "studio.patch.yml",
            "--no-open",
            "--host",
            "127.0.0.1",
            "--port",
            "0",
        ]
    );
    let environment = &command.environment;
    assert_eq!(seen(environment, "DSH_DESKTOP").as_deref(), Some("1"));
    assert_eq!(
        seen(environment, "DSH_STUDIO_VERSION").as_deref(),
        Some("0.9.4")
    );
    assert_eq!(
        seen(environment, "DSH_STUDIO_RUNTIME_VERSION").as_deref(),
        Some(install::VERSION)
    );
    assert_eq!(
        seen(environment, "DSH_STUDIO_PROFILE").as_deref(),
        Some("web")
    );
    assert_eq!(
        seen(environment, "ORDINARY_LOGIN_EXPORT").as_deref(),
        Some("kept")
    );
}

#[test]
fn a_composition_is_dumped_without_booting_it() {
    let command = launch_plan().dump_command(&launcher());
    assert_eq!(
        command.arguments.last().map(String::as_str),
        Some("--dump-config")
    );
    assert!(!command.arguments.contains(&"--no-open".to_string()));
    assert_eq!(command.directory.as_deref(), Some("workspace"));
}

#[test]
fn only_managed_packages_missing_from_a_profile_are_transient() {
    let windows = r#"Error [ERR_MODULE_NOT_FOUND]: Cannot find package '@deepseek-ai/dsh-client-ui-renderer' imported from C:\Users\person\.dsh\profiles\web\"#;
    assert!(transient_profile_module_resolution_failure(windows));

    let unix = "Error [ERR_MODULE_NOT_FOUND]: Cannot find package '@deepseek-ai/dsh-file-reference-local' imported from /home/person/.dsh/profiles/web/";
    assert!(transient_profile_module_resolution_failure(unix));

    assert!(!transient_profile_module_resolution_failure(
        "Error [ERR_MODULE_NOT_FOUND]: Cannot find package 'third-party-plugin' imported from C:\\Users\\person\\.dsh\\profiles\\web\\"
    ));
    assert!(!transient_profile_module_resolution_failure(
        "Error [ERR_MODULE_NOT_FOUND]: Cannot find package '@deepseek-ai/dsh-client-ui-renderer' imported from C:\\runtime\\node_modules\\"
    ));
}

#[test]
fn exhausted_managed_module_recovery_has_a_bounded_actionable_error() {
    let raw = Error::Readiness(
        "Error [ERR_MODULE_NOT_FOUND]: Cannot find package '@deepseek-ai/dsh-client-ui-renderer' imported from C:\\Users\\person\\.dsh\\profiles\\web\\".into(),
    );
    let friendly = actionable_module_failure(raw).message();
    assert!(friendly.contains("automatic recovery"));
    assert!(friendly.contains("Profile and its plugins were not deleted"));
    assert!(!friendly.contains("ERR_MODULE_NOT_FOUND"));
}

#[test]
fn random_port_never_needs_a_preflight_bind() {
    assert!(fixed_port_available("not-a-host", 0, &Some("no such host".into())).is_ok());
}

#[test]
fn occupied_fixed_port_is_rejected_before_node_starts() {
    let failure =
        fixed_port_available("127.0.0.1", 8123, &Some("address in use".into())).unwrap_err();
    assert_eq!(
        failure.message(),
        "fixed Harness port 127.0.0.1:8123 is unavailable: address in use. Change it in Settings or stop the process using it"
    );
    assert!(fixed_port_available("127.0.0.1", 8123, &None).is_ok());
}

#[test]
fn poisoned_log_bookkeeping_still_accepts_diagnostics() {
    let mut supervisor = Supervisor::new();
    let event = supervisor.note(Stream::Stderr, "recoverable diagnostic");
    assert!(matches!(event, Event::Log { stream: Stream::Stderr, .. }));
    assert!(supervisor
        .recent_log()
        .iter()
        .any(|(_, line)| line == "recoverable diagnostic"));
}

#[test]
fn the_log_is_bounded_and_without_secrets() {
    let mut supervisor = Supervisor::new();
    for number in 0..LOG_HISTORY + 5 {
        supervisor.note(Stream::Stdout, &format!("line {number}"));
    }
    supervisor.note(Stream::Stderr, "Authorization: Bearer top-secret");
    let lines = supervisor.recent_log();
    assert_eq!(lines.len(), LOG_HISTORY);
    assert_eq!(lines[0].1, "line 6");
    assert_eq!(
        lines.last().map(|entry| entry.1.as_str()),
        Some("Authorization: Bearer [REDACTED]")
    );
    let state = AppState::new(supervisor);
    let shown = commands::harness_log(&state);
    assert_eq!(shown.len(), LOG_HISTORY);
    assert_eq!(shown[1].line, "line 7");
    assert_eq!(commands::harness_status(&state), Status::Stopped);
}

#[test]
fn a_harness_is_started_once() {
    let mut supervisor = Supervisor::new();
    assert_eq!(supervisor.status(), Status::Stopped);
    assert!(matches!(supervisor.start(), Answer::Proceed));
    assert!(matches!(supervisor.start(), Answer::Busy));
    supervisor.port_checked(&Ok(()));
    assert_eq!(supervisor.status(), Status::Starting);
    let origin = supervisor
        .started(Ok(("http://127.0.0.1:1".to_string(), 7)))
        .expect("started");
    assert_eq!(origin, "http://127.0.0.1:1");
    match supervisor.start() {
        Answer::Serving(there) => assert_eq!(there, origin),
        _ => panic!("a ready harness is not started twice"),
    }
    assert!(!supervisor.wait_until_inactive(false).expect("waiting"));
    assert!(supervisor.wait_until_inactive(true).is_err());
}

#[test]
fn a_refused_port_lets_the_next_start_try() {
    let mut supervisor = Supervisor::new();
    assert!(matches!(supervisor.start(), Answer::Proceed));
    supervisor.port_checked(&Err(Error::Readiness("in use".into())));
    assert_eq!(
        supervisor.status(),
        Status::Failed {
            reason: "in use".to_string()
        }
    );
    assert!(matches!(supervisor.start(), Answer::Proceed));
}

#[test]
fn startup_is_retried_only_for_a_transient_failure() {
    let mut supervisor = Supervisor::new();
    let text = "ERR_MODULE_NOT_FOUND Cannot find package '@deepseek-ai/dsh-x' imported from /home/a/.dsh/profiles/web/";
    let mut delays: Vec<u64> = Vec::new();
    for attempt in 0..4 {
        delays.push(
            supervisor
                .launch_failed(attempt, Error::Readiness(text.into()))
                .expect("retry"),
        );
    }
    assert_eq!(delays, [250, 750, 1_500, 3_000]);
    assert!(supervisor
        .launch_failed(4, Error::Readiness(text.into()))
        .is_err());
    assert_eq!(
        supervisor
            .launch_failed(0, Error::Readiness("other".into()))
            .unwrap_err()
            .message(),
        "other"
    );
    assert_eq!(
        supervisor.recent_log()[0].1,
        "the managed profile module fallback was temporarily unavailable; retrying startup in 250 ms"
    );
}

#[test]
fn a_crashed_harness_is_brought_back_until_delays_run_out() {
    let mut supervisor = Supervisor::new();
    supervisor.start();
    supervisor.port_checked(&Ok(()));
    assert!(supervisor.started(Ok(("http://127.0.0.1:1".into(), 1))).is_ok());
    assert!(supervisor.ended(&Ok("exit status: 1".into())));
    let mut delays: Vec<u64> = Vec::new();
    let mut index = 0;
    while let Some(delay) = supervisor.revive(index) {
        assert_eq!(
            supervisor.status(),
            Status::Restarting {
                attempt: index as u32 + 1,
                delay_ms: delay
            }
        );
        delays.push(delay);
        assert!(supervisor.waited());
        assert!(!supervisor.revived(Err(Error::Readiness("again".into()))));
        index += 1;
    }
    assert_eq!(delays, [500, 1_000, 2_000, 5_000, 10_000]);
    assert_eq!(
        supervisor.status(),
        Status::Failed {
            reason: "harness failed to come back after 5 attempts".to_string()
        }
    );
    assert!(supervisor.wait_until_inactive(true).expect("inactive"));
}

#[test]
fn a_stopped_harness_is_not_brought_back() {
    let mut supervisor = Supervisor::new();
    supervisor.start();
    supervisor.port_checked(&Ok(()));
    assert!(supervisor.started(Ok(("http://127.0.0.1:1".into(), 1))).is_ok());
    supervisor.stop();
    assert_eq!(supervisor.status(), Status::Stopped);
    assert!(!supervisor.ended(&Ok("exit status: 0".into())));
    assert!(!supervisor.active);
    let mut waiting = Supervisor::new();
    waiting.revive(0);
    waiting.retire();
    assert!(!waiting.waited());
}

#[test]
fn one_missed_probe_is_not_evidence() {
    let mut health = Health::new();
    match health.look(true, Some("timeout".into())) {
        Pulse::Missed(line) => assert_eq!(line, "health check missed (1/3): timeout"),
        _ => panic!("a miss is logged"),
    }
    assert!(matches!(health.look(true, None), Pulse::Fine));
    assert_eq!(health.misses, 0);
    assert!(matches!(
        health.look(true, Some("a".into())),
        Pulse::Missed(_)
    ));
    assert!(matches!(
        health.look(true, Some("b".into())),
        Pulse::Missed(_)
    ));
    match health.look(true, Some("c".into())) {
        Pulse::Wedged(reason) => assert_eq!(reason, "c"),
        _ => panic!("three misses are too many"),
    }
    let mut idle = Health::new();
    assert!(matches!(
        idle.look(false, Some("x".into())),
        Pulse::Fine
    ));
}

#[test]
fn a_second_announcement_is_ignored() {
    let mut stdout = Pump::new(true, false);
    let (line, first) = stdout.take(&b"dsh web: http://127.0.0.1:5/  \n".to_vec());
    assert_eq!(line, "dsh web: http://127.0.0.1:5/");
    assert_eq!(first, Some(Ready::At("http://127.0.0.1:5".into())));
    let (_, second) = stdout.take_line("dsh web: http://127.0.0.1:6");
    assert_eq!(second, None);
    let mut stderr = Pump::new(false, true);
    for number in 0..200 {
        stderr.take_line(&format!("e{number}"));
    }
    let tail = stderr.tail.expect("kept");
    assert_eq!(tail.entries.len(), 160);
    assert_eq!(tail.entries[0], "e40");
}

#[test]
fn a_failed_launch_says_what_happened() {
    let exited = conclude_launch(LaunchOutcome::Exited(Ok("exit status: 1".into()))).unwrap_err();
    assert_eq!(
        exited.message(),
        "harness exited during startup (exit status: 1)"
    );
    let late = conclude_launch(LaunchOutcome::TimedOut).unwrap_err();
    assert_eq!(
        late.message(),
        "harness did not announce a port within 120s"
    );
    let rejected =
        conclude_launch(LaunchOutcome::Announced(Ready::Rejected("bad".into()))).unwrap_err();
    assert_eq!(rejected.message(), "bad");
    assert_eq!(
        conclude_launch(LaunchOutcome::Announced(Ready::At("there".into()))).expect("served"),
        "there"
    );
    assert!(conclude_launch(LaunchOutcome::Closed).is_err());
    assert!(conclude_launch(LaunchOutcome::NoPipes).is_err());
    let shown = with_startup_stderr(rejected, &vec!["one".into(), "two".into()]);
    assert_eq!(shown.message(), "bad\none\ntwo");
}

fn node(path: &str, minor: u64, npm: bool) -> NodeInstallation {
    NodeInstallation {
        path: path.into(),
        version: Version {
            major: 22,
            minor,
            patch: 0,
        },
        npm_cli: if npm {
            Some(format!("{path}/npm-cli.js"))
        } else {
            None
        },
    }
}

fn files() -> RuntimeFiles {
    RuntimeFiles {
        marker: Some(install::marker_text(install::VERSION)),
        manifest: Some(format!(
            r#"{{"name":"@deepseek-ai/dsh","version":"{}"}}"#,
            install::VERSION
        )),
        entry: true,
        launcher: false,
        pnpm_manifest: Some(format!(
            r#"{{"name":"pnpm","version":"{}"}}"#,
            install::PNPM_VERSION
        )),
        pnpm_entry: true,
        integration: true,
        picker: Some(
            "__DSH_DESKTOP_PICK_DIRECTORY__ __DSH_DESKTOP_VALIDATE_DIRECTORY__".to_string(),
        ),
    }
}

fn environment(runtimes: Vec<NodeInstallation>, used: Option<NodeInstallation>) -> Environment {
    harness::environment(Inspection {
        recovered: Ok(()),
        runtimes,
        node: used,
        entry: "dsh/bin.js".into(),
        entry_is_file: true,
        files: files(),
        channel: Channel::default(),
        workspace: "work".into(),
        admission: Admission {
            blocked: false,
            reason: None,
        },
    })
}

fn preparation() -> Preparation {
    Preparation {
        resolver: Ok("resolver.cjs".into()),
        serves_studio: Ok(true),
        problem: None,
        patch: "cordis.patch.yml".into(),
        port: 0,
    }
}

#[test]
fn a_qualified_machine_launches_on_loopback() {
    let whole = environment(vec![], Some(node("/n", 19, true)));
    assert!(whole.harness_installed && whole.harness_compatible);
    let plan = harness::launch_plan(whole, "web".into(), preparation()).expect("plan");
    assert_eq!(plan.host, "127.0.0.1");
    assert_eq!(plan.patches, ["cordis.patch.yml"]);
    assert_eq!(plan.node, "/n");
}

#[test]
fn what_is_missing_is_named_before_a_launch() {
    let without_node = environment(vec![], None);
    assert!(matches!(
        harness::launch_plan(without_node, "web".into(), preparation()),
        Err(Error::NoNodeRuntime { .. })
    ));
    let mut absent = environment(vec![], Some(node("/n", 19, true)));
    absent.harness_installed = false;
    assert!(matches!(
        harness::launch_plan(absent, "web".into(), preparation()),
        Err(Error::HarnessNotInstalled)
    ));
    let mut old = environment(vec![], Some(node("/n", 19, true)));
    old.harness_compatible = false;
    old.harness_version = None;
    assert_eq!(
        harness::launch_plan(old, "web".into(), preparation())
            .unwrap_err()
            .message(),
        "the installed Harness runtime is unknown, but DSH Studio requires 0.1.2-rc.1; reinstall it from the Environment panel"
    );
    let mut unsafe_place = environment(vec![], Some(node("/n", 19, true)));
    unsafe_place.workspace_admission.blocked = true;
    assert_eq!(
        harness::launch_plan(unsafe_place, "web".into(), preparation())
            .unwrap_err()
            .message(),
        "the workspace is not safe to use"
    );
}

#[test]
fn an_interrupted_plugin_change_blocks_all_but_safe_mode() {
    let mut broken = preparation();
    broken.problem = Some("a change was interrupted".into());
    broken.serves_studio = Ok(false);
    let refused = harness::launch_plan(
        environment(vec![], Some(node("/n", 19, true))),
        "web".into(),
        broken,
    )
    .unwrap_err();
    assert_eq!(refused.message(), "a change was interrupted");
    let mut again = preparation();
    again.problem = Some("a change was interrupted".into());
    again.serves_studio = Ok(false);
    let plan = harness::safe_mode_launch_plan(
        environment(vec![], Some(node("/n", 19, true))),
        Ok("safe".into()),
        again,
    )
    .expect("safe mode");
    assert_eq!(plan.profile, "safe");
    assert!(plan.patches.is_empty());
}

#[test]
fn a_newer_node_without_npm_hides_nothing() {
    let found = environment(
        vec![
            node("/newest", 25, false),
            node("/older", 20, true),
            node("/ancient", 3, true),
        ],
        Some(node("/newest", 25, false)),
    );
    assert_eq!(harness::npm_capable_node(&found).expect("node"), "/older");
    let plan = harness::install_plan(&found, "target".into()).expect("plan");
    assert_eq!(plan.npm_cli, "/older/npm-cli.js");
    assert_eq!(plan.spec, install::SPEC);
    assert_eq!(
        harness::manager_node(&found).expect("node").0,
        "/older"
    );
    let preferred = environment(
        vec![node("/first", 25, true), node("/second", 20, true)],
        Some(node("/second", 20, true)),
    );
    assert_eq!(
        harness::npm_capable_node(&preferred).expect("node"),
        "/second"
    );
    let bare = environment(vec![node("/bare", 25, false)], Some(node("/bare", 25, false)));
    assert!(matches!(
        harness::npm_capable_node(&bare),
        Err(Error::NpmMissing)
    ));
    let old = environment(vec![node("/old", 18, true)], None);
    assert!(matches!(
        harness::npm_capable_node(&old),
        Err(Error::NoNodeRuntime { .. })
    ));
}

#[test]
fn a_failed_start_tries_the_last_good_profile_once() {
    let mut step = commands::next_start(
        StartStep::Launch,
        StartEvent::Launched {
            profile: "web".into(),
            outcome: Launched::Failed(Error::Readiness("boom".into())),
        },
    );
    assert!(matches!(step, StartStep::Recover { .. }));
    step = commands::next_start(step, StartEvent::Found(Ok(Some("good".into()))));
    assert!(matches!(step, StartStep::Relaunch { .. }));
    step = commands::next_start(
        step,
        StartEvent::Launched {
            profile: "good".into(),
            outcome: Launched::Failed(Error::Readiness("bust".into())),
        },
    );
    match step {
        StartStep::Done(Err(error)) => assert_eq!(
            error.message(),
            "profile web failed to start (boom); last-known-good profile good also failed (bust)"
        ),
        _ => panic!("nothing is tried a third time"),
    }
    let healthy = commands::next_start(
        commands::next_start(
            StartStep::Launch,
            StartEvent::Launched {
                profile: "web".into(),
                outcome: Launched::Serving("there".into()),
            },
        ),
        StartEvent::Marked(Ok(())),
    );
    assert!(matches!(healthy, StartStep::Done(Ok(_))));
}

#[test]
fn a_second_install_is_refused_and_changes_nothing() {
    let mut state = AppState::new(Supervisor::new());
    let mut jobs = PluginJobs::default();
    assert!(state.begin_install(&mut jobs, "latest").is_err());
    assert!(!jobs.busy && !state.installing);
    let job = state
        .begin_install(&mut jobs, "0.1.5-rc.2")
        .expect("claimed");
    assert!(matches!(
        state.begin_install(&mut jobs, "0.1.5-rc.2"),
        Err(Error::PluginBusy)
    ));
    let mut others = PluginJobs::default();
    assert!(matches!(
        state.begin_install(&mut others, "0.1.5-rc.2"),
        Err(Error::AlreadyInstalling)
    ));
    assert!(!others.busy);
    state.finish_install(&mut jobs, job);
    assert!(state.begin_install(&mut jobs, install::VERSION).is_ok());
}

#[test]
fn an_install_provisions_node_when_npm_is_missing() {
    let mut step = commands::next_install(
        InstallStep::Settle,
        InstallEvent::Did(Ok(())),
        install::VERSION,
    );
    assert!(matches!(step, InstallStep::FindPayload));
    let bundled = commands::next_install(
        InstallStep::FindPayload,
        InstallEvent::Payload(Ok(true)),
        install::VERSION,
    );
    assert!(matches!(bundled, InstallStep::RunBundled));
    step = commands::next_install(step, InstallEvent::Payload(Ok(true)), "0.1.5-rc.2");
    assert!(matches!(step, InstallStep::Plan));
    step = commands::next_install(
        step,
        InstallEvent::Planned(Err(Error::NpmMissing)),
        "0.1.5-rc.2",
    );
    assert!(matches!(step, InstallStep::Provision));
    step = commands::next_install(step, InstallEvent::Did(Ok(())), "0.1.5-rc.2");
    assert!(matches!(step, InstallStep::Replan));
    let plan = install::plan(
        "node".into(),
        Some("npm".into()),
        "target".into(),
        install::SPEC.into(),
    );
    step = commands::next_install(step, InstallEvent::Planned(plan), "0.1.5-rc.2");
    assert_eq!(
        commands::announce_install(&step).as_deref(),
        Some("installing @deepseek-ai/dsh@0.1.5-rc.2 into target")
    );
    step = commands::next_install(step, InstallEvent::Did(Ok(())), "0.1.5-rc.2");
    step = commands::next_install(step, InstallEvent::Entry(false), "0.1.5-rc.2");
    match step {
        InstallStep::Done(Err(error)) => assert_eq!(
            error.message(),
            "npm reported success but the harness entry point is missing"
        ),
        _ => panic!("believe the file"),
    }
}

#[test]
fn remote_access_follows_the_harness() {
    let ready = Status::Ready {
        origin: "http://127.0.0.1:1".into(),
        pid: 1,
    };
    assert!(matches!(
        relay::remote_step(&ready, true),
        RemoteStep::Resume(_)
    ));
    assert!(matches!(relay::remote_step(&ready, false), RemoteStep::Keep));
    assert!(matches!(
        relay::remote_step(&Status::Stopped, false),
        RemoteStep::Suspend
    ));
    assert!(relay::is_loopback(&Some("localhost".into())));
    assert!(relay::is_loopback(&Some("127.0.0.1".into())));
    assert!(!relay::is_loopback(&Some("example.com".into())));
    assert!(!relay::is_loopback(&None));
}
