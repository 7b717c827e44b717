//! What the frontend can ask for, as sequences of decisions: which step of a
//! start or an install comes next, and what is said when one goes wrong.
use vstd::prelude::*;

use crate::confirmation::{PluginJob, PluginJobs};
use crate::error::{Error, Fault};
use crate::install;
use crate::install::InstallPlan;
use crate::supervisor::{Status, Stream, Supervisor};
use crate::text;

verus! {

/// Application-wide state.
#[derive(Debug)]
pub struct AppState {
    pub supervisor: Supervisor,
    /// Whether an install is running, so a second click cannot start another npm
    /// against the same directory.
    pub installing: bool,
}

/// One line of harness output, shaped for the log panel.
#[derive(Debug)]
pub struct LogLine {
    pub stream: Stream,
    pub line: String,
}

impl AppState {
    /// State around a supervisor, with no install running.
    pub fn new(supervisor: Supervisor) -> (state: AppState)
        ensures
            state.supervisor == supervisor,
            !state.installing,
    {
        AppState { supervisor, installing: false }
    }

    /// Claims the right to replace the managed runtime by a release.
    ///
    /// Profile commands resolve through the live runtime, so it is not replaced
    /// while another window installs a plugin or switches profiles. A refused
    /// request leaves everything as it was.
    pub fn begin_install(&mut self, jobs: &mut PluginJobs, version: &str) -> (claimed: Result<
        PluginJob,
        Error,
    >)
        ensures
            final(self).supervisor == old(self).supervisor,
            match claimed {
                Ok(_) => {
                    &&& install::exact_version(version@)
                    &&& !old(jobs).busy
                    &&& !old(self).installing
                    &&& final(jobs).busy
                    &&& final(self).installing
                },
                Err(error) => {
                    &&& final(jobs).busy == old(jobs).busy
                    &&& final(self).installing == old(self).installing
                    &&& if !install::exact_version(version@) {
                        error@ == Fault::Install(
                            "select an exact Harness version such as 0.1.1-rc.2"@,
                        )
                    } else if old(jobs).busy {
                        error@ == Fault::PluginBusy
                    } else {
                        old(self).installing && error@ == Fault::AlreadyInstalling
                    }
                },
            },
    {
        if let Err(failure) = install::validate_version(version) {
            return Err(failure);
        }
        let job = match jobs.claim() {
            Ok(job) => job,
            Err(failure) => {
                return Err(failure);
            },
        };
        if self.installing {
            jobs.release(job);
            return Err(Error::AlreadyInstalling);
        }
        self.installing = true;
        Ok(job)
    }

    /// An install has ended, in whichever way; the next one may begin.
    pub fn finish_install(&mut self, jobs: &mut PluginJobs, job: PluginJob)
        ensures
            final(self).supervisor == old(self).supervisor,
            !final(self).installing,
            !final(jobs).busy,
    {
        self.installing = false;
        jobs.release(job);
    }
}

/// The release an install is for: the one that was asked for, or the one the
/// runtime marker names.
pub fn requested_version(version: Option<String>, marker: &Option<String>) -> (wanted: String)
    ensures
        wanted@ == (match version {
            Some(asked) => asked@,
            None => install::expected(text::seen(*marker)),
        }),
{
    match version {
        Some(asked) => asked,
        None => install::selected_version(marker),
    }
}

/// What the harness is doing right now.
pub fn harness_status(state: &AppState) -> (status: Status)
    ensures
        status@ == state.supervisor@.status,
{
    state.supervisor.status()
}

/// Output buffered since launch, so a late-opened log panel is not empty.
pub fn harness_log(state: &AppState) -> (lines: Vec<LogLine>)
    ensures
        lines@.len() == state.supervisor@.log.len(),
        forall|i: int|
            0 <= i < lines@.len() ==> (#[trigger] lines@[i]).stream == state.supervisor@.log[i].0
                && lines@[i].line@ == state.supervisor@.log[i].1,
{
    let entries = &state.supervisor.log.entries;
    let mut lines: Vec<LogLine> = Vec::new();
    let mut index: usize = 0;
    while index < entries.len()
        invariant
            *entries == state.supervisor.log.entries,
            index <= entries@.len(),
            lines@.len() == index,
            forall|i: int|
                0 <= i < lines@.len() ==> (#[trigger] lines@[i]).stream
                    == state.supervisor@.log[i].0 && lines@[i].line@
                    == state.supervisor@.log[i].1,
        decreases entries@.len() - index,
    {
        let entry = &entries[index];
        lines.push(LogLine { stream: entry.0, line: entry.1.clone() });
        index += 1;
    }
    lines
}

/// What is logged about the environment a GUI launch runs in.
pub fn shell_notice(source: &str, fallback_reason: &Option<String>) -> (line: String)
    ensures
        line@ == "GUI shell environment: "@ + source@ + (match *fallback_reason {
            Some(reason) => " ("@ + reason@ + ")"@,
            None => Seq::empty(),
        }),
{
    match fallback_reason {
        Some(reason) => {
            let line = text::join5("GUI shell environment: ", source, " (", reason, ")");
            assert(line@ =~= "GUI shell environment: "@ + source@ + (" ("@ + reason@ + ")"@));
            line
        },
        None => {
            let line = text::join2("GUI shell environment: ", source);
            assert(line@ =~= "GUI shell environment: "@ + source@ + Seq::<char>::empty());
            line
        },
    }
}

/// What is logged before an isolated recovery launch.
pub const SAFE_MODE_NOTICE: &'static str =
    "starting isolated safe mode; the selected profile is unchanged";

/// The next thing to do on the way to a running harness.
#[derive(Debug)]
pub enum StartStep {
    /// Plan, check and launch the selected profile.
    Launch,
    /// Record that a profile started, which then is served there.
    MarkHealthy { profile: String, origin: String },
    /// Look for the last profile that is known to start.
    Recover { attempted: String, failure: Error },
    /// Plan, check and launch that profile instead.
    Relaunch { attempted: String, reason: String, recovered: String },
    /// Report this.
    Done(Result<String, Error>),
}

/// What planning, checking and launching a profile came to.
#[derive(Debug)]
pub enum Launched {
    /// It was not even launched.
    Refused(Error),
    /// It did not start.
    Failed(Error),
    /// It is served there.
    Serving(String),
}

/// What came of a step.
#[derive(Debug)]
pub enum StartEvent {
    /// A profile was launched, with that outcome.
    Launched { profile: String, outcome: Launched },
    /// The last profile that is known to start was looked for.
    Found(Result<Option<String>, Error>),
    /// The start of a profile was recorded.
    Marked(Result<(), Error>),
}

/// Whether an event is what a step can come to.
pub open spec fn start_fits(step: StartStep, event: StartEvent) -> bool {
    match step {
        StartStep::Launch => event is Launched,
        StartStep::Relaunch { .. } => event is Launched,
        StartStep::Recover { .. } => event is Found,
        StartStep::MarkHealthy { .. } => event is Marked,
        StartStep::Done(_) => false,
    }
}

/// Whether one step follows another after an event.
pub open spec fn start_follows(step: StartStep, event: StartEvent, next: StartStep) -> bool {
    match (step, event) {
        (StartStep::Launch, StartEvent::Launched { profile, outcome }) => match outcome {
            Launched::Refused(failure) => next == StartStep::Done(Err(failure)),
            Launched::Failed(failure) => next == (StartStep::Recover {
                attempted: profile,
                failure,
            }),
            Launched::Serving(origin) => next == (StartStep::MarkHealthy { profile, origin }),
        },
        (StartStep::Recover { attempted, failure }, StartEvent::Found(found)) => match found {
            Err(problem) => next == StartStep::Done(Err(problem)),
            Ok(None) => next == StartStep::Done(Err(failure)),
            Ok(Some(recovered)) => next matches StartStep::Relaunch {
                attempted: same,
                reason,
                recovered: chosen,
            } && same == attempted && chosen == recovered && reason@ == failure@.message(),
        },
        (
            StartStep::Relaunch { attempted, reason, recovered },
            StartEvent::Launched { profile: _, outcome },
        ) => match outcome {
            Launched::Refused(failure) => next == StartStep::Done(Err(failure)),
            Launched::Failed(failure) => next matches StartStep::Done(Err(error)) && error@
                == Fault::Profile(
                "profile "@ + attempted@ + " failed to start ("@ + reason@
                    + "); last-known-good profile "@ + recovered@ + " also failed ("@
                    + failure@.message() + ")"@,
            ),
            Launched::Serving(origin) => next == (StartStep::MarkHealthy {
                profile: recovered,
                origin,
            }),
        },
        (StartStep::MarkHealthy { profile: _, origin }, StartEvent::Marked(marked)) => match marked {
            Ok(_) => next == StartStep::Done(Ok(origin)),
            Err(problem) => next == StartStep::Done(Err(problem)),
        },
        _ => false,
    }
}

/// What comes after a step of a managed start.
pub fn next_start(step: StartStep, event: StartEvent) -> (next: StartStep)
    requires
        start_fits(step, event),
    ensures
        start_follows(step, event, next),
{
    match (step, event) {
        (StartStep::Launch, StartEvent::Launched { profile, outcome }) => match outcome {
            Launched::Refused(failure) => StartStep::Done(Err(failure)),
            Launched::Failed(failure) => StartStep::Recover { attempted: profile, failure },
            Launched::Serving(origin) => StartStep::MarkHealthy { profile, origin },
        },
        (StartStep::Recover { attempted, failure }, StartEvent::Found(found)) => match found {
            Err(problem) => StartStep::Done(Err(problem)),
            Ok(None) => StartStep::Done(Err(failure)),
            Ok(Some(recovered)) => StartStep::Relaunch {
                attempted,
                reason: failure.message(),
                recovered,
            },
        },
        (
            StartStep::Relaunch { attempted, reason, recovered },
            StartEvent::Launched { profile: _, outcome },
        ) => match outcome {
            Launched::Refused(failure) => StartStep::Done(Err(failure)),
            Launched::Failed(failure) => {
                let first = text::join5(
                    "profile ",
                    &attempted,
                    " failed to start (",
                    &reason,
                    "); last-known-good profile ",
                );
                StartStep::Done(
                    Err(
                        Error::Profile(
                            text::join5(
                                &first,
                                &recovered,
                                " also failed (",
                                &failure.message(),
                                ")",
                            ),
                        ),
                    ),
                )
            },
            Launched::Serving(origin) => StartStep::MarkHealthy { profile: recovered, origin },
        },
        (StartStep::MarkHealthy { profile: _, origin }, StartEvent::Marked(marked)) => match marked {
            Ok(_) => StartStep::Done(Ok(origin)),
            Err(problem) => StartStep::Done(Err(problem)),
        },
        (step, _) => step,
    }
}

/// What is logged before the last profile that is known to start is tried.
pub fn fallback_notice(attempted: &str, recovered: &str) -> (line: String)
    ensures
        line@ == "profile "@ + attempted@
            + " failed startup; automatically retrying last-known-good profile "@ + recovered@,
{
    text::join4(
        "profile ",
        attempted,
        " failed startup; automatically retrying last-known-good profile ",
        recovered,
    )
}

/// How many steps of a start may still come.
pub open spec fn start_steps_left(step: StartStep) -> int {
    match step {
        StartStep::Launch => 4,
        StartStep::Recover { .. } => 3,
        StartStep::Relaunch { .. } => 2,
        StartStep::MarkHealthy { .. } => 1,
        StartStep::Done(_) => 0,
    }
}

/// A start ends: one profile is tried, at most one other after it, and nothing
/// is tried a third time.
pub proof fn a_start_ends(step: StartStep, event: StartEvent, next: StartStep)
    requires
        start_follows(step, event, next),
    ensures
        0 <= start_steps_left(next) < start_steps_left(step),
        !(next is Launch),
{
}

/// An origin is only ever reported for a harness that is served there, and only
/// once the profile it serves was recorded as healthy.
pub proof fn only_a_healthy_start_is_reported(step: StartStep, event: StartEvent, next: StartStep)
    requires
        start_follows(step, event, next),
        next matches StartStep::Done(Ok(_)),
    ensures
        step is MarkHealthy && event == StartEvent::Marked(Ok(())),
        next->Done_0->Ok_0 == step->MarkHealthy_origin,
{
    if let StartEvent::Marked(Ok(unit)) = event {
        assert(unit == ());
    }
}

/// The next thing to do on the way to an installed harness.
#[derive(Debug)]
pub enum InstallStep {
    /// Stop the harness and wait until nothing supervises it.
    Settle,
    /// Look for a runtime that came with the application.
    FindPayload,
    /// Install that one.
    RunBundled,
    /// Work out how to install from the registry.
    Plan,
    /// Install a complete Node runtime first.
    Provision,
    /// Work out once more how to install from the registry.
    Replan,
    /// Install from the registry.
    Run(InstallPlan),
    /// Look for the entry point.
    CheckEntry,
    /// Report this.
    Done(Result<(), Error>),
}

/// What came of a step.
#[derive(Debug)]
pub enum InstallEvent {
    /// It was done, or failed.
    Did(Result<(), Error>),
    /// Whether the application came with a runtime.
    Payload(Result<bool, Error>),
    /// How to install.
    Planned(Result<InstallPlan, Error>),
    /// Whether the entry point is a file.
    Entry(bool),
}

/// Whether an event is what a step can come to.
pub open spec fn install_fits(step: InstallStep, event: InstallEvent) -> bool {
    match step {
        InstallStep::Settle => event is Did,
        InstallStep::FindPayload => event is Payload,
        InstallStep::RunBundled => event is Did,
        InstallStep::Plan => event is Planned,
        InstallStep::Provision => event is Did,
        InstallStep::Replan => event is Planned,
        InstallStep::Run(_) => event is Did,
        InstallStep::CheckEntry => event is Entry,
        InstallStep::Done(_) => false,
    }
}

/// Whether a plan is run for one exact release.
pub open spec fn runs(plan: InstallPlan, version: Seq<char>, next: InstallStep) -> bool {
    next matches InstallStep::Run(changed) && changed.node == plan.node && changed.npm_cli
        == plan.npm_cli && changed.target == plan.target && changed.spec@ == install::PACKAGE@
        + "@"@ + version
}

/// Whether one step of installing a release follows another after an event.
pub open spec fn install_follows(
    step: InstallStep,
    event: InstallEvent,
    version: Seq<char>,
    next: InstallStep,
) -> bool {
    match (step, event) {
        (InstallStep::Settle, InstallEvent::Did(done)) => match done {
            Ok(_) => next is FindPayload,
            Err(failure) => next == InstallStep::Done(Err(failure)),
        },
        (InstallStep::FindPayload, InstallEvent::Payload(found)) => match found {
            Ok(present) => if present && version == install::VERSION@ {
                next is RunBundled
            } else {
                next is Plan
            },
            Err(failure) => next == InstallStep::Done(Err(failure)),
        },
        (InstallStep::RunBundled, InstallEvent::Did(done)) => next == InstallStep::Done(done),
        (InstallStep::Plan, InstallEvent::Planned(planned)) => match planned {
            Ok(plan) => runs(plan, version, next),
            Err(Error::NpmMissing) => next is Provision,
            Err(failure) => next == InstallStep::Done(Err(failure)),
        },
        (InstallStep::Provision, InstallEvent::Did(done)) => match done {
            Ok(_) => next is Replan,
            Err(failure) => next == InstallStep::Done(Err(failure)),
        },
        (InstallStep::Replan, InstallEvent::Planned(planned)) => match planned {
            Ok(plan) => runs(plan, version, next),
            Err(failure) => next == InstallStep::Done(Err(failure)),
        },
        (InstallStep::Run(_), InstallEvent::Did(done)) => match done {
            Ok(_) => next is CheckEntry,
            Err(failure) => next == InstallStep::Done(Err(failure)),
        },
        (InstallStep::CheckEntry, InstallEvent::Entry(present)) => if present {
            next == InstallStep::Done(Ok(()))
        } else {
            next matches InstallStep::Done(Err(error)) && error@ == Fault::Install(
                "npm reported success but the harness entry point is missing"@,
            )
        },
        _ => false,
    }
}

/// The step that runs a plan for one exact release.
fn run_plan(plan: InstallPlan, version: &str) -> (next: InstallStep)
    ensures
        runs(plan, version@, next),
{
    InstallStep::Run(
        InstallPlan {
            node: plan.node,
            npm_cli: plan.npm_cli,
            target: plan.target,
            spec: install::spec_for(version),
        },
    )
}

/// What comes after a step of installing a release.
pub fn next_install(step: InstallStep, event: InstallEvent, version: &str) -> (next: InstallStep)
    requires
        install_fits(step, event),
    ensures
        install_follows(step, event, version@, next),
{
    match (step, event) {
        (InstallStep::Settle, InstallEvent::Did(done)) => match done {
            Ok(_) => InstallStep::FindPayload,
            Err(failure) => InstallStep::Done(Err(failure)),
        },
        (InstallStep::FindPayload, InstallEvent::Payload(found)) => match found {
            Ok(present) => if present && text::same(version, install::VERSION) {
                InstallStep::RunBundled
            } else {
                InstallStep::Plan
            },
            Err(failure) => InstallStep::Done(Err(failure)),
        },
        (InstallStep::RunBundled, InstallEvent::Did(done)) => InstallStep::Done(done),
        (InstallStep::Plan, InstallEvent::Planned(planned)) => match planned {
            Ok(plan) => run_plan(plan, version),
            Err(Error::NpmMissing) => InstallStep::Provision,
            Err(failure) => InstallStep::Done(Err(failure)),
        },
        (InstallStep::Provision, InstallEvent::Did(done)) => match done {
            Ok(_) => InstallStep::Replan,
            Err(failure) => InstallStep::Done(Err(failure)),
        },
        (InstallStep::Replan, InstallEvent::Planned(planned)) => match planned {
            Ok(plan) => run_plan(plan, version),
            Err(failure) => InstallStep::Done(Err(failure)),
        },
        (InstallStep::Run(_), InstallEvent::Did(done)) => match done {
            Ok(_) => InstallStep::CheckEntry,
            Err(failure) => InstallStep::Done(Err(failure)),
        },
        // npm can exit successfully having installed something other than what is
        // needed. Believe the file, not the exit code.
        (InstallStep::CheckEntry, InstallEvent::Entry(present)) => if present {
            InstallStep::Done(Ok(()))
        } else {
            InstallStep::Done(
                Err(
                    Error::Install(
                        "npm reported success but the harness entry point is missing".to_owned(),
                    ),
                ),
            )
        },
        (step, _) => step,
    }
}

/// What is logged before a step, if anything.
pub open spec fn install_announcement(step: InstallStep) -> Option<Seq<char>> {
    match step {
        InstallStep::RunBundled => Some(
            "installing bundled "@ + install::PACKAGE@ + "@"@ + install::VERSION@
                + " from the Full package"@,
        ),
        InstallStep::Provision => Some(
            "the selected Node installation has no working npm; installing a complete Studio-managed Node runtime"@,
        ),
        InstallStep::Run(plan) => Some("installing "@ + plan.spec@ + " into "@ + plan.target@),
        _ => None,
    }
}

/// What is logged before a step, if anything.
pub fn announce_install(step: &InstallStep) -> (line: Option<String>)
    ensures
        text::seen(line) == install_announcement(*step),
{
    match step {
        InstallStep::RunBundled => Some(
            text::join5(
                "installing bundled ",
                install::PACKAGE,
                "@",
                install::VERSION,
                " from the Full package",
            ),
        ),
        InstallStep::Provision => Some(
            "the selected Node installation has no working npm; installing a complete Studio-managed Node runtime".to_owned(),
        ),
        InstallStep::Run(plan) => Some(
            text::join4("installing ", &plan.spec, " into ", &plan.target),
        ),
        _ => None,
    }
}

/// What is said when the task that installs the bundled runtime breaks off.
pub fn offline_failure(cause: &str) -> (error: Error)
    ensures
        error@ == Fault::Install("offline installation did not finish: "@ + cause@),
{
    Error::Install(text::join2("offline installation did not finish: ", cause))
}

/// What is logged once an install has ended.
pub fn install_notice(outcome: &Result<(), Error>) -> (line: (Stream, String))
    ensures
        match *outcome {
            Ok(_) => line.0 == Stream::Stdout && line.1@ == install::PACKAGE@
                + " is installed"@,
            Err(failure) => line.0 == Stream::Stderr && line.1@ == failure@.message(),
        },
{
    match outcome {
        Ok(_) => (Stream::Stdout, text::join2(install::PACKAGE, " is installed")),
        Err(failure) => (Stream::Stderr, failure.message()),
    }
}

/// How many steps of an install may still come.
pub open spec fn install_steps_left(step: InstallStep) -> int {
    match step {
        InstallStep::Settle => 7,
        InstallStep::FindPayload => 6,
        InstallStep::Plan => 5,
        InstallStep::Provision => 4,
        InstallStep::Replan => 3,
        InstallStep::Run(_) => 2,
        InstallStep::RunBundled => 1,
        InstallStep::CheckEntry => 1,
        InstallStep::Done(_) => 0,
    }
}

/// An install ends, and Node is provisioned at most once on the way.
pub proof fn an_install_ends(
    step: InstallStep,
    event: InstallEvent,
    version: Seq<char>,
    next: InstallStep,
)
    requires
        install_follows(step, event, version, next),
    ensures
        0 <= install_steps_left(next) < install_steps_left(step),
{
}

/// Success is reported only where the bundled release was asked for and its
/// runtime installed, or where the entry point is there.
pub proof fn success_is_seen(
    step: InstallStep,
    event: InstallEvent,
    version: Seq<char>,
    next: InstallStep,
)
    requires
        install_follows(step, event, version, next),
        next == InstallStep::Done(Ok(())),
    ensures
        step is RunBundled && event == InstallEvent::Did(Ok(())) || step is CheckEntry && event
            == InstallEvent::Entry(true),
{
    if let InstallEvent::Did(Ok(unit)) = event {
        assert(unit == ());
    }
}

/// The runtime that came with the application is installed only as the release it
/// is.
pub proof fn only_the_built_in_release_is_bundled(
    step: InstallStep,
    event: InstallEvent,
    version: Seq<char>,
    next: InstallStep,
)
    requires
        install_follows(step, event, version, next),
        next is RunBundled,
    ensures
        version == install::VERSION@ && event == InstallEvent::Payload(Ok(true)),
{
}

/// A start that goes well: the selected profile is launched, recorded as healthy
/// under its own name, and reported where it is served.
pub proof fn a_start_that_goes_well_is_recorded_and_reported(
    profile: String,
    origin: String,
    second: StartStep,
    third: StartStep,
)
    requires
        start_follows(
            StartStep::Launch,
            (StartEvent::Launched { profile, outcome: Launched::Serving(origin) }),
            second,
        ),
        start_follows(second, StartEvent::Marked(Ok(())), third),
    ensures
        second == (StartStep::MarkHealthy { profile, origin }),
        third == StartStep::Done(Ok(origin)),
{
}

/// A profile that does not start is followed by the last one that is known to, where
/// there is one, and that one is recorded under its own name once it serves.
pub proof fn a_failed_profile_is_followed_by_the_last_good_one(
    profile: String,
    failure: Error,
    recovered: String,
    launched: String,
    origin: String,
    second: StartStep,
    third: StartStep,
    fourth: StartStep,
)
    requires
        start_follows(
            StartStep::Launch,
            (StartEvent::Launched { profile, outcome: Launched::Failed(failure) }),
            second,
        ),
        start_follows(second, StartEvent::Found(Ok(Some(recovered))), third),
        start_follows(
            third,
            (StartEvent::Launched { profile: launched, outcome: Launched::Serving(origin) }),
            fourth,
        ),
    ensures
        third is Relaunch && third->recovered == recovered,
        fourth == (StartStep::MarkHealthy { profile: recovered, origin }),
{
}

/// A start that was refused, or that failed where no profile is known to start,
/// reports its own failure; nothing is tried after a refusal.
pub proof fn a_refused_start_reports_its_own_failure(
    profile: String,
    failure: Error,
    second: StartStep,
    third: StartStep,
    refused: StartStep,
)
    requires
        start_follows(
            StartStep::Launch,
            (StartEvent::Launched { profile, outcome: Launched::Refused(failure) }),
            refused,
        ),
        start_follows(
            StartStep::Launch,
            (StartEvent::Launched { profile, outcome: Launched::Failed(failure) }),
            second,
        ),
        start_follows(second, StartEvent::Found(Ok(None)), third),
    ensures
        refused == StartStep::Done(Err(failure)),
        third == StartStep::Done(Err(failure)),
{
}

/// Where the last good profile fails as well, what is reported names both profiles
/// and both reasons.
pub proof fn two_failures_are_both_reported(
    attempted: String,
    reason: String,
    recovered: String,
    launched: String,
    failure: Error,
    next: StartStep,
)
    requires
        start_follows(
            (StartStep::Relaunch { attempted, reason, recovered }),
            (StartEvent::Launched { profile: launched, outcome: Launched::Failed(failure) }),
            next,
        ),
    ensures
        next matches StartStep::Done(Err(error)) && (error@ matches Fault::Profile(said) && {
            &&& text::holds_text(said, attempted@)
            &&& text::holds_text(said, reason@)
            &&& text::holds_text(said, recovered@)
            &&& text::holds_text(said, failure@.message())
        }),
{
    let a = "profile "@;
    let b = " failed to start ("@;
    let c = "); last-known-good profile "@;
    let d = " also failed ("@;
    let e = ")"@;
    let said = a + attempted@ + b + reason@ + c + recovered@ + d + failure@.message() + e;
    text::lemma_holds_between(a, attempted@, b + reason@ + c + recovered@ + d
        + failure@.message() + e);
    assert(a + attempted@ + (b + reason@ + c + recovered@ + d + failure@.message() + e) =~= said);
    text::lemma_holds_between(a + attempted@ + b, reason@, c + recovered@ + d
        + failure@.message() + e);
    assert(a + attempted@ + b + reason@ + (c + recovered@ + d + failure@.message() + e) =~= said);
    text::lemma_holds_between(a + attempted@ + b + reason@ + c, recovered@, d
        + failure@.message() + e);
    assert(a + attempted@ + b + reason@ + c + recovered@ + (d + failure@.message() + e) =~= said);
    text::lemma_holds_between(
        a + attempted@ + b + reason@ + c + recovered@ + d,
        failure@.message(),
        e,
    );
}

/// An install from the registry goes one way: the harness is settled, the payload
/// looked for, the install planned and run for exactly the release that was asked
/// for with the runtime, the npm and the target of the plan, and the entry point is
/// looked for before success is reported.
pub proof fn an_install_from_the_registry_goes_one_way(
    version: Seq<char>,
    present: bool,
    plan: InstallPlan,
    second: InstallStep,
    third: InstallStep,
    fourth: InstallStep,
    fifth: InstallStep,
    sixth: InstallStep,
)
    requires
        version != install::VERSION@ || !present,
        install_follows(InstallStep::Settle, InstallEvent::Did(Ok(())), version, second),
        install_follows(second, InstallEvent::Payload(Ok(present)), version, third),
        install_follows(third, InstallEvent::Planned(Ok(plan)), version, fourth),
        install_follows(fourth, InstallEvent::Did(Ok(())), version, fifth),
        install_follows(fifth, InstallEvent::Entry(true), version, sixth),
    ensures
        second is FindPayload,
        third is Plan,
        fourth matches InstallStep::Run(run) && run.spec@ == "@deepseek-ai/dsh@"@ + version
            && run.node == plan.node && run.npm_cli == plan.npm_cli && run.target == plan.target,
        fifth is CheckEntry,
        sixth == InstallStep::Done(Ok(())),
{
    reveal_strlit("@deepseek-ai/dsh@");
    reveal_strlit("@deepseek-ai/dsh");
    reveal_strlit("@");
    assert(install::PACKAGE@ + "@"@ =~= "@deepseek-ai/dsh@"@);
}

/// The built-in release is installed from the application's own package where there
/// is one, and what came of that is what is reported.
pub proof fn the_built_in_release_is_installed_from_the_package(
    second: InstallStep,
    outcome: Result<(), Error>,
    third: InstallStep,
)
    requires
        install_follows(
            InstallStep::FindPayload,
            InstallEvent::Payload(Ok(true)),
            install::VERSION@,
            second,
        ),
        install_follows(second, InstallEvent::Did(outcome), install::VERSION@, third),
    ensures
        second is RunBundled,
        third == InstallStep::Done(outcome),
{
}

/// Where npm is missing, a complete Node runtime is installed first and the install
/// planned once more; missing npm a second time, and every other failure of a step,
/// is reported as it is.
pub proof fn a_missing_npm_is_provided_once(
    version: Seq<char>,
    failure: Error,
    second: InstallStep,
    third: InstallStep,
    last: InstallStep,
    step: InstallStep,
    failed: InstallStep,
)
    requires
        install_follows(
            InstallStep::Plan,
            InstallEvent::Planned(Err(Error::NpmMissing)),
            version,
            second,
        ),
        install_follows(second, InstallEvent::Did(Ok(())), version, third),
        install_follows(third, InstallEvent::Planned(Err(failure)), version, last),
        install_follows(step, InstallEvent::Did(Err(failure)), version, failed),
    ensures
        second is Provision,
        third is Replan,
        last == InstallStep::Done(Err(failure)),
        failed == InstallStep::Done(Err(failure)),
{
}

/// A missing entry point is a failure whatever npm said.
pub proof fn a_missing_entry_point_is_a_failure(version: Seq<char>, next: InstallStep)
    requires
        install_follows(InstallStep::CheckEntry, InstallEvent::Entry(false), version, next),
    ensures
        next matches InstallStep::Done(outcome) && outcome is Err,
{
}

/// Where a profile does not start and the last good one does not either, what is
/// reported names the profile that was asked for and why that one failed.
pub proof fn the_first_failure_is_remembered(
    profile: String,
    first: Error,
    recovered: String,
    launched: String,
    last: Error,
    second: StartStep,
    third: StartStep,
    fourth: StartStep,
)
    requires
        start_follows(
            StartStep::Launch,
            (StartEvent::Launched { profile, outcome: Launched::Failed(first) }),
            second,
        ),
        start_follows(second, StartEvent::Found(Ok(Some(recovered))), third),
        start_follows(
            third,
            (StartEvent::Launched { profile: launched, outcome: Launched::Failed(last) }),
            fourth,
        ),
    ensures
        second == (StartStep::Recover { attempted: profile, failure: first }),
        fourth matches StartStep::Done(Err(error)) && error@ == Fault::Profile(
            "profile "@ + profile@ + " failed to start ("@ + first@.message()
                + "); last-known-good profile "@ + recovered@ + " also failed ("@ + last@.message()
                + ")"@,
        ),
{
}

/// A problem with finding the last good profile, with launching it or with recording
/// a profile is what is reported.
pub proof fn a_problem_on_the_way_is_reported(
    attempted: String,
    reason: String,
    recovered: String,
    origin: String,
    failure: Error,
    problem: Error,
    found: StartStep,
    refused: StartStep,
    marked: StartStep,
)
    requires
        start_follows(
            (StartStep::Recover { attempted, failure }),
            StartEvent::Found(Err(problem)),
            found,
        ),
        start_follows(
            (StartStep::Relaunch { attempted, reason, recovered }),
            (StartEvent::Launched { profile: recovered, outcome: Launched::Refused(problem) }),
            refused,
        ),
        start_follows(
            (StartStep::MarkHealthy { profile: recovered, origin }),
            StartEvent::Marked(Err(problem)),
            marked,
        ),
    ensures
        found == StartStep::Done(Err(problem)),
        refused == StartStep::Done(Err(problem)),
        marked == StartStep::Done(Err(problem)),
{
}

/// An install says what it is about to do before the three steps that take long, and
/// says nothing before the others.
pub proof fn an_install_says_what_takes_long(step: InstallStep)
    ensures
        install_announcement(InstallStep::RunBundled) == Some(
            "installing bundled "@ + "@deepseek-ai/dsh"@ + "@"@ + "0.1.2-rc.1"@
                + " from the Full package"@,
        ),
        install_announcement(InstallStep::Provision) == Some(
            "the selected Node installation has no working npm; installing a complete Studio-managed Node runtime"@,
        ),
        step matches InstallStep::Run(plan) ==> install_announcement(step) == Some(
            "installing "@ + plan.spec@ + " into "@ + plan.target@,
        ),
        install_announcement(step) is Some <==> step is RunBundled || step is Provision || step is Run,
{
}

/// An install without the entry point it should have left is a failure, whatever npm
/// reported, and one with it is a success.
pub proof fn an_install_without_an_entry_is_a_failure(
    version: Seq<char>,
    missing: InstallStep,
    present: InstallStep,
)
    requires
        install_follows(InstallStep::CheckEntry, InstallEvent::Entry(false), version, missing),
        install_follows(InstallStep::CheckEntry, InstallEvent::Entry(true), version, present),
    ensures
        missing matches InstallStep::Done(Err(error)) && error@ == Fault::Install(
            "npm reported success but the harness entry point is missing"@,
        ),
        present == InstallStep::Done(Ok(())),
{
}

/// A step that is done waits for nothing more, and every other step waits for what it
/// asked for.
pub proof fn nothing_is_waited_for_at_the_end(
    start: StartStep,
    begun: StartEvent,
    install: InstallStep,
    event: InstallEvent,
)
    ensures
        start is Done ==> !start_fits(start, begun),
        install is Done ==> !install_fits(install, event),
        start_fits(start, begun) ==> (start is Launch || start is Relaunch <==> begun is Launched)
            && (start is Recover <==> begun is Found) && (start is MarkHealthy <==> begun is Marked),
        install_fits(install, event) ==> (install is Plan || install is Replan <==> event is Planned)
            && (install is FindPayload <==> event is Payload) && (install is CheckEntry <==> event is Entry),
{
}

} // verus!
