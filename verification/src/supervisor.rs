//! Keep one `dsh web` process alive and observable.
//!
//! The shell makes one promise: the local service does not silently disappear.
//! That means owning the whole lifecycle, bounded startup, streamed output,
//! crash detection and backoff restart, in one place, and exposing it as a state
//! machine the UI can render honestly.
use vstd::prelude::*;

use crate::command;
use crate::command::{CommandLine, Invocation};
use crate::error::{Error, Fault};
use crate::history;
use crate::history::History;
use crate::logging;
use crate::readiness;
use crate::readiness::{Announcement, Ready};
use crate::text;
use crate::text::Class;

verus! {

/// How long the harness gets to announce its port before it is considered stuck,
/// in seconds.
///
/// Cold starts load many plugins off disk, so this is generous on purpose; a
/// tighter bound would fire on slow disks rather than on real failures.
pub const READINESS_TIMEOUT: u64 = 120;

/// How many restarts are tried after an unexpected exit.
pub const RESTARTS: usize = 5;

/// How many times startup is retried after a transient failure.
pub const INITIAL_RETRIES: usize = 4;

/// Enough startup stderr to identify a loader failure without retaining an
/// unbounded process log.
pub const STARTUP_STDERR_LINES: usize = 160;

/// Consecutive misses tolerated before the harness is treated as wedged.
///
/// The harness runs model turns and tool calls, so it is allowed to be busy;
/// three misses is half a minute of not answering at all, which is not busy.
pub const HEALTH_MISS_LIMIT: u32 = 3;

/// Lines of harness output kept for the log panel.
pub const LOG_HISTORY: usize = 2_000;

/// Which pipe a log line came from.
#[derive(Clone, Copy, Debug, PartialEq, Eq, Structural)]
pub enum Stream {
    Stdout,
    Stderr,
}

/// What the harness is doing right now.
#[derive(Debug, PartialEq, Eq)]
pub enum Status {
    Stopped,
    Starting,
    Ready { origin: String, pid: u32 },
    Restarting { attempt: u32, delay_ms: u64 },
    Failed { reason: String },
}

/// What the harness is doing, by what it says.
pub enum Phase {
    Stopped,
    Starting,
    Ready(Seq<char>, u32),
    Restarting(u32, u64),
    Failed(Seq<char>),
}

impl View for Status {
    type V = Phase;

    open spec fn view(&self) -> Phase {
        match *self {
            Status::Stopped => Phase::Stopped,
            Status::Starting => Phase::Starting,
            Status::Ready { origin, pid } => Phase::Ready(origin@, pid),
            Status::Restarting { attempt, delay_ms } => Phase::Restarting(attempt, delay_ms),
            Status::Failed { reason } => Phase::Failed(reason@),
        }
    }
}

impl Status {
    /// A copy of the status.
    pub fn duplicate(&self) -> (copy: Status)
        ensures
            copy@ == self@,
    {
        match self {
            Status::Stopped => Status::Stopped,
            Status::Starting => Status::Starting,
            Status::Ready { origin, pid } => Status::Ready { origin: origin.clone(), pid: *pid },
            Status::Restarting { attempt, delay_ms } => Status::Restarting {
                attempt: *attempt,
                delay_ms: *delay_ms,
            },
            Status::Failed { reason } => Status::Failed { reason: reason.clone() },
        }
    }
}

/// Something the UI should react to.
#[derive(Debug)]
pub enum Event {
    Status(Status),
    Log { stream: Stream, line: String },
}

/// Everything needed to start the harness once.
#[derive(Debug)]
pub struct LaunchPlan {
    /// Node executable that will run the harness.
    pub node: String,
    /// Path to the harness CLI entry point.
    pub entry: String,
    /// Studio-owned Node resolver that safely falls back to the qualified runtime
    /// when the system cannot traverse upstream's profile links.
    pub resolver: String,
    /// Profile to boot: which layer stack the harness composes, and therefore
    /// which plugins the session has.
    pub profile: String,
    /// Runtime-owned patch layers. They are supplied for this process instead of
    /// being persisted in the user's profile bundle stack.
    pub patches: Vec<String>,
    /// Working directory inherited by agent sessions and their tools.
    pub workspace: String,
    /// Interface to bind.
    pub host: String,
    /// Listen port, or `0` to let the OS choose a free one.
    pub port: u16,
    /// Selected login-shell exports for GUI launches.
    pub environment: Vec<(String, String)>,
}

/// Who launches the harness, and on whose state.
#[derive(Debug)]
pub struct Launcher {
    pub studio_version: String,
    pub runtime_version: String,
    pub home: String,
    pub profile_dir: String,
}

/// The flags that hand patch layers to the launcher, for the first `count`.
pub open spec fn patch_flags(patches: Seq<Seq<char>>, count: nat) -> Seq<Seq<char>>
    decreases count,
{
    if count == 0 || count > patches.len() {
        Seq::empty()
    } else {
        patch_flags(patches, (count - 1) as nat).push("--patch"@).push(patches[count - 1])
    }
}

impl LaunchPlan {
    /// The launcher's own arguments. Node options come before the script entry,
    /// and the profile and its patches before the arguments meant for the
    /// profile's own application: the launcher stops reading its own flags at the
    /// first token it does not recognise and hands everything after it on.
    pub open spec fn launcher_arguments(self) -> Seq<Seq<char>> {
        seq!["--require"@, self.resolver@, self.entry@, "--profile"@, self.profile@] + patch_flags(
            text::texts(self.patches@),
            self.patches@.len(),
        )
    }

    /// The variables the launcher owns.
    pub open spec fn identity(self, launcher: Launcher) -> Seq<(Seq<char>, Seq<char>)> {
        seq![
            ("DSH_DESKTOP"@, "1"@),
            ("DSH_STUDIO_VERSION"@, launcher.studio_version@),
            ("DSH_STUDIO_RUNTIME_VERSION"@, launcher.runtime_version@),
            ("DSH_STUDIO_PROFILE"@, self.profile@),
            ("DSH_HOME"@, launcher.home@),
            ("DSH_STUDIO_PROFILE_DIR"@, launcher.profile_dir@),
        ]
    }

    /// What is run, with further arguments behind the launcher's own. Login-shell
    /// exports are untrusted input and are applied before what the launcher owns.
    pub open spec fn invocation(self, launcher: Launcher, further: Seq<Seq<char>>) -> Invocation {
        Invocation {
            program: self.node@,
            arguments: self.launcher_arguments() + further,
            directory: Some(self.workspace@),
            environment: command::variables(self.environment@) + self.identity(launcher),
        }
    }

    /// The launcher with its own arguments.
    fn launcher_command(&self, launcher: &Launcher) -> (line: CommandLine)
        ensures
            line@ == self.invocation(*launcher, Seq::empty()),
    {
        let mut arguments: Vec<String> = Vec::new();
        command::argue(&mut arguments, "--require");
        command::argue(&mut arguments, &self.resolver);
        command::argue(&mut arguments, &self.entry);
        command::argue(&mut arguments, "--profile");
        command::argue(&mut arguments, &self.profile);
        let ghost front = text::texts(arguments@);
        let ghost patches = text::texts(self.patches@);
        assert(front =~= seq![
            "--require"@,
            self.resolver@,
            self.entry@,
            "--profile"@,
            self.profile@,
        ]);
        let mut index: usize = 0;
        assert(front + patch_flags(patches, 0) =~= front);
        while index < self.patches.len()
            invariant
                index <= self.patches@.len(),
                patches == text::texts(self.patches@),
                text::texts(arguments@) == front + patch_flags(patches, index as nat),
            decreases self.patches.len() - index,
        {
            command::argue(&mut arguments, "--patch");
            command::argue(&mut arguments, &self.patches[index]);
            assert(text::texts(arguments@) =~= front + patch_flags(patches, (index + 1) as nat));
            index += 1;
        }
        let mut environment: Vec<(String, String)> = Vec::new();
        let mut at: usize = 0;
        let ghost exported = command::variables(self.environment@);
        assert(command::variables(environment@) =~= exported.take(0));
        while at < self.environment.len()
            invariant
                at <= self.environment@.len(),
                exported == command::variables(self.environment@),
                command::variables(environment@) == exported.take(at as int),
            decreases self.environment.len() - at,
        {
            command::set(&mut environment, &self.environment[at].0, &self.environment[at].1);
            assert(command::variables(environment@) =~= exported.take(at + 1));
            at += 1;
        }
        assert(exported.take(at as int) =~= exported);
        // Lets harness plugins detect that a native shell owns the session.
        command::set(&mut environment, "DSH_DESKTOP", "1");
        // The managed integration turns these values into a read-only contract.
        // Plugins never receive a native handle or package-manager authority.
        command::set(&mut environment, "DSH_STUDIO_VERSION", &launcher.studio_version);
        command::set(&mut environment, "DSH_STUDIO_RUNTIME_VERSION", &launcher.runtime_version);
        command::set(&mut environment, "DSH_STUDIO_PROFILE", &self.profile);
        command::set(&mut environment, "DSH_HOME", &launcher.home);
        command::set(&mut environment, "DSH_STUDIO_PROFILE_DIR", &launcher.profile_dir);
        assert(command::variables(environment@) =~= exported + self.identity(*launcher));
        let line = CommandLine {
            program: self.node.clone(),
            arguments,
            directory: Some(self.workspace.clone()),
            environment,
        };
        assert(line@.arguments =~= self.invocation(*launcher, Seq::empty()).arguments);
        line
    }

    /// The command that boots the profile. The Web surface opens the system's
    /// browser by default; Studio owns presentation inside its own window, so
    /// every boot and restart explicitly suppresses that handoff.
    pub fn to_command(&self, launcher: &Launcher) -> (line: CommandLine)
        ensures
            line@ == self.invocation(
                *launcher,
                seq![
                    "--no-open"@,
                    "--host"@,
                    self.host@,
                    "--port"@,
                    text::decimal(self.port as nat),
                ],
            ),
    {
        let mut line = self.launcher_command(launcher);
        let ghost front = line@.arguments;
        command::argue(&mut line.arguments, "--no-open");
        command::argue(&mut line.arguments, "--host");
        command::argue(&mut line.arguments, &self.host);
        command::argue(&mut line.arguments, "--port");
        command::argue(&mut line.arguments, &text::number_text(self.port as u64));
        assert(line@.arguments =~= self.launcher_arguments() + seq![
            "--no-open"@,
            "--host"@,
            self.host@,
            "--port"@,
            text::decimal(self.port as nat),
        ]);
        line
    }

    /// Ask the Harness launcher to compose the exact profile without booting its
    /// plugins, to reject loader conflicts before startup log noise.
    pub fn dump_command(&self, launcher: &Launcher) -> (line: CommandLine)
        ensures
            line@ == self.invocation(*launcher, seq!["--dump-config"@]),
    {
        let mut line = self.launcher_command(launcher);
        command::argue(&mut line.arguments, "--dump-config");
        assert(line@.arguments =~= self.launcher_arguments() + seq!["--dump-config"@]);
        line
    }
}

/// Whatever a login shell exports, the harness sees the identity its launcher
/// gives it.
pub proof fn exports_cannot_forge_the_identity(plan: LaunchPlan, launcher: Launcher)
    ensures
        ({
            let seen = plan.invocation(launcher, Seq::empty()).environment;
            &&& command::value_seen(seen, "DSH_DESKTOP"@) == Some("1"@)
            &&& command::value_seen(seen, "DSH_STUDIO_VERSION"@) == Some(
                launcher.studio_version@,
            )
            &&& command::value_seen(seen, "DSH_STUDIO_RUNTIME_VERSION"@) == Some(
                launcher.runtime_version@,
            )
            &&& command::value_seen(seen, "DSH_STUDIO_PROFILE"@) == Some(plan.profile@)
            &&& command::value_seen(seen, "DSH_HOME"@) == Some(launcher.home@)
            &&& command::value_seen(seen, "DSH_STUDIO_PROFILE_DIR"@) == Some(
                launcher.profile_dir@,
            )
        }),
{
    reveal_strlit("DSH_DESKTOP");
    reveal_strlit("DSH_STUDIO_VERSION");
    reveal_strlit("DSH_STUDIO_RUNTIME_VERSION");
    reveal_strlit("DSH_STUDIO_PROFILE");
    reveal_strlit("DSH_HOME");
    reveal_strlit("DSH_STUDIO_PROFILE_DIR");
    reveal_with_fuel(command::value_seen, 7);
    let exported = command::variables(plan.environment@);
    let owned = plan.identity(launcher);
    let seen = exported + owned;
    assert("DSH_STUDIO_VERSION"@.len() == 18 && "DSH_STUDIO_PROFILE"@.len() == 18);
    assert("DSH_STUDIO_VERSION"@[11] != "DSH_STUDIO_PROFILE"@[11]);
    assert("DSH_DESKTOP"@.len() == 11 && "DSH_HOME"@.len() == 8);
    assert("DSH_STUDIO_RUNTIME_VERSION"@.len() == 26 && "DSH_STUDIO_PROFILE_DIR"@.len() == 22);
    let five = seen.drop_last();
    let four = five.drop_last();
    let three = four.drop_last();
    let two = three.drop_last();
    let one = two.drop_last();
    assert(seen.last() == owned[5]);
    assert(five.last() == owned[4]);
    assert(four.last() == owned[3]);
    assert(three.last() == owned[2]);
    assert(two.last() == owned[1]);
    assert(one.last() == owned[0]);
}

/// The delay before a restart, in milliseconds; running out means giving up.
pub open spec fn restart_delay(index: int) -> Option<u64> {
    if index == 0 {
        Some(500)
    } else if index == 1 {
        Some(1_000)
    } else if index == 2 {
        Some(2_000)
    } else if index == 3 {
        Some(5_000)
    } else if index == 4 {
        Some(10_000)
    } else {
        None
    }
}

/// The delay before startup is tried again after a transient failure, in
/// milliseconds.
pub open spec fn retry_wait(index: int) -> Option<u64> {
    if index == 0 {
        Some(250)
    } else if index == 1 {
        Some(750)
    } else if index == 2 {
        Some(1_500)
    } else if index == 3 {
        Some(3_000)
    } else {
        None
    }
}

/// The delay before a restart, in milliseconds.
fn delay_before(index: usize) -> (delay: Option<u64>)
    ensures
        delay == restart_delay(index as int),
{
    if index == 0 {
        Some(500)
    } else if index == 1 {
        Some(1_000)
    } else if index == 2 {
        Some(2_000)
    } else if index == 3 {
        Some(5_000)
    } else if index == 4 {
        Some(10_000)
    } else {
        None
    }
}

/// Whether startup failed because an installation-owned package was missing from
/// a profile.
///
/// This is deliberately narrower than any module that was not found. A missing
/// user plugin or a broken package must remain actionable; only an
/// installation-owned package imported from a profile can be recovered from the
/// qualified managed runtime.
pub open spec fn transient(detail: Seq<char>) -> bool {
    &&& text::holds_text(detail, "ERR_MODULE_NOT_FOUND"@)
    &&& text::holds_text(detail, "Cannot find package '@deepseek-ai/"@)
    &&& text::holds_text(detail, "\\profiles\\"@) || text::holds_text(detail, "/profiles/"@)
}

/// Whether startup failed because an installation-owned package was missing from
/// a profile.
pub fn transient_profile_module_resolution_failure(detail: &str) -> (answer: bool)
    ensures
        answer == transient(detail@),
{
    text::contains(detail, "ERR_MODULE_NOT_FOUND") && text::contains(
        detail,
        "Cannot find package '@deepseek-ai/",
    ) && (text::contains(detail, "\\profiles\\") || text::contains(detail, "/profiles/"))
}

/// What is shown once automatic recovery is exhausted.
pub const UNAVAILABLE: &'static str =
    "the managed Harness modules remained unavailable after automatic recovery; restart DSH Studio, or use Repair in Environment if it repeats. The selected Profile and its plugins were not deleted";

/// A failed startup as it is shown: a transient failure as something to act on,
/// any other as it is.
pub fn actionable_module_failure(failure: Error) -> (shown: Error)
    ensures
        shown@ == (if transient(failure@.message()) {
            Fault::Readiness(UNAVAILABLE@)
        } else {
            failure@
        }),
{
    if transient_profile_module_resolution_failure(&failure.message()) {
        Error::Readiness(UNAVAILABLE.to_owned())
    } else {
        failure
    }
}

/// When startup is tried again after a failure; `attempt` counts from zero.
/// Configuration and third-party plugin errors fail at once.
pub fn retry_delay(attempt: usize, failure: &Error) -> (delay: Option<u64>)
    ensures
        delay == retry(attempt as nat, failure@),
{
    if !transient_profile_module_resolution_failure(&failure.message()) {
        return None;
    }
    if attempt == 0 {
        Some(250)
    } else if attempt == 1 {
        Some(750)
    } else if attempt == 2 {
        Some(1_500)
    } else if attempt == 3 {
        Some(3_000)
    } else {
        None
    }
}

/// Startup is tried again four times at most.
pub proof fn startup_retries_are_bounded(attempt: int)
    requires
        attempt >= INITIAL_RETRIES,
    ensures
        retry_wait(attempt) is None,
{
}

/// What is logged before startup is tried again.
pub fn retry_notice(delay_ms: u64) -> (line: String)
    ensures
        line@ == notice(delay_ms),
{
    text::join3(
        "the managed profile module fallback was temporarily unavailable; retrying startup in ",
        &text::number_text(delay_ms),
        " ms",
    )
}

/// How one launch attempt came out.
#[derive(Debug)]
pub enum LaunchOutcome {
    /// The harness announced something.
    Announced(Ready),
    /// The harness closed its output first.
    Closed,
    /// The harness ended first; its status, or why it could not be waited on.
    Exited(Result<String, String>),
    /// The harness announced nothing in time.
    TimedOut,
    /// The harness has no diagnostic pipes.
    NoPipes,
}

/// What comes of one launch attempt: the origin it serves on, or why it failed.
pub open spec fn launched(outcome: LaunchOutcome) -> Result<Seq<char>, Seq<char>> {
    match outcome {
        LaunchOutcome::Announced(ready) => match ready@ {
            Announcement::At(origin) => Ok(origin),
            Announcement::Rejected(reason) => Err(reason),
        },
        LaunchOutcome::Closed => Err("harness closed its output without announcing a port"@),
        LaunchOutcome::Exited(Ok(status)) => Err(
            "harness exited during startup ("@ + status@ + ")"@,
        ),
        LaunchOutcome::Exited(Err(cause)) => Err("harness could not be waited on: "@ + cause@),
        LaunchOutcome::TimedOut => Err(
            "harness did not announce a port within "@ + text::decimal(READINESS_TIMEOUT as nat)
                + "s"@,
        ),
        LaunchOutcome::NoPipes => Err("harness did not provide its diagnostic pipes"@),
    }
}

/// What comes of one launch attempt.
pub fn conclude_launch(outcome: LaunchOutcome) -> (origin: Result<String, Error>)
    ensures
        match (origin, launched(outcome)) {
            (Ok(found), Ok(wanted)) => found@ == wanted,
            (Err(error), Err(wanted)) => error@ == Fault::Readiness(wanted),
            _ => false,
        },
{
    match outcome {
        LaunchOutcome::Announced(ready) => match ready {
            Ready::At(origin) => Ok(origin),
            Ready::Rejected(reason) => Err(Error::Readiness(reason)),
        },
        LaunchOutcome::Closed => Err(
            Error::Readiness("harness closed its output without announcing a port".to_owned()),
        ),
        LaunchOutcome::Exited(Ok(status)) => Err(
            Error::Readiness(text::join3("harness exited during startup (", &status, ")")),
        ),
        LaunchOutcome::Exited(Err(cause)) => Err(
            Error::Readiness(text::join2("harness could not be waited on: ", &cause)),
        ),
        LaunchOutcome::TimedOut => Err(
            Error::Readiness(
                text::join3(
                    "harness did not announce a port within ",
                    &text::number_text(READINESS_TIMEOUT),
                    "s",
                ),
            ),
        ),
        LaunchOutcome::NoPipes => Err(
            Error::Readiness("harness did not provide its diagnostic pipes".to_owned()),
        ),
    }
}

/// A failed startup with what the harness wrote to stderr meanwhile.
pub fn with_startup_stderr(failure: Error, stderr: &Vec<String>) -> (shown: Error)
    ensures
        shown@ == (if stderr@.len() == 0 {
            failure@
        } else {
            Fault::Readiness(
                failure@.message() + "\n"@ + text::joined(text::texts(stderr@), "\n"@),
            )
        }),
{
    if stderr.len() == 0 {
        failure
    } else {
        Error::Readiness(text::join3(&failure.message(), "\n", &text::join(stderr, "\n")))
    }
}

/// One of the harness's pipes while it is read.
#[derive(Debug)]
pub struct Pump {
    /// Whether an announcement is still waited for on this pipe.
    pub waiting: bool,
    /// The last lines, where they are kept to explain a failure.
    pub tail: Option<History<String>>,
}

/// What is kept of a pipe's lines.
pub open spec fn pump_tail(pump: Pump) -> Option<Seq<Seq<char>>> {
    match pump.tail {
        Some(tail) => Some(text::texts(tail@)),
        None => None,
    }
}

impl Pump {
    /// Whether the kept lines are bounded.
    pub open spec fn bounded(self) -> bool {
        self.tail matches Some(tail) ==> tail.bounded() && tail.limit == STARTUP_STDERR_LINES
    }

    /// A pipe that is about to be read.
    pub fn new(waiting: bool, capture: bool) -> (pump: Pump)
        ensures
            pump.bounded(),
            pump.waiting == waiting,
            pump_tail(pump) == (if capture {
                Some(Seq::<Seq<char>>::empty())
            } else {
                None
            }),
    {
        let tail = if capture {
            let tail: History<String> = History::new(STARTUP_STDERR_LINES);
            assert(text::texts(tail@) =~= Seq::<Seq<char>>::empty());
            Some(tail)
        } else {
            None
        };
        Pump { waiting, tail }
    }

    /// What taking in a line leads to: what is logged of it, and what it announces
    /// where an announcement is still waited for. A second announcement is ignored
    /// rather than treated as a conflict.
    pub open spec fn takes(
        self,
        raw: Seq<char>,
        after: Pump,
        found: (String, Option<Ready>),
    ) -> bool {
        let line = text::trimmed_end(raw, Class::White);
        &&& found.0@ == line
        &&& match (found.1, readiness::announced(line)) {
            (Some(ready), Some(wanted)) => self.waiting && ready@ == wanted && !after.waiting,
            (None, Some(_)) => !self.waiting && !after.waiting,
            (None, None) => after.waiting == self.waiting,
            (Some(_), None) => false,
        }
        &&& pump_tail(after) == (match pump_tail(self) {
            Some(kept) => Some(history::kept(kept.push(line), STARTUP_STDERR_LINES as nat)),
            None => None,
        })
    }

    /// Takes in one line as it was written. A byte that is not UTF-8 does not end
    /// the output.
    pub fn take(&mut self, raw: &Vec<u8>) -> (found: (String, Option<Ready>))
        requires
            old(self).bounded(),
        ensures
            final(self).bounded(),
            old(self).takes(text::lossy(raw@), *final(self), found),
    {
        let line = text::decode_lossy(raw);
        self.take_line(&line)
    }

    /// Takes in one line.
    pub fn take_line(&mut self, raw: &str) -> (found: (String, Option<Ready>))
        requires
            old(self).bounded(),
        ensures
            final(self).bounded(),
            old(self).takes(raw@, *final(self), found),
    {
        let line = text::trim_end(raw, Class::White);
        let mut announcement: Option<Ready> = None;
        if self.waiting {
            announcement = readiness::parse(&line);
            if announcement.is_some() {
                self.waiting = false;
            }
        }
        let kept = line.clone();
        if let Some(tail) = &mut self.tail {
            let ghost before = tail@;
            tail.add(kept);
            assert(text::texts(tail@) =~= history::kept(
                text::texts(before).push(line@),
                STARTUP_STDERR_LINES as nat,
            ));
        }
        (line, announcement)
    }
}

/// Whether a fixed port can be used, from why binding it failed, if it did. A
/// port that the system chooses needs no trial.
pub fn fixed_port_available(host: &str, port: u16, bind_failure: &Option<String>) -> (checked:
    Result<(), Error>)
    ensures
        match checked {
            Ok(_) => port == 0 || *bind_failure is None,
            Err(error) => {
                &&& port != 0
                &&& bind_failure matches Some(cause)
                &&& error@ == Fault::Readiness(
                    "fixed Harness port "@ + host@ + ":"@ + text::decimal(port as nat)
                        + " is unavailable: "@ + cause@
                        + ". Change it in Settings or stop the process using it"@,
                )
            },
        },
{
    if port == 0 {
        return Ok(());
    }
    match bind_failure {
        None => Ok(()),
        Some(cause) => Err(
            Error::Readiness(
                text::join4(
                    &text::join4("fixed Harness port ", host, ":", &text::number_text(port as u64)),
                    " is unavailable: ",
                    cause,
                    ". Change it in Settings or stop the process using it",
                ),
            ),
        ),
    }
}

/// A run of missed health probes.
#[derive(Clone, Copy, Debug, PartialEq, Eq, Structural)]
pub struct Health {
    pub misses: u32,
}

/// What one look at the harness's health came to.
#[derive(Debug)]
pub enum Pulse {
    /// It answered, or there was nothing to probe.
    Fine,
    /// It missed a probe; what is logged.
    Missed(String),
    /// It missed too many in a row; why the last one failed.
    Wedged(String),
}

impl Health {
    /// Whether the run is short enough to go on.
    pub open spec fn going(self) -> bool {
        self.misses < HEALTH_MISS_LIMIT
    }

    /// No probe has been missed.
    pub fn new() -> (health: Health)
        ensures
            health.misses == 0,
    {
        Health { misses: 0 }
    }

    /// Takes in one look: whether the harness is serving, and why a probe failed
    /// if it did.
    ///
    /// One miss is not evidence: a probe can lose to a pause or a saturated disk.
    /// Only a run of them is, so the count starts again on every good reply.
    pub fn look(&mut self, serving: bool, failure: Option<String>) -> (pulse: Pulse)
        requires
            old(self).going(),
        ensures
            match (serving, failure) {
                (true, Some(reason)) => {
                    &&& final(self).misses == old(self).misses + 1
                    &&& if old(self).misses + 1 >= HEALTH_MISS_LIMIT {
                        pulse matches Pulse::Wedged(why) && why@ == reason@
                    } else {
                        pulse matches Pulse::Missed(line) && line@ == "health check missed ("@
                            + text::decimal((old(self).misses + 1) as nat) + "/"@
                            + text::decimal(HEALTH_MISS_LIMIT as nat) + "): "@ + reason@
                    }
                },
                _ => final(self).misses == 0 && pulse is Fine,
            },
            final(self).going() <==> pulse !is Wedged,
    {
        if !serving {
            self.misses = 0;
            return Pulse::Fine;
        }
        match failure {
            None => {
                self.misses = 0;
                Pulse::Fine
            },
            Some(reason) => {
                self.misses = self.misses + 1;
                if self.misses >= HEALTH_MISS_LIMIT {
                    return Pulse::Wedged(reason);
                }
                Pulse::Missed(
                    text::join2(
                        &text::join5(
                            "health check missed (",
                            &text::number_text(self.misses as u64),
                            "/",
                            &text::number_text(HEALTH_MISS_LIMIT as u64),
                            "): ",
                        ),
                        &reason,
                    ),
                )
            },
        }
    }
}

/// Whoever keeps the harness alive, by what it shows and what it intends.
pub struct Supervision {
    pub status: Phase,
    pub log: Seq<(Stream, Seq<char>)>,
    /// Whether a supervision loop owns the harness.
    pub active: bool,
    /// Whether the next exit is intended.
    pub stopping: bool,
}

/// Something that happens to the harness, or that is asked of it.
pub enum Move {
    /// Someone asks for the harness to be started.
    Ask,
    /// The port it is to serve on cannot be used, or can.
    Port(Result<(), Fault>),
    /// An attempt to start it failed; attempts count from zero.
    Missed(nat, Fault),
    /// Starting it came out that way.
    Started(Result<(Seq<char>, u32), Fault>),
    /// Someone asks for it to be stopped.
    Stop,
    /// Its owner goes away.
    Retire,
    /// It ended, with a status, or could not be waited on.
    Ended(Result<Seq<char>, Seq<char>>),
    /// It is to be brought back, after so many attempts.
    Revive(nat),
    /// The delay before an attempt to bring it back is over.
    Waited,
    /// An attempt to bring it back came out that way.
    Revived(Result<(Seq<char>, u32), Fault>),
    /// A line is logged.
    Noted(Stream, Seq<char>),
}

impl Supervision {
    /// With one more line in the log; secrets never reach it.
    pub open spec fn noted(self, stream: Stream, line: Seq<char>) -> Supervision {
        Supervision {
            log: history::kept(
                self.log.push((stream, logging::redacted(line, false))),
                LOG_HISTORY as nat,
            ),
            ..self
        }
    }

    /// After something happened.
    pub open spec fn after(self, step: Move) -> Supervision {
        match step {
            Move::Ask => if self.status is Ready {
                self
            } else {
                Supervision { active: true, ..self }
            },
            Move::Port(Ok(_)) => Supervision {
                stopping: false,
                status: Phase::Starting,
                ..self
            },
            Move::Port(Err(fault)) => Supervision {
                active: false,
                status: Phase::Failed(fault.message()),
                ..self
            },
            Move::Missed(attempt, fault) => match retry(attempt, fault) {
                Some(delay) => self.noted(Stream::Stderr, notice(delay)),
                None => self,
            },
            Move::Started(Ok((origin, pid))) => Supervision {
                status: Phase::Ready(origin, pid),
                ..self
            },
            Move::Started(Err(fault)) => Supervision {
                active: false,
                status: Phase::Failed(fault.message()),
                ..self
            },
            Move::Stop => Supervision { stopping: true, status: Phase::Stopped, ..self },
            Move::Retire => Supervision { stopping: true, ..self },
            Move::Ended(exit) => if self.stopping {
                Supervision { active: false, ..self }
            } else {
                self.noted(
                    Stream::Stderr,
                    match exit {
                        Ok(status) => "harness exited unexpectedly ("@ + status + ")"@,
                        Err(cause) => "harness could not be waited on: "@ + cause,
                    },
                )
            },
            Move::Revive(index) => match restart_delay(index as int) {
                Some(delay) => Supervision {
                    status: Phase::Restarting((index + 1) as u32, delay),
                    ..self
                },
                None => Supervision {
                    active: false,
                    status: Phase::Failed(
                        "harness failed to come back after "@ + text::decimal(RESTARTS as nat)
                            + " attempts"@,
                    ),
                    ..self
                },
            },
            Move::Waited => if self.stopping {
                Supervision { active: false, ..self }
            } else {
                self
            },
            Move::Revived(Ok((origin, pid))) => Supervision {
                status: Phase::Ready(origin, pid),
                ..self
            },
            Move::Revived(Err(fault)) => self.noted(
                Stream::Stderr,
                "restart failed: "@ + fault.message(),
            ),
            Move::Noted(stream, line) => self.noted(stream, line),
        }
    }

    /// After many things happened, in order.
    pub open spec fn after_all(self, steps: Seq<Move>) -> Supervision
        decreases steps.len(),
    {
        if steps.len() == 0 {
            self
        } else {
            self.after_all(steps.drop_last()).after(steps.last())
        }
    }

    /// Whether a harness that has just ended, or whose delay is over, is brought
    /// back.
    pub open spec fn revives(self) -> bool {
        !self.stopping
    }
}

/// When startup is tried again after a failure, if it is; `attempt` counts from
/// zero. Configuration and third-party plugin errors fail at once.
pub open spec fn retry(attempt: nat, fault: Fault) -> Option<u64> {
    if transient(fault.message()) {
        retry_wait(attempt as int)
    } else {
        None
    }
}

/// What is logged before startup is tried again.
pub open spec fn notice(delay: u64) -> Seq<char> {
    "the managed profile module fallback was temporarily unavailable; retrying startup in "@
        + text::decimal(delay as nat) + " ms"@
}

/// A harness that was asked to stop is not brought back, whatever else happens,
/// until it is started again.
pub proof fn a_stopped_harness_stays_stopped(state: Supervision, steps: Seq<Move>)
    requires
        state.stopping,
        forall|i: int| 0 <= i < steps.len() ==> (#[trigger] steps[i]) != Move::Port(Ok(())),
    ensures
        !state.after_all(steps).revives(),
    decreases steps.len(),
{
    if steps.len() > 0 {
        let before = steps.drop_last();
        assert forall|i: int| 0 <= i < before.len() implies (#[trigger] before[i]) != Move::Port(
            Ok(()),
        ) by {
            assert(before[i] == steps[i]);
        }
        a_stopped_harness_stays_stopped(state, before);
        let last = steps[steps.len() - 1];
        assert(last == steps.last());
        if let Move::Port(Ok(unit)) = last {
            assert(unit == ());
        }
    }
}

/// The log never holds more than its limit, whatever happens.
pub proof fn the_log_is_bounded(state: Supervision, steps: Seq<Move>)
    requires
        state.log.len() <= LOG_HISTORY,
    ensures
        state.after_all(steps).log.len() <= LOG_HISTORY,
    decreases steps.len(),
{
    if steps.len() > 0 {
        the_log_is_bounded(state, steps.drop_last());
    }
}

/// Restarts are tried five times at most; then the harness has failed, and it
/// can be started again.
pub proof fn restarts_are_bounded(state: Supervision, index: nat)
    requires
        index >= RESTARTS,
    ensures
        restart_delay(index as int) is None,
        state.after(Move::Revive(index)).status is Failed,
        !state.after(Move::Revive(index)).active,
{
}

/// Lines by what they say.
pub open spec fn spoken(lines: Seq<(Stream, String)>) -> Seq<(Stream, Seq<char>)> {
    Seq::new(lines.len(), |i: int| (lines[i].0, lines[i].1@))
}

/// What came of a launch, by what it says.
pub open spec fn launch(result: Result<(String, u32), Error>) -> Result<(Seq<char>, u32), Fault> {
    match result {
        Ok((origin, pid)) => Ok((origin@, pid)),
        Err(error) => Err(error@),
    }
}

/// What is made of the wish to start the harness.
#[derive(Debug)]
pub enum Answer {
    /// It is serving already, there.
    Serving(String),
    /// Someone is starting it already.
    Busy,
    /// Go on and start it.
    Proceed,
}

/// Keeps one harness alive, and keeps the books on it.
#[derive(Debug)]
pub struct Supervisor {
    pub status: Status,
    pub log: History<(Stream, String)>,
    pub active: bool,
    pub stopping: bool,
}

impl View for Supervisor {
    type V = Supervision;

    open spec fn view(&self) -> Supervision {
        Supervision {
            status: self.status@,
            log: spoken(self.log@),
            active: self.active,
            stopping: self.stopping,
        }
    }
}

impl Supervisor {
    /// Whether the log is bounded as it should be.
    pub open spec fn bounded(self) -> bool {
        self.log.bounded() && self.log.limit == LOG_HISTORY
    }

    /// A supervisor with nothing to supervise.
    pub fn new() -> (supervisor: Supervisor)
        ensures
            supervisor.bounded(),
            supervisor@ == (Supervision {
                status: Phase::Stopped,
                log: Seq::empty(),
                active: false,
                stopping: false,
            }),
    {
        let log: History<(Stream, String)> = History::new(LOG_HISTORY);
        assert(spoken(log@) =~= Seq::<(Stream, Seq<char>)>::empty());
        Supervisor { status: Status::Stopped, log, active: false, stopping: false }
    }

    /// Adds a line to the activity log and hands back what the UI is told.
    pub fn note(&mut self, stream: Stream, line: &str) -> (event: Event)
        requires
            old(self).bounded(),
        ensures
            final(self).bounded(),
            final(self)@ == old(self)@.after(Move::Noted(stream, line@)),
            event matches Event::Log { stream: pipe, line: told } && pipe == stream && told@
                == logging::redacted(line@, false),
    {
        let shown = logging::redact_secrets(line);
        let ghost before = self.log@;
        self.log.add((stream, shown.clone()));
        assert(spoken(self.log@) =~= history::kept(
            spoken(before).push((stream, logging::redacted(line@, false))),
            LOG_HISTORY as nat,
        ));
        Event::Log { stream, line: shown }
    }

    /// What the harness is doing right now.
    pub fn status(&self) -> (status: Status)
        ensures
            status@ == self@.status,
    {
        self.status.duplicate()
    }

    /// Recent harness output, oldest first.
    pub fn recent_log(&self) -> (lines: Vec<(Stream, String)>)
        ensures
            spoken(lines@) == self@.log,
    {
        let mut lines: Vec<(Stream, String)> = Vec::new();
        let mut index: usize = 0;
        assert(spoken(lines@) =~= self@.log.take(0));
        while index < self.log.entries.len()
            invariant
                index <= self.log@.len(),
                spoken(lines@) == self@.log.take(index as int),
            decreases self.log@.len() - index,
        {
            let ghost before = lines@;
            let entry = &self.log.entries[index];
            lines.push((entry.0, entry.1.clone()));
            assert(spoken(before).len() == index);
            assert(spoken(lines@) =~= spoken(before).push(self@.log[index as int]));
            assert(spoken(lines@) =~= self@.log.take(index + 1));
            index += 1;
        }
        assert(self@.log.take(index as int) =~= self@.log);
        lines
    }

    /// Someone asks for the harness to be started.
    ///
    /// Starting it is idempotent: a harness that serves already is not started a
    /// second time, and one that is being started is not started twice at once.
    pub fn start(&mut self) -> (answer: Answer)
        requires
            old(self).bounded(),
        ensures
            final(self).bounded(),
            final(self)@ == old(self)@.after(Move::Ask),
            match old(self)@.status {
                Phase::Ready(origin, _) => answer matches Answer::Serving(there) && there@
                    == origin,
                _ => if old(self)@.active {
                    answer is Busy
                } else {
                    answer is Proceed
                },
            },
    {
        if let Status::Ready { origin, .. } = &self.status {
            return Answer::Serving(origin.clone());
        }
        let owned = self.active;
        self.active = true;
        if owned {
            Answer::Busy
        } else {
            Answer::Proceed
        }
    }

    /// The port the harness is to serve on was looked at.
    pub fn port_checked(&mut self, checked: &Result<(), Error>)
        requires
            old(self).bounded(),
        ensures
            final(self).bounded(),
            final(self)@ == old(self)@.after(
                Move::Port(
                    match *checked {
                        Ok(_) => Ok(()),
                        Err(error) => Err(error@),
                    },
                ),
            ),
    {
        match checked {
            Ok(_) => {
                self.stopping = false;
                self.status = Status::Starting;
            },
            Err(failure) => {
                self.active = false;
                self.status = Status::Failed { reason: failure.message() };
            },
        }
    }

    /// An attempt to start the harness failed; `attempt` counts from zero. Either
    /// the delay after which it is tried again, or what is reported.
    pub fn launch_failed(&mut self, attempt: usize, failure: Error) -> (next: Result<u64, Error>)
        requires
            old(self).bounded(),
        ensures
            final(self).bounded(),
            final(self)@ == old(self)@.after(Move::Missed(attempt as nat, failure@)),
            match next {
                Ok(delay) => retry(attempt as nat, failure@) == Some(delay),
                Err(error) => retry(attempt as nat, failure@) is None && error@ == (if transient(
                    failure@.message(),
                ) {
                    Fault::Readiness(UNAVAILABLE@)
                } else {
                    failure@
                }),
            },
    {
        match retry_delay(attempt, &failure) {
            Some(delay) => {
                let line = retry_notice(delay);
                self.note(Stream::Stderr, &line);
                Ok(delay)
            },
            None => Err(actionable_module_failure(failure)),
        }
    }

    /// Starting the harness came out that way; what the caller is told.
    pub fn started(&mut self, launched: Result<(String, u32), Error>) -> (origin: Result<
        String,
        Error,
    >)
        requires
            old(self).bounded(),
        ensures
            final(self).bounded(),
            final(self)@ == old(self)@.after(Move::Started(launch(launched))),
            match launched {
                Ok((origin, pid)) => final(self).status@ == Phase::Ready(origin@, pid),
                Err(failure) => final(self).status@ == Phase::Failed(failure@.message())
                    && !final(self).active,
            },
            match (origin, launched) {
                (Ok(there), Ok((wanted, _))) => there@ == wanted@,
                (Err(error), Err(wanted)) => error@ == wanted@,
                _ => false,
            },
    {
        match launched {
            Ok((origin, pid)) => {
                self.status = Status::Ready { origin: origin.clone(), pid };
                Ok(origin)
            },
            Err(failure) => {
                self.active = false;
                self.status = Status::Failed { reason: failure.message() };
                Err(failure)
            },
        }
    }

    /// Stops the harness and leaves it stopped.
    pub fn stop(&mut self)
        requires
            old(self).bounded(),
        ensures
            final(self).bounded(),
            final(self)@ == old(self)@.after(Move::Stop),
    {
        self.stopping = true;
        self.status = Status::Stopped;
    }

    /// Keeps a harness that the shell no longer owns from being brought back.
    pub fn retire(&mut self)
        requires
            old(self).bounded(),
        ensures
            final(self).bounded(),
            final(self)@ == old(self)@.after(Move::Retire),
    {
        self.stopping = true;
    }

    /// The harness ended, with a status, or could not be waited on. Whether it is
    /// brought back.
    pub fn ended(&mut self, exit: &Result<String, String>) -> (revive: bool)
        requires
            old(self).bounded(),
        ensures
            final(self).bounded(),
            final(self)@ == old(self)@.after(
                Move::Ended(
                    match *exit {
                        Ok(status) => Ok(status@),
                        Err(cause) => Err(cause@),
                    },
                ),
            ),
            revive == old(self)@.revives(),
    {
        if self.stopping {
            self.active = false;
            return false;
        }
        let line = match exit {
            Ok(status) => text::join3("harness exited unexpectedly (", status, ")"),
            Err(cause) => text::join2("harness could not be waited on: ", cause),
        };
        self.note(Stream::Stderr, &line);
        true
    }

    /// The harness is to be brought back, after so many attempts: the delay before
    /// the next one, or nothing where every delay was spent.
    pub fn revive(&mut self, index: usize) -> (delay: Option<u64>)
        requires
            old(self).bounded(),
        ensures
            final(self).bounded(),
            final(self)@ == old(self)@.after(Move::Revive(index as nat)),
            delay == restart_delay(index as int),
    {
        let delay = delay_before(index);
        match delay {
            Some(delay_ms) => {
                self.status = Status::Restarting { attempt: (index + 1) as u32, delay_ms };
            },
            None => {
                self.active = false;
                self.status = Status::Failed {
                    reason: text::join3(
                        "harness failed to come back after ",
                        &text::number_text(RESTARTS as u64),
                        " attempts",
                    ),
                };
            },
        }
        delay
    }

    /// The delay before an attempt to bring the harness back is over. Whether the
    /// attempt is made.
    pub fn waited(&mut self) -> (relaunch: bool)
        requires
            old(self).bounded(),
        ensures
            final(self).bounded(),
            final(self)@ == old(self)@.after(Move::Waited),
            relaunch == old(self)@.revives(),
    {
        if self.stopping {
            self.active = false;
            return false;
        }
        true
    }

    /// An attempt to bring the harness back came out that way. Whether it is back.
    pub fn revived(&mut self, launched: Result<(String, u32), Error>) -> (back: bool)
        requires
            old(self).bounded(),
        ensures
            final(self).bounded(),
            final(self)@ == old(self)@.after(Move::Revived(launch(launched))),
            back == (launched is Ok),
            launched matches Ok((origin, pid)) ==> final(self).status@ == Phase::Ready(
                origin@,
                pid,
            ),
            launched is Err ==> final(self).status@ == old(self).status@,
    {
        match launched {
            Ok((origin, pid)) => {
                self.status = Status::Ready { origin, pid };
                true
            },
            Err(failure) => {
                let line = text::join2("restart failed: ", &failure.message());
                self.note(Stream::Stderr, &line);
                false
            },
        }
    }

    /// Whether the supervision loop has let go of the harness, given whether the
    /// time for that is up. Runtime promotion must not rename the directory while
    /// the loop can still restart a child against it.
    pub fn wait_until_inactive(&self, time_is_up: bool) -> (settled: Result<bool, Error>)
        ensures
            match settled {
                Ok(inactive) => inactive == !self@.active && (self@.active ==> !time_is_up),
                Err(error) => self@.active && time_is_up && error@ == Fault::Install(
                    "the running Harness did not stop before its runtime was replaced"@,
                ),
            },
    {
        if !self.active {
            return Ok(true);
        }
        if time_is_up {
            return Err(
                Error::Install(
                    "the running Harness did not stop before its runtime was replaced".to_owned(),
                ),
            );
        }
        Ok(false)
    }
}

/// A harness that came up, at first or once more, is shown where it serves, and
/// nothing else about it changes; asking for it again leaves it as it is, so that
/// the one who asks is answered with that origin.
pub proof fn a_harness_that_came_up_is_shown_where_it_serves(
    state: Supervision,
    origin: Seq<char>,
    pid: u32,
)
    ensures
        ({
            let started = state.after(Move::Started(Ok((origin, pid))));
            let revived = state.after(Move::Revived(Ok((origin, pid))));
            &&& started.status == Phase::Ready(origin, pid)
            &&& revived.status == Phase::Ready(origin, pid)
            &&& started == revived
            &&& started.log == state.log && started.active == state.active && started.stopping
                == state.stopping
            &&& started.after(Move::Ask) == started
        }),
{
}

/// A harness that could not be started has failed with what is reported, and
/// nobody owns it any more, so that it can be started again; a port that cannot be
/// used is such a failure before anything was started.
pub proof fn a_failed_start_is_shown_and_let_go(state: Supervision, fault: Fault)
    ensures
        ({
            let failed = state.after(Move::Started(Err(fault)));
            &&& failed.status == Phase::Failed(fault.message())
            &&& !failed.active
            &&& failed.log == state.log && failed.stopping == state.stopping
            &&& state.after(Move::Port(Err(fault))) == failed
            &&& failed.after(Move::Ask).active && failed.after(Move::Ask).status == failed.status
        }),
{
}

/// A start that is under way is shown as such, and whatever was asked to stop
/// before it is forgotten.
pub proof fn a_start_under_way_is_shown(state: Supervision)
    ensures
        ({
            let starting = state.after(Move::Port(Ok(())));
            &&& starting.status is Starting
            &&& starting.revives()
            &&& starting.log == state.log && starting.active == state.active
        }),
{
}

/// A harness that is asked for is owned from then on, unless it serves already;
/// asking changes nothing else.
pub proof fn asking_claims_a_harness_that_does_not_serve(state: Supervision)
    ensures
        ({
            let asked = state.after(Move::Ask);
            &&& state.status !is Ready ==> asked.active
            &&& state.status is Ready ==> asked.active == state.active
            &&& asked.status == state.status && asked.log == state.log && asked.stopping
                == state.stopping
        }),
{
}

/// Stopping a harness shows it as stopped at once, and its end then lets go of it
/// without a word; retiring it does the same without showing anything.
pub proof fn a_stopped_harness_ends_without_a_word(
    state: Supervision,
    exit: Result<Seq<char>, Seq<char>>,
)
    ensures
        ({
            let stopped = state.after(Move::Stop);
            &&& stopped.status is Stopped
            &&& !stopped.revives()
            &&& stopped.after(Move::Ended(exit)).status is Stopped
            &&& stopped.after(Move::Ended(exit)).log == state.log
            &&& !stopped.after(Move::Ended(exit)).active
            &&& !stopped.after(Move::Waited).active
            &&& state.after(Move::Retire).status == state.status
            &&& !state.after(Move::Retire).revives()
            &&& !state.after(Move::Retire).after(Move::Ended(exit)).active
        }),
{
}

/// A harness that ended on its own is brought back: it stays owned, its end is the
/// last thing in the log, and what it is shown as does not change yet.
pub proof fn a_harness_that_ended_on_its_own_is_brought_back(
    state: Supervision,
    status: Seq<char>,
    cause: Seq<char>,
)
    requires
        state.revives(),
    ensures
        ({
            let ended = state.after(Move::Ended(Ok(status)));
            let lost = state.after(Move::Ended(Err(cause)));
            &&& ended.revives() && ended.active == state.active && ended.status == state.status
            &&& lost.revives() && lost.active == state.active && lost.status == state.status
            &&& ended.log.last() == (
                Stream::Stderr,
                logging::redacted("harness exited unexpectedly ("@ + status + ")"@, false),
            )
            &&& lost.log.last() == (
                Stream::Stderr,
                logging::redacted("harness could not be waited on: "@ + cause, false),
            )
            &&& state.after(Move::Waited) == state
        }),
{
    history::the_newest_entry_is_kept(
        state.log,
        (
            Stream::Stderr,
            logging::redacted("harness exited unexpectedly ("@ + status + ")"@, false),
        ),
        LOG_HISTORY as nat,
    );
    history::the_newest_entry_is_kept(
        state.log,
        (Stream::Stderr, logging::redacted("harness could not be waited on: "@ + cause, false)),
        LOG_HISTORY as nat,
    );
}

/// A restart that failed is logged with its reason, and nothing else changes: the
/// next attempt follows.
pub proof fn a_failed_restart_is_logged(state: Supervision, fault: Fault)
    ensures
        ({
            let failed = state.after(Move::Revived(Err(fault)));
            &&& failed.status == state.status && failed.active == state.active && failed.stopping
                == state.stopping
            &&& failed.log.last() == (
                Stream::Stderr,
                logging::redacted("restart failed: "@ + fault.message(), false),
            )
        }),
{
    history::the_newest_entry_is_kept(
        state.log,
        (Stream::Stderr, logging::redacted("restart failed: "@ + fault.message(), false)),
        LOG_HISTORY as nat,
    );
}

/// Each of five attempts to bring the harness back is shown with its number,
/// counted from one, and its delay; the delays grow from half a second to ten.
pub proof fn attempts_are_counted_and_delayed(state: Supervision, index: nat)
    requires
        index < 5,
    ensures
        ({
            let delays: Seq<u64> = seq![500, 1_000, 2_000, 5_000, 10_000];
            let attempt = state.after(Move::Revive(index));
            &&& restart_delay(index as int) == Some(delays[index as int])
            &&& attempt.status == Phase::Restarting((index + 1) as u32, delays[index as int])
            &&& attempt.log == state.log && attempt.active == state.active && attempt.stopping
                == state.stopping
        }),
{
}

/// Once five attempts were made, the harness has failed to come back, and nobody
/// owns it any more.
pub proof fn a_harness_that_never_came_back_is_given_up(state: Supervision, index: nat)
    requires
        index >= 5,
    ensures
        ({
            let over = state.after(Move::Revive(index));
            &&& over.status == Phase::Failed("harness failed to come back after 5 attempts"@)
            &&& !over.active
            &&& over.log == state.log
        }),
{
    reveal_strlit("harness failed to come back after ");
    reveal_strlit(" attempts");
    reveal_strlit("harness failed to come back after 5 attempts");
    reveal_with_fuel(text::decimal, 2);
    assert("harness failed to come back after "@ + text::decimal(5) + " attempts"@
        =~= "harness failed to come back after 5 attempts"@);
}

/// Startup is tried again only where a package of the installation was missing
/// from a profile, after four growing delays, each announced in the log.
pub proof fn only_a_transient_failure_is_tried_again(
    state: Supervision,
    attempt: nat,
    fault: Fault,
)
    ensures
        ({
            let waits: Seq<u64> = seq![250, 750, 1_500, 3_000];
            &&& retry(attempt, fault) == (if attempt < 4 && transient(fault.message()) {
                Some(waits[attempt as int])
            } else {
                None
            })
            &&& retry(attempt, fault) is None ==> state.after(Move::Missed(attempt, fault)) == state
            &&& retry(attempt, fault) matches Some(delay) ==> state.after(
                Move::Missed(attempt, fault),
            ).log.last() == (
                Stream::Stderr,
                logging::redacted(
                    "the managed profile module fallback was temporarily unavailable; retrying startup in "@
                        + text::decimal(delay as nat) + " ms"@,
                    false,
                ),
            )
            &&& state.after(Move::Missed(attempt, fault)).status == state.status
        }),
{
    if let Some(delay) = retry(attempt, fault) {
        history::the_newest_entry_is_kept(
            state.log,
            (
                Stream::Stderr,
                logging::redacted(
                    "the managed profile module fallback was temporarily unavailable; retrying startup in "@
                        + text::decimal(delay as nat) + " ms"@,
                    false,
                ),
            ),
            LOG_HISTORY as nat,
        );
    }
}

/// A message is that of a missing package of the installation where it carries the
/// loader's code, the name of such a package and a path of a profile, and only
/// there: without any one of the three it is somebody else's failure.
pub proof fn a_missing_package_of_the_installation_is_told_apart(
    first: Seq<char>,
    second: Seq<char>,
    third: Seq<char>,
    last: Seq<char>,
    detail: Seq<char>,
)
    ensures
        transient(
            first + "ERR_MODULE_NOT_FOUND"@ + second + "Cannot find package '@deepseek-ai/"@ + third
                + "/profiles/"@ + last,
        ),
        transient(
            first + "ERR_MODULE_NOT_FOUND"@ + second + "Cannot find package '@deepseek-ai/"@ + third
                + "\\profiles\\"@ + last,
        ),
        !text::holds_text(detail, "ERR_MODULE_NOT_FOUND"@) ==> !transient(detail),
        !text::holds_text(detail, "Cannot find package '@deepseek-ai/"@) ==> !transient(detail),
        !text::holds_text(detail, "/profiles/"@) && !text::holds_text(detail, "\\profiles\\"@)
            ==> !transient(detail),
{
    lemma_carries(first, second, third, last, "/profiles/"@);
    lemma_carries(first, second, third, last, "\\profiles\\"@);
}

/// A message with three parts in it holds each of them.
proof fn lemma_carries(
    first: Seq<char>,
    second: Seq<char>,
    third: Seq<char>,
    last: Seq<char>,
    place: Seq<char>,
)
    ensures
        ({
            let whole = first + "ERR_MODULE_NOT_FOUND"@ + second
                + "Cannot find package '@deepseek-ai/"@ + third + place + last;
            &&& text::holds_text(whole, "ERR_MODULE_NOT_FOUND"@)
            &&& text::holds_text(whole, "Cannot find package '@deepseek-ai/"@)
            &&& text::holds_text(whole, place)
        }),
{
    let code = "ERR_MODULE_NOT_FOUND"@;
    let package = "Cannot find package '@deepseek-ai/"@;
    let whole = first + code + second + package + third + place + last;
    let at = first.len() as int;
    assert(whole.subrange(at, at + code.len()) =~= code);
    assert(text::occurs_at(whole, code, at));
    let next = at + code.len() + second.len();
    assert(whole.subrange(next, next + package.len()) =~= package);
    assert(text::occurs_at(whole, package, next));
    let third_at = next + package.len() + third.len();
    assert(whole.subrange(third_at, third_at + place.len()) =~= place);
    assert(text::occurs_at(whole, place, third_at));
}

/// Every patch layer is handed over behind its own flag, in order.
pub proof fn patch_layers_are_handed_over_in_order(patches: Seq<Seq<char>>, at: int)
    requires
        0 <= at < patches.len(),
    ensures
        patch_flags(patches, patches.len()).len() == 2 * patches.len(),
        patch_flags(patches, patches.len())[2 * at] == "--patch"@,
        patch_flags(patches, patches.len())[2 * at + 1] == patches[at],
{
    lemma_patch_flags(patches, patches.len(), at);
}

/// The flags of the first patch layers.
proof fn lemma_patch_flags(patches: Seq<Seq<char>>, count: nat, at: int)
    requires
        count <= patches.len(),
    ensures
        patch_flags(patches, count).len() == 2 * count,
        0 <= at < count ==> patch_flags(patches, count)[2 * at] == "--patch"@
            && patch_flags(patches, count)[2 * at + 1] == patches[at],
    decreases count,
{
    if count > 0 {
        lemma_patch_flags(patches, (count - 1) as nat, at);
    }
}

/// The chosen Node runs the launcher in the workspace: the resolver is required
/// before the entry, the profile follows it, then its patch layers, and whatever
/// is meant for the profile's own application comes last.
pub proof fn the_launcher_is_asked_in_order(
    plan: LaunchPlan,
    launcher: Launcher,
    further: Seq<Seq<char>>,
)
    ensures
        ({
            let run = plan.invocation(launcher, further);
            let own = 5 + 2 * plan.patches@.len();
            &&& run.program == plan.node@
            &&& run.directory == Some(plan.workspace@)
            &&& run.arguments.len() == own + further.len()
            &&& run.arguments.take(5) == seq![
                "--require"@,
                plan.resolver@,
                plan.entry@,
                "--profile"@,
                plan.profile@,
            ]
            &&& run.arguments.subrange(5, own as int) == patch_flags(
                text::texts(plan.patches@),
                plan.patches@.len(),
            )
            &&& run.arguments.skip(own as int) == further
        }),
{
    let patches = text::texts(plan.patches@);
    lemma_patch_flags(patches, patches.len(), 0);
    let run = plan.invocation(launcher, further);
    let own = (5 + 2 * plan.patches@.len()) as int;
    assert(patches.len() == plan.patches@.len());
    assert(run.arguments.take(5) =~= seq![
        "--require"@,
        plan.resolver@,
        plan.entry@,
        "--profile"@,
        plan.profile@,
    ]);
    assert(run.arguments.subrange(5, own) =~= patch_flags(patches, patches.len()));
    assert(run.arguments.skip(own) =~= further);
}

/// A launch serves exactly where it announced a usable origin; it fails with the
/// announcement's own reason where that was refused, and with another one wherever
/// nothing was announced.
pub proof fn only_an_announced_origin_is_served(outcome: LaunchOutcome)
    ensures
        launched(outcome) is Ok <==> (outcome matches LaunchOutcome::Announced(ready) && ready@
            is At),
        outcome matches LaunchOutcome::Announced(ready) ==> match ready@ {
            Announcement::At(origin) => launched(outcome) == Ok::<Seq<char>, Seq<char>>(origin),
            Announcement::Rejected(reason) => launched(outcome) == Err::<Seq<char>, Seq<char>>(
                reason,
            ),
        },
        outcome matches LaunchOutcome::Exited(Ok(status)) ==> launched(outcome)->Err_0
            == "harness exited during startup ("@ + status@ + ")"@,
        outcome is TimedOut ==> launched(outcome)->Err_0
            == "harness did not announce a port within 120s"@,
{
    reveal_strlit("harness did not announce a port within ");
    reveal_strlit("harness did not announce a port within 120s");
    reveal_strlit("s");
    reveal_with_fuel(text::decimal, 4);
    assert("harness did not announce a port within "@ + text::decimal(120) + "s"@
        =~= "harness did not announce a port within 120s"@);
}

/// Only the first announcement of a pipe that waits for one counts: it is handed
/// on as what the line announces, and none is handed on after it or where none is
/// waited for. Every line is logged without white space at its end, and is the
/// last of those kept where lines are kept.
pub proof fn only_the_first_announcement_counts(
    pump: Pump,
    raw: Seq<char>,
    after: Pump,
    found: (String, Option<Ready>),
)
    requires
        pump.takes(raw, after, found),
    ensures
        found.0@ == text::trimmed_end(raw, Class::White),
        found.1 is Some <==> pump.waiting && readiness::announced(found.0@) is Some,
        found.1 matches Some(ready) ==> readiness::announced(found.0@) == Some(ready@),
        found.1 is Some ==> !after.waiting,
        found.1 is None ==> after.waiting == pump.waiting,
        pump_tail(pump) is Some <==> pump_tail(after) is Some,
        pump_tail(after) matches Some(kept) ==> kept.last() == found.0@ && kept.len() <= 160,
{
    if let Some(kept) = pump_tail(pump) {
        history::the_newest_entry_is_kept(kept, found.0@, STARTUP_STDERR_LINES as nat);
    }
}

/// Whatever is logged is the last line of the log, without credentials, and what
/// was logged before stays as long as there is room.
pub proof fn a_logged_line_is_the_last(state: Supervision, stream: Stream, line: Seq<char>)
    ensures
        ({
            let after = state.after(Move::Noted(stream, line));
            &&& after.log.last() == (stream, logging::redacted(line, false))
            &&& state.log.len() < 2_000 ==> after.log == state.log.push(
                (stream, logging::redacted(line, false)),
            )
            &&& after.status == state.status && after.active == state.active && after.stopping
                == state.stopping
        }),
{
    history::the_newest_entry_is_kept(
        state.log,
        (stream, logging::redacted(line, false)),
        LOG_HISTORY as nat,
    );
}

/// The harness is given up after three probes missed in a row, and not before.
pub proof fn three_misses_in_a_row_are_too_many(health: Health)
    ensures
        health.going() <==> health.misses <= 2,
{
}

/// What a launch came to is passed on as it is: where the harness serves and which
/// process it is, or what went wrong.
pub proof fn a_launch_is_passed_on_as_it_is(origin: String, pid: u32, error: Error)
    ensures
        launch(Ok((origin, pid))) == Ok::<(Seq<char>, u32), Fault>((origin@, pid)),
        launch(Err(error)) == Err::<(Seq<char>, u32), Fault>(error@),
{
}

/// The log holds two thousand lines at most, and what is kept to explain a start that
/// failed a hundred and sixty.
pub proof fn what_is_kept_of_the_output_is_bounded(supervisor: Supervisor, pump: Pump)
    ensures
        supervisor.bounded() ==> supervisor.log@.len() <= 2_000,
        pump.bounded() && pump.tail is Some ==> pump_tail(pump)->0.len() <= 160,
{
}

/// A launch that came to nothing is told by its reason: what the harness announced,
/// that it ended or fell silent, or what the system said.
pub proof fn a_launch_that_failed_is_told_by_its_reason(status: String, cause: String)
    ensures
        launched(LaunchOutcome::Closed) == Err::<Seq<char>, Seq<char>>(
            "harness closed its output without announcing a port"@,
        ),
        launched(LaunchOutcome::Exited(Ok(status))) == Err::<Seq<char>, Seq<char>>(
            "harness exited during startup ("@ + status@ + ")"@,
        ),
        launched(LaunchOutcome::Exited(Err(cause))) == Err::<Seq<char>, Seq<char>>(
            "harness could not be waited on: "@ + cause@,
        ),
        launched(LaunchOutcome::TimedOut) == Err::<Seq<char>, Seq<char>>(
            "harness did not announce a port within "@ + text::decimal(120) + "s"@,
        ),
        launched(LaunchOutcome::NoPipes) == Err::<Seq<char>, Seq<char>>(
            "harness did not provide its diagnostic pipes"@,
        ),
{
}

/// After the fifth attempt to bring the harness back it is given up, and what is shown
/// says after how many.
pub proof fn five_attempts_are_made_to_come_back(state: Supervision, index: nat)
    requires
        index >= 5,
    ensures
        ({
            let after = state.after(Move::Revive(index));
            &&& !after.active
            &&& after.status == Phase::Failed(
                "harness failed to come back after "@ + text::decimal(5) + " attempts"@,
            )
        }),
{
}

/// What is shown once nothing more is tried says that nothing of the user's was lost.
pub proof fn an_exhausted_recovery_is_told()
    ensures
        UNAVAILABLE@
            == "the managed Harness modules remained unavailable after automatic recovery; restart DSH Studio, or use Repair in Environment if it repeats. The selected Profile and its plugins were not deleted"@,
        READINESS_TIMEOUT == 2 * 60,
{
}

/// A status is seen as the phase it names, with what it says, and a supervisor by its
/// status, its log and its two marks.
pub proof fn a_status_is_seen_as_its_phase(
    supervisor: Supervisor,
    origin: String,
    pid: u32,
    status: Status,
)
    ensures
        Status::Stopped@ is Stopped,
        Status::Starting@ is Starting,
        (Status::Ready { origin, pid })@ == Phase::Ready(origin@, pid),
        status matches Status::Restarting { attempt, delay_ms } ==> status@ == Phase::Restarting(
            attempt,
            delay_ms,
        ),
        status matches Status::Failed { reason } ==> status@ == Phase::Failed(reason@),
        supervisor@.status == supervisor.status@,
        supervisor@.active == supervisor.active,
        supervisor@.stopping == supervisor.stopping,
        supervisor@.log.len() == supervisor.log@.len(),
{
}

} // verus!
