//! Replacing the live runtime without ever losing one that works.
//!
//! A release is assembled in a sibling directory, verified there, and promoted
//! by renames. The journal deliberately has no changing phase field: recovery
//! derives the truth from the three directories, so a crash can never leave a
//! phase that claims a rename happened when the file system says otherwise.
use vstd::prelude::*;

use crate::error::{Error, Fault};
use crate::install;
use crate::install::{Finding, RuntimeFiles};
use crate::text;

verus! {

/// What is being done with the managed runtime.
#[derive(Clone, Copy, Debug, PartialEq, Eq, Structural)]
pub enum Activity {
    Idle,
    Installing,
    Recovering,
}

/// Keeps an install and a recovery apart: environment probes are allowed to
/// recover a transaction left by a crashed process, but must never mistake this
/// process's live staging journal for a crash.
#[derive(Clone, Copy, Debug, PartialEq, Eq, Structural)]
pub struct ManagedRuntime {
    pub activity: Activity,
}

impl ManagedRuntime {
    /// Nothing is being done yet.
    pub fn new() -> (managed: ManagedRuntime)
        ensures
            managed.activity is Idle,
    {
        ManagedRuntime { activity: Activity::Idle }
    }

    /// Claims the runtime for an install.
    pub fn begin_install(&mut self) -> (claimed: Result<(), Error>)
        ensures
            match claimed {
                Ok(_) => old(self).activity is Idle && final(self).activity is Installing,
                Err(error) => old(self).activity !is Idle && *final(self) == *old(self) && error@
                    == Fault::AlreadyInstalling,
            },
    {
        match self.activity {
            Activity::Idle => {
                self.activity = Activity::Installing;
                Ok(())
            },
            _ => Err(Error::AlreadyInstalling),
        }
    }

    /// Claims the runtime for a recovery, where nothing else holds it.
    pub fn begin_recovery(&mut self) -> (claimed: bool)
        ensures
            claimed == (old(self).activity is Idle),
            claimed ==> final(self).activity is Recovering,
            !claimed ==> *final(self) == *old(self),
    {
        match self.activity {
            Activity::Idle => {
                self.activity = Activity::Recovering;
                true
            },
            _ => false,
        }
    }

    /// Gives the runtime back.
    pub fn finish(&mut self)
        ensures
            final(self).activity is Idle,
    {
        self.activity = Activity::Idle;
    }
}

/// The three directories a runtime can be in.
#[derive(Clone, Copy, Debug, PartialEq, Eq, Structural)]
pub enum Spot {
    /// Where the Harness is launched from.
    Live,
    /// Where a release is assembled and verified.
    Staging,
    /// Where the previous runtime is kept across a promotion.
    Backup,
}

/// One thing done to the directories.
#[derive(Clone, Copy, Debug, PartialEq, Eq, Structural)]
pub enum Step {
    /// Rename a directory.
    Rename(Spot, Spot),
    /// Remove a directory, if it exists.
    Remove(Spot),
    /// Hold the live runtime against the contract.
    Verify,
    /// Record that a promotion is under way.
    WriteJournal,
    /// Record that none is.
    ClearJournal,
    /// Nothing more.
    Stop,
}

/// What the directories and the journal hold: a runtime each, or nothing.
pub struct Disk {
    pub live: Option<Finding>,
    pub staging: Option<Finding>,
    pub backup: Option<Finding>,
    pub journal: bool,
}

impl Disk {
    /// What is in a directory.
    pub open spec fn at(self, spot: Spot) -> Option<Finding> {
        match spot {
            Spot::Live => self.live,
            Spot::Staging => self.staging,
            Spot::Backup => self.backup,
        }
    }

    /// The directories with one of them changed.
    pub open spec fn with(self, spot: Spot, held: Option<Finding>) -> Disk {
        match spot {
            Spot::Live => Disk { live: held, ..self },
            Spot::Staging => Disk { staging: held, ..self },
            Spot::Backup => Disk { backup: held, ..self },
        }
    }

    /// The directories after a step that went well.
    pub open spec fn after(self, step: Step) -> Disk {
        match step {
            Step::Rename(from, to) => self.with(to, self.at(from)).with(from, None),
            Step::Remove(spot) => self.with(spot, None),
            Step::WriteJournal => Disk { journal: true, ..self },
            Step::ClearJournal => Disk { journal: false, ..self },
            _ => self,
        }
    }

    /// The directories after the first `count` of several steps.
    pub open spec fn after_all(self, steps: Seq<Step>, count: nat) -> Disk
        decreases count,
    {
        if count == 0 || count > steps.len() {
            self
        } else {
            self.after_all(steps, (count - 1) as nat).after(steps[count - 1])
        }
    }

    /// Whether a directory holds a complete runtime.
    pub open spec fn complete(self, spot: Spot) -> bool {
        self.at(spot) matches Some(found) && found.complete()
    }

    /// Whether a directory holds a runtime that meets the contract.
    pub open spec fn compatible(self, spot: Spot) -> bool {
        self.at(spot) matches Some(found) && found.compatible()
    }

    /// What repairs an interrupted promotion: keep a complete live runtime, else
    /// go back to a complete previous one, else finish a verified new one, else
    /// clear everything away.
    pub open spec fn repair(self) -> Seq<Step> {
        repair_steps(
            self.complete(Spot::Live),
            self.complete(Spot::Backup),
            self.compatible(Spot::Staging),
        )
    }
}

/// What repairs an interrupted promotion, from what is known of the directories.
pub open spec fn repair_steps(live: bool, backup: bool, staging: bool) -> Seq<Step> {
    if live {
        seq![Step::Remove(Spot::Staging), Step::Remove(Spot::Backup), Step::ClearJournal]
    } else if backup {
        seq![
            Step::Remove(Spot::Live),
            Step::Rename(Spot::Backup, Spot::Live),
            Step::Remove(Spot::Staging),
            Step::ClearJournal,
        ]
    } else if staging {
        seq![
            Step::Remove(Spot::Live),
            Step::Rename(Spot::Staging, Spot::Live),
            Step::Remove(Spot::Backup),
            Step::ClearJournal,
        ]
    } else {
        seq![
            Step::Remove(Spot::Live),
            Step::Remove(Spot::Staging),
            Step::Remove(Spot::Backup),
            Step::ClearJournal,
        ]
    }
}

/// What repairs an interrupted promotion, from whether the live and the previous
/// runtime are complete and whether the new one meets the contract.
pub fn repair(live: bool, backup: bool, staging: bool) -> (steps: Vec<Step>)
    ensures
        steps@ == repair_steps(live, backup, staging),
{
    let mut steps: Vec<Step> = Vec::new();
    if live {
        steps.push(Step::Remove(Spot::Staging));
        steps.push(Step::Remove(Spot::Backup));
    } else if backup {
        steps.push(Step::Remove(Spot::Live));
        steps.push(Step::Rename(Spot::Backup, Spot::Live));
        steps.push(Step::Remove(Spot::Staging));
    } else if staging {
        steps.push(Step::Remove(Spot::Live));
        steps.push(Step::Rename(Spot::Staging, Spot::Live));
        steps.push(Step::Remove(Spot::Backup));
    } else {
        // Nothing complete existed before or after the interruption. Keeping a
        // marker here would make the Repair button fail on every attempt.
        steps.push(Step::Remove(Spot::Live));
        steps.push(Step::Remove(Spot::Staging));
        steps.push(Step::Remove(Spot::Backup));
    }
    steps.push(Step::ClearJournal);
    assert(steps@ =~= repair_steps(live, backup, staging));
    steps
}

/// A repair clears the journal and leaves only the live directory: the live
/// runtime where it was complete, else the previous one where that was, else the
/// new one where it meets the contract.
pub proof fn a_repair_keeps_the_best_runtime(disk: Disk)
    ensures
        disk.after_all(disk.repair(), disk.repair().len()) == (Disk {
            live: if disk.complete(Spot::Live) {
                disk.live
            } else if disk.complete(Spot::Backup) {
                disk.backup
            } else if disk.compatible(Spot::Staging) {
                disk.staging
            } else {
                None
            },
            staging: None,
            backup: None,
            journal: false,
        }),
{
    reveal_with_fuel(Disk::after_all, 5);
}

/// A complete runtime that was live or kept is never lost: it, or a complete
/// live one before it, is live after the repair.
pub proof fn a_repair_never_loses_a_complete_runtime(disk: Disk)
    requires
        disk.complete(Spot::Live) || disk.complete(Spot::Backup) || disk.compatible(Spot::Staging),
    ensures
        disk.after_all(disk.repair(), disk.repair().len()).complete(Spot::Live),
{
    a_repair_keeps_the_best_runtime(disk);
    if disk.compatible(Spot::Staging) {
        install::a_compatible_runtime_is_complete(disk.staging->0);
    }
}

/// A repair that is itself interrupted between any two of its steps is finished
/// by the next one, with the same outcome.
pub proof fn an_interrupted_repair_is_finished_by_the_next(disk: Disk, count: nat)
    requires
        count < disk.repair().len(),
    ensures
        ({
            let halfway = disk.after_all(disk.repair(), count);
            &&& halfway.journal == disk.journal
            &&& halfway.after_all(halfway.repair(), halfway.repair().len()) == disk.after_all(
                disk.repair(),
                disk.repair().len(),
            )
        }),
{
    let halfway = disk.after_all(disk.repair(), count);
    a_repair_keeps_the_best_runtime(disk);
    a_repair_keeps_the_best_runtime(halfway);
    reveal_with_fuel(Disk::after_all, 5);
    if disk.compatible(Spot::Staging) {
        install::a_compatible_runtime_is_complete(disk.staging->0);
    }
}

/// The record of a promotion under way.
#[derive(Debug)]
pub struct InstallJournal {
    pub schema: u8,
    pub package: String,
    pub version: String,
}

/// The generation of the journal this build writes.
pub const JOURNAL_VERSION: u8 = 1;

/// The journal of a promotion that begins now.
pub fn new_journal() -> (journal: InstallJournal)
    ensures
        journal.schema == JOURNAL_VERSION,
        journal.package@ == install::PACKAGE@,
        journal.version@ == install::VERSION@,
{
    InstallJournal {
        schema: JOURNAL_VERSION,
        package: install::PACKAGE.to_owned(),
        version: install::VERSION.to_owned(),
    }
}

/// What was found where the journal belongs.
#[derive(Debug)]
pub enum JournalFile {
    /// No journal.
    Absent,
    /// The file could not be read.
    Unreadable(String),
    /// The file does not hold a journal.
    Invalid(String),
    /// A journal.
    Read(InstallJournal),
}

/// What is wrong with what was found where the journal belongs, if anything.
pub open spec fn journal_fault(found: JournalFile) -> Option<Fault> {
    match found {
        JournalFile::Absent => None,
        JournalFile::Unreadable(cause) => Some(
            Fault::Install("could not read install state: "@ + cause@),
        ),
        JournalFile::Invalid(cause) => Some(
            Fault::Install("install state is invalid: "@ + cause@),
        ),
        JournalFile::Read(journal) => if journal.schema != JOURNAL_VERSION || journal.package@
            != install::PACKAGE@ {
            Some(
                Fault::Install(
                    "install state belongs to an unsupported runtime transaction"@,
                ),
            )
        } else {
            None
        },
    }
}

/// Whether there is a journal this build can act on.
pub fn check_journal(found: &JournalFile) -> (checked: Result<bool, Error>)
    ensures
        match checked {
            Ok(present) => journal_fault(*found) is None && present == (*found !is Absent),
            Err(error) => journal_fault(*found) == Some(error@),
        },
{
    match found {
        JournalFile::Absent => Ok(false),
        JournalFile::Unreadable(cause) => Err(
            Error::Install(text::join2("could not read install state: ", cause)),
        ),
        JournalFile::Invalid(cause) => Err(
            Error::Install(text::join2("install state is invalid: ", cause)),
        ),
        JournalFile::Read(journal) => if journal.schema != JOURNAL_VERSION || !text::same(
            &journal.package,
            install::PACKAGE,
        ) {
            Err(
                Error::Install(
                    "install state belongs to an unsupported runtime transaction".to_owned(),
                ),
            )
        } else {
            Ok(true)
        },
    }
}

/// A journal this build writes is one it can act on.
pub proof fn a_written_journal_is_accepted(journal: InstallJournal)
    requires
        journal.schema == JOURNAL_VERSION,
        journal.package@ == install::PACKAGE@,
    ensures
        journal_fault(JournalFile::Read(journal)) is None,
{
}

/// What repairs an install that was interrupted before, during or after the
/// directory swap; nothing where no journal is present.
pub fn plan_repair(
    journal: &JournalFile,
    live: &RuntimeFiles,
    staging: &RuntimeFiles,
    backup: &RuntimeFiles,
) -> (planned: Result<Option<Vec<Step>>, Error>)
    ensures
        match planned {
            Ok(Some(steps)) => {
                &&& *journal is Read
                &&& journal_fault(*journal) is None
                &&& steps@ == repair_steps(
                    live.finding().complete(),
                    backup.finding().complete(),
                    staging.finding().compatible(),
                )
            },
            Ok(None) => *journal is Absent,
            Err(error) => journal_fault(*journal) == Some(error@),
        },
{
    match check_journal(journal) {
        Ok(true) => Ok(
            Some(
                repair(
                    install::runtime_complete(live),
                    install::runtime_complete(backup),
                    install::runtime_compatible(staging),
                ),
            ),
        ),
        Ok(false) => Ok(None),
        Err(error) => Err(error),
    }
}

/// Repairs an interrupted install from an environment probe.
///
/// Gives nothing to do while an install or another recovery holds the runtime
/// and where no journal is present, so it is safe on every environment probe.
/// Otherwise the runtime stays claimed until the steps are done.
pub fn recover_managed_install(
    managed: &mut ManagedRuntime,
    journal: &JournalFile,
    live: &RuntimeFiles,
    staging: &RuntimeFiles,
    backup: &RuntimeFiles,
) -> (planned: Result<Option<Vec<Step>>, Error>)
    ensures
        match planned {
            Ok(Some(steps)) => {
                &&& old(managed).activity is Idle
                &&& *journal is Read
                &&& journal_fault(*journal) is None
                &&& steps@ == repair_steps(
                    live.finding().complete(),
                    backup.finding().complete(),
                    staging.finding().compatible(),
                )
                &&& final(managed).activity is Recovering
            },
            Ok(None) => (old(managed).activity !is Idle || *journal is Absent) && *final(managed)
                == *old(managed),
            Err(error) => old(managed).activity is Idle && journal_fault(*journal) == Some(error@)
                && *final(managed) == *old(managed),
        },
{
    if !managed.begin_recovery() {
        return Ok(None);
    }
    match plan_repair(journal, live, staging, backup) {
        Ok(Some(steps)) => Ok(Some(steps)),
        Ok(None) => {
            managed.finish();
            Ok(None)
        },
        Err(error) => {
            managed.finish();
            Err(error)
        },
    }
}

/// What is said of a repair step that failed.
pub open spec fn repair_fault(step: Step, cause: Seq<char>) -> Seq<char> {
    match step {
        Step::Rename(Spot::Backup, _) => "could not restore the previous Harness runtime: "@
            + cause,
        Step::Rename(_, _) => "could not finish activating the Harness runtime: "@ + cause,
        Step::ClearJournal => "could not clear the recovered install journal: "@ + cause,
        _ => cause,
    }
}

/// What is said of a repair step that failed.
pub fn repair_failure(step: Step, cause: &str) -> (error: Error)
    ensures
        error@ == Fault::Install(repair_fault(step, cause@)),
{
    Error::Install(
        match step {
            Step::Rename(Spot::Backup, _) => text::join2(
                "could not restore the previous Harness runtime: ",
                cause,
            ),
            Step::Rename(_, _) => text::join2(
                "could not finish activating the Harness runtime: ",
                cause,
            ),
            Step::ClearJournal => text::join2(
                "could not clear the recovered install journal: ",
                cause,
            ),
            _ => cause.to_owned(),
        },
    )
}

/// What clears the way for assembling a release.
pub open spec fn preparation() -> Seq<Step> {
    seq![Step::Remove(Spot::Staging), Step::Remove(Spot::Backup), Step::WriteJournal]
}

/// What is done about a release that could not be assembled; each step is tried
/// whatever comes of the others.
pub open spec fn abandonment() -> Seq<Step> {
    seq![Step::Remove(Spot::Staging), Step::ClearJournal]
}

/// What clears the way for assembling a release.
pub fn prepare() -> (steps: Vec<Step>)
    ensures
        steps@ == preparation(),
{
    let mut steps: Vec<Step> = Vec::new();
    steps.push(Step::Remove(Spot::Staging));
    steps.push(Step::Remove(Spot::Backup));
    steps.push(Step::WriteJournal);
    assert(steps@ =~= preparation());
    steps
}

/// What is done about a release that could not be assembled.
pub fn abandon() -> (steps: Vec<Step>)
    ensures
        steps@ == abandonment(),
{
    let mut steps: Vec<Step> = Vec::new();
    steps.push(Step::Remove(Spot::Staging));
    steps.push(Step::ClearJournal);
    assert(steps@ =~= abandonment());
    steps
}

/// A release that could not be assembled leaves the live runtime as it was and
/// no journal behind.
pub proof fn an_abandoned_install_changes_nothing(disk: Disk)
    ensures
        ({
            let prepared = disk.after_all(preparation(), preparation().len());
            let left = prepared.after_all(abandonment(), abandonment().len());
            left.live == disk.live && left.staging is None && !left.journal
        }),
{
    reveal_with_fuel(Disk::after_all, 4);
}

/// How far a promotion has come: the step that was last asked for.
#[derive(Clone, Copy, Debug, PartialEq, Eq, Structural)]
pub enum Stage {
    /// The live runtime is moved aside.
    Preserving,
    /// The new runtime is moved in.
    Activating,
    /// The previous runtime is moved back, because the new one could not be.
    Restoring,
    /// The new runtime is held against the contract where it now lies.
    Verifying,
    /// The new runtime is removed, because it failed there.
    Discarding,
    /// The previous runtime is moved back in its place.
    Reinstating,
    /// The previous runtime is removed.
    Tidying,
    /// The journal is cleared.
    Closing,
    /// Nothing more is asked for.
    Finished,
}

/// What came of a step, and which directories exist after it.
#[derive(Clone, Copy, Debug, PartialEq, Eq, Structural)]
pub struct Report {
    pub done: bool,
    pub live: bool,
    pub backup: bool,
}

/// The first stage of a promotion and its step.
pub open spec fn first_stage(live: bool) -> (Stage, Step) {
    if live {
        (Stage::Preserving, Step::Rename(Spot::Live, Spot::Backup))
    } else {
        (Stage::Activating, Step::Rename(Spot::Staging, Spot::Live))
    }
}

/// The next stage of a promotion and its step.
pub open spec fn next_stage(stage: Stage, report: Report) -> (Stage, Step) {
    match stage {
        Stage::Preserving if report.done => (
            Stage::Activating,
            Step::Rename(Spot::Staging, Spot::Live),
        ),
        Stage::Activating if report.done => (Stage::Verifying, Step::Verify),
        Stage::Activating if report.backup && !report.live => (
            Stage::Restoring,
            Step::Rename(Spot::Backup, Spot::Live),
        ),
        Stage::Verifying if report.done => (Stage::Tidying, Step::Remove(Spot::Backup)),
        Stage::Verifying => (Stage::Discarding, Step::Remove(Spot::Live)),
        Stage::Discarding if report.backup => (
            Stage::Reinstating,
            Step::Rename(Spot::Backup, Spot::Live),
        ),
        Stage::Tidying if report.done => (Stage::Closing, Step::ClearJournal),
        _ => (Stage::Finished, Step::Stop),
    }
}

/// Why a step failed.
#[derive(Debug)]
pub enum Failure {
    /// What the system said.
    Cause(String),
    /// What the library said.
    Refused(Error),
}

/// What is said of a promotion that failed at a stage.
pub open spec fn stage_fault(stage: Stage, failure: Failure) -> Fault {
    match failure {
        Failure::Refused(error) => error@,
        Failure::Cause(cause) => Fault::Install(
            (match stage {
                Stage::Preserving =>
                    "could not preserve the current Harness runtime before upgrading: "@,
                Stage::Activating => "could not activate the verified Harness runtime: "@,
                Stage::Closing =>
                    "the Harness runtime is ready but its install journal could not be cleared: "@,
                _ => Seq::empty(),
            }) + cause@,
        ),
    }
}

/// Whether a failure at a stage is the failure of the promotion. What is tried
/// after one to put the previous runtime back is tried for its own sake.
pub open spec fn decisive(stage: Stage) -> bool {
    match stage {
        Stage::Preserving => true,
        Stage::Activating => true,
        Stage::Verifying => true,
        Stage::Tidying => true,
        Stage::Closing => true,
        _ => false,
    }
}

/// A promotion under way.
#[derive(Debug)]
pub struct Promotion {
    pub stage: Stage,
    pub failure: Option<Error>,
}

impl Promotion {
    /// What went wrong so far, if anything.
    pub open spec fn fault(self) -> Option<Fault> {
        match self.failure {
            Some(error) => Some(error@),
            None => None,
        }
    }

    /// Begins a promotion.
    pub fn begin(live: bool) -> (begun: (Promotion, Step))
        ensures
            (begun.0.stage, begun.1) == first_stage(live),
            begun.0.fault() is None,
    {
        if live {
            (
                Promotion { stage: Stage::Preserving, failure: None },
                Step::Rename(Spot::Live, Spot::Backup),
            )
        } else {
            (
                Promotion { stage: Stage::Activating, failure: None },
                Step::Rename(Spot::Staging, Spot::Live),
            )
        }
    }

    /// Takes in what came of the last step and gives the next one.
    pub fn next(&mut self, outcome: Result<(), Failure>, live: bool, backup: bool) -> (step: Step)
        ensures
            (final(self).stage, step) == next_stage(
                old(self).stage,
                (Report { done: outcome is Ok, live, backup }),
            ),
            final(self).fault() == (match outcome {
                Err(failure) => if decisive(old(self).stage) {
                    Some(stage_fault(old(self).stage, failure))
                } else {
                    old(self).fault()
                },
                Ok(_) => old(self).fault(),
            }),
    {
        let done = outcome.is_ok();
        let decides = match self.stage {
            Stage::Preserving => true,
            Stage::Activating => true,
            Stage::Verifying => true,
            Stage::Tidying => true,
            Stage::Closing => true,
            _ => false,
        };
        if decides {
            if let Err(failure) = outcome {
                let error = match failure {
                    Failure::Refused(error) => error,
                    Failure::Cause(cause) => Error::Install(
                        text::join2(
                            match self.stage {
                                Stage::Preserving =>
                                    "could not preserve the current Harness runtime before upgrading: ",
                                Stage::Activating =>
                                    "could not activate the verified Harness runtime: ",
                                Stage::Closing =>
                                    "the Harness runtime is ready but its install journal could not be cleared: ",
                                _ => "",
                            },
                            &cause,
                        ),
                    ),
                };
                proof {
                    reveal_strlit("");
                    assert(""@ =~= Seq::<char>::empty());
                }
                self.failure = Some(error);
            }
        }
        let (stage, step) = match self.stage {
            Stage::Preserving => if done {
                (Stage::Activating, Step::Rename(Spot::Staging, Spot::Live))
            } else {
                (Stage::Finished, Step::Stop)
            },
            Stage::Activating => if done {
                (Stage::Verifying, Step::Verify)
            } else if backup && !live {
                (Stage::Restoring, Step::Rename(Spot::Backup, Spot::Live))
            } else {
                (Stage::Finished, Step::Stop)
            },
            Stage::Verifying => if done {
                (Stage::Tidying, Step::Remove(Spot::Backup))
            } else {
                (Stage::Discarding, Step::Remove(Spot::Live))
            },
            Stage::Discarding => if backup {
                (Stage::Reinstating, Step::Rename(Spot::Backup, Spot::Live))
            } else {
                (Stage::Finished, Step::Stop)
            },
            Stage::Tidying => if done {
                (Stage::Closing, Step::ClearJournal)
            } else {
                (Stage::Finished, Step::Stop)
            },
            _ => (Stage::Finished, Step::Stop),
        };
        self.stage = stage;
        step
    }

    /// What came of the promotion.
    pub fn conclude(self) -> (checked: Result<(), Error>)
        ensures
            match checked {
                Ok(_) => self.fault() is None,
                Err(error) => self.fault() == Some(error@),
            },
    {
        match self.failure {
            Some(error) => Err(error),
            None => Ok(()),
        }
    }
}

/// What a promotion leaves behind where the steps in `failing` fail and all
/// others go well, and whether it succeeded. A rename fails too where there is
/// nothing to rename.
pub open spec fn promoted(
    disk: Disk,
    failing: Set<Stage>,
    stage: Stage,
    step: Step,
    good: bool,
    fuel: nat,
) -> (Disk, bool)
    decreases fuel,
{
    if fuel == 0 || stage is Finished {
        (disk, good)
    } else {
        let done = !failing.contains(stage) && (match step {
            Step::Rename(from, _) => disk.at(from) is Some,
            Step::Verify => disk.compatible(Spot::Live),
            _ => true,
        });
        let next_disk = if done {
            disk.after(step)
        } else {
            disk
        };
        let report = Report { done, live: next_disk.live is Some, backup: next_disk.backup is Some };
        let following = next_stage(stage, report);
        promoted(
            next_disk,
            failing,
            following.0,
            following.1,
            good && (done || !decisive(stage)),
            (fuel - 1) as nat,
        )
    }
}

/// What a whole promotion leaves behind, and whether it succeeded.
pub open spec fn promotion(disk: Disk, failing: Set<Stage>) -> (Disk, bool) {
    let first = first_stage(disk.live is Some);
    promoted(disk, failing, first.0, first.1, true, 8)
}

/// A release that meets the contract becomes the live one, and neither the
/// previous runtime nor the journal is left behind.
pub proof fn a_verified_release_becomes_live(disk: Disk)
    requires
        disk.compatible(Spot::Staging),
    ensures
        promotion(disk, Set::empty()) == (
            Disk { live: disk.staging, staging: None, backup: None, journal: false },
            true,
        ),
{
    reveal_with_fuel(promoted, 9);
}

/// A release that fails the contract once it is live is taken out again, and
/// the previous runtime is back in its place.
pub proof fn a_failed_activation_restores_the_previous_runtime(disk: Disk)
    requires
        disk.live is Some,
        disk.staging is Some,
        !disk.compatible(Spot::Staging),
    ensures
        promotion(disk, Set::empty()).0.live == disk.live,
        promotion(disk, Set::empty()).0.backup is None,
        !promotion(disk, Set::empty()).1,
{
    reveal_with_fuel(promoted, 9);
}

/// Whatever fails on the way, the runtime that was live before is still live or
/// kept, or a release that meets the contract has taken its place.
pub proof fn a_promotion_never_loses_the_runtime(disk: Disk, failing: Set<Stage>)
    requires
        disk.live is Some,
    ensures
        ({
            let left = promotion(disk, failing).0;
            ||| left.live == disk.live
            ||| left.backup == disk.live
            ||| left.live == disk.staging && disk.compatible(Spot::Staging)
        }),
{
    reveal_with_fuel(promoted, 9);
}

/// Wherever a promotion breaks off, and whatever failed before, the next repair
/// has a complete runtime live where there was one.
pub proof fn a_broken_off_promotion_is_repaired(disk: Disk, failing: Set<Stage>, done: nat)
    requires
        disk.complete(Spot::Live),
        done <= 8,
    ensures
        ({
            let first = first_stage(disk.live is Some);
            let left = promoted(disk, failing, first.0, first.1, true, done).0;
            left.after_all(left.repair(), left.repair().len()).complete(Spot::Live)
        }),
{
    let first = first_stage(disk.live is Some);
    let left = promoted(disk, failing, first.0, first.1, true, done).0;
    reveal_with_fuel(promoted, 9);
    a_repair_keeps_the_best_runtime(left);
    if disk.compatible(Spot::Staging) {
        install::a_compatible_runtime_is_complete(disk.staging->0);
    }
    if left.compatible(Spot::Staging) {
        install::a_compatible_runtime_is_complete(left.staging->0);
    }
}

/// A promotion ends within eight steps.
pub proof fn a_promotion_ends(disk: Disk, failing: Set<Stage>, more: nat)
    ensures
        ({
            let first = first_stage(disk.live is Some);
            promoted(disk, failing, first.0, first.1, true, 8 + more) == promotion(disk, failing)
        }),
{
    reveal_with_fuel(promoted, 9);
}

/// Where a release comes from.
#[derive(Clone, Copy, Debug, PartialEq, Eq, Structural)]
pub enum Source {
    /// It is assembled from the registry.
    Registry,
    /// It is unpacked from the application's own package.
    Package,
}

/// The next thing to do in a transaction that installs a release.
#[derive(Debug)]
pub enum TransactionStep {
    /// Repair what an earlier one left behind.
    Recover,
    /// Clear the way and record that one is under way.
    Prepare,
    /// Assemble the release in the staging directory and verify it there.
    Assemble,
    /// Clear away what could not be assembled.
    Abandon { failure: Error },
    /// Hold what was assembled against the contract once more.
    Require,
    /// Put it in the place of the live runtime.
    Promote,
    /// Report this.
    Done(Result<(), Error>),
}

/// The step of a transaction that follows another, given how that came out.
pub open spec fn transaction_next(
    step: TransactionStep,
    outcome: Result<(), Error>,
    source: Source,
) -> TransactionStep {
    match (step, outcome) {
        (TransactionStep::Recover, Ok(_)) => TransactionStep::Prepare,
        (TransactionStep::Prepare, Ok(_)) => TransactionStep::Assemble,
        (TransactionStep::Assemble, Ok(_)) => match source {
            Source::Registry => TransactionStep::Require,
            Source::Package => TransactionStep::Promote,
        },
        (TransactionStep::Assemble, Err(failure)) => TransactionStep::Abandon { failure },
        (TransactionStep::Abandon { failure }, _) => TransactionStep::Done(Err(failure)),
        (TransactionStep::Require, Ok(_)) => TransactionStep::Promote,
        (TransactionStep::Promote, result) => TransactionStep::Done(result),
        (TransactionStep::Done(result), _) => TransactionStep::Done(result),
        (_, Err(failure)) => TransactionStep::Done(Err(failure)),
    }
}

/// What comes after a step of a transaction, given how it came out.
pub fn next_transaction(
    step: TransactionStep,
    outcome: Result<(), Error>,
    source: Source,
) -> (next: TransactionStep)
    ensures
        next == transaction_next(step, outcome, source),
{
    match (step, outcome) {
        (TransactionStep::Recover, Ok(_)) => TransactionStep::Prepare,
        (TransactionStep::Prepare, Ok(_)) => TransactionStep::Assemble,
        (TransactionStep::Assemble, Ok(_)) => match source {
            Source::Registry => TransactionStep::Require,
            Source::Package => TransactionStep::Promote,
        },
        (TransactionStep::Assemble, Err(failure)) => TransactionStep::Abandon { failure },
        // Clearing away is tried for its own sake; what went wrong before is
        // what is reported.
        (TransactionStep::Abandon { failure }, _) => TransactionStep::Done(Err(failure)),
        (TransactionStep::Require, Ok(_)) => TransactionStep::Promote,
        (TransactionStep::Promote, result) => TransactionStep::Done(result),
        (TransactionStep::Done(result), _) => TransactionStep::Done(result),
        (_, Err(failure)) => TransactionStep::Done(Err(failure)),
    }
}

/// How many steps of a transaction may still come.
pub open spec fn transaction_steps_left(step: TransactionStep) -> int {
    match step {
        TransactionStep::Recover => 5,
        TransactionStep::Prepare => 4,
        TransactionStep::Assemble => 3,
        TransactionStep::Require => 2,
        TransactionStep::Abandon { .. } => 1,
        TransactionStep::Promote => 1,
        TransactionStep::Done(_) => 0,
    }
}

/// A transaction ends.
pub proof fn a_transaction_ends(
    step: TransactionStep,
    outcome: Result<(), Error>,
    source: Source,
)
    requires
        !(step is Done),
    ensures
        0 <= transaction_steps_left(transaction_next(step, outcome, source))
            < transaction_steps_left(step),
{
}

/// The live runtime is touched only once a release was assembled and verified in
/// the staging directory, and one from the registry held against the contract
/// there once more.
pub proof fn only_a_verified_release_is_promoted(
    step: TransactionStep,
    outcome: Result<(), Error>,
    source: Source,
)
    requires
        transaction_next(step, outcome, source) is Promote,
    ensures
        outcome is Ok,
        step is Require || step is Assemble && source is Package,
{
}

/// What could not be assembled is cleared away, and the failure is reported
/// whatever comes of that.
pub proof fn a_failed_assembly_is_abandoned(
    failure: Error,
    cleared: Result<(), Error>,
    source: Source,
)
    ensures
        ({
            let abandoned = transaction_next(TransactionStep::Assemble, Err(failure), source);
            &&& abandoned == (TransactionStep::Abandon { failure })
            &&& transaction_next(abandoned, cleared, source) == TransactionStep::Done(
                Err(failure),
            )
        }),
{
}

/// A transaction that goes well repairs what an earlier one left, clears the way,
/// assembles the release, holds one from the registry against the contract once
/// more, and only then promotes it; what comes of that is what is reported.
pub proof fn a_transaction_goes_one_way(source: Source, promoted: Result<(), Error>)
    ensures
        ({
            let prepare = transaction_next(TransactionStep::Recover, Ok(()), source);
            let assemble = transaction_next(prepare, Ok(()), source);
            let checked = transaction_next(assemble, Ok(()), source);
            let promote = if source is Registry {
                transaction_next(checked, Ok(()), source)
            } else {
                checked
            };
            &&& prepare is Prepare
            &&& assemble is Assemble
            &&& source is Registry ==> checked is Require
            &&& promote is Promote
            &&& transaction_next(promote, promoted, source) == TransactionStep::Done(promoted)
        }),
{
}

/// A step before the promotion that fails ends the transaction with its own failure,
/// and what was being assembled is cleared away first.
pub proof fn a_failed_step_ends_the_transaction(
    step: TransactionStep,
    failure: Error,
    source: Source,
)
    requires
        step is Recover || step is Prepare || step is Require || step is Assemble,
    ensures
        step is Assemble ==> transaction_next(step, Err(failure), source) == (
        TransactionStep::Abandon { failure }),
        !(step is Assemble) ==> transaction_next(step, Err(failure), source)
            == TransactionStep::Done(Err(failure)),
{
}

/// Clearing the way leaves the live runtime as it is, the other two places empty and
/// the journal written.
pub proof fn a_cleared_way_is_recorded(disk: Disk)
    ensures
        disk.after_all(preparation(), preparation().len()) == (Disk {
            live: disk.live,
            staging: None,
            backup: None,
            journal: true,
        }),
{
    reveal_with_fuel(Disk::after_all, 4);
}

/// A rename puts what was in one place into the other and leaves the first empty,
/// and touches nothing else; removing empties a place.
pub proof fn a_rename_moves_one_runtime(disk: Disk, from: Spot, to: Spot, other: Spot)
    requires
        from != to,
        other != from,
        other != to,
    ensures
        disk.after(Step::Rename(from, to)).at(to) == disk.at(from),
        disk.after(Step::Rename(from, to)).at(from) is None,
        disk.after(Step::Rename(from, to)).at(other) == disk.at(other),
        disk.after(Step::Rename(from, to)).journal == disk.journal,
        disk.after(Step::Remove(from)).at(from) is None,
        disk.after(Step::Remove(from)).at(to) == disk.at(to),
        disk.after(Step::Remove(from)).at(other) == disk.at(other),
        disk.after(Step::Verify) == disk,
{
}

/// A promotion succeeds only where the new runtime meets the contract where it now
/// lies, and then it is live, the previous one is gone and the journal cleared.
pub proof fn a_promotion_succeeds_only_with_a_verified_runtime(disk: Disk, failing: Set<Stage>)
    requires
        promotion(disk, failing).1,
    ensures
        disk.compatible(Spot::Staging),
        promotion(disk, failing).0 == (Disk {
            live: disk.staging,
            staging: None,
            backup: None,
            journal: false,
        }),
{
    reveal_with_fuel(promoted, 9);
}

/// A journal is acted on exactly where it is of this generation and about the
/// official package, or where there is none; whatever else is found is said.
pub proof fn only_a_known_journal_is_acted_on(found: JournalFile)
    ensures
        journal_fault(found) is None <==> found is Absent || (found matches JournalFile::Read(
            journal,
        ) && journal.schema == 1 && journal.package@ == "@deepseek-ai/dsh"@),
        found matches JournalFile::Unreadable(cause) ==> (journal_fault(found) matches Some(
            Fault::Install(said),
        ) && text::finishes(said, cause@)),
        found matches JournalFile::Invalid(cause) ==> (journal_fault(found) matches Some(
            Fault::Install(said),
        ) && text::finishes(said, cause@)),
{
    if let JournalFile::Unreadable(cause) = found {
        text::a_prefix_taken_away_can_be_put_back(
            cause@,
            cause@,
            "could not read install state: "@,
        );
    }
    if let JournalFile::Invalid(cause) = found {
        text::a_prefix_taken_away_can_be_put_back(cause@, cause@, "install state is invalid: "@);
    }
}

/// A refusal of the library is reported as it is, and what the system said is
/// reported last, behind what was being done; what is tried afterwards to put the
/// previous runtime back decides nothing.
pub proof fn a_failure_is_reported_with_its_stage(stage: Stage, error: Error, cause: String)
    ensures
        stage_fault(stage, Failure::Refused(error)) == error@,
        stage_fault(stage, Failure::Cause(cause)) matches Fault::Install(said) && text::finishes(
            said,
            cause@,
        ),
        stage_fault(Stage::Preserving, Failure::Cause(cause)) == Fault::Install(
            "could not preserve the current Harness runtime before upgrading: "@ + cause@,
        ),
        stage_fault(Stage::Activating, Failure::Cause(cause)) == Fault::Install(
            "could not activate the verified Harness runtime: "@ + cause@,
        ),
        stage_fault(Stage::Closing, Failure::Cause(cause)) == Fault::Install(
            "the Harness runtime is ready but its install journal could not be cleared: "@ + cause@,
        ),
        decisive(stage) <==> !(stage is Restoring || stage is Discarding || stage is Reinstating
            || stage is Finished),
{
    let said = stage_fault(stage, Failure::Cause(cause))->Install_0;
    assert(said.skip(said.len() - cause@.len()) =~= cause@);
}

/// What is said of a repair that failed ends with what the system said, and says
/// which of the two renames or that clearing the journal failed.
pub proof fn a_failed_repair_is_said(step: Step, cause: Seq<char>, to: Spot)
    ensures
        text::finishes(repair_fault(step, cause), cause),
        repair_fault(Step::Rename(Spot::Backup, to), cause)
            == "could not restore the previous Harness runtime: "@ + cause,
        repair_fault(Step::Rename(Spot::Staging, to), cause)
            == "could not finish activating the Harness runtime: "@ + cause,
        repair_fault(Step::ClearJournal, cause) == "could not clear the recovered install journal: "@
            + cause,
        repair_fault(Step::Remove(to), cause) == cause,
{
    let said = repair_fault(step, cause);
    assert(said.skip(said.len() - cause.len()) =~= cause);
}

/// A directory holds a runtime exactly where one was found there, and a changed one
/// holds what was put into it while the others hold what they held.
pub proof fn each_place_holds_its_own_runtime(disk: Disk, spot: Spot, other: Spot, held: Option<
    Finding,
>)
    ensures
        disk.at(Spot::Live) == disk.live,
        disk.at(Spot::Staging) == disk.staging,
        disk.at(Spot::Backup) == disk.backup,
        disk.with(spot, held).at(spot) == held,
        other != spot ==> disk.with(spot, held).at(other) == disk.at(other),
        disk.with(spot, held).journal == disk.journal,
        held matches Some(found) ==> (found.complete() <==> disk.with(spot, held).complete(spot)),
        held matches Some(found) ==> (found.compatible() <==> disk.with(spot, held).compatible(
            spot,
        )),
        !disk.with(spot, None).complete(spot),
        !disk.with(spot, None).compatible(spot),
{
}

/// A promotion whose release cannot be moved in puts the previous runtime back where
/// nothing is live, and one that cannot move the live runtime aside stops at once.
pub proof fn a_promotion_that_cannot_go_on_goes_back(disk: Disk, failing: Set<Stage>)
    requires
        disk.live is Some,
    ensures
        failing.contains(Stage::Preserving) ==> promotion(disk, failing) == (disk, false),
        failing.contains(Stage::Activating) && !failing.contains(Stage::Preserving)
            && !failing.contains(Stage::Restoring) ==> promotion(disk, failing) == (
            Disk { backup: None, ..disk },
            false,
        ),
{
    reveal_with_fuel(promoted, 9);
}

/// What went wrong with a promotion is what is reported of it.
pub proof fn a_promotion_reports_what_went_wrong(stage: Stage, error: Error)
    ensures
        (Promotion { stage, failure: Some(error) }).fault() == Some(error@),
        (Promotion { stage, failure: None }).fault() is None,
{
}

/// What is wrong with a journal is said: that it cannot be read, that it is none, or
/// that it belongs to another build's transaction. A failure at any other stage is
/// said in the system's own words.
pub proof fn a_faulty_journal_is_told(cause: String, journal: InstallJournal, stage: Stage)
    ensures
        journal_fault(JournalFile::Unreadable(cause)) == Some(
            Fault::Install("could not read install state: "@ + cause@),
        ),
        journal_fault(JournalFile::Invalid(cause)) == Some(
            Fault::Install("install state is invalid: "@ + cause@),
        ),
        journal.schema != 1 ==> journal_fault(JournalFile::Read(journal)) == Some(
            Fault::Install("install state belongs to an unsupported runtime transaction"@),
        ),
        journal.package@ != "@deepseek-ai/dsh"@ ==> journal_fault(JournalFile::Read(journal))
            == Some(Fault::Install("install state belongs to an unsupported runtime transaction"@)),
        stage !is Preserving && stage !is Activating && stage !is Closing ==> stage_fault(
            stage,
            Failure::Cause(cause),
        ) == Fault::Install(cause@),
{
    assert(Seq::<char>::empty() + cause@ =~= cause@);
}

} // verus!
