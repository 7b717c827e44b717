//! Child processes the shell runs to completion: what they are asked, how long
//! they may stay silent, and what is made of how they end.
use vstd::prelude::*;

use crate::error::{Error, Fault};
use crate::text;

verus! {

/// How long an install command may be silent, in milliseconds.
pub const INSTALL_IDLE_TIMEOUT: u64 = 120_000;

/// How long an install command may run, in milliseconds.
pub const INSTALL_TOTAL_TIMEOUT: u64 = 1_200_000;

/// How long the rest of an install command's output is waited for, in
/// milliseconds.
pub const INSTALL_DRAIN_TIMEOUT: u64 = 3_000;

/// One child process, as plain values.
#[derive(Debug)]
pub struct CommandLine {
    pub program: String,
    pub arguments: Vec<String>,
    pub directory: Option<String>,
    /// Variables set for the child, in order; a later one wins.
    pub environment: Vec<(String, String)>,
}

/// One child process by what it says.
pub struct Invocation {
    pub program: Seq<char>,
    pub arguments: Seq<Seq<char>>,
    pub directory: Option<Seq<char>>,
    pub environment: Seq<(Seq<char>, Seq<char>)>,
}

/// Variables by what they say.
pub open spec fn variables(list: Seq<(String, String)>) -> Seq<(Seq<char>, Seq<char>)> {
    Seq::new(list.len(), |i: int| (list[i].0@, list[i].1@))
}

impl View for CommandLine {
    type V = Invocation;

    open spec fn view(&self) -> Invocation {
        Invocation {
            program: self.program@,
            arguments: text::texts(self.arguments@),
            directory: text::seen(self.directory),
            environment: variables(self.environment@),
        }
    }
}

/// The value a child sees: that of the last variable of the name.
pub open spec fn value_seen(
    environment: Seq<(Seq<char>, Seq<char>)>,
    name: Seq<char>,
) -> Option<Seq<char>>
    decreases environment.len(),
{
    if environment.len() == 0 {
        None
    } else if environment.last().0 == name {
        Some(environment.last().1)
    } else {
        value_seen(environment.drop_last(), name)
    }
}

/// Adds an argument.
pub(crate) fn argue(list: &mut Vec<String>, argument: &str)
    ensures
        text::texts(final(list)@) == text::texts(old(list)@).push(argument@),
{
    let ghost before = text::texts(list@);
    list.push(argument.to_owned());
    assert(text::texts(list@) =~= before.push(argument@));
}

/// Sets a variable.
pub(crate) fn set(list: &mut Vec<(String, String)>, name: &str, value: &str)
    ensures
        variables(final(list)@) == variables(old(list)@).push((name@, value@)),
{
    let ghost before = variables(list@);
    list.push((name.to_owned(), value.to_owned()));
    assert(variables(list@) =~= before.push((name@, value@)));
}

/// `PATH` for a child, entry by entry: the directories the shell contributes
/// first, then whatever the user has.
pub open spec fn path_order(
    node: Option<Seq<char>>,
    manager: Option<Seq<char>>,
    existing: Seq<Seq<char>>,
) -> Seq<Seq<char>> {
    (match node {
        Some(directory) => seq![directory],
        None => Seq::empty(),
    }) + (match manager {
        Some(directory) => seq![directory],
        None => Seq::empty(),
    }) + existing
}

/// What Windows puts before a path of extended length.
pub const EXTENDED: &'static str = "\\\\?\\";

/// What Windows puts before a share in its spelling of extended length.
pub const EXTENDED_SHARE: &'static str = "\\\\?\\UNC\\";

/// What stands before a share elsewhere.
pub const SHARE: &'static str = "\\\\";

/// A directory as a shell can search it. On Windows that is without the spelling
/// of extended length, which the command processor cannot read: an entry it cannot
/// read is not one it skips, it is a launch that fails without saying why.
pub open spec fn plain(directory: Seq<char>, windows: bool) -> Seq<char> {
    if windows {
        match text::without_prefix(directory, EXTENDED_SHARE@) {
            Some(share) => SHARE@ + share,
            None => match text::without_prefix(directory, EXTENDED@) {
                Some(rest) => rest,
                None => directory,
            },
        }
    } else {
        directory
    }
}

/// A directory as a shell can search it, where there is one.
pub open spec fn plain_entry(directory: Option<Seq<char>>, windows: bool) -> Option<Seq<char>> {
    match directory {
        Some(found) => Some(plain(found, windows)),
        None => None,
    }
}

/// A directory as a shell can search it.
pub fn plain_path(directory: &str, windows: bool) -> (entry: String)
    ensures
        entry@ == plain(directory@, windows),
{
    if windows {
        match text::strip_prefix(directory, EXTENDED_SHARE) {
            Some(share) => text::join2(SHARE, &share),
            None => match text::strip_prefix(directory, EXTENDED) {
                Some(rest) => rest,
                None => directory.to_owned(),
            },
        }
    } else {
        directory.to_owned()
    }
}

/// No directory that is put on `PATH` keeps the spelling of extended length,
/// unless what follows that spelling begins with it once more.
pub proof fn an_entry_can_be_searched(directory: Seq<char>)
    requires
        text::without_prefix(directory, EXTENDED@) matches Some(rest) ==> !text::begins(
            rest,
            EXTENDED@,
        ),
        text::without_prefix(directory, EXTENDED_SHARE@) matches Some(share) ==> !text::begins(
            SHARE@ + share,
            EXTENDED@,
        ),
    ensures
        !text::begins(plain(directory, true), EXTENDED@),
{
}

/// Adds the entries of a list.
fn argue_all(list: &mut Vec<String>, added: &Vec<String>)
    ensures
        text::texts(final(list)@) == text::texts(old(list)@) + text::texts(added@),
{
    let ghost front = text::texts(list@);
    let mut index: usize = 0;
    assert(front + text::texts(added@).take(0) =~= front);
    while index < added.len()
        invariant
            index <= added@.len(),
            front == text::texts(old(list)@),
            text::texts(list@) == front + text::texts(added@).take(index as int),
        decreases added.len() - index,
    {
        argue(list, &added[index]);
        assert(text::texts(list@) =~= front + text::texts(added@).take(index + 1));
        index += 1;
    }
    assert(text::texts(added@).take(index as int) =~= text::texts(added@));
}

/// `PATH` with the chosen Node's directory in front.
pub fn path_with_node(node: &Option<String>, existing: &Vec<String>) -> (entries: Vec<String>)
    ensures
        text::texts(entries@) == path_order(text::seen(*node), None, text::texts(existing@)),
{
    let mut entries: Vec<String> = Vec::new();
    if let Some(directory) = node {
        argue(&mut entries, directory);
    }
    argue_all(&mut entries, existing);
    assert(text::texts(entries@) =~= path_order(
        text::seen(*node),
        None,
        text::texts(existing@),
    ));
    entries
}

/// `PATH` for a child: the chosen Node first, then any managed package manager,
/// then whatever the user has. Nothing is written to the user's own environment.
pub fn path_with(
    node: &Option<String>,
    manager: &Option<String>,
    existing: &Vec<String>,
    windows: bool,
) -> (entries: Vec<String>)
    ensures
        text::texts(entries@) == path_order(
            plain_entry(text::seen(*node), windows),
            plain_entry(text::seen(*manager), windows),
            text::texts(existing@),
        ),
{
    let mut entries: Vec<String> = Vec::new();
    if let Some(directory) = node {
        argue(&mut entries, &plain_path(directory, windows));
    }
    if let Some(directory) = manager {
        argue(&mut entries, &plain_path(directory, windows));
    }
    argue_all(&mut entries, existing);
    assert(text::texts(entries@) =~= path_order(
        plain_entry(text::seen(*node), windows),
        plain_entry(text::seen(*manager), windows),
        text::texts(existing@),
    ));
    entries
}

/// What the watch over a child has just seen.
#[derive(Clone, Copy, Debug, PartialEq, Eq, Structural)]
pub enum Sight {
    /// The child has ended.
    Exited,
    /// The child wrote something.
    Spoke,
    /// Both of the child's pipes were closed.
    Closed,
    /// Time passed.
    Nothing,
}

/// What the watch over a child does next.
#[derive(Clone, Copy, Debug, PartialEq, Eq, Structural)]
pub enum Verdict {
    /// The child has ended on its own.
    Finished,
    /// Look again, at this moment at the latest.
    Wait { until: u64 },
    /// The child was silent for too long: stop it.
    Silent,
    /// The child ran for too long: stop it.
    Overdue,
}

/// The watch over one child; every time is in milliseconds.
#[derive(Clone, Copy, Debug, PartialEq, Eq, Structural)]
pub struct Watch {
    /// How long the child may be silent.
    pub idle: u64,
    /// How long the child may run.
    pub total: u64,
    /// When the child was started.
    pub started: u64,
    /// When the child last wrote something.
    pub quiet_since: u64,
    /// Whether the child may still write something.
    pub observing: bool,
}

impl Watch {
    /// When the child has been silent for too long.
    pub open spec fn silent_at(self) -> u64 {
        self.quiet_since.saturating_add(self.idle)
    }

    /// When the child has run for too long.
    pub open spec fn overdue_at(self) -> u64 {
        self.started.saturating_add(self.total)
    }

    /// The earlier of the two moments.
    pub open spec fn next_look(self) -> u64 {
        if self.silent_at() <= self.overdue_at() {
            self.silent_at()
        } else {
            self.overdue_at()
        }
    }

    /// The watch after something was seen.
    pub open spec fn after(self, sight: Sight, now: u64) -> Watch {
        match sight {
            Sight::Spoke if self.observing => Watch { quiet_since: now, ..self },
            Sight::Closed if self.observing => Watch { observing: false, ..self },
            _ => self,
        }
    }

    /// What is done after something was seen. An ended child is taken as ended
    /// even when a limit has passed meanwhile, and output counts before silence.
    pub open spec fn verdict(self, sight: Sight, now: u64) -> Verdict {
        match sight {
            Sight::Exited => Verdict::Finished,
            Sight::Spoke if self.observing => Verdict::Wait {
                until: self.after(sight, now).next_look(),
            },
            Sight::Closed if self.observing => Verdict::Wait { until: self.next_look() },
            _ => if now >= self.silent_at() {
                Verdict::Silent
            } else if now >= self.overdue_at() {
                Verdict::Overdue
            } else {
                Verdict::Wait { until: self.next_look() }
            },
        }
    }

    /// A watch over a child that was just started.
    pub fn begin(idle: u64, total: u64, now: u64) -> (watch: Watch)
        ensures
            watch == (Watch { idle, total, started: now, quiet_since: now, observing: true }),
    {
        Watch { idle, total, started: now, quiet_since: now, observing: true }
    }

    /// The earlier of the two moments at which a limit passes.
    fn look(&self) -> (until: u64)
        ensures
            until == self.next_look(),
    {
        let silent: u64 = self.quiet_since.saturating_add(self.idle);
        let overdue: u64 = self.started.saturating_add(self.total);
        if silent <= overdue {
            silent
        } else {
            overdue
        }
    }

    /// Takes in what was just seen and says what is done next.
    pub fn see(&mut self, sight: Sight, now: u64) -> (verdict: Verdict)
        ensures
            *final(self) == old(self).after(sight, now),
            verdict == old(self).verdict(sight, now),
    {
        match sight {
            Sight::Exited => {
                return Verdict::Finished;
            },
            Sight::Spoke => {
                if self.observing {
                    self.quiet_since = now;
                    return Verdict::Wait { until: self.look() };
                }
            },
            Sight::Closed => {
                if self.observing {
                    self.observing = false;
                    return Verdict::Wait { until: self.look() };
                }
            },
            Sight::Nothing => {},
        }
        if now >= self.quiet_since.saturating_add(self.idle) {
            Verdict::Silent
        } else if now >= self.started.saturating_add(self.total) {
            Verdict::Overdue
        } else {
            Verdict::Wait { until: self.look() }
        }
    }
}

/// A child is never waited for past its safety limit, nor past the moment at
/// which its silence has lasted too long.
pub proof fn no_child_is_waited_for_forever(watch: Watch, sight: Sight, now: u64)
    ensures
        watch.verdict(sight, now) matches Verdict::Wait { until } ==> until <= watch.overdue_at()
            && until <= watch.after(sight, now).silent_at(),
{
}

/// Once a limit has passed and the child neither ends nor writes, it is stopped.
pub proof fn a_limit_that_passed_stops_the_child(watch: Watch, now: u64)
    requires
        now >= watch.next_look(),
    ensures
        watch.verdict(Sight::Nothing, now) is Silent || watch.verdict(Sight::Nothing, now)
            is Overdue,
{
}

/// How a child ended.
#[derive(Debug)]
pub struct Exit {
    pub success: bool,
    /// The status as the system describes it.
    pub shown: String,
}

/// How running a child came out.
#[derive(Debug)]
pub enum Ending {
    /// The child has no diagnostic pipes.
    NoPipes,
    /// The child was stopped for its silence.
    Silent,
    /// The child was stopped at its safety limit.
    Overdue,
    /// The child ended.
    Exited {
        /// Why the child itself could not be reclaimed, if it could not.
        reclaim: Option<String>,
        /// Why the rest of its process tree could not be ended, if it could not.
        tree: Option<String>,
        /// How it ended, or why it could not be waited on.
        status: Result<Exit, String>,
    },
}

/// What is wrong with an install command that came out that way, if anything.
pub open spec fn install_fault(label: Seq<char>, ending: Ending) -> Option<Seq<char>> {
    match ending {
        Ending::NoPipes => Some(label + " did not provide its diagnostic pipes"@),
        Ending::Silent => Some(
            label
                + " produced no output for 120 seconds and was stopped; retry on a working connection or use Full / Offline"@,
        ),
        Ending::Overdue => Some(
            label
                + " exceeded the 20 minute safety limit and was stopped; retry on a working connection or use Full / Offline"@,
        ),
        Ending::Exited { reclaim, tree: _, status } => match reclaim {
            Some(cause) => Some(label + " process tree could not be reclaimed: "@ + cause@),
            None => match status {
                Err(cause) => Some(label + " could not be waited on: "@ + cause@),
                Ok(exit) => if exit.success {
                    None
                } else {
                    Some(label + " exited with "@ + exit.shown@)
                },
            },
        },
    }
}

/// What comes of an install command that ended that way.
pub fn conclude_install(label: &str, ending: &Ending) -> (checked: Result<(), Error>)
    ensures
        match checked {
            Ok(_) => install_fault(label@, *ending) is None,
            Err(error) => install_fault(label@, *ending) matches Some(message) && error@
                == Fault::Install(message),
        },
{
    let message = match ending {
        Ending::NoPipes => text::join2(label, " did not provide its diagnostic pipes"),
        Ending::Silent => text::join2(
            label,
            " produced no output for 120 seconds and was stopped; retry on a working connection or use Full / Offline",
        ),
        Ending::Overdue => text::join2(
            label,
            " exceeded the 20 minute safety limit and was stopped; retry on a working connection or use Full / Offline",
        ),
        Ending::Exited { reclaim, tree: _, status } => match reclaim {
            Some(cause) => text::join3(label, " process tree could not be reclaimed: ", cause),
            None => match status {
                Err(cause) => text::join3(label, " could not be waited on: ", cause),
                Ok(exit) => {
                    if exit.success {
                        return Ok(());
                    }
                    text::join3(label, " exited with ", &exit.shown)
                },
            },
        },
    };
    Err(Error::Install(message))
}

/// What is wrong with a package-manager command that came out that way, if
/// anything; a failing exit is no fault of the run itself. Limits are in
/// milliseconds.
pub open spec fn package_fault(
    label: Seq<char>,
    idle: u64,
    total: u64,
    ending: Ending,
) -> Option<Seq<char>> {
    match ending {
        Ending::NoPipes => Some("the "@ + label + " did not provide its diagnostic pipes"@),
        Ending::Silent => Some(
            "the "@ + label + " produced no output for "@ + text::decimal((idle / 1000) as nat)
                + " seconds and was stopped; check the registry connection and retry"@,
        ),
        Ending::Overdue => Some(
            "the "@ + label + " exceeded the "@ + text::decimal((total / 1000) as nat)
                + " second safety limit and was stopped"@,
        ),
        Ending::Exited { reclaim, tree, status } => match (reclaim, tree, status) {
            (Some(cause), _, _) => Some(
                "the "@ + label + " process tree could not be reclaimed: "@ + cause@,
            ),
            (None, Some(cause), _) => Some(
                "the "@ + label + " process tree could not be reclaimed: "@ + cause@,
            ),
            (None, None, Err(cause)) => Some(
                "the "@ + label + " could not be waited on: "@ + cause@,
            ),
            (None, None, Ok(_)) => None,
        },
    }
}

/// What comes of a package-manager command that ended that way: how the child
/// exited, or what went wrong with running it.
pub fn conclude_package(label: &str, idle: u64, total: u64, ending: Ending) -> (checked: Result<
    Exit,
    Error,
>)
    ensures
        match checked {
            Ok(exit) => package_fault(label@, idle, total, ending) is None
                && ending->Exited_status == Ok::<Exit, String>(exit),
            Err(error) => package_fault(label@, idle, total, ending) matches Some(message)
                && error@ == Fault::Plugin(message),
        },
{
    let message = match ending {
        Ending::NoPipes => text::join3("the ", label, " did not provide its diagnostic pipes"),
        Ending::Silent => text::join5(
            "the ",
            label,
            " produced no output for ",
            &text::number_text(idle / 1000),
            " seconds and was stopped; check the registry connection and retry",
        ),
        Ending::Overdue => text::join5(
            "the ",
            label,
            " exceeded the ",
            &text::number_text(total / 1000),
            " second safety limit and was stopped",
        ),
        Ending::Exited { reclaim, tree, status } => match (reclaim, tree, status) {
            (Some(cause), _, _) => text::join4(
                "the ",
                label,
                " process tree could not be reclaimed: ",
                &cause,
            ),
            (None, Some(cause), _) => text::join4(
                "the ",
                label,
                " process tree could not be reclaimed: ",
                &cause,
            ),
            (None, None, Err(cause)) => text::join4(
                "the ",
                label,
                " could not be waited on: ",
                &cause,
            ),
            (None, None, Ok(exit)) => {
                return Ok(exit);
            },
        },
    };
    Err(Error::Plugin(message))
}

/// A child that writes something has all its time again: the next look is as far
/// away as silence may last, or where the whole run is over, whichever comes first;
/// what it may do in all does not change.
pub proof fn output_counts_against_silence(watch: Watch, now: u64)
    requires
        watch.observing,
    ensures
        ({
            let after = watch.after(Sight::Spoke, now);
            &&& after.silent_at() as int == (if now + watch.idle <= u64::MAX {
                now + watch.idle
            } else {
                u64::MAX as int
            })
            &&& after.overdue_at() == watch.overdue_at()
            &&& after.observing
            &&& watch.verdict(Sight::Spoke, now) matches Verdict::Wait { until } && (until
                == after.silent_at() || until == after.overdue_at()) && until <= after.silent_at()
                && until <= after.overdue_at()
        }),
{
}

/// A child whose pipes are closed is still waited for, and what it could have
/// written no longer counts.
pub proof fn closed_pipes_are_no_output(watch: Watch, now: u64)
    ensures
        ({
            let after = watch.after(Sight::Closed, now);
            &&& !after.observing
            &&& after.silent_at() == watch.silent_at() && after.overdue_at() == watch.overdue_at()
            &&& after.after(Sight::Spoke, now) == after
            &&& watch.observing ==> watch.verdict(Sight::Closed, now) is Wait
        }),
{
}

/// A child that ended is finished with, whatever time it is, and only one that did.
pub proof fn an_ended_child_is_finished_with(watch: Watch, sight: Sight, now: u64)
    ensures
        watch.verdict(sight, now) is Finished <==> sight is Exited,
{
}

/// A child is stopped for its silence exactly where that has lasted too long, for
/// running too long exactly where only that has, and waited for before either.
pub proof fn a_child_is_stopped_for_the_limit_it_passed(watch: Watch, now: u64)
    ensures
        watch.verdict(Sight::Nothing, now) is Silent <==> now as int >= (if watch.quiet_since
            + watch.idle <= u64::MAX {
            watch.quiet_since + watch.idle
        } else {
            u64::MAX as int
        }),
        watch.verdict(Sight::Nothing, now) is Overdue <==> now < watch.silent_at() && now as int
            >= (if watch.started + watch.total <= u64::MAX {
            watch.started + watch.total
        } else {
            u64::MAX as int
        }),
        watch.verdict(Sight::Nothing, now) is Wait <==> now < watch.silent_at() && now
            < watch.overdue_at(),
{
}

/// An install command went well exactly where it ended by itself with success and
/// its own process could be reclaimed; whatever went wrong is said under its label.
pub proof fn an_install_command_goes_well_only_by_its_exit(label: Seq<char>, ending: Ending)
    ensures
        install_fault(label, ending) is None <==> (ending matches Ending::Exited {
            reclaim,
            tree: _,
            status,
        } && reclaim is None && (status matches Ok(exit) && exit.success)),
        install_fault(label, ending) matches Some(said) ==> text::begins(said, label),
        ending matches Ending::Exited { reclaim: None, tree: _, status: Ok(exit) } ==> (
        !exit.success ==> install_fault(label, ending) == Some(
            label + " exited with "@ + exit.shown@,
        )),
{
    if let Some(said) = install_fault(label, ending) {
        assert(said.take(label.len() as int) =~= label);
    }
}

/// A package-manager command ran exactly where it ended by itself and its whole
/// process tree could be reclaimed; how it exited is for its caller to judge. The
/// limit it passed is told in seconds.
pub proof fn a_package_command_ran_where_it_ended(
    label: Seq<char>,
    idle: u64,
    total: u64,
    ending: Ending,
)
    ensures
        package_fault(label, idle, total, ending) is None <==> (ending matches Ending::Exited {
            reclaim,
            tree,
            status,
        } && reclaim is None && tree is None && status is Ok),
        ending is Silent ==> package_fault(label, idle, total, ending) == Some(
            "the "@ + label + " produced no output for "@ + text::decimal((idle / 1000) as nat)
                + " seconds and was stopped; check the registry connection and retry"@,
        ),
        ending is Overdue ==> package_fault(label, idle, total, ending) == Some(
            "the "@ + label + " exceeded the "@ + text::decimal((total / 1000) as nat)
                + " second safety limit and was stopped"@,
        ),
{
}

/// What a child is searched for with begins with the Node that was chosen, then has
/// the package manager, then all that the user has, in the user's order.
pub proof fn the_chosen_node_is_found_first(
    node: Option<Seq<char>>,
    manager: Option<Seq<char>>,
    existing: Seq<Seq<char>>,
)
    ensures
        ({
            let order = path_order(node, manager, existing);
            let front: int = (if node is Some {
                1int
            } else {
                0
            }) + (if manager is Some {
                1int
            } else {
                0
            });
            &&& order.len() == front + existing.len()
            &&& node matches Some(directory) ==> order[0] == directory
            &&& manager matches Some(directory) ==> order[front - 1] == directory
            &&& order.skip(front) == existing
        }),
{
    let order = path_order(node, manager, existing);
    let front: int = (if node is Some {
        1int
    } else {
        0
    }) + (if manager is Some {
        1int
    } else {
        0
    });
    assert(order.skip(front) =~= existing);
}

/// A directory is searched as it is, but for the spelling of extended length that
/// Windows puts before it: that is taken away, and a share is spelled as a share.
pub proof fn a_directory_is_searched_in_its_plain_spelling(rest: Seq<char>)
    requires
        !text::begins(rest, "UNC\\"@),
    ensures
        plain("\\\\?\\"@ + rest, true) == rest,
        plain("\\\\?\\UNC\\"@ + rest, true) == "\\\\"@ + rest,
        plain("\\\\?\\"@ + rest, false) == "\\\\?\\"@ + rest,
        !text::begins(rest, "\\\\?\\"@) ==> plain(rest, true) == rest,
        plain_entry(None, true) is None,
        plain_entry(Some(rest), false) == Some(rest),
{
    reveal_strlit("\\\\?\\");
    reveal_strlit("\\\\?\\UNC\\");
    reveal_strlit("UNC\\");
    let spelled = EXTENDED@ + rest;
    text::a_prefix_taken_away_can_be_put_back(spelled, EXTENDED@, rest);
    text::a_prefix_taken_away_can_be_put_back(spelled, EXTENDED_SHARE@, rest);
    if text::begins(spelled, EXTENDED_SHARE@) {
        assert(rest.take(4) =~= "UNC\\"@) by {
            assert forall|i: int| 0 <= i < 4 implies rest[i] == "UNC\\"@[i] by {
                assert(spelled.take(8)[i + 4] == EXTENDED_SHARE@[i + 4]);
            }
        }
    }
    if text::begins(rest, EXTENDED_SHARE@) {
        assert(rest.take(4) =~= rest.take(8).take(4));
        assert(EXTENDED_SHARE@.take(4) =~= EXTENDED@);
    }
}

/// A child sees the last value a variable was given, and none where it was given
/// none.
pub proof fn the_last_value_is_seen(
    environment: Seq<(Seq<char>, Seq<char>)>,
    name: Seq<char>,
    other: Seq<char>,
    value: Seq<char>,
)
    ensures
        value_seen(environment.push((name, value)), name) == Some(value),
        other != name ==> value_seen(environment.push((other, value)), name) == value_seen(
            environment,
            name,
        ),
        value_seen(Seq::empty(), name) is None,
{
    assert(environment.push((other, value)).drop_last() =~= environment);
}

/// What is said of an install that was ended begins with its name and says why: that
/// it was silent for two minutes, that it took twenty, or what the system said.
pub proof fn an_ended_install_is_told_by_its_reason(
    label: Seq<char>,
    cause: String,
    tree: Option<String>,
    status: Result<Exit, String>,
)
    ensures
        install_fault(label, Ending::NoPipes) == Some(
            label + " did not provide its diagnostic pipes"@,
        ),
        install_fault(label, Ending::Silent) == Some(
            label
                + " produced no output for 120 seconds and was stopped; retry on a working connection or use Full / Offline"@,
        ),
        install_fault(label, Ending::Overdue) == Some(
            label
                + " exceeded the 20 minute safety limit and was stopped; retry on a working connection or use Full / Offline"@,
        ),
        install_fault(label, (Ending::Exited { reclaim: Some(cause), tree, status })) == Some(
            label + " process tree could not be reclaimed: "@ + cause@,
        ),
        install_fault(label, (Ending::Exited { reclaim: None, tree, status: Err(cause) })) == Some(
            label + " could not be waited on: "@ + cause@,
        ),
{
}

/// What is said of a package command that could not be run to its end is its name and
/// what the system said, whichever of its processes could not be reclaimed.
pub proof fn an_ended_package_command_is_told_by_its_reason(
    label: Seq<char>,
    idle: u64,
    total: u64,
    cause: String,
    tree: Option<String>,
    status: Result<Exit, String>,
)
    ensures
        package_fault(label, idle, total, Ending::NoPipes) == Some(
            "the "@ + label + " did not provide its diagnostic pipes"@,
        ),
        package_fault(
            label,
            idle,
            total,
            (Ending::Exited { reclaim: Some(cause), tree, status }),
        ) == Some("the "@ + label + " process tree could not be reclaimed: "@ + cause@),
        package_fault(
            label,
            idle,
            total,
            (Ending::Exited { reclaim: None, tree: Some(cause), status }),
        ) == Some("the "@ + label + " process tree could not be reclaimed: "@ + cause@),
        package_fault(
            label,
            idle,
            total,
            (Ending::Exited { reclaim: None, tree: None, status: Err(cause) }),
        ) == Some("the "@ + label + " could not be waited on: "@ + cause@),
{
}

/// The limits of an install are the two minutes of silence and the twenty minutes in
/// all that are named where one is exceeded.
pub proof fn the_limits_of_an_install_are_those_it_is_told()
    ensures
        INSTALL_IDLE_TIMEOUT == 120 * 1000,
        INSTALL_TOTAL_TIMEOUT == 20 * 60 * 1000,
        INSTALL_DRAIN_TIMEOUT < INSTALL_IDLE_TIMEOUT < INSTALL_TOTAL_TIMEOUT,
{
}

/// A command line is seen as what is run, with what, where and under which variables.
pub proof fn a_command_line_is_seen_as_what_is_run(line: CommandLine, at: int)
    ensures
        line@.program == line.program@,
        line@.arguments.len() == line.arguments@.len(),
        0 <= at < line.arguments@.len() ==> line@.arguments[at] == line.arguments@[at]@,
        line@.directory == text::seen(line.directory),
        line@.environment == variables(line.environment@),
{
}

} // verus!
