//! What can go wrong, as one type the whole library shares.
use vstd::prelude::*;

use crate::node::Version;
use crate::text;

verus! {

/// A refused or failed operation.
#[derive(Debug)]
pub enum Error {
    /// The managed runtime could not be installed, verified or recovered.
    Install(String),
    /// The Harness did not become ready.
    Readiness(String),
    /// A plugin operation was refused or failed.
    Plugin(String),
    /// A registry could not be reached or gave an unusable answer.
    Network(String),
    /// The workspace is not safe to use.
    Workspace(String),
    /// A profile could not be started or changed.
    Profile(String),
    /// A window could not be opened.
    Window(String),
    /// A child process could not be started.
    Spawn(String),
    /// The process guard could not be set up.
    ProcessGuard(String),
    /// Another profile mutation is running.
    PluginBusy,
    /// The Harness is already starting.
    AlreadyStarting,
    /// An install is already running.
    AlreadyInstalling,
    /// The Node runtime has no working npm.
    NpmMissing,
    /// No Node runtime of the minimum version was found.
    NoNodeRuntime { minimum: Version },
    /// The managed Harness is not installed.
    HarnessNotInstalled,
}

/// An error by what it says.
pub enum Fault {
    Install(Seq<char>),
    Readiness(Seq<char>),
    Plugin(Seq<char>),
    Network(Seq<char>),
    Workspace(Seq<char>),
    Profile(Seq<char>),
    Window(Seq<char>),
    Spawn(Seq<char>),
    ProcessGuard(Seq<char>),
    PluginBusy,
    AlreadyStarting,
    AlreadyInstalling,
    NpmMissing,
    NoNodeRuntime(Version),
    HarnessNotInstalled,
}

impl View for Error {
    type V = Fault;

    open spec fn view(&self) -> Fault {
        match *self {
            Error::Install(text) => Fault::Install(text@),
            Error::Readiness(text) => Fault::Readiness(text@),
            Error::Plugin(text) => Fault::Plugin(text@),
            Error::Network(text) => Fault::Network(text@),
            Error::Workspace(text) => Fault::Workspace(text@),
            Error::Profile(text) => Fault::Profile(text@),
            Error::Window(text) => Fault::Window(text@),
            Error::Spawn(text) => Fault::Spawn(text@),
            Error::ProcessGuard(text) => Fault::ProcessGuard(text@),
            Error::PluginBusy => Fault::PluginBusy,
            Error::AlreadyStarting => Fault::AlreadyStarting,
            Error::AlreadyInstalling => Fault::AlreadyInstalling,
            Error::NpmMissing => Fault::NpmMissing,
            Error::NoNodeRuntime { minimum } => Fault::NoNodeRuntime(minimum),
            Error::HarnessNotInstalled => Fault::HarnessNotInstalled,
        }
    }
}

impl Fault {
    /// The sentence an error is shown as.
    pub open spec fn message(self) -> Seq<char> {
        match self {
            Fault::Install(text) => text,
            Fault::Readiness(text) => text,
            Fault::Plugin(text) => text,
            Fault::Network(text) => text,
            Fault::Workspace(text) => text,
            Fault::Profile(text) => text,
            Fault::Window(text) => text,
            Fault::Spawn(text) => "the process could not be started: "@ + text,
            Fault::ProcessGuard(text) => "the process guard could not be set up: "@ + text,
            Fault::PluginBusy => "another plugin operation is already running"@,
            Fault::AlreadyStarting => "the Harness is already starting"@,
            Fault::AlreadyInstalling => "an install is already running"@,
            Fault::NpmMissing => "the selected Node runtime has no working npm"@,
            Fault::NoNodeRuntime(minimum) => "no Node runtime of version "@ + minimum.shown()
                + " or newer was found"@,
            Fault::HarnessNotInstalled => "the Harness is not installed"@,
        }
    }
}

impl Error {
    /// The sentence an error is shown as.
    pub fn message(&self) -> (text: String)
        ensures
            text@ == self@.message(),
    {
        match self {
            Error::Install(text) => text.clone(),
            Error::Readiness(text) => text.clone(),
            Error::Plugin(text) => text.clone(),
            Error::Network(text) => text.clone(),
            Error::Workspace(text) => text.clone(),
            Error::Profile(text) => text.clone(),
            Error::Window(text) => text.clone(),
            Error::Spawn(text) => text::join2("the process could not be started: ", text),
            Error::ProcessGuard(text) => text::join2(
                "the process guard could not be set up: ",
                text,
            ),
            Error::PluginBusy => "another plugin operation is already running".to_owned(),
            Error::AlreadyStarting => "the Harness is already starting".to_owned(),
            Error::AlreadyInstalling => "an install is already running".to_owned(),
            Error::NpmMissing => "the selected Node runtime has no working npm".to_owned(),
            Error::NoNodeRuntime { minimum } => text::join3(
                "no Node runtime of version ",
                &minimum.text(),
                " or newer was found",
            ),
            Error::HarnessNotInstalled => "the Harness is not installed".to_owned(),
        }
    }
}

/// What came of an operation that may fail, by what the error says.
pub open spec fn outcome<T>(result: Result<T, Error>) -> Result<T, Fault> {
    match result {
        Ok(value) => Ok(value),
        Err(error) => Err(error@),
    }
}

/// An error that carries a sentence is shown as that sentence, a process that could
/// not be started with its cause, and every other error in words of its own.
pub proof fn an_error_is_shown_as_its_sentence(text: Seq<char>, fault: Fault)
    ensures
        Fault::Install(text).message() == text,
        Fault::Readiness(text).message() == text,
        Fault::Plugin(text).message() == text,
        Fault::Network(text).message() == text,
        Fault::Workspace(text).message() == text,
        Fault::Profile(text).message() == text,
        Fault::Window(text).message() == text,
        text::finishes(Fault::Spawn(text).message(), text),
        text::finishes(Fault::ProcessGuard(text).message(), text),
        fault matches Fault::NoNodeRuntime(minimum) ==> text::holds_text(
            fault.message(),
            minimum.shown(),
        ),
        Fault::PluginBusy.message() == "another plugin operation is already running"@,
        Fault::AlreadyInstalling.message() == "an install is already running"@,
{
    text::a_prefix_taken_away_can_be_put_back(text, text, "the process could not be started: "@);
    text::a_prefix_taken_away_can_be_put_back(
        text,
        text,
        "the process guard could not be set up: "@,
    );
    if let Fault::NoNodeRuntime(minimum) = fault {
        text::lemma_holds_between(
            "no Node runtime of version "@,
            minimum.shown(),
            " or newer was found"@,
        );
    }
}

/// What came of an operation is passed on as it is, and an error by what it says.
pub proof fn an_outcome_is_passed_on_as_it_is<T>(value: T, error: Error)
    ensures
        outcome(Ok::<T, Error>(value)) == Ok::<T, Fault>(value),
        outcome(Err::<T, Error>(error)) == Err::<T, Fault>(error@),
{
}

/// Every error is shown in a sentence of its own.
pub proof fn every_error_has_a_sentence(text: Seq<char>, minimum: Version)
    ensures
        Fault::Spawn(text).message() == "the process could not be started: "@ + text,
        Fault::ProcessGuard(text).message() == "the process guard could not be set up: "@ + text,
        Fault::AlreadyStarting.message() == "the Harness is already starting"@,
        Fault::NpmMissing.message() == "the selected Node runtime has no working npm"@,
        Fault::NoNodeRuntime(minimum).message() == "no Node runtime of version "@ + minimum.shown()
            + " or newer was found"@,
        Fault::HarnessNotInstalled.message() == "the Harness is not installed"@,
{
}

/// Every error is seen as what it is, with what it says.
pub proof fn an_error_is_seen_as_what_it_is(text: String, minimum: Version)
    ensures
        Error::Install(text)@ == Fault::Install(text@),
        Error::Readiness(text)@ == Fault::Readiness(text@),
        Error::Plugin(text)@ == Fault::Plugin(text@),
        Error::Network(text)@ == Fault::Network(text@),
        Error::Workspace(text)@ == Fault::Workspace(text@),
        Error::Profile(text)@ == Fault::Profile(text@),
        Error::Window(text)@ == Fault::Window(text@),
        Error::Spawn(text)@ == Fault::Spawn(text@),
        Error::ProcessGuard(text)@ == Fault::ProcessGuard(text@),
        Error::PluginBusy@ is PluginBusy,
        Error::AlreadyStarting@ is AlreadyStarting,
        Error::AlreadyInstalling@ is AlreadyInstalling,
        Error::NpmMissing@ is NpmMissing,
        (Error::NoNodeRuntime { minimum })@ == Fault::NoNodeRuntime(minimum),
        Error::HarnessNotInstalled@ is HarnessNotInstalled,
{
}

} // verus!
