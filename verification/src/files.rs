//! Decisions about files and directories from what was seen of them, never
//! following a link.
use vstd::prelude::*;

use crate::error::{Error, Fault};
use crate::paths::Location;
use crate::text;

verus! {

/// What lies at a path, without following a link.
#[derive(Clone, Copy, Debug, PartialEq, Eq, Structural)]
pub enum Kind {
    Directory,
    File,
    Link,
    Other,
}

/// What looking at a path showed.
#[derive(Debug)]
pub enum Look {
    /// Nothing is there; the system's message.
    Missing(String),
    /// The path could not be looked at; the system's message.
    Unreadable(String),
    /// Something is there.
    Found(Kind),
}

/// Whether a directory is to be removed with everything in it, from what lies
/// at its path.
pub open spec fn removable(shown: Seq<char>, look: Look) -> Result<bool, Fault> {
    match look {
        Look::Missing(_) => Ok(false),
        Look::Unreadable(cause) => Err(
            Fault::Install("could not inspect "@ + shown + ": "@ + cause@),
        ),
        Look::Found(kind) => if kind is Directory {
            Ok(true)
        } else {
            Err(
                Fault::Install(
                    "refusing to recursively remove non-directory or linked path "@ + shown,
                ),
            )
        },
    }
}

/// Whether a directory is to be removed with everything in it. A path that is
/// not there needs nothing; one that is no directory, or a link to one, is
/// refused and stays untouched.
pub fn remove_dir_if_exists(shown: &str, look: &Look) -> (decision: Result<bool, Error>)
    ensures
        match (decision, removable(shown@, *look)) {
            (Ok(remove), Ok(wanted)) => remove == wanted,
            (Err(error), Err(wanted)) => error@ == wanted,
            _ => false,
        },
{
    match look {
        Look::Missing(_) => Ok(false),
        Look::Unreadable(cause) => Err(
            Error::Install(text::join4("could not inspect ", shown, ": ", cause)),
        ),
        Look::Found(kind) => match kind {
            Kind::Directory => Ok(true),
            _ => Err(
                Error::Install(
                    text::join2(
                        "refusing to recursively remove non-directory or linked path ",
                        shown,
                    ),
                ),
            ),
        },
    }
}

/// What is said of a directory that could not be removed.
pub fn removal_failure(shown: &str, cause: &str) -> (error: Error)
    ensures
        error@ == Fault::Install("could not remove "@ + shown@ + ": "@ + cause@),
{
    Error::Install(text::join4("could not remove ", shown, ": ", cause))
}

/// The Studio integration below a runtime root.
pub fn integration_place(root: &Location) -> (place: Location)
    ensures
        place@ == root@.below("node_modules/@moresyl/dsh-studio-integration"@),
{
    root.below("node_modules/@moresyl/dsh-studio-integration")
}

/// The resolver below a runtime root.
pub fn resolver_place(root: &Location) -> (place: Location)
    ensures
        place@ == root@.below("node_modules/@moresyl/dsh-studio-integration"@).below(
            "lib/runtime-resolver.cjs"@,
        ),
{
    integration_place(root).below("lib/runtime-resolver.cjs")
}

/// What was seen of the Studio integration in a runtime.
#[derive(Debug)]
pub struct IntegrationLooks {
    /// The integration's directory, as it is shown.
    pub directory: String,
    pub directory_look: Look,
    /// The directory of its code, as it is shown.
    pub library: String,
    pub library_look: Look,
    /// The integration's entry.
    pub entry_look: Look,
    /// The resolver, as it is shown.
    pub resolver: String,
    pub resolver_look: Look,
    /// Whether the resolver is, byte for byte, the one this build carries.
    pub resolver_current: bool,
}

/// What is wrong with a directory of the integration, if anything.
pub open spec fn directory_fault(shown: Seq<char>, look: Look) -> Option<Seq<char>> {
    match look {
        Look::Found(Kind::Directory) => None,
        Look::Found(_) => Some(
            "the managed Studio integration has an unsafe directory at "@ + shown
                + "; use Repair in Environment"@,
        ),
        Look::Missing(cause) => Some(
            "the managed Studio integration is incomplete at "@ + shown + ": "@ + cause@
                + "; use Repair in Environment"@,
        ),
        Look::Unreadable(cause) => Some(
            "the managed Studio integration is incomplete at "@ + shown + ": "@ + cause@
                + "; use Repair in Environment"@,
        ),
    }
}

/// Whether the resolver has to be written, or what is wrong with the integration
/// it belongs to.
pub open spec fn resolver_due(looks: IntegrationLooks) -> Result<bool, Seq<char>> {
    match directory_fault(looks.directory@, looks.directory_look) {
        Some(message) => Err(message),
        None => match directory_fault(looks.library@, looks.library_look) {
            Some(message) => Err(message),
            None => match looks.entry_look {
                Look::Found(Kind::File) => match looks.resolver_look {
                    Look::Found(Kind::File) => Ok(!looks.resolver_current),
                    Look::Found(_) => Err(
                        "the managed runtime resolver has an unsafe file at "@ + looks.resolver@,
                    ),
                    _ => Ok(true),
                },
                Look::Found(_) => Err(
                    "the managed Studio integration entry is unsafe; use Repair in Environment"@,
                ),
                _ => Err(
                    "the managed Studio integration is missing; use Repair in Environment"@,
                ),
            },
        },
    }
}

/// What is wrong with a directory of the integration, if anything.
fn directory_failure(shown: &str, look: &Look) -> (message: Option<String>)
    ensures
        text::seen(message) == directory_fault(shown@, *look),
{
    match look {
        Look::Found(Kind::Directory) => None,
        Look::Found(_) => Some(
            text::join3(
                "the managed Studio integration has an unsafe directory at ",
                shown,
                "; use Repair in Environment",
            ),
        ),
        Look::Missing(cause) => Some(
            text::join5(
                "the managed Studio integration is incomplete at ",
                shown,
                ": ",
                cause,
                "; use Repair in Environment",
            ),
        ),
        Look::Unreadable(cause) => Some(
            text::join5(
                "the managed Studio integration is incomplete at ",
                shown,
                ": ",
                cause,
                "; use Repair in Environment",
            ),
        ),
    }
}

/// Materialize launch support added by a Studio upgrade into an otherwise
/// compatible managed runtime: whether the resolver has to be written. The
/// integration is Studio-owned, so this does not mutate the upstream Harness or
/// any user profile.
pub fn ensure_runtime_resolver(looks: &IntegrationLooks) -> (due: Result<bool, Error>)
    ensures
        match (due, resolver_due(*looks)) {
            (Ok(write), Ok(wanted)) => write == wanted,
            (Err(error), Err(wanted)) => error@ == Fault::Install(wanted),
            _ => false,
        },
{
    if let Some(message) = directory_failure(&looks.directory, &looks.directory_look) {
        return Err(Error::Install(message));
    }
    if let Some(message) = directory_failure(&looks.library, &looks.library_look) {
        return Err(Error::Install(message));
    }
    match &looks.entry_look {
        Look::Found(Kind::File) => {},
        Look::Found(_) => {
            return Err(
                Error::Install(
                    "the managed Studio integration entry is unsafe; use Repair in Environment".to_owned(),
                ),
            );
        },
        _ => {
            return Err(
                Error::Install(
                    "the managed Studio integration is missing; use Repair in Environment".to_owned(),
                ),
            );
        },
    }
    match &looks.resolver_look {
        Look::Found(Kind::File) => Ok(!looks.resolver_current),
        Look::Found(_) => Err(
            Error::Install(
                text::join2(
                    "the managed runtime resolver has an unsafe file at ",
                    &looks.resolver,
                ),
            ),
        ),
        _ => Ok(true),
    }
}

/// What is said of a resolver that could not be written.
pub fn resolver_failure(shown: &str, cause: &str) -> (error: Error)
    ensures
        error@ == Fault::Install(
            "the managed runtime resolver could not be updated at "@ + shown@ + ": "@ + cause@,
        ),
{
    Error::Install(
        text::join4("the managed runtime resolver could not be updated at ", shown, ": ", cause),
    )
}

/// Nothing of the integration is written where any part of it is a link or not
/// what it should be.
pub proof fn an_unsafe_integration_is_never_written_to(looks: IntegrationLooks)
    requires
        resolver_due(looks) == Ok::<bool, Seq<char>>(true),
    ensures
        looks.directory_look == Look::Found(Kind::Directory),
        looks.library_look == Look::Found(Kind::Directory),
        looks.entry_look == Look::Found(Kind::File),
        looks.resolver_look matches Look::Found(kind) ==> kind is File && !looks.resolver_current,
{
}

/// A directory is removed only where a real one lies there; nothing is done where
/// nothing lies there, and everything else is refused with its place.
pub proof fn only_a_directory_is_removed(shown: Seq<char>, look: Look)
    ensures
        removable(shown, look) == Ok::<bool, Fault>(true) <==> look == Look::Found(
            Kind::Directory,
        ),
        removable(shown, look) == Ok::<bool, Fault>(false) <==> look is Missing,
        removable(shown, look) matches Err(fault) ==> (fault matches Fault::Install(said)
            && text::holds_text(said, shown)),
        look == Look::Found(Kind::Link) ==> removable(shown, look) is Err,
{
    if let Err(Fault::Install(said)) = removable(shown, look) {
        match look {
            Look::Unreadable(cause) => {
                text::lemma_holds_between("could not inspect "@, shown, ": "@ + cause@);
                assert("could not inspect "@ + shown + (": "@ + cause@) =~= said);
            },
            _ => {
                let none = Seq::<char>::empty();
                text::lemma_holds_between(
                    "refusing to recursively remove non-directory or linked path "@,
                    shown,
                    none,
                );
                assert("refusing to recursively remove non-directory or linked path "@ + shown
                    + none =~= said);
            },
        }
    }
}

/// The resolver is written exactly where the integration is whole and safe and the
/// resolver is missing, cannot be read or is another build's; it is left alone where
/// it is this build's, and whatever is not what it should be is refused.
pub proof fn a_resolver_is_written_where_it_is_due(looks: IntegrationLooks)
    ensures
        ({
            let whole = looks.directory_look == Look::Found(Kind::Directory) && looks.library_look
                == Look::Found(Kind::Directory) && looks.entry_look == Look::Found(Kind::File);
            &&& !whole ==> resolver_due(looks) is Err
            &&& whole && looks.resolver_look == Look::Found(Kind::File) ==> resolver_due(looks)
                == Ok::<bool, Seq<char>>(!looks.resolver_current)
            &&& whole && !(looks.resolver_look is Found) ==> resolver_due(looks) == Ok::<
                bool,
                Seq<char>,
            >(true)
            &&& whole && looks.resolver_look is Found && looks.resolver_look != Look::Found(
                Kind::File,
            ) ==> resolver_due(looks) is Err
        }),
{
}

/// A directory of the integration is in order exactly where it is a real directory.
pub proof fn only_a_real_directory_is_in_order(shown: Seq<char>, look: Look)
    ensures
        directory_fault(shown, look) is None <==> look == Look::Found(Kind::Directory),
        directory_fault(shown, look) matches Some(said) ==> text::holds_text(said, shown),
{
    if let Some(said) = directory_fault(shown, look) {
        let end = "; use Repair in Environment"@;
        match look {
            Look::Found(_) => {
                text::lemma_holds_between(
                    "the managed Studio integration has an unsafe directory at "@,
                    shown,
                    end,
                );
            },
            Look::Missing(cause) => {
                let start = "the managed Studio integration is incomplete at "@;
                text::lemma_holds_between(start, shown, ": "@ + cause@ + end);
                assert(start + shown + (": "@ + cause@ + end) =~= said);
            },
            Look::Unreadable(cause) => {
                let start = "the managed Studio integration is incomplete at "@;
                text::lemma_holds_between(start, shown, ": "@ + cause@ + end);
                assert(start + shown + (": "@ + cause@ + end) =~= said);
            },
        }
    }
}

/// What is refused of a directory is said with its place, and with what the system
/// said where it said anything.
pub proof fn a_refused_directory_is_named(shown: Seq<char>, cause: String, kind: Kind)
    requires
        kind != Kind::Directory,
    ensures
        removable(shown, Look::Unreadable(cause)) == Err::<bool, Fault>(
            Fault::Install("could not inspect "@ + shown + ": "@ + cause@),
        ),
        removable(shown, Look::Found(kind)) == Err::<bool, Fault>(
            Fault::Install(
                "refusing to recursively remove non-directory or linked path "@ + shown,
            ),
        ),
        directory_fault(shown, Look::Found(kind)) == Some(
            "the managed Studio integration has an unsafe directory at "@ + shown
                + "; use Repair in Environment"@,
        ),
        directory_fault(shown, Look::Missing(cause)) == Some(
            "the managed Studio integration is incomplete at "@ + shown + ": "@ + cause@
                + "; use Repair in Environment"@,
        ),
        directory_fault(shown, Look::Unreadable(cause)) == directory_fault(
            shown,
            Look::Missing(cause),
        ),
{
}

/// What is wrong with the integration's files is said in the order in which they are
/// looked at: its two directories, its entry and its resolver.
pub proof fn a_faulty_integration_is_told_in_order(looks: IntegrationLooks)
    ensures
        ({
            let first = directory_fault(looks.directory@, looks.directory_look);
            let second = directory_fault(looks.library@, looks.library_look);
            let sound = first is None && second is None;
            &&& first matches Some(said) ==> resolver_due(looks) == Err::<bool, Seq<char>>(said)
            &&& first is None && second is Some ==> resolver_due(looks) == Err::<bool, Seq<char>>(
                second->0,
            )
            &&& sound && !(looks.entry_look is Found) ==> resolver_due(looks) == Err::<
                bool,
                Seq<char>,
            >("the managed Studio integration is missing; use Repair in Environment"@)
            &&& sound && looks.entry_look is Found && looks.entry_look != Look::Found(Kind::File)
                ==> resolver_due(looks) == Err::<bool, Seq<char>>(
                "the managed Studio integration entry is unsafe; use Repair in Environment"@,
            )
            &&& sound && looks.entry_look == Look::Found(Kind::File) && looks.resolver_look is Found
                && looks.resolver_look != Look::Found(Kind::File) ==> resolver_due(looks) == Err::<
                bool,
                Seq<char>,
            >("the managed runtime resolver has an unsafe file at "@ + looks.resolver@)
        }),
{
}

} // verus!
