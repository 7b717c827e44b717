//! What follows from the harness's status outside the harness itself, and which
//! cookies are swept between its processes.
use vstd::prelude::*;

use crate::error::Error;
use crate::shell;
use crate::supervisor::{Phase, Status, Stream};
use crate::text;

verus! {

/// Channel the frontend listens on for supervisor status and log events.
pub const EVENT_CHANNEL: &'static str = "harness://event";

/// Channel the remote panel listens on for connection counts.
pub const REMOTE_CHANNEL: &'static str = "remote://changed";

/// What is done about remote access.
#[derive(Debug)]
pub enum RemoteStep {
    /// Nothing.
    Keep,
    /// Stop exposing the harness, but remember who was paired.
    Suspend,
    /// Expose the harness that is served there again.
    Resume(String),
}

/// What is done about remote access when the harness has this status.
///
/// The network socket is not exposed while the harness is down. An explicit close
/// is no suspension, so it is not resumed.
pub fn remote_step(status: &Status, suspended: bool) -> (step: RemoteStep)
    ensures
        match status@ {
            Phase::Ready(origin, _) => if suspended {
                step matches RemoteStep::Resume(there) && there@ == origin
            } else {
                step is Keep
            },
            _ => step is Suspend,
        },
{
    match status {
        Status::Ready { origin, pid: _ } => if suspended {
            RemoteStep::Resume(origin.clone())
        } else {
            RemoteStep::Keep
        },
        _ => RemoteStep::Suspend,
    }
}

/// What is logged once remote access was resumed, or could not be.
pub fn resume_notice(outcome: &Result<(), Error>) -> (line: (Stream, String))
    ensures
        match *outcome {
            Ok(_) => line.0 == Stream::Stdout && line.1@
                == "remote access resumed after Harness restart"@,
            Err(cause) => line.0 == Stream::Stderr && line.1@
                == "remote access is waiting to resume: "@ + cause@.message(),
        },
{
    match outcome {
        Ok(_) => (Stream::Stdout, "remote access resumed after Harness restart".to_owned()),
        Err(cause) => (
            Stream::Stderr,
            text::join2("remote access is waiting to resume: ", &cause.message()),
        ),
    }
}

/// Whether a cookie of that domain is swept before a harness process is started.
/// The harness mints a fresh one on every boot and never retires the last.
pub fn is_loopback(domain: &Option<String>) -> (answer: bool)
    ensures
        answer == (text::seen(*domain) == Some(shell::ADDRESS@) || text::seen(*domain) == Some(
            "localhost"@,
        )),
{
    match domain {
        Some(name) => text::same(name, shell::ADDRESS) || text::same(name, "localhost"),
        None => false,
    }
}

} // verus!
