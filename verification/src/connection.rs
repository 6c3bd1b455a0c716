//! Connection status values, the classification of attach errors,
//! and the bounded-retry decision of the connection loop. Attaching
//! to the game process and reading its memory are the external
//! reader's work; what stands here decides what each observation
//! means for the session.
use vstd::prelude::*;

use crate::strings::{contains_seq, contains_str};

verus! {

/// Connection status broadcast to subscribers.
#[derive(Clone, Debug)]
pub struct ConnectionStatus {
    pub connected: bool,
    pub error: Option<String>,
}

impl ConnectionStatus {
    /// The status after a successful attach.
    pub fn connected() -> (s: ConnectionStatus)
        ensures
            s.connected,
            s.error is None,
    {
        ConnectionStatus { connected: true, error: None }
    }

    /// The terminal status after the reader lost its target.
    pub fn disconnected(error: String) -> (s: ConnectionStatus)
        ensures
            !s.connected,
            s.error matches Some(e) && e@ == error@,
    {
        ConnectionStatus { connected: false, error: Some(error) }
    }

    /// The transient status while a new attach is underway.
    pub fn reconnecting() -> (s: ConnectionStatus)
        ensures
            !s.connected,
            s.error matches Some(e) && e@ == "Reconnecting..."@,
    {
        let mut msg = String::new();
        msg.append("Reconnecting...");
        proof {
            assert(msg@ =~= "Reconnecting..."@);
        }
        ConnectionStatus { connected: false, error: Some(msg) }
    }
}

/// The reader's message says the game is simply not running (or not
/// reachable), as opposed to an unexpected failure.
pub open spec fn not_running_message(e: Seq<char>) -> bool {
    ||| contains_seq(e, "Process not found"@)
    ||| contains_seq(e, "osu!.exe not found"@)
    ||| contains_seq(e, "Access denied"@)
    ||| contains_seq(e, "could not find osu process"@)
}

/// Whether an attach error means the game is not running.
pub fn is_osu_not_running_error(error: &str) -> (r: bool)
    ensures
        r == not_running_message(error@),
{
    contains_str(error, "Process not found") || contains_str(error, "osu!.exe not found")
        || contains_str(error, "Access denied") || contains_str(
        error,
        "could not find osu process",
    )
}

/// What one attach attempt reported.
#[derive(Clone, Copy, Debug, PartialEq, Eq, Structural)]
pub enum InitObservation {
    /// The process was found and its static addresses were read.
    Attached,
    /// The process was not found.
    ProcessMissing,
    /// The process was found but its memory could not be read.
    ReadFailed,
}

/// What the connection loop does next.
#[derive(Clone, Copy, Debug, PartialEq, Eq, Structural)]
pub enum InitDecision {
    /// Attached: start the monitoring loop.
    Proceed,
    /// Sleep for the poll interval and attach again.
    RetryAfterSleep,
    /// The attempt budget is spent: report a terminal disconnect.
    GiveUp,
}

/// The bounded-retry rule of connection establishment: a successful
/// attach proceeds; a failure retries after a sleep until the
/// attempt budget is spent, then gives up.
pub fn init_step(attempts: u32, max_attempts: u32, observation: InitObservation) -> (r:
    InitDecision)
    ensures
        observation is Attached <==> r is Proceed,
        !(observation is Attached) && attempts < max_attempts <==> r is RetryAfterSleep,
        !(observation is Attached) && attempts >= max_attempts <==> r is GiveUp,
{
    match observation {
        InitObservation::Attached => InitDecision::Proceed,
        _ => {
            if attempts < max_attempts {
                InitDecision::RetryAfterSleep
            } else {
                InitDecision::GiveUp
            }
        },
    }
}

} // verus!
