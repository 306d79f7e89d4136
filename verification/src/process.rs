//! A daemon as a child process: its handshake, and the wait for its end.

use crate::error::CoreError;
use crate::ports::{handshake_fault, handshake_ports, Ports};
use crate::text::{chars_of, string_of, trim, trimmed};
use vstd::prelude::*;
use vstd::string::*;

verus! {

/// How long to sleep between two looks at a child, in milliseconds.
pub const POLL_MILLIS: u64 = 50;

/// The error of a daemon that could not be spawned.
pub fn spawn_failed(why: &str) -> (r: CoreError)
    ensures
        r is Spawn && r->Spawn_0@ == "spawning daemon: "@ + why@,
{
    CoreError::Spawn(String::from_str("spawning daemon: ").concat(why))
}

/// The error of a daemon without an output to read.
pub fn no_output() -> (r: CoreError)
    ensures
        r is Spawn && r->Spawn_0@ == "daemon produced no stdout"@,
{
    CoreError::Spawn(String::from_str("daemon produced no stdout"))
}

/// The error of a handshake that could not be read.
pub fn read_failed(why: &str) -> (r: CoreError)
    ensures
        r is Spawn && r->Spawn_0@ == "reading handshake: "@ + why@,
{
    CoreError::Spawn(String::from_str("reading handshake: ").concat(why))
}

/// The ports in the line that a daemon printed.
pub fn handshake(line: &str) -> (r: Result<Ports, CoreError>)
    ensures
        match r {
            Ok(p) => handshake_fault(trim(line@)) is None && p == handshake_ports(trim(line@)),
            Err(CoreError::Handshake(t)) => handshake_fault(trim(line@)) == Some(t@),
            Err(_) => false,
        },
{
    let cs: Vec<char> = chars_of(line);
    let t: String = string_of(trimmed(cs.as_slice()));
    Ports::parse_daemon_line(t.as_str())
}

/// What to do after a look at a child that is to exit.
#[derive(Debug, Clone, Copy, PartialEq, Eq, Structural)]
pub enum WaitStep {
    Exited,
    TimedOut,
    /// Sleep, and look again.
    Sleep,
}

/// What to do after a look at a child: an exit counts even when it is late.
pub open spec fn wait_next(exited: bool, late: bool) -> WaitStep {
    if exited {
        WaitStep::Exited
    } else if late {
        WaitStep::TimedOut
    } else {
        WaitStep::Sleep
    }
}

pub fn wait_step(exited: bool, late: bool) -> (r: WaitStep)
    ensures
        r == wait_next(exited, late),
{
    if exited {
        WaitStep::Exited
    } else if late {
        WaitStep::TimedOut
    } else {
        WaitStep::Sleep
    }
}

/// A child that has exited is done, late or not; one that has not is given up only
/// once its time is over.
pub proof fn law_exit_counts_even_when_late(late: bool)
    ensures
        wait_next(true, late) == WaitStep::Exited,
        wait_next(false, true) == WaitStep::TimedOut,
        wait_next(false, false) == WaitStep::Sleep,
{
}

} // verus!
