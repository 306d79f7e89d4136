//! The wait for another process to exit, by way of a kernel event queue.

use vstd::prelude::*;

verus! {

/// What happened while waiting.
#[derive(Debug, Clone, Copy, PartialEq, Eq, Structural)]
pub enum WatchEvent {
    /// There is no event queue to be had.
    NoQueue,
    /// The process is being watched.
    Watching,
    /// The process cannot be watched.
    NotWatched { no_such_process: bool },
    /// A signal cut the wait short.
    Interrupted,
    /// The wait failed.
    Failed,
    /// The wait ended without an event.
    Quiet,
    /// An event came.
    Event { exit_noted: bool },
}

/// What to do next, or what the wait has shown.
#[derive(Debug, Clone, Copy, PartialEq, Eq, Structural)]
pub enum WatchStep {
    /// Wait for the time that is left.
    Wait,
    /// The process has exited.
    Exited,
    /// No exit was seen in time.
    NotSeen,
    /// The process cannot be supervised; nothing is known of it.
    Unknown,
}

/// What follows from an event. A process that is gone before it can be watched has
/// exited; of one that cannot be watched for another reason nothing is known; an
/// interrupted wait goes on as long as there is time.
pub open spec fn watch_next(ev: WatchEvent, time_left: bool) -> WatchStep {
    match ev {
        WatchEvent::NoQueue => WatchStep::Unknown,
        WatchEvent::NotWatched { no_such_process } => if no_such_process {
            WatchStep::Exited
        } else {
            WatchStep::Unknown
        },
        WatchEvent::Watching | WatchEvent::Interrupted => if time_left {
            WatchStep::Wait
        } else {
            WatchStep::NotSeen
        },
        WatchEvent::Failed => WatchStep::Unknown,
        WatchEvent::Quiet => WatchStep::NotSeen,
        WatchEvent::Event { exit_noted } => if exit_noted {
            WatchStep::Exited
        } else {
            WatchStep::NotSeen
        },
    }
}

/// What to do after an event.
pub fn wait_for_process_exit(ev: WatchEvent, time_left: bool) -> (r: WatchStep)
    ensures
        r == watch_next(ev, time_left),
{
    match ev {
        WatchEvent::NoQueue => WatchStep::Unknown,
        WatchEvent::NotWatched { no_such_process } => if no_such_process {
            WatchStep::Exited
        } else {
            WatchStep::Unknown
        },
        WatchEvent::Watching => if time_left {
            WatchStep::Wait
        } else {
            WatchStep::NotSeen
        },
        WatchEvent::Interrupted => if time_left {
            WatchStep::Wait
        } else {
            WatchStep::NotSeen
        },
        WatchEvent::Failed => WatchStep::Unknown,
        WatchEvent::Quiet => WatchStep::NotSeen,
        WatchEvent::Event { exit_noted } => if exit_noted {
            WatchStep::Exited
        } else {
            WatchStep::NotSeen
        },
    }
}

/// An exit is only ever reported when the kernel said so, and that none was seen
/// only of a process that was watched; where it could not be watched, nothing is
/// said of it. The wait never goes on once its time is over.
pub proof fn law_exit_is_never_guessed(ev: WatchEvent, time_left: bool)
    ensures
        watch_next(ev, time_left) == WatchStep::Exited <==> (ev == (WatchEvent::Event {
            exit_noted: true,
        }) || ev == (WatchEvent::NotWatched { no_such_process: true })),
        watch_next(ev, time_left) == WatchStep::NotSeen ==> !(ev is NoQueue) && !(
        ev is NotWatched) && !(ev is Failed),
        watch_next(ev, time_left) == WatchStep::Unknown <==> (ev is NoQueue || ev is Failed || ev
            == (WatchEvent::NotWatched { no_such_process: false })),
        watch_next(ev, false) != WatchStep::Wait,
{
}

/// A process that is watched is waited for as long as there is time, through any
/// number of interruptions; a wait that ends without its exit has not seen it.
pub proof fn law_watched_process_is_waited_for(time_left: bool)
    ensures
        watch_next(WatchEvent::Watching, true) == WatchStep::Wait,
        watch_next(WatchEvent::Interrupted, true) == WatchStep::Wait,
        watch_next(WatchEvent::Watching, false) == WatchStep::NotSeen,
        watch_next(WatchEvent::Interrupted, false) == WatchStep::NotSeen,
        watch_next(WatchEvent::Quiet, time_left) == WatchStep::NotSeen,
        watch_next(WatchEvent::Event { exit_noted: false }, time_left) == WatchStep::NotSeen,
{
}

} // verus!
