//! The runtime behind the interface, and what is sent to it.

use crate::audio::segment::SCOPE_SHM_NAME;
use crate::osc::{ArgView, OscMessageView};
use crate::protocol::out;
use crate::session::{
    drivers_request, to_daemon, to_engine, to_spider, Outgoing, OutgoingView, Session,
};
use crate::ports::PortId;
use crate::supervisor::{segment_name, segment_name_of};
use crate::ui::files::optional_str;
use vstd::prelude::*;
use vstd::string::*;

verus! {

/// The ways to a runtime, in the order in which they are tried.
#[derive(Debug, Clone, Copy, PartialEq, Eq, Structural)]
pub enum Attempt {
    /// Boot the engine and the language server from here.
    Supervisor,
    /// Boot the daemon, which boots the rest.
    Daemon,
    /// Stand in for the runtime.
    Loopback,
}

/// The first way to try: the setting `1` asks for the daemon.
pub open spec fn first_of(force_daemon: Option<Seq<char>>) -> Attempt {
    if force_daemon == Some("1"@) {
        Attempt::Daemon
    } else {
        Attempt::Supervisor
    }
}

/// The way to try after one failed.
pub open spec fn next_of(a: Attempt) -> Attempt {
    match a {
        Attempt::Supervisor => Attempt::Daemon,
        Attempt::Daemon => Attempt::Loopback,
        Attempt::Loopback => Attempt::Loopback,
    }
}

/// The line that says how the runtime was reached; `why` is what the daemon failed
/// with.
pub open spec fn status_of(a: Attempt, why: Seq<char>) -> Seq<char> {
    match a {
        Attempt::Supervisor => "=> Booted via Rust supervisor (3 processes, no daemon.rb)."@,
        Attempt::Daemon => "=> Connected to REAL Sonic Pi daemon."@,
        Attempt::Loopback => "=> Real runtime unavailable ("@ + why
            + "); using loopback spider."@,
    }
}

impl Attempt {
    /// The first way to try, from the setting in the environment.
    pub fn first(force_daemon: Option<&str>) -> (r: Attempt)
        ensures
            r == first_of(optional_str(force_daemon)),
    {
        match force_daemon {
            Some(v) => if crate::text::same_text(v, "1") {
                Attempt::Daemon
            } else {
                Attempt::Supervisor
            },
            None => Attempt::Supervisor,
        }
    }

    /// The way to try after this one failed.
    pub fn after_failure(self) -> (r: Attempt)
        ensures
            r == next_of(self),
    {
        match self {
            Attempt::Supervisor => Attempt::Daemon,
            Attempt::Daemon => Attempt::Loopback,
            Attempt::Loopback => Attempt::Loopback,
        }
    }

    /// The line that says how the runtime was reached.
    pub fn status(self, why: &str) -> (r: String)
        ensures
            r@ == status_of(self, why@),
    {
        match self {
            Attempt::Supervisor => String::from_str(
                "=> Booted via Rust supervisor (3 processes, no daemon.rb).",
            ),
            Attempt::Daemon => String::from_str("=> Connected to REAL Sonic Pi daemon."),
            Attempt::Loopback => {
                let mut t: String = String::from_str("=> Real runtime unavailable (");
                t.append(why);
                t.append("); using loopback spider.");
                t
            },
        }
    }
}

/// Whatever fails, the stand-in is reached after two failures at most.
pub proof fn law_connecting_ends_at_the_stand_in(force_daemon: Option<Seq<char>>)
    ensures
        next_of(next_of(first_of(force_daemon))) == Attempt::Loopback,
{
}

/// Who keeps the processes of the runtime.
#[derive(Debug, Clone, Copy, PartialEq, Eq, Structural)]
pub enum Runtime {
    DaemonRb,
    Rust,
}

/// The runtime behind the interface.
#[derive(Debug, Clone, Copy)]
pub enum Backend {
    Real { session: Session, runtime: Runtime },
    Loopback { token: i32 },
}

/// A message for the runtime, if there is one.
pub open spec fn if_real(b: Backend, m: spec_fn(Session, Runtime) -> OutgoingView) -> Option<
    OutgoingView,
> {
    match b {
        Backend::Real { session, runtime } => Some(m(session, runtime)),
        Backend::Loopback { .. } => None,
    }
}

/// What an optional message says.
pub open spec fn sent(o: Option<Outgoing>) -> Option<OutgoingView> {
    match o {
        Some(m) => Some(m@),
        None => None,
    }
}

/// The token of a backend.
pub open spec fn token_of(b: Backend) -> i32 {
    match b {
        Backend::Real { session, .. } => session.ports.token,
        Backend::Loopback { token } => token,
    }
}

/// An empty text for a side that is to stay as it is.
pub open spec fn or_empty(o: Option<Seq<char>>) -> Seq<char> {
    match o {
        Some(t) => t,
        None => ""@,
    }
}

fn text_or_empty<'a>(o: Option<&'a str>) -> (r: &'a str)
    ensures
        r@ == or_empty(optional_str(o)),
{
    match o {
        Some(t) => t,
        None => "",
    }
}

impl Backend {
    /// Runs a buffer.
    pub fn run(&self, name: &str, code: &str) -> (r: Outgoing)
        ensures
            r@ == to_spider(out::run_buffer_message(token_of(*self), name@, code@)),
    {
        match self {
            Backend::Real { session, .. } => session.run(name, code),
            Backend::Loopback { token } => Outgoing {
                to: PortId::GuiSendToSpider,
                from_listener: false,
                message: out::run_buffer(*token, name, code),
            },
        }
    }

    /// Stops all runs.
    pub fn stop(&self) -> (r: Outgoing)
        ensures
            r@ == to_spider(out::stop_all_jobs_message(token_of(*self))),
    {
        match self {
            Backend::Real { session, .. } => session.stop(),
            Backend::Loopback { token } => Outgoing {
                to: PortId::GuiSendToSpider,
                from_listener: false,
                message: out::stop_all_jobs(*token),
            },
        }
    }

    /// Switches audio devices: by way of the daemon where there is one, else on the
    /// engine itself. `None` leaves a side as it is.
    pub fn switch_audio(&self, output: Option<&str>, input: Option<&str>) -> (r: Option<Outgoing>)
        ensures
            sent(r) == if_real(
                *self,
                |s: Session, k: Runtime|
                    {
                        let o = or_empty(optional_str(output));
                        let i = or_empty(optional_str(input));
                        match k {
                            Runtime::DaemonRb => to_daemon(
                                out::audio_switch_device_message(s.ports.token, o, 0, 0, i),
                            ),
                            Runtime::Rust => to_engine(
                                out::supersonic_devices_switch_message(o, 0, 0, i),
                            ),
                        }
                    },
            ),
    {
        let o: &str = text_or_empty(output);
        let i: &str = text_or_empty(input);
        match self {
            Backend::Real { session, runtime } => match runtime {
                Runtime::DaemonRb => Some(session.switch_audio_device(o, 0, 0, i)),
                Runtime::Rust => Some(session.switch_audio_device_direct(o, 0, 0, i)),
            },
            Backend::Loopback { .. } => None,
        }
    }

    /// Sets the master volume, a float by its bits.
    pub fn set_volume(&self, amp: u32) -> (r: Option<Outgoing>)
        ensures
            sent(r) == if_real(
                *self,
                |s: Session, k: Runtime|
                    to_spider(out::mixer_amp_message(s.ports.token, amp, false)),
            ),
    {
        match self {
            Backend::Real { session, .. } => Some(session.set_mixer_amp(amp, false)),
            Backend::Loopback { .. } => None,
        }
    }

    /// Turns MIDI on or off.
    pub fn set_midi(&self, on: bool) -> (r: Option<Outgoing>)
        ensures
            sent(r) == if_real(
                *self,
                |s: Session, k: Runtime|
                    to_spider(out::midi_enabled_message(s.ports.token, on, true)),
            ),
    {
        match self {
            Backend::Real { session, .. } => Some(session.set_midi_enabled(on, true)),
            Backend::Loopback { .. } => None,
        }
    }

    /// Starts or stops the cue server.
    pub fn set_cue_server(&self, on: bool) -> (r: Option<Outgoing>)
        ensures
            sent(r) == if_real(
                *self,
                |s: Session, k: Runtime|
                    to_spider(out::cue_server_enabled_message(s.ports.token, on)),
            ),
    {
        match self {
            Backend::Real { session, .. } => Some(session.set_cue_server_enabled(on)),
            Backend::Loopback { .. } => None,
        }
    }

    /// Opens the cue server to other hosts, or closes it.
    pub fn set_cue_external(&self, on: bool) -> (r: Option<Outgoing>)
        ensures
            sent(r) == if_real(
                *self,
                |s: Session, k: Runtime|
                    to_spider(out::cue_server_external_message(s.ports.token, on)),
            ),
    {
        match self {
            Backend::Real { session, .. } => Some(session.set_cue_server_external(on)),
            Backend::Loopback { .. } => None,
        }
    }

    /// Swaps the stereo channels, or sets them right.
    pub fn set_invert_stereo(&self, on: bool) -> (r: Option<Outgoing>)
        ensures
            sent(r) == if_real(
                *self,
                |s: Session, k: Runtime|
                    to_spider(out::mixer_invert_stereo_message(s.ports.token, on)),
            ),
    {
        match self {
            Backend::Real { session, .. } => Some(session.set_mixer_invert_stereo(on)),
            Backend::Loopback { .. } => None,
        }
    }

    /// Sets mono or stereo output.
    pub fn set_force_mono(&self, on: bool) -> (r: Option<Outgoing>)
        ensures
            sent(r) == if_real(
                *self,
                |s: Session, k: Runtime|
                    to_spider(out::mixer_force_mono_message(s.ports.token, on)),
            ),
    {
        match self {
            Backend::Real { session, .. } => Some(session.set_mixer_force_mono(on)),
            Backend::Loopback { .. } => None,
        }
    }

    /// Switches the audio driver: by way of the daemon where there is one, else on
    /// the engine itself.
    pub fn switch_driver(&self, driver: &str) -> (r: Option<Outgoing>)
        ensures
            sent(r) == if_real(
                *self,
                |s: Session, k: Runtime|
                    match k {
                        Runtime::DaemonRb => to_daemon(
                            out::audio_switch_driver_message(s.ports.token, driver@),
                        ),
                        Runtime::Rust => to_engine(out::supersonic_drivers_switch_message(driver@)),
                    },
            ),
    {
        match self {
            Backend::Real { session, runtime } => match runtime {
                Runtime::DaemonRb => Some(session.switch_audio_driver(driver)),
                Runtime::Rust => Some(session.switch_audio_driver_direct(driver)),
            },
            Backend::Loopback { .. } => None,
        }
    }

    /// Asks for the audio drivers.
    pub fn request_drivers(&self) -> (r: Option<Outgoing>)
        ensures
            sent(r) == if_real(*self, |s: Session, k: Runtime| drivers_request()),
    {
        match self {
            Backend::Real { session, .. } => Some(session.request_audio_drivers()),
            Backend::Loopback { .. } => None,
        }
    }

    /// Sets the tempo, a float by its bits.
    pub fn set_bpm(&self, bpm: u32) -> (r: Option<Outgoing>)
        ensures
            sent(r) == if_real(
                *self,
                |s: Session, k: Runtime| to_engine(out::clock_tempo_set_message(bpm)),
            ),
    {
        match self {
            Backend::Real { session, .. } => Some(
                session.send_to_supersonic(out::clock_tempo_set(bpm)),
            ),
            Backend::Loopback { .. } => None,
        }
    }

    /// Starts a recording to `path`.
    pub fn record_start(&self, path: &str) -> (r: Option<Outgoing>)
        ensures
            sent(r) == if_real(
                *self,
                |s: Session, k: Runtime| to_engine(out::record_start_message(path@, "wav"@, 24)),
            ),
    {
        match self {
            Backend::Real { session, .. } => Some(
                session.send_to_supersonic(out::record_start(path, "wav", 24)),
            ),
            Backend::Loopback { .. } => None,
        }
    }

    /// Stops the recording.
    pub fn record_stop(&self) -> (r: Option<Outgoing>)
        ensures
            sent(r) == if_real(
                *self,
                |s: Session, k: Runtime| to_engine(out::record_stop_message()),
            ),
    {
        match self {
            Backend::Real { session, .. } => Some(session.send_to_supersonic(out::record_stop())),
            Backend::Loopback { .. } => None,
        }
    }

    /// The segment in which the engine publishes its scope.
    pub fn scope_shm_name(&self) -> (r: String)
        ensures
            r@ == scope_segment(*self),
    {
        match self {
            Backend::Real { session, .. } => segment_name(session.ports.scsynth),
            Backend::Loopback { .. } => String::from_str(SCOPE_SHM_NAME),
        }
    }

    /// The request to exit for a runtime that a daemon keeps; the others are shut
    /// down without a message.
    pub fn shutdown(&self) -> (r: Option<Outgoing>)
        ensures
            sent(r) == exit_request(*self),
    {
        match self {
            Backend::Real { session, runtime } => match runtime {
                Runtime::DaemonRb => Some(session.shutdown()),
                Runtime::Rust => None,
            },
            Backend::Loopback { .. } => None,
        }
    }
}

/// The segment in which the engine publishes its scope.
pub open spec fn scope_segment(b: Backend) -> Seq<char> {
    match b {
        Backend::Real { session, .. } => segment_name_of(session.ports.scsynth),
        Backend::Loopback { .. } => SCOPE_SHM_NAME@,
    }
}

/// The request to exit, for a runtime that a daemon keeps.
pub open spec fn exit_request(b: Backend) -> Option<OutgoingView> {
    match b {
        Backend::Real { session, runtime: Runtime::DaemonRb } => Some(
            to_daemon(out::daemon_exit_message(session.ports.token)),
        ),
        _ => None,
    }
}

/// Without a runtime nothing but runs and stops is ever sent.
pub proof fn law_loopback_stays_quiet(token: i32, m: spec_fn(Session, Runtime) -> OutgoingView)
    ensures
        if_real(Backend::Loopback { token }, m) is None,
        exit_request(Backend::Loopback { token }) is None,
{
}

/// The ways to a runtime are tried in one order, the daemon's first where it is asked
/// for.
pub proof fn law_ways_are_tried_in_order(asked: Seq<char>)
    ensures
        first_of(None) == Attempt::Supervisor,
        first_of(Some("1"@)) == Attempt::Daemon,
        asked != "1"@ ==> first_of(Some(asked)) == Attempt::Supervisor,
        next_of(Attempt::Supervisor) == Attempt::Daemon,
        next_of(Attempt::Daemon) == Attempt::Loopback,
        next_of(Attempt::Loopback) == Attempt::Loopback,
{
}

/// The status says which way was taken; that of the stand-in says why.
pub proof fn law_status_says_which_way(why: Seq<char>)
    ensures
        status_of(Attempt::Supervisor, why)
            == "=> Booted via Rust supervisor (3 processes, no daemon.rb)."@,
        status_of(Attempt::Daemon, why) == "=> Connected to REAL Sonic Pi daemon."@,
        status_of(Attempt::Loopback, why) == "=> Real runtime unavailable ("@ + why
            + "); using loopback spider."@,
{
}

/// A daemon is asked to exit, with the token; a runtime that is kept from here is
/// not.
pub proof fn law_only_a_daemon_is_asked_to_exit(session: Session)
    ensures
        exit_request(Backend::Real { session, runtime: Runtime::DaemonRb }) == Some(
            OutgoingView {
                to: PortId::Daemon,
                from_listener: false,
                message: OscMessageView {
                    addr: "/daemon/exit"@,
                    args: seq![ArgView::Int(session.ports.token)],
                },
            },
        ),
        exit_request(Backend::Real { session, runtime: Runtime::Rust }) is None,
{
}

} // verus!
