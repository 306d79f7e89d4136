//! A connected session: which message goes to which process.

use crate::osc::{OscMessage, OscMessageView};
use crate::ports::{PortId, Ports};
use crate::protocol::out;
use vstd::prelude::*;
use vstd::string::*;

verus! {

/// A message and where it goes.
pub struct Outgoing {
    pub to: PortId,
    /// Whether it has to leave from the socket that the session listens on, because
    /// the reply goes to where the request came from.
    pub from_listener: bool,
    pub message: OscMessage,
}

#[verifier::ext_equal]
pub struct OutgoingView {
    pub to: PortId,
    pub from_listener: bool,
    pub message: OscMessageView,
}

impl View for Outgoing {
    type V = OutgoingView;

    open spec fn view(&self) -> OutgoingView {
        OutgoingView {
            to: self.to,
            from_listener: self.from_listener,
            message: self.message@,
        }
    }
}

pub open spec fn outgoing_views(v: Seq<Outgoing>) -> Seq<OutgoingView> {
    Seq::new(v.len(), |i: int| v[i]@)
}

/// A message to Spider.
pub open spec fn to_spider(m: OscMessageView) -> OutgoingView {
    OutgoingView { to: PortId::GuiSendToSpider, from_listener: false, message: m }
}

/// A message to the daemon.
pub open spec fn to_daemon(m: OscMessageView) -> OutgoingView {
    OutgoingView { to: PortId::Daemon, from_listener: false, message: m }
}

/// A message to the engine.
pub open spec fn to_engine(m: OscMessageView) -> OutgoingView {
    OutgoingView { to: PortId::Scsynth, from_listener: false, message: m }
}

/// The request for the audio drivers, which leaves from the listening socket.
pub open spec fn drivers_request() -> OutgoingView {
    OutgoingView {
        to: PortId::Scsynth,
        from_listener: true,
        message: out::supersonic_drivers_list_message(),
    }
}

fn spider(message: OscMessage) -> (r: Outgoing)
    ensures
        r@ == to_spider(message@),
{
    Outgoing { to: PortId::GuiSendToSpider, from_listener: false, message }
}

fn daemon(message: OscMessage) -> (r: Outgoing)
    ensures
        r@ == to_daemon(message@),
{
    Outgoing { to: PortId::Daemon, from_listener: false, message }
}

fn engine(message: OscMessage) -> (r: Outgoing)
    ensures
        r@ == to_engine(message@),
{
    Outgoing { to: PortId::Scsynth, from_listener: false, message }
}

/// A session with the processes behind `ports`.
#[derive(Debug, Clone, Copy)]
pub struct Session {
    pub ports: Ports,
}

impl Session {
    /// A session, and what it sends as soon as it is connected: the request for
    /// device lists and the request for audio drivers.
    pub fn connect(ports: &Ports) -> (r: (Session, Vec<Outgoing>))
        ensures
            r.0.ports == *ports,
            outgoing_views(r.1@) == seq![
                to_engine(out::supersonic_devices_report_message(ports.gui_listen)),
                drivers_request(),
            ],
    {
        let s: Session = Session { ports: *ports };
        let mut first: Vec<Outgoing> = Vec::new();
        first.push(engine(out::supersonic_devices_report(ports.gui_listen)));
        first.push(s.request_audio_drivers());
        assert(outgoing_views(first@) =~= seq![
            to_engine(out::supersonic_devices_report_message(ports.gui_listen)),
            drivers_request(),
        ]);
        (s, first)
    }

    /// The session's token.
    pub fn token(&self) -> (r: i32)
        ensures
            r == self.ports.token,
    {
        self.ports.token
    }

    /// The message that keeps the daemon from tearing the runtime down.
    pub fn keep_alive(&self) -> (r: Outgoing)
        ensures
            r@ == to_daemon(out::keep_alive_message(self.ports.token)),
    {
        daemon(out::keep_alive(self.ports.token))
    }

    /// Asks for the audio drivers again.
    pub fn request_audio_drivers(&self) -> (r: Outgoing)
        ensures
            r@ == drivers_request(),
    {
        Outgoing {
            to: PortId::Scsynth,
            from_listener: true,
            message: out::supersonic_drivers_list(),
        }
    }

    /// Sends a message straight to the engine.
    pub fn send_to_supersonic(&self, m: OscMessage) -> (r: Outgoing)
        ensures
            r@ == to_engine(m@),
    {
        engine(m)
    }

    /// Asks whether Spider is up yet.
    pub fn ping(&self) -> (r: Outgoing)
        ensures
            r@ == to_spider(out::ping_message(self.ports.token, "core/1/hello"@)),
    {
        spider(out::ping(self.ports.token, "core/1/hello"))
    }

    /// Swaps audio devices on the engine itself, for a runtime without a daemon.
    pub fn switch_audio_device_direct(
        &self,
        output: &str,
        sample_rate: u32,
        buffer_size: i32,
        input: &str,
    ) -> (r: Outgoing)
        ensures
            r@ == to_engine(
                out::supersonic_devices_switch_message(
                    output@,
                    sample_rate,
                    buffer_size,
                    input@,
                ),
            ),
    {
        engine(out::supersonic_devices_switch(output, sample_rate, buffer_size, input))
    }

    /// Runs a buffer.
    pub fn run(&self, name: &str, code: &str) -> (r: Outgoing)
        ensures
            r@ == to_spider(out::run_buffer_message(self.ports.token, name@, code@)),
    {
        spider(out::run_buffer(self.ports.token, name, code))
    }

    /// Stops all jobs.
    pub fn stop(&self) -> (r: Outgoing)
        ensures
            r@ == to_spider(out::stop_all_jobs_message(self.ports.token)),
    {
        spider(out::stop_all_jobs(self.ports.token))
    }

    /// Sets the master volume.
    pub fn set_mixer_amp(&self, amp: u32, silent: bool) -> (r: Outgoing)
        ensures
            r@ == to_spider(out::mixer_amp_message(self.ports.token, amp, silent)),
    {
        spider(out::mixer_amp(self.ports.token, amp, silent))
    }

    /// Asks the daemon to exit.
    pub fn shutdown(&self) -> (r: Outgoing)
        ensures
            r@ == to_daemon(out::daemon_exit_message(self.ports.token)),
    {
        daemon(out::daemon_exit(self.ports.token))
    }

    /// Switches audio devices by way of the daemon.
    pub fn switch_audio_device(
        &self,
        output: &str,
        sample_rate: u32,
        buffer_size: i32,
        input: &str,
    ) -> (r: Outgoing)
        ensures
            r@ == to_daemon(
                out::audio_switch_device_message(
                    self.ports.token,
                    output@,
                    sample_rate,
                    buffer_size,
                    input@,
                ),
            ),
    {
        daemon(out::audio_switch_device(self.ports.token, output, sample_rate, buffer_size, input))
    }

    /// Turns MIDI on or off.
    pub fn set_midi_enabled(&self, enabled: bool, silent: bool) -> (r: Outgoing)
        ensures
            r@ == to_spider(out::midi_enabled_message(self.ports.token, enabled, silent)),
    {
        spider(out::midi_enabled(self.ports.token, enabled, silent))
    }

    /// Starts or stops the server for incoming cues.
    pub fn set_cue_server_enabled(&self, enabled: bool) -> (r: Outgoing)
        ensures
            r@ == to_spider(out::cue_server_enabled_message(self.ports.token, enabled)),
    {
        spider(out::cue_server_enabled(self.ports.token, enabled))
    }

    /// Opens the cue server to other hosts, or closes it.
    pub fn set_cue_server_external(&self, external: bool) -> (r: Outgoing)
        ensures
            r@ == to_spider(out::cue_server_external_message(self.ports.token, external)),
    {
        spider(out::cue_server_external(self.ports.token, external))
    }

    /// Swaps the stereo channels, or sets them right.
    pub fn set_mixer_invert_stereo(&self, invert: bool) -> (r: Outgoing)
        ensures
            r@ == to_spider(out::mixer_invert_stereo_message(self.ports.token, invert)),
    {
        spider(out::mixer_invert_stereo(self.ports.token, invert))
    }

    /// Sets mono or stereo output.
    pub fn set_mixer_force_mono(&self, mono: bool) -> (r: Outgoing)
        ensures
            r@ == to_spider(out::mixer_force_mono_message(self.ports.token, mono)),
    {
        spider(out::mixer_force_mono(self.ports.token, mono))
    }

    /// Sets or clears the master high-pass filter.
    pub fn set_mixer_hpf(&self, freq: Option<u32>) -> (r: Outgoing)
        ensures
            r@ == to_spider(out::mixer_hpf_message(self.ports.token, freq)),
    {
        spider(out::mixer_hpf(self.ports.token, freq))
    }

    /// Sets or clears the master low-pass filter.
    pub fn set_mixer_lpf(&self, freq: Option<u32>) -> (r: Outgoing)
        ensures
            r@ == to_spider(out::mixer_lpf_message(self.ports.token, freq)),
    {
        spider(out::mixer_lpf(self.ports.token, freq))
    }

    /// Turns version checks on or off.
    pub fn set_update_checking(&self, enabled: bool) -> (r: Outgoing)
        ensures
            r@ == to_spider(out::update_checking_message(self.ports.token, enabled)),
    {
        spider(out::update_checking(self.ports.token, enabled))
    }

    /// Turns gamepads on or off.
    pub fn set_gamepad_enabled(&self, enabled: bool, silent: bool) -> (r: Outgoing)
        ensures
            r@ == to_spider(out::gamepad_enabled_message(self.ports.token, enabled, silent)),
    {
        spider(out::gamepad_enabled(self.ports.token, enabled, silent))
    }

    /// Switches the audio driver by way of the daemon.
    pub fn switch_audio_driver(&self, driver: &str) -> (r: Outgoing)
        ensures
            r@ == to_daemon(out::audio_switch_driver_message(self.ports.token, driver@)),
    {
        daemon(out::audio_switch_driver(self.ports.token, driver))
    }

    /// Switches the audio driver on the engine itself.
    pub fn switch_audio_driver_direct(&self, driver: &str) -> (r: Outgoing)
        ensures
            r@ == to_engine(out::supersonic_drivers_switch_message(driver@)),
    {
        engine(out::supersonic_drivers_switch(driver))
    }
}

} // verus!
