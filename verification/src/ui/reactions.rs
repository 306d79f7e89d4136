//! What events, ticks and settings lead to: the rows, marks and messages that come of
//! them, and the part of the state that each is about.

use crate::client::{
    AudioDevicesView, AudioDriversView, AudioInputDevicesView, CueView, EventView, MessageType,
    MessageView, StatusType, StatusView,
};
use crate::log::{rows_of, RowView};
use crate::number::decimal;
use crate::osc::{ArgView, OscMessageView};
use crate::ports::PortId;
use crate::protocol::requests::{law_switches_have_two_addresses, says};
use crate::session::{drivers_request, OutgoingView, Session};
use crate::ui::backend::{Backend, Runtime};
use crate::ui::cues::cue_text;
use crate::ui::events::{
    after_attach, after_event, after_remember, after_tick, after_ticks, device_request,
    driver_request, event_effects, faded, maybe_send, next_index, prev_index, sends, tick_effects,
};
use crate::ui::files::{law_newest_comes_first, BUFFER_COUNT};
use crate::ui::scope::{Scope, ScopeSource};
use crate::ui::settings::{
    is_on, key_of, label_of, live_message, runtime_messages, settings_of, with, Setting,
    SettingsView,
};
use crate::ui::state::{AppView, EffectView};
use vstd::prelude::*;

verus! {

/// Whether a preference is stored as on, or not stored and on by itself.
pub open spec fn kept_on(prefs: Map<Seq<char>, Seq<char>>, key: Seq<char>, by_itself: bool) -> bool {
    if prefs.dom().contains(key) {
        prefs[key] == "true"@
    } else {
        by_itself
    }
}

/// Each setting is read from the preference of its name. Where nothing is stored,
/// checks, MIDI and the cue server are on and everything else is off, the channel is
/// every channel, and the language is that of the environment.
pub proof fn law_settings_are_read_by_name(prefs: Map<Seq<char>, Seq<char>>, detected: Seq<char>)
    ensures
        ({
            let v = settings_of(prefs, detected);
            &&& v.safe_mode == kept_on(prefs, "safe_mode"@, true)
            &&& v.timing_guarantees == kept_on(prefs, "timing_guarantees"@, false)
            &&& v.external_synths == kept_on(prefs, "external_synths"@, false)
            &&& v.midi_enabled == kept_on(prefs, "midi_enabled"@, true)
            &&& v.cue_server == kept_on(prefs, "cue_server"@, true)
            &&& v.cue_external == kept_on(prefs, "cue_external"@, false)
            &&& v.invert_stereo == kept_on(prefs, "invert_stereo"@, false)
            &&& v.force_mono == kept_on(prefs, "force_mono"@, false)
            &&& v.midi_channel == if prefs.dom().contains("midi_channel"@) {
                prefs["midi_channel"@]
            } else {
                "*"@
            }
            &&& v.lang == if prefs.dom().contains("lang"@) {
                prefs["lang"@]
            } else {
                detected
            }
        }),
{
}

/// A setting that is turned is that setting, and no other one turns with it.
pub proof fn law_each_setting_turns_alone(v: SettingsView, on: bool)
    ensures
        with(v, Setting::SafeMode, on) == (SettingsView { safe_mode: on, ..v }),
        with(v, Setting::TimingGuarantees, on) == (SettingsView { timing_guarantees: on, ..v }),
        with(v, Setting::ExternalSynths, on) == (SettingsView { external_synths: on, ..v }),
        with(v, Setting::MidiEnabled, on) == (SettingsView { midi_enabled: on, ..v }),
        with(v, Setting::CueServer, on) == (SettingsView { cue_server: on, ..v }),
        with(v, Setting::CueExternal, on) == (SettingsView { cue_external: on, ..v }),
        with(v, Setting::InvertStereo, on) == (SettingsView { invert_stereo: on, ..v }),
        with(v, Setting::ForceMono, on) == (SettingsView { force_mono: on, ..v }),
        is_on(v, Setting::SafeMode) == v.safe_mode,
        is_on(v, Setting::TimingGuarantees) == v.timing_guarantees,
        is_on(v, Setting::ExternalSynths) == v.external_synths,
        is_on(v, Setting::MidiEnabled) == v.midi_enabled,
        is_on(v, Setting::CueServer) == v.cue_server,
        is_on(v, Setting::CueExternal) == v.cue_external,
        is_on(v, Setting::InvertStereo) == v.invert_stereo,
        is_on(v, Setting::ForceMono) == v.force_mono,
{
}

/// A setting that is turned reads as it was turned, and every other one as before.
pub proof fn law_turned_settings_read_back(v: SettingsView, s: Setting, t: Setting, on: bool)
    ensures
        is_on(with(v, s, on), t) == if s == t {
            on
        } else {
            is_on(v, t)
        },
{
}

/// No two settings share a preference or a label.
pub proof fn law_settings_have_their_own_names(s: Setting, t: Setting)
    requires
        s != t,
    ensures
        key_of(s) != key_of(t),
        label_of(s) != label_of(t),
{
    reveal_strlit("safe_mode");
    reveal_strlit("timing_guarantees");
    reveal_strlit("external_synths");
    reveal_strlit("midi_enabled");
    reveal_strlit("cue_server");
    reveal_strlit("cue_external");
    reveal_strlit("invert_stereo");
    reveal_strlit("force_mono");
    reveal_strlit("Safe mode");
    reveal_strlit("Timing guarantees");
    reveal_strlit("External synths");
    reveal_strlit("MIDI");
    reveal_strlit("Allow incoming OSC");
    reveal_strlit("Allow remote OSC");
    reveal_strlit("Invert stereo");
    reveal_strlit("Force mono");
    assert(key_of(s).len() == key_of(t).len() ==> key_of(s)[0] != key_of(t)[0]);
    assert(label_of(s).len() == label_of(t).len() ==> label_of(s)[0] != label_of(t)[0]);
}

/// A setting that takes effect at once is sent to Spider under the address of what it
/// is turned to; those that go with the code of a run send nothing, and without a
/// runtime nothing is sent at all.
pub proof fn law_live_settings_are_sent(session: Session, runtime: Runtime, token: i32, s: Setting)
    ensures
        ({
            let b = Backend::Real { session, runtime };
            let bare = seq![ArgView::Int(session.ports.token)];
            let told = bare.push(ArgView::Int(1));
            &&& forall|on: bool|
                (#[trigger] live_message(b, s, on)) matches Some(o) ==> o.to
                    == PortId::GuiSendToSpider && !o.from_listener
            &&& s == Setting::SafeMode || s == Setting::TimingGuarantees || s
                == Setting::ExternalSynths ==> live_message(b, s, true) is None && live_message(
                b,
                s,
                false,
            ) is None
            &&& s == Setting::MidiEnabled ==> says(
                live_message(b, s, true)->0.message,
                "/midi-start"@,
                told,
            ) && says(live_message(b, s, false)->0.message, "/midi-stop"@, told)
            &&& s == Setting::CueServer ==> says(
                live_message(b, s, true)->0.message,
                "/cue-port-start"@,
                bare,
            ) && says(live_message(b, s, false)->0.message, "/cue-port-stop"@, bare)
            &&& s == Setting::CueExternal ==> says(
                live_message(b, s, true)->0.message,
                "/cue-port-external"@,
                bare,
            ) && says(live_message(b, s, false)->0.message, "/cue-port-internal"@, bare)
            &&& s == Setting::InvertStereo ==> says(
                live_message(b, s, true)->0.message,
                "/mixer-invert-stereo"@,
                bare,
            ) && says(live_message(b, s, false)->0.message, "/mixer-standard-stereo"@, bare)
            &&& s == Setting::ForceMono ==> says(
                live_message(b, s, true)->0.message,
                "/mixer-mono-mode"@,
                bare,
            ) && says(live_message(b, s, false)->0.message, "/mixer-stereo-mode"@, bare)
            &&& !(s == Setting::SafeMode || s == Setting::TimingGuarantees || s
                == Setting::ExternalSynths) ==> live_message(b, s, true) is Some && live_message(
                b,
                s,
                false,
            ) is Some
            &&& forall|on: bool|
                (#[trigger] live_message(Backend::Loopback { token }, s, on)) is None
        }),
{
    law_switches_have_two_addresses(session.ports.token, true);
    let bare = seq![ArgView::Int(session.ports.token)];
    assert(bare.push(ArgView::Int(1)) =~= seq![ArgView::Int(session.ports.token), ArgView::Int(1)]);
}

/// A runtime that has come up is told the settings that take effect at once, each as
/// it stands.
pub proof fn law_runtime_is_told_the_settings(v: AppView, session: Session, runtime: Runtime)
    requires
        v.backend == (Backend::Real { session, runtime }),
    ensures
        ({
            let e = event_effects(v, EventView::SpiderReady);
            let b = v.backend;
            let s = v.settings;
            &&& e.len() == 5
            &&& e[0] == EffectView::Send(live_message(b, Setting::MidiEnabled, s.midi_enabled)->0)
            &&& e[1] == EffectView::Send(live_message(b, Setting::CueServer, s.cue_server)->0)
            &&& e[2] == EffectView::Send(live_message(b, Setting::CueExternal, s.cue_external)->0)
            &&& e[3] == EffectView::Send(
                live_message(b, Setting::InvertStereo, s.invert_stereo)->0,
            )
            &&& e[4] == EffectView::Send(live_message(b, Setting::ForceMono, s.force_mono)->0)
        }),
{
    assert(sends(runtime_messages(v.backend, v.settings)).len() == 5);
}

/// An error of a run marks its line, counted from zero, with its text; no other
/// report marks anything, and neither does an error without a line.
pub proof fn law_errors_mark_their_line(v: AppView, m: MessageView)
    ensures
        ({
            let e = event_effects(v, EventView::Report(m));
            if (m.kind == MessageType::RuntimeError || m.kind == MessageType::SyntaxError)
                && m.line >= 1 {
                e.len() == 1 && (e[0] matches EffectView::Underline { line, text } && line + 1
                    == m.line && text == m.text)
            } else {
                e.len() == 0
            }
        }),
{
}

/// A driver that was switched is followed by a request for the list of drivers, where
/// there is an engine to ask; a switch that failed is not.
pub proof fn law_switched_driver_asks_for_the_list(v: AppView, detail: Seq<char>)
    ensures
        ({
            let e = event_effects(v, EventView::DriverSwitched { ok: true, detail });
            match v.backend {
                Backend::Real { .. } => e == seq![
                    EffectView::Send(
                        OutgoingView {
                            to: PortId::Scsynth,
                            from_listener: true,
                            message: OscMessageView {
                                addr: "/supersonic/drivers/list"@,
                                args: seq![],
                            },
                        },
                    ),
                ],
                Backend::Loopback { .. } => e.len() == 0,
            }
        }),
        event_effects(v, EventView::DriverSwitched { ok: false, detail }).len() == 0,
{
    assert(drivers_request().message.args =~= seq![]);
}

/// What is shown of an event stands in the log behind everything that was there.
pub proof fn law_events_are_logged_in_order(
    v: AppView,
    e: EventView,
    bpm: Seq<char>,
    stamp: Option<Seq<char>>,
)
    ensures
        after_event(v, e, bpm, stamp).log == v.log + rows_of(e, bpm),
        ({
            let w = after_event(v, e, bpm, stamp);
            w == (AppView {
                log: w.log,
                pending_cues: w.pending_cues,
                playing: w.playing,
                out_devices: w.out_devices,
                in_devices: w.in_devices,
                drivers: w.drivers,
                ..v
            })
        }),
        !(e is Cue) ==> after_event(v, e, bpm, stamp).pending_cues == v.pending_cues,
        !(e is AudioDevices) ==> after_event(v, e, bpm, stamp).out_devices == v.out_devices,
        !(e is AudioInputDevices) ==> after_event(v, e, bpm, stamp).in_devices == v.in_devices,
        !(e is AudioDrivers) ==> after_event(v, e, bpm, stamp).drivers == v.drivers,
        !(e is Status) ==> after_event(v, e, bpm, stamp).playing == v.playing,
{
}

/// A list of devices or drivers takes the place of the one that was kept; a cue waits
/// behind those that wait; and only the end of all runs ends playing.
pub proof fn law_events_are_kept(
    v: AppView,
    bpm: Seq<char>,
    stamp: Option<Seq<char>>,
    out: AudioDevicesView,
    inp: AudioInputDevicesView,
    drivers: AudioDriversView,
    cue: CueView,
    id: Seq<char>,
)
    ensures
        after_event(v, EventView::AudioDevices(out), bpm, stamp).out_devices == Some(out),
        after_event(v, EventView::AudioInputDevices(inp), bpm, stamp).in_devices == Some(inp),
        after_event(v, EventView::AudioDrivers(drivers), bpm, stamp).drivers == Some(drivers),
        after_event(v, EventView::Cue(cue), bpm, stamp).pending_cues == v.pending_cues.push(
            cue_text(cue, stamp),
        ),
        !after_event(
            v,
            EventView::Status(StatusView { kind: StatusType::AllComplete, id }),
            bpm,
            stamp,
        ).playing,
        after_event(
            v,
            EventView::Status(StatusView { kind: StatusType::Ack, id }),
            bpm,
            stamp,
        ).playing == v.playing,
        after_event(
            v,
            EventView::Status(StatusView { kind: StatusType::Exited, id }),
            bpm,
            stamp,
        ).playing == v.playing,
{
}

/// A press fades by the same amount in every tick, until nothing is left of it.
pub proof fn law_presses_fade_evenly(v: AppView, n: nat)
    ensures
        after_ticks(v, n).flash == if v.flash > 6 * n {
            v.flash - 6 * n
        } else {
            0
        },
        after_ticks(v, n).stop_flash == if v.stop_flash > 6 * n {
            v.stop_flash - 6 * n
        } else {
            0
        },
    decreases n,
{
    if n > 0 {
        law_presses_fade_evenly(after_tick(v), (n - 1) as nat);
        assert(faded(v.flash) == if v.flash > 6 {
            v.flash - 6
        } else {
            0
        });
    }
}

/// A tick changes the presses and the countdown to the next save, and nothing else.
/// The countdown starts over with every save.
pub proof fn law_countdown_starts_over(v: AppView)
    ensures
        ({
            let w = after_tick(v);
            w == (AppView {
                flash: w.flash,
                stop_flash: w.stop_flash,
                autosave_in: w.autosave_in,
                ..v
            })
        }),
        v.autosave_in <= 1 ==> after_tick(v).autosave_in == 150 && tick_effects(v) == seq![
            EffectView::SaveWorkspace,
        ],
        v.autosave_in > 1 ==> after_tick(v).autosave_in == v.autosave_in - 1 && tick_effects(
            v,
        ).len() == 0,
{
}

/// The next buffer is the one to the right, and behind the last one comes the first;
/// the one before is the one to the left.
pub proof fn law_buffers_stand_in_a_row(i: int)
    requires
        0 <= i < BUFFER_COUNT,
    ensures
        BUFFER_COUNT == 10,
        i < 9 ==> next_index(i) == i + 1,
        next_index(9) == 0,
        i > 0 ==> prev_index(i) == i - 1,
        prev_index(0) == 9,
{
}

/// A scope that attached shows the engine's slot and says so, or the ring of the
/// stand-in without a word; one that did not is detached.
pub proof fn law_scope_attaches_to_its_backend(v: AppView)
    ensures
        after_attach(v, false) == (AppView {
            scope: Scope { source: ScopeSource::Detached, ..v.scope },
            ..v
        }),
        match v.backend {
            Backend::Real { session, .. } => after_attach(v, true) == (AppView {
                scope: Scope { source: ScopeSource::RealSlot, ..v.scope },
                log: v.log.push(
                    RowView {
                        run: None,
                        error: false,
                        indent: false,
                        debug: false,
                        text: "=> Scope attached to "@ + ("/SuperSonic_"@ + decimal(
                            session.ports.scsynth as nat,
                        )) + " (slot 0)"@,
                    },
                ),
                ..v
            }),
            Backend::Loopback { .. } => after_attach(v, true) == (AppView {
                scope: Scope { source: ScopeSource::FakeRing, ..v.scope },
                ..v
            }),
        },
{
}

/// A switch of devices names the output before the input, and leaves rate and size
/// alone; it goes to the daemon with the token where there is one, and else to the
/// engine.
pub proof fn law_device_requests_name_both_sides(
    session: Session,
    token: i32,
    output: Seq<char>,
    input: Seq<char>,
)
    ensures
        device_request(
            Backend::Real { session, runtime: Runtime::DaemonRb },
            output,
            input,
        ) == Some(
            OutgoingView {
                to: PortId::Daemon,
                from_listener: false,
                message: OscMessageView {
                    addr: "/daemon/audio/switch-device"@,
                    args: seq![
                        ArgView::Int(session.ports.token),
                        ArgView::Text(output),
                        ArgView::Float(0),
                        ArgView::Int(0),
                        ArgView::Text(input),
                    ],
                },
            },
        ),
        device_request(Backend::Real { session, runtime: Runtime::Rust }, output, input) == Some(
            OutgoingView {
                to: PortId::Scsynth,
                from_listener: false,
                message: OscMessageView {
                    addr: "/supersonic/devices/switch"@,
                    args: seq![
                        ArgView::Text(output),
                        ArgView::Float(0),
                        ArgView::Int(0),
                        ArgView::Text(input),
                    ],
                },
            },
        ),
        device_request(Backend::Loopback { token }, output, input) is None,
{
}

/// A switch of drivers names the driver, and goes the way of a switch of devices.
pub proof fn law_driver_requests_name_the_driver(session: Session, token: i32, driver: Seq<char>)
    ensures
        driver_request(Backend::Real { session, runtime: Runtime::DaemonRb }, driver) == Some(
            OutgoingView {
                to: PortId::Daemon,
                from_listener: false,
                message: OscMessageView {
                    addr: "/daemon/audio/switch-driver"@,
                    args: seq![ArgView::Int(session.ports.token), ArgView::Text(driver)],
                },
            },
        ),
        driver_request(Backend::Real { session, runtime: Runtime::Rust }, driver) == Some(
            OutgoingView {
                to: PortId::Scsynth,
                from_listener: false,
                message: OscMessageView {
                    addr: "/supersonic/drivers/switch"@,
                    args: seq![ArgView::Text(driver)],
                },
            },
        ),
        driver_request(Backend::Loopback { token }, driver) is None,
{
}

/// A file that was opened or saved is remembered of its buffer, and the rest of the
/// state stays.
pub proof fn law_only_the_files_remember(v: AppView, i: int, j: int, path: Seq<char>)
    requires
        0 <= i < v.files.paths.len(),
        0 <= j < v.files.paths.len(),
    ensures
        ({
            let w = after_remember(v, i, path);
            &&& w.files.paths[i] == Some(path)
            &&& j != i ==> w.files.paths[j] == v.files.paths[j]
            &&& w.files.paths.len() == v.files.paths.len()
            &&& w.files.recent[0] == path
            &&& (AppView { files: v.files, ..w }) == v
        }),
{
    law_newest_comes_first(v.files.recent, path);
}

/// A message is sent when there is one.
pub proof fn law_messages_are_sent_once(m: OutgoingView)
    ensures
        maybe_send(Some(m)) == seq![EffectView::Send(m)],
        maybe_send(None).len() == 0,
{
}

} // verus!
