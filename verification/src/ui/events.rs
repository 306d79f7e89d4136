//! What events, ticks and finished work do to the state of the program.

use crate::client::{ClientEvent, EventView, MessageType, StatusType};
use crate::log::{error_row, info_row, log_lines_for, row_views, rows_of, LogLine};
use crate::number::nat_text;
use crate::protocol::out;
use crate::session::{drivers_request, outgoing_views, Outgoing, OutgoingView, Session};
use crate::table::Table;

use crate::ui::backend::{if_real, scope_segment, sent, Backend, Runtime};
use crate::session::{to_daemon, to_engine};
use crate::ui::cues::{add_cues, cue_line, cue_text, newest_lines, with_cues};
use crate::ui::files::{optional_str, remembered, remembered_prefs, BUFFER_COUNT};
use crate::ui::scope::{
    newest, rate_of, scope_tick, spectrum_rate, Scope, ScopeMode, ScopeSource, ScopeStep,
};
use crate::ui::settings::{bool_text, is_on, key_of, live_message, runtime_messages, with, Setting};
use crate::ui::state::{
    after_run, after_stop, effect_views, engine_effect, logged, shown_number, valid, App, AppView,
    Effect, EffectView, Panes, AUTOSAVE_TICKS, FLASH_FADE, FLASH_PULSE, LOG_ROWS,
};
use vstd::prelude::*;
use vstd::string::*;

verus! {

/// The state after an event: its rows are in the log; a cue waits for its pane; the
/// end of all runs ends playing; device and driver lists are kept.
pub open spec fn after_event(
    v: AppView,
    e: EventView,
    bpm: Seq<char>,
    stamp: Option<Seq<char>>,
) -> AppView {
    let w = AppView { log: v.log + rows_of(e, bpm), ..v };
    match e {
        EventView::Cue(c) => AppView {
            pending_cues: w.pending_cues.push(cue_text(c, stamp)),
            ..w
        },
        EventView::Status(s) => if s.kind == StatusType::AllComplete {
            AppView { playing: false, ..w }
        } else {
            w
        },
        EventView::AudioDevices(d) => AppView { out_devices: Some(d), ..w },
        EventView::AudioInputDevices(d) => AppView { in_devices: Some(d), ..w },
        EventView::AudioDrivers(d) => AppView { drivers: Some(d), ..w },
        _ => w,
    }
}

/// Messages to send, one after the other.
pub open spec fn sends(ms: Seq<OutgoingView>) -> Seq<EffectView> {
    ms.map_values(|m: OutgoingView| EffectView::Send(m))
}

/// What an event asks for: a driver switch that went well, the driver list; a
/// runtime that has come up, the stored settings; an error at a known line, a mark
/// there.
pub open spec fn event_effects(v: AppView, e: EventView) -> Seq<EffectView> {
    match e {
        EventView::DriverSwitched { ok: true, .. } => engine_effect(v.backend, drivers_request()),
        EventView::SpiderReady => sends(runtime_messages(v.backend, v.settings)),
        EventView::Report(m) => if (m.kind == MessageType::RuntimeError || m.kind
            == MessageType::SyntaxError) && m.line > 0 {
            seq![EffectView::Underline { line: (m.line - 1) as u32, text: m.text }]
        } else {
            seq![]
        },
        _ => seq![],
    }
}

/// A press after a tick.
pub open spec fn faded(flash: u32) -> u32 {
    if flash > FLASH_FADE {
        (flash - FLASH_FADE) as u32
    } else {
        0
    }
}

/// The state after a tick: presses fade, and the countdown to the next save of the
/// workspace runs.
pub open spec fn after_tick(v: AppView) -> AppView {
    AppView {
        flash: faded(v.flash),
        stop_flash: faded(v.stop_flash),
        autosave_in: if v.autosave_in <= 1 {
            AUTOSAVE_TICKS
        } else {
            (v.autosave_in - 1) as u32
        },
        ..v
    }
}

/// What a tick asks for: a save of the workspace when its countdown is over.
pub open spec fn tick_effects(v: AppView) -> Seq<EffectView> {
    if v.autosave_in <= 1 {
        seq![EffectView::SaveWorkspace]
    } else {
        seq![]
    }
}

/// The state `n` ticks on.
pub open spec fn after_ticks(v: AppView, n: nat) -> AppView
    decreases n,
{
    if n == 0 {
        v
    } else {
        after_ticks(after_tick(v), (n - 1) as nat)
    }
}

/// The workspace is saved as soon as its countdown is over, and never later than
/// that.
pub proof fn law_workspace_is_saved_in_time(v: AppView, n: nat)
    requires
        n < v.autosave_in,
    ensures
        after_ticks(v, n).autosave_in == v.autosave_in - n,
        tick_effects(after_ticks(v, n)).contains(EffectView::SaveWorkspace) <==> n
            == v.autosave_in - 1,
    decreases n,
{
    if n > 0 {
        law_workspace_is_saved_in_time(after_tick(v), (n - 1) as nat);
    } else if v.autosave_in <= 1 {
        assert(tick_effects(v)[0] == EffectView::SaveWorkspace);
    }
}

/// A run plays until all runs are reported complete, or until they are stopped;
/// other events do not end it.
pub proof fn law_a_run_plays_until_it_is_over(
    v: AppView,
    ev: EventView,
    bpm: Seq<char>,
    stamp: Option<Seq<char>>,
)
    ensures
        after_run(v).playing,
        !after_stop(v).playing,
        after_event(after_run(v), ev, bpm, stamp).playing == !(ev matches EventView::Status(s)
            && s.kind == StatusType::AllComplete),
{
}

/// Whether the button of a press pulses.
pub fn pulses(flash: u32) -> (r: bool)
    ensures
        r == (flash > FLASH_PULSE),
{
    flash > FLASH_PULSE
}

/// The state after the scope tried to attach.
pub open spec fn after_attach(v: AppView, ok: bool) -> AppView {
    match (v.backend, ok) {
        (Backend::Real { .. }, true) => logged(
            AppView { scope: Scope { source: ScopeSource::RealSlot, ..v.scope }, ..v },
            info_row("=> Scope attached to "@ + scope_segment(v.backend) + " (slot 0)"@),
        ),
        (Backend::Loopback { .. }, true) => AppView {
            scope: Scope { source: ScopeSource::FakeRing, ..v.scope },
            ..v
        },
        (_, false) => AppView { scope: Scope { source: ScopeSource::Detached, ..v.scope }, ..v },
    }
}

/// The state after a file was opened into or saved from a buffer.
pub open spec fn after_remember(v: AppView, i: int, path: Seq<char>) -> AppView {
    AppView { files: remembered(v.files, i, path), ..v }
}

/// A message for the runtime as an effect.
pub open spec fn maybe_send(m: Option<OutgoingView>) -> Seq<EffectView> {
    match m {
        Some(x) => seq![EffectView::Send(x)],
        None => seq![],
    }
}

/// The request for other audio devices.
pub open spec fn device_request(b: Backend, output: Seq<char>, input: Seq<char>) -> Option<
    OutgoingView,
> {
    if_real(
        b,
        |s: Session, k: Runtime|
            match k {
                Runtime::DaemonRb => to_daemon(
                    out::audio_switch_device_message(s.ports.token, output, 0, 0, input),
                ),
                Runtime::Rust => to_engine(
                    out::supersonic_devices_switch_message(output, 0, 0, input),
                ),
            },
    )
}

/// The request for another audio driver.
pub open spec fn driver_request(b: Backend, driver: Seq<char>) -> Option<OutgoingView> {
    if_real(
        b,
        |s: Session, k: Runtime|
            match k {
                Runtime::DaemonRb => to_daemon(
                    out::audio_switch_driver_message(s.ports.token, driver),
                ),
                Runtime::Rust => to_engine(out::supersonic_drivers_switch_message(driver)),
            },
    )
}

fn effects_of(m: Option<Outgoing>) -> (r: Vec<Effect>)
    ensures
        effect_views(r@) == maybe_send(sent(m)),
{
    let mut v: Vec<Effect> = Vec::new();
    match m {
        Some(x) => {
            v.push(Effect::Send(x));
            assert(effect_views(v@) =~= seq![EffectView::Send(x@)]);
        },
        None => {
            assert(effect_views(v@) =~= seq![]);
        },
    }
    v
}

fn send_all(ms: Vec<Outgoing>) -> (r: Vec<Effect>)
    ensures
        effect_views(r@) == sends(outgoing_views(ms@)),
{
    let ghost all = sends(outgoing_views(ms@));
    let mut rest: Vec<Outgoing> = ms;
    let mut out: Vec<Effect> = Vec::new();
    let ghost mut n: int = 0;
    assert(effect_views(out@) =~= all.take(0));
    while rest.len() > 0
        invariant
            0 <= n,
            n + rest@.len() == ms@.len(),
            rest@ == ms@.skip(n),
            all == sends(outgoing_views(ms@)),
            effect_views(out@) == all.take(n),
        decreases rest@.len(),
    {
        let ghost before = effect_views(out@);
        let m: Outgoing = rest.remove(0);
        assert(m == ms@[n]);
        assert(ms@.skip(n).remove(0) =~= ms@.skip(n + 1));
        out.push(Effect::Send(m));
        assert(effect_views(out@) =~= before.push(EffectView::Send(m@)));
        proof {
            n = n + 1;
        }
        assert(effect_views(out@) =~= all.take(n));
    }
    assert(all.take(n) =~= all);
    out
}

impl App {
    /// Takes in an event. `bpm` is how a tempo is written, and `stamp` the time of
    /// a cue since the first one.
    pub fn on_event(&mut self, ev: ClientEvent, bpm: &str, stamp: Option<&str>) -> (r: Vec<Effect>)
        ensures
            final(self)@ == after_event(old(self)@, ev@, bpm@, optional_str(stamp)),
            effect_views(r@) == event_effects(old(self)@, ev@),
            valid(old(self)@) ==> valid(final(self)@),
    {
        let ghost start = self@;
        let mut rows: Vec<LogLine> = log_lines_for(&ev, bpm);
        let ghost added = row_views(rows@);
        self.log.append(&mut rows);
        assert(self@.log =~= start.log + added);
        let mut effects: Vec<Effect> = Vec::new();
        assert(effect_views(effects@) =~= seq![]);
        match ev {
            ClientEvent::Cue(c) => {
                let line: String = cue_line(&c, stamp);
                self.pending_cues.push(line);
                assert(self@.pending_cues =~= start.pending_cues.push(line@));
            },
            ClientEvent::Status(s) => {
                match s.kind {
                    StatusType::AllComplete => {
                        self.playing = false;
                    },
                    _ => {},
                }
            },
            ClientEvent::AudioDevices(d) => {
                self.out_devices = Some(d);
            },
            ClientEvent::AudioInputDevices(d) => {
                self.in_devices = Some(d);
            },
            ClientEvent::AudioDrivers(d) => {
                self.drivers = Some(d);
            },
            ClientEvent::DriverSwitched { ok, detail: _ } => {
                if ok {
                    effects = effects_of(self.backend.request_drivers());
                }
            },
            ClientEvent::SpiderReady => {
                effects = send_all(self.settings.apply_runtime_prefs(&self.backend));
            },
            ClientEvent::Report(m) => {
                let marks: bool = match m.kind {
                    MessageType::RuntimeError => true,
                    MessageType::SyntaxError => true,
                    _ => false,
                };
                if marks && m.line > 0 {
                    effects.push(Effect::Underline { line: (m.line - 1) as u32, text: m.text });
                    assert(effect_views(effects@) =~= event_effects(start, ev@));
                }
            },
            _ => {},
        }
        assert(self@ =~= after_event(start, ev@, bpm@, optional_str(stamp)));
        effects
    }

    /// Moves on by a tick.
    pub fn tick(&mut self) -> (r: Vec<Effect>)
        ensures
            final(self)@ == after_tick(old(self)@),
            effect_views(r@) == tick_effects(old(self)@),
            valid(old(self)@) ==> valid(final(self)@),
    {
        self.flash = if self.flash > FLASH_FADE {
            self.flash - FLASH_FADE
        } else {
            0
        };
        self.stop_flash = if self.stop_flash > FLASH_FADE {
            self.stop_flash - FLASH_FADE
        } else {
            0
        };
        let mut effects: Vec<Effect> = Vec::new();
        if self.autosave_in <= 1 {
            self.autosave_in = AUTOSAVE_TICKS;
            effects.push(Effect::SaveWorkspace);
        } else {
            self.autosave_in = self.autosave_in - 1;
        }
        assert(effect_views(effects@) =~= tick_effects(old(self)@));
        effects
    }

    /// Drops the oldest rows of a log that has grown too long.
    pub fn cap_log(&mut self)
        ensures
            final(self)@ == (AppView {
                log: newest(old(self)@.log, LOG_ROWS as int),
                ..old(self)@
            }),
            final(self)@.log.len() <= LOG_ROWS,
    {
        let ghost start = self@;
        if self.log.len() > LOG_ROWS {
            let n: usize = self.log.len() - LOG_ROWS;
            let kept: Vec<LogLine> = self.log.split_off(n);
            assert(row_views(kept@) =~= start.log.skip(n as int));
            self.log = kept;
        }
    }

    /// What there is to do for the scope in this tick.
    pub fn poll_scope(&mut self) -> (r: ScopeStep)
        ensures
            final(self)@ == (AppView { scope: scope_tick(old(self)@.scope).0, ..old(self)@ }),
            r == scope_tick(old(self)@.scope).1,
    {
        let (scope, step): (Scope, ScopeStep) = self.scope.tick();
        self.scope = scope;
        step
    }

    /// Notes whether the scope could be attached.
    pub fn scope_attached(&mut self, ok: bool)
        ensures
            final(self)@ == after_attach(old(self)@, ok),
    {
        if !ok {
            self.scope.source = ScopeSource::Detached;
            return ;
        }
        match self.backend {
            Backend::Real { .. } => {
                self.scope.source = ScopeSource::RealSlot;
                let name: String = self.backend.scope_shm_name();
                let mut t: String = String::from_str("=> Scope attached to ");
                t.append(name.as_str());
                t.append(" (slot 0)");
                self.push_log(LogLine::info(t));
            },
            Backend::Loopback { .. } => {
                self.scope.source = ScopeSource::FakeRing;
            },
        }
    }

    /// Notes whether a new window of samples came in.
    pub fn scope_pulled(&mut self, got: bool)
        ensures
            final(self)@ == (AppView {
                scope: Scope { live: old(self)@.scope.live || got, ..old(self)@.scope },
                ..old(self)@
            }),
    {
        self.scope.live = self.scope.live || got;
    }

    /// Whether the node list has to be read again, `version` being the engine's: it
    /// is shown and has changed.
    pub fn nodes_changed(&mut self, version: Option<u32>) -> (r: bool)
        ensures
            r == (old(self)@.panes.nodes_open && version is Some && version->0 != old(
                self,
            )@.panes.node_version),
            final(self)@ == (if r {
                AppView {
                    panes: Panes { node_version: version->0, ..old(self)@.panes },
                    ..old(self)@
                }
            } else {
                old(self)@
            }),
    {
        match version {
            Some(v) => {
                if self.panes.nodes_open && v != self.panes.node_version {
                    self.panes.node_version = v;
                    true
                } else {
                    false
                }
            },
            None => false,
        }
    }

    /// The sample rate to compute the spectrum for, when it is shown and there is
    /// data.
    pub fn spectrum_wanted(&self) -> (r: Option<u32>)
        ensures
            r == (if self@.scope.mode == ScopeMode::Spectrum && self@.scope.live {
                Some(
                    rate_of(
                        match self@.out_devices {
                            Some(d) => Some(d.sample_rate),
                            None => None,
                        },
                    ),
                )
            } else {
                None
            }),
    {
        match self.scope.mode {
            ScopeMode::Spectrum => {
                if self.scope.live {
                    let rate: Option<i32> = match &self.out_devices {
                        Some(d) => Some(d.sample_rate),
                        None => None,
                    };
                    Some(spectrum_rate(rate))
                } else {
                    None
                }
            },
            _ => None,
        }
    }

    /// The new text of the cues pane, whose text is `text`, if cues have come in.
    pub fn flush_cues(&mut self, text: &str) -> (r: Option<String>)
        ensures
            match r {
                Some(t) => {
                    &&& old(self)@.pending_cues.len() > 0
                    &&& t@ == newest_lines(
                        with_cues(text@, old(self)@.cues_live, old(self)@.pending_cues),
                    )
                    &&& final(self)@ == (AppView {
                        pending_cues: seq![],
                        cues_live: true,
                        ..old(self)@
                    })
                },
                None => old(self)@.pending_cues.len() == 0 && final(self)@ == old(self)@,
            },
    {
        if self.pending_cues.len() == 0 {
            return None;
        }
        let t: String = add_cues(text, self.cues_live, &self.pending_cues);
        self.pending_cues = Vec::new();
        self.cues_live = true;
        assert(self@.pending_cues =~= seq![]);
        Some(t)
    }

    /// Notes that a file was opened into buffer `i`. Gives the preferences that
    /// remember it.
    pub fn file_opened(&mut self, i: usize, path: &str, prefs: Table) -> (r: Table)
        requires
            valid(old(self)@),
            i < BUFFER_COUNT,
        ensures
            final(self)@ == logged(
                after_remember(old(self)@, i as int, path@),
                info_row("→ Opened "@ + path@ + " into buffer "@ + shown_number(i as int)),
            ),
            r@ == remembered_prefs(prefs@, old(self)@.files, i as int, path@),
            valid(final(self)@),
    {
        let r: Table = self.files.remember_file(i, path, prefs);
        let mut t: String = String::from_str("→ Opened ");
        let n: String = nat_text((i + 1) as u64);
        t.append(path);
        t.append(" into buffer ");
        t.append(n.as_str());
        self.push_log(LogLine::info(t));
        r
    }

    /// Notes that a file could not be opened.
    pub fn open_failed(&mut self, path: &str, why: &str)
        ensures
            final(self)@ == logged(
                old(self)@,
                error_row("Open "@ + path@ + " failed: "@ + why@),
            ),
    {
        let mut t: String = String::from_str("Open ");
        t.append(path);
        t.append(" failed: ");
        t.append(why);
        self.push_log(LogLine::error(t));
    }

    /// Notes that a file was chosen for a save of buffer `i`. Gives the preferences
    /// that remember it.
    pub fn file_chosen(&mut self, i: usize, path: &str, prefs: Table) -> (r: Table)
        requires
            valid(old(self)@),
            i < BUFFER_COUNT,
        ensures
            final(self)@ == after_remember(old(self)@, i as int, path@),
            r@ == remembered_prefs(prefs@, old(self)@.files, i as int, path@),
            valid(final(self)@),
    {
        self.files.remember_file(i, path, prefs)
    }

    /// Notes that buffer `i` was written to a file, or why it was not.
    pub fn buffer_written(&mut self, i: usize, path: &str, failure: Option<&str>)
        requires
            i < BUFFER_COUNT,
        ensures
            final(self)@ == logged(
                old(self)@,
                match failure {
                    None => info_row(
                        "→ Saved buffer "@ + shown_number(i as int) + " → "@ + path@,
                    ),
                    Some(why) => error_row("Save "@ + path@ + " failed: "@ + why@),
                },
            ),
    {
        match failure {
            None => {
                let mut t: String = String::from_str("→ Saved buffer ");
                let n: String = nat_text((i + 1) as u64);
                t.append(n.as_str());
                t.append(" → ");
                t.append(path);
                self.push_log(LogLine::info(t));
            },
            Some(why) => {
                let mut t: String = String::from_str("Save ");
                t.append(path);
                t.append(" failed: ");
                t.append(why);
                self.push_log(LogLine::error(t));
            },
        }
    }

    /// Notes that an example was loaded into the active buffer, or why it was not.
    pub fn example_loaded(
        &mut self,
        category: &str,
        name: &str,
        path: &str,
        failure: Option<&str>,
    )
        requires
            valid(old(self)@),
        ensures
            final(self)@ == logged(
                old(self)@,
                match failure {
                    None => info_row(
                        "→ Example "@ + category@ + "/"@ + name@ + " loaded into buffer "@
                            + shown_number(old(self)@.active as int),
                    ),
                    Some(why) => error_row("Example "@ + path@ + " failed: "@ + why@),
                },
            ),
    {
        match failure {
            None => {
                let mut t: String = String::from_str("→ Example ");
                let n: String = nat_text((self.active + 1) as u64);
                t.append(category);
                t.append("/");
                t.append(name);
                t.append(" loaded into buffer ");
                t.append(n.as_str());
                self.push_log(LogLine::info(t));
            },
            Some(why) => {
                let mut t: String = String::from_str("Example ");
                t.append(path);
                t.append(" failed: ");
                t.append(why);
                self.push_log(LogLine::error(t));
            },
        }
    }

    /// Shows buffer `i`, if there is one.
    pub fn select_buffer(&mut self, i: usize)
        requires
            valid(old(self)@),
        ensures
            final(self)@ == (if i < BUFFER_COUNT {
                AppView { active: i, ..old(self)@ }
            } else {
                old(self)@
            }),
            valid(final(self)@),
    {
        if i < BUFFER_COUNT {
            self.active = i;
        }
    }

    /// Shows the next buffer; after the last comes the first.
    pub fn next_buffer(&mut self)
        requires
            valid(old(self)@),
        ensures
            final(self)@ == (AppView {
                active: next_index(old(self)@.active as int) as usize,
                ..old(self)@
            }),
            valid(final(self)@),
    {
        self.active = (self.active + 1) % BUFFER_COUNT;
    }

    /// Shows the buffer before; before the first comes the last.
    pub fn prev_buffer(&mut self)
        requires
            valid(old(self)@),
        ensures
            final(self)@ == (AppView {
                active: prev_index(old(self)@.active as int) as usize,
                ..old(self)@
            }),
            valid(final(self)@),
    {
        self.active = (self.active + BUFFER_COUNT - 1) % BUFFER_COUNT;
    }

    /// Switches the output device.
    pub fn use_output(&mut self, name: &str) -> (r: Vec<Effect>)
        ensures
            final(self)@ == logged(old(self)@, info_row("→ Output device → "@ + name@)),
            effect_views(r@) == maybe_send(device_request(old(self)@.backend, name@, ""@)),
    {
        let effects: Vec<Effect> = effects_of(self.backend.switch_audio(Some(name), None));
        let t: String = String::from_str("→ Output device → ").concat(name);
        self.push_log(LogLine::info(t));
        effects
    }

    /// Switches the input device.
    pub fn use_input(&mut self, name: &str) -> (r: Vec<Effect>)
        ensures
            final(self)@ == logged(old(self)@, info_row("→ Input device → "@ + name@)),
            effect_views(r@) == maybe_send(device_request(old(self)@.backend, ""@, name@)),
    {
        let effects: Vec<Effect> = effects_of(self.backend.switch_audio(None, Some(name)));
        let t: String = String::from_str("→ Input device → ").concat(name);
        self.push_log(LogLine::info(t));
        effects
    }

    /// Turns audio input off.
    pub fn disable_input(&mut self) -> (r: Vec<Effect>)
        ensures
            final(self)@ == logged(old(self)@, info_row("→ Audio input disabled"@)),
            effect_views(r@) == maybe_send(device_request(old(self)@.backend, ""@, "__none__"@)),
    {
        let effects: Vec<Effect> = effects_of(self.backend.switch_audio(None, Some("__none__")));
        self.push_log(LogLine::info(String::from_str("→ Audio input disabled")));
        effects
    }

    /// Switches the audio driver.
    pub fn use_driver(&mut self, name: &str) -> (r: Vec<Effect>)
        ensures
            final(self)@ == logged(old(self)@, info_row("→ Audio driver → "@ + name@)),
            effect_views(r@) == maybe_send(driver_request(old(self)@.backend, name@)),
    {
        let effects: Vec<Effect> = effects_of(self.backend.switch_driver(name));
        let t: String = String::from_str("→ Audio driver → ").concat(name);
        self.push_log(LogLine::info(t));
        effects
    }

    /// Flips a setting. Gives the preferences that say so.
    pub fn toggle_setting(&mut self, s: Setting, prefs: Table) -> (r: (Table, Vec<Effect>))
        ensures
            ({
                let on = !is_on(old(self)@.settings, s);
                &&& final(self)@ == (AppView {
                    settings: with(old(self)@.settings, s, on),
                    ..old(self)@
                })
                &&& r.0@ == prefs@.insert(key_of(s), bool_text(on))
                &&& effect_views(r.1@) == maybe_send(live_message(old(self)@.backend, s, on))
            }),
    {
        let backend: Backend = self.backend;
        let (prefs, message): (Table, Option<Outgoing>) = self.settings.toggle(s, prefs, &backend);
        (prefs, effects_of(message))
    }
}

/// The buffer after buffer `i`.
pub open spec fn next_index(i: int) -> int {
    (i + 1) % (BUFFER_COUNT as int)
}

/// The buffer before buffer `i`.
pub open spec fn prev_index(i: int) -> int {
    (i + BUFFER_COUNT - 1) % (BUFFER_COUNT as int)
}

/// Going to the next buffer and back leads to where one was.
pub proof fn law_buffers_form_a_cycle(i: int)
    requires
        0 <= i < BUFFER_COUNT,
    ensures
        0 <= next_index(i) < BUFFER_COUNT,
        0 <= prev_index(i) < BUFFER_COUNT,
        prev_index(next_index(i)) == i,
        next_index(prev_index(i)) == i,
{
}

} // verus!
