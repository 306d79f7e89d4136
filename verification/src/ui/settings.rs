//! The settings that are kept across sessions.

use crate::session::{outgoing_views, to_spider, Outgoing, OutgoingView, Session};
use crate::protocol::out;
use crate::table::Table;
use crate::text::same_text;
use crate::ui::backend::{if_real, sent, Backend, Runtime};
use crate::ui::files::pref;
use crate::ui::run::{
    channel_after, channel_before, next_midi_channel, preamble, prev_midi_channel, run_preamble,
};
use vstd::prelude::*;
use vstd::string::*;

verus! {

/// The settings that are on or off.
#[derive(Debug, Clone, Copy, PartialEq, Eq, Structural)]
pub enum Setting {
    SafeMode,
    TimingGuarantees,
    ExternalSynths,
    MidiEnabled,
    CueServer,
    CueExternal,
    InvertStereo,
    ForceMono,
}

/// The preference of a setting.
pub open spec fn key_of(s: Setting) -> Seq<char> {
    match s {
        Setting::SafeMode => "safe_mode"@,
        Setting::TimingGuarantees => "timing_guarantees"@,
        Setting::ExternalSynths => "external_synths"@,
        Setting::MidiEnabled => "midi_enabled"@,
        Setting::CueServer => "cue_server"@,
        Setting::CueExternal => "cue_external"@,
        Setting::InvertStereo => "invert_stereo"@,
        Setting::ForceMono => "force_mono"@,
    }
}

/// What a setting is called in the settings pane.
pub open spec fn label_of(s: Setting) -> Seq<char> {
    match s {
        Setting::SafeMode => "Safe mode"@,
        Setting::TimingGuarantees => "Timing guarantees"@,
        Setting::ExternalSynths => "External synths"@,
        Setting::MidiEnabled => "MIDI"@,
        Setting::CueServer => "Allow incoming OSC"@,
        Setting::CueExternal => "Allow remote OSC"@,
        Setting::InvertStereo => "Invert stereo"@,
        Setting::ForceMono => "Force mono"@,
    }
}

/// Whether a setting is on where nothing is stored.
pub open spec fn default_of(s: Setting) -> bool {
    s == Setting::SafeMode || s == Setting::MidiEnabled || s == Setting::CueServer
}

impl Setting {
    pub fn key(self) -> (r: &'static str)
        ensures
            r@ == key_of(self),
    {
        match self {
            Setting::SafeMode => "safe_mode",
            Setting::TimingGuarantees => "timing_guarantees",
            Setting::ExternalSynths => "external_synths",
            Setting::MidiEnabled => "midi_enabled",
            Setting::CueServer => "cue_server",
            Setting::CueExternal => "cue_external",
            Setting::InvertStereo => "invert_stereo",
            Setting::ForceMono => "force_mono",
        }
    }

    pub fn label(self) -> (r: &'static str)
        ensures
            r@ == label_of(self),
    {
        match self {
            Setting::SafeMode => "Safe mode",
            Setting::TimingGuarantees => "Timing guarantees",
            Setting::ExternalSynths => "External synths",
            Setting::MidiEnabled => "MIDI",
            Setting::CueServer => "Allow incoming OSC",
            Setting::CueExternal => "Allow remote OSC",
            Setting::InvertStereo => "Invert stereo",
            Setting::ForceMono => "Force mono",
        }
    }

    fn default_on(self) -> (r: bool)
        ensures
            r == default_of(self),
    {
        match self {
            Setting::SafeMode => true,
            Setting::MidiEnabled => true,
            Setting::CueServer => true,
            _ => false,
        }
    }
}

/// The settings of the program.
#[derive(Debug, Clone)]
pub struct Settings {
    pub safe_mode: bool,
    pub timing_guarantees: bool,
    pub external_synths: bool,
    pub midi_enabled: bool,
    pub cue_server: bool,
    pub cue_external: bool,
    pub invert_stereo: bool,
    pub force_mono: bool,
    /// `*` for all channels, or one of `1` to `16`.
    pub midi_channel: String,
    pub lang: String,
}

#[verifier::ext_equal]
pub struct SettingsView {
    pub safe_mode: bool,
    pub timing_guarantees: bool,
    pub external_synths: bool,
    pub midi_enabled: bool,
    pub cue_server: bool,
    pub cue_external: bool,
    pub invert_stereo: bool,
    pub force_mono: bool,
    pub midi_channel: Seq<char>,
    pub lang: Seq<char>,
}

impl View for Settings {
    type V = SettingsView;

    open spec fn view(&self) -> SettingsView {
        SettingsView {
            safe_mode: self.safe_mode,
            timing_guarantees: self.timing_guarantees,
            external_synths: self.external_synths,
            midi_enabled: self.midi_enabled,
            cue_server: self.cue_server,
            cue_external: self.cue_external,
            invert_stereo: self.invert_stereo,
            force_mono: self.force_mono,
            midi_channel: self.midi_channel@,
            lang: self.lang@,
        }
    }
}

/// Whether a setting is on.
pub open spec fn is_on(v: SettingsView, s: Setting) -> bool {
    match s {
        Setting::SafeMode => v.safe_mode,
        Setting::TimingGuarantees => v.timing_guarantees,
        Setting::ExternalSynths => v.external_synths,
        Setting::MidiEnabled => v.midi_enabled,
        Setting::CueServer => v.cue_server,
        Setting::CueExternal => v.cue_external,
        Setting::InvertStereo => v.invert_stereo,
        Setting::ForceMono => v.force_mono,
    }
}

/// The settings with one of them turned on or off.
pub open spec fn with(v: SettingsView, s: Setting, on: bool) -> SettingsView {
    match s {
        Setting::SafeMode => SettingsView { safe_mode: on, ..v },
        Setting::TimingGuarantees => SettingsView { timing_guarantees: on, ..v },
        Setting::ExternalSynths => SettingsView { external_synths: on, ..v },
        Setting::MidiEnabled => SettingsView { midi_enabled: on, ..v },
        Setting::CueServer => SettingsView { cue_server: on, ..v },
        Setting::CueExternal => SettingsView { cue_external: on, ..v },
        Setting::InvertStereo => SettingsView { invert_stereo: on, ..v },
        Setting::ForceMono => SettingsView { force_mono: on, ..v },
    }
}

/// A switch as it is stored.
pub open spec fn bool_text(on: bool) -> Seq<char> {
    if on {
        "true"@
    } else {
        "false"@
    }
}

/// Whether a setting is on, by the preferences.
pub open spec fn stored(prefs: Map<Seq<char>, Seq<char>>, s: Setting) -> bool {
    match pref(prefs, key_of(s)) {
        Some(v) => v == "true"@,
        None => default_of(s),
    }
}

/// The settings that the preferences hold; `detected` is the language of the
/// environment.
pub open spec fn settings_of(
    prefs: Map<Seq<char>, Seq<char>>,
    detected: Seq<char>,
) -> SettingsView {
    SettingsView {
        safe_mode: stored(prefs, Setting::SafeMode),
        timing_guarantees: stored(prefs, Setting::TimingGuarantees),
        external_synths: stored(prefs, Setting::ExternalSynths),
        midi_enabled: stored(prefs, Setting::MidiEnabled),
        cue_server: stored(prefs, Setting::CueServer),
        cue_external: stored(prefs, Setting::CueExternal),
        invert_stereo: stored(prefs, Setting::InvertStereo),
        force_mono: stored(prefs, Setting::ForceMono),
        midi_channel: match pref(prefs, "midi_channel"@) {
            Some(c) => c,
            None => "*"@,
        },
        lang: match pref(prefs, "lang"@) {
            Some(l) => l,
            None => detected,
        },
    }
}

fn stored_flag(prefs: &Table, s: Setting) -> (r: bool)
    ensures
        r == stored(prefs@, s),
{
    match prefs.get(s.key()) {
        Some(v) => same_text(v.as_str(), "true"),
        None => s.default_on(),
    }
}

fn stored_text(prefs: &Table, key: &str, otherwise: &str) -> (r: String)
    ensures
        r@ == (match pref(prefs@, key@) {
            Some(v) => v,
            None => otherwise@,
        }),
{
    match prefs.get(key) {
        Some(v) => v.clone(),
        None => String::from_str(otherwise),
    }
}

/// The message that puts a setting into force at once. The others take effect with
/// the next run.
pub open spec fn live_message(b: Backend, s: Setting, on: bool) -> Option<OutgoingView> {
    match s {
        Setting::MidiEnabled => if_real(
            b,
            |x: Session, k: Runtime|
                to_spider(out::midi_enabled_message(x.ports.token, on, true)),
        ),
        Setting::CueServer => if_real(
            b,
            |x: Session, k: Runtime|
                to_spider(out::cue_server_enabled_message(x.ports.token, on)),
        ),
        Setting::CueExternal => if_real(
            b,
            |x: Session, k: Runtime|
                to_spider(out::cue_server_external_message(x.ports.token, on)),
        ),
        Setting::InvertStereo => if_real(
            b,
            |x: Session, k: Runtime|
                to_spider(out::mixer_invert_stereo_message(x.ports.token, on)),
        ),
        Setting::ForceMono => if_real(
            b,
            |x: Session, k: Runtime|
                to_spider(out::mixer_force_mono_message(x.ports.token, on)),
        ),
        _ => None,
    }
}

/// The messages that put the stored settings into force on a runtime that has just
/// come up.
pub open spec fn runtime_messages(b: Backend, v: SettingsView) -> Seq<OutgoingView> {
    match b {
        Backend::Real { .. } => seq![
            live_message(b, Setting::MidiEnabled, v.midi_enabled)->0,
            live_message(b, Setting::CueServer, v.cue_server)->0,
            live_message(b, Setting::CueExternal, v.cue_external)->0,
            live_message(b, Setting::InvertStereo, v.invert_stereo)->0,
            live_message(b, Setting::ForceMono, v.force_mono)->0,
        ],
        Backend::Loopback { .. } => seq![],
    }
}

/// The message that puts `s` into force.
pub fn live_setting(b: &Backend, s: Setting, on: bool) -> (r: Option<Outgoing>)
    ensures
        sent(r) == live_message(*b, s, on),
{
    match s {
        Setting::MidiEnabled => b.set_midi(on),
        Setting::CueServer => b.set_cue_server(on),
        Setting::CueExternal => b.set_cue_external(on),
        Setting::InvertStereo => b.set_invert_stereo(on),
        Setting::ForceMono => b.set_force_mono(on),
        _ => None,
    }
}

fn push_if(v: &mut Vec<Outgoing>, m: Option<Outgoing>)
    ensures
        outgoing_views(final(v)@) == (match sent(m) {
            Some(x) => outgoing_views(old(v)@).push(x),
            None => outgoing_views(old(v)@),
        }),
{
    let ghost before = outgoing_views(v@);
    match m {
        Some(x) => {
            v.push(x);
            assert(outgoing_views(v@) =~= before.push(x@));
        },
        None => {},
    }
}

/// Stores one preference; the others stay.
pub fn set_pref(prefs: Table, key: &str, value: &str) -> (r: Table)
    ensures
        r@ == prefs@.insert(key@, value@),
{
    prefs.insert(String::from_str(key), String::from_str(value))
}

impl Settings {
    /// The settings that the preferences hold.
    pub fn load(prefs: &Table, detected_lang: &str) -> (r: Settings)
        ensures
            r@ == settings_of(prefs@, detected_lang@),
    {
        Settings {
            safe_mode: stored_flag(prefs, Setting::SafeMode),
            timing_guarantees: stored_flag(prefs, Setting::TimingGuarantees),
            external_synths: stored_flag(prefs, Setting::ExternalSynths),
            midi_enabled: stored_flag(prefs, Setting::MidiEnabled),
            cue_server: stored_flag(prefs, Setting::CueServer),
            cue_external: stored_flag(prefs, Setting::CueExternal),
            invert_stereo: stored_flag(prefs, Setting::InvertStereo),
            force_mono: stored_flag(prefs, Setting::ForceMono),
            midi_channel: stored_text(prefs, "midi_channel", "*"),
            lang: stored_text(prefs, "lang", detected_lang),
        }
    }

    /// Whether a setting is on.
    pub fn get(&self, s: Setting) -> (r: bool)
        ensures
            r == is_on(self@, s),
    {
        match s {
            Setting::SafeMode => self.safe_mode,
            Setting::TimingGuarantees => self.timing_guarantees,
            Setting::ExternalSynths => self.external_synths,
            Setting::MidiEnabled => self.midi_enabled,
            Setting::CueServer => self.cue_server,
            Setting::CueExternal => self.cue_external,
            Setting::InvertStereo => self.invert_stereo,
            Setting::ForceMono => self.force_mono,
        }
    }

    /// Turns a setting on or off.
    pub fn set(&mut self, s: Setting, on: bool)
        ensures
            final(self)@ == with(old(self)@, s, on),
    {
        match s {
            Setting::SafeMode => self.safe_mode = on,
            Setting::TimingGuarantees => self.timing_guarantees = on,
            Setting::ExternalSynths => self.external_synths = on,
            Setting::MidiEnabled => self.midi_enabled = on,
            Setting::CueServer => self.cue_server = on,
            Setting::CueExternal => self.cue_external = on,
            Setting::InvertStereo => self.invert_stereo = on,
            Setting::ForceMono => self.force_mono = on,
        }
    }

    /// Flips a setting. Gives the preferences that say so, and the message that
    /// puts it into force where it takes effect at once.
    pub fn toggle(&mut self, s: Setting, prefs: Table, backend: &Backend) -> (r: (
        Table,
        Option<Outgoing>,
    ))
        ensures
            final(self)@ == with(old(self)@, s, !is_on(old(self)@, s)),
            r.0@ == prefs@.insert(key_of(s), bool_text(!is_on(old(self)@, s))),
            sent(r.1) == live_message(*backend, s, !is_on(old(self)@, s)),
    {
        let on: bool = !self.get(s);
        self.set(s, on);
        let text: &str = if on {
            "true"
        } else {
            "false"
        };
        (set_pref(prefs, s.key(), text), live_setting(backend, s, on))
    }

    /// Steps the default MIDI channel, up or down.
    pub fn step_channel(&mut self, up: bool, prefs: Table) -> (r: Table)
        ensures
            final(self)@ == (SettingsView {
                midi_channel: if up {
                    channel_after(old(self)@.midi_channel)
                } else {
                    channel_before(old(self)@.midi_channel)
                },
                ..old(self)@
            }),
            r@ == prefs@.insert("midi_channel"@, final(self)@.midi_channel),
    {
        self.midi_channel = if up {
            next_midi_channel(self.midi_channel.as_str())
        } else {
            prev_midi_channel(self.midi_channel.as_str())
        };
        set_pref(prefs, "midi_channel", self.midi_channel.as_str())
    }

    /// Chooses a language.
    pub fn choose_lang(&mut self, lang: &str, prefs: Table) -> (r: Table)
        ensures
            final(self)@ == (SettingsView { lang: lang@, ..old(self)@ }),
            r@ == prefs@.insert("lang"@, lang@),
    {
        self.lang = String::from_str(lang);
        set_pref(prefs, "lang", lang)
    }

    /// The messages that put the settings into force on a runtime that has just
    /// come up.
    pub fn apply_runtime_prefs(&self, backend: &Backend) -> (r: Vec<Outgoing>)
        ensures
            outgoing_views(r@) == runtime_messages(*backend, self@),
    {
        let mut v: Vec<Outgoing> = Vec::new();
        push_if(&mut v, live_setting(backend, Setting::MidiEnabled, self.midi_enabled));
        push_if(&mut v, live_setting(backend, Setting::CueServer, self.cue_server));
        push_if(&mut v, live_setting(backend, Setting::CueExternal, self.cue_external));
        push_if(&mut v, live_setting(backend, Setting::InvertStereo, self.invert_stereo));
        push_if(&mut v, live_setting(backend, Setting::ForceMono, self.force_mono));
        assert(outgoing_views(v@) =~= runtime_messages(*backend, self@));
        v
    }

    /// The code that is sent for a run: the preamble of the settings, then the code
    /// of the buffer.
    pub fn run_code(&self, code: &str) -> (r: String)
        ensures
            r@ == preamble(
                self@.safe_mode,
                self@.external_synths,
                self@.timing_guarantees,
                self@.midi_channel,
            ) + code@,
    {
        let mut p: String = run_preamble(
            self.safe_mode,
            self.external_synths,
            self.timing_guarantees,
            self.midi_channel.as_str(),
        );
        p.append(code);
        p
    }
}

proof fn lemma_keys_differ(a: Setting, b: Setting)
    ensures
        key_of(a) == key_of(b) ==> a == b,
        key_of(a) != "midi_channel"@,
        key_of(a) != "lang"@,
{
    reveal_strlit("safe_mode");
    reveal_strlit("timing_guarantees");
    reveal_strlit("external_synths");
    reveal_strlit("midi_enabled");
    reveal_strlit("cue_server");
    reveal_strlit("cue_external");
    reveal_strlit("invert_stereo");
    reveal_strlit("force_mono");
    reveal_strlit("midi_channel");
    reveal_strlit("lang");
    assert(key_of(a)[0] == key_of(b)[0] && key_of(a).len() == key_of(b).len() ==> a == b || key_of(
        a,
    )[5] != key_of(b)[5]);
    assert("midi_enabled"@[5] == 'e');
    assert("midi_channel"@[5] == 'c');
    assert("midi_channel"@[0] == 'm');
    assert(key_of(a).len() > 4);
}

/// A setting that was flipped is loaded as it was left, and no other setting
/// changes.
pub proof fn law_settings_load_as_they_were_left(
    prefs: Map<Seq<char>, Seq<char>>,
    detected: Seq<char>,
    s: Setting,
    on: bool,
)
    ensures
        settings_of(prefs.insert(key_of(s), bool_text(on)), detected) == with(
            settings_of(prefs, detected),
            s,
            on,
        ),
{
    reveal_strlit("true");
    reveal_strlit("false");
    assert(bool_text(false).len() != bool_text(true).len());
    let after = prefs.insert(key_of(s), bool_text(on));
    lemma_keys_differ(s, Setting::SafeMode);
    lemma_keys_differ(s, Setting::TimingGuarantees);
    lemma_keys_differ(s, Setting::ExternalSynths);
    lemma_keys_differ(s, Setting::MidiEnabled);
    lemma_keys_differ(s, Setting::CueServer);
    lemma_keys_differ(s, Setting::CueExternal);
    lemma_keys_differ(s, Setting::InvertStereo);
    lemma_keys_differ(s, Setting::ForceMono);
}

/// Flipping a setting twice leaves the settings as they were.
pub proof fn law_toggling_a_setting_twice(v: SettingsView, s: Setting)
    ensures
        with(with(v, s, !is_on(v, s)), s, !is_on(with(v, s, !is_on(v, s)), s)) == v,
{
}

} // verus!
