//! The settings pane.

use crate::client::{
    AudioDevicesInfo, AudioDevicesView, AudioDriversInfo, AudioDriversView, AudioInputDevicesInfo,
    AudioInputDevicesView,
};
use crate::i18n::{translated, I18n};
use crate::number::{decimal, decimal_int, int_text, nat_text};
use crate::text::{same_text, string_views};
use crate::ui::files::optional_str;
use crate::ui::settings::{is_on, label_of, Setting, Settings, SettingsView};
use crate::ui::state::{App, AppView};
use crate::ui::widgets::{
    button, button_views, chosen, chosen_style, pane_views, push_button, push_row, push_text,
    text_row, Action, Button, ButtonView, Emphasis, PaneRow, PaneRowView,
};
use vstd::prelude::*;
use vstd::string::*;

verus! {

/// What the engine counts.
#[derive(Debug, Clone, Copy, PartialEq, Eq, Structural)]
pub struct EngineCounts {
    pub callbacks: u32,
    pub messages: u32,
    pub queue: u32,
    pub peers: u32,
}

/// The things that one of several can be chosen of.
#[derive(Debug, Clone, Copy, PartialEq, Eq, Structural)]
pub enum Choice {
    Output,
    Input,
    Driver,
    Theme,
    Lang,
}

/// What choosing the `i`-th does.
pub open spec fn choice_action(c: Choice, i: usize) -> Action {
    match c {
        Choice::Output => Action::UseOutput(i),
        Choice::Input => Action::UseInput(i),
        Choice::Driver => Action::UseDriver(i),
        Choice::Theme => Action::UseTheme(i),
        Choice::Lang => Action::UseLang(i),
    }
}

/// A button for each name, the current one standing out.
pub open spec fn choices(c: Choice, names: Seq<Seq<char>>, current: Seq<char>) -> Seq<ButtonView> {
    Seq::new(
        names.len(),
        |i: int| button(names[i], chosen(names[i] == current), choice_action(c, i as usize)),
    )
}

fn action_of(c: Choice, i: usize) -> (r: Action)
    ensures
        r == choice_action(c, i),
{
    match c {
        Choice::Output => Action::UseOutput(i),
        Choice::Input => Action::UseInput(i),
        Choice::Driver => Action::UseDriver(i),
        Choice::Theme => Action::UseTheme(i),
        Choice::Lang => Action::UseLang(i),
    }
}

fn choice_buttons(c: Choice, names: &Vec<String>, current: &str) -> (r: Vec<Button>)
    ensures
        button_views(r@) == choices(c, string_views(names@), current@),
{
    let ghost all = choices(c, string_views(names@), current@);
    let mut out: Vec<Button> = Vec::new();
    let mut i: usize = 0;
    assert(button_views(out@) =~= all.take(0));
    while i < names.len()
        invariant
            i <= names@.len(),
            all == choices(c, string_views(names@), current@),
            button_views(out@) == all.take(i as int),
        decreases names@.len() - i,
    {
        let on: bool = same_text(names[i].as_str(), current);
        assert(string_views(names@)[i as int] == names@[i as int]@);
        push_button(&mut out, names[i].clone(), "", chosen_style(on), action_of(c, i));
        i = i + 1;
        assert(button_views(out@) =~= all.take(i as int));
    }
    assert(all.take(i as int) =~= all);
    out
}

/// The switch of a setting.
pub open spec fn switch(s: Setting, v: SettingsView, t: Map<Seq<char>, Seq<char>>) -> ButtonView {
    button(
        (if is_on(v, s) {
            "☑"@
        } else {
            "☐"@
        }) + " "@ + translated(t, label_of(s)),
        chosen(is_on(v, s)),
        Action::Toggle(s),
    )
}

fn push_switch(v: &mut Vec<Button>, s: Setting, settings: &Settings, i18n: &I18n)
    ensures
        button_views(final(v)@) == button_views(old(v)@).push(
            switch(s, settings@, i18n.table@),
        ),
{
    let on: bool = settings.get(s);
    let mut label: String = String::from_str(
        if on {
            "☑"
        } else {
            "☐"
        },
    );
    label.append(" ");
    label.append(i18n.tr(s.label()));
    push_button(v, label, "", chosen_style(on), Action::Toggle(s));
}

/// The row of the tempo; `tempo` is how it is written, if the engine tells it.
pub open spec fn tempo_row(tempo: Option<Seq<char>>, t: Map<Seq<char>, Seq<char>>) -> PaneRowView {
    PaneRowView {
        text: match tempo {
            Some(b) => translated(t, "Tempo"@) + " "@ + b + " BPM"@,
            None => translated(t, "Tempo"@) + " ("@ + translated(t, "waiting for engine"@)
                + ")"@,
        },
        buttons: seq![
            button("−5"@, Emphasis::Outline, Action::TempoDown),
            button("+5"@, Emphasis::Outline, Action::TempoUp),
            button("Tap"@, Emphasis::Outline, Action::TempoTap),
        ],
    }
}

/// The line with what the engine counts.
pub open spec fn counts_text(c: EngineCounts) -> Seq<char> {
    "engine: "@ + decimal(c.callbacks as nat) + " callbacks · "@ + decimal(c.messages as nat)
        + " msgs · queue "@ + decimal(c.queue as nat) + " · Link peers "@ + decimal(c.peers as nat)
}

/// A line that says that something is not known yet.
pub open spec fn waiting(t: Map<Seq<char>, Seq<char>>, english: Seq<char>) -> PaneRowView {
    text_row(translated(t, english) + "…"@)
}

/// The row of the output devices.
pub open spec fn output_row(
    d: Option<AudioDevicesView>,
    t: Map<Seq<char>, Seq<char>>,
) -> PaneRowView {
    match d {
        Some(d) => PaneRowView {
            text: "Output ("@ + d.mode + " @ "@ + decimal_int(d.sample_rate as int) + "Hz)"@,
            buttons: choices(Choice::Output, d.devices, d.current_device),
        },
        None => waiting(t, "Output devices: waiting for the engine"@),
    }
}

/// The row of the input devices, with the one that turns input off.
pub open spec fn input_row(
    d: Option<AudioInputDevicesView>,
    t: Map<Seq<char>, Seq<char>>,
) -> PaneRowView {
    match d {
        Some(d) => PaneRowView {
            text: translated(t, "Input"@),
            buttons: choices(Choice::Input, d.devices, d.current_device).push(
                button(translated(t, "Disable input"@), Emphasis::Outline, Action::DisableInput),
            ),
        },
        None => waiting(t, "Input devices: waiting for the engine"@),
    }
}

/// The row of the audio drivers.
pub open spec fn driver_row(
    d: Option<AudioDriversView>,
    t: Map<Seq<char>, Seq<char>>,
) -> PaneRowView {
    match d {
        Some(d) => PaneRowView {
            text: translated(t, "Audio driver"@) + " ("@ + d.current + ")"@,
            buttons: choices(Choice::Driver, d.drivers, d.current),
        },
        None => waiting(t, "Audio driver: waiting for the engine"@),
    }
}

/// The row of the MIDI settings.
pub open spec fn midi_row(v: SettingsView, t: Map<Seq<char>, Seq<char>>) -> PaneRowView {
    PaneRowView {
        text: translated(t, "Default channel"@) + " "@ + v.midi_channel,
        buttons: seq![
            switch(Setting::MidiEnabled, v, t),
            button("−"@, Emphasis::Outline, Action::ChannelDown),
            button("+"@, Emphasis::Outline, Action::ChannelUp),
        ],
    }
}

/// A row of switches.
pub open spec fn switch_row(buttons: Seq<ButtonView>) -> PaneRowView {
    PaneRowView { text: ""@, buttons }
}

/// The rows of the settings pane.
pub open spec fn settings_rows(
    v: AppView,
    t: Map<Seq<char>, Seq<char>>,
    tempo: Option<Seq<char>>,
    counts: Option<EngineCounts>,
    themes: Seq<Seq<char>>,
    theme: Seq<char>,
    langs: Seq<Seq<char>>,
) -> Seq<PaneRowView> {
    let s = v.settings;
    let head = seq![tempo_row(tempo, t)];
    let engine = match counts {
        Some(c) => head.push(text_row(counts_text(c))),
        None => head,
    };
    engine.push(output_row(v.out_devices, t)).push(input_row(v.in_devices, t)).push(
        driver_row(v.drivers, t),
    ).push(
        switch_row(
            seq![switch(Setting::InvertStereo, s, t), switch(Setting::ForceMono, s, t)],
        ),
    ).push(midi_row(s, t)).push(
        switch_row(
            seq![switch(Setting::CueServer, s, t), switch(Setting::CueExternal, s, t)],
        ),
    ).push(
        switch_row(
            seq![
                switch(Setting::SafeMode, s, t),
                switch(Setting::TimingGuarantees, s, t),
                switch(Setting::ExternalSynths, s, t),
            ],
        ),
    ).push(
        PaneRowView {
            text: translated(t, "Theme"@),
            buttons: choices(Choice::Theme, themes, theme),
        },
    ).push(
        PaneRowView {
            text: translated(t, "Language"@),
            buttons: choices(Choice::Lang, langs, s.lang),
        },
    )
}

fn push_tempo(rows: &mut Vec<PaneRow>, tempo: Option<&str>, i18n: &I18n)
    ensures
        pane_views(final(rows)@) == pane_views(old(rows)@).push(
            tempo_row(optional_str(tempo), i18n.table@),
        ),
{
    let mut text: String = String::from_str(i18n.tr("Tempo"));
    match tempo {
        Some(b) => {
            text.append(" ");
            text.append(b);
            text.append(" BPM");
        },
        None => {
            text.append(" (");
            text.append(i18n.tr("waiting for engine"));
            text.append(")");
        },
    }
    let mut buttons: Vec<Button> = Vec::new();
    assert(button_views(buttons@) =~= seq![]);
    push_button(&mut buttons, String::from_str("−5"), "", Emphasis::Outline, Action::TempoDown);
    push_button(&mut buttons, String::from_str("+5"), "", Emphasis::Outline, Action::TempoUp);
    push_button(&mut buttons, String::from_str("Tap"), "", Emphasis::Outline, Action::TempoTap);
    assert(button_views(buttons@) =~= tempo_row(optional_str(tempo), i18n.table@).buttons);
    push_row(rows, text, buttons);
}

fn counts_line(c: EngineCounts) -> (r: String)
    ensures
        r@ == counts_text(c),
{
    let callbacks: String = nat_text(c.callbacks as u64);
    let messages: String = nat_text(c.messages as u64);
    let queue: String = nat_text(c.queue as u64);
    let peers: String = nat_text(c.peers as u64);
    let mut t: String = String::from_str("engine: ");
    t.append(callbacks.as_str());
    t.append(" callbacks · ");
    t.append(messages.as_str());
    t.append(" msgs · queue ");
    t.append(queue.as_str());
    t.append(" · Link peers ");
    t.append(peers.as_str());
    t
}

fn push_waiting(rows: &mut Vec<PaneRow>, english: &str, i18n: &I18n)
    ensures
        pane_views(final(rows)@) == pane_views(old(rows)@).push(
            waiting(i18n.table@, english@),
        ),
{
    push_text(rows, String::from_str(i18n.tr(english)).concat("…"));
}

fn push_outputs(rows: &mut Vec<PaneRow>, d: &Option<AudioDevicesInfo>, i18n: &I18n)
    ensures
        pane_views(final(rows)@) == pane_views(old(rows)@).push(
            output_row(
                match d {
                    Some(x) => Some(x@),
                    None => None,
                },
                i18n.table@,
            ),
        ),
{
    match d {
        Some(d) => {
            let rate: String = int_text(d.sample_rate as i64);
            let mut text: String = String::from_str("Output (");
            text.append(d.mode.as_str());
            text.append(" @ ");
            text.append(rate.as_str());
            text.append("Hz)");
            let buttons: Vec<Button> = choice_buttons(
                Choice::Output,
                &d.devices,
                d.current_device.as_str(),
            );
            push_row(rows, text, buttons);
        },
        None => push_waiting(rows, "Output devices: waiting for the engine", i18n),
    }
}

fn push_inputs(rows: &mut Vec<PaneRow>, d: &Option<AudioInputDevicesInfo>, i18n: &I18n)
    ensures
        pane_views(final(rows)@) == pane_views(old(rows)@).push(
            input_row(
                match d {
                    Some(x) => Some(x@),
                    None => None,
                },
                i18n.table@,
            ),
        ),
{
    match d {
        Some(d) => {
            let mut buttons: Vec<Button> = choice_buttons(
                Choice::Input,
                &d.devices,
                d.current_device.as_str(),
            );
            push_button(
                &mut buttons,
                String::from_str(i18n.tr("Disable input")),
                "",
                Emphasis::Outline,
                Action::DisableInput,
            );
            push_row(rows, String::from_str(i18n.tr("Input")), buttons);
        },
        None => push_waiting(rows, "Input devices: waiting for the engine", i18n),
    }
}

fn push_drivers(rows: &mut Vec<PaneRow>, d: &Option<AudioDriversInfo>, i18n: &I18n)
    ensures
        pane_views(final(rows)@) == pane_views(old(rows)@).push(
            driver_row(
                match d {
                    Some(x) => Some(x@),
                    None => None,
                },
                i18n.table@,
            ),
        ),
{
    match d {
        Some(d) => {
            let mut text: String = String::from_str(i18n.tr("Audio driver"));
            text.append(" (");
            text.append(d.current.as_str());
            text.append(")");
            let buttons: Vec<Button> = choice_buttons(
                Choice::Driver,
                &d.drivers,
                d.current.as_str(),
            );
            push_row(rows, text, buttons);
        },
        None => push_waiting(rows, "Audio driver: waiting for the engine", i18n),
    }
}

fn push_midi(rows: &mut Vec<PaneRow>, settings: &Settings, i18n: &I18n)
    ensures
        pane_views(final(rows)@) == pane_views(old(rows)@).push(
            midi_row(settings@, i18n.table@),
        ),
{
    let mut text: String = String::from_str(i18n.tr("Default channel"));
    text.append(" ");
    text.append(settings.midi_channel.as_str());
    let mut buttons: Vec<Button> = Vec::new();
    assert(button_views(buttons@) =~= seq![]);
    push_switch(&mut buttons, Setting::MidiEnabled, settings, i18n);
    push_button(&mut buttons, String::from_str("−"), "", Emphasis::Outline, Action::ChannelDown);
    push_button(&mut buttons, String::from_str("+"), "", Emphasis::Outline, Action::ChannelUp);
    assert(button_views(buttons@) =~= midi_row(settings@, i18n.table@).buttons);
    push_row(rows, text, buttons);
}

fn two_switches(a: Setting, b: Setting, settings: &Settings, i18n: &I18n) -> (r: Vec<Button>)
    ensures
        button_views(r@) == seq![
            switch(a, settings@, i18n.table@),
            switch(b, settings@, i18n.table@),
        ],
{
    let mut buttons: Vec<Button> = Vec::new();
    assert(button_views(buttons@) =~= seq![]);
    push_switch(&mut buttons, a, settings, i18n);
    push_switch(&mut buttons, b, settings, i18n);
    buttons
}

impl App {
    /// The rows of the settings pane: the tempo, what the engine counts, the audio
    /// devices and drivers, the switches, the themes and the languages. `tempo` is
    /// how the tempo is written, if the engine tells it.
    pub fn settings_pane(
        &self,
        i18n: &I18n,
        tempo: Option<&str>,
        counts: Option<EngineCounts>,
        themes: &Vec<String>,
        theme: &str,
        langs: &Vec<String>,
    ) -> (r: Vec<PaneRow>)
        ensures
            pane_views(r@) == settings_rows(
                self@,
                i18n.table@,
                optional_str(tempo),
                counts,
                string_views(themes@),
                theme@,
                string_views(langs@),
            ),
    {
        let s: &Settings = &self.settings;
        let mut rows: Vec<PaneRow> = Vec::new();
        assert(pane_views(rows@) =~= seq![]);
        push_tempo(&mut rows, tempo, i18n);
        match counts {
            Some(c) => push_text(&mut rows, counts_line(c)),
            None => {},
        }
        push_outputs(&mut rows, &self.out_devices, i18n);
        push_inputs(&mut rows, &self.in_devices, i18n);
        push_drivers(&mut rows, &self.drivers, i18n);
        let mixer: Vec<Button> = two_switches(Setting::InvertStereo, Setting::ForceMono, s, i18n);
        push_row(&mut rows, String::from_str(""), mixer);
        push_midi(&mut rows, s, i18n);
        let cues: Vec<Button> = two_switches(Setting::CueServer, Setting::CueExternal, s, i18n);
        push_row(&mut rows, String::from_str(""), cues);
        let mut runs: Vec<Button> = two_switches(
            Setting::SafeMode,
            Setting::TimingGuarantees,
            s,
            i18n,
        );
        push_switch(&mut runs, Setting::ExternalSynths, s, i18n);
        assert(button_views(runs@) =~= seq![
            switch(Setting::SafeMode, s@, i18n.table@),
            switch(Setting::TimingGuarantees, s@, i18n.table@),
            switch(Setting::ExternalSynths, s@, i18n.table@),
        ]);
        push_row(&mut rows, String::from_str(""), runs);
        let theme_buttons: Vec<Button> = choice_buttons(Choice::Theme, themes, theme);
        push_row(&mut rows, String::from_str(i18n.tr("Theme")), theme_buttons);
        let lang_buttons: Vec<Button> = choice_buttons(Choice::Lang, langs, s.lang.as_str());
        push_row(&mut rows, String::from_str(i18n.tr("Language")), lang_buttons);
        rows
    }
}

} // verus!
