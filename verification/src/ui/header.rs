//! The header: what it says and which buttons it has.

use crate::i18n::{translated, I18n};
use crate::number::{decimal, nat_text};
use crate::ui::scope::mode_label;
use crate::ui::state::{App, AppView, Cmd, FLASH_PULSE};
use crate::ui::widgets::{button, button_views, push_button, Action, Button, ButtonView, Emphasis};
use vstd::prelude::*;
use vstd::string::*;

verus! {

/// The buttons of the header. A press pulses for a while; apart from that Stop
/// stands out while something plays, and Rec while something is recorded.
pub open spec fn header_buttons(
    v: AppView,
    t: Map<Seq<char>, Seq<char>>,
    dark: bool,
) -> Seq<ButtonView> {
    let cmd = |label: Seq<char>, hint: Seq<char>, style: Emphasis, c: Cmd|
        (ButtonView { label, hint: translated(t, hint), style, action: Action::Do(c) });
    seq![
        cmd(
            translated(t, "Run"@) + " ▶"@,
            "Run the current buffer"@,
            if v.flash > FLASH_PULSE {
                Emphasis::Success
            } else {
                Emphasis::Primary
            },
            Cmd::Run,
        ),
        cmd(
            translated(t, "Stop"@) + " ■"@,
            "Stop all runs"@,
            if v.stop_flash > FLASH_PULSE {
                Emphasis::Warning
            } else if v.playing {
                Emphasis::Danger
            } else {
                Emphasis::Outline
            },
            Cmd::Stop,
        ),
        cmd(
            "⏺ "@ + translated(t, "Rec"@),
            "Toggle recording"@,
            if v.recording is Some {
                Emphasis::Danger
            } else {
                Emphasis::Outline
            },
            Cmd::Rec,
        ),
        cmd("📂"@, "Open a file into the current buffer"@, Emphasis::Plain, Cmd::Open),
        cmd("💾"@, "Save the current buffer to a file"@, Emphasis::Plain, Cmd::Save),
        cmd("#"@, "Toggle comment on selection"@, Emphasis::Plain, Cmd::Comment),
        cmd(
            "⇥ "@ + translated(t, "Align"@),
            "Align buffer indentation"@,
            Emphasis::Plain,
            Cmd::Align,
        ),
        cmd(
            if v.scope.running {
                "Scope ⏸"@
            } else {
                "Scope ▶"@
            },
            "Pause or resume the scope"@,
            Emphasis::Plain,
            Cmd::ScopePause,
        ),
        cmd(
            "〰 "@ + mode_label(v.scope.mode),
            "Cycle scope display mode"@,
            Emphasis::Plain,
            Cmd::ScopeMode,
        ),
        button(
            if dark {
                "☀"@
            } else {
                "☾"@
            },
            Emphasis::Plain,
            Action::SwitchTheme,
        ),
        cmd("⚙"@, "Toggle settings pane"@, Emphasis::Plain, Cmd::Settings),
        cmd("📖"@, "Toggle tutorial pane"@, Emphasis::Plain, Cmd::Tutorial),
        cmd("?"@, "Toggle help pane"@, Emphasis::Plain, Cmd::Help),
        cmd("♪"@, "Toggle node tree pane"@, Emphasis::Plain, Cmd::Nodes),
        cmd(
            "Dbg"@,
            "Toggle debug log rows"@,
            if v.panes.show_debug {
                Emphasis::Primary
            } else {
                Emphasis::Plain
            },
            Cmd::Debug,
        ),
        button("–"@, Emphasis::Plain, Action::Minimize),
        button("□"@, Emphasis::Plain, Action::Maximize),
        button("✕"@, Emphasis::Plain, Action::Close),
    ]
}

/// The line that says whether something plays.
pub open spec fn play_state(playing: bool, t: Map<Seq<char>, Seq<char>>) -> Seq<char> {
    if playing {
        "● "@ + translated(t, "playing"@)
    } else {
        "○ "@ + translated(t, "idle"@)
    }
}

fn cmd_button(v: &mut Vec<Button>, label: String, hint: &str, style: Emphasis, c: Cmd, i18n: &I18n)
    ensures
        button_views(final(v)@) == button_views(old(v)@).push(
            (ButtonView {
                label: label@,
                hint: translated(i18n.table@, hint@),
                style,
                action: Action::Do(c),
            }),
        ),
{
    push_button(v, label, i18n.tr(hint), style, Action::Do(c));
}

fn plain_cmd(v: &mut Vec<Button>, label: &str, hint: &str, c: Cmd, i18n: &I18n)
    ensures
        button_views(final(v)@) == button_views(old(v)@).push(
            (ButtonView {
                label: label@,
                hint: translated(i18n.table@, hint@),
                style: Emphasis::Plain,
                action: Action::Do(c),
            }),
        ),
{
    cmd_button(v, String::from_str(label), hint, Emphasis::Plain, c, i18n);
}

impl App {
    /// The buttons of the header.
    pub fn header(&self, i18n: &I18n, dark: bool) -> (r: Vec<Button>)
        ensures
            button_views(r@) == header_buttons(self@, i18n.table@, dark),
    {
        let mut v: Vec<Button> = Vec::new();
        assert(button_views(v@) =~= seq![]);
        let run: String = String::from_str(i18n.tr("Run")).concat(" ▶");
        let run_style: Emphasis = if self.flash > FLASH_PULSE {
            Emphasis::Success
        } else {
            Emphasis::Primary
        };
        cmd_button(&mut v, run, "Run the current buffer", run_style, Cmd::Run, i18n);
        let stop: String = String::from_str(i18n.tr("Stop")).concat(" ■");
        let stop_style: Emphasis = if self.stop_flash > FLASH_PULSE {
            Emphasis::Warning
        } else if self.playing {
            Emphasis::Danger
        } else {
            Emphasis::Outline
        };
        cmd_button(&mut v, stop, "Stop all runs", stop_style, Cmd::Stop, i18n);
        let rec: String = String::from_str("⏺ ").concat(i18n.tr("Rec"));
        let rec_style: Emphasis = if self.recording.is_some() {
            Emphasis::Danger
        } else {
            Emphasis::Outline
        };
        cmd_button(&mut v, rec, "Toggle recording", rec_style, Cmd::Rec, i18n);
        plain_cmd(&mut v, "📂", "Open a file into the current buffer", Cmd::Open, i18n);
        plain_cmd(&mut v, "💾", "Save the current buffer to a file", Cmd::Save, i18n);
        plain_cmd(&mut v, "#", "Toggle comment on selection", Cmd::Comment, i18n);
        let align: String = String::from_str("⇥ ").concat(i18n.tr("Align"));
        cmd_button(
            &mut v,
            align,
            "Align buffer indentation",
            Emphasis::Plain,
            Cmd::Align,
            i18n,
        );
        let pause: &str = if self.scope.running {
            "Scope ⏸"
        } else {
            "Scope ▶"
        };
        plain_cmd(&mut v, pause, "Pause or resume the scope", Cmd::ScopePause, i18n);
        let mode: String = String::from_str("〰 ").concat(self.scope.mode.label());
        cmd_button(
            &mut v,
            mode,
            "Cycle scope display mode",
            Emphasis::Plain,
            Cmd::ScopeMode,
            i18n,
        );
        let theme: &str = if dark {
            "☀"
        } else {
            "☾"
        };
        push_button(&mut v, String::from_str(theme), "", Emphasis::Plain, Action::SwitchTheme);
        plain_cmd(&mut v, "⚙", "Toggle settings pane", Cmd::Settings, i18n);
        plain_cmd(&mut v, "📖", "Toggle tutorial pane", Cmd::Tutorial, i18n);
        plain_cmd(&mut v, "?", "Toggle help pane", Cmd::Help, i18n);
        plain_cmd(&mut v, "♪", "Toggle node tree pane", Cmd::Nodes, i18n);
        let debug_style: Emphasis = if self.panes.show_debug {
            Emphasis::Primary
        } else {
            Emphasis::Plain
        };
        cmd_button(
            &mut v,
            String::from_str("Dbg"),
            "Toggle debug log rows",
            debug_style,
            Cmd::Debug,
            i18n,
        );
        push_button(&mut v, String::from_str("–"), "", Emphasis::Plain, Action::Minimize);
        push_button(&mut v, String::from_str("□"), "", Emphasis::Plain, Action::Maximize);
        push_button(&mut v, String::from_str("✕"), "", Emphasis::Plain, Action::Close);
        v
    }

    /// The line that says whether something plays.
    pub fn play_line(&self, i18n: &I18n) -> (r: String)
        ensures
            r@ == play_state(self@.playing, i18n.table@),
    {
        if self.playing {
            String::from_str("● ").concat(i18n.tr("playing"))
        } else {
            String::from_str("○ ").concat(i18n.tr("idle"))
        }
    }
}

/// The line with the tempo and the number of peers; `bpm` is how the tempo is
/// written.
pub fn metrics_line(bpm: &str, peers: u32) -> (r: String)
    ensures
        r@ == bpm@ + " BPM · Link "@ + decimal(peers as nat),
{
    let mut t: String = String::from_str(bpm);
    let n: String = nat_text(peers as u64);
    t.append(" BPM · Link ");
    t.append(n.as_str());
    t
}

} // verus!
