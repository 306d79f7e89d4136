//! What is shown of the state: which button does what, which of them stands out, and
//! what the rows of the panes say.

use crate::i18n::translated;
use crate::log::RowView;
use crate::number::{decimal, decimal_int};
use crate::text::{blank, join, lemma_join_first};
use crate::tutorial::{ChapterView, ExampleView};
use crate::ui::browse::{
    entry_rows, example_rows, excerpt, help_rows, hit_rows, options_text, tutorial_rows,
};
use crate::ui::header::{header_buttons, play_state};
use crate::ui::panels::{
    color_of, depth_of, is_open, log_copy_of, log_label_of, node_line_of, node_lines_of, parent_of,
    pane_hint, pane_order, pane_title, row_texts, shown_rows, tab_buttons, tab_rows, NodeView, PaneId, RowColor, MAX_DEPTH,
};
use crate::ui::backend::Backend;
use crate::ui::files::files_of;
use crate::ui::scope::{scope_label_of, scope_title_of, ScopeMode, ScopeSource};
use crate::ui::settings::{is_on, label_of, settings_of, Setting, SettingsView};
use crate::ui::settings_pane::{
    choices, counts_text, driver_row, input_row, midi_row, output_row, settings_rows, switch,
    tempo_row, Choice, EngineCounts,
};
use crate::ui::state::{first_state, AppView, Cmd, Panes};
use crate::ui::widgets::{Action, Emphasis};
use crate::ui::workspace::{first_text, seed_of};
use crate::vocab::{EntryView, OptView};
use vstd::prelude::*;
use vstd::string::*;

verus! {

/// The buttons of the header stand in one order, each with its own command.
pub proof fn law_header_has_every_command(v: AppView, t: Map<Seq<char>, Seq<char>>, dark: bool)
    ensures
        ({
            let b = header_buttons(v, t, dark);
            &&& b.len() == 18
            &&& b[0].action == Action::Do(Cmd::Run)
            &&& b[1].action == Action::Do(Cmd::Stop)
            &&& b[2].action == Action::Do(Cmd::Rec)
            &&& b[3].action == Action::Do(Cmd::Open)
            &&& b[4].action == Action::Do(Cmd::Save)
            &&& b[5].action == Action::Do(Cmd::Comment)
            &&& b[6].action == Action::Do(Cmd::Align)
            &&& b[7].action == Action::Do(Cmd::ScopePause)
            &&& b[8].action == Action::Do(Cmd::ScopeMode)
            &&& b[9].action == Action::SwitchTheme
            &&& b[10].action == Action::Do(Cmd::Settings)
            &&& b[11].action == Action::Do(Cmd::Tutorial)
            &&& b[12].action == Action::Do(Cmd::Help)
            &&& b[13].action == Action::Do(Cmd::Nodes)
            &&& b[14].action == Action::Do(Cmd::Debug)
            &&& b[15].action == Action::Minimize
            &&& b[16].action == Action::Maximize
            &&& b[17].action == Action::Close
        }),
{
}

/// Run and Stop pulse while a press of them is more than half bright. Apart from
/// that Stop stands out while something plays, Rec while something is recorded, and
/// the debug switch while it is on; nothing else ever does.
pub proof fn law_header_shows_the_state(v: AppView, t: Map<Seq<char>, Seq<char>>, dark: bool)
    ensures
        ({
            let b = header_buttons(v, t, dark);
            &&& b[0].style == if v.flash > 55 {
                Emphasis::Success
            } else {
                Emphasis::Primary
            }
            &&& b[1].style == if v.stop_flash > 55 {
                Emphasis::Warning
            } else if v.playing {
                Emphasis::Danger
            } else {
                Emphasis::Outline
            }
            &&& b[2].style == if v.recording is Some {
                Emphasis::Danger
            } else {
                Emphasis::Outline
            }
            &&& b[14].style == if v.panes.show_debug {
                Emphasis::Primary
            } else {
                Emphasis::Plain
            }
            &&& forall|i: int|
                3 <= i < 18 && i != 14 ==> (#[trigger] b[i]).style == Emphasis::Plain
        }),
{
}

/// What the buttons of the header say, in the language of the table, and what
/// assistive technology reads for them.
pub proof fn law_header_is_translated(v: AppView, t: Map<Seq<char>, Seq<char>>, dark: bool)
    ensures
        ({
            let b = header_buttons(v, t, dark);
            &&& b[0].label == translated(t, "Run"@) + " ▶"@
            &&& b[0].hint == translated(t, "Run the current buffer"@)
            &&& b[1].label == translated(t, "Stop"@) + " ■"@
            &&& b[1].hint == translated(t, "Stop all runs"@)
            &&& b[2].label == "⏺ "@ + translated(t, "Rec"@)
            &&& b[2].hint == translated(t, "Toggle recording"@)
            &&& b[3].hint == translated(t, "Open a file into the current buffer"@)
            &&& b[4].hint == translated(t, "Save the current buffer to a file"@)
            &&& b[5].hint == translated(t, "Toggle comment on selection"@)
            &&& b[6].label == "⇥ "@ + translated(t, "Align"@)
            &&& b[6].hint == translated(t, "Align buffer indentation"@)
            &&& b[7].label == if v.scope.running {
                "Scope ⏸"@
            } else {
                "Scope ▶"@
            }
            &&& b[7].hint == translated(t, "Pause or resume the scope"@)
            &&& b[8].hint == translated(t, "Cycle scope display mode"@)
            &&& b[9].label == if dark {
                "☀"@
            } else {
                "☾"@
            }
            &&& b[10].hint == translated(t, "Toggle settings pane"@)
            &&& b[11].hint == translated(t, "Toggle tutorial pane"@)
            &&& b[12].hint == translated(t, "Toggle help pane"@)
            &&& b[13].hint == translated(t, "Toggle node tree pane"@)
            &&& b[14].hint == translated(t, "Toggle debug log rows"@)
        }),
        play_state(true, t) == "● "@ + translated(t, "playing"@),
        play_state(false, t) == "○ "@ + translated(t, "idle"@),
{
}

/// There is a tab for every buffer, in order; it shows that buffer, and that of the
/// buffer that is shown stands out, and no other. A buffer without a file goes by its
/// number, counted from one.
pub proof fn law_each_buffer_has_its_tab(v: AppView, i: int)
    requires
        0 <= i < v.files.paths.len(),
    ensures
        ({
            let b = tab_buttons(v);
            &&& b.len() == v.files.paths.len()
            &&& b[i].action == Action::SelectBuffer(i as usize)
            &&& b[i].style == if i == v.active {
                Emphasis::Primary
            } else {
                Emphasis::Plain
            }
            &&& v.files.paths[i] is None ==> b[i].label == decimal((i + 1) as nat)
        }),
{
}

/// The recent files have a row of their own, in order, where there are any.
pub proof fn law_recent_files_have_a_row(v: AppView, t: Map<Seq<char>, Seq<char>>)
    ensures
        ({
            let rows = tab_rows(v, t);
            &&& rows[0].buttons == tab_buttons(v)
            &&& v.files.recent.len() == 0 ==> rows.len() == 1
            &&& v.files.recent.len() > 0 ==> {
                &&& rows.len() == 2
                &&& rows[1].text == translated(t, "Recent"@) + ":"@
                &&& rows[1].buttons.len() == v.files.recent.len()
                &&& forall|i: int|
                    0 <= i < v.files.recent.len() ==> (#[trigger] rows[1].buttons[i]).action
                        == Action::OpenRecent(i as usize)
            }
        }),
{
}

/// A row that comes to the log is shown below the others unless it is of engine
/// internals and those are hidden.
pub proof fn law_rows_are_shown_as_they_come(log: Seq<RowView>, row: RowView, debug: bool)
    ensures
        shown_rows(seq![], debug).len() == 0,
        shown_rows(log.push(row), debug) == if debug || !row.debug {
            shown_rows(log, debug).push(row)
        } else {
            shown_rows(log, debug)
        },
{
    reveal(Seq::filter);
    let f = |l: RowView| debug || !l.debug;
    assert(log.push(row).drop_last() =~= log);
    assert(log.push(row).last() == row);
}

/// With the debug switch on, the whole log is shown.
pub proof fn law_debug_shows_everything(log: Seq<RowView>)
    ensures
        shown_rows(log, true) == log,
    decreases log.len(),
{
    reveal(Seq::filter);
    if log.len() > 0 {
        law_debug_shows_everything(log.drop_last());
        assert(log.drop_last().push(log.last()) =~= log);
    } else {
        assert(shown_rows(log, true) =~= log);
    }
}

/// A copy of the log is the texts of the rows that are shown, each on its line,
/// oldest first.
pub proof fn law_log_is_copied_in_order(log: Seq<RowView>, row: RowView, debug: bool)
    requires
        debug || !row.debug,
    ensures
        shown_rows(log, debug).len() == 0 ==> log_copy_of(log.push(row), debug) == row.text,
        shown_rows(log, debug).len() > 0 ==> log_copy_of(log.push(row), debug) == log_copy_of(
            log,
            debug,
        ) + seq!['\n'] + row.text,
{
    reveal_strlit("\n");
    assert("\n"@ =~= seq!['\n']);
    law_rows_are_shown_as_they_come(log, row, debug);
    let before = shown_rows(log, debug);
    let after = shown_rows(log.push(row), debug);
    let a = before.map_values(|l: RowView| l.text);
    let b = after.map_values(|l: RowView| l.text);
    assert(b =~= a.push(row.text));
    assert(b.drop_last() =~= a);
}

/// An error has one colour whatever run it is of; the rows of a run have one of six,
/// and runs whose numbers lie six apart share it.
pub proof fn law_runs_share_six_colours(row: RowView, r: i32)
    requires
        1 <= r <= 0x7fff_fff9,
    ensures
        row.error ==> color_of(row) == RowColor::Error,
        !row.error && row.run is None ==> color_of(row) == RowColor::Plain,
        !row.error ==> color_of(RowView { run: Some(r), ..row }) == color_of(
            RowView { run: Some((r + 6) as i32), ..row },
        ),
        !row.error ==> color_of(RowView { run: Some(r), ..row }) is Run,
{
}

/// Two runs of which one follows the other are told apart by their colours.
pub proof fn law_neighbouring_runs_differ_in_colour(row: RowView, r: i32)
    requires
        1 <= r < 0x7fff_ffff,
        !row.error,
    ensures
        color_of(RowView { run: Some(r), ..row }) != color_of(
            RowView { run: Some((r + 1) as i32), ..row },
        ),
{
    let i = r as int % 6;
    let j = (r + 1) % 6;
    assert(j == i + 1 || (i == 5 && j == 0));
}

/// The parent of a node is the one of its latest entry.
pub proof fn law_latest_parent_counts(nodes: Seq<NodeView>, n: NodeView, id: i32)
    ensures
        parent_of(seq![], id) is None,
        parent_of(nodes.push(n), id) == if n.id == id {
            Some(n.parent_id)
        } else {
            parent_of(nodes, id)
        },
{
    assert(nodes.push(n).drop_last() =~= nodes);
}

proof fn lemma_depth_is_reached(nodes: Seq<NodeView>, id: i32, left: nat)
    ensures
        0 <= depth_of(nodes, id, left) <= left,
        depth_of(nodes, id, left) <= depth_of(nodes, id, left + 1) <= depth_of(nodes, id, left) + 1,
        depth_of(nodes, id, left) < left ==> depth_of(nodes, id, left + 1) == depth_of(
            nodes,
            id,
            left,
        ),
    decreases left,
{
    reveal_with_fuel(depth_of, 2);
    if left > 0 {
        match parent_of(nodes, id) {
            Some(p) => {
                if p >= 0 {
                    lemma_depth_is_reached(nodes, p, (left - 1) as nat);
                }
            },
            None => {},
        }
    }
}

/// A node stands two spaces further in than its parent, as long as the tree is not
/// too deep to show; a node without a parent stands at the margin.
pub proof fn law_nodes_stand_under_their_parents(nodes: Seq<NodeView>, id: i32)
    ensures
        MAX_DEPTH == 8,
        parent_of(nodes, id) is None ==> depth_of(nodes, id, 8) == 0,
        parent_of(nodes, id) matches Some(p) ==> {
            &&& p < 0 ==> depth_of(nodes, id, 8) == 0
            &&& p >= 0 && depth_of(nodes, p, 8) < 8 ==> depth_of(nodes, id, 8) == depth_of(
                nodes,
                p,
                8,
            ) + 1
            &&& p >= 0 && depth_of(nodes, p, 8) == 8 ==> depth_of(nodes, id, 8) == 8
        },
{
    match parent_of(nodes, id) {
        Some(p) => {
            if p >= 0 {
                lemma_depth_is_reached(nodes, p, 7);
            }
        },
        None => {},
    }
}

/// The line of a node is its indentation, the mark of a group or a synth, its name
/// and its number; the pane has one for every node, in order, under their count.
pub proof fn law_every_node_has_its_line(nodes: Seq<NodeView>, k: int)
    requires
        0 <= k < nodes.len(),
    ensures
        ({
            let ls = node_lines_of(Some(nodes));
            let n = nodes[k];
            &&& ls.len() == nodes.len() + 1
            &&& ls[0] == decimal(nodes.len()) + " node(s)"@
            &&& ls[k + 1] == Seq::new((2 * depth_of(nodes, n.id, 8)) as nat, |i: int| ' ') + (
            if n.is_group {
                "▸"@
            } else {
                "♪"@
            }) + " "@ + n.name + " ["@ + decimal_int(n.id as int) + "]"@
        }),
        node_lines_of(None) == seq!["Node tree: waiting for the engine…"@],
{
    let ls = node_lines_of(Some(nodes));
    let n = nodes[k];
    assert(ls[k + 1] == node_line_of(nodes, n));
}

/// A pane is open when its switch is, and the editor always; the panes beside it
/// stand in one order.
pub proof fn law_panes_go_by_their_switches(p: Panes)
    ensures
        is_open(p, PaneId::Editor),
        is_open(p, PaneId::Tutorial) == p.tutorial_open,
        is_open(p, PaneId::Nodes) == p.nodes_open,
        is_open(p, PaneId::Help) == p.help_open,
        is_open(p, PaneId::Settings) == p.settings_open,
        pane_order() == seq![PaneId::Tutorial, PaneId::Nodes, PaneId::Help, PaneId::Settings],
        pane_title(PaneId::Editor) == "Editor"@,
        pane_title(PaneId::Tutorial) == "Tutorial"@,
        pane_title(PaneId::Nodes) == "Nodes"@,
        pane_title(PaneId::Help) == "Help"@,
        pane_title(PaneId::Settings) == "Settings"@,
{
}

/// A choice has a button for every name, in order; it takes that name, and stands out
/// exactly when it is the current one.
pub proof fn law_choices_offer_every_name(
    c: Choice,
    names: Seq<Seq<char>>,
    current: Seq<char>,
    i: int,
)
    requires
        0 <= i < names.len(),
    ensures
        ({
            let b = choices(c, names, current);
            &&& b.len() == names.len()
            &&& b[i].label == names[i]
            &&& b[i].style == if names[i] == current {
                Emphasis::Primary
            } else {
                Emphasis::Outline
            }
            &&& c == Choice::Output ==> b[i].action == Action::UseOutput(i as usize)
            &&& c == Choice::Input ==> b[i].action == Action::UseInput(i as usize)
            &&& c == Choice::Driver ==> b[i].action == Action::UseDriver(i as usize)
            &&& c == Choice::Theme ==> b[i].action == Action::UseTheme(i as usize)
            &&& c == Choice::Lang ==> b[i].action == Action::UseLang(i as usize)
        }),
{
}

/// A switch shows whether its setting is on, and turns that setting.
pub proof fn law_switches_show_their_setting(
    s: Setting,
    v: SettingsView,
    t: Map<Seq<char>, Seq<char>>,
)
    ensures
        ({
            let b = switch(s, v, t);
            &&& b.action == Action::Toggle(s)
            &&& is_on(v, s) ==> b.label == "☑"@ + " "@ + translated(t, label_of(s)) && b.style
                == Emphasis::Primary
            &&& !is_on(v, s) ==> b.label == "☐"@ + " "@ + translated(t, label_of(s)) && b.style
                == Emphasis::Outline
        }),
{
}

/// The settings pane has its rows in one order, and a switch for every setting; the
/// row of what the engine counts is there when it is known.
pub proof fn law_settings_pane_has_every_setting(
    v: AppView,
    t: Map<Seq<char>, Seq<char>>,
    tempo: Option<Seq<char>>,
    counts: Option<EngineCounts>,
    themes: Seq<Seq<char>>,
    theme: Seq<char>,
    langs: Seq<Seq<char>>,
)
    ensures
        ({
            let rows = settings_rows(v, t, tempo, counts, themes, theme, langs);
            let k: int = if counts is Some {
                2
            } else {
                1
            };
            let s = v.settings;
            &&& rows.len() == k + 9
            &&& rows[0] == tempo_row(tempo, t)
            &&& counts matches Some(c) ==> rows[1].text == counts_text(c) && rows[1].buttons.len()
                == 0
            &&& rows[k] == output_row(v.out_devices, t)
            &&& rows[k + 1] == input_row(v.in_devices, t)
            &&& rows[k + 2] == driver_row(v.drivers, t)
            &&& rows[k + 3].buttons == seq![
                switch(Setting::InvertStereo, s, t),
                switch(Setting::ForceMono, s, t),
            ]
            &&& rows[k + 4] == midi_row(s, t)
            &&& rows[k + 4].buttons[0] == switch(Setting::MidiEnabled, s, t)
            &&& rows[k + 5].buttons == seq![
                switch(Setting::CueServer, s, t),
                switch(Setting::CueExternal, s, t),
            ]
            &&& rows[k + 6].buttons == seq![
                switch(Setting::SafeMode, s, t),
                switch(Setting::TimingGuarantees, s, t),
                switch(Setting::ExternalSynths, s, t),
            ]
            &&& rows[k + 7].buttons == choices(Choice::Theme, themes, theme)
            &&& rows[k + 7].text == translated(t, "Theme"@)
            &&& rows[k + 8].buttons == choices(Choice::Lang, langs, s.lang)
            &&& rows[k + 8].text == translated(t, "Language"@)
        }),
{
}

/// The rows of the devices say what is in use, or that it is not known yet; the one
/// of the inputs ends with the button that turns them off.
pub proof fn law_device_rows_offer_the_devices(v: AppView, t: Map<Seq<char>, Seq<char>>)
    ensures
        match v.out_devices {
            Some(d) => {
                &&& output_row(v.out_devices, t).text == "Output ("@ + d.mode + " @ "@
                    + decimal_int(d.sample_rate as int) + "Hz)"@
                &&& output_row(v.out_devices, t).buttons == choices(
                    Choice::Output,
                    d.devices,
                    d.current_device,
                )
            },
            None => output_row(None, t).buttons.len() == 0 && output_row(None, t).text
                == translated(t, "Output devices: waiting for the engine"@) + "…"@,
        },
        match v.in_devices {
            Some(d) => {
                let b = input_row(v.in_devices, t).buttons;
                &&& input_row(v.in_devices, t).text == translated(t, "Input"@)
                &&& b.len() == d.devices.len() + 1
                &&& b.drop_last() == choices(Choice::Input, d.devices, d.current_device)
                &&& b.last().action == Action::DisableInput
                &&& b.last().label == translated(t, "Disable input"@)
            },
            None => input_row(None, t).buttons.len() == 0 && input_row(None, t).text == translated(
                t,
                "Input devices: waiting for the engine"@,
            ) + "…"@,
        },
        match v.drivers {
            Some(d) => {
                &&& driver_row(v.drivers, t).text == translated(t, "Audio driver"@) + " ("@
                    + d.current + ")"@
                &&& driver_row(v.drivers, t).buttons == choices(
                    Choice::Driver,
                    d.drivers,
                    d.current,
                )
            },
            None => driver_row(None, t).buttons.len() == 0 && driver_row(None, t).text
                == translated(t, "Audio driver: waiting for the engine"@) + "…"@,
        },
{
    if let Some(d) = v.in_devices {
        assert(input_row(v.in_devices, t).buttons.drop_last() =~= choices(
            Choice::Input,
            d.devices,
            d.current_device,
        ));
    }
}

/// The tempo can be stepped down, stepped up and tapped; the channel can be stepped
/// down and up.
pub proof fn law_tempo_and_channel_can_be_stepped(
    v: SettingsView,
    tempo: Seq<char>,
    t: Map<Seq<char>, Seq<char>>,
)
    ensures
        tempo_row(Some(tempo), t).text == translated(t, "Tempo"@) + " "@ + tempo + " BPM"@,
        tempo_row(None, t).text == translated(t, "Tempo"@) + " ("@ + translated(
            t,
            "waiting for engine"@,
        ) + ")"@,
        forall|o: Option<Seq<char>>|
            (#[trigger] tempo_row(o, t)).buttons.len() == 3 && tempo_row(o, t).buttons[0].action
                == Action::TempoDown && tempo_row(o, t).buttons[1].action == Action::TempoUp
                && tempo_row(o, t).buttons[2].action == Action::TempoTap,
        midi_row(v, t).text == translated(t, "Default channel"@) + " "@ + v.midi_channel,
        midi_row(v, t).buttons.len() == 3,
        midi_row(v, t).buttons[1].action == Action::ChannelDown,
        midi_row(v, t).buttons[2].action == Action::ChannelUp,
{
}

/// The counts of the engine are shown each under its own name.
pub proof fn law_counts_are_named(c: EngineCounts)
    ensures
        counts_text(c) == "engine: "@ + decimal(c.callbacks as nat) + " callbacks · "@ + decimal(
            c.messages as nat,
        ) + " msgs · queue "@ + decimal(c.queue as nat) + " · Link peers "@ + decimal(
            c.peers as nat,
        ),
{
}

/// A hit has a button that shows it, with its name and its kind; the one that is
/// selected stands out.
pub proof fn law_each_hit_has_its_button(
    hits: Seq<EntryView>,
    query: Seq<char>,
    selected: Option<Seq<char>>,
    t: Map<Seq<char>, Seq<char>>,
    i: int,
)
    requires
        0 <= i < hits.len(),
    ensures
        ({
            let rows = hit_rows(hits, query, selected, t);
            &&& rows.len() == 1 && rows[0].text == ""@
            &&& rows[0].buttons.len() == hits.len()
            &&& rows[0].buttons[i].action == Action::ShowEntry(i as usize)
            &&& rows[0].buttons[i].label == hits[i].label + " ("@ + hits[i].kind.short_name() + ")"@
            &&& rows[0].buttons[i].style == if selected == Some(hits[i].label) {
                Emphasis::Primary
            } else {
                Emphasis::Outline
            }
        }),
{
}

/// A long document is shown up to its first twelve hundred characters, and then cut
/// off with an ellipsis; a shorter one is shown whole.
pub proof fn law_long_documents_are_cut(doc: Seq<char>)
    ensures
        doc.len() <= 1200 ==> excerpt(doc) == doc,
        doc.len() > 1200 ==> excerpt(doc).len() == 1201 && excerpt(doc).last() == '…' && excerpt(
            doc,
        ).take(1200) == doc.take(1200),
{
    if doc.len() > 1200 {
        assert(excerpt(doc).take(1200) =~= doc.take(1200));
    }
}

/// What is said of an entry: its name and kind, its summary, its document and its
/// options, each in a row of its own where the entry has it.
pub proof fn law_entry_is_described(e: EntryView)
    ensures
        ({
            let rows = entry_rows(e);
            let d: int = if e.doc.len() > 0 {
                1
            } else {
                0
            };
            let l: int = if e.long_doc.len() > 0 {
                1
            } else {
                0
            };
            let o: int = if e.opt_docs.len() > 0 {
                1
            } else {
                0
            };
            &&& rows.len() == 1 + d + l + o
            &&& rows[0].text == e.label + " — "@ + e.kind.short_name()
            &&& d == 1 ==> rows[1].text == e.doc
            &&& l == 1 ==> rows[1 + d].text == excerpt(e.long_doc)
            &&& o == 1 ==> rows[1 + d + l].text == options_text(e.opt_docs)
        }),
{
    law_long_documents_are_cut(e.long_doc);
}

/// Options stand in one line, each with its default, three spaces between two.
pub proof fn law_options_stand_in_a_line(opts: Seq<OptView>, o: OptView)
    ensures
        opts.len() == 0 ==> options_text(opts.push(o)) == o.name + seq![' '] + o.default,
        opts.len() > 0 ==> options_text(opts.push(o)) == options_text(opts) + seq![' ', ' ', ' ']
            + (o.name + seq![' '] + o.default),
{
    reveal_strlit(" ");
    reveal_strlit("   ");
    assert(" "@ =~= seq![' ']);
    assert("   "@ =~= seq![' ', ' ', ' ']);
    let f = |x: OptView| crate::ui::browse::option_text(x);
    let a = opts.map_values(f);
    let b = opts.push(o).map_values(f);
    assert(b =~= a.push(f(o)));
    assert(b.drop_last() =~= a);
}

/// The help pane shows the hits, and below them the entry that is selected.
pub proof fn law_help_shows_hits_and_entry(
    hits: Seq<EntryView>,
    e: EntryView,
    query: Seq<char>,
    selected: Option<Seq<char>>,
    t: Map<Seq<char>, Seq<char>>,
)
    ensures
        help_rows(hits, None, query, selected, t) == hit_rows(hits, query, selected, t),
        help_rows(hits, Some(e), query, selected, t) == hit_rows(hits, query, selected, t)
            + entry_rows(e),
{
    assert(help_rows(hits, None, query, selected, t) =~= hit_rows(hits, query, selected, t));
}

/// The tutorial lists every chapter in order, the one that is shown standing out, and
/// then the examples.
pub proof fn law_every_chapter_is_listed(
    chapters: Seq<ChapterView>,
    examples: Seq<ExampleView>,
    selected: Option<usize>,
    t: Map<Seq<char>, Seq<char>>,
    i: int,
)
    requires
        0 <= i < chapters.len() <= usize::MAX,
    ensures
        ({
            let rows = tutorial_rows(chapters, examples, selected, t);
            &&& rows.len() == chapters.len() + 1 + example_rows(examples).len()
            &&& rows[i].text == ""@ && rows[i].buttons.len() == 1
            &&& rows[i].buttons[0].label == chapters[i].title
            &&& rows[i].buttons[0].action == Action::ShowChapter(i as usize)
            &&& rows[i].buttons[0].style == if selected == Some(i as usize) {
                Emphasis::Primary
            } else {
                Emphasis::Faint
            }
            &&& rows[chapters.len() as int].text == translated(t, "Examples"@)
        }),
{
}

/// An example is listed behind those before it, under the name of its category where
/// that is a new one; its button loads it.
pub proof fn law_examples_stand_under_their_category(es: Seq<ExampleView>, e: ExampleView)
    ensures
        ({
            let before = example_rows(es);
            let rows = example_rows(es.push(e));
            let fresh = if es.len() > 0 {
                es.last().category != e.category
            } else {
                e.category.len() > 0
            };
            &&& rows.len() == before.len() + if fresh {
                2int
            } else {
                1
            }
            &&& rows.take(before.len() as int) == before
            &&& fresh ==> rows[before.len() as int].text == e.category
                && rows[before.len() as int].buttons.len() == 0
            &&& rows.last().text == ""@ && rows.last().buttons.len() == 1
            &&& rows.last().buttons[0].label == "♪ "@ + e.name
            &&& rows.last().buttons[0].action == Action::LoadExample(es.len() as usize)
        }),
{
    reveal_strlit("");
    assert(es.push(e).drop_last() =~= es);
    if es.len() == 0 && e.category.len() == 0 {
        assert(e.category =~= ""@);
    }
    assert(example_rows(es.push(e)).take(example_rows(es).len() as int) =~= example_rows(es));
}

/// A buffer starts with what was stored of it, even if that is empty; the buffers
/// behind the third are empty where nothing was stored.
pub proof fn law_stored_buffers_come_back(t: String, i: int)
    ensures
        first_text(Some(t), i) == t@,
        i >= 3 ==> first_text(None, i).len() == 0,
        first_text(None, i) == seed_of(i),
{
}

/// Assistive technology reads the log from its newest row back, sixteen rows at most;
/// a row that is not shown is not read.
pub proof fn law_log_is_read_newest_first(log: Seq<RowView>, row: RowView, debug: bool)
    ensures
        ({
            let n = shown_rows(log, debug).len();
            let label = log_label_of(log, debug);
            let next = log_label_of(log.push(row), debug);
            &&& row.debug && !debug ==> next == label
            &&& n == 0 && (debug || !row.debug) ==> next == "Run log. "@ + row.text
            &&& 1 <= n <= 15 && (debug || !row.debug) ==> next == "Run log. "@ + row.text + ". "@
                + label.skip(9)
            &&& n > 16 ==> label == log_label_of(
                shown_rows(log, debug).skip(n - 16),
                true,
            )
        }),
{
    reveal_strlit("Run log. ");
    let p = |l: RowView| debug || !l.debug;
    let rows = shown_rows(log, debug);
    let n = rows.len() as int;
    let label = log_label_of(log, debug);
    log.lemma_filter_push(row, p);
    if debug || !row.debug {
        let newer = rows.push(row);
        assert(newer.reverse() =~= seq![row] + rows.reverse());
        let texts = row_texts(seq![row] + rows.reverse());
        assert(texts.drop_first() =~= row_texts(rows.reverse()));
        if n == 0 {
            assert(texts =~= seq![row.text]);
            assert(join(texts, ". "@) == row.text);
        } else if n <= 15 {
            lemma_join_first(texts, ". "@);
            let tail = join(row_texts(rows.reverse()), ". "@);
            assert(label.skip(9) =~= tail);
            assert("Run log. "@ + (row.text + ". "@ + tail) =~= "Run log. "@ + row.text + ". "@
                + tail);
        }
    }
    if n > 16 {
        let last = rows.skip(n - 16);
        law_debug_shows_everything(last);
        assert(rows.reverse().take(16) =~= last.reverse());
    }
}

/// Every pane beside the editor says what it holds.
pub proof fn law_panes_say_what_they_hold()
    ensures
        pane_hint(PaneId::Editor) is None,
        pane_hint(PaneId::Tutorial) == Some("Tutorial and examples browser"@),
        pane_hint(PaneId::Nodes) == Some("Live synth node tree"@),
        pane_hint(PaneId::Help) == Some("Documentation search"@),
        pane_hint(PaneId::Settings) == Some("Audio settings"@),
{
}

/// The scope says whether it shows live sound.
pub proof fn law_scope_says_whether_it_is_live()
    ensures
        scope_label_of(true) == "Audio scope waveform (live)"@,
        scope_label_of(false) == "Audio scope waveform"@,
        scope_title_of(true) == "Scope · live (shm)"@,
        scope_title_of(false) == "Scope · demo"@,
{
}

/// The program starts on its first buffer with the files and settings that it
/// remembers, with nothing open or playing, with a running scope and with the
/// backend's status as the first row of the log.
pub proof fn law_program_starts_quiet(
    prefs: Map<Seq<char>, Seq<char>>,
    detected: Seq<char>,
    backend: Backend,
    status: Seq<char>,
)
    ensures
        ({
            let v = first_state(prefs, detected, backend, status);
            &&& v.active == 0 && v.files.paths.len() == 10
            &&& v.files == files_of(prefs, 10)
            &&& v.settings == settings_of(prefs, detected)
            &&& v.backend == backend
            &&& !v.panes.settings_open && !v.panes.help_open && !v.panes.tutorial_open
            &&& !v.panes.nodes_open && !v.panes.show_debug && !v.panes.content_loaded
            &&& v.scope.running && !v.scope.live && v.scope.mode == ScopeMode::Mono
            &&& v.scope.source == ScopeSource::Detached && v.scope.retry == 0
            &&& !v.playing && v.flash == 0 && v.stop_flash == 0
            &&& v.autosave_in == 150
            &&& v.log.len() == 1 && v.log[0].text == status && !v.log[0].error && !v.log[0].debug
            &&& v.pending_cues.len() == 0 && !v.cues_live
            &&& v.out_devices is None && v.in_devices is None && v.drivers is None
            &&& v.recording is None
        }),
{
}

/// A query that finds nothing says so; without a query nothing is said.
pub proof fn law_nothing_found_is_said(
    query: Seq<char>,
    selected: Option<Seq<char>>,
    t: Map<Seq<char>, Seq<char>>,
)
    ensures
        ({
            let rows = hit_rows(Seq::empty(), query, selected, t);
            &&& blank(query) ==> rows.len() == 0
            &&& !blank(query) ==> rows.len() == 1 && rows[0].text == translated(t, "No matches."@)
                && rows[0].buttons.len() == 0
        }),
{
}

/// The first three buffers start with an example each.
pub proof fn law_first_buffers_hold_examples()
    ensures
        seed_of(0)
            == "# Buffer 1 — drums\nlive_loop :drums do\n  sample :bd_haus, amp: 2\n  sleep 0.5\nend\n"@,
        seed_of(1)
            == "# Buffer 2 — bass\nlive_loop :bass do\n  use_synth :tb303\n  play :e1, release: 0.2, cutoff: 90\n  sleep 0.25\nend\n"@,
        seed_of(2) == "# Buffer 3 — sketch\nplay_chord [:c4, :e4, :g4]\n"@,
{
}

} // verus!
