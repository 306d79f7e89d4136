//! The state of the program, and what commands, events and ticks do to it.

use crate::client::{
    AudioDevicesInfo, AudioDevicesView, AudioDriversInfo, AudioDriversView, AudioInputDevicesInfo,
    AudioInputDevicesView,
};
use crate::editor::comment::{toggle_comment, toggled};
use crate::editor::indent::{reindent, reindented};
use crate::log::{info_row, row_views, LogLine, RowView};
use crate::number::{decimal, nat_text};
use crate::pathname::{join_path, path_join};
use crate::protocol::out;
use crate::session::{to_engine, to_spider, Outgoing, OutgoingView};
use crate::table::Table;
use crate::text::{same_text, string_views};
use crate::ui::backend::{token_of, Backend};
use crate::ui::files::{
    files_of, optional_str, optional_text, target_of, Files, FilesView, SaveTarget, SaveTargetView,
    BUFFER_COUNT,
};
use crate::ui::run::preamble;
use crate::ui::scope::{fresh_scope, mode_after, Scope};
use crate::ui::settings::{settings_of, Settings, SettingsView};
use crate::utf8::chars_within;
use std::ops::Range;
use vstd::prelude::*;
use vstd::string::*;

verus! {

/// The commands of the header, whichever way they are given: by mouse, by key or
/// by assistive technology.
#[derive(Debug, Clone, Copy, PartialEq, Eq, Structural)]
pub enum Cmd {
    Run,
    Stop,
    Rec,
    Open,
    Save,
    Comment,
    Align,
    ScopePause,
    ScopeMode,
    Settings,
    Help,
    Tutorial,
    Nodes,
    Debug,
}

/// How many ticks lie between two saves of the workspace: about five seconds.
pub const AUTOSAVE_TICKS: u32 = 150;

/// How many rows the log keeps.
pub const LOG_ROWS: usize = 200;

/// A fresh press, in hundredths of its full brightness.
pub const FLASH_FULL: u32 = 100;

/// How much of a press fades in a tick.
pub const FLASH_FADE: u32 = 6;

/// How bright a press has to be for its button to pulse.
pub const FLASH_PULSE: u32 = 55;

/// Which panes are open.
#[derive(Debug, Clone, Copy, PartialEq, Eq, Structural)]
pub struct Panes {
    pub settings_open: bool,
    pub help_open: bool,
    pub tutorial_open: bool,
    pub nodes_open: bool,
    /// Whether the log shows engine internals.
    pub show_debug: bool,
    /// Whether the tutorial's content has been loaded.
    pub content_loaded: bool,
    /// The version of the node list that is shown.
    pub node_version: u32,
}

impl Panes {
    /// The panes after a command.
    pub fn after(self, cmd: Cmd) -> (r: Panes)
        ensures
            r == panes_after(self, cmd),
    {
        match cmd {
            Cmd::Settings => Panes { settings_open: !self.settings_open, ..self },
            Cmd::Help => Panes { help_open: !self.help_open, ..self },
            Cmd::Tutorial => Panes {
                tutorial_open: !self.tutorial_open,
                content_loaded: self.content_loaded || !self.tutorial_open,
                ..self
            },
            Cmd::Nodes => Panes { nodes_open: !self.nodes_open, node_version: 0, ..self },
            Cmd::Debug => Panes { show_debug: !self.show_debug, ..self },
            _ => self,
        }
    }
}

fn scope_command(s: Scope, cmd: Cmd) -> (r: Scope)
    ensures
        r == scope_after(s, cmd),
{
    match cmd {
        Cmd::ScopePause => Scope { running: !s.running, ..s },
        Cmd::ScopeMode => Scope { mode: s.mode.next(), ..s },
        _ => s,
    }
}

/// Something for the surrounding program to do.
pub enum Effect {
    Send(Outgoing),
    /// Write all buffers to the workspace.
    SaveWorkspace,
    /// Mark a line of the active buffer as the place of an error.
    Underline { line: u32, text: String },
    /// Take the error marks off the active buffer.
    ClearUnderlines,
    /// Give the active buffer a new text.
    SetText(String),
    /// Ask for a file to open.
    AskForFile,
    Save { buffer: usize, target: SaveTarget },
    /// Read the tutorial chapters and the examples.
    LoadContent { chapters: String, examples: String },
    MakeDir(String),
}

#[verifier::ext_equal]
pub enum EffectView {
    Send(OutgoingView),
    SaveWorkspace,
    Underline { line: u32, text: Seq<char> },
    ClearUnderlines,
    SetText(Seq<char>),
    AskForFile,
    Save { buffer: usize, target: SaveTargetView },
    LoadContent { chapters: Seq<char>, examples: Seq<char> },
    MakeDir(Seq<char>),
}

impl View for Effect {
    type V = EffectView;

    open spec fn view(&self) -> EffectView {
        match self {
            Effect::Send(m) => EffectView::Send(m@),
            Effect::SaveWorkspace => EffectView::SaveWorkspace,
            Effect::Underline { line, text } => EffectView::Underline { line: *line, text: text@ },
            Effect::ClearUnderlines => EffectView::ClearUnderlines,
            Effect::SetText(t) => EffectView::SetText(t@),
            Effect::AskForFile => EffectView::AskForFile,
            Effect::Save { buffer, target } => EffectView::Save {
                buffer: *buffer,
                target: target@,
            },
            Effect::LoadContent { chapters, examples } => EffectView::LoadContent {
                chapters: chapters@,
                examples: examples@,
            },
            Effect::MakeDir(d) => EffectView::MakeDir(d@),
        }
    }
}

pub open spec fn effect_views(v: Seq<Effect>) -> Seq<EffectView> {
    Seq::new(v.len(), |i: int| v[i]@)
}

/// The state of the program.
pub struct App {
    pub files: Files,
    /// The buffer that is shown.
    pub active: usize,
    pub backend: Backend,
    pub settings: Settings,
    pub panes: Panes,
    pub scope: Scope,
    /// Whether a run has been sent that is not known to be over.
    pub playing: bool,
    /// What is left of the last press of Run.
    pub flash: u32,
    /// What is left of the last press of Stop.
    pub stop_flash: u32,
    /// Ticks to the next save of the workspace.
    pub autosave_in: u32,
    pub log: Vec<LogLine>,
    /// Cues that are not in their pane yet.
    pub pending_cues: Vec<String>,
    /// Whether a cue has ever come in.
    pub cues_live: bool,
    pub out_devices: Option<AudioDevicesInfo>,
    pub in_devices: Option<AudioInputDevicesInfo>,
    pub drivers: Option<AudioDriversInfo>,
    /// The file that is being recorded to.
    pub recording: Option<String>,
}

#[verifier::ext_equal]
pub struct AppView {
    pub files: FilesView,
    pub active: usize,
    pub backend: Backend,
    pub settings: SettingsView,
    pub panes: Panes,
    pub scope: Scope,
    pub playing: bool,
    pub flash: u32,
    pub stop_flash: u32,
    pub autosave_in: u32,
    pub log: Seq<RowView>,
    pub pending_cues: Seq<Seq<char>>,
    pub cues_live: bool,
    pub out_devices: Option<AudioDevicesView>,
    pub in_devices: Option<AudioInputDevicesView>,
    pub drivers: Option<AudioDriversView>,
    pub recording: Option<Seq<char>>,
}

impl View for App {
    type V = AppView;

    open spec fn view(&self) -> AppView {
        AppView {
            files: self.files@,
            active: self.active,
            backend: self.backend,
            settings: self.settings@,
            panes: self.panes,
            scope: self.scope,
            playing: self.playing,
            flash: self.flash,
            stop_flash: self.stop_flash,
            autosave_in: self.autosave_in,
            log: row_views(self.log@),
            pending_cues: string_views(self.pending_cues@),
            cues_live: self.cues_live,
            out_devices: match self.out_devices {
                Some(d) => Some(d@),
                None => None,
            },
            in_devices: match self.in_devices {
                Some(d) => Some(d@),
                None => None,
            },
            drivers: match self.drivers {
                Some(d) => Some(d@),
                None => None,
            },
            recording: optional_text(self.recording),
        }
    }
}

/// Whether a state is one that the program can be in: all buffers have a place for
/// their file, and the active buffer is one of them.
pub open spec fn valid(v: AppView) -> bool {
    v.files.paths.len() == BUFFER_COUNT && v.active < BUFFER_COUNT
}

/// The state at the start: what the preferences hold, and the line that says how
/// the runtime was reached.
pub open spec fn first_state(
    prefs: Map<Seq<char>, Seq<char>>,
    detected: Seq<char>,
    backend: Backend,
    status: Seq<char>,
) -> AppView {
    AppView {
        files: files_of(prefs, BUFFER_COUNT as int),
        active: 0,
        backend,
        settings: settings_of(prefs, detected),
        panes: Panes {
            settings_open: false,
            help_open: false,
            tutorial_open: false,
            nodes_open: false,
            show_debug: false,
            content_loaded: false,
            node_version: 0,
        },
        scope: fresh_scope(),
        playing: false,
        flash: 0,
        stop_flash: 0,
        autosave_in: AUTOSAVE_TICKS,
        log: seq![info_row(status)],
        pending_cues: seq![],
        cues_live: false,
        out_devices: None,
        in_devices: None,
        drivers: None,
        recording: None,
    }
}

/// The state with a row more in the log.
pub open spec fn logged(v: AppView, row: RowView) -> AppView {
    AppView { log: v.log.push(row), ..v }
}

/// The number of a buffer as it is shown.
pub open spec fn shown_number(i: int) -> Seq<char> {
    decimal((i + 1) as nat)
}

/// The state after the active buffer was sent off.
pub open spec fn after_run(v: AppView) -> AppView {
    logged(
        AppView { flash: FLASH_FULL, playing: true, ..v },
        info_row("→ Run sent (buffer "@ + shown_number(v.active as int) + ")"@),
    )
}

/// The code of a run, with the preamble of the settings.
pub open spec fn run_code_of(s: SettingsView, text: Seq<char>) -> Seq<char> {
    preamble(s.safe_mode, s.external_synths, s.timing_guarantees, s.midi_channel) + text
}

/// What a run asks for: the marks of the last one go, and the code is sent.
pub open spec fn run_effects(v: AppView, text: Seq<char>) -> Seq<EffectView> {
    seq![
        EffectView::ClearUnderlines,
        EffectView::Send(
            to_spider(
                out::run_buffer_message(
                    token_of(v.backend),
                    "buffer"@ + decimal(v.active as nat),
                    run_code_of(v.settings, text),
                ),
            ),
        ),
    ]
}

/// The state after everything was told to stop.
pub open spec fn after_stop(v: AppView) -> AppView {
    logged(
        AppView { playing: false, stop_flash: FLASH_FULL, ..v },
        info_row("→ Stop sent"@),
    )
}

/// What a stop asks for.
pub open spec fn stop_effects(v: AppView) -> Seq<EffectView> {
    seq![EffectView::Send(to_spider(out::stop_all_jobs_message(token_of(v.backend))))]
}

/// The file of a recording that starts at `clock` seconds.
pub open spec fn recording_path(store_dir: Seq<char>, clock: u64) -> Seq<char> {
    path_join(path_join(store_dir, "recordings"@), "rec-"@ + decimal(clock as nat) + ".wav"@)
}

/// A message to the engine, where there is one.
pub open spec fn engine_effect(b: Backend, m: OutgoingView) -> Seq<EffectView> {
    match b {
        Backend::Real { .. } => seq![EffectView::Send(m)],
        Backend::Loopback { .. } => seq![],
    }
}

/// The state after recording was started or stopped.
pub open spec fn after_record(v: AppView, store_dir: Seq<char>, clock: u64) -> AppView {
    match v.recording {
        Some(p) => logged(
            AppView { recording: None, ..v },
            info_row("→ Recording saved: "@ + p),
        ),
        None => {
            let p = recording_path(store_dir, clock);
            logged(AppView { recording: Some(p), ..v }, info_row("→ Recording to "@ + p))
        },
    }
}

/// What starting or stopping a recording asks for.
pub open spec fn record_effects(v: AppView, store_dir: Seq<char>, clock: u64) -> Seq<EffectView> {
    match v.recording {
        Some(_) => engine_effect(v.backend, to_engine(out::record_stop_message())),
        None => seq![EffectView::MakeDir(path_join(store_dir, "recordings"@))] + engine_effect(
            v.backend,
            to_engine(
                out::record_start_message(recording_path(store_dir, clock), "wav"@, 24),
            ),
        ),
    }
}

/// What toggling comments asks for: a new text, unless nothing changes.
pub open spec fn comment_effects(text: Seq<char>, from: int, to: int) -> Seq<EffectView> {
    let end = if to < from {
        from
    } else {
        to
    };
    match toggled(text, chars_within(text, from), chars_within(text, end)) {
        Some(t) => seq![EffectView::SetText(t)],
        None => seq![],
    }
}

/// What indenting asks for: a new text, unless nothing changes.
pub open spec fn align_effects(text: Seq<char>) -> Seq<EffectView> {
    if reindented(text) != text {
        seq![EffectView::SetText(reindented(text))]
    } else {
        seq![]
    }
}

/// What the editor and the environment hold when a command is given.
pub struct Desk<'a> {
    /// The text of the active buffer.
    pub text: &'a str,
    /// Its selection, in bytes.
    pub selection: Range<usize>,
    pub home: Option<&'a str>,
    pub store_dir: &'a str,
    pub app_root: &'a str,
    /// The time in seconds.
    pub clock: u64,
}

/// The panes after a command.
pub open spec fn panes_after(p: Panes, cmd: Cmd) -> Panes {
    match cmd {
        Cmd::Settings => Panes { settings_open: !p.settings_open, ..p },
        Cmd::Help => Panes { help_open: !p.help_open, ..p },
        Cmd::Tutorial => Panes {
            tutorial_open: !p.tutorial_open,
            content_loaded: p.content_loaded || !p.tutorial_open,
            ..p
        },
        Cmd::Nodes => Panes { nodes_open: !p.nodes_open, node_version: 0, ..p },
        Cmd::Debug => Panes { show_debug: !p.show_debug, ..p },
        _ => p,
    }
}

/// The scope after a command.
pub open spec fn scope_after(s: Scope, cmd: Cmd) -> Scope {
    match cmd {
        Cmd::ScopePause => Scope { running: !s.running, ..s },
        Cmd::ScopeMode => Scope { mode: mode_after(s.mode), ..s },
        _ => s,
    }
}

/// The state after a command.
pub open spec fn after_cmd(v: AppView, cmd: Cmd, store_dir: Seq<char>, clock: u64) -> AppView {
    match cmd {
        Cmd::Run => after_run(v),
        Cmd::Stop => after_stop(v),
        Cmd::Rec => after_record(v, store_dir, clock),
        _ => AppView { panes: panes_after(v.panes, cmd), scope: scope_after(v.scope, cmd), ..v },
    }
}

/// A command that opens a pane, pauses the scope or shows more of the log undoes
/// itself when it is given again.
pub proof fn law_commands_undo_themselves(v: AppView, cmd: Cmd, store_dir: Seq<char>, clock: u64)
    requires
        cmd == Cmd::Settings || cmd == Cmd::Help || cmd == Cmd::Tutorial || cmd == Cmd::Nodes || cmd
            == Cmd::Debug || cmd == Cmd::ScopePause,
    ensures
        ({
            let w = after_cmd(after_cmd(v, cmd, store_dir, clock), cmd, store_dir, clock);
            &&& w.scope == v.scope
            &&& w.panes == (Panes {
                content_loaded: v.panes.content_loaded || cmd == Cmd::Tutorial,
                node_version: if cmd == Cmd::Nodes {
                    0
                } else {
                    v.panes.node_version
                },
                ..v.panes
            })
            &&& w == (AppView { panes: w.panes, scope: w.scope, ..v })
        }),
{
}

/// A recording that was started ends with the next command, at the path it was
/// started with.
pub proof fn law_recording_ends_where_it_began(
    v: AppView,
    dir: Seq<char>,
    clock: u64,
    other_dir: Seq<char>,
    later: u64,
)
    requires
        v.recording is None,
    ensures
        ({
            let on = after_record(v, dir, clock);
            let off = after_record(on, other_dir, later);
            &&& on.recording == Some(recording_path(dir, clock))
            &&& off.recording is None
            &&& off.log.last() == info_row(
                "→ Recording saved: "@ + recording_path(dir, clock),
            )
        }),
{
}

/// What a command asks for.
pub open spec fn cmd_effects(v: AppView, cmd: Cmd, d: Desk) -> Seq<EffectView> {
    match cmd {
        Cmd::Run => run_effects(v, d.text@),
        Cmd::Stop => stop_effects(v),
        Cmd::Rec => record_effects(v, d.store_dir@, d.clock),
        Cmd::Open => seq![EffectView::AskForFile],
        Cmd::Save => save_effects(v, false, optional_str(d.home)),
        Cmd::Comment => comment_effects(
            d.text@,
            d.selection.start as int,
            d.selection.end as int,
        ),
        Cmd::Align => align_effects(d.text@),
        Cmd::Tutorial => if !v.panes.tutorial_open && !v.panes.content_loaded {
            seq![
                EffectView::LoadContent {
                    chapters: path_join(d.app_root@, "../etc/doc/tutorial"@),
                    examples: path_join(d.app_root@, "../etc/examples"@),
                },
            ]
        } else {
            seq![]
        },
        _ => seq![],
    }
}

/// What a save asks for.
pub open spec fn save_effects(v: AppView, save_as: bool, home: Option<Seq<char>>) -> Seq<
    EffectView,
> {
    seq![
        EffectView::Save {
            buffer: v.active,
            target: target_of(v.files.paths[v.active as int], v.active as int, save_as, home),
        },
    ]
}

fn no_effects() -> (r: Vec<Effect>)
    ensures
        effect_views(r@) == Seq::<EffectView>::empty(),
{
    let v: Vec<Effect> = Vec::new();
    assert(effect_views(v@) =~= Seq::<EffectView>::empty());
    v
}

fn one_effect(e: Effect) -> (r: Vec<Effect>)
    ensures
        effect_views(r@) == seq![e@],
{
    let mut v: Vec<Effect> = Vec::new();
    v.push(e);
    assert(effect_views(v@) =~= seq![e@]);
    v
}

fn push_send(v: &mut Vec<Effect>, m: Option<Outgoing>)
    ensures
        effect_views(final(v)@) == effect_views(old(v)@) + (match m {
            Some(x) => seq![EffectView::Send(x@)],
            None => seq![],
        }),
{
    let ghost before = effect_views(v@);
    match m {
        Some(x) => {
            v.push(Effect::Send(x));
            assert(effect_views(v@) =~= before + seq![EffectView::Send(x@)]);
        },
        None => {
            assert(before + Seq::<EffectView>::empty() =~= before);
        },
    }
}

impl App {
    /// The state at the start.
    pub fn new(prefs: &Table, detected_lang: &str, backend: Backend, status: String) -> (r: App)
        ensures
            r@ == first_state(prefs@, detected_lang@, backend, status@),
            valid(r@),
    {
        let mut log: Vec<LogLine> = Vec::new();
        log.push(LogLine::info(status));
        let r: App = App {
            files: Files::load(prefs, BUFFER_COUNT),
            active: 0,
            backend,
            settings: Settings::load(prefs, detected_lang),
            panes: Panes {
                settings_open: false,
                help_open: false,
                tutorial_open: false,
                nodes_open: false,
                show_debug: false,
                content_loaded: false,
                node_version: 0,
            },
            scope: Scope::new(),
            playing: false,
            flash: 0,
            stop_flash: 0,
            autosave_in: AUTOSAVE_TICKS,
            log,
            pending_cues: Vec::new(),
            cues_live: false,
            out_devices: None,
            in_devices: None,
            drivers: None,
            recording: None,
        };
        assert(r@.log =~= seq![info_row(status@)]);
        assert(r@.pending_cues =~= seq![]);
        r
    }

    /// Adds a row to the log.
    pub fn push_log(&mut self, row: LogLine)
        ensures
            final(self)@ == logged(old(self)@, row@),
    {
        let ghost before = self@;
        self.log.push(row);
        assert(self@.log =~= before.log.push(row@));
        assert(self@ =~= logged(before, row@));
    }

    /// Runs the active buffer, whose text is `text`.
    pub fn run_active(&mut self, text: &str) -> (r: Vec<Effect>)
        requires
            valid(old(self)@),
        ensures
            final(self)@ == after_run(old(self)@),
            effect_views(r@) == run_effects(old(self)@, text@),
    {
        let code: String = self.settings.run_code(text);
        let number: String = nat_text(self.active as u64);
        let name: String = String::from_str("buffer").concat(number.as_str());
        let mut effects: Vec<Effect> = Vec::new();
        effects.push(Effect::ClearUnderlines);
        effects.push(Effect::Send(self.backend.run(name.as_str(), code.as_str())));
        assert(effect_views(effects@) =~= run_effects(self@, text@));
        self.flash = FLASH_FULL;
        self.playing = true;
        let mut t: String = String::from_str("→ Run sent (buffer ");
        let shown: String = nat_text((self.active + 1) as u64);
        t.append(shown.as_str());
        t.append(")");
        self.push_log(LogLine::info(t));
        effects
    }

    /// Stops all runs.
    pub fn stop_all(&mut self) -> (r: Vec<Effect>)
        ensures
            final(self)@ == after_stop(old(self)@),
            effect_views(r@) == stop_effects(old(self)@),
    {
        let effects: Vec<Effect> = one_effect(Effect::Send(self.backend.stop()));
        self.playing = false;
        self.stop_flash = FLASH_FULL;
        self.push_log(LogLine::info(String::from_str("→ Stop sent")));
        effects
    }

    /// Starts a recording, or stops the one that runs.
    pub fn toggle_record(&mut self, store_dir: &str, clock: u64) -> (r: Vec<Effect>)
        ensures
            final(self)@ == after_record(old(self)@, store_dir@, clock),
            effect_views(r@) == record_effects(old(self)@, store_dir@, clock),
    {
        let mut effects: Vec<Effect> = no_effects();
        let was: Option<String> = self.recording.take();
        match was {
            Some(path) => {
                push_send(&mut effects, self.backend.record_stop());
                assert(effect_views(effects@) =~= engine_effect(
                    self.backend,
                    to_engine(out::record_stop_message()),
                ));
                let t: String = String::from_str("→ Recording saved: ").concat(path.as_str());
                self.push_log(LogLine::info(t));
            },
            None => {
                let dir: String = join_path(store_dir, "recordings");
                let mut name: String = String::from_str("rec-");
                let stamp: String = nat_text(clock);
                name.append(stamp.as_str());
                name.append(".wav");
                let path: String = join_path(dir.as_str(), name.as_str());
                effects.push(Effect::MakeDir(dir));
                push_send(&mut effects, self.backend.record_start(path.as_str()));
                assert(effect_views(effects@) =~= record_effects(old(self)@, store_dir@, clock));
                let t: String = String::from_str("→ Recording to ").concat(path.as_str());
                self.recording = Some(path);
                self.push_log(LogLine::info(t));
            },
        }
        effects
    }

    /// Saves the active buffer.
    pub fn save_file(&self, save_as: bool, home: Option<&str>) -> (r: Vec<Effect>)
        requires
            valid(self@),
        ensures
            effect_views(r@) == save_effects(self@, save_as, optional_str(home)),
    {
        let target: SaveTarget = self.files.save_target(self.active, save_as, home);
        one_effect(Effect::Save { buffer: self.active, target })
    }

    /// Comments the selected lines of `text` in or out.
    pub fn comment_active(&self, text: &str, selection: Range<usize>) -> (r: Vec<Effect>)
        ensures
            effect_views(r@) == comment_effects(
                text@,
                selection.start as int,
                selection.end as int,
            ),
    {
        match toggle_comment(text, selection) {
            Some(t) => one_effect(Effect::SetText(t)),
            None => no_effects(),
        }
    }

    /// Indents the active buffer, whose text is `text`.
    pub fn align_active(&self, text: &str) -> (r: Vec<Effect>)
        ensures
            effect_views(r@) == align_effects(text@),
    {
        let aligned: String = reindent(text);
        if same_text(aligned.as_str(), text) {
            no_effects()
        } else {
            one_effect(Effect::SetText(aligned))
        }
    }

    /// Carries out a command of the header.
    pub fn dispatch(&mut self, cmd: Cmd, desk: Desk) -> (r: Vec<Effect>)
        requires
            valid(old(self)@),
        ensures
            final(self)@ == after_cmd(old(self)@, cmd, desk.store_dir@, desk.clock),
            effect_views(r@) == cmd_effects(old(self)@, cmd, desk),
            valid(final(self)@),
    {
        match cmd {
            Cmd::Run => self.run_active(desk.text),
            Cmd::Stop => self.stop_all(),
            Cmd::Rec => self.toggle_record(desk.store_dir, desk.clock),
            Cmd::Open => one_effect(Effect::AskForFile),
            Cmd::Save => self.save_file(false, desk.home),
            Cmd::Comment => self.comment_active(desk.text, desk.selection),
            Cmd::Align => self.align_active(desk.text),
            _ => {
                let effects: Vec<Effect> = match cmd {
                    Cmd::Tutorial => if !self.panes.tutorial_open && !self.panes.content_loaded {
                        one_effect(
                            Effect::LoadContent {
                                chapters: join_path(desk.app_root, "../etc/doc/tutorial"),
                                examples: join_path(desk.app_root, "../etc/examples"),
                            },
                        )
                    } else {
                        no_effects()
                    },
                    _ => no_effects(),
                };
                self.panes = self.panes.after(cmd);
                self.scope = scope_command(self.scope, cmd);
                effects
            },
        }
    }
}

} // verus!
