//! What the commands do and ask for: the messages that leave, argument by argument,
//! and the part of the state that each command is about.

use crate::log::RowView;
use crate::number::{decimal, law_decimal_reads_back};
use crate::osc::{ArgView, OscMessageView};
use crate::ports::PortId;
use crate::session::{OutgoingView, Session};
use crate::ui::backend::{token_of, Backend, Runtime};
use crate::ui::files::SaveTargetView;
use crate::ui::scope::{Scope, ScopeMode};
use crate::ui::state::{
    after_cmd, after_record, after_run, after_stop, cmd_effects, record_effects, run_code_of,
    run_effects, save_effects, stop_effects, AppView, Cmd, Desk, EffectView, Panes,
};
use vstd::prelude::*;

verus! {

/// A session speaks with the token of its handshake, and the stand-in with its own.
pub proof fn law_each_backend_has_its_token(session: Session, runtime: Runtime, token: i32)
    ensures
        token_of(Backend::Real { session, runtime }) == session.ports.token,
        token_of(Backend::Loopback { token }) == token,
{
}

/// A run clears the marks of the last one and sends one message to Spider: the
/// token, then the id of the buffer that is shown, then the code, then the id again.
/// The code ends with the text of the buffer.
pub proof fn law_run_names_the_shown_buffer(v: AppView, text: Seq<char>)
    ensures
        ({
            let e = run_effects(v, text);
            let id = ArgView::Text("buffer"@ + decimal(v.active as nat));
            &&& e.len() == 2
            &&& e[0] == EffectView::ClearUnderlines
            &&& e[1] matches EffectView::Send(o) && {
                &&& o.to == PortId::GuiSendToSpider
                &&& !o.from_listener
                &&& o.message.addr == "/save-and-run-buffer"@
                &&& o.message.args.len() == 4
                &&& o.message.args[0] == ArgView::Int(
                    match v.backend {
                        Backend::Real { session, .. } => session.ports.token,
                        Backend::Loopback { token } => token,
                    },
                )
                &&& o.message.args[1] == id
                &&& o.message.args[2] matches ArgView::Text(code) && code.len() >= text.len()
                    && code.skip(code.len() - text.len()) == text
                &&& o.message.args[3] == id
            }
        }),
{
    let e = run_effects(v, text);
    let code = run_code_of(v.settings, text);
    assert(e[1]->Send_0.message.args[2] == ArgView::Text(code));
    assert(code.skip(code.len() - text.len()) =~= text);
}

/// Runs of two buffers carry two ids, and a run of one buffer carries one id,
/// whatever else has changed.
pub proof fn law_buffers_run_under_their_own_ids(
    v: AppView,
    w: AppView,
    one: Seq<char>,
    other: Seq<char>,
)
    ensures
        (run_effects(v, one)[1]->Send_0.message.args[1] == run_effects(
            w,
            other,
        )[1]->Send_0.message.args[1]) <==> v.active == w.active,
{
    law_run_names_the_shown_buffer(v, one);
    law_run_names_the_shown_buffer(w, other);
    law_decimal_reads_back(v.active as nat);
    law_decimal_reads_back(w.active as nat);
    reveal_strlit("buffer");
    let a = "buffer"@ + decimal(v.active as nat);
    let b = "buffer"@ + decimal(w.active as nat);
    assert(a.skip(6) =~= decimal(v.active as nat));
    assert(b.skip(6) =~= decimal(w.active as nat));
}

/// The code of a run is the text of the buffer under lines of its own: the channel
/// first, and the switches that are on behind it, each under its own name.
pub proof fn law_run_code_carries_the_settings(v: AppView, text: Seq<char>)
    ensures
        ({
            let nosave = " #__nosave__ set by Sonic Oxide user preferences.\n"@;
            let s = v.settings;
            run_code_of(s, text) == "use_midi_defaults channel: \""@ + s.midi_channel + "\""@
                + nosave + (if s.timing_guarantees {
                "use_timing_guarantees true"@ + nosave
            } else {
                seq![]
            }) + (if s.external_synths {
                "use_external_synths true"@ + nosave
            } else {
                seq![]
            }) + (if s.safe_mode {
                "use_arg_checks true"@ + nosave
            } else {
                seq![]
            }) + text
        }),
{
    let none = Seq::<char>::empty();
    let nosave = " #__nosave__ set by Sonic Oxide user preferences.\n"@;
    let s = v.settings;
    let a = "use_midi_defaults channel: \""@ + s.midi_channel + "\""@ + nosave;
    let b = a + if s.timing_guarantees {
        "use_timing_guarantees true"@ + nosave
    } else {
        none
    };
    let c = b + if s.external_synths {
        "use_external_synths true"@ + nosave
    } else {
        none
    };
    assert(a + none =~= a);
    assert(b + none =~= b);
    assert(c + none =~= c);
}

/// After a run the program plays and the button flashes at full brightness; the log
/// has one more row, which gives the number of the buffer as it is shown, counted
/// from one. Nothing else has changed.
pub proof fn law_run_is_logged(v: AppView)
    ensures
        after_run(v) == (AppView {
            playing: true,
            flash: 100,
            log: v.log.push(
                RowView {
                    run: None,
                    error: false,
                    indent: false,
                    debug: false,
                    text: "→ Run sent (buffer "@ + decimal((v.active + 1) as nat) + ")"@,
                },
            ),
            ..v
        }),
{
}

/// A stop sends one message to Spider that carries the token and nothing else. After
/// it nothing plays and its button flashes.
pub proof fn law_stop_stops_everything(v: AppView)
    ensures
        stop_effects(v) == seq![
            EffectView::Send(
                OutgoingView {
                    to: PortId::GuiSendToSpider,
                    from_listener: false,
                    message: OscMessageView {
                        addr: "/stop-all-jobs"@,
                        args: seq![
                            ArgView::Int(
                                match v.backend {
                                    Backend::Real { session, .. } => session.ports.token,
                                    Backend::Loopback { token } => token,
                                },
                            ),
                        ],
                    },
                },
            ),
        ],
        after_stop(v) == (AppView {
            playing: false,
            stop_flash: 100,
            log: v.log.push(
                RowView {
                    run: None,
                    error: false,
                    indent: false,
                    debug: false,
                    text: "→ Stop sent"@,
                },
            ),
            ..v
        }),
{
}

/// A recording is made in the directory `recordings` of the store, under a name that
/// tells the time, as a wave file of 24 bits; the engine is told the path that the
/// state remembers. Without an engine only the directory is made.
pub proof fn law_recording_starts(v: AppView, store_dir: Seq<char>, clock: u64)
    requires
        v.recording is None,
        store_dir.len() > 0 && store_dir.last() != '/',
    ensures
        ({
            let dir = store_dir + "/recordings"@;
            let path = dir + "/rec-"@ + decimal(clock as nat) + ".wav"@;
            let e = record_effects(v, store_dir, clock);
            &&& after_record(v, store_dir, clock).recording == Some(path)
            &&& e.len() > 0 && e[0] == EffectView::MakeDir(dir)
            &&& match v.backend {
                Backend::Real { .. } => e.len() == 2 && e[1] == EffectView::Send(
                    OutgoingView {
                        to: PortId::Scsynth,
                        from_listener: false,
                        message: OscMessageView {
                            addr: "/supersonic/record/start"@,
                            args: seq![
                                ArgView::Text(path),
                                ArgView::Text("wav"@),
                                ArgView::Int(24),
                            ],
                        },
                    },
                ),
                Backend::Loopback { .. } => e.len() == 1,
            }
        }),
{
    reveal_strlit("recordings");
    reveal_strlit("/recordings");
    reveal_strlit("rec-");
    reveal_strlit("/rec-");
    reveal_strlit(".wav");
    let dir = store_dir + "/recordings"@;
    assert(store_dir.push('/') + "recordings"@ =~= dir);
    let name = "rec-"@ + decimal(clock as nat) + ".wav"@;
    assert(name[0] == 'r');
    assert(dir.last() == 's');
    assert(dir.push('/') + name =~= dir + "/rec-"@ + decimal(clock as nat) + ".wav"@);
}

/// Recordings that start at two times go to two files.
pub proof fn law_recordings_do_not_collide(
    v: AppView,
    w: AppView,
    store_dir: Seq<char>,
    one: u64,
    other: u64,
)
    requires
        v.recording is None,
        w.recording is None,
        store_dir.len() > 0 && store_dir.last() != '/',
        one != other,
    ensures
        after_record(v, store_dir, one).recording != after_record(
            w,
            store_dir,
            other,
        ).recording,
{
    law_recording_starts(v, store_dir, one);
    law_recording_starts(w, store_dir, other);
    reveal_strlit(".wav");
    law_decimal_reads_back(one as nat);
    law_decimal_reads_back(other as nat);
    let head = store_dir + "/recordings"@ + "/rec-"@;
    let a = head + decimal(one as nat) + ".wav"@;
    let b = head + decimal(other as nat) + ".wav"@;
    assert(a.subrange(head.len() as int, a.len() - 4) =~= decimal(one as nat));
    assert(b.subrange(head.len() as int, b.len() - 4) =~= decimal(other as nat));
}

/// A recording that runs is stopped by one message to the engine that carries
/// nothing, and is then forgotten.
pub proof fn law_recording_stops(v: AppView, store_dir: Seq<char>, clock: u64)
    requires
        v.recording is Some,
    ensures
        after_record(v, store_dir, clock).recording is None,
        match v.backend {
            Backend::Real { .. } => record_effects(v, store_dir, clock) == seq![
                EffectView::Send(
                    OutgoingView {
                        to: PortId::Scsynth,
                        from_listener: false,
                        message: OscMessageView {
                            addr: "/supersonic/record/stop"@,
                            args: seq![],
                        },
                    },
                ),
            ],
            Backend::Loopback { .. } => record_effects(v, store_dir, clock).len() == 0,
        },
{
}

/// What a recording changes: the file it goes to, and one row of the log that names
/// the file.
pub proof fn law_recording_is_logged(v: AppView, store_dir: Seq<char>, clock: u64)
    ensures
        ({
            let w = after_record(v, store_dir, clock);
            &&& w == (AppView { recording: w.recording, log: w.log, ..v })
            &&& w.recording is Some <==> v.recording is None
            &&& w.log == v.log.push(
                RowView {
                    run: None,
                    error: false,
                    indent: false,
                    debug: false,
                    text: if v.recording is Some {
                        "→ Recording saved: "@ + v.recording->0
                    } else {
                        "→ Recording to "@ + w.recording->0
                    },
                },
            )
        }),
{
}

/// Each command that shows or hides something changes that and nothing else.
pub proof fn law_each_command_has_its_own_pane(v: AppView, dir: Seq<char>, clock: u64)
    ensures
        after_cmd(v, Cmd::Settings, dir, clock) == (AppView {
            panes: Panes { settings_open: !v.panes.settings_open, ..v.panes },
            ..v
        }),
        after_cmd(v, Cmd::Help, dir, clock) == (AppView {
            panes: Panes { help_open: !v.panes.help_open, ..v.panes },
            ..v
        }),
        after_cmd(v, Cmd::Debug, dir, clock) == (AppView {
            panes: Panes { show_debug: !v.panes.show_debug, ..v.panes },
            ..v
        }),
        after_cmd(v, Cmd::Nodes, dir, clock) == (AppView {
            panes: Panes { nodes_open: !v.panes.nodes_open, node_version: 0, ..v.panes },
            ..v
        }),
        after_cmd(v, Cmd::Tutorial, dir, clock) == (AppView {
            panes: Panes {
                tutorial_open: !v.panes.tutorial_open,
                content_loaded: v.panes.content_loaded || !v.panes.tutorial_open,
                ..v.panes
            },
            ..v
        }),
        after_cmd(v, Cmd::ScopePause, dir, clock) == (AppView {
            scope: Scope { running: !v.scope.running, ..v.scope },
            ..v
        }),
        after_cmd(v, Cmd::Open, dir, clock) == v,
        after_cmd(v, Cmd::Save, dir, clock) == v,
        after_cmd(v, Cmd::Comment, dir, clock) == v,
        after_cmd(v, Cmd::Align, dir, clock) == v,
{
}

/// The scope's modes follow each other in one order, from one trace to the spectrum
/// and back.
pub proof fn law_scope_modes_in_order(v: AppView, dir: Seq<char>, clock: u64)
    ensures
        ({
            let w = after_cmd(v, Cmd::ScopeMode, dir, clock);
            &&& w == (AppView { scope: Scope { mode: w.scope.mode, ..v.scope }, ..v })
            &&& v.scope.mode == ScopeMode::Mono ==> w.scope.mode == ScopeMode::Stereo
            &&& v.scope.mode == ScopeMode::Stereo ==> w.scope.mode == ScopeMode::Mirror
            &&& v.scope.mode == ScopeMode::Mirror ==> w.scope.mode == ScopeMode::Lissajous
            &&& v.scope.mode == ScopeMode::Lissajous ==> w.scope.mode == ScopeMode::Spectrum
            &&& v.scope.mode == ScopeMode::Spectrum ==> w.scope.mode == ScopeMode::Mono
        }),
{
}

/// Running, stopping and recording by command are what they are by themselves; the
/// commands that only show something ask for nothing.
pub proof fn law_commands_ask_for_what_they_name(v: AppView, d: Desk)
    ensures
        cmd_effects(v, Cmd::Run, d) == run_effects(v, d.text@),
        cmd_effects(v, Cmd::Stop, d) == stop_effects(v),
        cmd_effects(v, Cmd::Rec, d) == record_effects(v, d.store_dir@, d.clock),
        after_cmd(v, Cmd::Run, d.store_dir@, d.clock) == after_run(v),
        after_cmd(v, Cmd::Stop, d.store_dir@, d.clock) == after_stop(v),
        after_cmd(v, Cmd::Rec, d.store_dir@, d.clock) == after_record(v, d.store_dir@, d.clock),
        cmd_effects(v, Cmd::Open, d) == seq![EffectView::AskForFile],
        cmd_effects(v, Cmd::Settings, d).len() == 0,
        cmd_effects(v, Cmd::Help, d).len() == 0,
        cmd_effects(v, Cmd::Nodes, d).len() == 0,
        cmd_effects(v, Cmd::Debug, d).len() == 0,
        cmd_effects(v, Cmd::ScopePause, d).len() == 0,
        cmd_effects(v, Cmd::ScopeMode, d).len() == 0,
{
}

/// The tutorial is read from the two directories above the program's own the first
/// time it is shown, and never again.
pub proof fn law_tutorial_is_read_once(v: AppView, d: Desk, dir: Seq<char>, clock: u64)
    requires
        !v.panes.tutorial_open,
        !v.panes.content_loaded,
        d.app_root@.len() > 0 && d.app_root@.last() != '/',
    ensures
        cmd_effects(v, Cmd::Tutorial, d) == seq![
            EffectView::LoadContent {
                chapters: d.app_root@ + "/../etc/doc/tutorial"@,
                examples: d.app_root@ + "/../etc/examples"@,
            },
        ],
        ({
            let w = after_cmd(v, Cmd::Tutorial, dir, clock);
            let again = after_cmd(w, Cmd::Tutorial, dir, clock);
            &&& w.panes.content_loaded
            &&& again.panes.content_loaded
            &&& cmd_effects(w, Cmd::Tutorial, d).len() == 0
            &&& cmd_effects(again, Cmd::Tutorial, d).len() == 0
        }),
{
    reveal_strlit("../etc/doc/tutorial");
    reveal_strlit("/../etc/doc/tutorial");
    reveal_strlit("../etc/examples");
    reveal_strlit("/../etc/examples");
    assert(d.app_root@.push('/') + "../etc/doc/tutorial"@ =~= d.app_root@
        + "/../etc/doc/tutorial"@);
    assert(d.app_root@.push('/') + "../etc/examples"@ =~= d.app_root@ + "/../etc/examples"@);
}

/// A save is of the buffer that is shown. It goes to the file that the buffer came
/// from; where there is none it is asked for, and the name that is suggested gives
/// the number of the buffer as it is shown.
pub proof fn law_save_is_of_the_shown_buffer(v: AppView, home: Option<Seq<char>>)
    requires
        0 <= v.active < v.files.paths.len(),
    ensures
        ({
            let e = save_effects(v, false, home);
            &&& e.len() == 1
            &&& e[0] matches EffectView::Save { buffer, target } && {
                &&& buffer == v.active
                &&& match v.files.paths[v.active as int] {
                    Some(p) => target == SaveTargetView::Write(p),
                    None => target == (SaveTargetView::Ask {
                        dir: match home {
                            Some(h) => h,
                            None => "."@,
                        },
                        name: "buffer-"@ + decimal((v.active + 1) as nat) + ".rb"@,
                    }),
                }
            }
            &&& save_effects(v, true, home)[0] matches EffectView::Save { buffer, target } && buffer
                == v.active && target is Ask
        }),
{
}

} // verus!
