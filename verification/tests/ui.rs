use sonic_oxide::client::{
    AudioDevicesInfo, AudioDriversInfo, AudioInputDevicesInfo, ClientEvent, CueInfo, MessageData,
    MessageInfo, MessageType, MidiInfo, MidiType, OscNumber, ScsynthInfo, StatusInfo, StatusType,
    VersionInfo,
};
use sonic_oxide::i18n::I18n;
use sonic_oxide::log::{log_lines_for, run_color, LogLine, RUN_PALETTE};
use sonic_oxide::osc::{OscMessage, OscType};
use sonic_oxide::ports::Ports;
use sonic_oxide::protocol::{addr, out, parse_incoming};
use sonic_oxide::session::Session;
use sonic_oxide::table::Table;
use sonic_oxide::tutorial::{Chapter, Example};
use sonic_oxide::ui::backend::{Attempt, Backend, Runtime};
use sonic_oxide::ui::browse::{help, tutorial_hint, tutorial_nav};
use sonic_oxide::ui::cues::{add_cues, cue_line, cue_time_parts, CUE_LINES};
use sonic_oxide::ui::files::{
    decode_recent, encode_recent, push_recent, suggested_save_name, SaveTarget, RECENT_CAP,
};
use sonic_oxide::ui::header::metrics_line;
use sonic_oxide::ui::loopback::spider_replies;
use sonic_oxide::ui::keys::{shortcut, Shortcut};
use sonic_oxide::ui::panels::{
    copy_all_label, cues_label, node_lines, open_panes, row_color, title_bar, Folds, NodeInfo,
    PaneId, RowColor,
};
use sonic_oxide::ui::run::{next_midi_channel, prev_midi_channel, run_preamble};
use sonic_oxide::ui::scope::{
    drawing, feed, right_channel, scope_label, scope_title, spectrum_rate, Drawing, ScopeMode, ScopeSource,
    ScopeStep, RETRY_TICKS,
};
use sonic_oxide::ui::settings::{Setting, Settings};
use sonic_oxide::ui::settings_pane::EngineCounts;
use sonic_oxide::ui::state::{App, Cmd, Desk, Effect, AUTOSAVE_TICKS, LOG_ROWS};
use sonic_oxide::ui::widgets::{Action, Emphasis};
use sonic_oxide::ui::workspace::{autoquit_secs, cues_example, initial_buffers};
use sonic_oxide::vocab::completion::{is_completion_trigger, ItemKind};
use sonic_oxide::vocab::{OptDoc, Vocab, VocabEntry, VocabKind};

#[test]
fn preamble_mirrors_qt_run_code() {
    let p = run_preamble(true, false, false, "*");
    let lines: Vec<&str> = p.lines().collect();
    assert_eq!(lines.len(), 2);
    assert!(lines[0].starts_with("use_midi_defaults channel: \"*\""));
    assert!(lines[1].starts_with("use_arg_checks true"));
    assert!(lines.iter().all(|l| l.contains("#__nosave__")));

    let p = run_preamble(true, true, true, "10");
    let lines: Vec<&str> = p.lines().collect();
    assert!(lines[0].contains("channel: \"10\""));
    assert!(lines[1].starts_with("use_timing_guarantees true"));
    assert!(lines[2].starts_with("use_external_synths true"));
    assert!(lines[3].starts_with("use_arg_checks true"));

    assert_eq!(run_preamble(false, false, false, "*").lines().count(), 1);
}

#[test]
fn recent_files_dedupe_cap_and_round_trip() {
    let mut recent = Vec::new();
    for i in 0..12 {
        recent = push_recent(recent, &format!("/tmp/file{i}.rb"));
    }
    assert_eq!(recent.len(), RECENT_CAP);
    assert_eq!(recent[0], "/tmp/file11.rb");
    recent = push_recent(recent, "/tmp/file5.rb");
    assert_eq!(recent[0], "/tmp/file5.rb");
    assert_eq!(recent.iter().filter(|p| *p == "/tmp/file5.rb").count(), 1);
    assert_eq!(decode_recent(&encode_recent(&recent)), recent);
    assert!(decode_recent("").is_empty());
    assert_eq!(push_recent(vec!["/tmp//a/".to_string()], "/tmp/a"), vec!["/tmp/a"]);
}

#[test]
fn midi_channel_steps_cycle_star_and_1_to_16() {
    assert_eq!(next_midi_channel("*"), "1");
    assert_eq!(next_midi_channel("1"), "2");
    assert_eq!(next_midi_channel("16"), "*");
    assert_eq!(prev_midi_channel("*"), "16");
    assert_eq!(prev_midi_channel("1"), "*");
    assert_eq!(prev_midi_channel("16"), "15");
    let mut ch = "*".to_string();
    for _ in 0..17 {
        let next = next_midi_channel(&ch);
        assert_eq!(prev_midi_channel(&next), ch);
        ch = next;
    }
    assert_eq!(ch, "*");
}

#[test]
fn save_name_prefers_the_known_filename() {
    assert_eq!(suggested_save_name(None, 0), "buffer-1.rb");
    assert_eq!(suggested_save_name(None, 9), "buffer-10.rb");
    assert_eq!(suggested_save_name(Some("/tmp/riff.rb"), 3), "riff.rb");
    assert_eq!(suggested_save_name(Some("/"), 3), "buffer-4.rb");
}

fn parse_cue_time(t: &str) -> Option<f64> {
    let (n, d) = cue_time_parts(t)?;
    let n: f64 = n.parse().ok()?;
    let d: f64 = d.parse().ok()?;
    (d != 0.0).then_some(n / d)
}

#[test]
fn parses_rational_cue_timestamps() {
    assert_eq!(parse_cue_time("1783000703/1000"), Some(1_783_000.703));
    assert_eq!(parse_cue_time("3/2"), Some(1.5));
    assert_eq!(parse_cue_time("nonsense"), None);
    assert_eq!(parse_cue_time("1/0"), None);
    assert_eq!(parse_cue_time(""), None);
    assert_eq!(cue_time_parts(" 3 / 2/1 "), Some(("3".to_string(), "2/1".to_string())));
}

fn cue(time: &str) -> CueInfo {
    CueInfo {
        time: time.to_string(),
        address: "/beat".to_string(),
        id: 1,
        args: "[1]".to_string(),
        index: 0,
    }
}

#[test]
fn cues_replace_the_example_and_then_add_up() {
    assert_eq!(cue_line(&cue("x"), None), "x  /beat  [1]");
    assert_eq!(cue_line(&cue("x"), Some("+0.500s")), "+0.500s  /beat  [1]");
    let fresh = vec!["a".to_string(), "b".to_string()];
    assert_eq!(add_cues("example\n", false, &fresh), "a\nb\n");
    assert_eq!(add_cues("old\n", true, &fresh), "old\na\nb\n");
    let many: Vec<String> = (0..CUE_LINES + 3).map(|i| i.to_string()).collect();
    let text = add_cues("", false, &many);
    assert_eq!(text.lines().count(), CUE_LINES);
    assert!(text.starts_with("3\n") && text.ends_with(&format!("{}\n", CUE_LINES + 2)));
}

fn texts(rows: &[LogLine]) -> Vec<&str> {
    rows.iter().map(|r| r.text.as_str()).collect()
}

fn one(ev: ClientEvent) -> LogLine {
    let mut rows = log_lines_for(&ev, "99.5");
    assert_eq!(rows.len(), 1);
    rows.remove(0)
}

#[test]
fn reports_become_rows() {
    let mut m = MessageInfo::simple(MessageType::Multi, String::new());
    m.job_id = 3;
    m.thread_name = ":main".to_string();
    m.multi = vec![
        MessageData { text: "synth".to_string(), style: 0 },
        MessageData { text: "sample".to_string(), style: 1 },
    ];
    let rows = log_lines_for(&ClientEvent::Report(m), "");
    assert_eq!(texts(&rows), vec!["{run 3} :main", "synth", "sample"]);
    assert!(!rows[0].indent && rows[1].indent && rows[2].indent);
    assert!(rows.iter().all(|r| r.run == Some(3)));

    let mut e = MessageInfo::simple(MessageType::RuntimeError, "boom".to_string());
    e.runtime = "0.5".to_string();
    let row = one(ClientEvent::Report(e));
    assert_eq!(row.text, "[error] boom (0.5)");
    assert!(row.error && row.run.is_none());
    assert_eq!(row_color(&row), RowColor::Error);

    let mut i = MessageInfo::simple(MessageType::Info, "hi".to_string());
    i.job_id = 7;
    let row = one(ClientEvent::Report(i));
    assert_eq!(row.text, "hi");
    assert_eq!(row_color(&row), RowColor::Run(RUN_PALETTE[1]));
    assert_eq!(run_color(-4), RUN_PALETTE[0]);
}

#[test]
fn the_other_events_become_rows() {
    let status = StatusInfo { kind: StatusType::AllComplete, id: "7".to_string() };
    assert_eq!(one(ClientEvent::Status(status)).text, "[AllComplete] 7");
    assert_eq!(one(ClientEvent::SpiderReady).text, "[spider ready]");
    assert_eq!(one(ClientEvent::Bpm(OscNumber::Int(1))).text, "[bpm] 99.5");
    assert_eq!(one(ClientEvent::AudioDevices(devices())).text, "[audio] 2 output device(s), current: A @ 48000Hz");
    assert_eq!(one(ClientEvent::AudioInputDevices(inputs())).text, "[audio] 1 input device(s), current: Mic");
    assert_eq!(one(ClientEvent::AudioDrivers(drivers())).text, "[audio] 2 driver(s), current: ALSA");
    let info = ScsynthInfo { text: "up".to_string(), sample_rate: None, buffer_size: None };
    assert_eq!(one(ClientEvent::Scsynth(info)).text, "[scsynth] up");
    let ok = ClientEvent::DriverSwitched { ok: true, detail: "JACK".to_string() };
    assert_eq!(one(ok).text, "[audio] driver switched: JACK");
    let failed = one(ClientEvent::DriverSwitched { ok: false, detail: "JACK".to_string() });
    assert!(failed.error && failed.text == "driver switch failed: JACK");
    assert!(log_lines_for(&ClientEvent::Cue(cue("1")), "").is_empty());
    let osc = one(ClientEvent::Unhandled { addr: "/x".to_string() });
    assert!(osc.debug && osc.text == "[osc] /x");
}

#[test]
fn events_that_nobody_shows_are_written_as_debug_output() {
    let events = vec![
        ClientEvent::Midi(MidiInfo { kind: MidiType::In, port_info: "a \"b\"\n".to_string() }),
        ClientEvent::Midi(MidiInfo { kind: MidiType::Out, port_info: String::new() }),
        ClientEvent::Version(VersionInfo {
            version: "v4".to_string(),
            num: -4,
            latest_version: "v5".to_string(),
            latest_num: 5,
            platform: "é".to_string(),
        }),
        ClientEvent::ActiveLinks(-1),
        ClientEvent::GamepadDevices("pad\t".to_string()),
        ClientEvent::BootError("no".to_string()),
    ];
    for ev in events {
        let expected = format!("{ev:?}");
        let row = one(ev);
        assert!(row.debug);
        assert_eq!(row.text, expected);
    }
}

fn devices() -> AudioDevicesInfo {
    AudioDevicesInfo {
        mode: "auto".to_string(),
        current_device: "A".to_string(),
        devices: vec!["A".to_string(), "B".to_string()],
        sample_rate: 48000,
    }
}

fn inputs() -> AudioInputDevicesInfo {
    AudioInputDevicesInfo { current_device: "Mic".to_string(), devices: vec!["Mic".to_string()] }
}

fn drivers() -> AudioDriversInfo {
    AudioDriversInfo {
        drivers: vec!["ALSA".to_string(), "JACK".to_string()],
        current: "ALSA".to_string(),
    }
}

fn replies(m: &OscMessage) -> Vec<ClientEvent> {
    spider_replies(m).iter().filter_map(parse_incoming).collect()
}

#[test]
fn the_stand_in_runs_reports_and_stops() {
    let run = replies(&out::run_buffer(1, "buffer0", "\n  play 60 \nsleep 1"));
    assert_eq!(run.len(), 3);
    assert!(matches!(&run[0], ClientEvent::Report(m) if m.text == "=> Run buffer0"));
    assert!(matches!(&run[1], ClientEvent::Report(m) if m.multi[0].text == "run → play 60"));
    assert!(matches!(&run[2], ClientEvent::Status(s) if s.kind == StatusType::AllComplete && s.id == "buffer0"));

    let boom = replies(&out::run_buffer(1, "buffer0", "play 60\nboom"));
    assert_eq!(boom.len(), 1);
    assert!(matches!(&boom[0], ClientEvent::Report(m)
        if m.kind == MessageType::SyntaxError && m.line == 2 && m.text == "undefined method `boom`"));

    let stop = replies(&out::stop_all_jobs(1));
    assert!(matches!(&stop[1], ClientEvent::Status(s) if s.kind == StatusType::Ack && s.id == "stop"));
    assert!(spider_replies(&out::ping(1, "x")).is_empty());
    let bare = OscMessage { addr: addr::SAVE_AND_RUN_BUFFER.to_string(), args: vec![OscType::Int(1)] };
    assert_eq!(replies(&bare).len(), 3);
}

#[test]
fn a_runtime_is_reached_one_way_or_another() {
    assert_eq!(Attempt::first(None), Attempt::Supervisor);
    assert_eq!(Attempt::first(Some("1")), Attempt::Daemon);
    assert_eq!(Attempt::first(Some("yes")), Attempt::Supervisor);
    assert_eq!(Attempt::Supervisor.after_failure(), Attempt::Daemon);
    assert_eq!(Attempt::Daemon.after_failure(), Attempt::Loopback);
    assert_eq!(
        Attempt::Loopback.status("handshake timeout"),
        "=> Real runtime unavailable (handshake timeout); using loopback spider."
    );
    assert!(Attempt::Daemon.status("").contains("REAL"));
    assert!(Attempt::Supervisor.status("").contains("supervisor"));
}

fn connected(runtime: Runtime) -> Backend {
    let ports = Ports::from_parts(1, 2, 3, 4557, 5, 99);
    Backend::Real { session: Session { ports }, runtime }
}

#[test]
fn what_is_sent_depends_on_the_runtime() {
    let looped = Backend::Loopback { token: 1 };
    assert!(looped.set_midi(true).is_none());
    assert!(looped.shutdown().is_none());
    assert_eq!(looped.run("b", "c").message.args[0], OscType::Int(1));
    assert_eq!(looped.scope_shm_name(), "/sonic_scope_spike");
    let daemon = connected(Runtime::DaemonRb);
    let rust = connected(Runtime::Rust);
    assert_eq!(rust.scope_shm_name(), "/SuperSonic_4557");
    assert_eq!(daemon.shutdown().unwrap().message.addr, addr::DAEMON_EXIT);
    assert!(rust.shutdown().is_none());
    let by_daemon = daemon.switch_audio(Some("X"), None).unwrap();
    assert_eq!(by_daemon.message.addr, addr::DAEMON_AUDIO_SWITCH_DEVICE);
    let direct = rust.switch_audio(None, Some("__none__")).unwrap();
    assert_eq!(direct.message.addr, addr::SUPERSONIC_DEVICES_SWITCH);
    assert_eq!(direct.message.args[3], OscType::String("__none__".to_string()));
    assert_eq!(rust.record_start("/r.wav").unwrap().message.args[2], OscType::Int(24));
    assert_eq!(rust.set_bpm(120f32.to_bits()).unwrap().message.addr, addr::CLOCK_TEMPO_SET);
}

fn app() -> App {
    App::new(&Table::new(), "en", connected(Runtime::Rust), "=> up".to_string())
}

fn desk(text: &str) -> Desk {
    Desk {
        text,
        selection: 0..0,
        home: Some("/home/x"),
        store_dir: "/store",
        app_root: "/app",
        clock: 1234,
    }
}

fn addresses(effects: &[Effect]) -> Vec<String> {
    effects
        .iter()
        .filter_map(|e| if let Effect::Send(o) = e { Some(o.message.addr.clone()) } else { None })
        .collect()
}

#[test]
fn a_run_is_sent_with_its_preamble() {
    let mut a = app();
    let effects = a.dispatch(Cmd::Run, desk("play 60"));
    assert!(matches!(effects[0], Effect::ClearUnderlines));
    let Effect::Send(o) = &effects[1] else { panic!("nothing sent") };
    assert_eq!(o.message.args[1], OscType::String("buffer0".to_string()));
    let OscType::String(code) = &o.message.args[2] else { panic!("no code") };
    assert!(code.starts_with("use_midi_defaults") && code.ends_with("\nplay 60"));
    assert!(a.playing);
    assert_eq!(a.log.last().unwrap().text, "→ Run sent (buffer 1)");
    assert_eq!(a.header(&I18n::load("en", ""), true)[0].style, Emphasis::Success);

    let effects = a.dispatch(Cmd::Stop, desk(""));
    assert_eq!(addresses(&effects), vec![addr::STOP_ALL_JOBS]);
    assert!(!a.playing);
}

#[test]
fn recording_starts_and_stops() {
    let mut a = app();
    let effects = a.dispatch(Cmd::Rec, desk(""));
    assert!(matches!(&effects[0], Effect::MakeDir(d) if d == "/store/recordings"));
    assert_eq!(addresses(&effects), vec![addr::SUPERSONIC_RECORD_START]);
    assert_eq!(a.recording.as_deref(), Some("/store/recordings/rec-1234.wav"));
    let effects = a.dispatch(Cmd::Rec, desk(""));
    assert_eq!(addresses(&effects), vec![addr::SUPERSONIC_RECORD_STOP]);
    assert!(a.recording.is_none());
    assert_eq!(a.log.last().unwrap().text, "→ Recording saved: /store/recordings/rec-1234.wav");
}

#[test]
fn editing_commands_change_the_text_only_when_there_is_something_to_change() {
    let mut a = app();
    assert!(matches!(&a.dispatch(Cmd::Comment, desk("x"))[0], Effect::SetText(t) if t == "# x"));
    assert!(a.dispatch(Cmd::Comment, desk("  ")).is_empty());
    assert!(matches!(&a.dispatch(Cmd::Align, desk(" x"))[0], Effect::SetText(t) if t == "x"));
    assert!(a.dispatch(Cmd::Align, desk("x")).is_empty());
    assert!(matches!(a.dispatch(Cmd::Open, desk(""))[0], Effect::AskForFile));
    assert!(matches!(&a.dispatch(Cmd::Save, desk(""))[0],
        Effect::Save { buffer: 0, target: SaveTarget::Ask { dir, name } } if dir == "/home/x" && name == "buffer-1.rb"));
}

#[test]
fn panes_open_and_close() {
    let mut a = app();
    let effects = a.dispatch(Cmd::Tutorial, desk(""));
    assert!(matches!(&effects[0], Effect::LoadContent { chapters, examples }
        if chapters == "/app/../etc/doc/tutorial" && examples == "/app/../etc/examples"));
    a.dispatch(Cmd::Settings, desk(""));
    a.dispatch(Cmd::Nodes, desk(""));
    a.dispatch(Cmd::Help, desk(""));
    assert_eq!(
        open_panes(a.panes),
        vec![PaneId::Tutorial, PaneId::Nodes, PaneId::Help, PaneId::Settings]
    );
    a.dispatch(Cmd::Tutorial, desk(""));
    assert!(a.dispatch(Cmd::Tutorial, desk("")).is_empty());
    a.dispatch(Cmd::Debug, desk(""));
    assert!(a.panes.show_debug);
    a.dispatch(Cmd::ScopeMode, desk(""));
    assert_eq!(a.scope.mode, ScopeMode::Stereo);
    a.dispatch(Cmd::ScopePause, desk(""));
    assert_eq!(a.poll_scope(), ScopeStep::Skip);
    assert_eq!(PaneId::Nodes.title(), "Nodes");
    assert_eq!(PaneId::Help.hint(), Some("Documentation search"));
    assert_eq!((PaneId::Editor.title(), PaneId::Editor.hint()), ("Editor", None));
    assert_eq!(title_bar("Help", true), "▸ Help");
}

#[test]
fn events_reach_the_state() {
    let mut a = app();
    a.playing = true;
    let done = StatusInfo { kind: StatusType::AllComplete, id: String::new() };
    a.on_event(ClientEvent::Status(done), "", None);
    assert!(!a.playing);
    a.on_event(ClientEvent::AudioDevices(devices()), "", None);
    assert_eq!(a.out_devices.as_ref().unwrap().devices.len(), 2);
    a.on_event(ClientEvent::AudioInputDevices(inputs()), "", None);
    a.on_event(ClientEvent::AudioDrivers(drivers()), "", None);
    assert!(a.in_devices.is_some() && a.drivers.is_some());
    let ready = a.on_event(ClientEvent::SpiderReady, "", None);
    assert_eq!(
        addresses(&ready),
        vec![
            addr::MIDI_START,
            addr::CUE_PORT_START,
            addr::CUE_PORT_INTERNAL,
            addr::MIXER_STANDARD_STEREO,
            addr::MIXER_STEREO_MODE,
        ]
    );
    let switched = ClientEvent::DriverSwitched { ok: true, detail: "JACK".to_string() };
    assert_eq!(addresses(&a.on_event(switched, "", None)), vec![addr::SUPERSONIC_DRIVERS_LIST]);
    let mut e = MessageInfo::simple(MessageType::SyntaxError, "boom".to_string());
    e.line = 3;
    let marks = a.on_event(ClientEvent::Report(e), "", None);
    assert!(matches!(&marks[0], Effect::Underline { line: 2, text } if text == "boom"));
    a.on_event(ClientEvent::Cue(cue("1/2")), "", Some("+0.000s"));
    assert_eq!(a.flush_cues("example").unwrap(), "+0.000s  /beat  [1]\n");
    assert!(a.flush_cues("x").is_none());
    a.on_event(ClientEvent::Cue(cue("2/2")), "", None);
    assert_eq!(a.flush_cues("old\n").unwrap(), "old\n2/2  /beat  [1]\n");
}

#[test]
fn ticks_save_the_workspace_and_fade_presses() {
    let mut a = app();
    a.dispatch(Cmd::Run, desk(""));
    let mut saves = 0;
    for i in 1..=2 * AUTOSAVE_TICKS {
        let effects = a.tick();
        if effects.iter().any(|e| matches!(e, Effect::SaveWorkspace)) {
            saves += 1;
            assert_eq!(i % AUTOSAVE_TICKS, 0);
        }
        if i == 7 {
            assert_eq!(a.flash, 58);
        }
        if i == 17 {
            assert_eq!(a.flash, 0);
        }
    }
    assert_eq!(saves, 2);
}

#[test]
fn the_log_keeps_its_newest_rows() {
    let mut a = app();
    for i in 0..LOG_ROWS + 5 {
        a.push_log(LogLine::info(i.to_string()));
    }
    a.push_log(LogLine::debug("noise".to_string()));
    a.cap_log();
    assert_eq!(a.log.len(), LOG_ROWS);
    assert_eq!(a.log.last().unwrap().text, "noise");
    let order = a.log_order();
    assert_eq!(order.len(), LOG_ROWS - 1);
    assert_eq!(a.log[order[0]].text, (LOG_ROWS + 4).to_string());
    assert!(a.log_label().starts_with(&format!("Run log. {}. {}. ", LOG_ROWS + 4, LOG_ROWS + 3)));
    assert_eq!(a.log_copy().lines().count(), LOG_ROWS - 1);
    a.panes.show_debug = true;
    assert!(a.log_copy().ends_with("\nnoise"));
}

#[test]
fn the_scope_attaches_when_the_engine_is_there() {
    let mut a = app();
    assert_eq!(a.poll_scope(), ScopeStep::Attach);
    a.scope_attached(false);
    for _ in 0..RETRY_TICKS {
        assert_eq!(a.poll_scope(), ScopeStep::Skip);
    }
    assert_eq!(a.poll_scope(), ScopeStep::Attach);
    a.scope_attached(true);
    assert_eq!(a.scope.source, ScopeSource::RealSlot);
    assert_eq!(a.log.last().unwrap().text, "=> Scope attached to /SuperSonic_4557 (slot 0)");
    assert_eq!(a.poll_scope(), ScopeStep::PullSlot);
    a.scope_pulled(false);
    assert!(!a.scope.live);
    a.scope_pulled(true);
    assert!(a.scope.live);
    assert_eq!(a.spectrum_wanted(), None);
    a.scope.mode = ScopeMode::Spectrum;
    assert_eq!(a.spectrum_wanted(), Some(48000));
    let mut looped = App::new(&Table::new(), "en", Backend::Loopback { token: 1 }, String::new());
    looped.poll_scope();
    looped.scope_attached(true);
    assert_eq!(looped.poll_scope(), ScopeStep::PullRing);
    assert!(!looped.nodes_changed(Some(3)));
    looped.panes.nodes_open = true;
    assert!(looped.nodes_changed(Some(3)));
    assert!(!looped.nodes_changed(Some(3)));
}

#[test]
fn the_scope_draws_what_its_mode_says() {
    assert_eq!(drawing(ScopeMode::Spectrum, true, 10), (Drawing::Bars, true));
    assert_eq!(drawing(ScopeMode::Spectrum, true, 0), (Drawing::Single, false));
    assert_eq!(drawing(ScopeMode::Lissajous, false, 9), (Drawing::Dots, false));
    assert_eq!(ScopeMode::Lissajous.label(), "Liss");
    assert_eq!(scope_label(true), "Audio scope waveform (live)");
    assert_eq!(scope_label(false), "Audio scope waveform");
    assert_eq!(scope_title(true), "Scope · live (shm)");
    assert_eq!(scope_title(false), "Scope · demo");
    let mut m = ScopeMode::Mono;
    for _ in 0..5 {
        m = m.next();
    }
    assert_eq!(m, ScopeMode::Mono);
    let left = vec![1, 2];
    assert_eq!(right_channel(&left, &vec![3, 4]), &vec![3, 4]);
    assert_eq!(right_channel(&left, &vec![3]), &left);
    let mut rolling = vec![1, 2, 3];
    feed(&mut rolling, &vec![4, 5], 4);
    assert_eq!(rolling, vec![2, 3, 4, 5]);
    assert_eq!(spectrum_rate(None), 48000);
    assert_eq!(spectrum_rate(Some(0)), 48000);
    assert_eq!(spectrum_rate(Some(44100)), 44100);
    assert_eq!(spectrum_rate(Some(-1)), u32::MAX);
}

#[test]
fn files_are_remembered_across_sessions() {
    let mut a = app();
    let prefs = a.file_opened(2, "/tmp/riff.rb", Table::new());
    assert_eq!(prefs.get("buffer_path_2").unwrap(), "/tmp/riff.rb");
    assert_eq!(prefs.get("recent_files").unwrap(), "/tmp/riff.rb");
    assert_eq!(a.log.last().unwrap().text, "→ Opened /tmp/riff.rb into buffer 3");
    let prefs = a.file_chosen(0, "/tmp/a.rb", prefs);
    let again = App::new(&prefs, "en", connected(Runtime::Rust), String::new());
    assert_eq!(again.files.path(2), Some("/tmp/riff.rb"));
    assert_eq!(again.files.path(0), Some("/tmp/a.rb"));
    assert_eq!(again.files.path(1), None);
    assert_eq!(again.files.recent, vec!["/tmp/a.rb", "/tmp/riff.rb"]);
    assert!(matches!(&again.save_file(false, None)[0],
        Effect::Save { target: SaveTarget::Write(p), .. } if p == "/tmp/a.rb"));
    assert!(matches!(&again.save_file(true, None)[0],
        Effect::Save { target: SaveTarget::Ask { dir, name }, .. } if dir == "/tmp" && name == "a.rb"));
    let rows = again.tab_row(&I18n::load("en", ""));
    assert_eq!(rows.len(), 2);
    let labels: Vec<&str> = rows[0].buttons.iter().map(|b| b.label.as_str()).collect();
    assert_eq!(labels, vec!["a.rb", "2", "riff.rb", "4", "5", "6", "7", "8", "9", "10"]);
    assert_eq!(rows[0].buttons[0].style, Emphasis::Primary);
    assert_eq!(rows[1].text, "Recent:");
    assert_eq!(rows[1].buttons[1].label, "riff.rb");
}

#[test]
fn finished_work_is_logged() {
    let mut a = app();
    a.open_failed("/x", "gone");
    assert!(a.log.last().unwrap().error && a.log.last().unwrap().text == "Open /x failed: gone");
    a.buffer_written(1, "/x", None);
    assert_eq!(a.log.last().unwrap().text, "→ Saved buffer 2 → /x");
    a.buffer_written(1, "/x", Some("full"));
    assert_eq!(a.log.last().unwrap().text, "Save /x failed: full");
    a.example_loaded("wizard", "blimp", "/e", None);
    assert_eq!(a.log.last().unwrap().text, "→ Example wizard/blimp loaded into buffer 1");
    a.example_loaded("wizard", "blimp", "/e", Some("gone"));
    assert_eq!(a.log.last().unwrap().text, "Example /e failed: gone");
}

#[test]
fn buffers_go_round() {
    let mut a = app();
    a.prev_buffer();
    assert_eq!(a.active, 9);
    a.next_buffer();
    assert_eq!(a.active, 0);
    a.select_buffer(4);
    a.select_buffer(10);
    assert_eq!(a.active, 4);
    assert_eq!(
        a.editor_label("é", 2),
        "Sonic Pi code editor, buffer 5, 2 characters, cursor at offset 2"
    );
}

#[test]
fn settings_are_flipped_sent_and_stored() {
    let mut a = app();
    let (prefs, effects) = a.toggle_setting(Setting::ForceMono, Table::new());
    assert_eq!(prefs.get("force_mono").unwrap(), "true");
    assert_eq!(addresses(&effects), vec![addr::MIXER_MONO_MODE]);
    let (prefs, effects) = a.toggle_setting(Setting::SafeMode, prefs);
    assert!(effects.is_empty());
    let loaded = Settings::load(&prefs, "de");
    assert!(loaded.force_mono && !loaded.safe_mode && loaded.midi_enabled && loaded.cue_server);
    assert_eq!(loaded.midi_channel, "*");
    assert_eq!(loaded.lang, "de");
    let mut s = loaded;
    let prefs = s.step_channel(true, prefs);
    assert_eq!(prefs.get("midi_channel").unwrap(), "1");
    let prefs = s.choose_lang("pt", prefs);
    assert_eq!(Settings::load(&prefs, "de").lang, "pt");
    assert!(!s.get(Setting::SafeMode));
    assert!(s.run_code("x").ends_with("preferences.\nx"));
}

#[test]
fn devices_and_drivers_are_switched() {
    let mut a = app();
    assert_eq!(addresses(&a.use_output("B")), vec![addr::SUPERSONIC_DEVICES_SWITCH]);
    assert_eq!(a.log.last().unwrap().text, "→ Output device → B");
    assert_eq!(a.use_input("Mic").len(), 1);
    a.disable_input();
    assert_eq!(a.log.last().unwrap().text, "→ Audio input disabled");
    assert_eq!(addresses(&a.use_driver("JACK")), vec![addr::SUPERSONIC_DRIVERS_SWITCH]);
    let mut looped = App::new(&Table::new(), "en", Backend::Loopback { token: 1 }, String::new());
    assert!(looped.use_output("B").is_empty());
}

#[test]
fn the_header_says_what_is_going_on() {
    let de = I18n::load("de", "Run = Los\nplaying = spielt\nToggle help pane = Hilfe\n");
    let mut a = app();
    assert_eq!(a.play_line(&de), "○ idle");
    a.playing = true;
    assert_eq!(a.play_line(&de), "● spielt");
    let buttons = a.header(&de, true);
    assert_eq!(buttons.len(), 18);
    assert_eq!(buttons[0].label, "Los ▶");
    assert_eq!(buttons[0].style, Emphasis::Primary);
    assert_eq!(buttons[1].style, Emphasis::Danger);
    assert_eq!(buttons[8].label, "〰 Mono");
    assert_eq!(buttons[9].label, "☀");
    assert_eq!(buttons[12].hint, "Hilfe");
    assert_eq!(buttons[12].action, Action::Do(Cmd::Help));
    assert_eq!(metrics_line("60.0", 2), "60.0 BPM · Link 2");
}

#[test]
fn the_settings_pane_lists_what_can_be_chosen() {
    let en = I18n::load("en", "");
    let mut a = app();
    let themes = vec!["Dark".to_string(), "Light".to_string()];
    let langs = vec!["de".to_string(), "en".to_string()];
    let rows = a.settings_pane(&en, None, None, &themes, "Light", &langs);
    assert_eq!(rows.len(), 10);
    assert_eq!(rows[0].text, "Tempo (waiting for engine)");
    assert_eq!(rows[1].text, "Output devices: waiting for the engine…");
    assert_eq!(rows[4].buttons[0].label, "☐ Invert stereo");
    assert_eq!(rows[5].text, "Default channel *");
    assert_eq!(rows[7].buttons[0].label, "☑ Safe mode");
    assert_eq!(rows[8].buttons[1].style, Emphasis::Primary);
    assert_eq!(rows[9].buttons[1].style, Emphasis::Primary);
    assert_eq!(rows[9].buttons[0].action, Action::UseLang(0));
    a.on_event(ClientEvent::AudioDevices(devices()), "", None);
    a.on_event(ClientEvent::AudioInputDevices(inputs()), "", None);
    a.on_event(ClientEvent::AudioDrivers(drivers()), "", None);
    let counts = EngineCounts { callbacks: 1, messages: 2, queue: 3, peers: 4 };
    let rows = a.settings_pane(&en, Some("60.0"), Some(counts), &themes, "Light", &langs);
    assert_eq!(rows[0].text, "Tempo 60.0 BPM");
    assert_eq!(rows[1].text, "engine: 1 callbacks · 2 msgs · queue 3 · Link peers 4");
    assert_eq!(rows[2].text, "Output (auto @ 48000Hz)");
    assert_eq!(rows[2].buttons[1].action, Action::UseOutput(1));
    assert_eq!(rows[2].buttons[0].style, Emphasis::Primary);
    assert_eq!(rows[3].buttons[1].action, Action::DisableInput);
    assert_eq!(rows[4].text, "Audio driver (ALSA)");
}

fn vocab() -> Vocab {
    let mut tb303 = VocabEntry::new(":tb303", VocabKind::Synth, "Acid");
    tb303.long_doc = "d".repeat(1300);
    tb303.opt_docs = vec![
        OptDoc { name: "cutoff:".to_string(), default: "100".to_string(), ..Default::default() },
        OptDoc { name: "res:".to_string(), default: "0.9".to_string(), ..Default::default() },
    ];
    Vocab { entries: vec![tb303, VocabEntry::new("cue", VocabKind::Func, "Cue other threads")] }
}

#[test]
fn the_help_pane_shows_hits_and_documents() {
    let en = I18n::load("en", "");
    let v = vocab();
    let rows = help(&v, "TB", Some(":tb303"), &en);
    assert_eq!(rows[0].buttons[0].label, ":tb303 (synth)");
    assert_eq!(rows[0].buttons[0].style, Emphasis::Primary);
    assert_eq!(rows[1].text, ":tb303 — synth");
    assert_eq!(rows[2].text, "Acid");
    assert_eq!(rows[3].text.chars().count(), 1201);
    assert!(rows[3].text.ends_with('…'));
    assert_eq!(rows[4].text, "cutoff: 100   res: 0.9");
    assert_eq!(help(&v, "zzz", None, &en)[0].text, "No matches.");
    assert!(help(&v, " ", None, &en).is_empty());
}

#[test]
fn the_tutorial_pane_lists_chapters_and_examples() {
    let en = I18n::load("en", "");
    let chapters = vec![Chapter { path: "/1".to_string(), title: "One".to_string() }];
    let example = |c: &str, n: &str| Example {
        category: c.to_string(),
        name: n.to_string(),
        path: String::new(),
    };
    let examples = vec![example("a", "x"), example("a", "y"), example("b", "z")];
    let rows = tutorial_nav(&chapters, &examples, Some(0), &en);
    let shown: Vec<String> = rows
        .iter()
        .map(|r| r.buttons.first().map_or(r.text.clone(), |b| b.label.clone()))
        .collect();
    assert_eq!(shown, vec!["One", "Examples", "a", "♪ x", "♪ y", "b", "♪ z"]);
    assert_eq!(rows[0].buttons[0].style, Emphasis::Primary);
    assert_eq!(rows[6].buttons[0].action, Action::LoadExample(2));
    assert!(tutorial_hint(&en).starts_with("Pick a chapter"));
}

#[test]
fn the_node_tree_is_indented_by_depth() {
    let node = |id: i32, parent_id: i32, is_group: bool, name: &str| NodeInfo {
        id,
        parent_id,
        is_group,
        name: name.to_string(),
    };
    assert_eq!(node_lines(None), vec!["Node tree: waiting for the engine…"]);
    let nodes =
        vec![node(0, -1, true, "root"), node(2, 0, true, "g"), node(5, 2, false, "beep")];
    assert_eq!(
        node_lines(Some(&nodes)),
        vec!["3 node(s)", "▸ root [0]", "  ▸ g [2]", "    ♪ beep [5]"]
    );
    let circle = vec![node(1, 2, true, "a"), node(2, 1, true, "b")];
    assert_eq!(node_lines(Some(&circle))[1], format!("{}▸ a [1]", "  ".repeat(8)));
}

#[test]
fn the_completion_menu_offers_options_first() {
    let v = vocab();
    let items = v.completion_items("use_synth :tb303\nplay 60, cu", 28);
    assert_eq!(items.len(), 2);
    assert_eq!(items[0].label, "cutoff:");
    assert_eq!(items[0].insert_text, "cutoff: ");
    assert_eq!(items[0].detail, "opt · default 100");
    assert_eq!(items[0].kind, ItemKind::Field);
    assert_eq!(items[1].label, "cue");
    assert_eq!(items[1].documentation.as_deref(), Some("Cue other threads"));
    assert_eq!(items[1].kind, ItemKind::Function);
    assert!(is_completion_trigger("a:"));
    assert!(!is_completion_trigger("a "));
    assert!(!is_completion_trigger("é"));
    assert!(!is_completion_trigger(""));
}

#[test]
fn stored_buffers_win_over_the_examples() {
    let mut stored = vec![None; 10];
    stored[1] = Some("play 60".to_string());
    stored[2] = Some(String::new());
    let buffers = initial_buffers(stored);
    assert_eq!(buffers.len(), 10);
    assert_eq!(
        buffers[0],
        "# Buffer 1 — drums\nlive_loop :drums do\n  sample :bd_haus, amp: 2\n  sleep 0.5\nend\n"
    );
    assert_eq!(buffers[1], "play 60");
    assert_eq!(buffers[2], "");
    assert!(buffers[3..].iter().all(String::is_empty));
    let fresh = initial_buffers(vec![None; 10]);
    assert!(fresh[1].starts_with("# Buffer 2 — bass\n") && fresh[1].ends_with("\nend\n"));
    assert_eq!(fresh[2], "# Buffer 3 — sketch\nplay_chord [:c4, :e4, :g4]\n");
    assert_eq!(cues_example().lines().count(), 4);
    assert_eq!(autoquit_secs(Some("5")), Some(5));
    assert_eq!(autoquit_secs(Some("five")), None);
    assert_eq!(autoquit_secs(None), None);
}

#[test]
fn keys_are_bound_to_what_live_coders_expect() {
    assert_eq!(shortcut("alt-r"), Some(Shortcut::RunBuffer));
    assert_eq!(shortcut("alt-s"), Some(Shortcut::StopAll));
    assert_eq!(shortcut("alt-["), Some(Shortcut::PrevBuffer));
    assert_eq!(shortcut("ctrl-shift-s"), Some(Shortcut::SaveFileAs));
    assert_eq!(shortcut("ctrl--"), Some(Shortcut::ZoomOut));
    assert_eq!(shortcut("ctrl-0"), Some(Shortcut::ZoomReset));
    assert_eq!(shortcut("ctrl-q"), None);
}

#[test]
fn a_pane_is_folded_by_its_title_bar() {
    let mut folds = Folds::new();
    folds.toggle(PaneId::Help);
    assert!(folds.is_folded(PaneId::Help) && !folds.is_folded(PaneId::Editor));
    folds.toggle(PaneId::Help);
    assert_eq!(folds, Folds::new());
    assert_eq!(cues_label("a\n"), "Cues log. a\n");
    assert_eq!(copy_all_label(&I18n::load("de", "Copy All = Alles kopieren")), "⧉ Alles kopieren");
}

#[test]
fn commands_that_show_something_undo_themselves() {
    for cmd in [Cmd::Settings, Cmd::Help, Cmd::Debug, Cmd::ScopePause, Cmd::Nodes, Cmd::Tutorial] {
        let mut a = app();
        let before = (open_panes(a.panes), a.panes.show_debug, a.scope);
        a.dispatch(cmd, desk(""));
        assert_ne!(before, (open_panes(a.panes), a.panes.show_debug, a.scope));
        a.dispatch(cmd, desk(""));
        assert_eq!(before, (open_panes(a.panes), a.panes.show_debug, a.scope));
    }
}
