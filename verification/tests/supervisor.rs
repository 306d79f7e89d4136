use sonic_oxide::error::CoreError;
use sonic_oxide::order::{sorted_order, text_at_most};
use sonic_oxide::paths::{app_root, bundled_root, resolve, SonicPiPath};
use sonic_oxide::ports::Ports;
use sonic_oxide::process::{handshake, no_output, read_failed, spawn_failed, wait_step, WaitStep};
use sonic_oxide::session_lock::{ProcessTable, SessionLock};
use sonic_oxide::supervisor::{
    boot_timeout_secs, debug_children, segment_name, session_token, shutdown_start, shutdown_step,
    shutdown_verified, spider_args, supersonic_args, Boot, BootAction, BootEvent, BootMode,
    BootPhase, ChildId, PortFault, ShutdownAction, ShutdownPhase, Supervisor,
};
use sonic_oxide::watchdog::{wait_for_process_exit, WatchEvent, WatchStep};

#[test]
fn the_engine_is_started_with_the_users_settings_last() {
    let settings = vec![("-Z".to_string(), "256".to_string()), ("-H".to_string(), "USB".to_string())];
    let args = supersonic_args(4556, &settings);
    assert_eq!(
        args.join(" "),
        "-u 4556 -a 1024 -m 131072 -D 0 -R 0 -l 1 -b 4096 -B 127.0.0.1 -Z 1024 -Z 256 -H USB"
    );
}

#[test]
fn spider_listens_where_the_front_end_sends() {
    let ports = Ports::from_parts(1, 2, 3, 4, 5, -6);
    assert_eq!(
        spider_args("/s.rb", &ports).join(" "),
        "--enable-frozen-string-literal -E utf-8 --yjit /s.rb -u 3 2 4 4 5 -6"
    );
}

fn token_by_the_clock(nanos: u32, pid: u32) -> i32 {
    (nanos as i32).wrapping_mul(31).wrapping_add(pid as i32).wrapping_abs() | 1
}

#[test]
fn tokens_are_odd() {
    assert_eq!(session_token(0, 0), 1);
    assert_eq!(session_token(2, 8), 71);
    for nanos in [0u32, 1, 7, 69_273_666, 123_456_789, 999_999_999, u32::MAX] {
        for pid in [0u32, 1, 2, 4_194_304, i32::MAX as u32, i32::MAX as u32 + 1, u32::MAX] {
            let token = session_token(nanos, pid);
            assert_eq!(token, token_by_the_clock(nanos, pid));
            assert_eq!(token & 1, 1);
        }
    }
}

#[test]
fn the_environment_tunes_the_boot() {
    assert_eq!(boot_timeout_secs(None), 15);
    assert_eq!(boot_timeout_secs(Some("3")), 3);
    assert_eq!(boot_timeout_secs(Some("+3")), 3);
    assert_eq!(boot_timeout_secs(Some("-3")), 15);
    assert_eq!(boot_timeout_secs(Some("soon")), 15);
    assert_eq!(boot_timeout_secs(Some("18446744073709551616")), 15);
    assert!(debug_children(Some("1")));
    assert!(!debug_children(Some("true")));
    assert!(!debug_children(None));
    assert_eq!(segment_name(4556), "/SuperSonic_4556");
    assert!(BootMode::Normal.dies_with_parent() && !BootMode::Gig.dies_with_parent());
    assert!(BootMode::Normal.shuts_down_on_drop() && !BootMode::Gig.shuts_down_on_drop());
}

fn allocated() -> BootEvent {
    BootEvent::Allocated {
        daemon: 1,
        gui_listen: 2,
        gui_send: 3,
        scsynth: 4,
        osc_cues: 5,
        nanos: 2,
        pid: 8,
    }
}

fn failure(action: BootAction) -> String {
    match action {
        BootAction::Fail(e) | BootAction::ReapEngine(e) => e.text(),
        _ => panic!("the boot goes on"),
    }
}

#[test]
fn boot_fails_cleanly_without_a_runtime() {
    let (boot, first) = Boot::start("/nonexistent/app", Vec::new());
    assert!(matches!(first, BootAction::CheckExists(p) if p == "/nonexistent/app/server/native/supersonic"));
    let (boot, action) = boot.step(BootEvent::Exists(false));
    assert!(matches!(action, BootAction::Fail(_)));
    assert_eq!(
        failure(action),
        "process spawn: missing /nonexistent/app/server/native/supersonic"
    );
    assert_eq!(boot.phase, BootPhase::Failed);
}

#[test]
fn a_boot_goes_from_the_checks_to_the_running_runtime() {
    let (boot, _) = Boot::start("/app", vec![("-S".to_string(), "44100".to_string())]);
    let (boot, action) = boot.step(BootEvent::Exists(true));
    assert!(matches!(action, BootAction::CheckExists(p) if p == "/app/server/ruby/bin/spider-server.rb"));
    let (boot, action) = boot.step(BootEvent::Exists(true));
    assert!(matches!(action, BootAction::AllocatePorts));
    let (boot, action) = boot.step(allocated());
    assert!(matches!(action, BootAction::SpawnEngine { program, args }
        if program == "/app/server/native/supersonic" && args[1] == "4" && args[19] == "44100"));
    let (boot, action) = boot.step(BootEvent::Spawned);
    assert!(matches!(action, BootAction::ProbeEngine(n) if n == "/SuperSonic_4"));
    let (boot, action) = boot.step(BootEvent::Probed { up: false, late: false });
    assert!(matches!(action, BootAction::WaitAndProbe(n) if n == "/SuperSonic_4"));
    let (boot, action) = boot.step(BootEvent::Probed { up: true, late: true });
    assert!(matches!(action, BootAction::SpawnSpider { program, args }
        if program == "ruby" && args[4] == "/app/server/ruby/bin/spider-server.rb" && args[11] == "71"));
    let (boot, action) = boot.step(BootEvent::Spawned);
    assert!(matches!(action, BootAction::Finish(p) if p.token == 71 && p.gui_listen == 2));
    assert_eq!(boot.phase, BootPhase::Running);
}

fn boot_to(events: Vec<BootEvent>) -> BootAction {
    let (mut boot, mut action) = Boot::start("/app", Vec::new());
    for e in events {
        let next = boot.step(e);
        boot = next.0;
        action = next.1;
    }
    action
}

#[test]
fn a_boot_that_fails_says_why_and_leaves_no_engine() {
    let yes = || BootEvent::Exists(true);
    let why = |e| failure(boot_to(e));
    assert_eq!(
        why(vec![yes(), BootEvent::Exists(false)]),
        "process spawn: missing /app/server/ruby/bin/spider-server.rb"
    );
    assert_eq!(
        why(vec![yes(), yes(), BootEvent::NoPort(PortFault::Bind("in use".to_string()))]),
        "process spawn: allocating port: in use"
    );
    assert_eq!(
        why(vec![yes(), yes(), BootEvent::NoPort(PortFault::Address("odd".to_string()))]),
        "process spawn: reading allocated port: odd"
    );
    assert_eq!(
        why(vec![yes(), yes(), allocated(), BootEvent::SpawnFailed("no".to_string())]),
        "process spawn: spawning supersonic: no"
    );
    let late = boot_to(vec![
        yes(),
        yes(),
        allocated(),
        BootEvent::Spawned,
        BootEvent::Probed { up: false, late: true },
    ]);
    assert!(matches!(late, BootAction::ReapEngine(_)));
    assert_eq!(failure(late), "process spawn: supersonic never published its shm");
    let no_spider = boot_to(vec![
        yes(),
        yes(),
        allocated(),
        BootEvent::Spawned,
        BootEvent::Probed { up: true, late: false },
        BootEvent::SpawnFailed("no".to_string()),
    ]);
    assert!(matches!(no_spider, BootAction::ReapEngine(_)));
    assert_eq!(failure(no_spider), "process spawn: spawning spider: no");
}

#[test]
fn a_shutdown_asks_before_it_kills() {
    let (phase, action) = shutdown_start();
    assert_eq!(phase, ShutdownPhase::Waiting(ChildId::Spider));
    assert_eq!(action, ShutdownAction::Terminate(ChildId::Spider));
    assert_eq!(
        shutdown_step(ChildId::Spider, false, false).1,
        ShutdownAction::WaitAndPoll(ChildId::Spider)
    );
    assert_eq!(shutdown_step(ChildId::Spider, false, true).1, ShutdownAction::Kill(ChildId::Spider));
    assert_eq!(
        shutdown_step(ChildId::Spider, true, true),
        (
            ShutdownPhase::Waiting(ChildId::Supersonic),
            ShutdownAction::Terminate(ChildId::Supersonic)
        )
    );
    assert_eq!(
        shutdown_step(ChildId::Supersonic, true, false),
        (ShutdownPhase::Done, ShutdownAction::Finish)
    );
    assert!(shutdown_verified(false, false));
    assert!(!shutdown_verified(true, false) && !shutdown_verified(false, true));
}

fn stat(pid: u32, started: u64) -> (u32, String) {
    (pid, format!("{pid} (ruby) S{} {started} 0", " 0".repeat(18)))
}

#[test]
fn a_written_lock_leads_back_to_the_runtime() {
    let s = Supervisor {
        ports: Ports::from_parts(1, 2, 3, 4, 5, 77),
        spider: 10,
        supersonic: 20,
        boot_mode: BootMode::Gig,
    };
    assert_eq!((s.mode(), s.spider_pid(), s.supersonic_pid()), (BootMode::Gig, 10, 20));
    let table = ProcessTable { stats: vec![stat(10, 100), stat(20, 200)] };
    let text = s.write_session_lock(&table).unwrap();
    let lock = SessionLock::parse(&text).unwrap();
    assert_eq!((lock.spider_started, lock.supersonic_started), (100, 200));
    assert!(lock.still_live(&table));
    assert_eq!(lock.to_ports().token, 77);
    let other = ProcessTable { stats: vec![stat(10, 100), stat(20, 201)] };
    assert!(!lock.still_live(&other));
    let gone = ProcessTable { stats: vec![stat(10, 100)] };
    assert_eq!(
        s.write_session_lock(&gone),
        Err(CoreError::Io("couldn't read start time for pid 20 (child just spawned?)".to_string()))
    );
    let none = ProcessTable { stats: Vec::new() };
    assert_eq!(
        s.write_session_lock(&none).unwrap_err().text(),
        "io error: couldn't read start time for pid 10 (child just spawned?)"
    );
}

#[test]
fn a_daemon_prints_its_ports_or_says_why_not() {
    let ports = handshake("29635 29631 29630 29632 29633 660819297\n").unwrap();
    assert_eq!((ports.daemon, ports.token), (29635, 660819297));
    assert!(matches!(handshake(""), Err(CoreError::Handshake(_))));
    assert_eq!(spawn_failed("gone").text(), "process spawn: spawning daemon: gone");
    assert_eq!(read_failed("eof").text(), "process spawn: reading handshake: eof");
    assert_eq!(no_output().text(), "process spawn: daemon produced no stdout");
    assert_eq!(wait_step(true, true), WaitStep::Exited);
    assert_eq!(wait_step(false, true), WaitStep::TimedOut);
    assert_eq!(wait_step(false, false), WaitStep::Sleep);
}

#[test]
fn an_exit_is_reported_when_it_was_seen() {
    let gone = WatchEvent::NotWatched { no_such_process: true };
    assert_eq!(wait_for_process_exit(gone, true), WatchStep::Exited);
    let refused = WatchEvent::NotWatched { no_such_process: false };
    assert_eq!(wait_for_process_exit(refused, true), WatchStep::Unknown);
    assert_eq!(wait_for_process_exit(refused, false), WatchStep::Unknown);
    assert_eq!(wait_for_process_exit(WatchEvent::Watching, true), WatchStep::Wait);
    assert_eq!(wait_for_process_exit(WatchEvent::Interrupted, true), WatchStep::Wait);
    assert_eq!(wait_for_process_exit(WatchEvent::Interrupted, false), WatchStep::NotSeen);
    assert_eq!(wait_for_process_exit(WatchEvent::Quiet, true), WatchStep::NotSeen);
    assert_eq!(wait_for_process_exit(WatchEvent::Failed, true), WatchStep::Unknown);
    assert_eq!(wait_for_process_exit(WatchEvent::NoQueue, true), WatchStep::Unknown);
    let exit = WatchEvent::Event { exit_noted: true };
    assert_eq!(wait_for_process_exit(exit, false), WatchStep::Exited);
    let other = WatchEvent::Event { exit_noted: false };
    assert_eq!(wait_for_process_exit(other, true), WatchStep::NotSeen);
}

#[test]
fn paths_are_found_under_the_root() {
    let paths = resolve("/opt/app");
    assert_eq!(paths.get(SonicPiPath::Root), "/opt/app");
    assert_eq!(paths.get(SonicPiPath::Ruby), "ruby");
    assert_eq!(paths.get(SonicPiPath::BootDaemon), "/opt/app/server/ruby/bin/daemon.rb");
    assert_eq!(paths.get(SonicPiPath::Samples), "/opt/app/../etc/samples");
    assert_eq!(bundled_root("/opt/bin/oxide").as_deref(), Some("/opt/bin/../app"));
    assert_eq!(bundled_root("/"), None);
    assert_eq!(app_root(Some("/a"), Some("/b"), "/c"), "/a");
    assert_eq!(app_root(None, Some("/b"), "/c"), "/b");
    assert_eq!(app_root(None, None, "/c"), "/c/../../app");
}

#[test]
fn texts_are_ordered_as_bytes_and_sorting_is_stable() {
    let words = ["b", "a", "", "ab", "b", "é", "z", "a"];
    for x in words {
        for y in words {
            let (a, b): (Vec<char>, Vec<char>) = (x.chars().collect(), y.chars().collect());
            assert_eq!(text_at_most(&a, &b), x <= y, "{x:?} {y:?}");
        }
    }
    let keys: Vec<Vec<char>> = words.iter().map(|w| w.chars().collect()).collect();
    let mut expected: Vec<usize> = (0..words.len()).collect();
    expected.sort_by_key(|i| words[*i]);
    assert_eq!(sorted_order(&keys), expected);
}
