use sonic_oxide::error::CoreError;
use sonic_oxide::i18n::{parse_table, I18n};
use sonic_oxide::ports::{PortId, Ports};
use sonic_oxide::session_lock::{is_same_process, lock_path, pid_start_time, ProcessTable, SessionLock};
use sonic_oxide::store::{buffer_path, default_store_dir, load_prefs, needs_migration, prefs_path, save_prefs, store_dir};
use sonic_oxide::supervisor::settings::audio_settings_args;
use sonic_oxide::table::Table;

#[test]
fn parses_table_tolerantly() {
    let map = parse_table("# c\n\nA = B\nbad line\nX =\n = y\n K = V ");
    assert_eq!(map.len(), 2);
    assert_eq!(map.get("A").unwrap(), "B");
    assert_eq!(map.get("K").unwrap(), "V");
}

#[test]
fn translates_with_english_fallback() {
    let de = I18n::load("de", "# demo\nSettings = Einstellungen\nHelp = Hilfe\n");
    assert_eq!(de.tr("Settings"), "Einstellungen");
    assert_eq!(de.tr("Help"), "Hilfe");
    assert_eq!(de.tr("Log"), "Log");

    let fr = I18n::load("fr", "");
    assert_eq!(fr.tr("Settings"), "Settings");
    let en = I18n::load("en", "Settings = nothing of this counts\n");
    assert_eq!(en.tr("Settings"), "Settings");
    assert_eq!(I18n::conf_path("/etc/i18n", "de"), "/etc/i18n/de.conf");
}

#[test]
fn detects_language_with_the_documented_precedence() {
    assert_eq!(I18n::detect_lang(Some("pt"), Some("de_DE.UTF-8")), "pt");
    assert_eq!(I18n::detect_lang(None, Some("de_DE.UTF-8")), "de");
    assert_eq!(I18n::detect_lang(None, Some("fr")), "fr");
    assert_eq!(I18n::detect_lang(Some(""), Some("fr")), "fr");
    assert_eq!(I18n::detect_lang(None, None), "en");
    assert_eq!(I18n::detect_lang(None, Some("")), "en");
}

#[test]
fn parses_a_handshake_line() {
    let p = Ports::parse_daemon_line("37000 37001 37002 37003 37004 123456789").unwrap();
    assert_eq!(p.get(PortId::Daemon), 37000);
    assert_eq!(p.get(PortId::GuiListenToSpider), 37001);
    assert_eq!(p.get(PortId::GuiSendToSpider), 37002);
    assert_eq!(p.get(PortId::Scsynth), 37003);
    assert_eq!(p.get(PortId::TauOscCues), 37004);
    assert_eq!(p.token, 123456789);
}

#[test]
fn rejects_short_lines() {
    assert!(Ports::parse_daemon_line("1 2 3").is_err());
}

#[test]
fn a_refused_handshake_says_what_is_wrong() {
    let short = Ports::parse_daemon_line("1 2\t3").unwrap_err();
    assert_eq!(short, CoreError::Handshake("expected 6 fields, got 3: \"1 2\\t3\"".to_string()));
    let port = Ports::parse_daemon_line("1 2 65536 4 5 6").unwrap_err();
    assert_eq!(port, CoreError::Handshake("bad port \"65536\"".to_string()));
    let token = Ports::parse_daemon_line("1 2 3 4 5 x").unwrap_err();
    assert_eq!(token, CoreError::Handshake("bad token \"x\"".to_string()));
    assert_eq!(token.text(), "daemon handshake: bad token \"x\"");
    let p = Ports::parse_daemon_line(" 1  2 3 4 5 -7 and more").unwrap();
    assert_eq!(p, Ports::from_parts(1, 2, 3, 4, 5, -7));
}

#[test]
fn a_printed_line_is_trimmed_before_it_is_read() {
    let p = sonic_oxide::process::handshake("  1 2 3 4 5 6 \n").unwrap();
    assert_eq!(p, Ports::from_parts(1, 2, 3, 4, 5, 6));
    assert!(sonic_oxide::process::handshake("\n").is_err());
    assert_eq!(
        sonic_oxide::process::spawn_failed("gone").text(),
        "process spawn: spawning daemon: gone"
    );
    assert_eq!(
        sonic_oxide::process::no_output().text(),
        "process spawn: daemon produced no stdout"
    );
    assert_eq!(
        sonic_oxide::process::read_failed("gone").text(),
        "process spawn: reading handshake: gone"
    );
}

#[test]
fn errors_say_where_they_come_from() {
    assert_eq!(CoreError::Io("a".to_string()).text(), "io error: a");
    assert_eq!(CoreError::Osc("b".to_string()).text(), "osc error: b");
    assert_eq!(CoreError::Spawn("c".to_string()).text(), "process spawn: c");
}

fn sample() -> SessionLock {
    SessionLock {
        token: 123456,
        spider_pid: 111,
        spider_started: 222,
        supersonic_pid: 333,
        supersonic_started: 444,
        daemon_port: 5000,
        gui_listen: 5001,
        gui_send: 5002,
        scsynth: 5003,
        osc_cues: 4560,
    }
}

#[test]
fn round_trips_through_disk() {
    let lock = sample();
    let text = lock.serialize();
    assert_eq!(SessionLock::parse(&text), Some(lock));
    assert_eq!(lock_path("/store"), "/store/session.lock");
}

#[test]
fn missing_or_corrupt_file_yields_none_not_a_panic() {
    assert!(SessionLock::parse("").is_none());
    assert!(SessionLock::parse("token = 1\nspider_pid = 2\n").is_none());
}

#[test]
fn to_ports_carries_the_token_and_every_port() {
    let lock = sample();
    let ports = lock.to_ports();
    assert_eq!(ports.token, 123456);
    assert_eq!(ports.get(PortId::Scsynth), 5003);
    assert_eq!(ports.get(PortId::TauOscCues), 4560);
}

fn stat(pid: u32, started: u64) -> (u32, String) {
    let mut text = format!("{pid} (a (b) c) S");
    for field in 4..22 {
        text.push_str(&format!(" {field}"));
    }
    text.push_str(&format!(" {started} 99\n"));
    (pid, text)
}

#[test]
fn a_bogus_pid_never_verifies_as_live() {
    let table = ProcessTable { stats: vec![stat(42, 7)] };
    assert!(!is_same_process(0, 0, &table));
    assert!(!is_same_process(0, 999_999_999, &table));
}

#[test]
fn a_process_is_known_by_its_start_time() {
    let table = ProcessTable { stats: vec![stat(111, 222), stat(333, 444), (5, "garbage".to_string())] };
    assert_eq!(pid_start_time(111, &table), Some(222));
    assert!(is_same_process(333, 444, &table));
    assert!(!is_same_process(333, 445, &table));
    assert_eq!(pid_start_time(5, &table), None);
    assert!(sample().still_live(&table));
    let one_reused = ProcessTable { stats: vec![stat(111, 222), stat(333, 4440)] };
    assert!(!sample().still_live(&one_reused));
    let one_gone = ProcessTable { stats: vec![stat(111, 222)] };
    assert!(!sample().still_live(&one_gone));
}

#[test]
fn toml_audio_settings_map_to_cli_flags() {
    let toml = r#"
# comment
sound_card_name = "USB Audio"   # inline comment
sound_card_sample_rate = 44100
enable_inputs = false
unknown_key = "ignored"
linux_pipewire_buffsize = 256
"#;
    let args = audio_settings_args(toml);
    assert_eq!(
        args,
        vec![
            ("-H".to_string(), "USB Audio".to_string()),
            ("-S".to_string(), "44100".to_string()),
            ("-I".to_string(), "0".to_string()),
        ]
    );
}

#[test]
fn prefs_round_trip() {
    assert_eq!(load_prefs("").len(), 0);
    let p = Table::new().insert("font_size".to_string(), "18".to_string());
    let text = save_prefs(&p);
    assert_eq!(text, "font_size = 18\n");
    assert_eq!(load_prefs(&text).get("font_size").unwrap(), "18");
}

#[test]
fn prefs_are_written_in_order_whatever_the_order_they_were_set_in() {
    let a = Table::new()
        .insert("theme".to_string(), "dark".to_string())
        .insert("lang".to_string(), "de".to_string())
        .insert("theme".to_string(), "light".to_string());
    let b = Table::new()
        .insert("lang".to_string(), "de".to_string())
        .insert("theme".to_string(), "light".to_string());
    assert_eq!(save_prefs(&a), "lang = de\ntheme = light\n");
    assert_eq!(save_prefs(&a), save_prefs(&b));
    assert_eq!(a.len(), 2);
    assert_eq!(save_prefs(&Table::new()), "\n");
}

#[test]
fn default_dir_migrates_the_old_streamlined_store() {
    let found = store_dir(None, Some("/home/x"));
    assert!(needs_migration(false, true));
    assert!(!needs_migration(true, true));
    assert!(!needs_migration(false, false));
    assert_eq!(default_store_dir(found, false), "/home/x/.sonic-pi/store/sonic-oxide");
    assert_eq!(
        default_store_dir(store_dir(None, Some("/home/x")), true),
        "/home/x/.sonic-pi/store/streamlined"
    );
    assert_eq!(default_store_dir(store_dir(Some("/s"), Some("/home/x")), true), "/s");
    assert_eq!(default_store_dir(store_dir(None, None), false), "./.sonic-pi/store/sonic-oxide");
    assert_eq!(buffer_path("/s", 3), "/s/buffer_3.spi");
    assert_eq!(prefs_path("/s"), "/s/prefs.conf");
}

#[test]
fn settings_behind_others_come_behind_them() {
    let first = "num_inputs = 2\n";
    let second = "audio_driver = \"jack\"\nnum_inputs = 4";
    let mut expected = audio_settings_args(first);
    expected.extend(audio_settings_args(second));
    assert_eq!(audio_settings_args(&format!("{first}{second}")), expected);
    assert_eq!(expected.len(), 3);
}
