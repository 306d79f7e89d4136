use sonic_oxide::client::{ClientEvent, MessageType, MidiType, OscNumber, StatusType};
use sonic_oxide::osc::{
    decode, dispatch, encode, received, OscColor, OscMessage, OscMidiMessage, OscTime, OscType,
    Packet,
};
use sonic_oxide::ports::{PortId, Ports};
use sonic_oxide::protocol::{addr, out, parse_incoming};
use sonic_oxide::session::{Outgoing, Session};

fn msg(addr: &str, args: Vec<OscType>) -> OscMessage {
    OscMessage { addr: addr.into(), args }
}

fn s(v: &str) -> OscType {
    OscType::String(v.into())
}

#[test]
fn run_buffer_roundtrips_through_the_wire() {
    let m = out::run_buffer(42, "buffer0", "play 60");
    let bytes = encode(&m).unwrap();
    let Packet::Message(back) = decode(&bytes).unwrap() else { panic!("not a message") };
    assert_eq!(back.addr, addr::SAVE_AND_RUN_BUFFER);
    assert_eq!(back.args.len(), 4);
    assert!(matches!(back.args[0], OscType::Int(42)));
    assert!(matches!(&back.args[1], OscType::String(s) if s == "buffer0"));
    assert!(matches!(&back.args[2], OscType::String(s) if s == "play 60"));
}

#[test]
fn the_wire_bytes_are_those_of_the_outside_encoder() {
    let m = msg(
        "/all",
        vec![
            OscType::Int(-3),
            OscType::Float(1.5f32.to_bits()),
            s("é"),
            OscType::Blob(vec![1, 2, 3]),
            OscType::Long(1 << 40),
            OscType::Double(0.25f64.to_bits()),
            OscType::Bool(true),
        ],
    );
    let expected = rosc::encoder::encode(&rosc::OscPacket::Message(rosc::OscMessage {
        addr: "/all".to_string(),
        args: vec![
            rosc::OscType::Int(-3),
            rosc::OscType::Float(1.5),
            rosc::OscType::String("é".to_string()),
            rosc::OscType::Blob(vec![1, 2, 3]),
            rosc::OscType::Long(1 << 40),
            rosc::OscType::Double(0.25),
            rosc::OscType::Bool(true),
        ],
    }))
    .unwrap();
    assert_eq!(encode(&m).unwrap(), expected);
    assert_eq!(received(&expected), vec![m]);
}

#[test]
fn blobs_of_any_length_come_back() {
    for n in 0..9u8 {
        let blob: Vec<u8> = (0..n).collect();
        let m = msg("/blob", vec![OscType::Int(1), OscType::Blob(blob), s("after")]);
        assert_eq!(received(&encode(&m).unwrap()), vec![m]);
    }
}

#[test]
fn arguments_of_every_type_are_sent_and_come_back() {
    let m = msg(
        "/rare",
        vec![
            OscType::Time(OscTime { seconds: 7, fractional: 9 }),
            OscType::Char('é'),
            OscType::Color(OscColor { red: 1, green: 2, blue: 3, alpha: 4 }),
            OscType::Midi(OscMidiMessage { port: 5, status: 6, data1: 7, data2: 8 }),
            OscType::Array(vec![OscType::Int(1), OscType::Array(vec![s("in")]), OscType::Nil]),
            OscType::Nil,
            OscType::Inf,
            OscType::Bool(false),
        ],
    );
    let expected = rosc::encoder::encode(&rosc::OscPacket::Message(rosc::OscMessage {
        addr: "/rare".to_string(),
        args: vec![
            rosc::OscType::Time(rosc::OscTime { seconds: 7, fractional: 9 }),
            rosc::OscType::Char('é'),
            rosc::OscType::Color(rosc::OscColor { red: 1, green: 2, blue: 3, alpha: 4 }),
            rosc::OscType::Midi(rosc::OscMidiMessage { port: 5, status: 6, data1: 7, data2: 8 }),
            rosc::OscType::Array(rosc::OscArray {
                content: vec![
                    rosc::OscType::Int(1),
                    rosc::OscType::Array(rosc::OscArray {
                        content: vec![rosc::OscType::String("in".to_string())],
                    }),
                    rosc::OscType::Nil,
                ],
            }),
            rosc::OscType::Nil,
            rosc::OscType::Inf,
            rosc::OscType::Bool(false),
        ],
    }))
    .unwrap();
    assert_eq!(encode(&m).unwrap(), expected);
    assert_eq!(m.clone(), m);
    assert_eq!(received(&expected), vec![m]);
}

#[test]
fn a_bundle_keeps_its_time_tag() {
    let bytes = rosc::encoder::encode(&rosc::OscPacket::Bundle(rosc::OscBundle {
        timetag: rosc::OscTime { seconds: 3, fractional: 4 },
        content: vec![],
    }))
    .unwrap();
    match decode(&bytes).unwrap() {
        Packet::Bundle { timetag, content } => {
            assert_eq!(timetag, OscTime { seconds: 3, fractional: 4 });
            assert!(content.is_empty());
        }
        Packet::Message(_) => panic!("not a bundle"),
    }
}

#[test]
fn what_is_not_osc_is_refused_and_dropped() {
    assert!(decode(b"definitely not osc").is_err());
    assert!(received(b"definitely not osc").is_empty());
}

#[test]
fn bundles_are_unpacked_in_order() {
    let timetag = OscTime { seconds: 0, fractional: 1 };
    let inner = Packet::Bundle {
        timetag,
        content: vec![Packet::Message(msg("/b", vec![])), Packet::Message(msg("/c", vec![]))],
    };
    let all = Packet::Bundle {
        timetag,
        content: vec![
            Packet::Message(msg("/a", vec![])),
            inner,
            Packet::Message(msg("/d", vec![])),
        ],
    };
    let order: Vec<String> = dispatch(all).into_iter().map(|m| m.addr).collect();
    assert_eq!(order, vec!["/a", "/b", "/c", "/d"]);
}

#[test]
fn parses_ack_status() {
    let m = msg(addr::ACK, vec![s("run-7")]);
    match parse_incoming(&m) {
        Some(ClientEvent::Status(s)) => {
            assert_eq!(s.kind, StatusType::Ack);
            assert_eq!(s.id, "run-7");
        }
        other => panic!("expected Ack status, got {other:?}"),
    }
}

#[test]
fn parses_multi_message_lines() {
    let m = msg(
        addr::LOG_MULTI_MESSAGE,
        vec![
            OscType::Int(3),
            s(":live_loop"),
            s("0.5"),
            OscType::Int(2),
            OscType::Int(0),
            s("synth :beep"),
            OscType::Int(1),
            s("sample :bd_haus"),
        ],
    );
    match parse_incoming(&m) {
        Some(ClientEvent::Report(info)) => {
            assert_eq!(info.kind, MessageType::Multi);
            assert_eq!(info.job_id, 3);
            assert_eq!(info.multi.len(), 2);
            assert_eq!(info.multi[1].text, "sample :bd_haus");
            assert_eq!(info.multi[1].style, 1);
        }
        other => panic!("expected multi Report, got {other:?}"),
    }
}

#[test]
fn all_outgoing_builders_carry_the_documented_shapes() {
    let m = out::ping(9, "tag");
    assert_eq!(m.addr, addr::PING);
    assert!(matches!(&m.args[1], OscType::String(s) if s == "tag"));

    assert_eq!(out::keep_alive(9).addr, addr::DAEMON_KEEP_ALIVE);
    assert_eq!(out::daemon_exit(9).addr, addr::DAEMON_EXIT);

    let m = out::set_global_timewarp(9, 0.25f64.to_bits());
    assert_eq!(m.addr, addr::SET_GLOBAL_TIMEWARP);
    assert!(matches!(m.args[1], OscType::Double(d) if f64::from_bits(d) == 0.25));

    let m = out::clock_tempo_set(128.0f32.to_bits());
    assert_eq!(m.addr, addr::CLOCK_TEMPO_SET);
    assert!(matches!(m.args[0], OscType::Float(f) if f32::from_bits(f) == 128.0));

    let m = out::record_start("/tmp/x.wav", "wav", 24);
    assert_eq!(m.addr, addr::SUPERSONIC_RECORD_START);
    assert!(matches!(m.args[2], OscType::Int(24)));
    assert!(out::record_stop().args.is_empty());

    let m = out::supersonic_devices_report(1234);
    assert_eq!(m.addr, addr::SUPERSONIC_DEVICES_REPORT);
    assert!(matches!(m.args[0], OscType::Int(1234)));

    let m = out::supersonic_devices_switch("Out", 44100.0f32.to_bits(), 512, "In");
    assert_eq!(m.addr, addr::SUPERSONIC_DEVICES_SWITCH);
    assert!(matches!(&m.args[3], OscType::String(s) if s == "In"));
}

#[test]
fn parses_the_remaining_incoming_vocabulary() {
    match parse_incoming(&msg(addr::LOG_INFO, vec![OscType::Int(1), s("=> hi")])) {
        Some(ClientEvent::Report(m)) => {
            assert_eq!(m.text, "=> hi");
            assert_eq!(m.style, 1);
        }
        other => panic!("log/info: {other:?}"),
    }
    for (a, kind) in
        [(addr::ERROR, MessageType::RuntimeError), (addr::SYNTAX_ERROR, MessageType::SyntaxError)]
    {
        match parse_incoming(&msg(a, vec![OscType::Int(3), s("boom"), s("bt"), OscType::Int(7)])) {
            Some(ClientEvent::Report(m)) => {
                assert_eq!(m.kind, kind);
                assert_eq!(m.job_id, 3);
                assert_eq!(m.line, 7);
                assert_eq!(m.backtrace, "bt");
            }
            other => panic!("{a}: {other:?}"),
        }
    }
    assert!(matches!(
        parse_incoming(&msg(addr::RUNS_ALL_COMPLETED, vec![s("x")])),
        Some(ClientEvent::Status(st)) if st.kind == StatusType::AllComplete
    ));
    assert!(matches!(
        parse_incoming(&msg(addr::EXITED, vec![s("x")])),
        Some(ClientEvent::Status(st)) if st.kind == StatusType::Exited
    ));
    assert!(matches!(
        parse_incoming(&msg(addr::EXITED_WITH_BOOT_ERROR, vec![s("no engine")])),
        Some(ClientEvent::BootError(e)) if e == "no engine"
    ));
    assert!(matches!(
        parse_incoming(&msg(addr::SPIDER_READY, vec![])),
        Some(ClientEvent::SpiderReady)
    ));
    assert!(matches!(
        parse_incoming(&msg(addr::LINK_BPM, vec![OscType::Double(99.5f64.to_bits())])),
        Some(ClientEvent::Bpm(OscNumber::Double(b))) if f64::from_bits(b) == 99.5
    ));
    assert!(matches!(
        parse_incoming(&msg(addr::LINK_NUM_PEERS, vec![OscType::Int(2)])),
        Some(ClientEvent::ActiveLinks(2))
    ));
    assert!(matches!(
        parse_incoming(&msg(addr::MIDI_IN_PORTS, vec![s("in1")])),
        Some(ClientEvent::Midi(m)) if m.kind == MidiType::In && m.port_info == "in1"
    ));
    assert!(matches!(
        parse_incoming(&msg(addr::MIDI_OUT_PORTS, vec![s("out1")])),
        Some(ClientEvent::Midi(m)) if m.kind == MidiType::Out
    ));
    assert!(matches!(
        parse_incoming(&msg(addr::GAMEPAD_DEVICES_LIST, vec![s("pads")])),
        Some(ClientEvent::GamepadDevices(g)) if g == "pads"
    ));
    assert!(matches!(
        parse_incoming(&msg(addr::ACK, vec![s("id")])),
        Some(ClientEvent::Status(st)) if st.kind == StatusType::Ack
    ));
    assert!(matches!(
        parse_incoming(&msg("/buffer/replace-lines", vec![])),
        Some(ClientEvent::Unhandled { .. })
    ));
    assert!(matches!(
        parse_incoming(&msg(addr::UPDATE_INFO_TEXT, vec![])),
        Some(ClientEvent::Unhandled { .. })
    ));
    assert!(parse_incoming(&msg("/no/such/address", vec![])).is_none());
}

#[test]
fn parses_incoming_osc_cue_in_wire_order() {
    let m = msg(
        addr::INCOMING_OSC,
        vec![s("1783000703/1000"), OscType::Int(4), s("/link/tempo-change"), s("[120.0]")],
    );
    match parse_incoming(&m) {
        Some(ClientEvent::Cue(c)) => {
            assert_eq!(c.time, "1783000703/1000");
            assert_eq!(c.id, 4);
            assert_eq!(c.address, "/link/tempo-change");
            assert_eq!(c.args, "[120.0]");
        }
        other => panic!("expected Cue, got {other:?}"),
    }
}

#[test]
fn audio_switch_device_matches_the_qt_wire_format() {
    let m = out::audio_switch_device(42, "Built-in", 48000.0f32.to_bits(), 1024, "__none__");
    assert_eq!(m.addr, addr::DAEMON_AUDIO_SWITCH_DEVICE);
    assert!(matches!(m.args[0], OscType::Int(42)));
    assert!(matches!(&m.args[1], OscType::String(s) if s == "Built-in"));
    assert!(matches!(m.args[2], OscType::Float(f) if f32::from_bits(f) == 48000.0));
    assert!(matches!(m.args[3], OscType::Int(1024)));
    assert!(matches!(&m.args[4], OscType::String(s) if s == "__none__"));
}

#[test]
fn parses_supersonic_devices_names_until_first_int() {
    let m = msg(
        addr::SUPERSONIC_DEVICES,
        vec![
            s("auto"),
            s("Built-in Audio"),
            s("Built-in Audio"),
            s("HDMI Out"),
            OscType::Int(48000),
            OscType::Int(1),
            OscType::Int(1),
            s("alsa"),
            s("alsa"),
        ],
    );
    match parse_incoming(&m) {
        Some(ClientEvent::AudioDevices(d)) => {
            assert_eq!(d.mode, "auto");
            assert_eq!(d.current_device, "Built-in Audio");
            assert_eq!(d.devices, vec!["Built-in Audio", "HDMI Out"]);
            assert_eq!(d.sample_rate, 48000);
        }
        other => panic!("expected AudioDevices, got {other:?}"),
    }
}

#[test]
fn parses_supersonic_input_devices() {
    let m = msg(
        addr::SUPERSONIC_INPUT_DEVICES,
        vec![s("Mic"), OscType::Int(2), s("Mic"), s("Line In"), s("alsa"), s("alsa")],
    );
    match parse_incoming(&m) {
        Some(ClientEvent::AudioInputDevices(d)) => {
            assert_eq!(d.current_device, "Mic");
            assert_eq!(d.devices, vec!["Mic", "Line In"]);
        }
        other => panic!("expected AudioInputDevices, got {other:?}"),
    }
}

#[test]
fn parses_supersonic_info_simple_and_extended() {
    let simple = msg(addr::SUPERSONIC_INFO, vec![s("SuperSonic booted")]);
    match parse_incoming(&simple) {
        Some(ClientEvent::Scsynth(i)) => {
            assert_eq!(i.text, "SuperSonic booted");
            assert_eq!(i.sample_rate, None);
        }
        other => panic!("expected Scsynth, got {other:?}"),
    }
    let extended =
        msg(addr::SUPERSONIC_INFO, vec![s("running"), OscType::Int(48000), OscType::Int(1024)]);
    match parse_incoming(&extended) {
        Some(ClientEvent::Scsynth(i)) => {
            assert_eq!(i.sample_rate, Some(48000));
            assert_eq!(i.buffer_size, Some(1024));
        }
        other => panic!("expected Scsynth, got {other:?}"),
    }
}

fn addrs(sent: &[Outgoing], to: PortId) -> Vec<String> {
    sent.iter().filter(|o| o.to == to).map(|o| o.message.addr.clone()).collect()
}

#[test]
fn session_wires_all_senders_and_the_incoming_server() {
    let ports = Ports::from_parts(1, 2, 3, 4, 4560, 777);
    assert_eq!(ports.get(PortId::TauOscCues), 4560);
    let (session, mut sent) = Session::connect(&ports);
    assert_eq!(session.token(), 777);
    assert!(addrs(&sent, PortId::Scsynth)
        .iter()
        .any(|a| a == addr::SUPERSONIC_DEVICES_REPORT));
    assert!(sent.iter().any(|o| o.from_listener && o.message.addr == addr::SUPERSONIC_DRIVERS_LIST));

    sent.push(session.run("buffer0", "play 60"));
    sent.push(session.stop());
    sent.push(session.ping());
    sent.push(session.set_mixer_amp(1.5f32.to_bits(), false));
    let spider = addrs(&sent, PortId::GuiSendToSpider);
    for a in [addr::SAVE_AND_RUN_BUFFER, addr::STOP_ALL_JOBS, addr::PING, addr::MIXER_AMP] {
        assert!(spider.iter().any(|x| x == a), "{a}");
    }
    let run = sent.iter().find(|o| o.message.addr == addr::SAVE_AND_RUN_BUFFER).unwrap();
    assert!(matches!(run.message.args[0], OscType::Int(777)));
    assert!(matches!(&run.message.args[2], OscType::String(s) if s == "play 60"));

    sent.push(session.send_to_supersonic(out::clock_tempo_set(120.0f32.to_bits())));
    sent.push(session.switch_audio_device_direct("Out", 48000.0f32.to_bits(), 1024, "__none__"));
    let engine = addrs(&sent, PortId::Scsynth);
    assert!(engine.iter().any(|x| x == addr::CLOCK_TEMPO_SET));
    assert!(engine.iter().any(|x| x == addr::SUPERSONIC_DEVICES_SWITCH));

    sent.push(session.switch_audio_device("Out", 0, 0, ""));
    sent.push(session.shutdown());
    sent.push(session.keep_alive());
    let daemon = addrs(&sent, PortId::Daemon);
    for a in [addr::DAEMON_AUDIO_SWITCH_DEVICE, addr::DAEMON_EXIT, addr::DAEMON_KEEP_ALIVE] {
        assert!(daemon.iter().any(|x| x == a), "{a}");
    }
}

#[test]
fn requests_come_back_from_the_wire_as_they_were_sent() {
    let requests = vec![
        out::stop_all_jobs(-7),
        out::ping(-7, "tag é"),
        out::keep_alive(-7),
        out::daemon_exit(-7),
        out::set_global_timewarp(-7, (-0.25f64).to_bits()),
        out::clock_tempo_set(120.5f32.to_bits()),
        out::record_start("/tmp/a b.wav", "wav", 24),
        out::record_stop(),
        out::supersonic_devices_report(65535),
        out::supersonic_devices_switch("USB", 44100f32.to_bits(), 64, ""),
        out::mixer_amp(-7, f32::INFINITY.to_bits(), true),
        out::audio_switch_device(-7, "", 0, 0, "__none__"),
    ];
    for m in requests {
        let back = received(&encode(&m).unwrap());
        assert_eq!(back, vec![m]);
    }
}
