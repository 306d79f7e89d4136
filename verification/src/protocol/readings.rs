//! What the messages of the runtime are read as, argument by argument.

use super::addr;
use super::incoming::{
    event_of, int_arg, text_or_empty, texts_among, texts_from,
};
use crate::client::{
    AudioDevicesView, AudioInputDevicesView, CueView, EventView, MessageDataView, MessageType,
    MessageView, MidiType, MidiView, OscNumber, ScsynthView, StatusType, StatusView, VersionView,
};
use crate::osc::{ArgView, OscMessageView};
use vstd::prelude::*;

verus! {

/// `t` is the text that stands at place `i`, and empty where none stands there.
pub open spec fn text_at(args: Seq<ArgView>, i: int, t: Seq<char>) -> bool {
    if i < args.len() && args[i] is Text {
        args[i] == ArgView::Text(t)
    } else {
        t.len() == 0
    }
}

/// `n` is the integer that stands at place `i`, and zero where none stands there.
pub open spec fn int_at(args: Seq<ArgView>, i: int, n: i32) -> bool {
    if i < args.len() && args[i] is Int {
        args[i] == ArgView::Int(n)
    } else {
        n == 0
    }
}

/// `n` is the integer that stands at place `i`, and nothing where none stands there.
pub open spec fn rate_at(args: Seq<ArgView>, i: int, n: Option<i32>) -> bool {
    match n {
        Some(v) => i < args.len() && args[i] == ArgView::Int(v),
        None => i >= args.len() || !(args[i] is Int),
    }
}

proof fn lemma_address_lengths()
    ensures
        addr::ACK@.len() == 4,
        addr::RUNS_ALL_COMPLETED@.len() == 19,
        addr::EXITED@.len() == 7,
        addr::EXITED_WITH_BOOT_ERROR@.len() == 23,
        addr::SPIDER_READY@.len() == 13,
        addr::LINK_BPM@.len() == 9,
        addr::LINK_NUM_PEERS@.len() == 15,
        addr::LOG_INFO@.len() == 9,
        addr::ERROR@.len() == 6,
        addr::SYNTAX_ERROR@.len() == 13,
        addr::LOG_MULTI_MESSAGE@.len() == 18,
        addr::INCOMING_OSC@.len() == 13,
        addr::VERSION@.len() == 8,
        addr::MIDI_IN_PORTS@.len() == 14,
        addr::MIDI_OUT_PORTS@.len() == 15,
        addr::GAMEPAD_DEVICES_LIST@.len() == 21,
        addr::SUPERSONIC_DEVICES@.len() == 19,
        addr::SUPERSONIC_INPUT_DEVICES@.len() == 25,
        addr::SUPERSONIC_INFO@.len() == 16,
        addr::ACK@[1] == 'a',
        addr::RUNS_ALL_COMPLETED@[1] == 'r',
        addr::EXITED@[1] == 'e',
        addr::EXITED_WITH_BOOT_ERROR@[1] == 'e',
        addr::SPIDER_READY@[1] == 's',
        addr::SPIDER_READY@[2] == 'p',
        addr::LINK_BPM@[1] == 'l',
        addr::LINK_NUM_PEERS@[1] == 'l',
        addr::LOG_INFO@[1] == 'l',
        addr::ERROR@[1] == 'e',
        addr::SYNTAX_ERROR@[1] == 's',
        addr::SYNTAX_ERROR@[2] == 'y',
        addr::LOG_MULTI_MESSAGE@[1] == 'l',
        addr::INCOMING_OSC@[1] == 'i',
        addr::VERSION@[1] == 'v',
        addr::MIDI_IN_PORTS@[1] == 'm',
        addr::MIDI_OUT_PORTS@[1] == 'm',
        addr::GAMEPAD_DEVICES_LIST@[1] == 'g',
        addr::SUPERSONIC_DEVICES@[1] == 's',
        addr::SUPERSONIC_DEVICES@[2] == 'u',
        addr::SUPERSONIC_INPUT_DEVICES@[1] == 's',
        addr::SUPERSONIC_INPUT_DEVICES@[2] == 'u',
        addr::SUPERSONIC_INFO@[1] == 's',
        addr::SUPERSONIC_INFO@[2] == 'u',
        addr::LINK_BPM@[2] == 'i',
        addr::LOG_INFO@[2] == 'o',
        addr::UPDATE_INFO_TEXT@[1] == 'u',
{
    reveal_strlit("/ack");
    reveal_strlit("/runs/all-completed");
    reveal_strlit("/exited");
    reveal_strlit("/exited-with-boot-error");
    reveal_strlit("/spider/ready");
    reveal_strlit("/link-bpm");
    reveal_strlit("/link-num-peers");
    reveal_strlit("/log/info");
    reveal_strlit("/error");
    reveal_strlit("/syntax_error");
    reveal_strlit("/log/multi_message");
    reveal_strlit("/incoming/osc");
    reveal_strlit("/version");
    reveal_strlit("/midi/in-ports");
    reveal_strlit("/midi/out-ports");
    reveal_strlit("/gamepad/devices-list");
    reveal_strlit("/supersonic/devices");
    reveal_strlit("/supersonic/input-devices");
    reveal_strlit("/supersonic/info");
    reveal_strlit("/update-info-text");
}

/// The three status messages carry the id of the run that they speak of.
pub proof fn law_status_is_read(args: Seq<ArgView>, id: Seq<char>)
    requires
        text_at(args, 0, id),
    ensures
        event_of(OscMessageView { addr: "/ack"@, args }) == Some(
            EventView::Status(StatusView { kind: StatusType::Ack, id }),
        ),
        event_of(OscMessageView { addr: "/runs/all-completed"@, args }) == Some(
            EventView::Status(StatusView { kind: StatusType::AllComplete, id }),
        ),
        event_of(OscMessageView { addr: "/exited"@, args }) == Some(
            EventView::Status(StatusView { kind: StatusType::Exited, id }),
        ),
{
    lemma_address_lengths();
    assert(text_or_empty(args, 0) =~= id);
}

/// A boot error carries its text; the runtime's ready message carries nothing.
pub proof fn law_boot_is_read(args: Seq<ArgView>, text: Seq<char>)
    requires
        text_at(args, 0, text),
    ensures
        event_of(OscMessageView { addr: "/exited-with-boot-error"@, args }) == Some(
            EventView::BootError(text),
        ),
        event_of(OscMessageView { addr: "/spider/ready"@, args }) == Some(EventView::SpiderReady),
{
    lemma_address_lengths();
    assert(text_or_empty(args, 0) =~= text);
}

/// A tempo is taken as a double, a float or an integer, and as the number it is;
/// anything else is no tempo.
pub proof fn law_tempo_is_read(args: Seq<ArgView>)
    ensures
        ({
            let e = event_of(OscMessageView { addr: "/link-bpm"@, args });
            &&& args.len() == 0 ==> e is None
            &&& args.len() > 0 ==> match args[0] {
                ArgView::Double(b) => e == Some(EventView::Bpm(OscNumber::Double(b))),
                ArgView::Float(b) => e == Some(EventView::Bpm(OscNumber::Float(b))),
                ArgView::Int(n) => e == Some(EventView::Bpm(OscNumber::Int(n))),
                _ => e is None,
            }
        }),
{
    lemma_address_lengths();
}

/// The number of peers is the first argument, if it is an integer.
pub proof fn law_peers_are_read(args: Seq<ArgView>)
    ensures
        ({
            let e = event_of(OscMessageView { addr: "/link-num-peers"@, args });
            &&& args.len() == 0 ==> e is None
            &&& args.len() > 0 ==> match args[0] {
                ArgView::Int(n) => e == Some(EventView::ActiveLinks(n)),
                _ => e is None,
            }
        }),
{
    lemma_address_lengths();
}

/// A line of information has its style before its text.
pub proof fn law_info_is_read(args: Seq<ArgView>, style: i32, text: Seq<char>)
    requires
        int_at(args, 0, style),
        text_at(args, 1, text),
    ensures
        event_of(OscMessageView { addr: "/log/info"@, args }) == Some(
            EventView::Report(
                MessageView {
                    kind: MessageType::Info,
                    text,
                    style,
                    job_id: 0,
                    thread_name: seq![],
                    runtime: seq![],
                    backtrace: seq![],
                    line: 0,
                    multi: seq![],
                },
            ),
        ),
{
    lemma_address_lengths();
    assert(text_or_empty(args, 1) =~= text);
}

/// An error names its job, its text, its backtrace and its line, in that order.
/// What tells the two kinds apart is the address.
pub proof fn law_errors_are_read(
    args: Seq<ArgView>,
    job_id: i32,
    text: Seq<char>,
    backtrace: Seq<char>,
    line: i32,
)
    requires
        int_at(args, 0, job_id),
        text_at(args, 1, text),
        text_at(args, 2, backtrace),
        int_at(args, 3, line),
    ensures
        event_of(OscMessageView { addr: "/error"@, args }) == Some(
            EventView::Report(
                MessageView {
                    kind: MessageType::RuntimeError,
                    text,
                    style: 0,
                    job_id,
                    thread_name: seq![],
                    runtime: seq![],
                    backtrace,
                    line,
                    multi: seq![],
                },
            ),
        ),
        event_of(OscMessageView { addr: "/syntax_error"@, args }) == Some(
            EventView::Report(
                MessageView {
                    kind: MessageType::SyntaxError,
                    text,
                    style: 0,
                    job_id,
                    thread_name: seq![],
                    runtime: seq![],
                    backtrace,
                    line,
                    multi: seq![],
                },
            ),
        ),
{
    lemma_address_lengths();
    assert(text_or_empty(args, 1) =~= text);
    assert(text_or_empty(args, 2) =~= backtrace);
}

/// A report of several lines names its job, its thread, its run time and the number
/// of its lines, in that order. Behind them each line stands as a style and a text;
/// a line that was announced and did not come has style zero and no text.
pub proof fn law_multi_is_read(
    args: Seq<ArgView>,
    job_id: i32,
    thread_name: Seq<char>,
    runtime: Seq<char>,
    count: i32,
)
    requires
        int_at(args, 0, job_id),
        text_at(args, 1, thread_name),
        text_at(args, 2, runtime),
        int_at(args, 3, count),
    ensures
        event_of(OscMessageView { addr: "/log/multi_message"@, args }) matches Some(
            EventView::Report(m),
        ) && {
            &&& m.kind == MessageType::Multi
            &&& m.job_id == job_id
            &&& m.thread_name == thread_name
            &&& m.runtime == runtime
            &&& m.text.len() == 0 && m.backtrace.len() == 0
            &&& m.style == 0 && m.line == 0
            &&& m.multi.len() == if count > 0 {
                count as int
            } else {
                0
            }
            &&& forall|k: int|
                0 <= k < m.multi.len() ==> int_at(args, 4 + 2 * k, (#[trigger] m.multi[k]).style)
                    && text_at(args, 5 + 2 * k, m.multi[k].text)
        },
{
    lemma_address_lengths();
    assert(text_or_empty(args, 1) =~= thread_name);
    assert(text_or_empty(args, 2) =~= runtime);
}

/// The lines of a report as the arguments that they are sent as.
pub open spec fn line_args(ls: Seq<MessageDataView>) -> Seq<ArgView>
    decreases ls.len(),
{
    if ls.len() == 0 {
        seq![]
    } else {
        line_args(ls.drop_last()).push(ArgView::Int(ls.last().style)).push(
            ArgView::Text(ls.last().text),
        )
    }
}

proof fn lemma_line_args(ls: Seq<MessageDataView>)
    ensures
        line_args(ls).len() == 2 * ls.len(),
        forall|k: int|
            0 <= k < ls.len() ==> line_args(ls)[2 * k] == ArgView::Int((#[trigger] ls[k]).style)
                && line_args(ls)[2 * k + 1] == ArgView::Text(ls[k].text),
    decreases ls.len(),
{
    if ls.len() > 0 {
        let before = ls.drop_last();
        lemma_line_args(before);
        assert forall|k: int| 0 <= k < ls.len() implies line_args(ls)[2 * k] == ArgView::Int(
            (#[trigger] ls[k]).style,
        ) && line_args(ls)[2 * k + 1] == ArgView::Text(ls[k].text) by {
            if k < before.len() {
                assert(before[k] == ls[k]);
                assert(line_args(ls)[2 * k] == line_args(before)[2 * k]);
                assert(line_args(ls)[2 * k + 1] == line_args(before)[2 * k + 1]);
            }
        }
    }
}

/// Every field of a report of several lines comes back from the message that is
/// made of them.
pub proof fn law_multi_comes_back(
    job_id: i32,
    thread_name: Seq<char>,
    runtime: Seq<char>,
    multi: Seq<MessageDataView>,
)
    requires
        multi.len() <= i32::MAX,
    ensures
        event_of(
            OscMessageView {
                addr: "/log/multi_message"@,
                args: seq![
                    ArgView::Int(job_id),
                    ArgView::Text(thread_name),
                    ArgView::Text(runtime),
                    ArgView::Int(multi.len() as i32),
                ] + line_args(multi),
            },
        ) == Some(
            EventView::Report(
                MessageView {
                    kind: MessageType::Multi,
                    text: seq![],
                    style: 0,
                    job_id,
                    thread_name,
                    runtime,
                    backtrace: seq![],
                    line: 0,
                    multi,
                },
            ),
        ),
{
    let head = seq![
        ArgView::Int(job_id),
        ArgView::Text(thread_name),
        ArgView::Text(runtime),
        ArgView::Int(multi.len() as i32),
    ];
    let args = head + line_args(multi);
    lemma_line_args(multi);
    law_multi_is_read(args, job_id, thread_name, runtime, multi.len() as i32);
    let m = event_of(OscMessageView { addr: "/log/multi_message"@, args })->0->Report_0;
    assert forall|k: int| 0 <= k < multi.len() implies m.multi[k] == multi[k] by {
        let line = m.multi[k];
        assert(multi[k].style == multi[k].style);
        assert(args[4 + 2 * k] == line_args(multi)[2 * k]);
        assert(args[5 + 2 * k] == line_args(multi)[2 * k + 1]);
        assert(line =~= multi[k]);
    }
    assert(m.multi =~= multi);
    assert(m.text =~= seq![]);
    assert(m.backtrace =~= seq![]);
}

/// A cue names its time, its id, its address and its arguments, in that order.
pub proof fn law_cue_is_read(
    args: Seq<ArgView>,
    time: Seq<char>,
    id: i32,
    address: Seq<char>,
    values: Seq<char>,
)
    requires
        text_at(args, 0, time),
        int_at(args, 1, id),
        text_at(args, 2, address),
        text_at(args, 3, values),
    ensures
        event_of(OscMessageView { addr: "/incoming/osc"@, args }) == Some(
            EventView::Cue(CueView { time, address, id, args: values, index: 0 }),
        ),
{
    lemma_address_lengths();
    assert(text_or_empty(args, 0) =~= time);
    assert(text_or_empty(args, 2) =~= address);
    assert(text_or_empty(args, 3) =~= values);
}

/// A version message names this version and the latest one, each as a text and a
/// number; the platform is its last argument.
pub proof fn law_version_is_read(
    args: Seq<ArgView>,
    version: Seq<char>,
    num: i32,
    latest_version: Seq<char>,
    latest_num: i32,
    platform: Seq<char>,
)
    requires
        text_at(args, 0, version),
        int_at(args, 1, num),
        text_at(args, 2, latest_version),
        int_at(args, 3, latest_num),
        text_at(args, 7, platform),
    ensures
        event_of(OscMessageView { addr: "/version"@, args }) == Some(
            EventView::Version(
                VersionView { version, num, latest_version, latest_num, platform },
            ),
        ),
{
    lemma_address_lengths();
    assert(text_or_empty(args, 0) =~= version);
    assert(text_or_empty(args, 2) =~= latest_version);
    assert(text_or_empty(args, 7) =~= platform);
}

/// A port list goes to the direction that its address names; the gamepads have a
/// list of their own.
pub proof fn law_ports_are_read(args: Seq<ArgView>, text: Seq<char>)
    requires
        text_at(args, 0, text),
    ensures
        event_of(OscMessageView { addr: "/midi/in-ports"@, args }) == Some(
            EventView::Midi(MidiView { kind: MidiType::In, port_info: text }),
        ),
        event_of(OscMessageView { addr: "/midi/out-ports"@, args }) == Some(
            EventView::Midi(MidiView { kind: MidiType::Out, port_info: text }),
        ),
        event_of(OscMessageView { addr: "/gamepad/devices-list"@, args }) == Some(
            EventView::GamepadDevices(text),
        ),
{
    lemma_address_lengths();
    assert(text_or_empty(args, 0) =~= text);
}

/// Texts as arguments.
pub open spec fn text_args(names: Seq<Seq<char>>) -> Seq<ArgView> {
    Seq::new(names.len(), |i: int| ArgView::Text(names[i]))
}

proof fn lemma_texts_from(args: Seq<ArgView>, names: Seq<Seq<char>>, i: int)
    requires
        0 <= i,
        args.len() >= i + names.len(),
        forall|j: int| 0 <= j < names.len() ==> args[i + j] == ArgView::Text(#[trigger] names[j]),
        args.len() > i + names.len() ==> !(args[i + names.len()] is Text),
    ensures
        texts_from(args, i) == names,
    decreases names.len(),
{
    if names.len() == 0 {
        assert(texts_from(args, i) =~= names);
    } else {
        let rest = names.drop_first();
        assert(args[i + 0] == ArgView::Text(names[0]));
        assert forall|j: int| 0 <= j < rest.len() implies args[i + 1 + j] == ArgView::Text(
            #[trigger] rest[j],
        ) by {
            assert(rest[j] == names[j + 1]);
            assert(args[i + (j + 1)] == ArgView::Text(names[j + 1]));
        }
        lemma_texts_from(args, rest, i + 1);
        assert(texts_from(args, i) =~= names);
    }
}

/// A list of output devices names the mode, the device in use, every device in the
/// order sent, and the rate.
pub proof fn law_output_devices_are_read(
    mode: Seq<char>,
    current_device: Seq<char>,
    devices: Seq<Seq<char>>,
    sample_rate: i32,
    rest: Seq<ArgView>,
)
    ensures
        event_of(
            OscMessageView {
                addr: "/supersonic/devices"@,
                args: seq![ArgView::Text(mode), ArgView::Text(current_device)] + text_args(devices)
                    + seq![ArgView::Int(sample_rate)] + rest,
            },
        ) == Some(
            EventView::AudioDevices(
                AudioDevicesView { mode, current_device, devices, sample_rate },
            ),
        ),
{
    lemma_address_lengths();
    let args = seq![ArgView::Text(mode), ArgView::Text(current_device)] + text_args(devices)
        + seq![ArgView::Int(sample_rate)] + rest;
    assert(args[0] == ArgView::Text(mode));
    assert(args[1] == ArgView::Text(current_device));
    assert forall|j: int| 0 <= j < devices.len() implies args[2 + j] == ArgView::Text(
        #[trigger] devices[j],
    ) by {
        assert(args[2 + j] == text_args(devices)[j]);
    }
    assert(args[2 + devices.len() as int] == ArgView::Int(sample_rate));
    lemma_texts_from(args, devices, 2);
}

proof fn lemma_texts_among(args: Seq<ArgView>, names: Seq<Seq<char>>)
    requires
        args.len() >= 2 + names.len(),
        forall|j: int| 0 <= j < names.len() ==> args[2 + j] == ArgView::Text(#[trigger] names[j]),
    ensures
        texts_among(args, names.len() as int) == names,
    decreases names.len(),
{
    if names.len() > 0 {
        let before = names.drop_last();
        assert forall|j: int| 0 <= j < before.len() implies args[2 + j] == ArgView::Text(
            #[trigger] before[j],
        ) by {
            assert(before[j] == names[j]);
        }
        lemma_texts_among(args, before);
        let n = names.len() as int;
        assert(args[2 + (n - 1)] == ArgView::Text(names[n - 1]));
        assert(texts_among(args, n) =~= names);
    } else {
        assert(texts_among(args, 0) =~= names);
    }
}

/// A list of input devices names the device in use and, by their number, every
/// device in the order sent.
pub proof fn law_input_devices_are_read(
    current_device: Seq<char>,
    devices: Seq<Seq<char>>,
    rest: Seq<ArgView>,
)
    requires
        devices.len() <= i32::MAX,
    ensures
        event_of(
            OscMessageView {
                addr: "/supersonic/input-devices"@,
                args: seq![ArgView::Text(current_device), ArgView::Int(devices.len() as i32)]
                    + text_args(devices) + rest,
            },
        ) == Some(
            EventView::AudioInputDevices(AudioInputDevicesView { current_device, devices }),
        ),
{
    lemma_address_lengths();
    let args = seq![ArgView::Text(current_device), ArgView::Int(devices.len() as i32)] + text_args(
        devices,
    ) + rest;
    assert(args[0] == ArgView::Text(current_device));
    assert(args[1] == ArgView::Int(devices.len() as i32));
    assert forall|j: int| 0 <= j < devices.len() implies args[2 + j] == ArgView::Text(
        #[trigger] devices[j],
    ) by {
        assert(args[2 + j] == text_args(devices)[j]);
    }
    lemma_texts_among(args, devices);
}

/// The engine's status names a text, a rate and a buffer size; the two numbers may
/// be left out.
pub proof fn law_engine_status_is_read(
    args: Seq<ArgView>,
    text: Seq<char>,
    sample_rate: Option<i32>,
    buffer_size: Option<i32>,
)
    requires
        text_at(args, 0, text),
        rate_at(args, 1, sample_rate),
        rate_at(args, 2, buffer_size),
    ensures
        event_of(OscMessageView { addr: "/supersonic/info"@, args }) == Some(
            EventView::Scsynth(ScsynthView { text, sample_rate, buffer_size }),
        ),
{
    lemma_address_lengths();
    assert(text_or_empty(args, 0) =~= text);
    assert(int_arg(args, 1) == sample_rate);
    assert(int_arg(args, 2) == buffer_size);
}

/// A message that is read as nothing in particular is still accounted for: one of a
/// known family is handed on under its own address, and any other is dropped.
pub proof fn law_other_messages(a: Seq<char>, args: Seq<ArgView>)
    requires
        a != "/ack"@,
        a != "/runs/all-completed"@,
        a != "/exited"@,
        a != "/exited-with-boot-error"@,
        a != "/spider/ready"@,
        a != "/link-bpm"@,
        a != "/link-num-peers"@,
        a != "/log/info"@,
        a != "/error"@,
        a != "/syntax_error"@,
        a != "/log/multi_message"@,
        a != "/incoming/osc"@,
        a != "/version"@,
        a != "/midi/in-ports"@,
        a != "/midi/out-ports"@,
        a != "/gamepad/devices-list"@,
        a != "/supersonic/devices"@,
        a != "/supersonic/input-devices"@,
        a != "/supersonic/info"@,
    ensures
        ({
            let e = event_of(OscMessageView { addr: a, args });
            if "/supersonic/"@.is_prefix_of(a) || "/buffer/"@.is_prefix_of(a) || a
                == "/update-info-text"@ {
                e == Some(EventView::Unhandled { addr: a })
            } else {
                e is None
            }
        }),
{
}

} // verus!
