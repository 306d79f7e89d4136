//! What incoming messages mean.

use super::addr;
use crate::client::{
    message_data_views, simple_message, AudioDevicesInfo, AudioDevicesView, AudioInputDevicesInfo,
    AudioInputDevicesView, ClientEvent, CueInfo, CueView, EventView, MessageData, MessageDataView,
    MessageInfo, MessageType, MessageView, MidiInfo, MidiType, MidiView, OscNumber, ScsynthInfo,
    ScsynthView, StatusInfo, StatusType, StatusView, VersionInfo, VersionView,
};
use crate::osc::{ArgView, OscMessage, OscMessageView, OscType};
use crate::text::{begins_with_text, chars_of, is_text, string_views};
use vstd::prelude::*;
use vstd::string::*;

verus! {

/// Argument `i`, if it is there and an integer.
pub open spec fn int_arg(args: Seq<ArgView>, i: int) -> Option<i32> {
    if 0 <= i < args.len() {
        match args[i] {
            ArgView::Int(v) => Some(v),
            _ => None,
        }
    } else {
        None
    }
}

/// Argument `i`, if it is there and an integer; zero otherwise.
pub open spec fn int_or_zero(args: Seq<ArgView>, i: int) -> i32 {
    match int_arg(args, i) {
        Some(v) => v,
        None => 0,
    }
}

/// Argument `i`, if it is there and a text.
pub open spec fn text_arg(args: Seq<ArgView>, i: int) -> Option<Seq<char>> {
    if 0 <= i < args.len() {
        match args[i] {
            ArgView::Text(v) => Some(v),
            _ => None,
        }
    } else {
        None
    }
}

/// Argument `i`, if it is there and a text; empty otherwise.
pub open spec fn text_or_empty(args: Seq<ArgView>, i: int) -> Seq<char> {
    match text_arg(args, i) {
        Some(v) => v,
        None => seq![],
    }
}

/// Argument `i`, if it is there and a number.
pub open spec fn number_arg(args: Seq<ArgView>, i: int) -> Option<OscNumber> {
    if 0 <= i < args.len() {
        match args[i] {
            ArgView::Double(b) => Some(OscNumber::Double(b)),
            ArgView::Float(b) => Some(OscNumber::Float(b)),
            ArgView::Int(v) => Some(OscNumber::Int(v)),
            _ => None,
        }
    } else {
        None
    }
}

fn arg_i32(m: &OscMessage, i: usize) -> (r: Option<i32>)
    ensures
        r == int_arg(m@.args, i as int),
{
    if i < m.args.len() {
        assert(m@.args[i as int] == m.args@[i as int]@);
        match &m.args[i] {
            OscType::Int(v) => Some(*v),
            _ => None,
        }
    } else {
        None
    }
}

fn i32_or_zero(m: &OscMessage, i: usize) -> (r: i32)
    ensures
        r == int_or_zero(m@.args, i as int),
{
    match arg_i32(m, i) {
        Some(v) => v,
        None => 0,
    }
}

fn arg_str(m: &OscMessage, i: usize) -> (r: Option<String>)
    ensures
        match r {
            Some(t) => text_arg(m@.args, i as int) == Some(t@),
            None => text_arg(m@.args, i as int) is None,
        },
{
    if i < m.args.len() {
        assert(m@.args[i as int] == m.args@[i as int]@);
        match &m.args[i] {
            OscType::String(v) => Some(v.clone()),
            _ => None,
        }
    } else {
        None
    }
}

fn str_or_empty(m: &OscMessage, i: usize) -> (r: String)
    ensures
        r@ == text_or_empty(m@.args, i as int),
{
    match arg_str(m, i) {
        Some(t) => t,
        None => String::new(),
    }
}

fn arg_number(m: &OscMessage, i: usize) -> (r: Option<OscNumber>)
    ensures
        r == number_arg(m@.args, i as int),
{
    if i < m.args.len() {
        assert(m@.args[i as int] == m.args@[i as int]@);
        match &m.args[i] {
            OscType::Double(b) => Some(OscNumber::Double(*b)),
            OscType::Float(b) => Some(OscNumber::Float(*b)),
            OscType::Int(v) => Some(OscNumber::Int(*v)),
            _ => None,
        }
    } else {
        None
    }
}

/// The texts that stand in `args` from index `i` on, up to the first argument that
/// is not a text.
pub open spec fn texts_from(args: Seq<ArgView>, i: int) -> Seq<Seq<char>>
    decreases args.len() - i,
{
    match text_arg(args, i) {
        Some(t) => seq![t] + texts_from(args, i + 1),
        None => seq![],
    }
}

/// `[mode, current, name.., rate, ..]`: the names run until the first argument
/// that is not a text, and the rate is that argument.
pub open spec fn audio_devices(args: Seq<ArgView>) -> AudioDevicesView {
    let names = texts_from(args, 2);
    AudioDevicesView {
        mode: text_or_empty(args, 0),
        current_device: text_or_empty(args, 1),
        devices: names,
        sample_rate: int_or_zero(args, 2 + names.len() as int),
    }
}

/// The texts among the `n` arguments from index 2 on.
pub open spec fn texts_among(args: Seq<ArgView>, n: int) -> Seq<Seq<char>>
    decreases n,
{
    if n <= 0 {
        seq![]
    } else {
        match text_arg(args, 1 + n) {
            Some(t) => texts_among(args, n - 1).push(t),
            None => texts_among(args, n - 1),
        }
    }
}

/// `[current, count, name.., ..]`.
pub open spec fn audio_input_devices(args: Seq<ArgView>) -> AudioInputDevicesView {
    AudioInputDevicesView {
        current_device: text_or_empty(args, 0),
        devices: texts_among(args, int_or_zero(args, 1) as int),
    }
}

/// `[job, text, backtrace, line]`.
pub open spec fn error_report(args: Seq<ArgView>, kind: MessageType) -> MessageView {
    MessageView {
        job_id: int_or_zero(args, 0),
        backtrace: text_or_empty(args, 2),
        line: int_or_zero(args, 3),
        ..simple_message(kind, text_or_empty(args, 1))
    }
}

/// The `k`-th `(style, text)` pair of a multi-message.
pub open spec fn multi_line(args: Seq<ArgView>, k: int) -> MessageDataView {
    MessageDataView {
        style: int_or_zero(args, 4 + 2 * k),
        text: text_or_empty(args, 5 + 2 * k),
    }
}

/// How many pairs a multi-message announces.
pub open spec fn multi_count(args: Seq<ArgView>) -> nat {
    let n = int_or_zero(args, 3);
    if n > 0 {
        n as nat
    } else {
        0
    }
}

/// `[job, thread, runtime, count, (style, text)..]`.
pub open spec fn multi_report(args: Seq<ArgView>) -> MessageView {
    MessageView {
        job_id: int_or_zero(args, 0),
        thread_name: text_or_empty(args, 1),
        runtime: text_or_empty(args, 2),
        multi: Seq::new(multi_count(args), |k: int| multi_line(args, k)),
        ..simple_message(MessageType::Multi, seq![])
    }
}

pub open spec fn status(kind: StatusType, args: Seq<ArgView>) -> EventView {
    EventView::Status(StatusView { kind, id: text_or_empty(args, 0) })
}

pub open spec fn midi_ports(kind: MidiType, args: Seq<ArgView>) -> EventView {
    EventView::Midi(MidiView { kind, port_info: text_or_empty(args, 0) })
}

/// Whether an address belongs to a family that is known but carries nothing the
/// front end shows. The replies of the engine to a driver list and to a driver
/// switch are among these: their arguments are not read.
pub open spec fn known_family(a: Seq<char>) -> bool {
    "/supersonic/"@.is_prefix_of(a) || "/buffer/"@.is_prefix_of(a) || a == addr::UPDATE_INFO_TEXT@
}

/// The event that a message stands for, or `None` when it is not routed.
pub open spec fn event_of(m: OscMessageView) -> Option<EventView> {
    let a = m.addr;
    let args = m.args;
    if a == addr::ACK@ {
        Some(status(StatusType::Ack, args))
    } else if a == addr::RUNS_ALL_COMPLETED@ {
        Some(status(StatusType::AllComplete, args))
    } else if a == addr::EXITED@ {
        Some(status(StatusType::Exited, args))
    } else if a == addr::EXITED_WITH_BOOT_ERROR@ {
        Some(EventView::BootError(text_or_empty(args, 0)))
    } else if a == addr::SPIDER_READY@ {
        Some(EventView::SpiderReady)
    } else if a == addr::LINK_BPM@ {
        match number_arg(args, 0) {
            Some(n) => Some(EventView::Bpm(n)),
            None => None,
        }
    } else if a == addr::LINK_NUM_PEERS@ {
        match int_arg(args, 0) {
            Some(n) => Some(EventView::ActiveLinks(n)),
            None => None,
        }
    } else if a == addr::LOG_INFO@ {
        Some(
            EventView::Report(
                MessageView {
                    style: int_or_zero(args, 0),
                    ..simple_message(MessageType::Info, text_or_empty(args, 1))
                },
            ),
        )
    } else if a == addr::ERROR@ {
        Some(EventView::Report(error_report(args, MessageType::RuntimeError)))
    } else if a == addr::SYNTAX_ERROR@ {
        Some(EventView::Report(error_report(args, MessageType::SyntaxError)))
    } else if a == addr::LOG_MULTI_MESSAGE@ {
        Some(EventView::Report(multi_report(args)))
    } else if a == addr::INCOMING_OSC@ {
        Some(
            EventView::Cue(
                CueView {
                    time: text_or_empty(args, 0),
                    id: int_or_zero(args, 1),
                    address: text_or_empty(args, 2),
                    args: text_or_empty(args, 3),
                    index: 0,
                },
            ),
        )
    } else if a == addr::VERSION@ {
        Some(
            EventView::Version(
                VersionView {
                    version: text_or_empty(args, 0),
                    num: int_or_zero(args, 1),
                    latest_version: text_or_empty(args, 2),
                    latest_num: int_or_zero(args, 3),
                    platform: text_or_empty(args, 7),
                },
            ),
        )
    } else if a == addr::MIDI_IN_PORTS@ {
        Some(midi_ports(MidiType::In, args))
    } else if a == addr::MIDI_OUT_PORTS@ {
        Some(midi_ports(MidiType::Out, args))
    } else if a == addr::GAMEPAD_DEVICES_LIST@ {
        Some(EventView::GamepadDevices(text_or_empty(args, 0)))
    } else if a == addr::SUPERSONIC_DEVICES@ {
        Some(EventView::AudioDevices(audio_devices(args)))
    } else if a == addr::SUPERSONIC_INPUT_DEVICES@ {
        Some(EventView::AudioInputDevices(audio_input_devices(args)))
    } else if a == addr::SUPERSONIC_INFO@ {
        Some(
            EventView::Scsynth(
                ScsynthView {
                    text: text_or_empty(args, 0),
                    sample_rate: int_arg(args, 1),
                    buffer_size: int_arg(args, 2),
                },
            ),
        )
    } else if known_family(a) {
        Some(EventView::Unhandled { addr: a })
    } else {
        None
    }
}

fn parse_audio_devices(m: &OscMessage) -> (r: AudioDevicesInfo)
    ensures
        r@ == audio_devices(m@.args),
{
    let mut devices: Vec<String> = Vec::new();
    let ghost args = m@.args;
    let mut i: usize = 2;
    assert(string_views(devices@) + texts_from(args, 2) =~= texts_from(args, 2));
    while i < m.args.len()
        invariant
            2 <= i,
            i == 2 + devices@.len(),
            args == m@.args,
            string_views(devices@) + texts_from(args, i as int) == texts_from(args, 2),
        ensures
            i == 2 + devices@.len(),
            string_views(devices@) == texts_from(args, 2),
        decreases m.args@.len() - i,
    {
        let ghost before = string_views(devices@);
        match arg_str(m, i) {
            Some(t) => {
                devices.push(t);
                assert(string_views(devices@) =~= before.push(t@));
                assert(string_views(devices@) + texts_from(args, i + 1) =~= before + texts_from(
                    args,
                    i as int,
                ));
                i = i + 1;
            },
            None => {
                assert(string_views(devices@) =~= texts_from(args, 2));
                break;
            },
        }
        if i >= m.args.len() {
            assert(texts_from(args, i as int) =~= seq![]);
            assert(string_views(devices@) =~= texts_from(args, 2));
        }
    }
    AudioDevicesInfo {
        mode: str_or_empty(m, 0),
        current_device: str_or_empty(m, 1),
        devices,
        sample_rate: i32_or_zero(m, i),
    }
}

proof fn lemma_no_texts_beyond(args: Seq<ArgView>, n: int, k: int)
    requires
        0 <= k <= n,
        k + 2 >= args.len(),
    ensures
        texts_among(args, n) == texts_among(args, k),
    decreases n,
{
    if n > k {
        lemma_no_texts_beyond(args, n - 1, k);
    }
}

fn parse_audio_input_devices(m: &OscMessage) -> (r: AudioInputDevicesInfo)
    ensures
        r@ == audio_input_devices(m@.args),
{
    let ghost args = m@.args;
    let announced: i32 = i32_or_zero(m, 1);
    let n: u32 = if announced > 0 {
        announced as u32
    } else {
        0
    };
    let mut devices: Vec<String> = Vec::new();
    let mut i: u32 = 0;
    assert(string_views(devices@) =~= texts_among(args, 0));
    while i < n && (i as u64) + 2 < m.args.len() as u64
        invariant
            i <= n,
            args == m@.args,
            string_views(devices@) == texts_among(args, i as int),
        decreases n - i,
    {
        let ghost before = string_views(devices@);
        match arg_str(m, i as usize + 2) {
            Some(t) => {
                devices.push(t);
                assert(string_views(devices@) =~= before.push(t@));
            },
            None => {},
        }
        i = i + 1;
    }
    proof {
        if i < n {
            lemma_no_texts_beyond(args, n as int, i as int);
        }
    }
    AudioInputDevicesInfo { current_device: str_or_empty(m, 0), devices }
}

fn parse_error(m: &OscMessage, kind: MessageType) -> (r: MessageInfo)
    ensures
        r@ == error_report(m@.args, kind),
{
    MessageInfo {
        job_id: i32_or_zero(m, 0),
        backtrace: str_or_empty(m, 2),
        line: i32_or_zero(m, 3),
        ..MessageInfo::simple(kind, str_or_empty(m, 1))
    }
}

fn parse_multi(m: &OscMessage) -> (r: MessageInfo)
    ensures
        r@ == multi_report(m@.args),
{
    let ghost args = m@.args;
    let announced: i32 = i32_or_zero(m, 3);
    let count: u64 = if announced > 0 {
        announced as u64
    } else {
        0
    };
    let ghost wanted = multi_report(args).multi;
    let mut multi: Vec<MessageData> = Vec::new();
    let mut k: u64 = 0;
    assert(message_data_views(multi@) =~= wanted.take(0));
    while k < count
        invariant
            k <= count <= 0x7fff_ffff,
            args == m@.args,
            count == multi_count(args),
            wanted == multi_report(args).multi,
            message_data_views(multi@) == wanted.take(k as int),
        decreases count - k,
    {
        let ghost before = message_data_views(multi@);
        let base: u64 = 4 + k * 2;
        let len: u64 = m.args.len() as u64;
        let line: MessageData = MessageData {
            style: if base < len {
                i32_or_zero(m, base as usize)
            } else {
                0
            },
            text: if base + 1 < len {
                str_or_empty(m, (base + 1) as usize)
            } else {
                String::new()
            },
        };
        assert(line@ =~= multi_line(args, k as int));
        multi.push(line);
        assert(message_data_views(multi@) =~= before.push(line@));
        assert(wanted.take(k + 1) =~= wanted.take(k as int).push(wanted[k as int]));
        k = k + 1;
    }
    assert(wanted.take(count as int) =~= wanted);
    MessageInfo {
        job_id: i32_or_zero(m, 0),
        thread_name: str_or_empty(m, 1),
        runtime: str_or_empty(m, 2),
        multi,
        ..MessageInfo::simple(MessageType::Multi, String::new())
    }
}

fn status_event(kind: StatusType, m: &OscMessage) -> (r: ClientEvent)
    ensures
        r@ == status(kind, m@.args),
{
    ClientEvent::Status(StatusInfo { kind, id: str_or_empty(m, 0) })
}

fn midi_event(kind: MidiType, m: &OscMessage) -> (r: ClientEvent)
    ensures
        r@ == midi_ports(kind, m@.args),
{
    ClientEvent::Midi(MidiInfo { kind, port_info: str_or_empty(m, 0) })
}

/// Reads an incoming message. It never fails: an argument that is missing or of
/// another type counts as zero or as empty, and a message that is not routed is
/// `None`. No message gives `AudioDrivers` or `DriverSwitched`: the replies to a
/// driver list and to a driver switch come out as `Unhandled`.
pub fn parse_incoming(m: &OscMessage) -> (r: Option<ClientEvent>)
    ensures
        match r {
            Some(e) => event_of(m@) == Some(e@),
            None => event_of(m@) is None,
        },
{
    let cs: Vec<char> = chars_of(m.addr.as_str());
    let a: &[char] = cs.as_slice();
    if is_text(a, addr::ACK) {
        Some(status_event(StatusType::Ack, m))
    } else if is_text(a, addr::RUNS_ALL_COMPLETED) {
        Some(status_event(StatusType::AllComplete, m))
    } else if is_text(a, addr::EXITED) {
        Some(status_event(StatusType::Exited, m))
    } else if is_text(a, addr::EXITED_WITH_BOOT_ERROR) {
        Some(ClientEvent::BootError(str_or_empty(m, 0)))
    } else if is_text(a, addr::SPIDER_READY) {
        Some(ClientEvent::SpiderReady)
    } else if is_text(a, addr::LINK_BPM) {
        match arg_number(m, 0) {
            Some(n) => Some(ClientEvent::Bpm(n)),
            None => None,
        }
    } else if is_text(a, addr::LINK_NUM_PEERS) {
        match arg_i32(m, 0) {
            Some(n) => Some(ClientEvent::ActiveLinks(n)),
            None => None,
        }
    } else if is_text(a, addr::LOG_INFO) {
        Some(
            ClientEvent::Report(
                MessageInfo {
                    style: i32_or_zero(m, 0),
                    ..MessageInfo::simple(MessageType::Info, str_or_empty(m, 1))
                },
            ),
        )
    } else if is_text(a, addr::ERROR) {
        Some(ClientEvent::Report(parse_error(m, MessageType::RuntimeError)))
    } else if is_text(a, addr::SYNTAX_ERROR) {
        Some(ClientEvent::Report(parse_error(m, MessageType::SyntaxError)))
    } else if is_text(a, addr::LOG_MULTI_MESSAGE) {
        Some(ClientEvent::Report(parse_multi(m)))
    } else if is_text(a, addr::INCOMING_OSC) {
        Some(
            ClientEvent::Cue(
                CueInfo {
                    time: str_or_empty(m, 0),
                    id: i32_or_zero(m, 1),
                    address: str_or_empty(m, 2),
                    args: str_or_empty(m, 3),
                    index: 0,
                },
            ),
        )
    } else if is_text(a, addr::VERSION) {
        Some(
            ClientEvent::Version(
                VersionInfo {
                    version: str_or_empty(m, 0),
                    num: i32_or_zero(m, 1),
                    latest_version: str_or_empty(m, 2),
                    latest_num: i32_or_zero(m, 3),
                    platform: str_or_empty(m, 7),
                },
            ),
        )
    } else if is_text(a, addr::MIDI_IN_PORTS) {
        Some(midi_event(MidiType::In, m))
    } else if is_text(a, addr::MIDI_OUT_PORTS) {
        Some(midi_event(MidiType::Out, m))
    } else if is_text(a, addr::GAMEPAD_DEVICES_LIST) {
        Some(ClientEvent::GamepadDevices(str_or_empty(m, 0)))
    } else if is_text(a, addr::SUPERSONIC_DEVICES) {
        Some(ClientEvent::AudioDevices(parse_audio_devices(m)))
    } else if is_text(a, addr::SUPERSONIC_INPUT_DEVICES) {
        Some(ClientEvent::AudioInputDevices(parse_audio_input_devices(m)))
    } else if is_text(a, addr::SUPERSONIC_INFO) {
        Some(
            ClientEvent::Scsynth(
                ScsynthInfo {
                    text: str_or_empty(m, 0),
                    sample_rate: arg_i32(m, 1),
                    buffer_size: arg_i32(m, 2),
                },
            ),
        )
    } else if begins_with_text(a, "/supersonic/") || begins_with_text(a, "/buffer/") || is_text(
        a,
        addr::UPDATE_INFO_TEXT,
    ) {
        Some(ClientEvent::Unhandled { addr: m.addr.clone() })
    } else {
        None
    }
}

} // verus!
