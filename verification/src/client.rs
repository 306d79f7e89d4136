//! The events that the runtime sends to the front end.

use crate::text::string_views;
use vstd::prelude::*;

verus! {

/// Kind of a log or error report.
#[derive(Debug, Clone, Copy, PartialEq, Eq, Structural)]
pub enum MessageType {
    StartupError,
    RuntimeError,
    SyntaxError,
    Message,
    Info,
    InfoText,
    Multi,
}

/// One line within a multi-message.
#[derive(Debug, Clone)]
pub struct MessageData {
    pub text: String,
    pub style: i32,
}

#[verifier::ext_equal]
pub struct MessageDataView {
    pub text: Seq<char>,
    pub style: i32,
}

impl View for MessageData {
    type V = MessageDataView;

    open spec fn view(&self) -> MessageDataView {
        MessageDataView { text: self.text@, style: self.style }
    }
}

impl Default for MessageData {
    fn default() -> (r: MessageData)
        ensures
            r@ == (MessageDataView { text: seq![], style: 0 }),
    {
        MessageData { text: String::new(), style: 0 }
    }
}

pub open spec fn message_data_views(v: Seq<MessageData>) -> Seq<MessageDataView> {
    Seq::new(v.len(), |i: int| v[i]@)
}

/// A log line, an error, or a report of several lines.
#[derive(Debug, Clone)]
pub struct MessageInfo {
    pub kind: MessageType,
    pub text: String,
    pub style: i32,
    pub job_id: i32,
    pub thread_name: String,
    pub runtime: String,
    pub backtrace: String,
    pub line: i32,
    pub multi: Vec<MessageData>,
}

#[verifier::ext_equal]
pub struct MessageView {
    pub kind: MessageType,
    pub text: Seq<char>,
    pub style: i32,
    pub job_id: i32,
    pub thread_name: Seq<char>,
    pub runtime: Seq<char>,
    pub backtrace: Seq<char>,
    pub line: i32,
    pub multi: Seq<MessageDataView>,
}

impl View for MessageInfo {
    type V = MessageView;

    open spec fn view(&self) -> MessageView {
        MessageView {
            kind: self.kind,
            text: self.text@,
            style: self.style,
            job_id: self.job_id,
            thread_name: self.thread_name@,
            runtime: self.runtime@,
            backtrace: self.backtrace@,
            line: self.line,
            multi: message_data_views(self.multi@),
        }
    }
}

/// A report with a text and nothing else.
pub open spec fn simple_message(kind: MessageType, text: Seq<char>) -> MessageView {
    MessageView {
        kind,
        text,
        style: 0,
        job_id: 0,
        thread_name: seq![],
        runtime: seq![],
        backtrace: seq![],
        line: 0,
        multi: seq![],
    }
}

impl MessageInfo {
    pub fn simple(kind: MessageType, text: String) -> (r: MessageInfo)
        ensures
            r@ == simple_message(kind, text@),
    {
        let r: MessageInfo = MessageInfo {
            kind,
            text,
            style: 0,
            job_id: 0,
            thread_name: String::new(),
            runtime: String::new(),
            backtrace: String::new(),
            line: 0,
            multi: Vec::new(),
        };
        assert(r@ =~= simple_message(kind, text@));
        r
    }
}

/// An incoming cue.
#[derive(Debug, Clone)]
pub struct CueInfo {
    pub time: String,
    pub address: String,
    pub id: i32,
    pub args: String,
    pub index: u64,
}

#[verifier::ext_equal]
pub struct CueView {
    pub time: Seq<char>,
    pub address: Seq<char>,
    pub id: i32,
    pub args: Seq<char>,
    pub index: u64,
}

impl View for CueInfo {
    type V = CueView;

    open spec fn view(&self) -> CueView {
        CueView {
            time: self.time@,
            address: self.address@,
            id: self.id,
            args: self.args@,
            index: self.index,
        }
    }
}

/// Direction of a MIDI port list.
#[derive(Debug, Clone, Copy, PartialEq, Eq, Structural)]
pub enum MidiType {
    Out,
    In,
}

/// The MIDI ports of one direction.
#[derive(Debug, Clone)]
pub struct MidiInfo {
    pub kind: MidiType,
    pub port_info: String,
}

#[verifier::ext_equal]
pub struct MidiView {
    pub kind: MidiType,
    pub port_info: Seq<char>,
}

impl View for MidiInfo {
    type V = MidiView;

    open spec fn view(&self) -> MidiView {
        MidiView { kind: self.kind, port_info: self.port_info@ }
    }
}

/// What a status message says of the runtime.
#[derive(Debug, Clone, Copy, PartialEq, Eq, Structural)]
pub enum StatusType {
    Ack,
    AllComplete,
    Exited,
}

/// A status message.
#[derive(Debug, Clone)]
pub struct StatusInfo {
    pub kind: StatusType,
    pub id: String,
}

#[verifier::ext_equal]
pub struct StatusView {
    pub kind: StatusType,
    pub id: Seq<char>,
}

impl View for StatusInfo {
    type V = StatusView;

    open spec fn view(&self) -> StatusView {
        StatusView { kind: self.kind, id: self.id@ }
    }
}

/// The versions that the runtime reports.
#[derive(Debug, Clone)]
pub struct VersionInfo {
    pub version: String,
    pub num: i32,
    pub latest_version: String,
    pub latest_num: i32,
    pub platform: String,
}

#[verifier::ext_equal]
pub struct VersionView {
    pub version: Seq<char>,
    pub num: i32,
    pub latest_version: Seq<char>,
    pub latest_num: i32,
    pub platform: Seq<char>,
}

impl View for VersionInfo {
    type V = VersionView;

    open spec fn view(&self) -> VersionView {
        VersionView {
            version: self.version@,
            num: self.num,
            latest_version: self.latest_version@,
            latest_num: self.latest_num,
            platform: self.platform@,
        }
    }
}

/// Audio output devices pushed by the engine.
#[derive(Debug, Clone)]
pub struct AudioDevicesInfo {
    pub mode: String,
    pub current_device: String,
    pub devices: Vec<String>,
    pub sample_rate: i32,
}

#[verifier::ext_equal]
pub struct AudioDevicesView {
    pub mode: Seq<char>,
    pub current_device: Seq<char>,
    pub devices: Seq<Seq<char>>,
    pub sample_rate: i32,
}

impl View for AudioDevicesInfo {
    type V = AudioDevicesView;

    open spec fn view(&self) -> AudioDevicesView {
        AudioDevicesView {
            mode: self.mode@,
            current_device: self.current_device@,
            devices: string_views(self.devices@),
            sample_rate: self.sample_rate,
        }
    }
}

/// Audio input devices pushed by the engine.
#[derive(Debug, Clone)]
pub struct AudioInputDevicesInfo {
    pub current_device: String,
    pub devices: Vec<String>,
}

#[verifier::ext_equal]
pub struct AudioInputDevicesView {
    pub current_device: Seq<char>,
    pub devices: Seq<Seq<char>>,
}

impl View for AudioInputDevicesInfo {
    type V = AudioInputDevicesView;

    open spec fn view(&self) -> AudioInputDevicesView {
        AudioInputDevicesView {
            current_device: self.current_device@,
            devices: string_views(self.devices@),
        }
    }
}

/// The audio drivers that the engine offers, and the one in use.
#[derive(Debug, Clone)]
pub struct AudioDriversInfo {
    pub drivers: Vec<String>,
    pub current: String,
}

#[verifier::ext_equal]
pub struct AudioDriversView {
    pub drivers: Seq<Seq<char>>,
    pub current: Seq<char>,
}

impl View for AudioDriversInfo {
    type V = AudioDriversView;

    open spec fn view(&self) -> AudioDriversView {
        AudioDriversView { drivers: string_views(self.drivers@), current: self.current@ }
    }
}

/// Engine status text, with the rates when they came with it.
#[derive(Debug, Clone)]
pub struct ScsynthInfo {
    pub text: String,
    pub sample_rate: Option<i32>,
    pub buffer_size: Option<i32>,
}

#[verifier::ext_equal]
pub struct ScsynthView {
    pub text: Seq<char>,
    pub sample_rate: Option<i32>,
    pub buffer_size: Option<i32>,
}

impl View for ScsynthInfo {
    type V = ScsynthView;

    open spec fn view(&self) -> ScsynthView {
        ScsynthView {
            text: self.text@,
            sample_rate: self.sample_rate,
            buffer_size: self.buffer_size,
        }
    }
}

/// A number as it stood in a message; floats by their bits.
#[derive(Debug, Clone, Copy, PartialEq, Eq, Structural)]
pub enum OscNumber {
    Double(u64),
    Float(u32),
    Int(i32),
}

/// An event decoded from an incoming message.
#[derive(Debug, Clone)]
pub enum ClientEvent {
    Report(MessageInfo),
    Status(StatusInfo),
    Cue(CueInfo),
    Midi(MidiInfo),
    Version(VersionInfo),
    Bpm(OscNumber),
    ActiveLinks(i32),
    SpiderReady,
    GamepadDevices(String),
    AudioDevices(AudioDevicesInfo),
    AudioInputDevices(AudioInputDevicesInfo),
    AudioDrivers(AudioDriversInfo),
    /// The outcome of an audio driver switch.
    DriverSwitched { ok: bool, detail: String },
    Scsynth(ScsynthInfo),
    /// Boot failed before the runtime came up.
    BootError(String),
    /// A message of a known family that carries nothing the front end shows.
    Unhandled { addr: String },
}

/// What an event says.
#[verifier::ext_equal]
pub enum EventView {
    Report(MessageView),
    Status(StatusView),
    Cue(CueView),
    Midi(MidiView),
    Version(VersionView),
    Bpm(OscNumber),
    ActiveLinks(i32),
    SpiderReady,
    GamepadDevices(Seq<char>),
    AudioDevices(AudioDevicesView),
    AudioInputDevices(AudioInputDevicesView),
    AudioDrivers(AudioDriversView),
    DriverSwitched { ok: bool, detail: Seq<char> },
    Scsynth(ScsynthView),
    BootError(Seq<char>),
    Unhandled { addr: Seq<char> },
}

impl View for ClientEvent {
    type V = EventView;

    open spec fn view(&self) -> EventView {
        match *self {
            ClientEvent::Report(m) => EventView::Report(m@),
            ClientEvent::Status(s) => EventView::Status(s@),
            ClientEvent::Cue(c) => EventView::Cue(c@),
            ClientEvent::Midi(m) => EventView::Midi(m@),
            ClientEvent::Version(v) => EventView::Version(v@),
            ClientEvent::Bpm(n) => EventView::Bpm(n),
            ClientEvent::ActiveLinks(n) => EventView::ActiveLinks(n),
            ClientEvent::SpiderReady => EventView::SpiderReady,
            ClientEvent::GamepadDevices(t) => EventView::GamepadDevices(t@),
            ClientEvent::AudioDevices(d) => EventView::AudioDevices(d@),
            ClientEvent::AudioInputDevices(d) => EventView::AudioInputDevices(d@),
            ClientEvent::AudioDrivers(d) => EventView::AudioDrivers(d@),
            ClientEvent::DriverSwitched { ok, detail } => EventView::DriverSwitched {
                ok,
                detail: detail@,
            },
            ClientEvent::Scsynth(i) => EventView::Scsynth(i@),
            ClientEvent::BootError(t) => EventView::BootError(t@),
            ClientEvent::Unhandled { addr } => EventView::Unhandled { addr: addr@ },
        }
    }
}

} // verus!
