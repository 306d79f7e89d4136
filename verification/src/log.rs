//! The log pane: what each event of the runtime is shown as.

use crate::client::{
    AudioDevicesView, AudioDriversView, AudioInputDevicesView, ClientEvent, CueView, EventView,
    MessageDataView, MessageInfo, MessageType, MessageView, MidiInfo, MidiType, MidiView,
    OscNumber, ScsynthView, StatusType, StatusView, VersionInfo, VersionView,
};
use crate::number::{decimal, decimal_int, int_text, nat_text};
use crate::text::{debug_text, quoted};
use vstd::prelude::*;
use vstd::string::*;

verus! {

/// One row of the log.
#[derive(Debug, Clone)]
pub struct LogLine {
    /// The run the row belongs to, which gives its colour.
    pub run: Option<i32>,
    pub error: bool,
    /// Whether the row stands under the header of its run.
    pub indent: bool,
    /// Engine internals, hidden unless the debug switch is on.
    pub debug: bool,
    pub text: String,
}

#[verifier::ext_equal]
pub struct RowView {
    pub run: Option<i32>,
    pub error: bool,
    pub indent: bool,
    pub debug: bool,
    pub text: Seq<char>,
}

impl View for LogLine {
    type V = RowView;

    open spec fn view(&self) -> RowView {
        RowView {
            run: self.run,
            error: self.error,
            indent: self.indent,
            debug: self.debug,
            text: self.text@,
        }
    }
}

pub open spec fn row_views(v: Seq<LogLine>) -> Seq<RowView> {
    Seq::new(v.len(), |i: int| v[i]@)
}

/// A plain row.
pub open spec fn info_row(text: Seq<char>) -> RowView {
    RowView { run: None, error: false, indent: false, debug: false, text }
}

/// A row that reports an error.
pub open spec fn error_row(text: Seq<char>) -> RowView {
    RowView { run: None, error: true, indent: false, debug: false, text }
}

/// A row of engine internals.
pub open spec fn debug_row(text: Seq<char>) -> RowView {
    RowView { run: None, error: false, indent: false, debug: true, text }
}

impl LogLine {
    pub fn info(text: String) -> (r: LogLine)
        ensures
            r@ == info_row(text@),
    {
        LogLine { run: None, error: false, indent: false, debug: false, text }
    }

    pub fn error(text: String) -> (r: LogLine)
        ensures
            r@ == error_row(text@),
    {
        LogLine { run: None, error: true, indent: false, debug: false, text }
    }

    pub fn debug(text: String) -> (r: LogLine)
        ensures
            r@ == debug_row(text@),
    {
        LogLine { run: None, error: false, indent: false, debug: true, text }
    }
}

/// A row under the header of run `run`.
pub open spec fn member_row(run: i32, d: MessageDataView) -> RowView {
    RowView { run: Some(run), error: false, indent: true, debug: false, text: d.text }
}

/// The rows of a report: for one of several lines a header and a row a line, for
/// any other a single row.
pub open spec fn report_rows(m: MessageView) -> Seq<RowView> {
    if m.multi.len() > 0 {
        seq![
            RowView {
                run: Some(m.job_id),
                error: false,
                indent: false,
                debug: false,
                text: "{run "@ + decimal_int(m.job_id as int) + "} "@ + m.thread_name,
            },
        ] + m.multi.map_values(|d: MessageDataView| member_row(m.job_id, d))
    } else {
        let error = m.kind == MessageType::StartupError || m.kind == MessageType::RuntimeError
            || m.kind == MessageType::SyntaxError;
        seq![
            RowView {
                run: if m.job_id > 0 {
                    Some(m.job_id)
                } else {
                    None
                },
                error,
                indent: false,
                debug: false,
                text: if error && m.runtime.len() > 0 {
                    "[error] "@ + m.text + " ("@ + m.runtime + ")"@
                } else {
                    m.text
                },
            },
        ]
    }
}

/// The name of a status.
pub open spec fn status_name(k: StatusType) -> Seq<char> {
    match k {
        StatusType::Ack => "Ack"@,
        StatusType::AllComplete => "AllComplete"@,
        StatusType::Exited => "Exited"@,
    }
}

/// The names of the fields and what they hold, for the MIDI ports of a direction.
pub open spec fn midi_text(m: MidiView) -> Seq<char> {
    "Midi(MidiInfo { kind: "@ + (match m.kind {
        MidiType::Out => "Out"@,
        MidiType::In => "In"@,
    }) + ", port_info: "@ + quoted(m.port_info) + " })"@
}

/// The names of the fields and what they hold, for the versions.
pub open spec fn version_text(v: VersionView) -> Seq<char> {
    "Version(VersionInfo { version: "@ + quoted(v.version) + ", num: "@ + decimal_int(v.num as int)
        + ", latest_version: "@ + quoted(v.latest_version) + ", latest_num: "@ + decimal_int(
        v.latest_num as int,
    ) + ", platform: "@ + quoted(v.platform) + " })"@
}

/// The row of a list of output devices.
pub open spec fn devices_text(d: AudioDevicesView) -> Seq<char> {
    "[audio] "@ + decimal(d.devices.len()) + " output device(s), current: "@ + d.current_device
        + " @ "@ + decimal_int(d.sample_rate as int) + "Hz"@
}

/// The row of a list of input devices.
pub open spec fn input_devices_text(d: AudioInputDevicesView) -> Seq<char> {
    "[audio] "@ + decimal(d.devices.len()) + " input device(s), current: "@ + d.current_device
}

/// The row of a list of drivers.
pub open spec fn drivers_text(d: AudioDriversView) -> Seq<char> {
    "[audio] "@ + decimal(d.drivers.len()) + " driver(s), current: "@ + d.current
}

/// The rows of the log for an event. A cue has none: it is shown in its own pane.
/// `bpm` is how the tempo of a tempo event is written.
pub open spec fn rows_of(e: EventView, bpm: Seq<char>) -> Seq<RowView> {
    match e {
        EventView::Report(m) => report_rows(m),
        EventView::Status(s) => seq![info_row("["@ + status_name(s.kind) + "] "@ + s.id)],
        EventView::SpiderReady => seq![info_row("[spider ready]"@)],
        EventView::Bpm(_) => seq![info_row("[bpm] "@ + bpm)],
        EventView::AudioDevices(d) => seq![info_row(devices_text(d))],
        EventView::AudioInputDevices(d) => seq![info_row(input_devices_text(d))],
        EventView::Scsynth(i) => seq![info_row("[scsynth] "@ + i.text)],
        EventView::AudioDrivers(d) => seq![info_row(drivers_text(d))],
        EventView::DriverSwitched { ok, detail } => if ok {
            seq![info_row("[audio] driver switched: "@ + detail)]
        } else {
            seq![error_row("driver switch failed: "@ + detail)]
        },
        EventView::Cue(_) => seq![],
        EventView::Unhandled { addr } => seq![debug_row("[osc] "@ + addr)],
        EventView::Midi(m) => seq![debug_row(midi_text(m))],
        EventView::Version(v) => seq![debug_row(version_text(v))],
        EventView::ActiveLinks(n) => seq![
            debug_row("ActiveLinks("@ + decimal_int(n as int) + ")"@),
        ],
        EventView::GamepadDevices(t) => seq![debug_row("GamepadDevices("@ + quoted(t) + ")"@)],
        EventView::BootError(t) => seq![debug_row("BootError("@ + quoted(t) + ")"@)],
    }
}

fn report_lines(m: &MessageInfo) -> (r: Vec<LogLine>)
    ensures
        row_views(r@) == report_rows(m@),
{
    let mut rows: Vec<LogLine> = Vec::new();
    if m.multi.len() > 0 {
        let mut head: String = String::from_str("{run ");
        let job: String = int_text(m.job_id as i64);
        head.append(job.as_str());
        head.append("} ");
        head.append(m.thread_name.as_str());
        rows.push(
            LogLine { run: Some(m.job_id), error: false, indent: false, debug: false, text: head },
        );
        let ghost all = m@.multi;
        let ghost full = report_rows(m@);
        let mut i: usize = 0;
        assert(row_views(rows@) =~= full.take(1));
        while i < m.multi.len()
            invariant
                i <= m.multi@.len(),
                all == m@.multi,
                full == report_rows(m@),
                all.len() > 0,
                row_views(rows@) == full.take(i + 1),
            decreases m.multi@.len() - i,
        {
            let ghost before = row_views(rows@);
            let text: String = m.multi[i].text.clone();
            let row: LogLine = LogLine {
                run: Some(m.job_id),
                error: false,
                indent: true,
                debug: false,
                text,
            };
            assert(all[i as int] == m.multi@[i as int]@);
            assert(row@ == member_row(m@.job_id, all[i as int]));
            assert(full[i + 1] == member_row(m@.job_id, all[i as int]));
            rows.push(row);
            i = i + 1;
            assert(row_views(rows@) =~= before.push(row@));
            assert(row_views(rows@) =~= full.take(i + 1));
        }
        assert(full.take(i + 1) =~= full);
        rows
    } else {
        let error: bool = match m.kind {
            MessageType::StartupError => true,
            MessageType::RuntimeError => true,
            MessageType::SyntaxError => true,
            _ => false,
        };
        let mut text: String = String::new();
        if error && m.runtime.as_str().unicode_len() > 0 {
            text.append("[error] ");
            text.append(m.text.as_str());
            text.append(" (");
            text.append(m.runtime.as_str());
            text.append(")");
            assert(text@ =~= "[error] "@ + m.text@ + " ("@ + m.runtime@ + ")"@);
        } else {
            text.append(m.text.as_str());
            assert(text@ =~= m.text@);
        }
        let run: Option<i32> = if m.job_id > 0 {
            Some(m.job_id)
        } else {
            None
        };
        rows.push(LogLine { run, error, indent: false, debug: false, text });
        assert(row_views(rows@) =~= report_rows(m@));
        rows
    }
}

fn midi_line(m: &MidiInfo) -> (r: String)
    ensures
        r@ == midi_text(m@),
{
    let mut t: String = String::from_str("Midi(MidiInfo { kind: ");
    match m.kind {
        MidiType::Out => t.append("Out"),
        MidiType::In => t.append("In"),
    }
    t.append(", port_info: ");
    let q: String = debug_text(m.port_info.as_str());
    t.append(q.as_str());
    t.append(" })");
    t
}

fn version_line(v: &VersionInfo) -> (r: String)
    ensures
        r@ == version_text(v@),
{
    let mut t: String = String::from_str("Version(VersionInfo { version: ");
    let version: String = debug_text(v.version.as_str());
    t.append(version.as_str());
    t.append(", num: ");
    let num: String = int_text(v.num as i64);
    t.append(num.as_str());
    t.append(", latest_version: ");
    let latest: String = debug_text(v.latest_version.as_str());
    t.append(latest.as_str());
    t.append(", latest_num: ");
    let latest_num: String = int_text(v.latest_num as i64);
    t.append(latest_num.as_str());
    t.append(", platform: ");
    let platform: String = debug_text(v.platform.as_str());
    t.append(platform.as_str());
    t.append(" })");
    t
}

fn one_row(row: LogLine) -> (r: Vec<LogLine>)
    ensures
        row_views(r@) == seq![row@],
{
    let mut rows: Vec<LogLine> = Vec::new();
    rows.push(row);
    assert(row_views(rows@) =~= seq![row@]);
    rows
}

fn wrapped(before: &str, t: &str, after: &str) -> (r: String)
    ensures
        r@ == before@ + t@ + after@,
{
    let mut out: String = String::from_str(before);
    out.append(t);
    out.append(after);
    out
}

fn count_line(n: usize, unit: &str, current: &str) -> (r: String)
    ensures
        r@ == "[audio] "@ + decimal(n as nat) + unit@ + current@,
{
    let mut out: String = String::from_str("[audio] ");
    let count: String = nat_text(n as u64);
    out.append(count.as_str());
    out.append(unit);
    out.append(current);
    out
}

/// The rows of the log for an event; none for a cue, which has its own pane. `bpm`
/// is how the tempo of a tempo event is written; no other event reads it.
pub fn log_lines_for(ev: &ClientEvent, bpm: &str) -> (r: Vec<LogLine>)
    ensures
        row_views(r@) == rows_of(ev@, bpm@),
{
    match ev {
        ClientEvent::Report(m) => report_lines(m),
        ClientEvent::Status(s) => {
            let name: &str = match s.kind {
                StatusType::Ack => "Ack",
                StatusType::AllComplete => "AllComplete",
                StatusType::Exited => "Exited",
            };
            let t: String = wrapped("[", name, "] ").concat(s.id.as_str());
            one_row(LogLine::info(t))
        },
        ClientEvent::SpiderReady => one_row(LogLine::info(String::from_str("[spider ready]"))),
        ClientEvent::Bpm(_) => one_row(LogLine::info(String::from_str("[bpm] ").concat(bpm))),
        ClientEvent::AudioDevices(d) => {
            let mut t: String = count_line(
                d.devices.len(),
                " output device(s), current: ",
                d.current_device.as_str(),
            );
            let rate: String = int_text(d.sample_rate as i64);
            t.append(" @ ");
            t.append(rate.as_str());
            t.append("Hz");
            one_row(LogLine::info(t))
        },
        ClientEvent::AudioInputDevices(d) => {
            let t: String = count_line(
                d.devices.len(),
                " input device(s), current: ",
                d.current_device.as_str(),
            );
            one_row(LogLine::info(t))
        },
        ClientEvent::Scsynth(i) => one_row(
            LogLine::info(String::from_str("[scsynth] ").concat(i.text.as_str())),
        ),
        ClientEvent::AudioDrivers(d) => {
            let t: String = count_line(
                d.drivers.len(),
                " driver(s), current: ",
                d.current.as_str(),
            );
            one_row(LogLine::info(t))
        },
        ClientEvent::DriverSwitched { ok, detail } => {
            if *ok {
                one_row(
                    LogLine::info(
                        String::from_str("[audio] driver switched: ").concat(detail.as_str()),
                    ),
                )
            } else {
                one_row(
                    LogLine::error(
                        String::from_str("driver switch failed: ").concat(detail.as_str()),
                    ),
                )
            }
        },
        ClientEvent::Cue(_) => {
            let rows: Vec<LogLine> = Vec::new();
            assert(row_views(rows@) =~= seq![]);
            rows
        },
        ClientEvent::Unhandled { addr } => one_row(
            LogLine::debug(String::from_str("[osc] ").concat(addr.as_str())),
        ),
        ClientEvent::Midi(m) => one_row(LogLine::debug(midi_line(m))),
        ClientEvent::Version(v) => one_row(LogLine::debug(version_line(v))),
        ClientEvent::ActiveLinks(n) => {
            let t: String = int_text(*n as i64);
            one_row(LogLine::debug(wrapped("ActiveLinks(", t.as_str(), ")")))
        },
        ClientEvent::GamepadDevices(d) => {
            let t: String = debug_text(d.as_str());
            one_row(LogLine::debug(wrapped("GamepadDevices(", t.as_str(), ")")))
        },
        ClientEvent::BootError(e) => {
            let t: String = debug_text(e.as_str());
            one_row(LogLine::debug(wrapped("BootError(", t.as_str(), ")")))
        },
    }
}

/// The colours that runs cycle through, as RGB.
pub const RUN_PALETTE: [u32; 6] = [0x61afef, 0xc678dd, 0xd19a66, 0x98c379, 0x56b6c2, 0xe5c07b];

/// The colour of the rows of run `run`, as RGB.
pub fn run_color(run: i32) -> (r: u32)
    ensures
        r == RUN_PALETTE[if run > 0 {
            run as int % 6
        } else {
            0
        }],
{
    let n: usize = if run > 0 {
        run as usize
    } else {
        0
    };
    RUN_PALETTE[n % 6]
}

/// A report of several lines has a row for its run, with its number and its thread,
/// and under it a row for each of its lines, in their order and in the colour of the
/// run.
pub proof fn law_report_of_lines_is_shown_whole(m: MessageView, bpm: Seq<char>)
    requires
        m.multi.len() > 0,
    ensures
        ({
            let rows = rows_of(EventView::Report(m), bpm);
            &&& rows.len() == m.multi.len() + 1
            &&& rows[0] == (RowView {
                run: Some(m.job_id),
                error: false,
                indent: false,
                debug: false,
                text: "{run "@ + decimal_int(m.job_id as int) + "} "@ + m.thread_name,
            })
            &&& forall|k: int|
                0 <= k < m.multi.len() ==> #[trigger] rows[k + 1] == (RowView {
                    run: Some(m.job_id),
                    error: false,
                    indent: true,
                    debug: false,
                    text: m.multi[k].text,
                })
        }),
{
}

/// A report of one text has one row. It is an error if it is of one of the three kinds
/// that are, and belongs to a run if it names one.
pub proof fn law_report_of_a_text_is_one_row(m: MessageView, bpm: Seq<char>)
    requires
        m.multi.len() == 0,
    ensures
        ({
            let rows = rows_of(EventView::Report(m), bpm);
            let error = m.kind == MessageType::StartupError || m.kind == MessageType::RuntimeError
                || m.kind == MessageType::SyntaxError;
            &&& rows.len() == 1
            &&& rows[0].error == error
            &&& m.job_id > 0 ==> rows[0].run == Some(m.job_id)
            &&& m.job_id <= 0 ==> rows[0].run is None
            &&& !rows[0].indent && !rows[0].debug
            &&& !error || m.runtime.len() == 0 ==> rows[0].text == m.text
            &&& error && m.runtime.len() > 0 ==> rows[0].text == "[error] "@ + m.text + " ("@
                + m.runtime + ")"@
        }),
{
}

/// What the other events are shown as: those of interest as plain rows, a failed
/// switch as an error, internals as rows that only the debug switch shows, and cues
/// not at all.
pub proof fn law_events_have_their_rows(
    id: Seq<char>,
    text: Seq<char>,
    bpm: Seq<char>,
    tempo: OscNumber,
    n: i32,
    out: AudioDevicesView,
    inp: AudioInputDevicesView,
    drivers: AudioDriversView,
    info: ScsynthView,
    cue: CueView,
)
    ensures
        ({
            let plain = |t: Seq<char>|
                seq![RowView { run: None, error: false, indent: false, debug: false, text: t }];
            let internal = |t: Seq<char>|
                seq![RowView { run: None, error: false, indent: false, debug: true, text: t }];
            &&& rows_of(EventView::Status(StatusView { kind: StatusType::Ack, id }), bpm) == plain(
                "["@ + "Ack"@ + "] "@ + id,
            )
            &&& rows_of(EventView::Status(StatusView { kind: StatusType::AllComplete, id }), bpm)
                == plain("["@ + "AllComplete"@ + "] "@ + id)
            &&& rows_of(EventView::Status(StatusView { kind: StatusType::Exited, id }), bpm)
                == plain("["@ + "Exited"@ + "] "@ + id)
            &&& rows_of(EventView::SpiderReady, bpm) == plain("[spider ready]"@)
            &&& rows_of(EventView::Bpm(tempo), bpm) == plain("[bpm] "@ + bpm)
            &&& rows_of(EventView::AudioDevices(out), bpm) == plain(
                "[audio] "@ + decimal(out.devices.len()) + " output device(s), current: "@
                    + out.current_device + " @ "@ + decimal_int(out.sample_rate as int) + "Hz"@,
            )
            &&& rows_of(EventView::AudioInputDevices(inp), bpm) == plain(
                "[audio] "@ + decimal(inp.devices.len()) + " input device(s), current: "@
                    + inp.current_device,
            )
            &&& rows_of(EventView::AudioDrivers(drivers), bpm) == plain(
                "[audio] "@ + decimal(drivers.drivers.len()) + " driver(s), current: "@
                    + drivers.current,
            )
            &&& rows_of(EventView::Scsynth(info), bpm) == plain("[scsynth] "@ + info.text)
            &&& rows_of(EventView::DriverSwitched { ok: true, detail: text }, bpm) == plain(
                "[audio] driver switched: "@ + text,
            )
            &&& rows_of(EventView::DriverSwitched { ok: false, detail: text }, bpm) == seq![
                RowView {
                    run: None,
                    error: true,
                    indent: false,
                    debug: false,
                    text: "driver switch failed: "@ + text,
                },
            ]
            &&& rows_of(EventView::Cue(cue), bpm).len() == 0
            &&& rows_of(EventView::Unhandled { addr: text }, bpm) == internal("[osc] "@ + text)
            &&& rows_of(EventView::ActiveLinks(n), bpm) == internal(
                "ActiveLinks("@ + decimal_int(n as int) + ")"@,
            )
            &&& rows_of(EventView::GamepadDevices(text), bpm) == internal(
                "GamepadDevices("@ + quoted(text) + ")"@,
            )
            &&& rows_of(EventView::BootError(text), bpm) == internal(
                "BootError("@ + quoted(text) + ")"@,
            )
        }),
{
}

/// The ports and the versions are shown with the names of what they hold.
pub proof fn law_internals_name_what_they_hold(t: Seq<char>, v: VersionView, bpm: Seq<char>)
    ensures
        rows_of(EventView::Midi(MidiView { kind: MidiType::In, port_info: t }), bpm)[0].text
            == "Midi(MidiInfo { kind: "@ + "In"@ + ", port_info: "@ + quoted(t) + " })"@,
        rows_of(EventView::Midi(MidiView { kind: MidiType::Out, port_info: t }), bpm)[0].text
            == "Midi(MidiInfo { kind: "@ + "Out"@ + ", port_info: "@ + quoted(t) + " })"@,
        rows_of(EventView::Version(v), bpm)[0].text == "Version(VersionInfo { version: "@ + quoted(
            v.version,
        ) + ", num: "@ + decimal_int(v.num as int) + ", latest_version: "@ + quoted(
            v.latest_version,
        ) + ", latest_num: "@ + decimal_int(v.latest_num as int) + ", platform: "@ + quoted(
            v.platform,
        ) + " })"@,
        rows_of(EventView::Version(v), bpm)[0].debug,
{
}

} // verus!
