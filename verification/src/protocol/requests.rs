//! What the messages that leave say, and that no two requests are one message.

use super::out::{
    audio_switch_device_message, audio_switch_driver_message, clock_tempo_set_message,
    cue_server_enabled_message, cue_server_external_message, daemon_exit_message,
    gamepad_enabled_message, keep_alive_message, midi_enabled_message, mixer_amp_message,
    mixer_force_mono_message, mixer_hpf_message, mixer_invert_stereo_message, mixer_lpf_message,
    ping_message, record_start_message, record_stop_message, run_buffer_message,
    set_global_timewarp_message, stop_all_jobs_message, supersonic_devices_report_message,
    supersonic_devices_switch_message, supersonic_drivers_list_message,
    supersonic_drivers_switch_message, update_checking_message,
};
use crate::osc::{ArgView, OscMessageView};
use crate::ports::PortId;
use crate::session::{drivers_request, to_daemon, to_engine, to_spider};
use vstd::prelude::*;

verus! {

/// Whether a message goes to this address with these arguments.
pub open spec fn says(m: OscMessageView, addr: Seq<char>, args: Seq<ArgView>) -> bool {
    m.addr == addr && m.args == args
}

/// A run carries the token, the name, the code and the name again; a run of anything
/// else is another message.
pub proof fn law_runs_say_what_they_run(
    token: i32,
    name: Seq<char>,
    code: Seq<char>,
    other_token: i32,
    other_name: Seq<char>,
    other_code: Seq<char>,
)
    ensures
        says(
            run_buffer_message(token, name, code),
            "/save-and-run-buffer"@,
            seq![
                ArgView::Int(token),
                ArgView::Text(name),
                ArgView::Text(code),
                ArgView::Text(name),
            ],
        ),
        run_buffer_message(token, name, code) == run_buffer_message(
            other_token,
            other_name,
            other_code,
        ) <==> token == other_token && name == other_name && code == other_code,
{
    let m = run_buffer_message(token, name, code);
    let n = run_buffer_message(other_token, other_name, other_code);
    if m == n {
        assert(m.args[0] == n.args[0]);
        assert(m.args[1] == n.args[1]);
        assert(m.args[2] == n.args[2]);
    }
}

/// The messages that carry the token and no more.
pub proof fn law_bare_requests(token: i32)
    ensures
        says(stop_all_jobs_message(token), "/stop-all-jobs"@, seq![ArgView::Int(token)]),
        says(keep_alive_message(token), "/daemon/keep-alive"@, seq![ArgView::Int(token)]),
        says(daemon_exit_message(token), "/daemon/exit"@, seq![ArgView::Int(token)]),
{
}

/// The messages that carry the token and one thing more, behind it.
pub proof fn law_requests_with_one_thing(token: i32, tag: Seq<char>, time: u64, driver: Seq<char>)
    ensures
        says(ping_message(token, tag), "/ping"@, seq![ArgView::Int(token), ArgView::Text(tag)]),
        says(
            set_global_timewarp_message(token, time),
            "/set-global-timewarp"@,
            seq![ArgView::Int(token), ArgView::Double(time)],
        ),
        says(
            audio_switch_driver_message(token, driver),
            "/daemon/audio/switch-driver"@,
            seq![ArgView::Int(token), ArgView::Text(driver)],
        ),
{
}

/// The volume is a float behind the token; silence is a one, and anything else a
/// zero.
pub proof fn law_volume_says_its_level(token: i32, amp: u32, silent: bool)
    ensures
        says(
            mixer_amp_message(token, amp, silent),
            "/mixer-amp"@,
            seq![
                ArgView::Int(token),
                ArgView::Float(amp),
                ArgView::Int(
                    if silent {
                        1
                    } else {
                        0
                    },
                ),
            ],
        ),
{
}

/// A switch of devices names the output, the rate, the size and the input, in this
/// order: behind the token to the daemon, by themselves to the engine.
pub proof fn law_device_switches_name_both_sides(
    token: i32,
    output: Seq<char>,
    rate: u32,
    size: i32,
    input: Seq<char>,
)
    ensures
        says(
            audio_switch_device_message(token, output, rate, size, input),
            "/daemon/audio/switch-device"@,
            seq![
                ArgView::Int(token),
                ArgView::Text(output),
                ArgView::Float(rate),
                ArgView::Int(size),
                ArgView::Text(input),
            ],
        ),
        says(
            supersonic_devices_switch_message(output, rate, size, input),
            "/supersonic/devices/switch"@,
            seq![
                ArgView::Text(output),
                ArgView::Float(rate),
                ArgView::Int(size),
                ArgView::Text(input),
            ],
        ),
{
}

/// The messages that go straight to the engine carry no token.
pub proof fn law_engine_requests(
    bpm: u32,
    path: Seq<char>,
    format: Seq<char>,
    depth: i32,
    port: u16,
    driver: Seq<char>,
)
    ensures
        says(clock_tempo_set_message(bpm), "/clock/tempo/set"@, seq![ArgView::Float(bpm)]),
        says(
            record_start_message(path, format, depth),
            "/supersonic/record/start"@,
            seq![ArgView::Text(path), ArgView::Text(format), ArgView::Int(depth)],
        ),
        says(record_stop_message(), "/supersonic/record/stop"@, seq![]),
        says(
            supersonic_devices_report_message(port),
            "/supersonic/devices/report"@,
            seq![ArgView::Int(port as i32)],
        ),
        says(supersonic_drivers_list_message(), "/supersonic/drivers/list"@, seq![]),
        says(
            supersonic_drivers_switch_message(driver),
            "/supersonic/drivers/switch"@,
            seq![ArgView::Text(driver)],
        ),
{
}

/// What is switched on and what is switched off go to two addresses, each with the
/// same arguments.
pub proof fn law_switches_have_two_addresses(token: i32, silent: bool)
    ensures
        ({
            let bare = seq![ArgView::Int(token)];
            let told = seq![
                ArgView::Int(token),
                ArgView::Int(
                    if silent {
                        1
                    } else {
                        0
                    },
                ),
            ];
            &&& says(midi_enabled_message(token, true, silent), "/midi-start"@, told)
            &&& says(midi_enabled_message(token, false, silent), "/midi-stop"@, told)
            &&& says(gamepad_enabled_message(token, true, silent), "/gamepad-start"@, told)
            &&& says(gamepad_enabled_message(token, false, silent), "/gamepad-stop"@, told)
            &&& says(cue_server_enabled_message(token, true), "/cue-port-start"@, bare)
            &&& says(cue_server_enabled_message(token, false), "/cue-port-stop"@, bare)
            &&& says(cue_server_external_message(token, true), "/cue-port-external"@, bare)
            &&& says(cue_server_external_message(token, false), "/cue-port-internal"@, bare)
            &&& says(mixer_invert_stereo_message(token, true), "/mixer-invert-stereo"@, bare)
            &&& says(mixer_invert_stereo_message(token, false), "/mixer-standard-stereo"@, bare)
            &&& says(mixer_force_mono_message(token, true), "/mixer-mono-mode"@, bare)
            &&& says(mixer_force_mono_message(token, false), "/mixer-stereo-mode"@, bare)
            &&& says(update_checking_message(token, true), "/enable-update-checking"@, bare)
            &&& says(update_checking_message(token, false), "/disable-update-checking"@, bare)
        }),
{
}

/// A filter is switched on with its frequency behind the token, and off without one.
pub proof fn law_filters_say_their_frequency(token: i32, freq: u32)
    ensures
        says(
            mixer_hpf_message(token, Some(freq)),
            "/mixer-hpf-enable"@,
            seq![ArgView::Int(token), ArgView::Float(freq)],
        ),
        says(mixer_hpf_message(token, None), "/mixer-hpf-disable"@, seq![ArgView::Int(token)]),
        says(
            mixer_lpf_message(token, Some(freq)),
            "/mixer-lpf-enable"@,
            seq![ArgView::Int(token), ArgView::Float(freq)],
        ),
        says(mixer_lpf_message(token, None), "/mixer-lpf-disable"@, seq![ArgView::Int(token)]),
{
}

/// A message goes where it is sent as it is; only the request for the drivers leaves
/// from the socket that listens.
pub proof fn law_messages_go_where_they_are_sent(m: OscMessageView)
    ensures
        to_spider(m).to == PortId::GuiSendToSpider,
        to_daemon(m).to == PortId::Daemon,
        to_engine(m).to == PortId::Scsynth,
        to_spider(m).message == m && to_daemon(m).message == m && to_engine(m).message == m,
        !to_spider(m).from_listener && !to_daemon(m).from_listener && !to_engine(m).from_listener,
        drivers_request().to == PortId::Scsynth && drivers_request().from_listener,
        says(drivers_request().message, "/supersonic/drivers/list"@, seq![]),
{
}

} // verus!
