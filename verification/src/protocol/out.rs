//! Outgoing messages.
//!
//! Frequencies, rates, levels and times are 32-bit and 64-bit floats on the wire
//! and are given here by their bits.

use super::addr;
use crate::osc::{
    arg_views, no_nul, survives, survives_wire, ArgView, OscMessage, OscMessageView, OscType,
};
use vstd::prelude::*;
use vstd::string::*;

verus! {

fn text(s: &str) -> (r: OscType)
    ensures
        r@ == ArgView::Text(s@),
{
    OscType::String(String::from_str(s))
}

fn msg(addr: &str, args: Vec<OscType>) -> (r: OscMessage)
    ensures
        r@ == (OscMessageView { addr: addr@, args: arg_views(args@) }),
{
    OscMessage { addr: String::from_str(addr), args }
}

pub open spec fn flag(b: bool) -> ArgView {
    ArgView::Int(
        if b {
            1
        } else {
            0
        },
    )
}

fn int_of(b: bool) -> (r: OscType)
    ensures
        r@ == flag(b),
{
    OscType::Int(
        if b {
            1
        } else {
            0
        },
    )
}

/// `/save-and-run-buffer [token] [name] [code] [name]`: runs a buffer.
pub open spec fn run_buffer_message(
    token: i32,
    name: Seq<char>,
    code: Seq<char>,
) -> OscMessageView {
    OscMessageView {
        addr: addr::SAVE_AND_RUN_BUFFER@,
        args: seq![
            ArgView::Int(token),
            ArgView::Text(name),
            ArgView::Text(code),
            ArgView::Text(name),
        ],
    }
}

/// `/save-and-run-buffer [token] [name] [code] [name]`: runs a buffer.
pub fn run_buffer(token: i32, name: &str, code: &str) -> (r: OscMessage)
    ensures
        r@ == run_buffer_message(token, name@, code@),
{
    let mut args: Vec<OscType> = Vec::new();
    args.push(OscType::Int(token));
    args.push(text(name));
    args.push(text(code));
    args.push(text(name));
    assert(arg_views(args@) =~= run_buffer_message(token, name@, code@).args);
    msg(addr::SAVE_AND_RUN_BUFFER, args)
}

/// `/stop-all-jobs [token]`.
pub open spec fn stop_all_jobs_message(token: i32) -> OscMessageView {
    OscMessageView {
        addr: addr::STOP_ALL_JOBS@,
        args: seq![ArgView::Int(token)],
    }
}

/// `/stop-all-jobs [token]`.
pub fn stop_all_jobs(token: i32) -> (r: OscMessage)
    ensures
        r@ == stop_all_jobs_message(token),
{
    let mut args: Vec<OscType> = Vec::new();
    args.push(OscType::Int(token));
    assert(arg_views(args@) =~= stop_all_jobs_message(token).args);
    msg(addr::STOP_ALL_JOBS, args)
}

/// `/ping [token] [tag]`: asks whether the server is up.
pub open spec fn ping_message(token: i32, tag: Seq<char>) -> OscMessageView {
    OscMessageView {
        addr: addr::PING@,
        args: seq![ArgView::Int(token), ArgView::Text(tag)],
    }
}

/// `/ping [token] [tag]`: asks whether the server is up.
pub fn ping(token: i32, tag: &str) -> (r: OscMessage)
    ensures
        r@ == ping_message(token, tag@),
{
    let mut args: Vec<OscType> = Vec::new();
    args.push(OscType::Int(token));
    args.push(text(tag));
    assert(arg_views(args@) =~= ping_message(token, tag@).args);
    msg(addr::PING, args)
}

/// `/daemon/keep-alive [token]`: when it stops arriving, the daemon tears the runtime down.
pub open spec fn keep_alive_message(token: i32) -> OscMessageView {
    OscMessageView {
        addr: addr::DAEMON_KEEP_ALIVE@,
        args: seq![ArgView::Int(token)],
    }
}

/// `/daemon/keep-alive [token]`: when it stops arriving, the daemon tears the runtime down.
pub fn keep_alive(token: i32) -> (r: OscMessage)
    ensures
        r@ == keep_alive_message(token),
{
    let mut args: Vec<OscType> = Vec::new();
    args.push(OscType::Int(token));
    assert(arg_views(args@) =~= keep_alive_message(token).args);
    msg(addr::DAEMON_KEEP_ALIVE, args)
}

/// `/daemon/exit [token]`: asks the daemon to shut down.
pub open spec fn daemon_exit_message(token: i32) -> OscMessageView {
    OscMessageView {
        addr: addr::DAEMON_EXIT@,
        args: seq![ArgView::Int(token)],
    }
}

/// `/daemon/exit [token]`: asks the daemon to shut down.
pub fn daemon_exit(token: i32) -> (r: OscMessage)
    ensures
        r@ == daemon_exit_message(token),
{
    let mut args: Vec<OscType> = Vec::new();
    args.push(OscType::Int(token));
    assert(arg_views(args@) =~= daemon_exit_message(token).args);
    msg(addr::DAEMON_EXIT, args)
}

/// `/set-global-timewarp [token] [time]`.
pub open spec fn set_global_timewarp_message(token: i32, time: u64) -> OscMessageView {
    OscMessageView {
        addr: addr::SET_GLOBAL_TIMEWARP@,
        args: seq![ArgView::Int(token), ArgView::Double(time)],
    }
}

/// `/set-global-timewarp [token] [time]`.
pub fn set_global_timewarp(token: i32, time: u64) -> (r: OscMessage)
    ensures
        r@ == set_global_timewarp_message(token, time),
{
    let mut args: Vec<OscType> = Vec::new();
    args.push(OscType::Int(token));
    args.push(OscType::Double(time));
    assert(arg_views(args@) =~= set_global_timewarp_message(token, time).args);
    msg(addr::SET_GLOBAL_TIMEWARP, args)
}

/// `/clock/tempo/set [bpm]`, straight to the engine.
pub open spec fn clock_tempo_set_message(bpm: u32) -> OscMessageView {
    OscMessageView {
        addr: addr::CLOCK_TEMPO_SET@,
        args: seq![ArgView::Float(bpm)],
    }
}

/// `/clock/tempo/set [bpm]`, straight to the engine.
pub fn clock_tempo_set(bpm: u32) -> (r: OscMessage)
    ensures
        r@ == clock_tempo_set_message(bpm),
{
    let mut args: Vec<OscType> = Vec::new();
    args.push(OscType::Float(bpm));
    assert(arg_views(args@) =~= clock_tempo_set_message(bpm).args);
    msg(addr::CLOCK_TEMPO_SET, args)
}

/// `/supersonic/record/start [path] [format] [depth]`: records the main mix.
pub open spec fn record_start_message(
    path: Seq<char>,
    format: Seq<char>,
    depth: i32,
) -> OscMessageView {
    OscMessageView {
        addr: addr::SUPERSONIC_RECORD_START@,
        args: seq![ArgView::Text(path), ArgView::Text(format), ArgView::Int(depth)],
    }
}

/// `/supersonic/record/start [path] [format] [depth]`: records the main mix.
pub fn record_start(path: &str, format: &str, depth: i32) -> (r: OscMessage)
    ensures
        r@ == record_start_message(path@, format@, depth),
{
    let mut args: Vec<OscType> = Vec::new();
    args.push(text(path));
    args.push(text(format));
    args.push(OscType::Int(depth));
    assert(arg_views(args@) =~= record_start_message(path@, format@, depth).args);
    msg(addr::SUPERSONIC_RECORD_START, args)
}

/// `/supersonic/record/stop`.
pub open spec fn record_stop_message() -> OscMessageView {
    OscMessageView {
        addr: addr::SUPERSONIC_RECORD_STOP@,
        args: seq![],
    }
}

/// `/supersonic/record/stop`.
pub fn record_stop() -> (r: OscMessage)
    ensures
        r@ == record_stop_message(),
{
    let mut args: Vec<OscType> = Vec::new();
    assert(arg_views(args@) =~= record_stop_message().args);
    msg(addr::SUPERSONIC_RECORD_STOP, args)
}

/// `/supersonic/devices/report [port]`: asks for device lists now and whenever they change.
pub open spec fn supersonic_devices_report_message(gui_listen_port: u16) -> OscMessageView {
    OscMessageView {
        addr: addr::SUPERSONIC_DEVICES_REPORT@,
        args: seq![ArgView::Int(gui_listen_port as i32)],
    }
}

/// `/supersonic/devices/report [port]`: asks for device lists now and whenever they change.
pub fn supersonic_devices_report(gui_listen_port: u16) -> (r: OscMessage)
    ensures
        r@ == supersonic_devices_report_message(gui_listen_port),
{
    let mut args: Vec<OscType> = Vec::new();
    args.push(OscType::Int(gui_listen_port as i32));
    assert(arg_views(args@) =~= supersonic_devices_report_message(gui_listen_port).args);
    msg(addr::SUPERSONIC_DEVICES_REPORT, args)
}

/// `/supersonic/devices/switch [output] [rate] [size] [input]`: swaps devices in place.
pub open spec fn supersonic_devices_switch_message(
    output: Seq<char>,
    sample_rate: u32,
    buffer_size: i32,
    input: Seq<char>,
) -> OscMessageView {
    OscMessageView {
        addr: addr::SUPERSONIC_DEVICES_SWITCH@,
        args: seq![
            ArgView::Text(output),
            ArgView::Float(sample_rate),
            ArgView::Int(buffer_size),
            ArgView::Text(input),
        ],
    }
}

/// `/supersonic/devices/switch [output] [rate] [size] [input]`: swaps devices in place.
pub fn supersonic_devices_switch(
    output: &str,
    sample_rate: u32,
    buffer_size: i32,
    input: &str,
) -> (r: OscMessage)
    ensures
        r@ == supersonic_devices_switch_message(output@, sample_rate, buffer_size, input@),
{
    let mut args: Vec<OscType> = Vec::new();
    args.push(text(output));
    args.push(OscType::Float(sample_rate));
    args.push(OscType::Int(buffer_size));
    args.push(text(input));
    assert(arg_views(args@) =~= supersonic_devices_switch_message(
        output@,
        sample_rate,
        buffer_size,
        input@,
    ).args);
    msg(addr::SUPERSONIC_DEVICES_SWITCH, args)
}

/// `/mixer-amp [token] [amp] [silent]`: the master volume.
pub open spec fn mixer_amp_message(token: i32, amp: u32, silent: bool) -> OscMessageView {
    OscMessageView {
        addr: addr::MIXER_AMP@,
        args: seq![ArgView::Int(token), ArgView::Float(amp), flag(silent)],
    }
}

/// `/mixer-amp [token] [amp] [silent]`: the master volume.
pub fn mixer_amp(token: i32, amp: u32, silent: bool) -> (r: OscMessage)
    ensures
        r@ == mixer_amp_message(token, amp, silent),
{
    let mut args: Vec<OscType> = Vec::new();
    args.push(OscType::Int(token));
    args.push(OscType::Float(amp));
    args.push(int_of(silent));
    assert(arg_views(args@) =~= mixer_amp_message(token, amp, silent).args);
    msg(addr::MIXER_AMP, args)
}

/// `/daemon/audio/switch-device [token] [output] [rate] [size] [input]`. Empty
/// texts and zeros leave things as they are; the input `__none__` turns inputs off.
pub open spec fn audio_switch_device_message(
    token: i32,
    output: Seq<char>,
    sample_rate: u32,
    buffer_size: i32,
    input: Seq<char>,
) -> OscMessageView {
    OscMessageView {
        addr: addr::DAEMON_AUDIO_SWITCH_DEVICE@,
        args: seq![
            ArgView::Int(token),
            ArgView::Text(output),
            ArgView::Float(sample_rate),
            ArgView::Int(buffer_size),
            ArgView::Text(input),
        ],
    }
}

/// `/daemon/audio/switch-device [token] [output] [rate] [size] [input]`. Empty
/// texts and zeros leave things as they are; the input `__none__` turns inputs off.
pub fn audio_switch_device(
    token: i32,
    output: &str,
    sample_rate: u32,
    buffer_size: i32,
    input: &str,
) -> (r: OscMessage)
    ensures
        r@ == audio_switch_device_message(token, output@, sample_rate, buffer_size, input@),
{
    let mut args: Vec<OscType> = Vec::new();
    args.push(OscType::Int(token));
    args.push(text(output));
    args.push(OscType::Float(sample_rate));
    args.push(OscType::Int(buffer_size));
    args.push(text(input));
    assert(arg_views(args@) =~= audio_switch_device_message(
        token,
        output@,
        sample_rate,
        buffer_size,
        input@,
    ).args);
    msg(addr::DAEMON_AUDIO_SWITCH_DEVICE, args)
}

/// `/midi-start [token] [silent]` or `/midi-stop [token] [silent]`.
pub open spec fn midi_enabled_message(token: i32, enabled: bool, silent: bool) -> OscMessageView {
    OscMessageView {
        addr: if enabled { addr::MIDI_START@ } else { addr::MIDI_STOP@ },
        args: seq![ArgView::Int(token), flag(silent)],
    }
}

/// `/midi-start [token] [silent]` or `/midi-stop [token] [silent]`.
pub fn midi_enabled(token: i32, enabled: bool, silent: bool) -> (r: OscMessage)
    ensures
        r@ == midi_enabled_message(token, enabled, silent),
{
    let mut args: Vec<OscType> = Vec::new();
    args.push(OscType::Int(token));
    args.push(int_of(silent));
    assert(arg_views(args@) =~= midi_enabled_message(token, enabled, silent).args);
    msg(if enabled { addr::MIDI_START } else { addr::MIDI_STOP }, args)
}

/// `/cue-port-start [token]` or `/cue-port-stop [token]`.
pub open spec fn cue_server_enabled_message(token: i32, enabled: bool) -> OscMessageView {
    OscMessageView {
        addr: if enabled { addr::CUE_PORT_START@ } else { addr::CUE_PORT_STOP@ },
        args: seq![ArgView::Int(token)],
    }
}

/// `/cue-port-start [token]` or `/cue-port-stop [token]`.
pub fn cue_server_enabled(token: i32, enabled: bool) -> (r: OscMessage)
    ensures
        r@ == cue_server_enabled_message(token, enabled),
{
    let mut args: Vec<OscType> = Vec::new();
    args.push(OscType::Int(token));
    assert(arg_views(args@) =~= cue_server_enabled_message(token, enabled).args);
    msg(if enabled { addr::CUE_PORT_START } else { addr::CUE_PORT_STOP }, args)
}

/// `/cue-port-external [token]` or `/cue-port-internal [token]`.
pub open spec fn cue_server_external_message(token: i32, external: bool) -> OscMessageView {
    OscMessageView {
        addr: if external { addr::CUE_PORT_EXTERNAL@ } else { addr::CUE_PORT_INTERNAL@ },
        args: seq![ArgView::Int(token)],
    }
}

/// `/cue-port-external [token]` or `/cue-port-internal [token]`.
pub fn cue_server_external(token: i32, external: bool) -> (r: OscMessage)
    ensures
        r@ == cue_server_external_message(token, external),
{
    let mut args: Vec<OscType> = Vec::new();
    args.push(OscType::Int(token));
    assert(arg_views(args@) =~= cue_server_external_message(token, external).args);
    msg(if external { addr::CUE_PORT_EXTERNAL } else { addr::CUE_PORT_INTERNAL }, args)
}

/// `/mixer-invert-stereo [token]` or `/mixer-standard-stereo [token]`.
pub open spec fn mixer_invert_stereo_message(token: i32, invert: bool) -> OscMessageView {
    OscMessageView {
        addr: if invert { addr::MIXER_INVERT_STEREO@ } else { addr::MIXER_STANDARD_STEREO@ },
        args: seq![ArgView::Int(token)],
    }
}

/// `/mixer-invert-stereo [token]` or `/mixer-standard-stereo [token]`.
pub fn mixer_invert_stereo(token: i32, invert: bool) -> (r: OscMessage)
    ensures
        r@ == mixer_invert_stereo_message(token, invert),
{
    let mut args: Vec<OscType> = Vec::new();
    args.push(OscType::Int(token));
    assert(arg_views(args@) =~= mixer_invert_stereo_message(token, invert).args);
    msg(if invert { addr::MIXER_INVERT_STEREO } else { addr::MIXER_STANDARD_STEREO }, args)
}

/// `/mixer-mono-mode [token]` or `/mixer-stereo-mode [token]`.
pub open spec fn mixer_force_mono_message(token: i32, mono: bool) -> OscMessageView {
    OscMessageView {
        addr: if mono { addr::MIXER_MONO_MODE@ } else { addr::MIXER_STEREO_MODE@ },
        args: seq![ArgView::Int(token)],
    }
}

/// `/mixer-mono-mode [token]` or `/mixer-stereo-mode [token]`.
pub fn mixer_force_mono(token: i32, mono: bool) -> (r: OscMessage)
    ensures
        r@ == mixer_force_mono_message(token, mono),
{
    let mut args: Vec<OscType> = Vec::new();
    args.push(OscType::Int(token));
    assert(arg_views(args@) =~= mixer_force_mono_message(token, mono).args);
    msg(if mono { addr::MIXER_MONO_MODE } else { addr::MIXER_STEREO_MODE }, args)
}

/// `/enable-update-checking [token]` or `/disable-update-checking [token]`.
pub open spec fn update_checking_message(token: i32, enabled: bool) -> OscMessageView {
    OscMessageView {
        addr: if enabled { addr::ENABLE_UPDATE_CHECKING@ } else { addr::DISABLE_UPDATE_CHECKING@ },
        args: seq![ArgView::Int(token)],
    }
}

/// `/enable-update-checking [token]` or `/disable-update-checking [token]`.
pub fn update_checking(token: i32, enabled: bool) -> (r: OscMessage)
    ensures
        r@ == update_checking_message(token, enabled),
{
    let mut args: Vec<OscType> = Vec::new();
    args.push(OscType::Int(token));
    assert(arg_views(args@) =~= update_checking_message(token, enabled).args);
    msg(if enabled { addr::ENABLE_UPDATE_CHECKING } else { addr::DISABLE_UPDATE_CHECKING }, args)
}

/// `/gamepad-start [token] [silent]` or `/gamepad-stop [token] [silent]`.
pub open spec fn gamepad_enabled_message(
    token: i32,
    enabled: bool,
    silent: bool,
) -> OscMessageView {
    OscMessageView {
        addr: if enabled { addr::GAMEPAD_START@ } else { addr::GAMEPAD_STOP@ },
        args: seq![ArgView::Int(token), flag(silent)],
    }
}

/// `/gamepad-start [token] [silent]` or `/gamepad-stop [token] [silent]`.
pub fn gamepad_enabled(token: i32, enabled: bool, silent: bool) -> (r: OscMessage)
    ensures
        r@ == gamepad_enabled_message(token, enabled, silent),
{
    let mut args: Vec<OscType> = Vec::new();
    args.push(OscType::Int(token));
    args.push(int_of(silent));
    assert(arg_views(args@) =~= gamepad_enabled_message(token, enabled, silent).args);
    msg(if enabled { addr::GAMEPAD_START } else { addr::GAMEPAD_STOP }, args)
}

/// `/daemon/audio/switch-driver [token] [driver]`.
pub open spec fn audio_switch_driver_message(token: i32, driver: Seq<char>) -> OscMessageView {
    OscMessageView {
        addr: addr::DAEMON_AUDIO_SWITCH_DRIVER@,
        args: seq![ArgView::Int(token), ArgView::Text(driver)],
    }
}

/// `/daemon/audio/switch-driver [token] [driver]`.
pub fn audio_switch_driver(token: i32, driver: &str) -> (r: OscMessage)
    ensures
        r@ == audio_switch_driver_message(token, driver@),
{
    let mut args: Vec<OscType> = Vec::new();
    args.push(OscType::Int(token));
    args.push(text(driver));
    assert(arg_views(args@) =~= audio_switch_driver_message(token, driver@).args);
    msg(addr::DAEMON_AUDIO_SWITCH_DRIVER, args)
}

/// `/supersonic/drivers/list`: asks for the audio drivers.
pub open spec fn supersonic_drivers_list_message() -> OscMessageView {
    OscMessageView {
        addr: addr::SUPERSONIC_DRIVERS_LIST@,
        args: seq![],
    }
}

/// `/supersonic/drivers/list`: asks for the audio drivers.
pub fn supersonic_drivers_list() -> (r: OscMessage)
    ensures
        r@ == supersonic_drivers_list_message(),
{
    let mut args: Vec<OscType> = Vec::new();
    assert(arg_views(args@) =~= supersonic_drivers_list_message().args);
    msg(addr::SUPERSONIC_DRIVERS_LIST, args)
}

/// `/supersonic/drivers/switch [driver]`.
pub open spec fn supersonic_drivers_switch_message(driver: Seq<char>) -> OscMessageView {
    OscMessageView {
        addr: addr::SUPERSONIC_DRIVERS_SWITCH@,
        args: seq![ArgView::Text(driver)],
    }
}

/// `/supersonic/drivers/switch [driver]`.
pub fn supersonic_drivers_switch(driver: &str) -> (r: OscMessage)
    ensures
        r@ == supersonic_drivers_switch_message(driver@),
{
    let mut args: Vec<OscType> = Vec::new();
    args.push(text(driver));
    assert(arg_views(args@) =~= supersonic_drivers_switch_message(driver@).args);
    msg(addr::SUPERSONIC_DRIVERS_SWITCH, args)
}

/// `/mixer-hpf-enable [token] [freq]` or `/mixer-hpf-disable [token]`: the master
/// high-pass filter.
pub open spec fn mixer_hpf_message(token: i32, freq: Option<u32>) -> OscMessageView {
    match freq {
        Some(f) => OscMessageView {
            addr: addr::MIXER_HPF_ENABLE@,
            args: seq![ArgView::Int(token), ArgView::Float(f)],
        },
        None => OscMessageView { addr: addr::MIXER_HPF_DISABLE@, args: seq![ArgView::Int(token)] },
    }
}

/// `/mixer-hpf-enable [token] [freq]` or `/mixer-hpf-disable [token]`: the master
/// high-pass filter.
pub fn mixer_hpf(token: i32, freq: Option<u32>) -> (r: OscMessage)
    ensures
        r@ == mixer_hpf_message(token, freq),
{
    let mut args: Vec<OscType> = Vec::new();
    args.push(OscType::Int(token));
    match freq {
        Some(f) => {
            args.push(OscType::Float(f));
            assert(arg_views(args@) =~= mixer_hpf_message(token, freq).args);
            msg(addr::MIXER_HPF_ENABLE, args)
        },
        None => {
            assert(arg_views(args@) =~= mixer_hpf_message(token, freq).args);
            msg(addr::MIXER_HPF_DISABLE, args)
        },
    }
}

/// `/mixer-lpf-enable [token] [freq]` or `/mixer-lpf-disable [token]`: the master
/// low-pass filter.
pub open spec fn mixer_lpf_message(token: i32, freq: Option<u32>) -> OscMessageView {
    match freq {
        Some(f) => OscMessageView {
            addr: addr::MIXER_LPF_ENABLE@,
            args: seq![ArgView::Int(token), ArgView::Float(f)],
        },
        None => OscMessageView { addr: addr::MIXER_LPF_DISABLE@, args: seq![ArgView::Int(token)] },
    }
}

/// `/mixer-lpf-enable [token] [freq]` or `/mixer-lpf-disable [token]`: the master
/// low-pass filter.
pub fn mixer_lpf(token: i32, freq: Option<u32>) -> (r: OscMessage)
    ensures
        r@ == mixer_lpf_message(token, freq),
{
    let mut args: Vec<OscType> = Vec::new();
    args.push(OscType::Int(token));
    match freq {
        Some(f) => {
            args.push(OscType::Float(f));
            assert(arg_views(args@) =~= mixer_lpf_message(token, freq).args);
            msg(addr::MIXER_LPF_ENABLE, args)
        },
        None => {
            assert(arg_views(args@) =~= mixer_lpf_message(token, freq).args);
            msg(addr::MIXER_LPF_DISABLE, args)
        },
    }
}

/// Whether a message starts with the session token.
pub open spec fn carries_token(m: OscMessageView, token: i32) -> bool {
    m.args.len() > 0 && m.args[0] == ArgView::Int(token)
}

/// Every message to Spider and to the daemon starts with the session token.
pub proof fn law_token_comes_first(
    token: i32,
    a: Seq<char>,
    b: Seq<char>,
    n: i32,
    f: u32,
    d: u64,
    p: bool,
    q: bool,
    o: Option<u32>,
)
    ensures
        carries_token(run_buffer_message(token, a, b), token),
        carries_token(stop_all_jobs_message(token), token),
        carries_token(ping_message(token, a), token),
        carries_token(keep_alive_message(token), token),
        carries_token(daemon_exit_message(token), token),
        carries_token(set_global_timewarp_message(token, d), token),
        carries_token(mixer_amp_message(token, f, p), token),
        carries_token(audio_switch_device_message(token, a, f, n, b), token),
        carries_token(midi_enabled_message(token, p, q), token),
        carries_token(cue_server_enabled_message(token, p), token),
        carries_token(cue_server_external_message(token, p), token),
        carries_token(mixer_invert_stereo_message(token, p), token),
        carries_token(mixer_force_mono_message(token, p), token),
        carries_token(mixer_hpf_message(token, o), token),
        carries_token(mixer_lpf_message(token, o), token),
        carries_token(update_checking_message(token, p), token),
        carries_token(gamepad_enabled_message(token, p, q), token),
        carries_token(audio_switch_driver_message(token, a), token),
{
}

/// A run request whose name and code hold no NUL comes back from the wire as it was
/// sent.
pub proof fn law_run_buffer_survives_wire(token: i32, name: Seq<char>, code: Seq<char>)
    requires
        no_nul(name),
        no_nul(code),
    ensures
        survives_wire(run_buffer_message(token, name, code)),
{
    reveal_strlit("/save-and-run-buffer");
}

/// Requests whose texts hold no NUL and whose numbers are numbers come back from the
/// wire as they were sent.
pub proof fn law_requests_survive_wire(
    token: i32,
    a: Seq<char>,
    b: Seq<char>,
    n: i32,
    port: u16,
    f: u32,
    d: u64,
    p: bool,
)
    requires
        no_nul(a),
        no_nul(b),
        survives(ArgView::Float(f)),
        survives(ArgView::Double(d)),
    ensures
        survives_wire(stop_all_jobs_message(token)),
        survives_wire(ping_message(token, a)),
        survives_wire(keep_alive_message(token)),
        survives_wire(daemon_exit_message(token)),
        survives_wire(set_global_timewarp_message(token, d)),
        survives_wire(clock_tempo_set_message(f)),
        survives_wire(record_start_message(a, b, n)),
        survives_wire(record_stop_message()),
        survives_wire(supersonic_devices_report_message(port)),
        survives_wire(supersonic_devices_switch_message(a, f, n, b)),
        survives_wire(mixer_amp_message(token, f, p)),
        survives_wire(audio_switch_device_message(token, a, f, n, b)),
{
    reveal_strlit("/stop-all-jobs");
    reveal_strlit("/ping");
    reveal_strlit("/daemon/keep-alive");
    reveal_strlit("/daemon/exit");
    reveal_strlit("/set-global-timewarp");
    reveal_strlit("/clock/tempo/set");
    reveal_strlit("/supersonic/record/start");
    reveal_strlit("/supersonic/record/stop");
    reveal_strlit("/supersonic/devices/report");
    reveal_strlit("/supersonic/devices/switch");
    reveal_strlit("/mixer-amp");
    reveal_strlit("/daemon/audio/switch-device");
}

} // verus!
