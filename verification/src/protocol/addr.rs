//! Known OSC addresses.

use vstd::prelude::*;

verus! {

pub const SAVE_AND_RUN_BUFFER: &'static str = "/save-and-run-buffer";

pub const STOP_ALL_JOBS: &'static str = "/stop-all-jobs";

pub const PING: &'static str = "/ping";

pub const LOAD_BUFFER: &'static str = "/load-buffer";

pub const SAVE_BUFFER: &'static str = "/save-buffer";

pub const BUFFER_NEWLINE_AND_INDENT: &'static str = "/buffer-newline-and-indent";

pub const MIXER_AMP: &'static str = "/mixer-amp";

pub const SET_GLOBAL_TIMEWARP: &'static str = "/set-global-timewarp";

pub const DAEMON_KEEP_ALIVE: &'static str = "/daemon/keep-alive";

pub const DAEMON_EXIT: &'static str = "/daemon/exit";

pub const DAEMON_AUDIO_SWITCH_DEVICE: &'static str = "/daemon/audio/switch-device";

pub const CLOCK_TEMPO_SET: &'static str = "/clock/tempo/set";

pub const CLOCK_VISIBILITY: &'static str = "/clock/visibility";

pub const CLOCK_AUDIO_PUBLISH_SET: &'static str = "/clock/audio/publish/set";

pub const CLOCK_PEER_NAME_SET: &'static str = "/clock/peer_name/set";

pub const SUPERSONIC_DEVICES_REPORT: &'static str = "/supersonic/devices/report";

pub const SUPERSONIC_DEVICES_SWITCH: &'static str = "/supersonic/devices/switch";

pub const SUPERSONIC_RECORD_START: &'static str = "/supersonic/record/start";

pub const SUPERSONIC_RECORD_STOP: &'static str = "/supersonic/record/stop";

pub const LOG_MULTI_MESSAGE: &'static str = "/log/multi_message";

pub const LOG_INFO: &'static str = "/log/info";

pub const ERROR: &'static str = "/error";

pub const SYNTAX_ERROR: &'static str = "/syntax_error";

pub const ACK: &'static str = "/ack";

pub const RUNS_ALL_COMPLETED: &'static str = "/runs/all-completed";

pub const EXITED: &'static str = "/exited";

pub const EXITED_WITH_BOOT_ERROR: &'static str = "/exited-with-boot-error";

pub const VERSION: &'static str = "/version";

pub const LINK_BPM: &'static str = "/link-bpm";

pub const LINK_NUM_PEERS: &'static str = "/link-num-peers";

pub const SPIDER_READY: &'static str = "/spider/ready";

pub const INCOMING_OSC: &'static str = "/incoming/osc";

pub const MIDI_IN_PORTS: &'static str = "/midi/in-ports";

pub const MIDI_OUT_PORTS: &'static str = "/midi/out-ports";

pub const GAMEPAD_DEVICES_LIST: &'static str = "/gamepad/devices-list";

pub const UPDATE_INFO_TEXT: &'static str = "/update-info-text";

pub const SUPERSONIC_DEVICES: &'static str = "/supersonic/devices";

pub const SUPERSONIC_INPUT_DEVICES: &'static str = "/supersonic/input-devices";

pub const SUPERSONIC_INFO: &'static str = "/supersonic/info";

pub const MIDI_START: &'static str = "/midi-start";

pub const MIDI_STOP: &'static str = "/midi-stop";

pub const CUE_PORT_START: &'static str = "/cue-port-start";

pub const CUE_PORT_STOP: &'static str = "/cue-port-stop";

pub const CUE_PORT_EXTERNAL: &'static str = "/cue-port-external";

pub const CUE_PORT_INTERNAL: &'static str = "/cue-port-internal";

pub const MIXER_INVERT_STEREO: &'static str = "/mixer-invert-stereo";

pub const MIXER_STANDARD_STEREO: &'static str = "/mixer-standard-stereo";

pub const MIXER_MONO_MODE: &'static str = "/mixer-mono-mode";

pub const MIXER_STEREO_MODE: &'static str = "/mixer-stereo-mode";

pub const MIXER_HPF_ENABLE: &'static str = "/mixer-hpf-enable";

pub const MIXER_HPF_DISABLE: &'static str = "/mixer-hpf-disable";

pub const MIXER_LPF_ENABLE: &'static str = "/mixer-lpf-enable";

pub const MIXER_LPF_DISABLE: &'static str = "/mixer-lpf-disable";

pub const ENABLE_UPDATE_CHECKING: &'static str = "/enable-update-checking";

pub const DISABLE_UPDATE_CHECKING: &'static str = "/disable-update-checking";

pub const GAMEPAD_START: &'static str = "/gamepad-start";

pub const GAMEPAD_STOP: &'static str = "/gamepad-stop";

pub const DAEMON_AUDIO_SWITCH_DRIVER: &'static str = "/daemon/audio/switch-driver";

pub const SUPERSONIC_DRIVERS_LIST: &'static str = "/supersonic/drivers/list";

pub const SUPERSONIC_DRIVERS_SWITCH: &'static str = "/supersonic/drivers/switch";

} // verus!
