//! Booting the runtime, watching over it, and shutting it down.
//!
//! The decisions are here; spawning, probing and killing processes is left to the
//! caller, which performs each action and reports what came of it.

pub mod course;
pub mod settings;

pub use self::settings::audio_settings_args;
use crate::error::CoreError;
use crate::number::{decimal, decimal_int, int_text, nat_from, nat_text, parse_nat};
use crate::pathname::{join_path, path_join};
use crate::paths::{resolve, runtime_path, SonicPiPath, SonicPiPaths};
use crate::ports::Ports;
use crate::session_lock::{
    law_lock_round_trip, lock_of, lock_ports, lock_text, pid_start_time, same_process, start_time,
    stat_views, ProcessTable, SessionLock,
};
use crate::table::{pair_views, pairs_map, pairs_of_text};
use crate::text::{chars_of, is_text, string_views};
use vstd::prelude::*;
use vstd::string::*;

verus! {

/// Whether the runtime's processes die with the front end or outlive it.
#[derive(Debug, Clone, Copy, PartialEq, Eq, Structural)]
pub enum BootMode {
    /// The processes' lives are tied to this one.
    Normal,
    /// The processes outlive this one, so that a performance goes on.
    Gig,
}

impl BootMode {
    /// Whether a child is to be killed when this process dies.
    pub fn dies_with_parent(self) -> (r: bool)
        ensures
            r == (self != BootMode::Gig),
    {
        self != BootMode::Gig
    }

    /// Whether letting go of the supervisor shuts the runtime down.
    pub fn shuts_down_on_drop(self) -> (r: bool)
        ensures
            r == (self == BootMode::Normal),
    {
        self == BootMode::Normal
    }
}

/// The port that external cue senders expect.
pub const CUE_PORT: u16 = 4560;

/// The engine's own arguments, before the user's.
pub open spec fn default_opts() -> Seq<Seq<char>> {
    seq![
        "-a"@, "1024"@, "-m"@, "131072"@, "-D"@, "0"@, "-R"@, "0"@, "-l"@, "1"@, "-b"@, "4096"@,
        "-B"@, "127.0.0.1"@, "-Z"@, "1024"@,
    ]
}

/// The settings as flags and values in turn.
pub open spec fn flattened(s: Seq<(Seq<char>, Seq<char>)>) -> Seq<Seq<char>>
    decreases s.len(),
{
    if s.len() == 0 {
        seq![]
    } else {
        flattened(s.drop_last()).push(s.last().0).push(s.last().1)
    }
}

/// The arguments that the engine is started with: its port, the defaults, and the
/// user's settings, which come last and so override the defaults.
pub open spec fn engine_args(scsynth: u16, settings: Seq<(Seq<char>, Seq<char>)>) -> Seq<
    Seq<char>,
> {
    seq!["-u"@, decimal(scsynth as nat)] + default_opts() + flattened(settings)
}

/// The arguments that Spider is started with. It listens where the front end sends
/// and sends where the front end listens.
pub open spec fn spider_arg_list(spider_rb: Seq<char>, p: Ports) -> Seq<Seq<char>> {
    seq![
        "--enable-frozen-string-literal"@,
        "-E"@,
        "utf-8"@,
        "--yjit"@,
        spider_rb,
        "-u"@,
        decimal(p.gui_send as nat),
        decimal(p.gui_listen as nat),
        decimal(p.scsynth as nat),
        decimal(p.scsynth as nat),
        decimal(p.osc_cues as nat),
        decimal_int(p.token as int),
    ]
}

fn text(s: &str) -> (r: String)
    ensures
        r@ == s@,
{
    String::from_str(s)
}

pub fn supersonic_args(scsynth: u16, settings: &Vec<(String, String)>) -> (r: Vec<String>)
    ensures
        string_views(r@) == engine_args(scsynth, pair_views(settings@)),
{
    let mut out: Vec<String> = Vec::new();
    out.push(text("-u"));
    out.push(nat_text(scsynth as u64));
    out.push(text("-a"));
    out.push(text("1024"));
    out.push(text("-m"));
    out.push(text("131072"));
    out.push(text("-D"));
    out.push(text("0"));
    out.push(text("-R"));
    out.push(text("0"));
    out.push(text("-l"));
    out.push(text("1"));
    out.push(text("-b"));
    out.push(text("4096"));
    out.push(text("-B"));
    out.push(text("127.0.0.1"));
    out.push(text("-Z"));
    out.push(text("1024"));
    let ghost fixed = seq!["-u"@, decimal(scsynth as nat)] + default_opts();
    let ghost all = pair_views(settings@);
    let mut i: usize = 0;
    assert(string_views(out@) =~= fixed + flattened(all.take(0)));
    while i < settings.len()
        invariant
            i <= settings@.len(),
            all == pair_views(settings@),
            string_views(out@) == fixed + flattened(all.take(i as int)),
        decreases settings@.len() - i,
    {
        let ghost before = string_views(out@);
        out.push(settings[i].0.clone());
        out.push(settings[i].1.clone());
        i = i + 1;
        assert(all.take(i as int).drop_last() =~= all.take(i - 1));
        assert(string_views(out@) =~= before.push(all[i - 1].0).push(all[i - 1].1));
        assert(string_views(out@) =~= fixed + flattened(all.take(i as int)));
    }
    assert(all.take(i as int) =~= all);
    out
}

pub fn spider_args(spider_rb: &str, p: &Ports) -> (r: Vec<String>)
    ensures
        string_views(r@) == spider_arg_list(spider_rb@, *p),
{
    let mut out: Vec<String> = Vec::new();
    out.push(text("--enable-frozen-string-literal"));
    out.push(text("-E"));
    out.push(text("utf-8"));
    out.push(text("--yjit"));
    out.push(text(spider_rb));
    out.push(text("-u"));
    out.push(nat_text(p.gui_send as u64));
    out.push(nat_text(p.gui_listen as u64));
    out.push(nat_text(p.scsynth as u64));
    out.push(nat_text(p.scsynth as u64));
    out.push(nat_text(p.osc_cues as u64));
    out.push(int_text(p.token as i64));
    assert(string_views(out@) =~= spider_arg_list(spider_rb@, *p));
    out
}

/// The absolute value, with the smallest number its own.
pub open spec fn wrapping_abs(x: i32) -> i32 {
    if x < 0 && x > i32::MIN {
        (-x) as i32
    } else {
        x
    }
}

/// The token of a session that starts `nanos` past the second in process `pid`.
pub open spec fn token_of(nanos: u32, pid: u32) -> i32 {
    wrapping_abs((nanos as i32).wrapping_mul(31).wrapping_add(pid as i32)) | 1
}

/// A token for a session, from the clock's nanoseconds and the process.
pub fn session_token(nanos: u32, pid: u32) -> (r: i32)
    ensures
        r == token_of(nanos, pid),
{
    let x: i32 = (nanos as i32).wrapping_mul(31).wrapping_add(pid as i32);
    let y: i32 = if x < 0 && x > i32::MIN {
        -x
    } else {
        x
    };
    y | 1
}

/// A session's token is odd, and so never zero.
pub proof fn law_token_is_odd(nanos: u32, pid: u32)
    ensures
        token_of(nanos, pid) & 1 == 1,
        token_of(nanos, pid) != 0,
{
    let x = wrapping_abs((nanos as i32).wrapping_mul(31).wrapping_add(pid as i32));
    assert((x | 1i32) & 1i32 == 1i32 && (x | 1i32) != 0i32) by (bit_vector);
}

/// The name of the shared-memory segment that an engine on this port publishes.
pub open spec fn segment_name_of(scsynth: u16) -> Seq<char> {
    "/SuperSonic_"@ + decimal(scsynth as nat)
}

pub fn segment_name(scsynth: u16) -> (r: String)
    ensures
        r@ == segment_name_of(scsynth),
{
    String::from_str("/SuperSonic_").concat(nat_text(scsynth as u64).as_str())
}

/// How many seconds the engine has to come up, from the setting in the
/// environment.
pub fn boot_timeout_secs(setting: Option<&str>) -> (r: u64)
    ensures
        r == (match setting {
            Some(t) => match parse_nat(t@, u64::MAX as nat) {
                Some(n) => n as u64,
                None => 15,
            },
            None => 15,
        }),
{
    match setting {
        Some(t) => {
            let cs: Vec<char> = chars_of(t);
            match nat_from(cs.as_slice(), u64::MAX) {
                Some(n) => n,
                None => 15,
            }
        },
        None => 15,
    }
}

/// Whether the children's output is shown, from the setting in the environment.
pub fn debug_children(setting: Option<&str>) -> (r: bool)
    ensures
        r == (setting matches Some(t) && t@ == "1"@),
{
    match setting {
        Some(t) => {
            let cs: Vec<char> = chars_of(t);
            is_text(cs.as_slice(), "1")
        },
        None => false,
    }
}

// Booting ---------------------------------------------------------------------

/// How far a boot has come.
#[derive(Debug, Clone, Copy, PartialEq, Eq, Structural)]
pub enum BootPhase {
    CheckEngine,
    CheckSpider,
    Allocate,
    StartEngine,
    AwaitEngine,
    StartSpider,
    Running,
    Failed,
}

/// Why there is no free port, with the text of the system's error.
pub enum PortFault {
    /// No socket could be bound.
    Bind(String),
    /// The address of the bound socket could not be read.
    Address(String),
}

impl PortFault {
    pub open spec fn message(self) -> Seq<char> {
        match self {
            PortFault::Bind(e) => "allocating port: "@ + e@,
            PortFault::Address(e) => "reading allocated port: "@ + e@,
        }
    }
}

/// What came of the last action.
pub enum BootEvent {
    /// Whether the path exists.
    Exists(bool),
    /// The ports that were allocated, and what the token is made from.
    Allocated {
        daemon: u16,
        gui_listen: u16,
        gui_send: u16,
        scsynth: u16,
        osc_cues: u16,
        nanos: u32,
        pid: u32,
    },
    /// No port could be allocated.
    NoPort(PortFault),
    Spawned,
    SpawnFailed(String),
    /// Whether the engine's segment is there, and whether its time is up.
    Probed { up: bool, late: bool },
}

/// What to do next.
pub enum BootAction {
    CheckExists(String),
    AllocatePorts,
    SpawnEngine { program: String, args: Vec<String> },
    /// Look for the segment of this name.
    ProbeEngine(String),
    /// Wait a little, then look again.
    WaitAndProbe(String),
    SpawnSpider { program: String, args: Vec<String> },
    /// Kill the engine, wait for it to be gone, and report the error.
    ReapEngine(CoreError),
    Finish(Ports),
    Fail(CoreError),
}

#[verifier::ext_equal]
pub enum ActionView {
    CheckExists(Seq<char>),
    AllocatePorts,
    SpawnEngine { program: Seq<char>, args: Seq<Seq<char>> },
    ProbeEngine(Seq<char>),
    WaitAndProbe(Seq<char>),
    SpawnSpider { program: Seq<char>, args: Seq<Seq<char>> },
    /// With the text of a spawn error.
    ReapEngine(Seq<char>),
    Finish(Ports),
    /// With the text of a spawn error.
    Fail(Seq<char>),
}

impl BootAction {
    pub open spec fn view(&self) -> ActionView {
        match self {
            BootAction::CheckExists(p) => ActionView::CheckExists(p@),
            BootAction::AllocatePorts => ActionView::AllocatePorts,
            BootAction::SpawnEngine { program, args } => ActionView::SpawnEngine {
                program: program@,
                args: string_views(args@),
            },
            BootAction::ProbeEngine(n) => ActionView::ProbeEngine(n@),
            BootAction::WaitAndProbe(n) => ActionView::WaitAndProbe(n@),
            BootAction::SpawnSpider { program, args } => ActionView::SpawnSpider {
                program: program@,
                args: string_views(args@),
            },
            BootAction::ReapEngine(e) => ActionView::ReapEngine(e.message()),
            BootAction::Finish(p) => ActionView::Finish(*p),
            BootAction::Fail(e) => ActionView::Fail(e.message()),
        }
    }
}

#[verifier::ext_equal]
pub enum BootEventView {
    Exists(bool),
    Allocated(Ports),
    NoPort(Seq<char>),
    Spawned,
    SpawnFailed(Seq<char>),
    Probed { up: bool, late: bool },
}

impl BootEvent {
    pub open spec fn view(&self) -> BootEventView {
        match self {
            BootEvent::Exists(b) => BootEventView::Exists(*b),
            BootEvent::Allocated {
                daemon,
                gui_listen,
                gui_send,
                scsynth,
                osc_cues,
                nanos,
                pid,
            } => BootEventView::Allocated(
                Ports {
                    daemon: *daemon,
                    gui_listen: *gui_listen,
                    gui_send: *gui_send,
                    scsynth: *scsynth,
                    osc_cues: *osc_cues,
                    token: token_of(*nanos, *pid),
                },
            ),
            BootEvent::NoPort(f) => BootEventView::NoPort(f.message()),
            BootEvent::Spawned => BootEventView::Spawned,
            BootEvent::SpawnFailed(t) => BootEventView::SpawnFailed(t@),
            BootEvent::Probed { up, late } => BootEventView::Probed { up: *up, late: *late },
        }
    }
}

/// A boot in progress.
pub struct Boot {
    pub app_root: String,
    pub settings: Vec<(String, String)>,
    pub phase: BootPhase,
    pub ports: Ports,
}

#[verifier::ext_equal]
pub struct BootView {
    pub app_root: Seq<char>,
    pub settings: Seq<(Seq<char>, Seq<char>)>,
    pub phase: BootPhase,
    pub ports: Ports,
}

impl View for Boot {
    type V = BootView;

    open spec fn view(&self) -> BootView {
        BootView {
            app_root: self.app_root@,
            settings: pair_views(self.settings@),
            phase: self.phase,
            ports: self.ports,
        }
    }
}

/// Where the engine is, under the application directory.
pub open spec fn engine_path(app_root: Seq<char>) -> Seq<char> {
    path_join(app_root, "server/native/supersonic"@)
}

/// Where Spider is, under the application directory.
pub open spec fn spider_path(app_root: Seq<char>) -> Seq<char> {
    path_join(runtime_path(app_root, SonicPiPath::ServerBin), "spider-server.rb"@)
}

/// The text of a spawn error.
pub open spec fn spawn_error(t: Seq<char>) -> Seq<char> {
    "process spawn: "@ + t
}

/// Whether an event is an outcome of the action that a phase stands for.
pub open spec fn fits(phase: BootPhase, e: BootEventView) -> bool {
    match phase {
        BootPhase::CheckEngine | BootPhase::CheckSpider => e is Exists,
        BootPhase::Allocate => e is Allocated || e is NoPort,
        BootPhase::StartEngine | BootPhase::StartSpider => e is Spawned || e is SpawnFailed,
        BootPhase::AwaitEngine => e is Probed,
        BootPhase::Running | BootPhase::Failed => false,
    }
}

/// What follows when `e` came of the action that the boot stood at.
pub open spec fn boot_next(b: BootView, e: BootEventView) -> (BootView, ActionView) {
    let failed = BootView { phase: BootPhase::Failed, ..b };
    match (b.phase, e) {
        (BootPhase::CheckEngine, BootEventView::Exists(true)) => (
            BootView { phase: BootPhase::CheckSpider, ..b },
            ActionView::CheckExists(spider_path(b.app_root)),
        ),
        (BootPhase::CheckEngine, _) => (
            failed,
            ActionView::Fail(spawn_error("missing "@ + engine_path(b.app_root))),
        ),
        (BootPhase::CheckSpider, BootEventView::Exists(true)) => (
            BootView { phase: BootPhase::Allocate, ..b },
            ActionView::AllocatePorts,
        ),
        (BootPhase::CheckSpider, _) => (
            failed,
            ActionView::Fail(spawn_error("missing "@ + spider_path(b.app_root))),
        ),
        (BootPhase::Allocate, BootEventView::Allocated(ports)) => (
            BootView { phase: BootPhase::StartEngine, ports, ..b },
            ActionView::SpawnEngine {
                program: engine_path(b.app_root),
                args: engine_args(ports.scsynth, b.settings),
            },
        ),
        (BootPhase::Allocate, BootEventView::NoPort(t)) => (
            failed,
            ActionView::Fail(spawn_error(t)),
        ),
        (BootPhase::StartEngine, BootEventView::SpawnFailed(t)) => (
            failed,
            ActionView::Fail(spawn_error("spawning supersonic: "@ + t)),
        ),
        (BootPhase::StartEngine, _) => (
            BootView { phase: BootPhase::AwaitEngine, ..b },
            ActionView::ProbeEngine(segment_name_of(b.ports.scsynth)),
        ),
        (BootPhase::AwaitEngine, BootEventView::Probed { up: true, .. }) => (
            BootView { phase: BootPhase::StartSpider, ..b },
            ActionView::SpawnSpider {
                program: runtime_path(b.app_root, SonicPiPath::Ruby),
                args: spider_arg_list(spider_path(b.app_root), b.ports),
            },
        ),
        (BootPhase::AwaitEngine, BootEventView::Probed { late: true, .. }) => (
            failed,
            ActionView::ReapEngine(spawn_error("supersonic never published its shm"@)),
        ),
        (BootPhase::AwaitEngine, _) => (
            b,
            ActionView::WaitAndProbe(segment_name_of(b.ports.scsynth)),
        ),
        (BootPhase::StartSpider, BootEventView::SpawnFailed(t)) => (
            failed,
            ActionView::ReapEngine(spawn_error("spawning spider: "@ + t)),
        ),
        (BootPhase::StartSpider, _) => (
            BootView { phase: BootPhase::Running, ..b },
            ActionView::Finish(b.ports),
        ),
        _ => (failed, ActionView::Fail(spawn_error(seq![]))),
    }
}

/// The ports of a boot before any are allocated.
pub open spec fn no_ports() -> Ports {
    Ports { daemon: 0, gui_listen: 0, gui_send: 0, scsynth: 0, osc_cues: 0, token: 0 }
}

fn spawn_failure(what: &str, detail: &str) -> (r: CoreError)
    ensures
        r.message() == spawn_error(what@ + detail@),
{
    CoreError::Spawn(String::from_str(what).concat(detail))
}

impl Boot {
    /// A boot of the runtime whose application directory is `app_root`, and the
    /// first thing to do.
    pub fn start(app_root: &str, settings: Vec<(String, String)>) -> (r: (Boot, BootAction))
        ensures
            r.0@.app_root == app_root@,
            r.0@.settings == pair_views(settings@),
            r.0@.phase == BootPhase::CheckEngine,
            r.0@.ports == no_ports(),
            r.1@ == ActionView::CheckExists(engine_path(app_root@)),
    {
        let b: Boot = Boot {
            app_root: String::from_str(app_root),
            settings,
            phase: BootPhase::CheckEngine,
            ports: Ports::from_parts(0, 0, 0, 0, 0, 0),
        };
        let first: String = join_path(app_root, "server/native/supersonic");
        (b, BootAction::CheckExists(first))
    }

    fn spider_rb(&self) -> (r: String)
        ensures
            r@ == spider_path(self@.app_root),
    {
        let paths: SonicPiPaths = resolve(self.app_root.as_str());
        let bin: &String = paths.get(SonicPiPath::ServerBin);
        assert(paths.path_of(SonicPiPath::ServerBin) == runtime_path(
            self@.app_root,
            SonicPiPath::ServerBin,
        ));
        join_path(bin.as_str(), "spider-server.rb")
    }

    fn engine_bin(&self) -> (r: String)
        ensures
            r@ == engine_path(self@.app_root),
    {
        join_path(self.app_root.as_str(), "server/native/supersonic")
    }

    /// What to do after `event` came of the last action.
    pub fn step(self, event: BootEvent) -> (r: (Boot, BootAction))
        requires
            fits(self.phase, event@),
        ensures
            (r.0@, r.1@) == boot_next(self@, event@),
    {
        match self.phase {
            BootPhase::CheckEngine => {
                if let BootEvent::Exists(true) = event {
                    let next: String = self.spider_rb();
                    (
                        Boot { phase: BootPhase::CheckSpider, ..self },
                        BootAction::CheckExists(next),
                    )
                } else {
                    let e: CoreError = spawn_failure("missing ", self.engine_bin().as_str());
                    (Boot { phase: BootPhase::Failed, ..self }, BootAction::Fail(e))
                }
            },
            BootPhase::CheckSpider => {
                if let BootEvent::Exists(true) = event {
                    (Boot { phase: BootPhase::Allocate, ..self }, BootAction::AllocatePorts)
                } else {
                    let e: CoreError = spawn_failure("missing ", self.spider_rb().as_str());
                    (Boot { phase: BootPhase::Failed, ..self }, BootAction::Fail(e))
                }
            },
            BootPhase::Allocate => match event {
                BootEvent::Allocated {
                    daemon,
                    gui_listen,
                    gui_send,
                    scsynth,
                    osc_cues,
                    nanos,
                    pid,
                } => {
                    let token: i32 = session_token(nanos, pid);
                    let ports: Ports = Ports::from_parts(
                        daemon,
                        gui_listen,
                        gui_send,
                        scsynth,
                        osc_cues,
                        token,
                    );
                    let program: String = self.engine_bin();
                    let args: Vec<String> = supersonic_args(scsynth, &self.settings);
                    (
                        Boot { phase: BootPhase::StartEngine, ports, ..self },
                        BootAction::SpawnEngine { program, args },
                    )
                },
                BootEvent::NoPort(f) => {
                    let e: CoreError = match f {
                        PortFault::Bind(t) => spawn_failure("allocating port: ", t.as_str()),
                        PortFault::Address(t) => spawn_failure(
                            "reading allocated port: ",
                            t.as_str(),
                        ),
                    };
                    (Boot { phase: BootPhase::Failed, ..self }, BootAction::Fail(e))
                },
                _ => (
                    Boot { phase: BootPhase::Failed, ..self },
                    BootAction::Fail(CoreError::Spawn(String::new())),
                ),
            },
            BootPhase::StartEngine => match event {
                BootEvent::SpawnFailed(t) => {
                    let e: CoreError = spawn_failure("spawning supersonic: ", t.as_str());
                    (Boot { phase: BootPhase::Failed, ..self }, BootAction::Fail(e))
                },
                _ => {
                    let name: String = segment_name(self.ports.scsynth);
                    (Boot { phase: BootPhase::AwaitEngine, ..self }, BootAction::ProbeEngine(name))
                },
            },
            BootPhase::AwaitEngine => match event {
                BootEvent::Probed { up: true, late: _ } => {
                    let rb: String = self.spider_rb();
                    let args: Vec<String> = spider_args(rb.as_str(), &self.ports);
                    let program: String = String::from_str("ruby");
                    (
                        Boot { phase: BootPhase::StartSpider, ..self },
                        BootAction::SpawnSpider { program, args },
                    )
                },
                BootEvent::Probed { up: false, late: true } => {
                    let e: CoreError = spawn_failure("supersonic never published its shm", "");
                    proof {
                        reveal_strlit("");
                        assert("supersonic never published its shm"@ + ""@
                            =~= "supersonic never published its shm"@);
                    }
                    (Boot { phase: BootPhase::Failed, ..self }, BootAction::ReapEngine(e))
                },
                _ => {
                    let name: String = segment_name(self.ports.scsynth);
                    (self, BootAction::WaitAndProbe(name))
                },
            },
            BootPhase::StartSpider => match event {
                BootEvent::SpawnFailed(t) => {
                    let e: CoreError = spawn_failure("spawning spider: ", t.as_str());
                    (Boot { phase: BootPhase::Failed, ..self }, BootAction::ReapEngine(e))
                },
                _ => {
                    let p: Ports = self.ports;
                    (Boot { phase: BootPhase::Running, ..self }, BootAction::Finish(p))
                },
            },
            _ => (
                Boot { phase: BootPhase::Failed, ..self },
                BootAction::Fail(CoreError::Spawn(String::new())),
            ),
        }
    }
}

/// Whether the engine process exists in a phase.
pub open spec fn engine_exists(phase: BootPhase) -> bool {
    phase == BootPhase::AwaitEngine || phase == BootPhase::StartSpider || phase
        == BootPhase::Running
}

/// A boot leaves no engine behind: it comes to exist only by a spawn that
/// succeeded, and a boot that fails after that kills it.
pub proof fn law_failed_boot_reaps_engine(b: BootView, e: BootEventView)
    requires
        fits(b.phase, e),
    ensures
        ({
            let (n, a) = boot_next(b, e);
            &&& engine_exists(b.phase) && !engine_exists(n.phase) ==> n.phase == BootPhase::Failed
                && a is ReapEngine
            &&& !engine_exists(b.phase) && engine_exists(n.phase) ==> b.phase
                == BootPhase::StartEngine && e is Spawned
            &&& a is ReapEngine ==> engine_exists(b.phase)
        }),
{
}

/// Spider is started only when the engine's segment was seen.
pub proof fn law_spider_waits_for_engine(b: BootView, e: BootEventView)
    requires
        fits(b.phase, e),
        boot_next(b, e).1 is SpawnSpider,
    ensures
        b.phase == BootPhase::AwaitEngine,
        e matches BootEventView::Probed { up, .. } && up,
{
}

/// A boot that finishes hands out the ports that were allocated, and the processes
/// were started with them.
pub proof fn law_boot_keeps_ports(b: BootView, e: BootEventView)
    requires
        fits(b.phase, e),
        !(e is Allocated),
    ensures
        boot_next(b, e).0.ports == b.ports,
        boot_next(b, e).0.app_root == b.app_root,
        boot_next(b, e).1 matches ActionView::Finish(p) ==> p == b.ports,
{
}

/// How far a phase is on the way to a running or a failed boot.
pub open spec fn progress(phase: BootPhase) -> int {
    match phase {
        BootPhase::CheckEngine => 0,
        BootPhase::CheckSpider => 1,
        BootPhase::Allocate => 2,
        BootPhase::StartEngine => 3,
        BootPhase::AwaitEngine => 4,
        BootPhase::StartSpider => 5,
        BootPhase::Running => 6,
        BootPhase::Failed => 6,
    }
}

/// A boot goes on step by step: it only ever stays where it is to wait for the
/// engine, skips nothing on its way to running, and runs once Spider was spawned.
pub proof fn law_boot_goes_forward(b: BootView, e: BootEventView)
    requires
        fits(b.phase, e),
    ensures
        ({
            let (n, a) = boot_next(b, e);
            &&& n.phase == BootPhase::Failed || progress(n.phase) == progress(b.phase) + 1 || (n
                == b && a is WaitAndProbe)
            &&& a is Finish <==> n.phase == BootPhase::Running
            &&& a is Finish <==> b.phase == BootPhase::StartSpider && e is Spawned
            &&& n.phase == BootPhase::Failed <==> a is Fail || a is ReapEngine
        }),
{
}

// Shutting down ---------------------------------------------------------------

/// One of the two processes of the runtime.
#[derive(Debug, Clone, Copy, PartialEq, Eq, Structural)]
pub enum ChildId {
    Spider,
    Supersonic,
}

/// How far a shutdown has come.
#[derive(Debug, Clone, Copy, PartialEq, Eq, Structural)]
pub enum ShutdownPhase {
    /// The child was asked to terminate and is being waited for.
    Waiting(ChildId),
    Done,
}

/// What to do next in a shutdown.
#[derive(Debug, Clone, Copy, PartialEq, Eq, Structural)]
pub enum ShutdownAction {
    /// Ask the child to terminate, then look whether it has.
    Terminate(ChildId),
    /// Wait a little, then look again.
    WaitAndPoll(ChildId),
    /// Kill the child and wait for it to be gone; then ask the other one, if any
    /// is left.
    Kill(ChildId),
    Finish,
}

/// The child that is shut down after this one.
pub open spec fn child_after(c: ChildId) -> Option<ChildId> {
    match c {
        ChildId::Spider => Some(ChildId::Supersonic),
        ChildId::Supersonic => None,
    }
}

/// A shutdown, and the first thing to do: Spider goes first, so that it can take
/// leave of the engine.
pub fn shutdown_start() -> (r: (ShutdownPhase, ShutdownAction))
    ensures
        r == (
            ShutdownPhase::Waiting(ChildId::Spider),
            ShutdownAction::Terminate(ChildId::Spider),
        ),
{
    (ShutdownPhase::Waiting(ChildId::Spider), ShutdownAction::Terminate(ChildId::Spider))
}

/// What follows when the child that is waited for has exited or not, and its time
/// is up or not. A child whose time is up is killed, and then counts as exited.
pub open spec fn shutdown_next(c: ChildId, exited: bool, late: bool) -> (
    ShutdownPhase,
    ShutdownAction,
) {
    if exited {
        match child_after(c) {
            Some(n) => (ShutdownPhase::Waiting(n), ShutdownAction::Terminate(n)),
            None => (ShutdownPhase::Done, ShutdownAction::Finish),
        }
    } else if late {
        (ShutdownPhase::Waiting(c), ShutdownAction::Kill(c))
    } else {
        (ShutdownPhase::Waiting(c), ShutdownAction::WaitAndPoll(c))
    }
}

pub fn shutdown_step(c: ChildId, exited: bool, late: bool) -> (r: (ShutdownPhase, ShutdownAction))
    ensures
        r == shutdown_next(c, exited, late),
{
    if exited {
        match c {
            ChildId::Spider => (
                ShutdownPhase::Waiting(ChildId::Supersonic),
                ShutdownAction::Terminate(ChildId::Supersonic),
            ),
            ChildId::Supersonic => (ShutdownPhase::Done, ShutdownAction::Finish),
        }
    } else if late {
        (ShutdownPhase::Waiting(c), ShutdownAction::Kill(c))
    } else {
        (ShutdownPhase::Waiting(c), ShutdownAction::WaitAndPoll(c))
    }
}

/// A shutdown never leaves a child that has not exited, and never kills one
/// before its time is up.
pub proof fn law_shutdown_leaves_no_child(c: ChildId, exited: bool, late: bool)
    ensures
        !exited ==> shutdown_next(c, exited, late).0 == ShutdownPhase::Waiting(c),
        shutdown_next(c, exited, late).1 is Kill ==> late && !exited,
        shutdown_next(c, exited, late).0 == ShutdownPhase::Done ==> exited && c
            == ChildId::Supersonic,
{
}

/// How far a shutdown has come after looking at the children, each look telling
/// whether the child that is waited for has exited and whether its time is up.
pub open spec fn shutdown_after(looks: Seq<(bool, bool)>) -> ShutdownPhase
    decreases looks.len(),
{
    if looks.len() == 0 {
        ShutdownPhase::Waiting(ChildId::Spider)
    } else {
        match shutdown_after(looks.drop_last()) {
            ShutdownPhase::Waiting(c) => shutdown_next(c, looks.last().0, looks.last().1).0,
            ShutdownPhase::Done => ShutdownPhase::Done,
        }
    }
}

/// A shutdown is done exactly when both children were seen to have exited, Spider
/// first.
pub proof fn law_shutdown_sees_both_exit(looks: Seq<(bool, bool)>)
    ensures
        shutdown_after(looks) == ShutdownPhase::Waiting(ChildId::Spider) <==> forall|i: int|
            0 <= i < looks.len() ==> !(#[trigger] looks[i]).0,
        shutdown_after(looks) == ShutdownPhase::Done <==> exists|i: int, j: int|
            0 <= i < j < looks.len() && (#[trigger] looks[i]).0 && (#[trigger] looks[j]).0,
    decreases looks.len(),
{
    if looks.len() > 0 {
        let before = looks.drop_last();
        law_shutdown_sees_both_exit(before);
        assert forall|i: int| 0 <= i < before.len() implies before[i] == looks[i] by {}
        match shutdown_after(before) {
            ShutdownPhase::Done => {
                let (i, j) = choose|i: int, j: int|
                    0 <= i < j < before.len() && (#[trigger] before[i]).0 && (
                    #[trigger] before[j]).0;
                assert(looks[i].0 && looks[j].0);
            },
            ShutdownPhase::Waiting(c) => {
                if c == ChildId::Spider {
                    assert forall|i: int, j: int|
                        0 <= i < j < looks.len() && (#[trigger] looks[i]).0 && (
                        #[trigger] looks[j]).0 implies false by {
                        assert(!before[i].0);
                    }
                    if !looks.last().0 {
                        assert forall|i: int| 0 <= i < looks.len() implies !(
                        #[trigger] looks[i]).0 by {
                            if i < before.len() {
                                assert(!before[i].0);
                            }
                        }
                    } else {
                        assert(looks[looks.len() - 1].0);
                    }
                } else {
                    let i = choose|i: int| 0 <= i < before.len() && (#[trigger] before[i]).0;
                    assert(looks[i].0);
                    if looks.last().0 {
                        assert(looks[i].0 && looks[looks.len() - 1].0);
                    } else if exists|i: int, j: int|
                        0 <= i < j < looks.len() && (#[trigger] looks[i]).0 && (
                        #[trigger] looks[j]).0 {
                        let (k, l) = choose|i: int, j: int|
                            0 <= i < j < looks.len() && (#[trigger] looks[i]).0 && (
                            #[trigger] looks[j]).0;
                        assert(before[k].0 && before[l].0);
                    }
                }
            },
        }
    }
}

/// Whether a shutdown is confirmed: neither child is running any more.
pub fn shutdown_verified(spider_running: bool, supersonic_running: bool) -> (r: bool)
    ensures
        r == (!spider_running && !supersonic_running),
{
    !spider_running && !supersonic_running
}

// The lock --------------------------------------------------------------------

/// The text of the error for a process whose start time cannot be read.
pub open spec fn unreadable_start(pid: u32) -> Seq<char> {
    "couldn't read start time for pid "@ + decimal(pid as nat) + " (child just spawned?)"@
}

fn start_unreadable(pid: u32) -> (r: CoreError)
    ensures
        r matches CoreError::Io(t) && t@ == unreadable_start(pid),
{
    let mut t: String = String::from_str("couldn't read start time for pid ");
    t.append(nat_text(pid as u64).as_str());
    t.append(" (child just spawned?)");
    CoreError::Io(t)
}

/// The lock that records a session with these ports and processes.
pub open spec fn lock_record(
    ports: Ports,
    spider_pid: u32,
    spider_started: u64,
    supersonic_pid: u32,
    supersonic_started: u64,
) -> SessionLock {
    SessionLock {
        token: ports.token,
        spider_pid,
        spider_started,
        supersonic_pid,
        supersonic_started,
        daemon_port: ports.daemon,
        gui_listen: ports.gui_listen,
        gui_send: ports.gui_send,
        scsynth: ports.scsynth,
        osc_cues: ports.osc_cues,
    }
}

/// The lock that records a running session. It fails when a start time could not be
/// read, for Spider first.
pub fn session_lock(
    ports: &Ports,
    spider_pid: u32,
    spider_started: Option<u64>,
    supersonic_pid: u32,
    supersonic_started: Option<u64>,
) -> (r: Result<SessionLock, CoreError>)
    ensures
        match (spider_started, supersonic_started) {
            (Some(a), Some(b)) => r == Ok::<SessionLock, CoreError>(
                lock_record(*ports, spider_pid, a, supersonic_pid, b),
            ),
            (None, _) => r matches Err(CoreError::Io(t)) && t@ == unreadable_start(spider_pid),
            (_, None) => r matches Err(CoreError::Io(t)) && t@ == unreadable_start(supersonic_pid),
        },
{
    match (spider_started, supersonic_started) {
        (Some(a), Some(b)) => Ok(
            SessionLock {
                token: ports.token,
                spider_pid,
                spider_started: a,
                supersonic_pid,
                supersonic_started: b,
                daemon_port: ports.daemon,
                gui_listen: ports.gui_listen,
                gui_send: ports.gui_send,
                scsynth: ports.scsynth,
                osc_cues: ports.osc_cues,
            },
        ),
        (None, _) => Err(start_unreadable(spider_pid)),
        (_, None) => Err(start_unreadable(supersonic_pid)),
    }
}

/// What is read back from the lock file of a session gives the ports of that
/// session.
pub proof fn law_reattach_finds_ports(
    ports: Ports,
    spider_pid: u32,
    spider_started: u64,
    supersonic_pid: u32,
    supersonic_started: u64,
)
    ensures
        ({
            let lock = lock_record(
                ports,
                spider_pid,
                spider_started,
                supersonic_pid,
                supersonic_started,
            );
            lock_of(pairs_map(pairs_of_text(lock_text(lock)))) matches Some(back) && back == lock
                && lock_ports(back) == ports
        }),
{
    law_lock_round_trip(
        lock_record(ports, spider_pid, spider_started, supersonic_pid, supersonic_started),
    );
}

/// A booted runtime: its ports, its two processes, and how it was booted.
#[derive(Debug, Clone, Copy)]
pub struct Supervisor {
    pub ports: Ports,
    pub spider: u32,
    pub supersonic: u32,
    pub boot_mode: BootMode,
}

/// A lock as the text of its file, or the error that says why there is none.
pub open spec fn lock_file_of(s: Supervisor, stats: Seq<(u32, Seq<char>)>) -> Result<
    Seq<char>,
    Seq<char>,
> {
    match (start_time(stats, s.spider), start_time(stats, s.supersonic)) {
        (Some(a), Some(b)) => Ok(
            lock_text(lock_record(s.ports, s.spider, a as u64, s.supersonic, b as u64)),
        ),
        (None, _) => Err(unreadable_start(s.spider)),
        (_, None) => Err(unreadable_start(s.supersonic)),
    }
}

impl Supervisor {
    /// How the runtime was booted.
    pub fn mode(&self) -> (r: BootMode)
        ensures
            r == self.boot_mode,
    {
        self.boot_mode
    }

    /// The process of the language server.
    pub fn spider_pid(&self) -> (r: u32)
        ensures
            r == self.spider,
    {
        self.spider
    }

    /// The process of the engine.
    pub fn supersonic_pid(&self) -> (r: u32)
        ensures
            r == self.supersonic,
    {
        self.supersonic
    }

    /// The text of the lock file that lets another front end take this runtime
    /// over, the start times of its processes being read from `table`.
    pub fn write_session_lock(&self, table: &ProcessTable) -> (r: Result<String, CoreError>)
        ensures
            match r {
                Ok(t) => lock_file_of(*self, stat_views(table.stats@)) == Ok::<
                    Seq<char>,
                    Seq<char>,
                >(t@),
                Err(CoreError::Io(t)) => lock_file_of(*self, stat_views(table.stats@)) == Err::<
                    Seq<char>,
                    Seq<char>,
                >(t@),
                Err(_) => false,
            },
    {
        let a: Option<u64> = pid_start_time(self.spider, table);
        let b: Option<u64> = pid_start_time(self.supersonic, table);
        match session_lock(&self.ports, self.spider, a, self.supersonic, b) {
            Ok(lock) => Ok(lock.serialize()),
            Err(e) => Err(e),
        }
    }
}

/// A lock that could be written leads back to the runtime: as long as the same
/// processes run it counts as live, and it gives the same ports.
pub proof fn law_written_lock_leads_back(
    s: Supervisor,
    stats: Seq<(u32, Seq<char>)>,
    text: Seq<char>,
)
    requires
        lock_file_of(s, stats) == Ok::<Seq<char>, Seq<char>>(text),
    ensures
        ({
            let found = lock_of(pairs_map(pairs_of_text(text)));
            &&& found matches Some(lock) && lock_ports(lock) == s.ports && same_process(
                stats,
                lock.spider_pid,
                lock.spider_started,
            ) && same_process(stats, lock.supersonic_pid, lock.supersonic_started)
        }),
{
    let a = start_time(stats, s.spider)->0;
    let b = start_time(stats, s.supersonic)->0;
    lemma_start_time_fits(stats, s.spider);
    lemma_start_time_fits(stats, s.supersonic);
    law_lock_round_trip(lock_record(s.ports, s.spider, a as u64, s.supersonic, b as u64));
}

proof fn lemma_start_time_fits(stats: Seq<(u32, Seq<char>)>, pid: u32)
    ensures
        start_time(stats, pid) matches Some(t) ==> t <= u64::MAX,
{
}

} // verus!
