//! The course of a boot and of a shutdown, step by step, and what the processes are
//! started with.

use super::{
    boot_next, engine_args, engine_path, flattened, lock_file_of, segment_name_of,
    shutdown_next, spider_arg_list, spider_path, token_of, wrapping_abs, ActionView,
    BootEventView, BootPhase, BootView, ChildId, PortFault, ShutdownAction, ShutdownPhase,
    Supervisor,
};
use crate::number::{
    decimal, decimal_int, law_decimal_reads_back, law_signed_round_trip,
};
use crate::ports::Ports;
use crate::session_lock::{
    law_lock_round_trip, lock_of, lock_text, start_time, SessionLock,
};
use crate::table::{pairs_map, pairs_of_text};
use vstd::prelude::*;

verus! {

proof fn lemma_flattened(s: Seq<(Seq<char>, Seq<char>)>)
    ensures
        flattened(s).len() == 2 * s.len(),
        forall|k: int|
            0 <= k < s.len() ==> flattened(s)[2 * k] == (#[trigger] s[k]).0 && flattened(s)[2 * k
                + 1] == s[k].1,
    decreases s.len(),
{
    if s.len() > 0 {
        let t = s.drop_last();
        lemma_flattened(t);
        assert forall|k: int| 0 <= k < s.len() implies flattened(s)[2 * k] == (#[trigger] s[k]).0
            && flattened(s)[2 * k + 1] == s[k].1 by {
            if k < t.len() {
                assert(t[k] == s[k]);
                assert(flattened(s)[2 * k] == flattened(t)[2 * k]);
                assert(flattened(s)[2 * k + 1] == flattened(t)[2 * k + 1]);
            }
        }
    }
}

/// The engine is started with its port first, then with the arguments that every
/// engine gets, and last with the user's settings: every one of them, in their order,
/// the flag before its value.
pub proof fn law_engine_gets_its_port_and_all_settings(
    scsynth: u16,
    settings: Seq<(Seq<char>, Seq<char>)>,
)
    ensures
        ({
            let a = engine_args(scsynth, settings);
            &&& a.len() == 18 + 2 * settings.len()
            &&& a[0] == "-u"@ && a[1] == decimal(scsynth as nat)
            &&& a[2] == "-a"@ && a[3] == "1024"@
            &&& a[4] == "-m"@ && a[5] == "131072"@
            &&& a[6] == "-D"@ && a[7] == "0"@
            &&& a[8] == "-R"@ && a[9] == "0"@
            &&& a[10] == "-l"@ && a[11] == "1"@
            &&& a[12] == "-b"@ && a[13] == "4096"@
            &&& a[14] == "-B"@ && a[15] == "127.0.0.1"@
            &&& a[16] == "-Z"@ && a[17] == "1024"@
            &&& forall|k: int|
                0 <= k < settings.len() ==> a[18 + 2 * k] == (#[trigger] settings[k]).0 && a[19 + 2
                    * k] == settings[k].1
        }),
{
    lemma_flattened(settings);
    let a = engine_args(scsynth, settings);
    let f = flattened(settings);
    assert forall|k: int| 0 <= k < settings.len() implies a[18 + 2 * k] == (
    #[trigger] settings[k]).0 && a[19 + 2 * k] == settings[k].1 by {
        assert(a[18 + 2 * k] == f[2 * k]);
        assert(a[19 + 2 * k] == f[2 * k + 1]);
    }
}

/// Engines with two ports, or with two lists of settings, are started differently.
pub proof fn law_engine_arguments_tell_all(
    port: u16,
    settings: Seq<(Seq<char>, Seq<char>)>,
    other_port: u16,
    other: Seq<(Seq<char>, Seq<char>)>,
)
    requires
        engine_args(port, settings) == engine_args(other_port, other),
    ensures
        port == other_port,
        settings == other,
{
    law_engine_gets_its_port_and_all_settings(port, settings);
    law_engine_gets_its_port_and_all_settings(other_port, other);
    law_decimal_reads_back(port as nat);
    law_decimal_reads_back(other_port as nat);
    assert forall|k: int| 0 <= k < settings.len() implies settings[k] == other[k] by {
        assert(engine_args(port, settings)[18 + 2 * k] == settings[k].0);
        assert(engine_args(port, settings)[19 + 2 * k] == settings[k].1);
        assert(engine_args(other_port, other)[18 + 2 * k] == other[k].0);
    }
    assert(settings =~= other);
}

/// Spider is told to listen where the front end sends and to send where it listens;
/// then it is told the engine's port, twice, the port for cues and the token.
pub proof fn law_spider_is_told_the_ports(rb: Seq<char>, p: Ports)
    ensures
        ({
            let a = spider_arg_list(rb, p);
            &&& a.len() == 12
            &&& a[0] == "--enable-frozen-string-literal"@
            &&& a[1] == "-E"@ && a[2] == "utf-8"@
            &&& a[3] == "--yjit"@
            &&& a[4] == rb
            &&& a[5] == "-u"@
            &&& a[6] == decimal(p.gui_send as nat)
            &&& a[7] == decimal(p.gui_listen as nat)
            &&& a[8] == decimal(p.scsynth as nat) && a[9] == a[8]
            &&& a[10] == decimal(p.osc_cues as nat)
            &&& a[11] == decimal_int(p.token as int)
        }),
{
}

/// Two sessions that differ in a port that Spider has to know, or in their token,
/// start it differently.
pub proof fn law_spider_arguments_tell_all(rb: Seq<char>, p: Ports, q: Ports)
    requires
        spider_arg_list(rb, p) == spider_arg_list(rb, q),
    ensures
        p == (Ports { daemon: p.daemon, ..q }),
{
    law_spider_is_told_the_ports(rb, p);
    law_spider_is_told_the_ports(rb, q);
    law_decimal_reads_back(p.gui_send as nat);
    law_decimal_reads_back(q.gui_send as nat);
    law_decimal_reads_back(p.gui_listen as nat);
    law_decimal_reads_back(q.gui_listen as nat);
    law_decimal_reads_back(p.scsynth as nat);
    law_decimal_reads_back(q.scsynth as nat);
    law_decimal_reads_back(p.osc_cues as nat);
    law_decimal_reads_back(q.osc_cues as nat);
    law_signed_round_trip(p.token as int);
    law_signed_round_trip(q.token as int);
}

/// Engines on two ports publish two segments, under names that differ in the port
/// alone.
pub proof fn law_segments_are_told_apart(one: u16, other: u16)
    ensures
        segment_name_of(one) == "/SuperSonic_"@ + decimal(one as nat),
        segment_name_of(one) == segment_name_of(other) <==> one == other,
{
    reveal_strlit("/SuperSonic_");
    law_decimal_reads_back(one as nat);
    law_decimal_reads_back(other as nat);
    assert(segment_name_of(one).skip(12) =~= decimal(one as nat));
    assert(segment_name_of(other).skip(12) =~= decimal(other as nat));
}

/// Where nothing overflows, a token is the clock's share and the process's share
/// added up, made odd.
pub proof fn law_token_mixes_clock_and_process(nanos: u32, pid: u32)
    requires
        nanos * 31 + pid <= 0x7fff_ffff,
    ensures
        ({
            let sum = nanos * 31 + pid;
            token_of(nanos, pid) == if sum % 2 == 1 {
                sum
            } else {
                sum + 1
            }
        }),
{
    let sum = nanos * 31 + pid;
    let n = nanos as i32;
    let p = pid as i32;
    assert(n == nanos && p == pid);
    assert(n.wrapping_mul(31) == n * 31);
    assert(n.wrapping_mul(31).wrapping_add(p) == sum);
    let x = sum as i32;
    assert(wrapping_abs(x) == x);
    assert(x >= 0 ==> (x | 1i32) == if x % 2 == 1 {
        x as int
    } else {
        x + 1
    }) by (bit_vector);
}

/// Where the two programs of the runtime are, under its directory.
pub proof fn law_programs_have_their_places(root: Seq<char>)
    requires
        root.len() > 0 && root.last() != '/',
    ensures
        engine_path(root) == root + "/server/native/supersonic"@,
        spider_path(root) == root + "/server/ruby/bin/spider-server.rb"@,
{
    reveal_strlit("server/native/supersonic");
    reveal_strlit("/server/native/supersonic");
    reveal_strlit("server");
    reveal_strlit("ruby");
    reveal_strlit("bin");
    reveal_strlit("spider-server.rb");
    reveal_strlit("/server/ruby/bin/spider-server.rb");
    assert(root.push('/') + "server/native/supersonic"@ =~= root + "/server/native/supersonic"@);
    let a = root.push('/') + "server"@;
    assert(a.last() == 'r');
    let b = a.push('/') + "ruby"@;
    assert(b.last() == 'y');
    let c = b.push('/') + "bin"@;
    assert(c.last() == 'n');
    assert(c.push('/') + "spider-server.rb"@ =~= root + "/server/ruby/bin/spider-server.rb"@);
}

/// A boot in which everything succeeds looks for Spider, allocates ports, starts the
/// engine with the port that it was given and the user's settings, looks for the
/// engine's segment, starts Spider with the ports, and hands out the ports.
pub proof fn law_boot_that_succeeds(b: BootView, ports: Ports, late: bool)
    requires
        b.phase == BootPhase::CheckEngine,
        b.app_root.len() > 0 && b.app_root.last() != '/',
    ensures
        ({
            let rb = b.app_root + "/server/ruby/bin/spider-server.rb"@;
            let (b1, a1) = boot_next(b, BootEventView::Exists(true));
            let (b2, a2) = boot_next(b1, BootEventView::Exists(true));
            let (b3, a3) = boot_next(b2, BootEventView::Allocated(ports));
            let (b4, a4) = boot_next(b3, BootEventView::Spawned);
            let (b5, a5) = boot_next(b4, BootEventView::Probed { up: true, late });
            let (b6, a6) = boot_next(b5, BootEventView::Spawned);
            &&& a1 == ActionView::CheckExists(rb)
            &&& a2 == ActionView::AllocatePorts
            &&& a3 == (ActionView::SpawnEngine {
                program: b.app_root + "/server/native/supersonic"@,
                args: engine_args(ports.scsynth, b.settings),
            })
            &&& a4 == ActionView::ProbeEngine(segment_name_of(ports.scsynth))
            &&& a5 == (ActionView::SpawnSpider {
                program: "ruby"@,
                args: spider_arg_list(rb, ports),
            })
            &&& a6 == ActionView::Finish(ports)
            &&& b6 == (BootView { phase: BootPhase::Running, ports, ..b })
        }),
{
    law_programs_have_their_places(b.app_root);
}

/// An engine that is not up yet is looked for again as long as it has time, and given
/// up once it has none; one that is up in the end counts even when it is late.
pub proof fn law_engine_is_waited_for(b: BootView, late: bool)
    requires
        b.phase == BootPhase::AwaitEngine,
    ensures
        boot_next(b, BootEventView::Probed { up: false, late: false }) == (
            b,
            ActionView::WaitAndProbe(segment_name_of(b.ports.scsynth)),
        ),
        boot_next(b, BootEventView::Probed { up: false, late: true }) == (
            (BootView { phase: BootPhase::Failed, ..b }),
            ActionView::ReapEngine("process spawn: "@ + "supersonic never published its shm"@),
        ),
        boot_next(b, BootEventView::Probed { up: true, late }).1 is SpawnSpider,
{
}

/// A boot that fails says which step failed and why.
pub proof fn law_boot_says_why_it_failed(b: BootView, t: Seq<char>)
    requires
        b.app_root.len() > 0 && b.app_root.last() != '/',
    ensures
        ({
            let failed = BootView { phase: BootPhase::Failed, ..b };
            &&& b.phase == BootPhase::CheckEngine ==> boot_next(b, BootEventView::Exists(false))
                == (
                failed,
                ActionView::Fail(
                    "process spawn: "@ + ("missing "@ + (b.app_root
                        + "/server/native/supersonic"@)),
                ),
            )
            &&& b.phase == BootPhase::CheckSpider ==> boot_next(b, BootEventView::Exists(false))
                == (
                failed,
                ActionView::Fail(
                    "process spawn: "@ + ("missing "@ + (b.app_root
                        + "/server/ruby/bin/spider-server.rb"@)),
                ),
            )
            &&& b.phase == BootPhase::Allocate ==> boot_next(b, BootEventView::NoPort(t)) == (
                failed,
                ActionView::Fail("process spawn: "@ + t),
            )
            &&& b.phase == BootPhase::StartEngine ==> boot_next(b, BootEventView::SpawnFailed(t))
                == (
                failed,
                ActionView::Fail("process spawn: "@ + ("spawning supersonic: "@ + t)),
            )
            &&& b.phase == BootPhase::StartSpider ==> boot_next(b, BootEventView::SpawnFailed(t))
                == (
                failed,
                ActionView::ReapEngine("process spawn: "@ + ("spawning spider: "@ + t)),
            )
        }),
{
    law_programs_have_their_places(b.app_root);
}

/// The two ways in which there is no port are told apart, each with the system's own
/// words.
pub proof fn law_port_faults_are_told_apart(e: String)
    ensures
        PortFault::Bind(e).message() == "allocating port: "@ + e@,
        PortFault::Address(e).message() == "reading allocated port: "@ + e@,
{
}

/// A shutdown asks Spider to go, and then the engine. A child that is still there is
/// looked at again while it has time, and killed once it has none.
pub proof fn law_shutdown_asks_before_it_kills(c: ChildId, late: bool)
    ensures
        shutdown_next(ChildId::Spider, true, late) == (
            ShutdownPhase::Waiting(ChildId::Supersonic),
            ShutdownAction::Terminate(ChildId::Supersonic),
        ),
        shutdown_next(ChildId::Supersonic, true, late) == (
            ShutdownPhase::Done,
            ShutdownAction::Finish,
        ),
        shutdown_next(c, false, true) == (ShutdownPhase::Waiting(c), ShutdownAction::Kill(c)),
        shutdown_next(c, false, false) == (
            ShutdownPhase::Waiting(c),
            ShutdownAction::WaitAndPoll(c),
        ),
{
}

/// The lock of a runtime names its two processes, each as what it is and with the
/// time at which it started.
pub proof fn law_lock_names_both_processes(
    s: Supervisor,
    stats: Seq<(u32, Seq<char>)>,
    text: Seq<char>,
)
    requires
        lock_file_of(s, stats) == Ok::<Seq<char>, Seq<char>>(text),
    ensures
        lock_of(pairs_map(pairs_of_text(text))) matches Some(lock) && {
            &&& lock.spider_pid == s.spider
            &&& lock.supersonic_pid == s.supersonic
            &&& start_time(stats, s.spider) == Some(lock.spider_started as nat)
            &&& start_time(stats, s.supersonic) == Some(lock.supersonic_started as nat)
            &&& lock.token == s.ports.token
            &&& lock.daemon_port == s.ports.daemon
            &&& lock.gui_listen == s.ports.gui_listen
            &&& lock.gui_send == s.ports.gui_send
            &&& lock.scsynth == s.ports.scsynth
            &&& lock.osc_cues == s.ports.osc_cues
        },
{
    let a = start_time(stats, s.spider)->0;
    let b = start_time(stats, s.supersonic)->0;
    assert(a <= u64::MAX && b <= u64::MAX);
    let lock = SessionLock {
        token: s.ports.token,
        spider_pid: s.spider,
        spider_started: a as u64,
        supersonic_pid: s.supersonic,
        supersonic_started: b as u64,
        daemon_port: s.ports.daemon,
        gui_listen: s.ports.gui_listen,
        gui_send: s.ports.gui_send,
        scsynth: s.ports.scsynth,
        osc_cues: s.ports.osc_cues,
    };
    assert(text == lock_text(lock));
    law_lock_round_trip(lock);
}

/// A lock is written exactly when both processes can be told by their start times;
/// otherwise the error names the first of the two that cannot.
pub proof fn law_lock_needs_both_start_times(s: Supervisor, stats: Seq<(u32, Seq<char>)>)
    ensures
        lock_file_of(s, stats) is Ok <==> start_time(stats, s.spider) is Some && start_time(
            stats,
            s.supersonic,
        ) is Some,
        start_time(stats, s.spider) is None ==> lock_file_of(s, stats) == Err::<
            Seq<char>,
            Seq<char>,
        >(
            "couldn't read start time for pid "@ + decimal(s.spider as nat)
                + " (child just spawned?)"@,
        ),
        start_time(stats, s.spider) is Some && start_time(stats, s.supersonic) is None
            ==> lock_file_of(s, stats) == Err::<Seq<char>, Seq<char>>(
            "couldn't read start time for pid "@ + decimal(s.supersonic as nat)
                + " (child just spawned?)"@,
        ),
{
}

} // verus!
