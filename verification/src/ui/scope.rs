//! The scope pane: its display modes, and when it looks for data.

use vstd::prelude::*;
use vstd::string::*;

verus! {

/// How the scope shows its data.
#[derive(Debug, Clone, Copy, PartialEq, Eq, Structural)]
pub enum ScopeMode {
    Mono,
    Stereo,
    Mirror,
    Lissajous,
    Spectrum,
}

/// The mode after `m`.
pub open spec fn mode_after(m: ScopeMode) -> ScopeMode {
    match m {
        ScopeMode::Mono => ScopeMode::Stereo,
        ScopeMode::Stereo => ScopeMode::Mirror,
        ScopeMode::Mirror => ScopeMode::Lissajous,
        ScopeMode::Lissajous => ScopeMode::Spectrum,
        ScopeMode::Spectrum => ScopeMode::Mono,
    }
}

/// What a mode is called in the header.
pub open spec fn mode_label(m: ScopeMode) -> Seq<char> {
    match m {
        ScopeMode::Mono => "Mono"@,
        ScopeMode::Stereo => "Stereo"@,
        ScopeMode::Mirror => "Mirror"@,
        ScopeMode::Lissajous => "Liss"@,
        ScopeMode::Spectrum => "Spec"@,
    }
}

impl ScopeMode {
    /// The mode after this one.
    pub fn next(self) -> (r: ScopeMode)
        ensures
            r == mode_after(self),
    {
        match self {
            ScopeMode::Mono => ScopeMode::Stereo,
            ScopeMode::Stereo => ScopeMode::Mirror,
            ScopeMode::Mirror => ScopeMode::Lissajous,
            ScopeMode::Lissajous => ScopeMode::Spectrum,
            ScopeMode::Spectrum => ScopeMode::Mono,
        }
    }

    /// What the mode is called in the header.
    pub fn label(self) -> (r: &'static str)
        ensures
            r@ == mode_label(self),
    {
        match self {
            ScopeMode::Mono => "Mono",
            ScopeMode::Stereo => "Stereo",
            ScopeMode::Mirror => "Mirror",
            ScopeMode::Lissajous => "Liss",
            ScopeMode::Spectrum => "Spec",
        }
    }
}

/// The modes form a cycle of five, in which every mode comes up.
pub proof fn law_modes_form_a_cycle(m: ScopeMode)
    ensures
        mode_after(mode_after(mode_after(mode_after(mode_after(m))))) == m,
        forall|k: ScopeMode|
            k == m || k == mode_after(m) || k == mode_after(mode_after(m)) || k == mode_after(
                mode_after(mode_after(m)),
            ) || #[trigger] mode_after(k) == m,
{
}

/// Where the waveform comes from.
#[derive(Debug, Clone, Copy, PartialEq, Eq, Structural)]
pub enum ScopeSource {
    /// A scope slot of the engine.
    RealSlot,
    /// The audio ring of the development flow.
    FakeRing,
    Detached,
}

/// How many ticks lie between two attempts to attach: about a second's worth.
pub const RETRY_TICKS: u32 = 30;

/// How many samples are read from the ring at a time.
pub const RING_WINDOW: usize = 1024;

/// How many samples the demonstration signal has.
pub const DEMO_SAMPLES: usize = 128;

/// The state of the scope.
#[derive(Debug, Clone, Copy, PartialEq, Eq, Structural)]
pub struct Scope {
    pub running: bool,
    pub mode: ScopeMode,
    pub source: ScopeSource,
    /// Ticks to the next attempt to attach.
    pub retry: u32,
    /// Whether data has ever come in.
    pub live: bool,
}

/// What to do for the scope in a tick.
#[derive(Debug, Clone, Copy, PartialEq, Eq, Structural)]
pub enum ScopeStep {
    /// Nothing, and nothing else that depends on it.
    Skip,
    /// Try to attach to the engine's segment.
    Attach,
    /// Take the newest window of the scope slot.
    PullSlot,
    /// Take the newest window of the ring.
    PullRing,
}

/// The scope before anything is attached.
pub open spec fn fresh_scope() -> Scope {
    Scope {
        running: true,
        mode: ScopeMode::Mono,
        source: ScopeSource::Detached,
        retry: 0,
        live: false,
    }
}

/// What a tick does to the scope, and what there is to do. A paused scope does
/// nothing; a detached one counts down to its next attempt; an attached one takes
/// what is newest.
pub open spec fn scope_tick(s: Scope) -> (Scope, ScopeStep) {
    if !s.running {
        (s, ScopeStep::Skip)
    } else {
        match s.source {
            ScopeSource::Detached => if s.retry > 0 {
                (Scope { retry: (s.retry - 1) as u32, ..s }, ScopeStep::Skip)
            } else {
                (Scope { retry: RETRY_TICKS, ..s }, ScopeStep::Attach)
            },
            ScopeSource::RealSlot => (s, ScopeStep::PullSlot),
            ScopeSource::FakeRing => (s, ScopeStep::PullRing),
        }
    }
}

impl Scope {
    pub fn new() -> (r: Scope)
        ensures
            r == fresh_scope(),
    {
        Scope {
            running: true,
            mode: ScopeMode::Mono,
            source: ScopeSource::Detached,
            retry: 0,
            live: false,
        }
    }

    /// Moves on by a tick.
    pub fn tick(self) -> (r: (Scope, ScopeStep))
        ensures
            r == scope_tick(self),
    {
        if !self.running {
            (self, ScopeStep::Skip)
        } else {
            match self.source {
                ScopeSource::Detached => if self.retry > 0 {
                    (Scope { retry: self.retry - 1, ..self }, ScopeStep::Skip)
                } else {
                    (Scope { retry: RETRY_TICKS, ..self }, ScopeStep::Attach)
                },
                ScopeSource::RealSlot => (self, ScopeStep::PullSlot),
                ScopeSource::FakeRing => (self, ScopeStep::PullRing),
            }
        }
    }
}

/// The scope `n` ticks on, while no attempt to attach succeeds.
pub open spec fn after_ticks(s: Scope, n: nat) -> Scope
    decreases n,
{
    if n == 0 {
        s
    } else {
        after_ticks(scope_tick(s).0, (n - 1) as nat)
    }
}

/// A running scope that is not attached tries again once its countdown is over,
/// and not before.
pub proof fn law_detached_scope_tries_again(s: Scope, n: nat)
    requires
        s.running,
        s.source == ScopeSource::Detached,
        n <= s.retry,
    ensures
        after_ticks(s, n) == (Scope { retry: (s.retry - n) as u32, ..s }),
        scope_tick(after_ticks(s, n)).1 == ScopeStep::Attach <==> n == s.retry,
    decreases n,
{
    if n > 0 {
        law_detached_scope_tries_again(scope_tick(s).0, (n - 1) as nat);
    }
}

/// What the scope draws.
#[derive(Debug, Clone, Copy, PartialEq, Eq, Structural)]
pub enum Drawing {
    /// The bars and peaks of the spectrum.
    Bars,
    /// One trace around the middle.
    Single,
    /// Two traces of half the height, left on top.
    Double,
    /// The left side up from the middle, the right side down.
    Mirrored,
    /// A dot a frame, left across and right upwards.
    Dots,
}

/// What the scope draws, and whether it is live data: without data the spectrum
/// falls back to a single trace of the demonstration signal.
pub open spec fn drawing_of(mode: ScopeMode, live: bool, samples: int) -> (Drawing, bool) {
    let data = live && samples > 0;
    (match mode {
        ScopeMode::Mono => Drawing::Single,
        ScopeMode::Stereo => Drawing::Double,
        ScopeMode::Mirror => Drawing::Mirrored,
        ScopeMode::Lissajous => Drawing::Dots,
        ScopeMode::Spectrum => if data {
            Drawing::Bars
        } else {
            Drawing::Single
        },
    }, data)
}

/// What the scope draws for `samples` samples of data, and whether that is live.
pub fn drawing(mode: ScopeMode, live: bool, samples: usize) -> (r: (Drawing, bool))
    ensures
        r == drawing_of(mode, live, samples as int),
{
    let data: bool = live && samples > 0;
    let d: Drawing = match mode {
        ScopeMode::Mono => Drawing::Single,
        ScopeMode::Stereo => Drawing::Double,
        ScopeMode::Mirror => Drawing::Mirrored,
        ScopeMode::Lissajous => Drawing::Dots,
        ScopeMode::Spectrum => if data {
            Drawing::Bars
        } else {
            Drawing::Single
        },
    };
    (d, data)
}

/// The right side of a window: the right channel if it has as many samples as the
/// left, else the left channel.
pub open spec fn right_side<T>(left: Seq<T>, right: Seq<T>) -> Seq<T> {
    if right.len() == left.len() {
        right
    } else {
        left
    }
}

/// The samples to show on the right side.
pub fn right_channel<'a, T>(left: &'a Vec<T>, right: &'a Vec<T>) -> (r: &'a Vec<T>)
    ensures
        r@ == right_side(left@, right@),
{
    if right.len() == left.len() {
        right
    } else {
        left
    }
}

/// What assistive technology calls the scope.
pub open spec fn scope_label_of(live: bool) -> Seq<char> {
    if live {
        "Audio scope waveform (live)"@
    } else {
        "Audio scope waveform"@
    }
}

pub fn scope_label(live: bool) -> (r: &'static str)
    ensures
        r@ == scope_label_of(live),
{
    if live {
        "Audio scope waveform (live)"
    } else {
        "Audio scope waveform"
    }
}

/// The title of the scope's pane, which tells live samples from the trace that is
/// shown without any.
pub open spec fn scope_title_of(live: bool) -> Seq<char> {
    if live {
        "Scope · live (shm)"@
    } else {
        "Scope · demo"@
    }
}

pub fn scope_title(live: bool) -> (r: &'static str)
    ensures
        r@ == scope_title_of(live),
{
    if live {
        "Scope · live (shm)"
    } else {
        "Scope · demo"
    }
}

/// The newest `cap` of some values.
pub open spec fn newest<T>(s: Seq<T>, cap: int) -> Seq<T> {
    if s.len() > cap {
        s.skip(s.len() - cap)
    } else {
        s
    }
}

/// Adds a window of samples to a rolling one of at most `cap` samples, of which the
/// newest are kept.
pub fn feed<T: Copy>(rolling: &mut Vec<T>, window: &Vec<T>, cap: usize)
    ensures
        final(rolling)@ == newest(old(rolling)@ + window@, cap as int),
{
    let ghost before = rolling@;
    let mut i: usize = 0;
    assert(rolling@ =~= before + window@.take(0));
    while i < window.len()
        invariant
            i <= window@.len(),
            rolling@ == before + window@.take(i as int),
        decreases window@.len() - i,
    {
        rolling.push(window[i]);
        i = i + 1;
        assert(rolling@ =~= before + window@.take(i as int));
    }
    assert(window@.take(i as int) =~= window@);
    let ghost all = rolling@;
    if rolling.len() > cap {
        let n: usize = rolling.len() - cap;
        let mut kept: Vec<T> = Vec::new();
        let mut k: usize = n;
        while k < rolling.len()
            invariant
                n <= k <= rolling@.len(),
                rolling@ == all,
                kept@ == all.subrange(n as int, k as int),
            decreases rolling@.len() - k,
        {
            kept.push(rolling[k]);
            k = k + 1;
            assert(kept@ =~= all.subrange(n as int, k as int));
        }
        assert(kept@ =~= all.skip(n as int));
        *rolling = kept;
    }
}

/// The sample rate that the spectrum is computed for: that of the output device,
/// or the usual one where it is not known.
pub open spec fn rate_of(device_rate: Option<i32>) -> u32 {
    match device_rate {
        Some(r) => if (r as u32) > 0 {
            r as u32
        } else {
            48000
        },
        None => 48000,
    }
}

pub fn spectrum_rate(device_rate: Option<i32>) -> (r: u32)
    ensures
        r == rate_of(device_rate),
{
    match device_rate {
        Some(d) => {
            let u: u32 = #[verifier::truncate] (d as u32);
            if u > 0 {
                u
            } else {
                48000
            }
        },
        None => 48000,
    }
}

/// A tick leaves a paused scope alone; an attached one takes from what it is attached
/// to; a detached one tries to attach when its countdown is over, and counts thirty
/// ticks to the next attempt.
pub proof fn law_scope_ticks(s: Scope)
    ensures
        !s.running ==> scope_tick(s) == (s, ScopeStep::Skip),
        s.running && s.source == ScopeSource::RealSlot ==> scope_tick(s) == (
            s,
            ScopeStep::PullSlot,
        ),
        s.running && s.source == ScopeSource::FakeRing ==> scope_tick(s) == (
            s,
            ScopeStep::PullRing,
        ),
        s.running && s.source == ScopeSource::Detached && s.retry == 0 ==> scope_tick(s) == (
            Scope { retry: 30, ..s },
            ScopeStep::Attach,
        ),
        s.running && s.source == ScopeSource::Detached && s.retry > 0 ==> scope_tick(s).1
            == ScopeStep::Skip && scope_tick(s).0.retry + 1 == s.retry,
{
}

/// Each mode has a drawing of its own, whatever the data; but without live data the
/// spectrum is drawn as one trace.
pub proof fn law_modes_draw_their_own(live: bool, samples: int)
    ensures
        drawing_of(ScopeMode::Mono, live, samples).0 == Drawing::Single,
        drawing_of(ScopeMode::Stereo, live, samples).0 == Drawing::Double,
        drawing_of(ScopeMode::Mirror, live, samples).0 == Drawing::Mirrored,
        drawing_of(ScopeMode::Lissajous, live, samples).0 == Drawing::Dots,
        live && samples > 0 ==> drawing_of(ScopeMode::Spectrum, live, samples).0 == Drawing::Bars,
        !live || samples <= 0 ==> drawing_of(ScopeMode::Spectrum, live, samples).0
            == Drawing::Single,
        forall|m: ScopeMode|
            (#[trigger] drawing_of(m, live, samples)).1 == (live && samples > 0),
{
}

/// No two modes have one name.
pub proof fn law_modes_have_their_own_names(a: ScopeMode, b: ScopeMode)
    requires
        a != b,
    ensures
        mode_label(a) != mode_label(b),
{
    reveal_strlit("Mono");
    reveal_strlit("Stereo");
    reveal_strlit("Mirror");
    reveal_strlit("Liss");
    reveal_strlit("Spec");
    assert("Mono"@[0] == 'M' && "Liss"@[0] == 'L' && "Spec"@[0] == 'S');
    assert("Stereo"@[0] == 'S' && "Mirror"@[0] == 'M');
    assert(mode_label(a).len() == mode_label(b).len() ==> mode_label(a)[0] != mode_label(b)[0]);
}

/// What is kept of some samples is their end: as many as there is room for, none left
/// out between two that stay.
pub proof fn law_newest_are_the_last<T>(s: Seq<T>, t: Seq<T>, cap: int)
    requires
        cap >= 0,
    ensures
        newest(s, cap).len() == if s.len() > cap {
            cap
        } else {
            s.len() as int
        },
        forall|i: int|
            0 <= i < newest(s, cap).len() ==> #[trigger] newest(s, cap)[i] == s[s.len() - newest(
                s,
                cap,
            ).len() + i],
        newest(newest(s, cap) + t, cap) == newest(s + t, cap),
{
    assert(newest(newest(s, cap) + t, cap) =~= newest(s + t, cap));
}

/// The right side shows the right channel if it is as long as the left one, and the
/// left one otherwise.
pub proof fn law_right_side_is_as_long_as_the_left<T>(left: Seq<T>, right: Seq<T>)
    ensures
        right_side(left, right).len() == left.len(),
        right.len() == left.len() ==> right_side(left, right) == right,
        right.len() != left.len() ==> right_side(left, right) == left,
{
}

/// The spectrum goes by the rate of the device, and by the usual one where there is
/// none.
pub proof fn law_spectrum_goes_by_the_device(rate: i32)
    ensures
        rate > 0 ==> rate_of(Some(rate)) == rate,
        rate_of(Some(0)) == 48000,
        rate_of(None) == 48000,
{
}

} // verus!
