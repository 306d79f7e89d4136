//! The audio ring: interleaved frames of which a reader takes the newest.

use super::segment::{
    audio_slot, ShmError, ShmSegmentHeader, BLOB_OFFSET, MAX_SHM_AUDIO_BUFFERS, SEGMENT_MAGIC,
    SHM_AUDIO_CHANNELS, SHM_AUDIO_FRAMES, SHM_AUDIO_SAMPLE_RATE, SHM_AUDIO_SLOT_SIZE,
};
use vstd::arithmetic::div_mod::{lemma_fundamental_div_mod, lemma_fundamental_div_mod_converse};
use vstd::prelude::*;

verus! {

/// Where a block of frames goes: `first` frames from frame `slot` on, and `wrap`
/// frames from the start of the ring.
#[derive(Debug, Clone, Copy, PartialEq, Eq, Structural)]
pub struct WritePlan {
    pub slot: u32,
    pub first: u32,
    pub wrap: u32,
}

/// Where `num_frames` frames go in a ring of `cap` frames in which `pos` were
/// written before.
pub open spec fn plan_of(pos: u64, cap: u32, num_frames: u32) -> WritePlan {
    let slot = (pos as int % cap as int) as u32;
    let first = if cap - slot <= num_frames {
        (cap - slot) as u32
    } else {
        num_frames
    };
    WritePlan { slot, first, wrap: (num_frames - first) as u32 }
}

pub fn write_plan(pos: u64, cap: u32, num_frames: u32) -> (r: WritePlan)
    requires
        cap > 0,
    ensures
        r == plan_of(pos, cap, num_frames),
        r.slot < cap,
        r.slot + r.first <= cap,
        r.first + r.wrap == num_frames,
{
    let slot: u32 = (pos % cap as u64) as u32;
    let room: u32 = cap - slot;
    let first: u32 = if room <= num_frames {
        room
    } else {
        num_frames
    };
    WritePlan { slot, first, wrap: num_frames - first }
}

/// The newest frames of a ring: `n` of them, from frame number `start` on.
#[derive(Debug, Clone, Copy, PartialEq, Eq, Structural)]
pub struct Window {
    pub start: u64,
    pub n: u64,
    pub cap: u32,
    pub channels: u32,
}

pub open spec fn min_of(a: int, b: int) -> int {
    if a <= b {
        a
    } else {
        b
    }
}

/// How many frames a reader gets that wants `want` of them.
pub open spec fn window_len(cap: u32, wp: u64, want: u64) -> int {
    min_of(min_of(want as int, cap as int), wp as int)
}

/// The window of the newest frames: at most `want`, at most what the ring holds,
/// and at most what was written. `None` when the ring is idle, has no room, or
/// nothing was written.
pub fn latest_window(enabled: u32, cap: u32, channels: u32, wp: u64, want: u64) -> (r: Option<
    Window,
>)
    ensures
        r == (if enabled == 0 || cap == 0 || channels == 0 || wp == 0 {
            None
        } else {
            Some(
                Window {
                    start: (wp - window_len(cap, wp, want)) as u64,
                    n: window_len(cap, wp, want) as u64,
                    cap,
                    channels,
                },
            )
        }),
{
    if enabled == 0 || cap == 0 || channels == 0 || wp == 0 {
        return None;
    }
    let a: u64 = if want <= cap as u64 {
        want
    } else {
        cap as u64
    };
    let n: u64 = if a <= wp {
        a
    } else {
        wp
    };
    Some(Window { start: wp - n, n, cap, channels })
}

impl Window {
    /// Where channel zero of the window's `i`-th frame is, in samples from the
    /// start of the ring.
    pub open spec fn index_of(self, i: int) -> int {
        ((self.start + i) % self.cap as int) * self.channels
    }

    pub fn sample_index(&self, i: u64) -> (r: u64)
        requires
            self.cap > 0,
            i < self.n,
            self.start + self.n <= u64::MAX,
        ensures
            r == self.index_of(i as int),
            r < self.cap * self.channels || self.channels == 0,
    {
        let frame: u64 = (self.start + i) % self.cap as u64;
        let ch: u32 = self.channels;
        let cap: u32 = self.cap;
        assert(0 <= frame * ch <= 0xffff_ffff * 0xffff_ffff) by (nonlinear_arith)
            requires
                0 <= frame < cap,
                cap <= 0xffff_ffff,
                0 <= ch <= 0xffff_ffff,
        ;
        assert(ch > 0 ==> frame * ch < cap * ch) by (nonlinear_arith)
            requires
                0 <= frame < cap,
                0 <= ch,
        ;
        frame * ch as u64
    }
}

/// Whether a block of `num` frames goes into a ring of `cap` frames in two pieces,
/// when `wp` frames were written before: up to the end of the ring, and then at most
/// once around.
pub open spec fn fits_in_two(wp: int, cap: int, num: int) -> bool {
    num <= cap + (cap - wp % cap)
}

/// The frames of a block of interleaved samples.
pub open spec fn frames_of<T>(interleaved: Seq<T>, n: int, ch: int) -> Seq<Seq<T>> {
    Seq::new(n as nat, |f: int| interleaved.subrange(f * ch, f * ch + ch))
}

/// An audio slot: a ring of interleaved frames, and how many were ever written.
pub struct ShmAudioBuffer<T> {
    enabled: u32,
    sample_rate: u32,
    channels: u32,
    capacity_frames: u32,
    write_position: u64,
    data: Vec<T>,
    history: Ghost<Seq<Seq<T>>>,
}

impl<T: Copy> ShmAudioBuffer<T> {
    /// Every frame that was ever written, oldest first.
    pub closed spec fn history(&self) -> Seq<Seq<T>> {
        self.history@
    }

    pub closed spec fn cap(&self) -> int {
        self.capacity_frames as int
    }

    pub closed spec fn ch(&self) -> int {
        self.channels as int
    }

    pub closed spec fn active(&self) -> bool {
        self.enabled != 0
    }

    /// The ring holds the newest frames, each where its number modulo the capacity
    /// says.
    pub closed spec fn wf(&self) -> bool {
        let cap = self.capacity_frames as int;
        let ch = self.channels as int;
        let wp = self.write_position as int;
        &&& cap > 0 && ch > 0
        &&& cap * ch <= u32::MAX
        &&& self.data@.len() == cap * ch
        &&& self.history@.len() == wp
        &&& forall|k: int| 0 <= k < wp ==> (#[trigger] self.history@[k]).len() == ch
        &&& forall|k: int, c: int|
            0 <= k < wp && wp - cap <= k && 0 <= c < ch ==> self.data@[(k % cap) * ch + c]
                == #[trigger] self.history@[k][c]
    }

    /// A slot that writes can flow to, filled with `silence`.
    pub fn activate(silence: T, sample_rate: u32, channels: u32, capacity_frames: u32) -> (r: Self)
        requires
            channels > 0,
            capacity_frames > 0,
            capacity_frames * channels <= u32::MAX,
        ensures
            r.wf(),
            r.active(),
            r.history() == Seq::<Seq<T>>::empty(),
            r.cap() == capacity_frames,
            r.ch() == channels,
            r.rate() == sample_rate,
    {
        let n: u64 = capacity_frames as u64 * channels as u64;
        let mut data: Vec<T> = Vec::new();
        let mut i: u64 = 0;
        while i < n
            invariant
                i <= n,
                data@.len() == i,
            decreases n - i,
        {
            data.push(silence);
            i = i + 1;
        }
        ShmAudioBuffer {
            enabled: 1,
            sample_rate,
            channels,
            capacity_frames,
            write_position: 0,
            data,
            history: Ghost(Seq::empty()),
        }
    }

    /// Marks the slot idle.
    pub fn deactivate(&mut self)
        requires
            old(self).wf(),
        ensures
            final(self).wf(),
            !final(self).active(),
            final(self).history() == old(self).history(),
            final(self).cap() == old(self).cap(),
            final(self).ch() == old(self).ch(),
            final(self).rate() == old(self).rate(),
    {
        self.enabled = 0;
    }

    /// Whether writes are flowing.
    pub fn is_active(&self) -> (r: bool)
        ensures
            r == self.active(),
    {
        self.enabled != 0
    }

    /// How many frames were ever written.
    pub fn position(&self) -> (r: u64)
        requires
            self.wf(),
        ensures
            r == self.history().len(),
    {
        self.write_position
    }

    pub closed spec fn rate(&self) -> u32 {
        self.sample_rate
    }

    /// The frames per second.
    pub fn sample_rate(&self) -> (r: u32)
        ensures
            r == self.rate(),
    {
        self.sample_rate
    }

    /// Appends `num_frames` frames of interleaved samples, the oldest of which are
    /// overwritten once the ring is full.
    pub fn write_interleaved(&mut self, interleaved: &[T], num_frames: u32)
        requires
            old(self).wf(),
            interleaved@.len() >= num_frames * old(self).ch(),
            fits_in_two(old(self).history().len() as int, old(self).cap(), num_frames as int),
            old(self).history().len() + num_frames <= u64::MAX,
        ensures
            final(self).wf(),
            final(self).history() == old(self).history() + frames_of(
                interleaved@,
                num_frames as int,
                old(self).ch(),
            ),
            final(self).cap() == old(self).cap(),
            final(self).ch() == old(self).ch(),
            final(self).active() == old(self).active(),
            final(self).rate() == old(self).rate(),
    {
        let ghost before = self.data@;
        let ghost hist = self.history@;
        let ghost wp = self.write_position as int;
        let ghost cap = self.capacity_frames as int;
        let ghost ch = self.channels as int;
        let ghost num = num_frames as int;
        let channels: u32 = self.channels;
        let plan: WritePlan = write_plan(self.write_position, self.capacity_frames, num_frames);
        let ghost slot = plan.slot as int;
        let ghost first = plan.first as int;
        let ghost wrap = plan.wrap as int;
        proof {
            lemma_block_bounds(slot, first, wrap, cap, ch, num);
        }
        let total: usize = interleaved.len();
        let room: usize = self.data.len();
        let base: usize = (plan.slot as u64 * channels as u64) as usize;
        let head: usize = (plan.first as u64 * channels as u64) as usize;
        let tail: usize = (plan.wrap as u64 * channels as u64) as usize;
        let mut i: usize = 0;
        while i < head
            invariant
                i <= head,
                base + head <= self.data@.len(),
                head <= interleaved@.len(),
                self.data@.len() == before.len(),
                base + head <= room,
                self.enabled == old(self).enabled,
                self.sample_rate == old(self).sample_rate,
                self.channels == old(self).channels,
                self.capacity_frames == old(self).capacity_frames,
                self.write_position == old(self).write_position,
                self.history == old(self).history,
                forall|j: int|
                    0 <= j < before.len() ==> #[trigger] self.data@[j] == (if base <= j < base + i {
                        interleaved@[j - base]
                    } else {
                        before[j]
                    }),
            decreases head - i,
        {
            let x: T = interleaved[i];
            self.data.set(base + i, x);
            i = i + 1;
        }
        let ghost mid = self.data@;
        let mut i: usize = 0;
        while i < tail
            invariant
                i <= tail,
                tail <= self.data@.len(),
                head + tail <= interleaved@.len(),
                head + tail <= total,
                self.data@.len() == mid.len(),
                self.enabled == old(self).enabled,
                self.sample_rate == old(self).sample_rate,
                self.channels == old(self).channels,
                self.capacity_frames == old(self).capacity_frames,
                self.write_position == old(self).write_position,
                self.history == old(self).history,
                forall|j: int|
                    0 <= j < mid.len() ==> #[trigger] self.data@[j] == (if j < i {
                        interleaved@[head + j]
                    } else {
                        mid[j]
                    }),
            decreases tail - i,
        {
            let x: T = interleaved[head + i];
            self.data.set(i, x);
            i = i + 1;
        }
        let ghost added = frames_of(interleaved@, num, ch);
        proof {
            let data = self.data@;
            let hist2 = hist + added;
            assert forall|k: int, c: int|
                0 <= k < wp + num && wp + num - cap <= k && 0 <= c < ch implies data[(k % cap) * ch
                + c] == #[trigger] hist2[k][c] by {
                lemma_sample_after_write(
                    before,
                    mid,
                    data,
                    interleaved@,
                    hist,
                    wp,
                    cap,
                    ch,
                    num,
                    slot,
                    first,
                    wrap,
                    k,
                    c,
                );
            }
            assert forall|k: int| 0 <= k < wp + num implies (#[trigger] hist2[k]).len() == ch by {
                if k >= wp {
                    lemma_frame_bounds(k - wp, num, ch, interleaved@.len() as int);
                }
            }
        }
        self.history = Ghost(hist + added);
        self.write_position = self.write_position + num_frames as u64;
    }

    /// Takes channel zero of the newest frames, at most `want` of them. `false`,
    /// with nothing taken, when the slot is idle or nothing was written.
    pub fn read_latest_mono(&self, out: &mut Vec<T>, want: usize) -> (r: bool)
        requires
            self.wf(),
        ensures
            r == (self.active() && self.history().len() > 0),
            final(out)@ == (if r {
                newest_mono(self.history(), self.cap(), want as int)
            } else {
                Seq::<T>::empty()
            }),
    {
        out.clear();
        match latest_window(
            self.enabled,
            self.capacity_frames,
            self.channels,
            self.write_position,
            want as u64,
        ) {
            Some(w) => {
                let ghost h = self.history@;
                let ghost want_seq = newest_mono(h, self.capacity_frames as int, want as int);
                let mut i: u64 = 0;
                while i < w.n
                    invariant
                        i <= w.n,
                        self.wf(),
                        h == self.history@,
                        w.cap == self.capacity_frames,
                        w.channels == self.channels,
                        w.start + w.n == h.len(),
                        w.n <= w.cap,
                        h.len() <= u64::MAX,
                        h.len() == self.write_position,
                        want_seq.len() == w.n,
                        forall|j: int|
                            0 <= j < w.n ==> #[trigger] want_seq[j] == h[w.start + j][0],
                        out@ == want_seq.take(i as int),
                    decreases w.n - i,
                {
                    let at: u64 = w.sample_index(i);
                    proof {
                        let k = w.start + i;
                        assert(self.data@[(k % (self.capacity_frames as int)) * (self.channels
                            as int) + 0] == h[k][0]);
                        assert(want_seq.take(i + 1) =~= want_seq.take(i as int).push(
                            want_seq[i as int],
                        ));
                    }
                    out.push(self.data[at as usize]);
                    i = i + 1;
                }
                assert(want_seq.take(w.n as int) =~= want_seq);
                true
            },
            None => false,
        }
    }
}

/// Channel zero of the newest frames of `history`: at most `want`, and at most what
/// a ring of `cap` frames holds.
pub open spec fn newest_mono<T>(history: Seq<Seq<T>>, cap: int, want: int) -> Seq<T> {
    let n = min_of(min_of(want, cap), history.len() as int);
    Seq::new(n as nat, |i: int| history[history.len() - n + i][0])
}

proof fn lemma_frame_bounds(f: int, num: int, ch: int, len: int)
    requires
        0 <= f < num,
        ch > 0,
        num * ch <= len,
    ensures
        0 <= f * ch,
        f * ch + ch <= len,
{
    assert(f * ch + ch <= num * ch && 0 <= f * ch) by (nonlinear_arith)
        requires
            0 <= f < num,
            ch > 0,
    ;
}

proof fn lemma_block_bounds(slot: int, first: int, wrap: int, cap: int, ch: int, num: int)
    requires
        0 <= slot,
        0 <= first,
        slot + first <= cap,
        0 <= wrap <= cap,
        first + wrap == num,
        ch > 0,
        cap * ch <= u32::MAX,
    ensures
        0 <= slot * ch,
        0 <= first * ch,
        0 <= wrap * ch,
        slot * ch + first * ch <= cap * ch,
        wrap * ch <= cap * ch,
        first * ch + wrap * ch == num * ch,
{
    assert(slot * ch + first * ch <= cap * ch) by (nonlinear_arith)
        requires
            slot + first <= cap,
            ch > 0,
    ;
    assert(first * ch + wrap * ch == num * ch) by (nonlinear_arith)
        requires
            first + wrap == num,
    ;
    assert(wrap * ch <= cap * ch) by (nonlinear_arith)
        requires
            wrap <= cap,
            ch > 0,
    ;
    assert(0 <= slot * ch && 0 <= first * ch && 0 <= wrap * ch) by (nonlinear_arith)
        requires
            0 <= slot,
            0 <= first,
            0 <= wrap,
            ch > 0,
    ;
}

/// The sample of frame `k` and channel `c` in the ring after a write.
proof fn lemma_sample_after_write<T>(
    before: Seq<T>,
    mid: Seq<T>,
    data: Seq<T>,
    block: Seq<T>,
    hist: Seq<Seq<T>>,
    wp: int,
    cap: int,
    ch: int,
    num: int,
    slot: int,
    first: int,
    wrap: int,
    k: int,
    c: int,
)
    requires
        cap > 0,
        ch > 0,
        0 <= num,
        wrap <= cap,
        hist.len() == wp,
        before.len() == cap * ch,
        mid.len() == cap * ch,
        data.len() == cap * ch,
        block.len() >= num * ch,
        slot == wp % cap,
        first == (if cap - slot <= num {
            cap - slot
        } else {
            num
        }),
        wrap == num - first,
        0 <= k < wp + num,
        wp + num - cap <= k,
        0 <= c < ch,
        forall|x: int| 0 <= x < wp ==> (#[trigger] hist[x]).len() == ch,
        forall|x: int, y: int|
            0 <= x < wp && wp - cap <= x && 0 <= y < ch ==> before[(x % cap) * ch + y]
                == #[trigger] hist[x][y],
        forall|j: int|
            0 <= j < before.len() ==> #[trigger] mid[j] == (if slot * ch <= j < slot * ch + first
                * ch {
                block[j - slot * ch]
            } else {
                before[j]
            }),
        forall|j: int|
            0 <= j < mid.len() ==> #[trigger] data[j] == (if j < wrap * ch {
                block[first * ch + j]
            } else {
                mid[j]
            }),
    ensures
        data[(k % cap) * ch + c] == (hist + frames_of(block, num, ch))[k][c],
{
    lemma_frame_index(wp, cap, k - wp);
    let p = k % cap;
    assert(0 <= p < cap) by (nonlinear_arith)
        requires
            cap > 0,
            p == k % cap,
    ;
    let j = p * ch + c;
    assert(0 <= j < cap * ch) by (nonlinear_arith)
        requires
            j == p * ch + c,
            0 <= p < cap,
            0 <= c < ch,
    ;
    if k >= wp {
        let f = k - wp;
        lemma_frame_bounds(f, num, ch, block.len() as int);
        let frame = frames_of(block, num, ch)[f];
        assert(frame[c] == block[f * ch + c]);
        if f < first {
            assert(p == slot + f);
            assert(j >= wrap * ch) by (nonlinear_arith)
                requires
                    j == p * ch + c,
                    p >= wrap,
                    c >= 0,
                    ch > 0,
            ;
            assert(j - slot * ch == f * ch + c) by (nonlinear_arith)
                requires
                    j == p * ch + c,
                    p == slot + f,
            ;
            assert(slot * ch <= j < slot * ch + first * ch) by (nonlinear_arith)
                requires
                    j - slot * ch == f * ch + c,
                    0 <= f < first,
                    0 <= c < ch,
            ;
        } else {
            assert(p == f - first);
            assert(j < wrap * ch) by (nonlinear_arith)
                requires
                    j == p * ch + c,
                    p < wrap,
                    c < ch,
                    ch > 0,
            ;
            assert(first * ch + j == f * ch + c) by (nonlinear_arith)
                requires
                    j == p * ch + c,
                    p == f - first,
            ;
        }
    } else {
        assert(p >= wrap && (p < slot || p >= slot + first));
        assert(j >= wrap * ch) by (nonlinear_arith)
            requires
                j == p * ch + c,
                p >= wrap,
                c >= 0,
                ch > 0,
        ;
        assert(!(slot * ch <= j < slot * ch + first * ch)) by (nonlinear_arith)
            requires
                j == p * ch + c,
                p < slot || p >= slot + first,
                0 <= c < ch,
        ;
        assert(before[(k % cap) * ch + c] == hist[k][c]);
    }
}

/// Frame numbers near `wp`, modulo the capacity.
proof fn lemma_frame_index(wp: int, cap: int, t: int)
    requires
        cap > 0,
        wp >= 0,
    ensures
        0 <= wp % cap < cap,
        0 <= wp % cap + t < cap ==> (wp + t) % cap == wp % cap + t,
        0 <= wp % cap + t - cap < cap ==> (wp + t) % cap == wp % cap + t - cap,
        0 <= wp % cap + t + cap < cap ==> (wp + t) % cap == wp % cap + t + cap,
{
    let s = wp % cap;
    let q = wp / cap;
    lemma_fundamental_div_mod(wp, cap);
    assert(cap * q == q * cap) by (nonlinear_arith);
    assert((q + 1) * cap == q * cap + cap) by (nonlinear_arith);
    assert((q - 1) * cap == q * cap - cap) by (nonlinear_arith);
    if 0 <= s + t < cap {
        lemma_fundamental_div_mod_converse(wp + t, cap, q, s + t);
    }
    if 0 <= s + t - cap < cap {
        lemma_fundamental_div_mod_converse(wp + t, cap, q + 1, s + t - cap);
    }
    if 0 <= s + t + cap < cap {
        lemma_fundamental_div_mod_converse(wp + t, cap, q - 1, s + t + cap);
    }
}

/// What a reader gets after a write is the newest of what was written: the block's
/// own frames when the reader wants no more than those.
pub proof fn law_reader_gets_newest<T>(
    history: Seq<Seq<T>>,
    block: Seq<Seq<T>>,
    cap: int,
    want: int,
)
    requires
        0 <= want <= block.len(),
        want <= cap,
    ensures
        newest_mono(history + block, cap, want) =~= Seq::new(
            want as nat,
            |i: int| block[block.len() - want + i][0],
        ),
{
}

/// The stand-in for the engine: a published segment with one active audio slot.
pub struct ScopeWriter<T> {
    pub slot0: ShmAudioBuffer<T>,
}

/// The header that the stand-in publishes: the audio region right behind the
/// header, and nothing else.
pub open spec fn writer_header() -> ShmSegmentHeader {
    ShmSegmentHeader {
        magic: SEGMENT_MAGIC,
        blob_offset: BLOB_OFFSET,
        blob_size: (MAX_SHM_AUDIO_BUFFERS * SHM_AUDIO_SLOT_SIZE) as u32,
        audio_offset: 0,
        audio_slot_count: MAX_SHM_AUDIO_BUFFERS,
        audio_slot_bytes: SHM_AUDIO_SLOT_SIZE,
        in_ring_offset: 0,
        in_ring_size: 0,
        out_ring_offset: 0,
        out_ring_size: 0,
        debug_ring_offset: 0,
        debug_ring_size: 0,
        control_offset: 0,
        metrics_offset: 0,
        metrics_field_count: 0,
        node_tree_offset: 0,
        node_tree_header_bytes: 0,
        node_tree_entry_bytes: 0,
        node_tree_max_nodes: 0,
        scope_offset: 0,
        scope_max: 0,
        scope_header_bytes: 0,
        scope_slot_bytes: 0,
        scope_slot_header: 0,
        scope_frames: 0,
        scope_channels: 0,
        native_stats_offset: 0,
    }
}

impl<T: Copy> ScopeWriter<T> {
    /// The header to publish.
    pub fn header() -> (r: ShmSegmentHeader)
        ensures
            r == writer_header(),
    {
        let mut h: ShmSegmentHeader = ShmSegmentHeader::zeroed();
        proof {
            let w = super::segment::header_words(h);
            assert(forall|i: int| 0 <= i < 27 ==> #[trigger] w[i] == 0u32);
            assert(w[3] == 0 && w[4] == 0 && w[5] == 0 && w[6] == 0 && w[7] == 0 && w[8] == 0);
            assert(w[9] == 0 && w[10] == 0 && w[11] == 0 && w[12] == 0 && w[13] == 0);
            assert(w[14] == 0 && w[15] == 0 && w[19] == 0 && w[20] == 0 && w[21] == 0);
            assert(w[22] == 0 && w[23] == 0 && w[24] == 0 && w[25] == 0 && w[26] == 0);
        }
        h.magic = SEGMENT_MAGIC;
        h.blob_offset = BLOB_OFFSET;
        h.blob_size = MAX_SHM_AUDIO_BUFFERS * SHM_AUDIO_SLOT_SIZE;
        h.audio_offset = 0;
        h.audio_slot_count = MAX_SHM_AUDIO_BUFFERS;
        h.audio_slot_bytes = SHM_AUDIO_SLOT_SIZE;
        h
    }

    /// The bytes of the segment.
    pub fn segment_size() -> (r: u64)
        ensures
            r == BLOB_OFFSET + MAX_SHM_AUDIO_BUFFERS * SHM_AUDIO_SLOT_SIZE,
    {
        BLOB_OFFSET as u64 + MAX_SHM_AUDIO_BUFFERS as u64 * SHM_AUDIO_SLOT_SIZE as u64
    }

    /// A published segment whose master slot holds `silence`.
    pub fn create(silence: T) -> (r: ScopeWriter<T>)
        ensures
            r.slot0.wf(),
            r.slot0.active(),
            r.slot0.history() == Seq::<Seq<T>>::empty(),
            r.slot0.cap() == SHM_AUDIO_FRAMES,
            r.slot0.ch() == SHM_AUDIO_CHANNELS,
            r.slot0.rate() == SHM_AUDIO_SAMPLE_RATE,
    {
        ScopeWriter {
            slot0: ShmAudioBuffer::activate(
                silence,
                SHM_AUDIO_SAMPLE_RATE,
                SHM_AUDIO_CHANNELS,
                SHM_AUDIO_FRAMES,
            ),
        }
    }

    /// Appends frames to the master slot.
    pub fn write_interleaved(&mut self, interleaved: &[T], num_frames: u32)
        requires
            old(self).slot0.wf(),
            interleaved@.len() >= num_frames * old(self).slot0.ch(),
            fits_in_two(
                old(self).slot0.history().len() as int,
                old(self).slot0.cap(),
                num_frames as int,
            ),
            old(self).slot0.history().len() + num_frames <= u64::MAX,
        ensures
            final(self).slot0.wf(),
            final(self).slot0.history() == old(self).slot0.history() + frames_of(
                interleaved@,
                num_frames as int,
                old(self).slot0.ch(),
            ),
            final(self).slot0.cap() == old(self).slot0.cap(),
            final(self).slot0.ch() == old(self).slot0.ch(),
            final(self).slot0.active() == old(self).slot0.active(),
            final(self).slot0.rate() == old(self).slot0.rate(),
    {
        self.slot0.write_interleaved(interleaved, num_frames);
    }

    /// How many frames were ever written.
    pub fn writer_position(&self) -> (r: u64)
        requires
            self.slot0.wf(),
        ensures
            r == self.slot0.history().len(),
    {
        self.slot0.position()
    }
}

/// A reader of the master audio slot.
#[derive(Debug, Clone, Copy, PartialEq, Eq, Structural)]
pub struct ScopeReader {
    /// Where the slot is, in bytes from the start of the segment.
    pub slot0: u64,
}

impl ScopeReader {
    /// The reader of a segment with this header.
    pub fn open(h: &ShmSegmentHeader) -> (r: Result<ScopeReader, ShmError>)
        ensures
            match r {
                Ok(s) => audio_slot(*h) == Ok::<int, ShmError>(s.slot0 as int),
                Err(e) => audio_slot(*h) == Err::<int, ShmError>(e),
            },
    {
        if h.magic != SEGMENT_MAGIC {
            return Err(ShmError::BadMagicWriter);
        }
        if h.audio_slot_count == 0 {
            return Err(ShmError::NoAudioSlots);
        }
        Ok(ScopeReader { slot0: h.blob_offset as u64 + h.audio_offset as u64 })
    }

    /// Whether `slot`, the slot that is read, is being written.
    pub fn is_active<T: Copy>(&self, slot: &ShmAudioBuffer<T>) -> (r: bool)
        ensures
            r == slot.active(),
    {
        slot.is_active()
    }

    /// Takes channel zero of the newest frames of `slot`, the slot that is read, at
    /// most `want` of them. `false`, with `out` empty, when there are none.
    pub fn read_latest_mono<T: Copy>(
        &self,
        slot: &ShmAudioBuffer<T>,
        out: &mut Vec<T>,
        want: usize,
    ) -> (r: bool)
        requires
            slot.wf(),
        ensures
            r == (slot.active() && slot.history().len() > 0),
            final(out)@ == (if r {
                newest_mono(slot.history(), slot.cap(), want as int)
            } else {
                Seq::<T>::empty()
            }),
    {
        slot.read_latest_mono(out, want)
    }
}

/// A reader finds the slot that the stand-in writes to, inside the segment.
pub proof fn law_reader_finds_writer()
    ensures
        audio_slot(writer_header()) == Ok::<int, ShmError>(BLOB_OFFSET as int),
        BLOB_OFFSET + SHM_AUDIO_SLOT_SIZE <= BLOB_OFFSET + MAX_SHM_AUDIO_BUFFERS
            * SHM_AUDIO_SLOT_SIZE,
{
}

} // verus!
