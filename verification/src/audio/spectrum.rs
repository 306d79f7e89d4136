//! The bookkeeping of the spectrum display: which samples make up a frame, how many
//! bars there are, which bins each bar sums, and how long a peak marker holds. The
//! levels themselves are floats and are computed by the caller.

use vstd::prelude::*;

verus! {

/// The samples in a frame.
pub const FRAME_SAMPLES: usize = 4096;

/// The bins of a frame: half its samples.
pub const SPECTRUM_BINS: usize = 2048;

/// The display frames that a peak marker holds: half a second.
pub const PEAK_HOLD_FRAMES: u32 = 30;

/// The number of bars when at most `max_buckets` can be shown: an eighth of the
/// bins, but never less than four.
pub fn bucket_count(max_buckets: usize) -> (r: usize)
    ensures
        r == (if max_buckets < 4 {
            4
        } else if max_buckets > 256 {
            256
        } else {
            max_buckets as int
        }),
{
    if max_buckets < 4 {
        4
    } else if max_buckets > 256 {
        256
    } else {
        max_buckets
    }
}

/// Which of `len` samples stands at index `i` of a frame: a frame holds the newest
/// samples, and a shorter input leaves its front silent.
pub open spec fn frame_source(len: int, i: int) -> Option<int> {
    let j = len - FRAME_SAMPLES + i;
    if j >= 0 {
        Some(j)
    } else {
        None
    }
}

pub fn frame_sample(len: usize, i: usize) -> (r: Option<usize>)
    requires
        i < FRAME_SAMPLES,
    ensures
        match r {
            Some(j) => frame_source(len as int, i as int) == Some(j as int) && j < len,
            None => frame_source(len as int, i as int) is None,
        },
{
    let gap: usize = FRAME_SAMPLES - i;
    if len >= gap {
        Some(len - gap)
    } else {
        None
    }
}

/// A frame ends with the newest sample and is in their order.
pub proof fn law_frame_is_newest(len: int, i: int)
    requires
        len > 0,
        0 <= i < FRAME_SAMPLES - 1,
    ensures
        frame_source(len, FRAME_SAMPLES - 1) == Some(len - 1),
        frame_source(len, i) matches Some(j) ==> frame_source(len, i + 1) == Some(j + 1),
{
}

/// A bin as a bucket edge: never past the last.
pub fn clamp_bin(bin: usize) -> (r: usize)
    ensures
        r == (if bin < SPECTRUM_BINS {
            bin
        } else {
            SPECTRUM_BINS
        }),
{
    if bin < SPECTRUM_BINS {
        bin
    } else {
        SPECTRUM_BINS
    }
}

/// Whether the bucket edges have to be computed again.
pub fn edges_are_stale(
    last: (usize, u32),
    have_edges: bool,
    buckets: usize,
    sample_rate: u32,
) -> (r:
    bool)
    ensures
        r == !(last.0 == buckets && last.1 == sample_rate && have_edges),
{
    !(last.0 == buckets && last.1 == sample_rate && have_edges)
}

/// The bins that the bar between the edges `lo` and `hi` sums: at least one, and
/// none past the last.
pub open spec fn bucket_bins(lo: usize, hi: usize) -> (int, int) {
    let wanted = if lo + 1 >= hi {
        lo + 1
    } else {
        hi as int
    };
    let end = if wanted <= SPECTRUM_BINS {
        wanted
    } else {
        SPECTRUM_BINS as int
    };
    (if lo < end {
        lo as int
    } else {
        end - 1
    }, end)
}

pub fn bucket_range(lo: usize, hi: usize) -> (r: (usize, usize))
    requires
        lo < usize::MAX,
    ensures
        (r.0 as int, r.1 as int) == bucket_bins(lo, hi),
        r.0 < r.1 <= SPECTRUM_BINS,
{
    let wanted: usize = if lo + 1 >= hi {
        lo + 1
    } else {
        hi
    };
    let end: usize = if wanted <= SPECTRUM_BINS {
        wanted
    } else {
        SPECTRUM_BINS
    };
    (
        if lo < end {
            lo
        } else {
            end - 1
        },
        end,
    )
}

/// What becomes of a peak marker in a display frame.
#[derive(Debug, Clone, Copy, PartialEq, Eq, Structural)]
pub enum PeakMove {
    /// It jumps to the level.
    Raise,
    Hold,
    /// It falls by one frame's worth.
    Fall,
}

/// A peak marker after a display frame: its age, and what becomes of it. It is
/// raised by a level that reaches it, holds for its time, and then falls.
pub open spec fn peak_next(age: u32, reached: bool) -> (int, PeakMove) {
    if reached {
        (0, PeakMove::Raise)
    } else if age + 1 > PEAK_HOLD_FRAMES {
        (age + 1, PeakMove::Fall)
    } else {
        (age + 1, PeakMove::Hold)
    }
}

/// A peak marker that no level reaches any more holds for its time and falls from
/// then on.
pub proof fn law_peak_holds_then_falls(age: u32)
    ensures
        peak_next(age, true) == (0int, PeakMove::Raise),
        peak_next(age, false).0 == age + 1,
        peak_next(age, false).1 == (if age < PEAK_HOLD_FRAMES {
            PeakMove::Hold
        } else {
            PeakMove::Fall
        }),
{
}

pub fn peak_step(age: u32, reached: bool) -> (r: (u32, PeakMove))
    requires
        age < u32::MAX,
    ensures
        (r.0 as int, r.1) == peak_next(age, reached),
{
    if reached {
        (0, PeakMove::Raise)
    } else if age + 1 > PEAK_HOLD_FRAMES {
        (age + 1, PeakMove::Fall)
    } else {
        (age + 1, PeakMove::Hold)
    }
}

} // verus!
