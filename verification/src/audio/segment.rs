//! The layout of the engine's shared-memory segment.
//!
//! A segment describes itself: a header at its front says where its regions are.
//! The functions here turn a header into places to read from, and refuse a header
//! whose regions would lie outside the segment.

use super::metrics_idx::LINK_TEMPO_MBPM;
use vstd::prelude::*;
use vstd::string::*;

verus! {

/// The name of the segment that the stand-in writer publishes.
pub const SCOPE_SHM_NAME: &'static str = "/sonic_scope_spike";

pub const SHM_AUDIO_SAMPLE_RATE: u32 = 48_000;

pub const SHM_AUDIO_SECONDS: u32 = 1;

/// The frames in an audio slot: the sample rate times the seconds.
pub const SHM_AUDIO_FRAMES: u32 = 48_000;

pub const SHM_AUDIO_CHANNELS: u32 = 2;

pub const MAX_SHM_AUDIO_BUFFERS: u32 = 4;

pub const SHM_AUDIO_MASTER_SLOT: u32 = 0;

/// What the first word of a published segment holds.
pub const SEGMENT_MAGIC: u32 = 0x5C09_E006;

/// Where the regions start, behind the header.
pub const BLOB_OFFSET: u32 = 256;

/// The bytes before the samples of an audio slot.
pub const SHM_AUDIO_SLOT_HEADER: u32 = 32;

/// The bytes of an audio slot: its header, and four for each sample.
pub const SHM_AUDIO_SLOT_SIZE: u32 = 384_032;

/// Where the state of a scope slot is, in bytes from its start.
pub const SCOPE_SLOT_STATE_OFF: u32 = 0;

/// Where the stage of a scope slot is, in bytes from its start.
pub const SCOPE_SLOT_STAGE_OFF: u32 = 8;

/// The header at the front of a segment.
#[derive(Debug, Clone, Copy, PartialEq, Eq, Structural)]
pub struct ShmSegmentHeader {
    pub magic: u32,
    pub blob_offset: u32,
    pub blob_size: u32,
    pub in_ring_offset: u32,
    pub in_ring_size: u32,
    pub out_ring_offset: u32,
    pub out_ring_size: u32,
    pub debug_ring_offset: u32,
    pub debug_ring_size: u32,
    pub control_offset: u32,
    pub metrics_offset: u32,
    pub metrics_field_count: u32,
    pub node_tree_offset: u32,
    pub node_tree_header_bytes: u32,
    pub node_tree_entry_bytes: u32,
    pub node_tree_max_nodes: u32,
    pub audio_offset: u32,
    pub audio_slot_count: u32,
    pub audio_slot_bytes: u32,
    pub scope_offset: u32,
    pub scope_max: u32,
    pub scope_header_bytes: u32,
    pub scope_slot_bytes: u32,
    pub scope_slot_header: u32,
    pub scope_frames: u32,
    pub scope_channels: u32,
    pub native_stats_offset: u32,
}

/// The words of a header, in the order in which they stand in the segment.
pub open spec fn header_words(h: ShmSegmentHeader) -> Seq<u32> {
    seq![
        h.magic, h.blob_offset, h.blob_size, h.in_ring_offset, h.in_ring_size, h.out_ring_offset,
        h.out_ring_size, h.debug_ring_offset, h.debug_ring_size, h.control_offset,
        h.metrics_offset, h.metrics_field_count, h.node_tree_offset, h.node_tree_header_bytes,
        h.node_tree_entry_bytes, h.node_tree_max_nodes, h.audio_offset, h.audio_slot_count,
        h.audio_slot_bytes, h.scope_offset, h.scope_max, h.scope_header_bytes, h.scope_slot_bytes,
        h.scope_slot_header, h.scope_frames, h.scope_channels, h.native_stats_offset,
    ]
}

/// The number of words in a header.
pub const HEADER_WORDS: usize = 27;

impl ShmSegmentHeader {
    /// A header of zeros.
    pub fn zeroed() -> (r: ShmSegmentHeader)
        ensures
            header_words(r) == Seq::new(27, |i: int| 0u32),
    {
        let r: ShmSegmentHeader = ShmSegmentHeader {
            magic: 0,
            blob_offset: 0,
            blob_size: 0,
            in_ring_offset: 0,
            in_ring_size: 0,
            out_ring_offset: 0,
            out_ring_size: 0,
            debug_ring_offset: 0,
            debug_ring_size: 0,
            control_offset: 0,
            metrics_offset: 0,
            metrics_field_count: 0,
            node_tree_offset: 0,
            node_tree_header_bytes: 0,
            node_tree_entry_bytes: 0,
            node_tree_max_nodes: 0,
            audio_offset: 0,
            audio_slot_count: 0,
            audio_slot_bytes: 0,
            scope_offset: 0,
            scope_max: 0,
            scope_header_bytes: 0,
            scope_slot_bytes: 0,
            scope_slot_header: 0,
            scope_frames: 0,
            scope_channels: 0,
            native_stats_offset: 0,
        };
        assert(header_words(r) =~= Seq::new(27, |i: int| 0u32));
        r
    }

    /// The header that these words are.
    pub fn from_words(w: &[u32]) -> (r: ShmSegmentHeader)
        requires
            w@.len() == HEADER_WORDS,
        ensures
            header_words(r) == w@,
    {
        let r: ShmSegmentHeader = ShmSegmentHeader {
            magic: w[0],
            blob_offset: w[1],
            blob_size: w[2],
            in_ring_offset: w[3],
            in_ring_size: w[4],
            out_ring_offset: w[5],
            out_ring_size: w[6],
            debug_ring_offset: w[7],
            debug_ring_size: w[8],
            control_offset: w[9],
            metrics_offset: w[10],
            metrics_field_count: w[11],
            node_tree_offset: w[12],
            node_tree_header_bytes: w[13],
            node_tree_entry_bytes: w[14],
            node_tree_max_nodes: w[15],
            audio_offset: w[16],
            audio_slot_count: w[17],
            audio_slot_bytes: w[18],
            scope_offset: w[19],
            scope_max: w[20],
            scope_header_bytes: w[21],
            scope_slot_bytes: w[22],
            scope_slot_header: w[23],
            scope_frames: w[24],
            scope_channels: w[25],
            native_stats_offset: w[26],
        };
        assert(header_words(r) =~= w@);
        r
    }

    /// The words of this header.
    pub fn words(&self) -> (r: Vec<u32>)
        ensures
            r@ == header_words(*self),
    {
        let r: Vec<u32> = vec![
            self.magic, self.blob_offset, self.blob_size, self.in_ring_offset, self.in_ring_size,
            self.out_ring_offset, self.out_ring_size, self.debug_ring_offset, self.debug_ring_size,
            self.control_offset, self.metrics_offset, self.metrics_field_count,
            self.node_tree_offset, self.node_tree_header_bytes, self.node_tree_entry_bytes,
            self.node_tree_max_nodes, self.audio_offset, self.audio_slot_count,
            self.audio_slot_bytes, self.scope_offset, self.scope_max, self.scope_header_bytes,
            self.scope_slot_bytes, self.scope_slot_header, self.scope_frames, self.scope_channels,
            self.native_stats_offset,
        ];
        assert(r@ =~= header_words(*self));
        r
    }
}

/// Why a segment cannot be read.
#[derive(Debug, Clone, Copy, PartialEq, Eq, Structural)]
pub enum ShmError {
    /// The segment was not published, and its writer is asked for.
    BadMagicWriter,
    /// The segment was not published, and the engine is asked for.
    BadMagicEngine,
    NoAudioSlots,
    NoSuchScopeSlot,
    ScopeRegionsDontFit,
    ScopeSlotOutOfBounds,
    NoMetrics,
}

impl ShmError {
    pub open spec fn message(self) -> Seq<char> {
        match self {
            ShmError::BadMagicWriter => "bad shm magic — is the writer running?"@,
            ShmError::BadMagicEngine => "bad shm magic — is the engine running?"@,
            ShmError::NoAudioSlots => "no audio slots"@,
            ShmError::NoSuchScopeSlot => "no such scope slot"@,
            ShmError::ScopeRegionsDontFit => "scope regions don't fit the advertised slot size"@,
            ShmError::ScopeSlotOutOfBounds => "scope slot out of segment bounds"@,
            ShmError::NoMetrics => "no metrics region"@,
        }
    }

    /// The error as it is shown.
    pub fn text(self) -> (r: &'static str)
        ensures
            r@ == self.message(),
    {
        match self {
            ShmError::BadMagicWriter => "bad shm magic — is the writer running?",
            ShmError::BadMagicEngine => "bad shm magic — is the engine running?",
            ShmError::NoAudioSlots => "no audio slots",
            ShmError::NoSuchScopeSlot => "no such scope slot",
            ShmError::ScopeRegionsDontFit => "scope regions don't fit the advertised slot size",
            ShmError::ScopeSlotOutOfBounds => "scope slot out of segment bounds",
            ShmError::NoMetrics => "no metrics region",
        }
    }
}

/// Where the master audio slot is, in bytes from the start of the segment, or why
/// there is none.
pub open spec fn audio_slot(h: ShmSegmentHeader) -> Result<int, ShmError> {
    if h.magic != SEGMENT_MAGIC {
        Err(ShmError::BadMagicWriter)
    } else if h.audio_slot_count == 0 {
        Err(ShmError::NoAudioSlots)
    } else {
        Ok(h.blob_offset + h.audio_offset + SHM_AUDIO_MASTER_SLOT * h.audio_slot_bytes)
    }
}

/// The bytes of the three regions of a scope slot.
pub open spec fn scope_regions_bytes(h: ShmSegmentHeader) -> int {
    3 * h.scope_frames * h.scope_channels * 4
}

/// Where scope slot `index` starts.
pub open spec fn scope_slot_offset(h: ShmSegmentHeader, index: u32) -> int {
    h.blob_offset + h.scope_offset + h.scope_header_bytes + index * h.scope_slot_bytes
}

/// Why scope slot `index` cannot be read, if so.
pub open spec fn scope_fault(h: ShmSegmentHeader, size: int, index: u32) -> Option<ShmError> {
    if h.magic != SEGMENT_MAGIC {
        Some(ShmError::BadMagicEngine)
    } else if index >= h.scope_max || h.scope_frames == 0 || h.scope_channels == 0 {
        Some(ShmError::NoSuchScopeSlot)
    } else if h.scope_slot_header + scope_regions_bytes(h) > h.scope_slot_bytes {
        Some(ShmError::ScopeRegionsDontFit)
    } else if scope_slot_offset(h, index) + h.scope_slot_bytes > size {
        Some(ShmError::ScopeSlotOutOfBounds)
    } else {
        None
    }
}

/// A reader of one scope slot: three regions of planar samples, of which the
/// slot's stage names the newest.
#[derive(Debug, Clone, Copy, PartialEq, Eq, Structural)]
pub struct ScopeSlotReader {
    /// Where the slot is, in bytes from the start of the segment.
    pub slot: u64,
    /// Where its regions start, in bytes from the start of the slot.
    pub data_off: u32,
    pub frames: u32,
    pub channels: u32,
    /// The stage that was read last, or -1.
    pub last_stage: i32,
}

/// Samples to read: where they start, in bytes from the start of the slot, and how
/// many there are.
#[derive(Debug, Clone, Copy, PartialEq, Eq, Structural)]
pub struct ScopeRegion {
    pub offset: u64,
    pub frames: u32,
}

impl ScopeSlotReader {
    /// Whether the samples of a region can be counted in 32 bits, as they can in a
    /// slot of a segment.
    pub open spec fn wf(self) -> bool {
        self.frames * self.channels * 12 <= u32::MAX
    }

    /// The reader of slot `index` in a segment with this header and this many
    /// bytes.
    pub fn open(
        h: &ShmSegmentHeader,
        size: u64,
        index: u32,
    ) -> (r: Result<ScopeSlotReader, ShmError>)
        ensures
            match r {
                Ok(s) => scope_fault(*h, size as int, index) is None && s == (ScopeSlotReader {
                    slot: scope_slot_offset(*h, index) as u64,
                    data_off: h.scope_slot_header,
                    frames: h.scope_frames,
                    channels: h.scope_channels,
                    last_stage: (-1) as i32,
                }) && s.wf(),
                Err(e) => scope_fault(*h, size as int, index) == Some(e),
            },
    {
        if h.magic != SEGMENT_MAGIC {
            return Err(ShmError::BadMagicEngine);
        }
        let frames: u32 = h.scope_frames;
        let channels: u32 = h.scope_channels;
        if index >= h.scope_max || frames == 0 || channels == 0 {
            return Err(ShmError::NoSuchScopeSlot);
        }
        assert(frames * channels <= 0xffff_ffff * 0xffff_ffff) by (nonlinear_arith)
            requires
                0 <= frames <= 0xffff_ffff,
                0 <= channels <= 0xffff_ffff,
        ;
        let samples: u128 = frames as u128 * channels as u128;
        let regions: u128 = 3 * samples * 4;
        assert(regions == scope_regions_bytes(*h)) by (nonlinear_arith)
            requires
                regions == 3 * (frames * channels) * 4,
                scope_regions_bytes(*h) == 3 * frames * channels * 4,
        ;
        if h.scope_slot_header as u128 + regions > h.scope_slot_bytes as u128 {
            return Err(ShmError::ScopeRegionsDontFit);
        }
        assert(index * h.scope_slot_bytes <= 0xffff_ffff * 0xffff_ffff) by (nonlinear_arith)
            requires
                0 <= index <= 0xffff_ffff,
                0 <= h.scope_slot_bytes <= 0xffff_ffff,
        ;
        let off: u128 = h.blob_offset as u128 + h.scope_offset as u128
            + h.scope_header_bytes as u128 + index as u128 * h.scope_slot_bytes as u128;
        if off + h.scope_slot_bytes as u128 > size as u128 {
            return Err(ShmError::ScopeSlotOutOfBounds);
        }
        assert(frames * channels * 12 == 3 * frames * channels * 4) by (nonlinear_arith);
        Ok(
            ScopeSlotReader {
                slot: off as u64,
                data_off: h.scope_slot_header,
                frames,
                channels,
                last_stage: -1,
            },
        )
    }

    /// Whether a writer owns a slot with this state.
    pub fn is_active(state: u32) -> (r: bool)
        ensures
            r == (state == 1),
    {
        state == 1
    }

    /// Whether a slot in this state has something new for this reader.
    pub open spec fn has_news(self, state: u32, stage: i32) -> bool {
        state == 1 && 0 <= stage <= 2 && stage != self.last_stage
    }

    /// The samples of channel zero in the region that `stage` names.
    pub open spec fn region_of(self, stage: i32) -> ScopeRegion {
        ScopeRegion {
            offset: (self.data_off + stage * self.frames * self.channels * 4) as u64,
            frames: self.frames,
        }
    }

    /// What to read from a slot with this state and stage: the newest region, or
    /// nothing when no writer owns the slot or the region was read already.
    pub fn next_region(&mut self, state: u32, stage: i32) -> (r: Option<ScopeRegion>)
        requires
            old(self).wf(),
        ensures
            old(self).has_news(state, stage) ==> r == Some(old(self).region_of(stage))
                && *final(self) == (ScopeSlotReader { last_stage: stage, ..*old(self) }),
            !old(self).has_news(state, stage) ==> r is None && *final(self) == *old(self),
            final(self).wf(),
    {
        if state != 1 || stage < 0 || stage > 2 || stage == self.last_stage {
            return None;
        }
        self.last_stage = stage;
        let frames: u32 = self.frames;
        let channels: u32 = self.channels;
        assert(frames * channels <= 0xffff_ffff && stage * (frames * channels) * 4 <= 2 * (frames
            * channels) * 4 && stage * frames * channels * 4 == stage * (frames * channels) * 4
            && stage * (frames * channels) >= 0) by (nonlinear_arith)
            requires
                frames * channels * 12 <= 0xffff_ffff,
                0 <= stage <= 2,
                0 <= frames,
                0 <= channels,
        ;
        let samples: u64 = frames as u64 * channels as u64;
        let skip: u64 = stage as u64 * samples * 4;
        Some(ScopeRegion { offset: self.data_off as u64 + skip, frames })
    }

    /// Takes channel zero of the newest region, `samples` being what the slot holds
    /// of all three. `false`, with `out` left as it was, when there is nothing new.
    pub fn pull_latest_mono<T: Copy>(
        &mut self,
        state: u32,
        stage: i32,
        samples: &[T],
        out: &mut Vec<T>,
    ) -> (r: bool)
        requires
            old(self).wf(),
            old(self).channels > 0,
            samples@.len() >= 3 * old(self).frames * old(self).channels,
        ensures
            r == old(self).has_news(state, stage),
            r ==> *final(self) == (ScopeSlotReader { last_stage: stage, ..*old(self) }),
            r ==> final(out)@ == samples@.subrange(
                stage * old(self).frames * old(self).channels,
                stage * old(self).frames * old(self).channels + old(self).frames,
            ),
            !r ==> *final(self) == *old(self) && final(out)@ == old(out)@,
    {
        match self.next_region(state, stage) {
            Some(region) => {
                let frames: u32 = self.frames;
                let channels: u32 = self.channels;
                let ghost from = stage * frames * channels;
                assert(from + frames <= 3 * frames * channels && from == stage * (frames * channels)
                    && 0 <= from && frames * channels <= 0xffff_ffff) by (nonlinear_arith)
                    requires
                        from == stage * frames * channels,
                        0 <= stage <= 2,
                        0 <= frames,
                        0 < channels,
                        frames * channels * 12 <= 0xffff_ffff,
                ;
                let total: usize = samples.len();
                let per: u64 = frames as u64 * channels as u64;
                let start: usize = (stage as u64 * per) as usize;
                let ghost want = samples@.subrange(from, from + frames);
                out.clear();
                let mut i: u32 = 0;
                while i < region.frames
                    invariant
                        i <= region.frames,
                        region.frames == frames,
                        start == from,
                        start + frames <= total,
                        total == samples@.len(),
                        want == samples@.subrange(from, from + frames),
                        out@ == want.take(i as int),
                    decreases region.frames - i,
                {
                    out.push(samples[start + i as usize]);
                    i = i + 1;
                    assert(want.take(i as int) =~= want.take(i - 1).push(want[i - 1]));
                }
                assert(want.take(i as int) =~= want);
                true
            },
            None => false,
        }
    }
}

/// The region that a reader is sent to lies within its slot, and the slot within
/// the segment.
pub proof fn law_scope_region_in_bounds(
    h: ShmSegmentHeader,
    size: int,
    index: u32,
    stage: i32,
)
    requires
        scope_fault(h, size, index) is None,
        0 <= stage <= 2,
    ensures
        h.scope_slot_header + stage * h.scope_frames * h.scope_channels * 4 + h.scope_frames * 4
            <= h.scope_slot_bytes,
        scope_slot_offset(h, index) + h.scope_slot_bytes <= size,
{
    let frames = h.scope_frames as int;
    let channels = h.scope_channels as int;
    assert(stage * frames * channels * 4 + frames * 4 <= 3 * frames * channels * 4)
        by (nonlinear_arith)
        requires
            0 <= stage <= 2,
            frames > 0,
            channels > 0,
    ;
}

/// A region is read once: what follows a pull is no news until the stage moves.
pub proof fn law_no_news_twice(s: ScopeSlotReader, state: u32, stage: i32)
    requires
        s.has_news(state, stage),
    ensures
        !(ScopeSlotReader { last_stage: stage, ..s }).has_news(state, stage),
{
}

/// A reader of the engine's metrics.
#[derive(Debug, Clone, Copy, PartialEq, Eq, Structural)]
pub struct MetricsReader {
    /// Where the fields are, in bytes from the start of the segment.
    pub fields: u64,
    pub count: u32,
}

/// Why the metrics cannot be read, if so.
pub open spec fn metrics_fault(h: ShmSegmentHeader, size: int) -> Option<ShmError> {
    if h.magic != SEGMENT_MAGIC {
        Some(ShmError::BadMagicEngine)
    } else if h.metrics_field_count == 0 || h.blob_offset + h.metrics_offset
        + h.metrics_field_count * 4 > size {
        Some(ShmError::NoMetrics)
    } else {
        None
    }
}

impl MetricsReader {
    /// The reader of the metrics in a segment with this header and this many bytes.
    pub fn open(h: &ShmSegmentHeader, size: u64) -> (r: Result<MetricsReader, ShmError>)
        ensures
            match r {
                Ok(m) => metrics_fault(*h, size as int) is None && m.fields == h.blob_offset
                    + h.metrics_offset && m.count == h.metrics_field_count,
                Err(e) => metrics_fault(*h, size as int) == Some(e),
            },
    {
        if h.magic != SEGMENT_MAGIC {
            return Err(ShmError::BadMagicEngine);
        }
        let off: u64 = h.blob_offset as u64 + h.metrics_offset as u64;
        if h.metrics_field_count == 0 || off + h.metrics_field_count as u64 * 4 > size {
            return Err(ShmError::NoMetrics);
        }
        Ok(MetricsReader { fields: off, count: h.metrics_field_count })
    }

    pub fn field_count(&self) -> (r: u32)
        ensures
            r == self.count,
    {
        self.count
    }

    /// Where a field is, in bytes from the start of the segment; `None` when it is
    /// not published.
    pub fn field_offset(&self, index: usize) -> (r: Option<u64>)
        requires
            self.fields + self.count * 4 <= u64::MAX,
        ensures
            r == (if index < self.count {
                Some((self.fields + index * 4) as u64)
            } else {
                None
            }),
    {
        if index as u64 >= self.count as u64 {
            None
        } else {
            Some(self.fields + index as u64 * 4)
        }
    }

    /// One field, `fields` being what the segment holds of them; `None` when it is
    /// not published.
    pub fn get(&self, fields: &[u32], index: usize) -> (r: Option<u32>)
        requires
            fields@.len() == self.count,
        ensures
            r == (if index < self.count {
                Some(fields@[index as int])
            } else {
                None
            }),
    {
        if index as u64 >= self.count as u64 {
            None
        } else {
            Some(fields[index])
        }
    }

    /// The tempo in thousandths of a beat per minute, if it is published.
    pub fn link_bpm(&self, fields: &[u32]) -> (r: Option<u32>)
        requires
            fields@.len() == self.count,
        ensures
            r == (if LINK_TEMPO_MBPM < self.count {
                Some(fields@[LINK_TEMPO_MBPM as int])
            } else {
                None
            }),
    {
        self.get(fields, LINK_TEMPO_MBPM)
    }
}

} // verus!
